//! Monitoring Station: asteroids on a grid and the lines of sight between them.

use vstd::prelude::*;

use crate::parse::{chars_of, token_bounds, Separator};
use crate::problem::Problem;
use crate::render::to_text;

verus! {

/// The primes that can divide a coordinate difference on the puzzle's grid.
pub const PRIMES: [i64; 8] = [2, 3, 5, 7, 11, 13, 17, 19];

#[derive(Debug, Clone, Copy, PartialEq, Eq, Hash, Structural)]
pub struct Point {
    pub x: i64,
    pub y: i64,
}

#[derive(Debug, Clone, Copy, PartialEq, Eq, Structural)]
pub enum SpaceObject {
    Space,
    Asteroid,
}

#[derive(Debug)]
pub enum ParseError {
    InvalidObject(String),
}

impl SpaceObject {
    /// `.` is empty space and `#` an asteroid.
    pub fn from_char(c: char) -> (r: Result<SpaceObject, ParseError>)
        ensures
            c == '.' ==> r matches Ok(SpaceObject::Space),
            c == '#' ==> r matches Ok(SpaceObject::Asteroid),
            c != '.' && c != '#' ==> r is Err,
    {
        if c == '.' {
            Ok(SpaceObject::Space)
        } else if c == '#' {
            Ok(SpaceObject::Asteroid)
        } else {
            Err(ParseError::InvalidObject(to_text(&vec![c])))
        }
    }
}

/// Reads the map: one row per whitespace-separated word, x counting
/// characters along the row and y counting rows.
pub fn str2map(s: &str) -> (r: Result<Vec<(Point, SpaceObject)>, ParseError>) {
    let cs = chars_of(s);
    let bounds = token_bounds(&cs, Separator::Whitespace);
    let mut map: Vec<(Point, SpaceObject)> = Vec::new();
    let mut row: i64 = 0;
    let mut j: usize = 0;
    while j < bounds.len() && row < i64::MAX
        invariant
            forall|k: int|
                0 <= k < bounds@.len() ==> (#[trigger] bounds@[k]).0 <= bounds@[k].1 <= cs@.len(),
            0 <= row <= j,
            j <= bounds@.len(),
        decreases bounds.len() - j,
    {
        let (lo, hi) = bounds[j];
        if lo < hi {
            let mut i: usize = lo;
            while i < hi
                invariant
                    lo <= i <= hi <= cs@.len(),
                decreases hi - i,
            {
                let obj = SpaceObject::from_char(cs[i])?;
                map.push((Point { x: (i - lo) as i64, y: row }, obj));
                i = i + 1;
            }
            row = row + 1;
        }
        j = j + 1;
    }
    Ok(map)
}

pub open spec fn abs(v: int) -> int {
    if v < 0 {
        -v
    } else {
        v
    }
}

/// Whether `v` is already in `fs`.
fn contains(fs: &Vec<i64>, v: i64) -> (r: bool)
    ensures
        r == fs@.contains(v),
{
    let mut i: usize = 0;
    while i < fs.len()
        invariant
            i <= fs@.len(),
            forall|k: int| 0 <= k < i ==> fs@[k] != v,
        decreases fs.len() - i,
    {
        if fs[i] == v {
            proof {
                assert(fs@[i as int] == v);
            }
            return true;
        }
        i = i + 1;
    }
    false
}

/// The small primes that divide `n`, each with its cofactor, without repeats.
pub fn factors(n: &i64) -> (r: Vec<i64>)
    requires
        *n > i64::MIN,
    ensures
        forall|j: int, k: int| 0 <= j < k < r@.len() ==> r@[j] != r@[k],
{
    let mut fs: Vec<i64> = Vec::new();
    let mut i: usize = 0;
    while i < 8
        invariant
            *n > i64::MIN,
            forall|j: int, k: int| 0 <= j < k < fs@.len() ==> fs@[j] != fs@[k],
        decreases 8 - i,
    {
        let p = PRIMES[i];
        let magnitude: i64 = if *n < 0 {
            -*n
        } else {
            *n
        };
        if magnitude % p == 0 {
            let q = magnitude / p;
            let cofactor = if *n < 0 {
                -q
            } else {
                q
            };
            if !contains(&fs, p) {
                fs.push(p);
            }
            if !contains(&fs, cofactor) {
                fs.push(cofactor);
            }
        }
        i = i + 1;
    }
    fs
}

/// The offsets from `station` at which an asteroid would hide `target`:
/// the difference between them divided by each factor they share.
pub fn points_obscuring(station: &Point, target: &Point) -> (r: Vec<Point>)
    requires
        station != target,
        i64::MIN < target.x - station.x <= i64::MAX,
        i64::MIN < target.y - station.y <= i64::MAX,
{
    let dx = target.x - station.x;
    let dy = target.y - station.y;
    let fx = factors(&dx);
    let fy = factors(&dy);
    let mut blockers: Vec<Point> = Vec::new();
    let mut i: usize = 0;
    while i < fx.len()
        decreases fx.len() - i,
    {
        let f = fx[i];
        if f != 0 && contains(&fy, f) && !(f == -1 && (dx == i64::MIN || dy == i64::MIN)) {
            blockers.push(Point { x: dx / f, y: dy / f });
        }
        i = i + 1;
    }
    blockers
}

/// What the map shows at `p`.
fn object_at(map: &Vec<(Point, SpaceObject)>, p: &Point) -> Option<SpaceObject> {
    let mut i: usize = 0;
    while i < map.len()
        decreases map.len() - i,
    {
        if map[i].0 == *p {
            return Some(map[i].1);
        }
        i = i + 1;
    }
    None
}

/// How many asteroids on the map `station` sees with nothing on its blocking points.
pub fn points_visible_from(station: Point, map: &Vec<(Point, SpaceObject)>) -> (r: usize)
    ensures
        r <= map@.len(),
{
    let mut count: usize = 0;
    let mut i: usize = 0;
    while i < map.len()
        invariant
            count <= i <= map@.len(),
        decreases map.len() - i,
    {
        let (point, target) = map[i];
        let near = -0x4000_0000_0000_0000i64 <= point.x && point.x <= 0x3fff_ffff_ffff_ffff
            && -0x4000_0000_0000_0000i64 <= point.y && point.y <= 0x3fff_ffff_ffff_ffff
            && -0x4000_0000_0000_0000i64 <= station.x && station.x <= 0x3fff_ffff_ffff_ffff
            && -0x4000_0000_0000_0000i64 <= station.y && station.y <= 0x3fff_ffff_ffff_ffff;
        if target == SpaceObject::Asteroid && point != station && near {
            let blockers = points_obscuring(&station, &point);
            let mut clear = true;
            let mut k: usize = 0;
            while k < blockers.len()
                decreases blockers.len() - k,
            {
                if object_at(map, &blockers[k]) == Some(SpaceObject::Asteroid) {
                    clear = false;
                }
                k = k + 1;
            }
            if clear {
                count = count + 1;
            }
        }
        i = i + 1;
    }
    count
}

pub struct DayTen {}

impl Problem for DayTen {
    /// The number of asteroids each asteroid of the sample map sees, `.` for empty space.
    fn part_one(&self, input: &str) -> String {
        let map = match str2map(".#..#\n.....\n#####\n....#\n...##") {
            Ok(m) => m,
            Err(_) => {
                return "the sample map is malformed".to_string();
            },
        };
        let mut text = String::new();
        let mut x: i64 = 0;
        while x < 5
            decreases 5 - x,
        {
            let mut y: i64 = 0;
            while y < 5
                decreases 5 - y,
            {
                let station = Point { x, y };
                match object_at(&map, &station) {
                    Some(SpaceObject::Asteroid) => {
                        text.append(&points_visible_from(station, &map).to_string());
                    },
                    _ => {
                        text.append(".");
                    },
                }
                y = y + 1;
            }
            text.append("\n");
            x = x + 1;
        }
        text
    }

    fn part_two(&self, input: &str) -> String {
        "Part two not yet implemented.".to_string()
    }
}

} // verus!
