//! Crossed Wires: two wires laid out as runs of grid steps from a common origin.

use vstd::prelude::*;

use std::collections::{HashMap, HashSet};

use vstd::std_specs::hash::group_hash_axioms;

use crate::parse::{chars_of, parse_value, split_by, token_bounds, token_value, Separator};
use crate::problem::Problem;

verus! {

/// Why a wire description could not be read.
#[derive(Debug)]
pub enum ParseError {
    /// The text that names no direction.
    InvalidDirection(String),
    /// The text that is no distance.
    InvalidDistance(String),
}

/// What went wrong with a wire description, in terms of its characters.
pub enum MoveFault {
    Direction(Seq<char>),
    Distance(Seq<char>),
}

/// Whether `e` reports the fault `f`.
pub open spec fn reports(e: ParseError, f: MoveFault) -> bool {
    match (e, f) {
        (ParseError::InvalidDirection(t), MoveFault::Direction(x)) => t@ == x,
        (ParseError::InvalidDistance(t), MoveFault::Distance(x)) => t@ == x,
        _ => false,
    }
}

#[derive(Debug, Clone, Copy, PartialEq, Eq, Structural)]
pub enum Direction {
    Up,
    Down,
    Left,
    Right,
}

/// The direction that the one-letter text `s` names.
pub open spec fn direction_spec(s: Seq<char>) -> Option<Direction> {
    if s == seq!['U'] {
        Some(Direction::Up)
    } else if s == seq!['D'] {
        Some(Direction::Down)
    } else if s == seq!['L'] {
        Some(Direction::Left)
    } else if s == seq!['R'] {
        Some(Direction::Right)
    } else {
        None
    }
}

impl Direction {
    pub fn from_str(s: &str) -> (r: Result<Direction, ParseError>)
        ensures
            match direction_spec(s@) {
                Some(d) => r matches Ok(x) && x == d,
                None => r matches Err(e) && reports(e, MoveFault::Direction(s@)),
            },
    {
        if s.unicode_len() == 1 {
            let c = s.get_char(0);
            proof {
                assert(s@ =~= seq![c]);
            }
            if c == 'U' {
                return Ok(Direction::Up);
            } else if c == 'D' {
                return Ok(Direction::Down);
            } else if c == 'L' {
                return Ok(Direction::Left);
            } else if c == 'R' {
                return Ok(Direction::Right);
            }
        }
        Err(ParseError::InvalidDirection(s.to_owned()))
    }
}

/// One run of a wire: a direction and how many grid steps to take.
#[derive(Debug, Clone, Copy, PartialEq, Eq, Structural)]
pub struct Move {
    pub direction: Direction,
    pub distance: usize,
}

/// The distance that `d` spells, once trimmed: a non-negative integer.
pub open spec fn distance_spec(d: Seq<char>) -> Option<usize> {
    match token_value(d) {
        Some(v) => if 0 <= v <= usize::MAX {
            Some(v as usize)
        } else {
            None
        },
        None => None,
    }
}

/// The move that `s` describes: a direction letter and then a distance.
pub open spec fn move_spec(s: Seq<char>) -> Result<Move, MoveFault> {
    if s.len() == 0 {
        Err(MoveFault::Direction(s))
    } else {
        let d = s.subrange(1, s.len() as int);
        match distance_spec(d) {
            None => Err(MoveFault::Distance(d)),
            Some(n) => match direction_spec(s.subrange(0, 1)) {
                None => Err(MoveFault::Direction(s.subrange(0, 1))),
                Some(dir) => Ok(Move { direction: dir, distance: n }),
            },
        }
    }
}

/// The moves of comma-separated tokens, or the fault of the first bad one.
pub open spec fn moves_spec(toks: Seq<Seq<char>>) -> Result<Seq<Move>, MoveFault>
    decreases toks.len(),
{
    if toks.len() == 0 {
        Ok(Seq::empty())
    } else {
        match moves_spec(toks.drop_last()) {
            Err(f) => Err(f),
            Ok(ms) => match move_spec(toks.last()) {
                Err(f) => Err(f),
                Ok(m) => Ok(ms.push(m)),
            },
        }
    }
}

proof fn lemma_moves_error_persists(toks: Seq<Seq<char>>, i: int, n: int)
    requires
        0 <= i <= n <= toks.len(),
        moves_spec(toks.subrange(0, i)) is Err,
    ensures
        moves_spec(toks.subrange(0, n)) == moves_spec(toks.subrange(0, i)),
    decreases n,
{
    if n > i {
        lemma_moves_error_persists(toks, i, n - 1);
        assert(toks.subrange(0, n).drop_last() =~= toks.subrange(0, n - 1));
    }
}

impl Move {
    pub fn from_str(s: &str) -> (r: Result<Move, ParseError>)
        ensures
            match move_spec(s@) {
                Ok(m) => r matches Ok(x) && x == m,
                Err(f) => r matches Err(e) && reports(e, f),
            },
    {
        let cs = chars_of(s);
        let n = cs.len();
        if n == 0 {
            return Err(ParseError::InvalidDirection(s.to_owned()));
        }
        let dist = match parse_value(&cs, 1, n) {
            Some(v) => v,
            None => {
                return Err(ParseError::InvalidDistance(s.substring_char(1, n).to_owned()));
            },
        };
        if dist < 0 || dist as u64 > usize::MAX as u64 {
            return Err(ParseError::InvalidDistance(s.substring_char(1, n).to_owned()));
        }
        let direction = Direction::from_str(s.substring_char(0, 1))?;
        Ok(Move { direction, distance: dist as usize })
    }

    /// Reads a comma-separated list of moves, stopping at the first bad one.
    pub fn move_list_from_str(s: &str) -> (r: Result<Vec<Move>, ParseError>)
        ensures
            match moves_spec(split_by(s@, Separator::Comma)) {
                Ok(ms) => r matches Ok(v) && v@ == ms,
                Err(f) => r matches Err(e) && reports(e, f),
            },
    {
        let cs = chars_of(s);
        let bounds = token_bounds(&cs, Separator::Comma);
        let ghost toks = split_by(s@, Separator::Comma);
        let mut moves: Vec<Move> = Vec::new();
        let mut j: usize = 0;
        proof {
            assert(toks.subrange(0, 0) =~= Seq::<Seq<char>>::empty());
        }
        while j < bounds.len()
            invariant
                cs@ == s@,
                toks == split_by(s@, Separator::Comma),
                toks.len() == bounds@.len(),
                j <= bounds@.len(),
                forall|k: int|
                    0 <= k < bounds@.len() ==> (#[trigger] bounds@[k]).0 <= bounds@[k].1
                        <= cs@.len() && toks[k] == s@.subrange(
                        bounds@[k].0 as int,
                        bounds@[k].1 as int,
                    ),
                moves_spec(toks.subrange(0, j as int)) == Ok::<Seq<Move>, MoveFault>(moves@),
            decreases bounds.len() - j,
        {
            let (lo, hi) = bounds[j];
            proof {
                assert(toks.subrange(0, j + 1).drop_last() =~= toks.subrange(0, j as int));
                assert(toks.subrange(0, j + 1).last() == toks[j as int]);
            }
            match Move::from_str(s.substring_char(lo, hi)) {
                Ok(m) => {
                    moves.push(m);
                },
                Err(e) => {
                    proof {
                        lemma_moves_error_persists(toks, j + 1, toks.len() as int);
                        assert(toks.subrange(0, toks.len() as int) =~= toks);
                    }
                    return Err(e);
                },
            }
            j = j + 1;
        }
        proof {
            assert(toks.subrange(0, toks.len() as int) =~= toks);
        }
        Ok(moves)
    }
}

/// A grid point; y grows downwards.
#[derive(Debug, Clone, Copy, PartialEq, Eq, Hash, Structural)]
pub struct Point {
    pub x: i64,
    pub y: i64,
}

pub open spec fn abs(v: int) -> int {
    if v < 0 {
        -v
    } else {
        v
    }
}

impl Point {
    /// The grid distance from the origin.
    pub fn manhattan_magnitude(&self) -> (r: usize)
        requires
            abs(self.x as int) + abs(self.y as int) <= usize::MAX,
        ensures
            r == abs(self.x as int) + abs(self.y as int),
    {
        let ax: u64 = if self.x < 0 {
            (0i128 - self.x as i128) as u64
        } else {
            self.x as u64
        };
        let ay: u64 = if self.y < 0 {
            (0i128 - self.y as i128) as u64
        } else {
            self.y as u64
        };
        (ax as u128 + ay as u128) as usize
    }
}

/// The point `k` steps from `p` in direction `d`.
pub open spec fn offset(p: Point, d: Direction, k: int) -> (int, int) {
    match d {
        Direction::Up => (p.x as int, p.y - k),
        Direction::Down => (p.x as int, p.y + k),
        Direction::Left => (p.x - k, p.y as int),
        Direction::Right => (p.x + k, p.y as int),
    }
}

pub open spec fn fits(v: int) -> bool {
    i64::MIN <= v <= i64::MAX
}

/// Every point of a run from `p` stays on the machine's grid.
pub open spec fn run_fits(p: Point, step: Move) -> bool {
    fits(offset(p, step.direction, step.distance as int).0) && fits(
        offset(p, step.direction, step.distance as int).1,
    )
}

pub open spec fn as_point(c: (int, int)) -> Point {
    Point { x: c.0 as i64, y: c.1 as i64 }
}

/// The points a run visits after `anchor`, in order.
pub fn extend_point(anchor: Point, step: &Move) -> (r: Vec<Point>)
    requires
        run_fits(anchor, *step),
    ensures
        r@.len() == step.distance,
        forall|k: int|
            0 <= k < step.distance ==> #[trigger] r@[k] == as_point(
                offset(anchor, step.direction, k + 1),
            ),
{
    let mut points: Vec<Point> = Vec::new();
    let mut k: usize = 0;
    while k < step.distance
        invariant
            k <= step.distance,
            run_fits(anchor, *step),
            points@.len() == k,
            forall|j: int|
                0 <= j < k ==> #[trigger] points@[j] == as_point(
                    offset(anchor, step.direction, j + 1),
                ),
        decreases step.distance - k,
    {
        let d = (k + 1) as i128;
        let p = match step.direction {
            Direction::Up => Point { x: anchor.x, y: (anchor.y as i128 - d) as i64 },
            Direction::Down => Point { x: anchor.x, y: (anchor.y as i128 + d) as i64 },
            Direction::Left => Point { x: (anchor.x as i128 - d) as i64, y: anchor.y },
            Direction::Right => Point { x: (anchor.x as i128 + d) as i64, y: anchor.y },
        };
        points.push(p);
        k = k + 1;
    }
    points
}

/// The sum of the distances of `moves`.
pub open spec fn total_distance(moves: Seq<Move>) -> int
    decreases moves.len(),
{
    if moves.len() == 0 {
        0
    } else {
        total_distance(moves.drop_last()) + moves.last().distance
    }
}

/// Where a wire that starts at the origin ends after `moves`.
pub open spec fn path_end(moves: Seq<Move>) -> Point
    decreases moves.len(),
{
    if moves.len() == 0 {
        Point { x: 0, y: 0 }
    } else {
        let m = moves.last();
        as_point(offset(path_end(moves.drop_last()), m.direction, m.distance as int))
    }
}

/// Every point a wire visits after the origin, in order.
pub open spec fn path_points(moves: Seq<Move>) -> Seq<Point>
    decreases moves.len(),
{
    if moves.len() == 0 {
        Seq::empty()
    } else {
        let m = moves.last();
        let start = path_end(moves.drop_last());
        path_points(moves.drop_last()) + Seq::new(
            m.distance as nat,
            |k: int| as_point(offset(start, m.direction, k + 1)),
        )
    }
}

proof fn lemma_path_end_bound(moves: Seq<Move>)
    requires
        total_distance(moves) <= i64::MAX,
    ensures
        abs(path_end(moves).x as int) + abs(path_end(moves).y as int) <= total_distance(moves),
    decreases moves.len(),
{
    if moves.len() > 0 {
        lemma_path_end_bound(moves.drop_last());
    }
}

/// All points that a wire from the origin visits, in order, repeats kept.
pub fn spaces_traversed(moves: &[Move]) -> (r: Vec<Point>)
    requires
        total_distance(moves@) <= i64::MAX,
    ensures
        r@ == path_points(moves@),
{
    let mut points: Vec<Point> = Vec::new();
    let mut turtle = Point { x: 0, y: 0 };
    let mut i: usize = 0;
    while i < moves.len()
        invariant
            i <= moves@.len(),
            total_distance(moves@) <= i64::MAX,
            turtle == path_end(moves@.subrange(0, i as int)),
            points@ == path_points(moves@.subrange(0, i as int)),
        decreases moves.len() - i,
    {
        let ghost pre = moves@.subrange(0, i as int);
        proof {
            assert(moves@.subrange(0, i + 1).drop_last() =~= pre);
            lemma_total_distance_prefix(moves@, i as int);
            lemma_path_end_bound(pre);
            lemma_total_distance_prefix(moves@, i + 1);
            assert(total_distance(moves@.subrange(0, i + 1)) == total_distance(pre)
                + moves@[i as int].distance);
        }
        let step = moves[i];
        let new_points = extend_point(turtle, &step);
        let ghost next_end = path_end(moves@.subrange(0, i + 1));
        if new_points.len() > 0 {
            turtle = new_points[new_points.len() - 1];
        }
        proof {
            assert(turtle == next_end);
        }
        let ghost before = points@;
        let mut k: usize = 0;
        while k < new_points.len()
            invariant
                k <= new_points@.len(),
                points@ == before + new_points@.subrange(0, k as int),
            decreases new_points.len() - k,
        {
            points.push(new_points[k]);
            k = k + 1;
            proof {
                assert(points@ =~= before + new_points@.subrange(0, k as int));
            }
        }
        i = i + 1;
        proof {
            assert(new_points@.subrange(0, new_points@.len() as int) =~= Seq::new(
                step.distance as nat,
                |k: int| as_point(offset(path_end(pre), step.direction, k + 1)),
            ));
            assert(points@ =~= path_points(moves@.subrange(0, i as int)));
        }
    }
    proof {
        assert(moves@.subrange(0, moves@.len() as int) =~= moves@);
    }
    points
}

proof fn lemma_total_distance_prefix(moves: Seq<Move>, k: int)
    requires
        0 <= k <= moves.len(),
    ensures
        total_distance(moves.subrange(0, k)) <= total_distance(moves),
    decreases moves.len() - k,
{
    if k < moves.len() {
        lemma_total_distance_prefix(moves, k + 1);
        assert(moves.subrange(0, k + 1).drop_last() =~= moves.subrange(0, k));
    } else {
        assert(moves.subrange(0, k) =~= moves);
    }
}

/// The first position of `target` in `points`.
pub fn find_index(points: &Vec<Point>, target: &Point) -> (r: Option<usize>)
    ensures
        match r {
            Some(i) => i < points@.len() && points@[i as int] == *target && forall|j: int|
                0 <= j < i ==> points@[j] != *target,
            None => forall|j: int| 0 <= j < points@.len() ==> points@[j] != *target,
        },
{
    let mut i: usize = 0;
    while i < points.len()
        invariant
            i <= points@.len(),
            forall|j: int| 0 <= j < i ==> points@[j] != *target,
        decreases points.len() - i,
    {
        if points[i] == *target {
            return Some(i);
        }
        i = i + 1;
    }
    None
}

/// A number that names `p` alone among grid points.
pub open spec fn key_of(p: Point) -> int {
    (p.x + 0x8000_0000_0000_0000) * 0x1_0000_0000_0000_0000 + (p.y + 0x8000_0000_0000_0000)
}

proof fn lemma_key_injective(p: Point, q: Point)
    requires
        key_of(p) == key_of(q),
    ensures
        p == q,
{
    let a = p.x + 0x8000_0000_0000_0000;
    let c = q.x + 0x8000_0000_0000_0000;
    if a < c {
        assert(c * 0x1_0000_0000_0000_0000 >= (a + 1) * 0x1_0000_0000_0000_0000);
    } else if a > c {
        assert(a * 0x1_0000_0000_0000_0000 >= (c + 1) * 0x1_0000_0000_0000_0000);
    }
}

fn point_key(p: &Point) -> (r: u128)
    ensures
        r == key_of(*p),
{
    let a = (p.x as i128 + 0x8000_0000_0000_0000) as u128;
    let b = (p.y as i128 + 0x8000_0000_0000_0000) as u128;
    a * 0x1_0000_0000_0000_0000 + b
}

/// Every point of `ps` is close enough to the origin for its distance to fit.
pub open spec fn measurable(ps: Seq<Point>) -> bool {
    forall|i: int| 0 <= i < ps.len() ==> abs((#[trigger] ps[i]).x as int) + abs(ps[i].y as int) <= usize::MAX
}

pub open spec fn distance(p: Point) -> int {
    abs(p.x as int) + abs(p.y as int)
}

/// Whether every point's distance from the origin fits.
pub fn is_measurable(ps: &Vec<Point>) -> (r: bool)
    ensures
        r == measurable(ps@),
{
    let mut i: usize = 0;
    while i < ps.len()
        invariant
            i <= ps@.len(),
            forall|k: int| 0 <= k < i ==> abs((#[trigger] ps@[k]).x as int) + abs(ps@[k].y as int) <= usize::MAX,
        decreases ps.len() - i,
    {
        let p = ps[i];
        let ax: u128 = if p.x < 0 {
            (0i128 - p.x as i128) as u128
        } else {
            p.x as u128
        };
        let ay: u128 = if p.y < 0 {
            (0i128 - p.y as i128) as u128
        } else {
            p.y as u128
        };
        if ax + ay > usize::MAX as u128 {
            return false;
        }
        i = i + 1;
    }
    true
}

/// The smallest distance from the origin of a point on both wires.
pub fn closest_crossing(a: &Vec<Point>, b: &Vec<Point>) -> (r: Option<usize>)
    requires
        measurable(a@),
    ensures
        match r {
            Some(d) => (exists|i: int, j: int|
                0 <= i < a@.len() && 0 <= j < b@.len() && #[trigger] a@[i] == #[trigger] b@[j] && distance(a@[i]) == d)
                && forall|i: int, j: int|
                0 <= i < a@.len() && 0 <= j < b@.len() && #[trigger] a@[i] == #[trigger] b@[j] ==> distance(a@[i]) >= d,
            None => forall|i: int, j: int|
                0 <= i < a@.len() && 0 <= j < b@.len() ==> #[trigger] a@[i] != #[trigger] b@[j],
        },
{
    broadcast use group_hash_axioms;

    let mut keys: HashSet<u128> = HashSet::new();
    let mut j: usize = 0;
    while j < b.len()
        invariant
            j <= b@.len(),
            forall|k: int| 0 <= k < j ==> keys@.contains(key_of(#[trigger] b@[k]) as u128),
            forall|x: u128| keys@.contains(x) ==> exists|k: int| 0 <= k < j && key_of(#[trigger] b@[k]) == x,
        decreases b.len() - j,
    {
        let key = point_key(&b[j]);
        keys.insert(key);
        j = j + 1;
        proof {
            assert forall|x: u128| keys@.contains(x) implies exists|k: int| 0 <= k < j && key_of(#[trigger] b@[k]) == x by {
                if x == key {
                    assert(key_of(b@[j - 1]) == x);
                }
            }
        }
    }
    let mut best: Option<usize> = None;
    let mut i: usize = 0;
    while i < a.len()
        invariant
            i <= a@.len(),
            measurable(a@),
            forall|k: int| 0 <= k < b@.len() ==> keys@.contains(key_of(#[trigger] b@[k]) as u128),
            forall|x: u128| keys@.contains(x) ==> exists|k: int| 0 <= k < b@.len() && key_of(#[trigger] b@[k]) == x,
            match best {
                Some(d) => (exists|m: int, k: int|
                    0 <= m < i && 0 <= k < b@.len() && #[trigger] a@[m] == #[trigger] b@[k] && distance(a@[m]) == d)
                    && forall|m: int, k: int|
                    0 <= m < i && 0 <= k < b@.len() && #[trigger] a@[m] == #[trigger] b@[k] ==> distance(a@[m]) >= d,
                None => forall|m: int, k: int|
                    0 <= m < i && 0 <= k < b@.len() ==> #[trigger] a@[m] != #[trigger] b@[k],
            },
        decreases a.len() - i,
    {
        let p = a[i];
        let key = point_key(&p);
        let shared = keys.contains(&key);
        proof {
            if shared {
                let k = choose|k: int| 0 <= k < b@.len() && key_of(#[trigger] b@[k]) == key;
                lemma_key_injective(b@[k], p);
            } else {
                assert forall|k: int| 0 <= k < b@.len() implies #[trigger] b@[k] != p by {
                    assert(keys@.contains(key_of(b@[k]) as u128));
                }
            }
        }
        if shared {
            let d = p.manhattan_magnitude();
            best = match best {
                Some(e) => if d < e {
                    Some(d)
                } else {
                    Some(e)
                },
                None => Some(d),
            };
        }
        i = i + 1;
    }
    best
}

/// The smallest combined number of steps along both wires to a point on
/// both, counting each wire's steps to its first visit there.
pub fn fastest_crossing(a: &Vec<Point>, b: &Vec<Point>) -> (r: Option<u64>)
    requires
        a@.len() < 0x1_0000_0000,
        b@.len() < 0x1_0000_0000,
    ensures
        r matches Some(s) ==> exists|i: int, j: int|
            0 <= i < a@.len() && 0 <= j < b@.len() && #[trigger] a@[i] == #[trigger] b@[j] && s == i + j + 2,
        r matches Some(s) ==> forall|i: int, j: int|
            0 <= i < a@.len() && 0 <= j < b@.len() && #[trigger] a@[i] == #[trigger] b@[j] ==> s <= i + j + 2,
        r is None ==> forall|i: int, j: int|
            0 <= i < a@.len() && 0 <= j < b@.len() ==> #[trigger] a@[i] != #[trigger] b@[j],
{
    broadcast use group_hash_axioms;

    let mut first: HashMap<u128, usize> = HashMap::new();
    let mut j: usize = 0;
    while j < b.len()
        invariant
            j <= b@.len() < 0x1_0000_0000,
            forall|k: int| 0 <= k < j ==> first@.contains_key(key_of(#[trigger] b@[k]) as u128),
            forall|x: u128| first@.contains_key(x) ==> {
                let k = first@[x] as int;
                0 <= k < j && key_of(b@[k]) == x
            },
            forall|k: int| 0 <= k < j ==> first@[key_of(#[trigger] b@[k]) as u128] <= k,
        decreases b.len() - j,
    {
        let key = point_key(&b[j]);
        if !first.contains_key(&key) {
            first.insert(key, j);
        }
        j = j + 1;
    }
    let mut best: Option<u64> = None;
    let mut i: usize = 0;
    while i < a.len()
        invariant
            i <= a@.len() < 0x1_0000_0000,
            b@.len() < 0x1_0000_0000,
            forall|k: int| 0 <= k < b@.len() ==> first@.contains_key(key_of(#[trigger] b@[k]) as u128),
            forall|x: u128| first@.contains_key(x) ==> {
                let k = first@[x] as int;
                0 <= k < b@.len() && key_of(b@[k]) == x
            },
            forall|k: int| 0 <= k < b@.len() ==> first@[key_of(#[trigger] b@[k]) as u128] <= k,
            best matches Some(s) ==> forall|m: int, k: int|
                0 <= m < i && 0 <= k < b@.len() && #[trigger] a@[m] == #[trigger] b@[k] ==> s <= m + k + 2,
            best matches Some(s) ==> exists|m: int, k: int|
                0 <= m < i && 0 <= k < b@.len() && #[trigger] a@[m] == #[trigger] b@[k] && s == m + k + 2,
            best is None ==> forall|m: int, k: int|
                0 <= m < i && 0 <= k < b@.len() ==> #[trigger] a@[m] != #[trigger] b@[k],
        decreases a.len() - i,
    {
        let p = a[i];
        let key = point_key(&p);
        match first.get(&key) {
            Some(k) => {
                let k = *k;
                proof {
                    lemma_key_injective(b@[k as int], p);
                    assert forall|kk: int| 0 <= kk < b@.len() && #[trigger] b@[kk] == p implies k <= kk by {
                        assert(first@[key_of(b@[kk]) as u128] <= kk);
                    }
                }
                let steps = i as u64 + k as u64 + 2;
                best = match best {
                    Some(e) => if steps < e {
                        Some(steps)
                    } else {
                        Some(e)
                    },
                    None => Some(steps),
                };
            },
            None => {
                proof {
                    assert forall|k: int| 0 <= k < b@.len() implies #[trigger] b@[k] != p by {
                        assert(first@.contains_key(key_of(b@[k]) as u128));
                    }
                }
            },
        }
        i = i + 1;
    }
    best
}

/// The two wires of the puzzle input: one line each.
fn wires(input: &str) -> Option<(Vec<Point>, Vec<Point>)> {
    let cs = chars_of(input);
    let bounds = token_bounds(&cs, Separator::Whitespace);
    let mut lines: Vec<Vec<Move>> = Vec::new();
    let mut j: usize = 0;
    while j < bounds.len()
        invariant
            cs@ == input@,
            forall|k: int|
                0 <= k < bounds@.len() ==> (#[trigger] bounds@[k]).0 <= bounds@[k].1 <= cs@.len(),
        decreases bounds.len() - j,
    {
        let (lo, hi) = bounds[j];
        if lo < hi {
            match Move::move_list_from_str(input.substring_char(lo, hi)) {
                Ok(moves) => lines.push(moves),
                Err(_) => {
                    return None;
                },
            }
        }
        j = j + 1;
    }
    if lines.len() < 2 {
        return None;
    }
    let mut traced: Vec<Vec<Point>> = Vec::new();
    let mut k: usize = 0;
    while k < 2
        invariant
            lines@.len() >= 2,
        decreases 2 - k,
    {
        let moves = &lines[k];
        let mut total: u64 = 0;
        let mut m: usize = 0;
        while m < moves.len()
            invariant
                m <= moves@.len(),
                total == total_distance(moves@.subrange(0, m as int)),
                total <= 0x4000_0000,
            decreases moves.len() - m,
        {
            proof {
                assert(moves@.subrange(0, m + 1).drop_last() =~= moves@.subrange(0, m as int));
            }
            if moves[m].distance as u64 > 0x4000_0000 - total {
                return None;
            }
            total = total + moves[m].distance as u64;
            m = m + 1;
        }
        proof {
            assert(moves@.subrange(0, moves@.len() as int) =~= moves@);
        }
        traced.push(spaces_traversed(moves.as_slice()));
        k = k + 1;
    }
    let second = traced.pop();
    let first = traced.pop();
    match (first, second) {
        (Some(a), Some(b)) => Some((a, b)),
        _ => None,
    }
}

pub struct DayThree {}

impl Problem for DayThree {
    fn part_one(&self, input: &str) -> String {
        match wires(input) {
            Some((a, b)) => {
                if !is_measurable(&a) {
                    return "the wires run too far".to_string();
                }
                match closest_crossing(&a, &b) {
                    Some(d) => d.to_string(),
                    None => "the wires never cross".to_string(),
                }
            },
            None => "the input needs two well-formed wires".to_string(),
        }
    }

    fn part_two(&self, input: &str) -> String {
        match wires(input) {
            Some((a, b)) => {
                if a.len() as u64 >= 0x1_0000_0000u64 || b.len() as u64 >= 0x1_0000_0000u64 {
                    return "the wires run too far".to_string();
                }
                match fastest_crossing(&a, &b) {
                    Some(s) => s.to_string(),
                    None => "the wires never cross".to_string(),
                }
            },
            None => "the input needs two well-formed wires".to_string(),
        }
    }
}

} // verus!
