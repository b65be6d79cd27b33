//! Oxygen System: a repair droid that explores a maze by random moves.

use vstd::prelude::*;

use crate::intcode::{Machine, OperationalError};
use crate::problem::Problem;

verus! {

/// Relies on `rand::random`: a value drawn from the thread's generator;
/// nothing is known of it.
pub assume_specification<T>[ rand::random::<T> ]() -> (r: T)
    where
        rand::distributions::Standard: rand::distributions::Distribution<T>,
;

/// A maze square; y grows southwards.
#[derive(Debug, Clone, Copy, PartialEq, Eq, Hash, Structural)]
pub struct Point {
    pub x: i64,
    pub y: i64,
}

#[derive(Debug, Clone, Copy, PartialEq, Eq, Structural)]
pub enum Direction {
    North,
    South,
    West,
    East,
}

/// Whether one move from `p` towards `dir` stays on the grid.
pub open spec fn can_move(p: Point, dir: Direction) -> bool {
    match dir {
        Direction::North => p.y > i64::MIN,
        Direction::South => p.y < i64::MAX,
        Direction::West => p.x > i64::MIN,
        Direction::East => p.x < i64::MAX,
    }
}

/// The square one move from `p` towards `dir`.
pub open spec fn neighbour(p: Point, dir: Direction) -> Point {
    match dir {
        Direction::North => Point { x: p.x, y: (p.y - 1) as i64 },
        Direction::South => Point { x: p.x, y: (p.y + 1) as i64 },
        Direction::West => Point { x: (p.x - 1) as i64, y: p.y },
        Direction::East => Point { x: (p.x + 1) as i64, y: p.y },
    }
}

impl Point {
    pub fn in_direction(&self, dir: &Direction) -> (r: Point)
        requires
            can_move(*self, *dir),
        ensures
            r == neighbour(*self, *dir),
    {
        match dir {
            Direction::North => Point { x: self.x, y: self.y - 1 },
            Direction::South => Point { x: self.x, y: self.y + 1 },
            Direction::West => Point { x: self.x - 1, y: self.y },
            Direction::East => Point { x: self.x + 1, y: self.y },
        }
    }
}

#[derive(Debug, Clone, Copy, PartialEq, Eq, Structural)]
pub enum Space {
    Empty,
    Wall,
    Oxygen,
    Unknown,
}

impl Space {
    /// The droid's status code: 0 hit a wall, 1 moved, anything else found the oxygen system.
    pub fn from_int(i: i64) -> (r: Space)
        ensures
            r == (if i == 0 {
                Space::Wall
            } else if i == 1 {
                Space::Empty
            } else {
                Space::Oxygen
            }),
    {
        match i {
            0 => Space::Wall,
            1 => Space::Empty,
            _ => Space::Oxygen,
        }
    }
}

impl Direction {
    /// The movement command for the droid.
    pub fn as_int(&self) -> (r: i64)
        ensures
            r == match *self {
                Direction::North => 1i64,
                Direction::South => 2i64,
                Direction::West => 3i64,
                Direction::East => 4i64,
            },
    {
        match self {
            Direction::North => 1,
            Direction::South => 2,
            Direction::West => 3,
            Direction::East => 4,
        }
    }

    /// The direction that a number picks, by its remainder mod four.
    pub fn from_draw(n: u32) -> (r: Direction)
        ensures
            r == (if n % 4 == 0 {
                Direction::North
            } else if n % 4 == 1 {
                Direction::South
            } else if n % 4 == 2 {
                Direction::West
            } else {
                Direction::East
            }),
    {
        match n % 4 {
            0 => Direction::North,
            1 => Direction::South,
            2 => Direction::West,
            _ => Direction::East,
        }
    }
}

/// Why exploring stopped.
#[derive(Debug)]
pub enum DroidError {
    Program(OperationalError),
    /// The droid's program answered a move with no status.
    NoReply,
}

/// The most moves the droid makes before it stops exploring.
pub const MAX_STEPS: usize = 100000;

/// What is known of square `p`: the last status seen there, else unknown.
pub open spec fn space_in(maze: Seq<(Point, Space)>, p: Point) -> Space {
    if exists|i: int| 0 <= i < maze.len() && (#[trigger] maze[i]).0 == p {
        maze[choose|i: int| 0 <= i < maze.len() && (#[trigger] maze[i]).0 == p].1
    } else {
        Space::Unknown
    }
}

pub open spec fn unique_squares(maze: Seq<(Point, Space)>) -> bool {
    forall|i: int, j: int| 0 <= i < j < maze.len() ==> (#[trigger] maze[i]).0 != (#[trigger] maze[j]).0
}

pub open spec fn abs(v: int) -> int {
    if v < 0 {
        -v
    } else {
        v
    }
}

#[derive(Debug)]
pub struct RepairDroid {
    pub program: Machine,
    /// Each visited or probed square once, with what was found there.
    pub maze: Vec<(Point, Space)>,
    pub position: Point,
    pub step_count: usize,
}

impl RepairDroid {
    pub fn new(program: Machine) -> (r: Self)
        ensures
            r.program@ == program@,
            r.maze@.len() == 0,
            r.position == (Point { x: 0, y: 0 }),
            r.step_count == 0,
    {
        RepairDroid { program, maze: Vec::new(), position: Point { x: 0, y: 0 }, step_count: 0 }
    }

    fn find(&self, point: &Point) -> (r: Option<usize>)
        ensures
            match r {
                Some(i) => i < self.maze@.len() && self.maze@[i as int].0 == *point,
                None => forall|i: int| 0 <= i < self.maze@.len() ==> (#[trigger] self.maze@[i]).0 != *point,
            },
    {
        let mut i: usize = 0;
        while i < self.maze.len()
            invariant
                i <= self.maze@.len(),
                forall|j: int| 0 <= j < i ==> (#[trigger] self.maze@[j]).0 != *point,
            decreases self.maze.len() - i,
        {
            if self.maze[i].0 == *point {
                return Some(i);
            }
            i = i + 1;
        }
        None
    }

    pub fn space_at(&self, point: &Point) -> (r: Space)
        requires
            unique_squares(self.maze@),
        ensures
            r == space_in(self.maze@, *point),
    {
        match self.find(point) {
            Some(i) => self.maze[i].1,
            None => Space::Unknown,
        }
    }

    fn record(&mut self, point: Point, space: Space)
        requires
            unique_squares(old(self).maze@),
        ensures
            unique_squares(final(self).maze@),
            space_in(final(self).maze@, point) == space,
            final(self).program@ == old(self).program@,
            final(self).position == old(self).position,
            final(self).step_count == old(self).step_count,
    {
        match self.find(&point) {
            Some(i) => {
                self.maze.set(i, (point, space));
                proof {
                    assert(self.maze@[i as int].0 == point);
                }
            },
            None => {
                self.maze.push((point, space));
                proof {
                    assert(self.maze@[self.maze@.len() - 1].0 == point);
                }
            },
        }
    }

    /// Tries one move towards `dir`: records what the droid reports for the
    /// square there and moves onto it unless it is a wall.
    pub fn explore_step(&mut self, dir: Direction) -> (r: Result<Space, DroidError>)
        requires
            old(self).program@.wf(),
            unique_squares(old(self).maze@),
            can_move(old(self).position, dir),
        ensures
            final(self).program@.wf(),
            unique_squares(final(self).maze@),
            final(self).step_count == old(self).step_count,
            r matches Ok(space) ==> space != Space::Unknown && space_in(final(self).maze@, neighbour(old(self).position, dir)) == space
                && final(self).position == (if space == Space::Wall {
                old(self).position
            } else {
                neighbour(old(self).position, dir)
            }),
            r is Err ==> final(self).position == old(self).position,
    {
        let next_point = self.position.in_direction(&dir);
        self.program.write(dir.as_int());
        match self.program.run() {
            Ok(()) => {},
            Err(e) => {
                return Err(DroidError::Program(e));
            },
        }
        let reply = self.program.read();
        if reply.len() == 0 {
            return Err(DroidError::NoReply);
        }
        let space = Space::from_int(reply[0]);
        self.record(next_point, space);
        if space != Space::Wall {
            self.position = next_point;
        }
        Ok(space)
    }

    /// Wanders by random moves for up to `MAX_STEPS` moves.
    pub fn run(&mut self) -> (r: Result<(), DroidError>)
        requires
            old(self).program@.wf(),
            unique_squares(old(self).maze@),
            old(self).step_count == 0,
            old(self).position == (Point { x: 0, y: 0 }),
        ensures
            unique_squares(final(self).maze@),
            r is Ok ==> final(self).step_count == MAX_STEPS + 1,
    {
        loop
            invariant
                self.program@.wf(),
                unique_squares(self.maze@),
                self.step_count <= MAX_STEPS,
                abs(self.position.x as int) <= self.step_count,
                abs(self.position.y as int) <= self.step_count,
            decreases MAX_STEPS + 1 - self.step_count,
        {
            let dir = Direction::from_draw(rand::random::<u32>());
            self.explore_step(dir)?;
            self.step_count = self.step_count + 1;
            if self.step_count > MAX_STEPS {
                return Ok(());
            }
        }
    }

    /// The explored maze, one line per row: `0` the start, `#` walls, `*`
    /// the oxygen system, blank open squares and `.` unknown ones.
    pub fn render(&self) -> String
        requires
            unique_squares(self.maze@),
    {
        let mut text = String::new();
        if self.maze.len() == 0 {
            return text;
        }
        let mut min_x = self.maze[0].0.x;
        let mut max_x = min_x;
        let mut min_y = self.maze[0].0.y;
        let mut max_y = min_y;
        let mut i: usize = 1;
        while i < self.maze.len()
            invariant
                min_x <= max_x,
                min_y <= max_y,
            decreases self.maze.len() - i,
        {
            let p = self.maze[i].0;
            if p.x < min_x {
                min_x = p.x;
            }
            if p.x > max_x {
                max_x = p.x;
            }
            if p.y < min_y {
                min_y = p.y;
            }
            if p.y > max_y {
                max_y = p.y;
            }
            i = i + 1;
        }
        let mut y = min_y;
        loop
            invariant
                unique_squares(self.maze@),
                min_y <= y <= max_y,
                min_x <= max_x,
            decreases max_y - y,
        {
            let mut x = min_x;
            loop
                invariant
                    unique_squares(self.maze@),
                    min_x <= x <= max_x,
                decreases max_x - x,
            {
                if x == 0 && y == 0 {
                    text.append("0");
                } else {
                    let glyph = match self.space_at(&Point { x, y }) {
                        Space::Empty => " ",
                        Space::Wall => "#",
                        Space::Oxygen => "*",
                        Space::Unknown => ".",
                    };
                    text.append(glyph);
                }
                if x == max_x {
                    break;
                }
                x = x + 1;
            }
            text.append("\n");
            if y == max_y {
                break;
            }
            y = y + 1;
        }
        text
    }
}

pub struct DayFifteen {}

impl Problem for DayFifteen {
    fn part_one(&self, input: &str) -> String {
        let program = match Machine::from_str(input) {
            Ok(m) => m,
            Err(_) => {
                return "the program text is malformed".to_string();
            },
        };
        let mut droid = RepairDroid::new(program);
        match droid.run() {
            Ok(()) => droid.render(),
            Err(_) => "the droid's program failed".to_string(),
        }
    }

    fn part_two(&self, input: &str) -> String {
        "Part two not yet implemented.".to_string()
    }
}

} // verus!
