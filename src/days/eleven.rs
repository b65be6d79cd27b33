//! Space Police: a hull-painting robot steered by an Intcode brain.

use vstd::prelude::*;

use crate::intcode::{Machine, MachineState, OperationalError};
use crate::problem::Problem;

verus! {

/// Why painting stopped early.
#[derive(Debug)]
pub enum PaintingError {
    InvalidColor(i64),
    InvalidTurn(i64),
    IntcodeError(OperationalError),
    /// The brain still claims to run after `run` returned.
    BrainStillRunning,
    /// The robot would leave the grid that a machine word can address.
    OffGrid,
}

/// A hull panel; y grows downwards.
#[derive(Debug, Clone, Copy, PartialEq, Eq, Hash, Structural)]
pub struct Point {
    pub x: i64,
    pub y: i64,
}

#[derive(Debug, Clone, Copy, PartialEq, Eq, Structural)]
pub enum Color {
    Black,
    White,
}

impl Color {
    pub fn from_int(i: i64) -> (r: Result<Color, PaintingError>)
        ensures
            i == 0 ==> r matches Ok(Color::Black),
            i == 1 ==> r matches Ok(Color::White),
            i != 0 && i != 1 ==> (r matches Err(PaintingError::InvalidColor(v)) && v == i),
    {
        match i {
            0 => Ok(Color::Black),
            1 => Ok(Color::White),
            _ => Err(PaintingError::InvalidColor(i)),
        }
    }

    pub fn to_int(&self) -> (r: i64)
        ensures
            r == (if *self == Color::Black {
                0i64
            } else {
                1i64
            }),
    {
        match self {
            Color::Black => 0,
            Color::White => 1,
        }
    }

    /// The panel as drawn: blank for black, `#` for white.
    pub fn glyph(&self) -> (r: &'static str)
        ensures
            r@ == (if *self == Color::Black {
                " "@
            } else {
                "#"@
            }),
    {
        match self {
            Color::Black => " ",
            Color::White => "#",
        }
    }
}

#[derive(Debug, Clone, Copy, PartialEq, Eq, Structural)]
pub enum Turn {
    Left,
    Right,
}

impl Turn {
    pub fn from_int(i: i64) -> (r: Result<Turn, PaintingError>)
        ensures
            i == 0 ==> r matches Ok(Turn::Left),
            i == 1 ==> r matches Ok(Turn::Right),
            i != 0 && i != 1 ==> (r matches Err(PaintingError::InvalidTurn(v)) && v == i),
    {
        match i {
            0 => Ok(Turn::Left),
            1 => Ok(Turn::Right),
            _ => Err(PaintingError::InvalidTurn(i)),
        }
    }
}

#[derive(Debug, Clone, Copy, PartialEq, Eq, Structural)]
pub enum Facing {
    Up,
    Down,
    Left,
    Right,
}

/// The facing a quarter turn anticlockwise from `f`.
pub open spec fn left_of(f: Facing) -> Facing {
    match f {
        Facing::Up => Facing::Left,
        Facing::Left => Facing::Down,
        Facing::Down => Facing::Right,
        Facing::Right => Facing::Up,
    }
}

/// The facing a quarter turn clockwise from `f`.
pub open spec fn right_of(f: Facing) -> Facing {
    match f {
        Facing::Up => Facing::Right,
        Facing::Right => Facing::Down,
        Facing::Down => Facing::Left,
        Facing::Left => Facing::Up,
    }
}

/// Whether one step from `p` facing `f` stays on the grid.
pub open spec fn can_step(f: Facing, p: Point) -> bool {
    match f {
        Facing::Up => p.y > i64::MIN,
        Facing::Down => p.y < i64::MAX,
        Facing::Left => p.x > i64::MIN,
        Facing::Right => p.x < i64::MAX,
    }
}

/// The panel one step from `p` facing `f`.
pub open spec fn stepped(f: Facing, p: Point) -> Point {
    match f {
        Facing::Up => Point { x: p.x, y: (p.y - 1) as i64 },
        Facing::Down => Point { x: p.x, y: (p.y + 1) as i64 },
        Facing::Left => Point { x: (p.x - 1) as i64, y: p.y },
        Facing::Right => Point { x: (p.x + 1) as i64, y: p.y },
    }
}

impl Facing {
    pub fn leftwards(&self) -> (r: Facing)
        ensures
            r == left_of(*self),
    {
        match self {
            Facing::Up => Facing::Left,
            Facing::Left => Facing::Down,
            Facing::Down => Facing::Right,
            Facing::Right => Facing::Up,
        }
    }

    pub fn rightwards(&self) -> (r: Facing)
        ensures
            r == right_of(*self),
    {
        match self {
            Facing::Up => Facing::Right,
            Facing::Right => Facing::Down,
            Facing::Down => Facing::Left,
            Facing::Left => Facing::Up,
        }
    }

    pub fn turn(&self, turn: Turn) -> (r: Facing)
        ensures
            r == (if turn == Turn::Left {
                left_of(*self)
            } else {
                right_of(*self)
            }),
    {
        match turn {
            Turn::Left => self.leftwards(),
            Turn::Right => self.rightwards(),
        }
    }

    pub fn step(&self, start: &Point) -> (r: Point)
        requires
            can_step(*self, *start),
        ensures
            r == stepped(*self, *start),
    {
        match self {
            Facing::Up => Point { x: start.x, y: start.y - 1 },
            Facing::Down => Point { x: start.x, y: start.y + 1 },
            Facing::Left => Point { x: start.x - 1, y: start.y },
            Facing::Right => Point { x: start.x + 1, y: start.y },
        }
    }
}

/// The color of panel `p` on a canvas of painted panels; unpainted panels are black.
pub open spec fn color_in(canvas: Seq<(Point, Color)>, p: Point) -> Color {
    if exists|i: int| 0 <= i < canvas.len() && (#[trigger] canvas[i]).0 == p {
        canvas[choose|i: int| 0 <= i < canvas.len() && (#[trigger] canvas[i]).0 == p].1
    } else {
        Color::Black
    }
}

/// Each panel appears at most once on the canvas.
pub open spec fn unique_panels(canvas: Seq<(Point, Color)>) -> bool {
    forall|i: int, j: int|
        0 <= i < j < canvas.len() ==> (#[trigger] canvas[i]).0 != (#[trigger] canvas[j]).0
}

/// The panels that have been painted at least once.
pub open spec fn panels(canvas: Seq<(Point, Color)>) -> Set<Point> {
    Set::new(|p: Point| exists|i: int| 0 <= i < canvas.len() && (#[trigger] canvas[i]).0 == p)
}

#[derive(Debug)]
pub struct PainterBot {
    pub brain: Machine,
    /// Each painted panel once, with its latest color.
    pub canvas: Vec<(Point, Color)>,
    pub location: Point,
    pub facing: Facing,
}

impl PainterBot {
    pub fn new(machine: Machine) -> (r: Self)
        ensures
            r.brain@ == machine@,
            r.canvas@.len() == 0,
            r.location == (Point { x: 0, y: 0 }),
            r.facing == Facing::Up,
    {
        PainterBot {
            brain: machine,
            canvas: Vec::new(),
            location: Point { x: 0, y: 0 },
            facing: Facing::Up,
        }
    }

    fn find(&self, point: &Point) -> (r: Option<usize>)
        ensures
            match r {
                Some(i) => i < self.canvas@.len() && self.canvas@[i as int].0 == *point,
                None => forall|i: int| 0 <= i < self.canvas@.len() ==> (#[trigger] self.canvas@[i]).0 != *point,
            },
    {
        let mut i: usize = 0;
        while i < self.canvas.len()
            invariant
                i <= self.canvas@.len(),
                forall|j: int| 0 <= j < i ==> (#[trigger] self.canvas@[j]).0 != *point,
            decreases self.canvas.len() - i,
        {
            if self.canvas[i].0 == *point {
                return Some(i);
            }
            i = i + 1;
        }
        None
    }

    pub fn color_at(&self, point: &Point) -> (r: Color)
        requires
            unique_panels(self.canvas@),
        ensures
            r == color_in(self.canvas@, *point),
    {
        match self.find(point) {
            Some(i) => self.canvas[i].1,
            None => Color::Black,
        }
    }

    /// Paints the panel under the robot.
    pub fn paint(&mut self, color: Color)
        requires
            unique_panels(old(self).canvas@),
        ensures
            unique_panels(final(self).canvas@),
            panels(final(self).canvas@) == panels(old(self).canvas@).insert(old(self).location),
            color_in(final(self).canvas@, old(self).location) == color,
            forall|p: Point| p != old(self).location ==> color_in(final(self).canvas@, p) == color_in(old(self).canvas@, p),
            final(self).brain@ == old(self).brain@,
            final(self).location == old(self).location,
            final(self).facing == old(self).facing,
    {
        let here = self.location;
        let ghost before = self.canvas@;
        match self.find(&here) {
            Some(i) => {
                self.canvas.set(i, (here, color));
                proof {
                    assert(panels(self.canvas@) =~= panels(before).insert(here)) by {
                        assert forall|p: Point| panels(before).insert(here).contains(p) implies panels(self.canvas@).contains(p) by {
                            if p != here {
                                let k = choose|k: int| 0 <= k < before.len() && (#[trigger] before[k]).0 == p;
                                assert(self.canvas@[k].0 == p);
                            } else {
                                assert(self.canvas@[i as int].0 == p);
                            }
                        }
                        assert forall|p: Point| panels(self.canvas@).contains(p) implies panels(before).insert(here).contains(p) by {
                            let k = choose|k: int| 0 <= k < self.canvas@.len() && (#[trigger] self.canvas@[k]).0 == p;
                            if k != i {
                                assert(before[k].0 == p);
                            }
                        }
                    }
                    assert(self.canvas@[i as int].0 == here);
                    assert forall|p: Point| p != here implies color_in(self.canvas@, p) == color_in(before, p) by {
                        if exists|k: int| 0 <= k < before.len() && (#[trigger] before[k]).0 == p {
                            let k = choose|k: int| 0 <= k < before.len() && (#[trigger] before[k]).0 == p;
                            assert(self.canvas@[k].0 == p);
                        }
                        if exists|k: int| 0 <= k < self.canvas@.len() && (#[trigger] self.canvas@[k]).0 == p {
                            let k = choose|k: int| 0 <= k < self.canvas@.len() && (#[trigger] self.canvas@[k]).0 == p;
                            assert(before[k].0 == p);
                        }
                    }
                }
            },
            None => {
                self.canvas.push((here, color));
                proof {
                    let n = before.len() as int;
                    assert(self.canvas@[n].0 == here);
                    assert(panels(self.canvas@) =~= panels(before).insert(here)) by {
                        assert forall|p: Point| panels(before).insert(here).contains(p) implies panels(self.canvas@).contains(p) by {
                            if p != here {
                                let k = choose|k: int| 0 <= k < before.len() && (#[trigger] before[k]).0 == p;
                                assert(self.canvas@[k].0 == p);
                            }
                        }
                        assert forall|p: Point| panels(self.canvas@).contains(p) implies panels(before).insert(here).contains(p) by {
                            let k = choose|k: int| 0 <= k < self.canvas@.len() && (#[trigger] self.canvas@[k]).0 == p;
                            if k != n {
                                assert(before[k].0 == p);
                            }
                        }
                    }
                    assert forall|p: Point| p != here implies color_in(self.canvas@, p) == color_in(before, p) by {
                        if exists|k: int| 0 <= k < before.len() && (#[trigger] before[k]).0 == p {
                            let k = choose|k: int| 0 <= k < before.len() && (#[trigger] before[k]).0 == p;
                            assert(self.canvas@[k].0 == p);
                        }
                        if exists|k: int| 0 <= k < self.canvas@.len() && (#[trigger] self.canvas@[k]).0 == p {
                            let k = choose|k: int| 0 <= k < self.canvas@.len() && (#[trigger] self.canvas@[k]).0 == p;
                            assert(before[k].0 == p);
                        }
                    }
                }
            },
        }
    }

    /// Turns the robot and moves it one panel forward.
    pub fn step(&mut self, turn: Turn) -> (r: Result<(), PaintingError>)
        ensures
            final(self).brain@ == old(self).brain@,
            final(self).canvas@ == old(self).canvas@,
            ({
                let f = if turn == Turn::Left {
                    left_of(old(self).facing)
                } else {
                    right_of(old(self).facing)
                };
                if can_step(f, old(self).location) {
                    &&& r is Ok
                    &&& final(self).facing == f
                    &&& final(self).location == stepped(f, old(self).location)
                } else {
                    &&& r matches Err(PaintingError::OffGrid)
                    &&& final(self).facing == old(self).facing
                    &&& final(self).location == old(self).location
                }
            }),
    {
        let f = self.facing.turn(turn);
        let p = self.location;
        let ok = match f {
            Facing::Up => p.y > i64::MIN,
            Facing::Down => p.y < i64::MAX,
            Facing::Left => p.x > i64::MIN,
            Facing::Right => p.x < i64::MAX,
        };
        if !ok {
            return Err(PaintingError::OffGrid);
        }
        self.facing = f;
        self.location = f.step(&p);
        Ok(())
    }

    /// Runs the brain, painting and moving as it says, until it halts.
    pub fn run(&mut self) -> (r: Result<(), PaintingError>)
        requires
            old(self).brain@.wf(),
            unique_panels(old(self).canvas@),
        ensures
            unique_panels(final(self).canvas@),
            final(self).brain@.wf(),
            r is Ok ==> final(self).brain@.state == MachineState::Halted,
            panels(old(self).canvas@).subset_of(panels(final(self).canvas@)),
    {
        let ghost start = panels(self.canvas@);
        loop
            invariant
                self.brain@.wf(),
                unique_panels(self.canvas@),
                start.subset_of(panels(self.canvas@)),
                start == panels(old(self).canvas@),
            decreases usize::MAX - self.brain@.counter, (if self.brain@.state == MachineState::Running {
                0int
            } else {
                1int
            }),
        {
            match self.brain.run() {
                Ok(()) => {},
                Err(e) => {
                    return Err(PaintingError::IntcodeError(e));
                },
            }
            match self.brain.state() {
                MachineState::Halted => {
                    return Ok(());
                },
                MachineState::Blocked => {
                    if self.brain.peek() >= 2 {
                        let output = self.brain.read();
                        let color = Color::from_int(output[0])?;
                        self.paint(color);
                        let turn = Turn::from_int(output[1])?;
                        self.step(turn)?;
                    }
                    let here = self.location;
                    let seen = self.color_at(&here);
                    self.brain.write(seen.to_int());
                },
                MachineState::Running => {
                    return Err(PaintingError::BrainStillRunning);
                },
            }
        }
    }

    /// The painted region, one line per row, framed by newlines.
    pub fn canvas_str(&self) -> String
        requires
            unique_panels(self.canvas@),
    {
        let mut painting = String::new();
        painting.append("\n");
        if self.canvas.len() == 0 {
            return painting;
        }
        let mut min_x = self.canvas[0].0.x;
        let mut max_x = min_x;
        let mut min_y = self.canvas[0].0.y;
        let mut max_y = min_y;
        let mut i: usize = 1;
        while i < self.canvas.len()
            invariant
                min_x <= max_x,
                min_y <= max_y,
            decreases self.canvas.len() - i,
        {
            let p = self.canvas[i].0;
            if p.x < min_x {
                min_x = p.x;
            }
            if p.x > max_x {
                max_x = p.x;
            }
            if p.y < min_y {
                min_y = p.y;
            }
            if p.y > max_y {
                max_y = p.y;
            }
            i = i + 1;
        }
        let mut y = min_y;
        loop
            invariant
                unique_panels(self.canvas@),
                min_y <= y <= max_y,
                min_x <= max_x,
            decreases max_y - y,
        {
            let mut x = min_x;
            loop
                invariant
                    unique_panels(self.canvas@),
                    min_x <= x <= max_x,
                decreases max_x - x,
            {
                let c = self.color_at(&Point { x, y });
                painting.append(c.glyph());
                if x == max_x {
                    break;
                }
                x = x + 1;
            }
            painting.append("\n");
            if y == max_y {
                break;
            }
            y = y + 1;
        }
        painting
    }
}

pub struct DayEleven {}

impl Problem for DayEleven {
    fn part_one(&self, input: &str) -> String {
        let machine = match Machine::from_str(input) {
            Ok(m) => m,
            Err(_) => {
                return "the program text is malformed".to_string();
            },
        };
        let mut painter = PainterBot::new(machine);
        match painter.run() {
            Ok(()) => painter.canvas.len().to_string(),
            Err(_) => "the robot's brain failed".to_string(),
        }
    }

    fn part_two(&self, input: &str) -> String {
        let machine = match Machine::from_str(input) {
            Ok(m) => m,
            Err(_) => {
                return "the program text is malformed".to_string();
            },
        };
        let mut painter = PainterBot::new(machine);
        painter.paint(Color::White);
        match painter.run() {
            Ok(()) => painter.canvas_str(),
            Err(_) => "the robot's brain failed".to_string(),
        }
    }
}

} // verus!
