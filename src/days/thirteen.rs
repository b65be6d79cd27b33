//! Care Package: an arcade cabinet whose Intcode program draws tiles and
//! keeps score, played by moving a joystick.

use vstd::prelude::*;

use crate::intcode::{Machine, MachineState, OperationalError};
use crate::parse::chars_of;
use crate::problem::Problem;

verus! {

#[derive(Debug)]
pub enum GameError {
    InvalidTile(i64),
    ProgramError(OperationalError),
    InvalidJoystickDirection(String),
    /// The screen shows no paddle or no ball to steer by.
    NothingToFollow,
}

#[derive(Debug, Clone, Copy, PartialEq, Eq, Structural)]
pub enum Tile {
    Empty,
    Wall,
    Block,
    HorizontalPaddle,
    Ball,
}

/// The tile that a tile id names.
pub open spec fn tile_spec(i: i64) -> Option<Tile> {
    if i == 0 {
        Some(Tile::Empty)
    } else if i == 1 {
        Some(Tile::Wall)
    } else if i == 2 {
        Some(Tile::Block)
    } else if i == 3 {
        Some(Tile::HorizontalPaddle)
    } else if i == 4 {
        Some(Tile::Ball)
    } else {
        None
    }
}

impl Tile {
    pub fn from_int(i: i64) -> (r: Result<Tile, GameError>)
        ensures
            match tile_spec(i) {
                Some(t) => r matches Ok(x) && x == t,
                None => r matches Err(GameError::InvalidTile(v)) && v == i,
            },
    {
        match i {
            0 => Ok(Tile::Empty),
            1 => Ok(Tile::Wall),
            2 => Ok(Tile::Block),
            3 => Ok(Tile::HorizontalPaddle),
            4 => Ok(Tile::Ball),
            _ => Err(GameError::InvalidTile(i)),
        }
    }

    /// How the tile is drawn.
    pub fn glyph(&self) -> &'static str {
        match self {
            Tile::Empty => " ",
            Tile::Wall => "|",
            Tile::Block => "#",
            Tile::HorizontalPaddle => "=",
            Tile::Ball => "o",
        }
    }
}

#[derive(Debug, Clone, Copy, PartialEq, Eq, Hash, Structural)]
pub struct Point {
    pub x: i64,
    pub y: i64,
}

/// The joystick position as the program reads it.
pub open spec fn joystick_value(d: JoystickDirection) -> i64 {
    match d {
        JoystickDirection::Neutral => 0,
        JoystickDirection::Left => -1i64,
        JoystickDirection::Right => 1,
    }
}

#[derive(Debug, Clone, Copy, PartialEq, Eq, Structural)]
pub enum JoystickDirection {
    Neutral,
    Left,
    Right,
}

impl JoystickDirection {
    /// `h` is left, `l` is right and the empty text is neutral.
    pub fn from_str(s: &str) -> (r: Result<JoystickDirection, GameError>)
        ensures
            s@ == seq!['h'] ==> r matches Ok(JoystickDirection::Left),
            s@ == seq!['l'] ==> r matches Ok(JoystickDirection::Right),
            s@.len() == 0 ==> r matches Ok(JoystickDirection::Neutral),
            s@ != seq!['h'] && s@ != seq!['l'] && s@.len() != 0 ==> (r matches Err(
                GameError::InvalidJoystickDirection(t),
            ) && t@ == s@),
    {
        let cs = chars_of(s);
        if cs.len() == 0 {
            return Ok(JoystickDirection::Neutral);
        }
        if cs.len() == 1 {
            proof {
                assert(s@ =~= seq![cs@[0]]);
            }
            if cs[0] == 'h' {
                return Ok(JoystickDirection::Left);
            }
            if cs[0] == 'l' {
                return Ok(JoystickDirection::Right);
            }
        }
        proof {
            if cs@.len() != 1 {
                assert(s@.len() != seq!['h'].len());
            }
        }
        Err(GameError::InvalidJoystickDirection(s.to_owned()))
    }

    /// The joystick position as the program reads it.
    pub fn as_int(&self) -> (r: i64)
        ensures
            r == joystick_value(*self),
    {
        match self {
            JoystickDirection::Neutral => 0,
            JoystickDirection::Left => -1i64,
            JoystickDirection::Right => 1,
        }
    }
}

/// The tile at `p` on a screen of drawn tiles; undrawn places are empty.
pub open spec fn tile_in(screen: Seq<(Point, Tile)>, p: Point) -> Tile {
    if exists|i: int| 0 <= i < screen.len() && (#[trigger] screen[i]).0 == p {
        screen[choose|i: int| 0 <= i < screen.len() && (#[trigger] screen[i]).0 == p].1
    } else {
        Tile::Empty
    }
}

/// Each place appears at most once on the screen.
pub open spec fn unique_places(screen: Seq<(Point, Tile)>) -> bool {
    forall|i: int, j: int|
        0 <= i < j < screen.len() ==> (#[trigger] screen[i]).0 != (#[trigger] screen[j]).0
}

#[derive(Debug)]
pub struct ArcadeGame {
    pub program: Machine,
    /// Each drawn place once, with its latest tile.
    pub screen: Vec<(Point, Tile)>,
    pub score: i64,
}

impl ArcadeGame {
    pub fn new(program: Machine) -> (r: ArcadeGame)
        ensures
            r.program@ == program@,
            r.screen@.len() == 0,
            r.score == 0,
    {
        ArcadeGame { program, screen: Vec::new(), score: 0 }
    }

    fn find(&self, point: &Point) -> (r: Option<usize>)
        ensures
            match r {
                Some(i) => i < self.screen@.len() && self.screen@[i as int].0 == *point,
                None => forall|i: int|
                    0 <= i < self.screen@.len() ==> (#[trigger] self.screen@[i]).0 != *point,
            },
    {
        let mut i: usize = 0;
        while i < self.screen.len()
            invariant
                i <= self.screen@.len(),
                forall|j: int| 0 <= j < i ==> (#[trigger] self.screen@[j]).0 != *point,
            decreases self.screen.len() - i,
        {
            if self.screen[i].0 == *point {
                return Some(i);
            }
            i = i + 1;
        }
        None
    }

    pub fn tile_at(&self, point: Point) -> (r: Tile)
        requires
            unique_places(self.screen@),
        ensures
            r == tile_in(self.screen@, point),
    {
        match self.find(&point) {
            Some(i) => self.screen[i].1,
            None => Tile::Empty,
        }
    }

    fn draw(&mut self, point: Point, tile: Tile)
        requires
            unique_places(old(self).screen@),
        ensures
            unique_places(final(self).screen@),
            final(self).program@ == old(self).program@,
            tile_in(final(self).screen@, point) == tile,
    {
        match self.find(&point) {
            Some(i) => {
                self.screen.set(i, (point, tile));
                proof {
                    assert(self.screen@[i as int].0 == point);
                }
            },
            None => {
                self.screen.push((point, tile));
                proof {
                    assert(self.screen@[self.screen@.len() - 1].0 == point);
                }
            },
        }
    }

    pub fn run(&mut self) -> (r: Result<(), GameError>)
        requires
            old(self).program@.wf(),
        ensures
            final(self).program@.wf(),
            final(self).screen@ == old(self).screen@,
            final(self).program@.counter >= old(self).program@.counter,
            r is Ok && old(self).program@.state == MachineState::Running ==> final(self).program@.counter
                > old(self).program@.counter,
            r is Ok ==> final(self).program@.state != MachineState::Running,
    {
        match self.program.run() {
            Ok(()) => Ok(()),
            Err(e) => Err(GameError::ProgramError(e)),
        }
    }

    /// Draws the program's pending output: triples of x, y and a tile id,
    /// where x = -1, y = 0 carries the score instead. A trailing partial
    /// triple is dropped.
    pub fn process_output(&mut self) -> (r: Result<(), GameError>)
        requires
            old(self).program@.wf(),
            unique_places(old(self).screen@),
        ensures
            final(self).program@ == old(self).program@.drained(),
            unique_places(final(self).screen@),
    {
        let out = self.program.read();
        let ghost drained = self.program@;
        let mut i: usize = 0;
        while i < out.len() && out.len() - i >= 3
            invariant
                unique_places(self.screen@),
                self.program@ == drained,
                drained == old(self).program@.drained(),
                i <= out@.len(),
            decreases out.len() - i,
        {
            let x = out[i];
            let y = out[i + 1];
            let id = out[i + 2];
            if x == -1 && y == 0 {
                self.score = id;
            } else {
                let tile = Tile::from_int(id)?;
                self.draw(Point { x, y }, tile);
            }
            i = i + 3;
        }
        Ok(())
    }

    pub fn move_joystick(&mut self, dir: JoystickDirection)
        ensures
            final(self).program@ == old(self).program@.pushed(joystick_value(dir)),
            final(self).screen@ == old(self).screen@,
    {
        self.program.write(dir.as_int());
    }

    /// Where the first drawn tile of kind `tile` stands.
    pub fn find_tile(&self, tile: Tile) -> (r: Option<Point>)
        ensures
            r matches Some(p) ==> exists|i: int| 0 <= i < self.screen@.len() && #[trigger] self.screen@[i] == (p, tile),
    {
        let mut i: usize = 0;
        while i < self.screen.len()
            decreases self.screen.len() - i,
        {
            if self.screen[i].1 == tile {
                return Some(self.screen[i].0);
            }
            i = i + 1;
        }
        None
    }

    /// The joystick move that keeps the paddle under the ball.
    pub fn follow_ball(&self) -> (r: Result<JoystickDirection, GameError>) {
        let paddle = match self.find_tile(Tile::HorizontalPaddle) {
            Some(p) => p,
            None => {
                return Err(GameError::NothingToFollow);
            },
        };
        let ball = match self.find_tile(Tile::Ball) {
            Some(p) => p,
            None => {
                return Err(GameError::NothingToFollow);
            },
        };
        if paddle.x < ball.x {
            Ok(JoystickDirection::Right)
        } else if paddle.x > ball.x {
            Ok(JoystickDirection::Left)
        } else {
            Ok(JoystickDirection::Neutral)
        }
    }

    /// Plays until the program halts, steering the paddle towards the ball.
    pub fn play_automatically(&mut self) -> (r: Result<(), GameError>)
        requires
            old(self).program@.wf(),
            unique_places(old(self).screen@),
        ensures
            r is Ok ==> final(self).program@.state == MachineState::Halted,
    {
        loop
            invariant
                self.program@.wf(),
                unique_places(self.screen@),
            decreases usize::MAX - self.program@.counter, (if self.program@.state
                == MachineState::Running {
                0int
            } else {
                1int
            }),
        {
            self.run()?;
            self.process_output()?;
            if self.program.state() == MachineState::Halted {
                return Ok(());
            }
            let dir = self.follow_ball()?;
            self.move_joystick(dir);
        }
    }

    /// How many tiles of kind `tile` the screen shows.
    pub fn count_tiles(&self, tile: Tile) -> (r: usize)
        ensures
            r <= self.screen@.len(),
    {
        let mut count: usize = 0;
        let mut i: usize = 0;
        while i < self.screen.len()
            invariant
                count <= i <= self.screen@.len(),
            decreases self.screen.len() - i,
        {
            if self.screen[i].1 == tile {
                count = count + 1;
            }
            i = i + 1;
        }
        count
    }

    /// The score line and then the drawn region, one line per row.
    pub fn render(&self) -> String
        requires
            unique_places(self.screen@),
    {
        let mut text = String::new();
        text.append("Score: ");
        text.append(&self.score.to_string());
        text.append("\n\n");
        if self.screen.len() == 0 {
            return text;
        }
        let mut min_x = self.screen[0].0.x;
        let mut max_x = min_x;
        let mut min_y = self.screen[0].0.y;
        let mut max_y = min_y;
        let mut i: usize = 1;
        while i < self.screen.len()
            invariant
                min_x <= max_x,
                min_y <= max_y,
            decreases self.screen.len() - i,
        {
            let p = self.screen[i].0;
            if p.x < min_x {
                min_x = p.x;
            }
            if p.x > max_x {
                max_x = p.x;
            }
            if p.y < min_y {
                min_y = p.y;
            }
            if p.y > max_y {
                max_y = p.y;
            }
            i = i + 1;
        }
        let mut y = min_y;
        loop
            invariant
                unique_places(self.screen@),
                min_y <= y <= max_y,
                min_x <= max_x,
            decreases max_y - y,
        {
            let mut x = min_x;
            loop
                invariant
                    unique_places(self.screen@),
                    min_x <= x <= max_x,
                decreases max_x - x,
            {
                text.append(self.tile_at(Point { x, y }).glyph());
                if x == max_x {
                    break;
                }
                x = x + 1;
            }
            text.append("\n");
            if y == max_y {
                break;
            }
            y = y + 1;
        }
        text
    }
}

pub struct DayThirteen {}

impl Problem for DayThirteen {
    fn name(&self) -> String {
        "Care Package".to_string()
    }

    fn part_one(&self, input: &str) -> String {
        let machine = match Machine::from_str(input) {
            Ok(m) => m,
            Err(_) => {
                return "the program text is malformed".to_string();
            },
        };
        let mut game = ArcadeGame::new(machine);
        if game.run().is_err() || game.process_output().is_err() {
            return "the game failed".to_string();
        }
        game.count_tiles(Tile::Block).to_string()
    }

    fn part_two(&self, input: &str) -> String {
        let machine = match Machine::from_str(input) {
            Ok(m) => m,
            Err(_) => {
                return "the program text is malformed".to_string();
            },
        };
        let mut game = ArcadeGame::new(machine);
        if game.program.set(0usize, 2).is_err() {
            return "the game failed".to_string();
        }
        match game.play_automatically() {
            Ok(()) => game.score.to_string(),
            Err(_) => "the game failed".to_string(),
        }
    }
}

} // verus!
