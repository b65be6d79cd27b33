//! Tractor Beam: a drone program that reports whether a point is pulled.

use vstd::prelude::*;

use crate::days::two::copy_of;
use crate::intcode::{run_result, Machine};
use crate::problem::Problem;

verus! {

/// Whether the drone program reports a pull at `(x, y)`: none when it fails
/// or reports nothing.
pub open spec fn pulled_spec(program: crate::intcode::MachineView, x: i64, y: i64) -> Option<bool> {
    match run_result(copy_of(program).pushed(x).pushed(y)) {
        Some((end, None)) => if end.pending_output().len() > 0 {
            Some(end.pending_output()[0] != 0)
        } else {
            None
        },
        _ => None,
    }
}

pub fn pulled(program: &Machine, x: i64, y: i64) -> (r: Option<bool>)
    requires
        program@.wf(),
    ensures
        r == pulled_spec(program@, x, y),
{
    let mut drone = program.duplicate();
    drone.write(x);
    drone.write(y);
    match drone.run() {
        Ok(()) => {},
        Err(_) => {
            return None;
        },
    }
    let out = drone.read();
    if out.len() == 0 {
        None
    } else {
        Some(out[0] != 0)
    }
}

/// The beam over the `size` by `size` square at the origin, one row per
/// line (`#` pulled, `.` not), and how many points are pulled.
pub fn beam_map(program: &Machine, size: i64) -> (r: Option<(String, usize)>)
    requires
        program@.wf(),
        0 <= size <= 0x8000,
{
    let mut text = String::new();
    let mut count: usize = 0;
    let mut y: i64 = 0;
    while y < size
        invariant
            program@.wf(),
            0 <= y <= size <= 0x8000,
            count <= y * size,
        decreases size - y,
    {
        let mut x: i64 = 0;
        while x < size
            invariant
                program@.wf(),
                0 <= x <= size <= 0x8000,
                0 <= y < size,
                count <= y * size + x,
            decreases size - x,
        {
            match pulled(program, x, y) {
                None => {
                    return None;
                },
                Some(true) => {
                    proof {
                        assert(y * size + x + 1 <= 0x8000 * 0x8000) by (nonlinear_arith)
                            requires
                                0 <= y < size <= 0x8000,
                                0 <= x < size,
                        ;
                    }
                    text.append("#");
                    count = count + 1;
                },
                Some(false) => {
                    text.append(".");
                },
            }
            x = x + 1;
        }
        text.append("\n");
        proof {
            assert(y * size + size == (y + 1) * size) by (nonlinear_arith);
        }
        y = y + 1;
    }
    Some((text, count))
}

pub struct DayNineteen {}

impl Problem for DayNineteen {
    fn part_one(&self, input: &str) -> String {
        match Machine::from_str(input) {
            Ok(machine) => match beam_map(&machine, 50) {
                Some((mut text, count)) => {
                    text.append(&count.to_string());
                    text
                },
                None => "the drone program failed".to_string(),
            },
            Err(_) => "the program text is malformed".to_string(),
        }
    }

    fn part_two(&self, input: &str) -> String {
        "Part two not yet implemented.".to_string()
    }
}

} // verus!
