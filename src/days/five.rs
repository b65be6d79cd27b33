//! Sunny With a Chance of Asteroids: a diagnostic program that takes one
//! system id and reports its outputs.

use vstd::prelude::*;

use crate::intcode::{run_result, Machine, MachineView, OperationalError};
use crate::parse::parse_program;
use crate::problem::Problem;
use crate::render::{join_values, joined};

verus! {

/// Feeds `input` to `machine`, runs it until it halts or waits, and returns
/// what it put out.
pub fn outputs_for(machine: Machine, input: i64) -> (r: Result<Vec<i64>, OperationalError>)
    requires
        machine@.wf(),
    ensures
        match run_result(machine@.pushed(input)) {
            Some((end, None)) => r matches Ok(out) && out@ == end.pending_output(),
            Some((end, Some(e))) => r == Err::<Vec<i64>, OperationalError>(e),
            None => false,
        },
{
    let mut machine = machine;
    machine.write(input);
    match machine.run() {
        Ok(()) => Ok(machine.read()),
        Err(e) => Err(e),
    }
}

/// The outputs of the program text for one input, separated by spaces.
pub fn report(text: &str, input: i64) -> (r: String)
    ensures
        match parse_program(text@) {
            Ok(vals) => match run_result(MachineView::fresh(vals).pushed(input)) {
                Some((end, None)) => r@ == joined(end.pending_output(), " "@),
                _ => true,
            },
            Err(_) => true,
        },
{
    match Machine::from_str(text) {
        Ok(machine) => match outputs_for(machine, input) {
            Ok(out) => join_values(&out, " "),
            Err(_) => "the program failed".to_string(),
        },
        Err(_) => "the program text is malformed".to_string(),
    }
}

pub struct DayFive {}

impl Problem for DayFive {
    fn name(&self) -> String {
        "Sunny With a Chance of Asteroids".to_string()
    }

    fn part_one(&self, input: &str) -> String {
        report(input, 1)
    }

    fn part_two(&self, input: &str) -> String {
        report(input, 5)
    }
}

} // verus!
