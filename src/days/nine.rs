//! Sensor Boost: the BOOST program in test mode and in sensor mode.

use vstd::prelude::*;

use crate::days::five::report;
use crate::problem::Problem;

verus! {

pub struct DayNine {}

impl Problem for DayNine {
    fn name(&self) -> String {
        "Sensor Boost".to_string()
    }

    fn part_one(&self, input: &str) -> String {
        report(input, 1)
    }

    fn part_two(&self, input: &str) -> String {
        report(input, 2)
    }
}

} // verus!
