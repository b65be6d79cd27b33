//! A puzzle with two parts, each answered from the puzzle's text input.

use vstd::prelude::*;

verus! {

pub trait Problem {
    fn name(&self) -> String {
        "???".to_string()
    }

    fn part_one(&self, input: &str) -> String;

    fn part_two(&self, input: &str) -> String;
}

} // verus!
