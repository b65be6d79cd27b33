//! Cryostasis: a text adventure run by an Intcode program that reads and
//! writes ASCII.

use vstd::prelude::*;

use crate::intcode::{Machine, OperationalError};
use crate::problem::Problem;

verus! {

/// The walk through the ship that collects the right items, one command per line.
pub fn solution_commands() -> (r: Vec<String>)
    ensures
        r@.len() == 24,
{
    let mut commands: Vec<String> = Vec::new();
    commands.push("south\n".to_string());
    commands.push("west\n".to_string());
    commands.push("take hologram\n".to_string());
    commands.push("south\n".to_string());
    commands.push("west\n".to_string());
    commands.push("west\n".to_string());
    commands.push("take hypercube\n".to_string());
    commands.push("east\n".to_string());
    commands.push("east\n".to_string());
    commands.push("north\n".to_string());
    commands.push("east\n".to_string());
    commands.push("south\n".to_string());
    commands.push("take cake\n".to_string());
    commands.push("west\n".to_string());
    commands.push("north\n".to_string());
    commands.push("take coin\n".to_string());
    commands.push("south\n".to_string());
    commands.push("east\n".to_string());
    commands.push("east\n".to_string());
    commands.push("south\n".to_string());
    commands.push("east\n".to_string());
    commands.push("take food\n".to_string());
    commands.push("south\n".to_string());
    commands.push("south\n".to_string());
    commands
}

/// The number whose decimal digits, most significant first, are `digits`.
pub open spec fn number_of(digits: Seq<usize>) -> int
    decreases digits.len(),
{
    if digits.len() == 0 {
        0
    } else {
        number_of(digits.drop_last()) * 10 + digits.last()
    }
}

proof fn lemma_number_prefix(digits: Seq<usize>, k: int)
    requires
        0 <= k <= digits.len(),
    ensures
        0 <= number_of(digits.subrange(0, k)) <= number_of(digits),
    decreases digits.len() - k,
{
    if k < digits.len() {
        lemma_number_prefix(digits, k + 1);
        assert(digits.subrange(0, k + 1).drop_last() =~= digits.subrange(0, k));
        lemma_number_nonneg(digits.subrange(0, k));
        assert(number_of(digits.subrange(0, k + 1)) == number_of(digits.subrange(0, k)) * 10
            + digits[k]);
    } else {
        assert(digits.subrange(0, k) =~= digits);
        lemma_number_nonneg(digits);
    }
}

proof fn lemma_number_nonneg(digits: Seq<usize>)
    ensures
        number_of(digits) >= 0,
    decreases digits.len(),
{
    if digits.len() > 0 {
        lemma_number_nonneg(digits.drop_last());
    }
}

/// The number that `digits` spell; none when it does not fit.
pub fn from_digits(digits: Vec<usize>) -> (r: Option<usize>)
    ensures
        number_of(digits@) <= usize::MAX ==> r == Some(number_of(digits@) as usize),
        number_of(digits@) > usize::MAX ==> r is None,
{
    let mut value: usize = 0;
    let mut i: usize = 0;
    while i < digits.len()
        invariant
            i <= digits@.len(),
            value == number_of(digits@.subrange(0, i as int)),
        decreases digits.len() - i,
    {
        proof {
            assert(digits@.subrange(0, i + 1).drop_last() =~= digits@.subrange(0, i as int));
            lemma_number_prefix(digits@, i + 1);
        }
        if value > (usize::MAX - digits[i]) / 10 {
            return None;
        }
        value = value * 10 + digits[i];
        i = i + 1;
    }
    proof {
        assert(digits@.subrange(0, digits@.len() as int) =~= digits@);
    }
    Some(value)
}

/// The values of the ASCII digits in `output`, in order; other codes are skipped.
pub fn ascii_digits(output: &Vec<i64>) -> (r: Vec<usize>)
    ensures
        forall|i: int| 0 <= i < r@.len() ==> #[trigger] r@[i] <= 9,
{
    let mut digits: Vec<usize> = Vec::new();
    let mut i: usize = 0;
    while i < output.len()
        invariant
            forall|k: int| 0 <= k < digits@.len() ==> #[trigger] digits@[k] <= 9,
        decreases output.len() - i,
    {
        let c = output[i];
        if c >= 48 && c <= 57 {
            digits.push((c - 48) as usize);
        }
        i = i + 1;
    }
    digits
}

/// Types `command` into the machine, one character code at a time.
pub fn type_command(machine: &mut Machine, command: &str)
    requires
        old(machine)@.wf(),
    ensures
        final(machine)@.wf(),
        final(machine)@.output == old(machine)@.output,
        final(machine)@.output_pointer == old(machine)@.output_pointer,
{
    let cs = crate::parse::chars_of(command);
    let mut i: usize = 0;
    while i < cs.len()
        invariant
            machine@.wf(),
            machine@.output == old(machine)@.output,
            machine@.output_pointer == old(machine)@.output_pointer,
        decreases cs.len() - i,
    {
        machine.write(cs[i] as u32 as i64);
        i = i + 1;
    }
}

/// Walks the solution path and returns the number in the game's last message.
pub fn play_auto(machine: Machine) -> Result<Option<usize>, OperationalError>
    requires
        machine@.wf(),
{
    let mut machine = machine;
    let commands = solution_commands();
    let mut output: Vec<i64> = Vec::new();
    let mut i: usize = 0;
    while i < commands.len()
        invariant
            machine@.wf(),
        decreases commands.len() - i,
    {
        type_command(&mut machine, commands[i].as_str());
        machine.run()?;
        output = machine.read();
        i = i + 1;
    }
    Ok(from_digits(ascii_digits(&output)))
}

pub struct DayTwentyFive {}

impl Problem for DayTwentyFive {
    fn name(&self) -> String {
        "Cryostasis".to_string()
    }

    fn part_one(&self, input: &str) -> String {
        match Machine::from_str(input) {
            Ok(machine) => match play_auto(machine) {
                Ok(Some(n)) => n.to_string(),
                Ok(None) => "the password does not fit in a machine word".to_string(),
                Err(_) => "the game failed".to_string(),
            },
            Err(_) => "the program text is malformed".to_string(),
        }
    }

    fn part_two(&self, input: &str) -> String {
        "Part two not yet implemented.".to_string()
    }
}

} // verus!
