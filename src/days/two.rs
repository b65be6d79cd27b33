//! 1202 Program Alarm: patch two cells of a program, run it, read cell zero.

use vstd::prelude::*;

use crate::intcode::{fetch, grown, run_result, Machine, MachineView};
use crate::problem::Problem;

verus! {

/// A copy of `m` with its I/O queues emptied.
pub open spec fn copy_of(m: MachineView) -> MachineView {
    MachineView { input: Seq::empty(), input_pointer: 0, output: Seq::empty(), output_pointer: 0, ..m }
}

/// `m` with `noun` written to address 1 and `verb` to address 2.
pub open spec fn patched(m: MachineView, noun: i64, verb: i64) -> MachineView {
    let first = grown(m.memory, 1).update(1, noun);
    m.with_memory(grown(first, 2).update(2, verb))
}

/// Cell zero once a copy of `m` patched with `noun` and `verb` has run until
/// it halts or waits; none when it fails.
pub open spec fn gravity_assist(m: MachineView, noun: i64, verb: i64) -> Option<i64> {
    match run_result(patched(copy_of(m), noun, verb)) {
        Some((end, None)) => Some(fetch(end.memory, 0)),
        _ => None,
    }
}

pub fn run_with(program: &Machine, noun: i64, verb: i64) -> (r: Option<i64>)
    requires
        program@.wf(),
    ensures
        r == gravity_assist(program@, noun, verb),
{
    let mut candidate = program.duplicate();
    let _ = candidate.set(1usize, noun);
    let _ = candidate.set(2usize, verb);
    match candidate.run() {
        Ok(()) => match candidate.get(0usize) {
            Ok(v) => Some(*v),
            Err(_) => None,
        },
        Err(_) => None,
    }
}

/// The first noun and verb below 100, in order of noun then verb, for which
/// the program leaves `target` in cell zero.
pub fn find_noun_verb(program: &Machine, target: i64) -> (r: Option<(i64, i64)>)
    requires
        program@.wf(),
    ensures
        match r {
            Some((noun, verb)) => {
                &&& 0 <= noun < 100 && 0 <= verb < 100
                &&& gravity_assist(program@, noun, verb) == Some(target)
                &&& forall|n: i64, v: i64|
                    0 <= n < 100 && 0 <= v < 100 && (n < noun || (n == noun && v < verb))
                        ==> gravity_assist(program@, n, v) != Some(target)
            },
            None => forall|n: i64, v: i64|
                0 <= n < 100 && 0 <= v < 100 ==> gravity_assist(program@, n, v) != Some(target),
        },
{
    let mut noun: i64 = 0;
    while noun < 100
        invariant
            0 <= noun <= 100,
            program@.wf(),
            forall|n: i64, v: i64|
                0 <= n < noun && 0 <= v < 100 ==> gravity_assist(program@, n, v) != Some(target),
        decreases 100 - noun,
    {
        let mut verb: i64 = 0;
        while verb < 100
            invariant
                0 <= noun < 100,
                0 <= verb <= 100,
                program@.wf(),
                forall|n: i64, v: i64|
                    0 <= n < noun && 0 <= v < 100 ==> gravity_assist(program@, n, v) != Some(
                        target,
                    ),
                forall|v: i64| 0 <= v < verb ==> gravity_assist(program@, noun, v) != Some(target),
            decreases 100 - verb,
        {
            if run_with(program, noun, verb) == Some(target) {
                return Some((noun, verb));
            }
            verb = verb + 1;
        }
        noun = noun + 1;
    }
    None
}

pub struct DayTwo {}

impl Problem for DayTwo {
    fn name(&self) -> String {
        "1202 Program Alarm".to_string()
    }

    fn part_one(&self, input: &str) -> String {
        match Machine::from_str(input) {
            Ok(machine) => match run_with(&machine, 12, 2) {
                Some(v) => v.to_string(),
                None => "the program failed".to_string(),
            },
            Err(_) => "the program text is malformed".to_string(),
        }
    }

    fn part_two(&self, input: &str) -> String {
        match Machine::from_str(input) {
            Ok(machine) => match find_noun_verb(&machine, 19690720) {
                Some((noun, verb)) => (100 * noun + verb).to_string(),
                None => "No solution found under 100".to_string(),
            },
            Err(_) => "the program text is malformed".to_string(),
        }
    }
}

} // verus!
