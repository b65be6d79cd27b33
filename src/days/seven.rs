//! Amplification Circuit: copies of one program chained output to input,
//! each started with its own phase setting.

use vstd::prelude::*;

use itertools::Itertools;

use crate::days::two::copy_of;
use crate::intcode::{run_result, Machine, MachineState, MachineView};
use crate::problem::Problem;

verus! {

/// The signal that a fresh copy of `base`, given `setting` and then `signal`,
/// puts out first; none when it fails or puts out nothing.
pub open spec fn amplify(base: MachineView, setting: i64, signal: i64) -> Option<i64> {
    match run_result(copy_of(base).pushed(setting).pushed(signal)) {
        Some((end, None)) => if end.pending_output().len() > 0 {
            Some(end.pending_output()[0])
        } else {
            None
        },
        _ => None,
    }
}

/// The signal out of the last of a chain of amplifiers with `settings`, fed
/// zero at the first.
pub open spec fn chain(base: MachineView, settings: Seq<i64>) -> Option<i64>
    decreases settings.len(),
{
    if settings.len() == 0 {
        Some(0)
    } else {
        match chain(base, settings.drop_last()) {
            None => None,
            Some(signal) => amplify(base, settings.last(), signal),
        }
    }
}

proof fn lemma_chain_none_persists(base: MachineView, settings: Seq<i64>, i: int, n: int)
    requires
        0 <= i <= n <= settings.len(),
        chain(base, settings.subrange(0, i)) is None,
    ensures
        chain(base, settings.subrange(0, n)) is None,
    decreases n,
{
    if n > i {
        lemma_chain_none_persists(base, settings, i, n - 1);
        assert(settings.subrange(0, n).drop_last() =~= settings.subrange(0, n - 1));
    }
}

pub fn run_amplifiers(base_machine: &Machine, phase_settings: Vec<i64>) -> (r: Option<i64>)
    requires
        base_machine@.wf(),
    ensures
        r == chain(base_machine@, phase_settings@),
{
    let mut signal: i64 = 0;
    let mut i: usize = 0;
    proof {
        assert(phase_settings@.subrange(0, 0) =~= Seq::<i64>::empty());
    }
    while i < phase_settings.len()
        invariant
            i <= phase_settings@.len(),
            base_machine@.wf(),
            chain(base_machine@, phase_settings@.subrange(0, i as int)) == Some(signal),
        decreases phase_settings.len() - i,
    {
        proof {
            assert(phase_settings@.subrange(0, i + 1).drop_last() =~= phase_settings@.subrange(
                0,
                i as int,
            ));
        }
        let mut machine = base_machine.duplicate();
        machine.write(phase_settings[i]);
        machine.write(signal);
        let failed = match machine.run() {
            Ok(()) => false,
            Err(_) => true,
        };
        let out = machine.read();
        if failed || out.len() == 0 {
            proof {
                lemma_chain_none_persists(
                    base_machine@,
                    phase_settings@,
                    i + 1,
                    phase_settings@.len() as int,
                );
                assert(phase_settings@.subrange(0, phase_settings@.len() as int)
                    =~= phase_settings@);
            }
            return None;
        }
        signal = out[0];
        i = i + 1;
    }
    proof {
        assert(phase_settings@.subrange(0, phase_settings@.len() as int) =~= phase_settings@);
    }
    Some(signal)
}

/// The instructions that the machines can still count, summed.
pub open spec fn budget(ms: Seq<Machine>) -> int
    decreases ms.len(),
{
    if ms.len() == 0 {
        0
    } else {
        budget(ms.drop_last()) + (usize::MAX - ms.last()@.counter)
    }
}

proof fn lemma_budget_update(ms: Seq<Machine>, i: int, m: Machine)
    requires
        0 <= i < ms.len(),
    ensures
        budget(ms.update(i, m)) == budget(ms) - (m@.counter - ms[i]@.counter),
    decreases ms.len(),
{
    if i < ms.len() - 1 {
        lemma_budget_update(ms.drop_last(), i, m);
        assert(ms.update(i, m).drop_last() =~= ms.drop_last().update(i, m));
    } else {
        assert(ms.update(i, m).drop_last() =~= ms.drop_last());
    }
}

proof fn lemma_budget_nonneg(ms: Seq<Machine>)
    ensures
        budget(ms) >= 0,
    decreases ms.len(),
{
    if ms.len() > 0 {
        lemma_budget_nonneg(ms.drop_last());
    }
}

/// Runs copies of `base_machine` in a feedback loop, each started with its
/// phase setting and the first also with zero, passing each one's outputs
/// to the next until the last one halts; its last output is the signal.
/// None when a machine fails, when the last one halts with nothing to say,
/// or when a whole round passes in which no machine can run.
pub fn run_amplifiers_looped(base_machine: &Machine, phase_settings: Vec<i64>) -> (r: Option<i64>)
    requires
        base_machine@.wf(),
{
    let n = phase_settings.len();
    if n == 0 {
        return None;
    }
    let mut machines: Vec<Machine> = Vec::new();
    let mut k: usize = 0;
    while k < n
        invariant
            k <= n == phase_settings@.len(),
            base_machine@.wf(),
            machines@.len() == k,
            forall|j: int| 0 <= j < k ==> (#[trigger] machines@[j])@.wf(),
        decreases n - k,
    {
        let mut m = base_machine.duplicate();
        m.write(phase_settings[k]);
        if k == 0 {
            m.write(0);
        }
        machines.push(m);
        k = k + 1;
    }
    let mut next_inputs: Vec<i64> = Vec::new();
    let mut i: usize = 0;
    let mut idle: usize = 0;
    loop
        invariant
            n == machines@.len() > 0,
            i < n,
            idle <= n,
            forall|j: int| 0 <= j < n ==> (#[trigger] machines@[j])@.wf(),
        decreases budget(machines@), n - idle,
    {
        proof {
            lemma_budget_nonneg(machines@);
        }
        let ghost before_all = machines@;
        let mut machine = machines.remove(i);
        let mut v: usize = 0;
        while v < next_inputs.len()
            invariant
                machine@.wf(),
                i < n == before_all.len(),
                machines@ == before_all.remove(i as int),
                machine@.counter == before_all[i as int]@.counter,
                idle <= n,
                forall|j: int| 0 <= j < n ==> (#[trigger] before_all[j])@.wf(),
            decreases next_inputs.len() - v,
        {
            machine.write(next_inputs[v]);
            v = v + 1;
        }
        let before = machine.instruction_counter();
        match machine.run() {
            Ok(()) => {},
            Err(_) => {
                return None;
            },
        }
        next_inputs = machine.read();
        let progressed = machine.instruction_counter() > before;
        let halted_last = machine.state() == MachineState::Halted && i == n - 1;
        let ghost after = machine;
        machines.insert(i, machine);
        proof {
            assert(machines@ =~= before_all.update(i as int, after));
            lemma_budget_update(before_all, i as int, after);
        }
        if halted_last {
            break;
        }
        proof {
            lemma_budget_nonneg(machines@);
        }
        if progressed {
            idle = 0;
        } else {
            if idle == n {
                return None;
            }
            idle = idle + 1;
        }
        i = if i + 1 == n {
            0
        } else {
            i + 1
        };
    }
    if next_inputs.len() == 0 {
        None
    } else {
        Some(next_inputs[next_inputs.len() - 1])
    }
}

/// The largest signal over the chains with `orders`, skipping those that fail.
pub fn max_thrust(base_machine: &Machine, orders: &Vec<Vec<i64>>) -> (r: Option<i64>)
    requires
        base_machine@.wf(),
    ensures
        match r {
            Some(best) => (exists|i: int|
                0 <= i < orders@.len() && chain(base_machine@, (#[trigger] orders@[i])@) == Some(
                    best,
                )) && forall|i: int|
                0 <= i < orders@.len() ==> (chain(base_machine@, (#[trigger] orders@[i])@) matches Some(
                    s,
                ) ==> s <= best),
            None => forall|i: int|
                0 <= i < orders@.len() ==> chain(base_machine@, (#[trigger] orders@[i])@) is None,
        },
{
    let mut best: Option<i64> = None;
    let mut i: usize = 0;
    while i < orders.len()
        invariant
            i <= orders@.len(),
            base_machine@.wf(),
            match best {
                Some(b) => (exists|k: int|
                    0 <= k < i && chain(base_machine@, (#[trigger] orders@[k])@) == Some(b))
                    && forall|k: int|
                    0 <= k < i ==> (chain(base_machine@, (#[trigger] orders@[k])@) matches Some(
                        s,
                    ) ==> s <= b),
                None => forall|k: int|
                    0 <= k < i ==> chain(base_machine@, (#[trigger] orders@[k])@) is None,
            },
        decreases orders.len() - i,
    {
        let order = orders[i].clone();
        proof {
            assert(order@ == orders@[i as int]@);
        }
        match run_amplifiers(base_machine, order) {
            Some(s) => {
                best = match best {
                    Some(b) => if s > b {
                        Some(s)
                    } else {
                        Some(b)
                    },
                    None => Some(s),
                };
            },
            None => {},
        }
        i = i + 1;
    }
    best
}

/// Whether `s` orders the settings `lo` through `hi - 1`: each once.
pub open spec fn is_order(s: Seq<i64>, lo: i64, hi: i64) -> bool {
    &&& s.len() == hi - lo
    &&& forall|k: int| 0 <= k < s.len() ==> lo <= #[trigger] s[k] < hi
    &&& forall|j: int, k: int| 0 <= j < k < s.len() ==> s[j] != s[k]
}

/// Relies on itertools' `permutations`, which yields every ordering of the
/// items `lo..hi` (all k-permutations with k the number of items), each once
/// per arrangement of positions.
#[verifier::external_body]
fn phase_orders(lo: i64, hi: i64) -> (r: Vec<Vec<i64>>)
    requires
        lo <= hi,
    ensures
        forall|i: int| 0 <= i < r@.len() ==> is_order((#[trigger] r@[i])@, lo, hi),
        forall|s: Seq<i64>| is_order(s, lo, hi) ==> exists|i: int| 0 <= i < r@.len() && (#[trigger] r@[i])@ == s,
{
    (lo..hi).permutations((hi - lo) as usize).collect()
}

/// The largest signal over every order of the settings `lo..hi`.
pub fn best_order_thrust(base_machine: &Machine, lo: i64, hi: i64) -> (r: Option<i64>)
    requires
        base_machine@.wf(),
        lo <= hi,
    ensures
        match r {
            Some(best) => (exists|s: Seq<i64>| is_order(s, lo, hi) && chain(base_machine@, s) == Some(best))
                && forall|s: Seq<i64>| is_order(s, lo, hi) ==> (#[trigger] chain(base_machine@, s) matches Some(t) ==> t <= best),
            None => forall|s: Seq<i64>| is_order(s, lo, hi) ==> #[trigger] chain(base_machine@, s) is None,
        },
{
    let orders = phase_orders(lo, hi);
    let r = max_thrust(base_machine, &orders);
    proof {
        match r {
            Some(best) => {
                let i = choose|i: int|
                    0 <= i < orders@.len() && chain(base_machine@, (#[trigger] orders@[i])@) == Some(best);
                assert(is_order(orders@[i]@, lo, hi));
                assert forall|s: Seq<i64>| is_order(s, lo, hi) implies (#[trigger] chain(base_machine@, s) matches Some(t) ==> t <= best) by {
                    let k = choose|k: int| 0 <= k < orders@.len() && (#[trigger] orders@[k])@ == s;
                }
            },
            None => {
                assert forall|s: Seq<i64>| is_order(s, lo, hi) implies #[trigger] chain(base_machine@, s) is None by {
                    let k = choose|k: int| 0 <= k < orders@.len() && (#[trigger] orders@[k])@ == s;
                }
            },
        }
    }
    r
}

pub struct DaySeven {}

impl Problem for DaySeven {
    fn name(&self) -> String {
        "Amplification Circuit".to_string()
    }

    fn part_one(&self, input: &str) -> String {
        match Machine::from_str(input) {
            Ok(machine) => match best_order_thrust(&machine, 0, 5) {
                Some(t) => t.to_string(),
                None => "no order of phase settings gives a signal".to_string(),
            },
            Err(_) => "the program text is malformed".to_string(),
        }
    }

    fn part_two(&self, input: &str) -> String {
        let machine = match Machine::from_str(input) {
            Ok(m) => m,
            Err(_) => {
                return "the program text is malformed".to_string();
            },
        };
        let orders = phase_orders(5, 10);
        let mut best: Option<i64> = None;
        let mut i: usize = 0;
        while i < orders.len()
            invariant
                machine@.wf(),
            decreases orders.len() - i,
        {
            if let Some(s) = run_amplifiers_looped(&machine, orders[i].clone()) {
                best = match best {
                    Some(b) => if s > b {
                        Some(s)
                    } else {
                        Some(b)
                    },
                    None => Some(s),
                };
            }
            i = i + 1;
        }
        match best {
            Some(t) => t.to_string(),
            None => "no order of phase settings gives a signal".to_string(),
        }
    }
}

} // verus!
