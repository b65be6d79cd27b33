//! The Tyranny of the Rocket Equation: fuel for module masses.

use vstd::prelude::*;

use crate::parse::parse_words;
use crate::problem::Problem;

verus! {

/// Fuel for a mass: a third of it rounded down, less two, never below zero.
pub open spec fn fuel_spec(mass: nat) -> nat {
    if mass / 3 < 2 {
        0
    } else {
        (mass / 3 - 2) as nat
    }
}

/// Fuel for a mass together with the fuel that its own fuel needs, and so on
/// until the extra fuel needed is zero.
pub open spec fn total_fuel_spec(mass: nat) -> nat
    decreases mass,
{
    let f = fuel_spec(mass);
    if f == 0 || f >= mass {
        0
    } else {
        f + total_fuel_spec(f)
    }
}

pub fn mass2fuel(mass: usize) -> (r: usize)
    ensures
        r == fuel_spec(mass as nat),
{
    if mass / 3 < 2 {
        0
    } else {
        mass / 3 - 2
    }
}

proof fn lemma_total_fuel_bound(mass: nat)
    ensures
        total_fuel_spec(mass) <= mass,
    decreases mass,
{
    let f = fuel_spec(mass);
    if f != 0 && f < mass {
        lemma_total_fuel_bound(f);
    }
}

pub fn fuel_for_mass_and_fuel(mass: usize) -> (r: usize)
    ensures
        r == total_fuel_spec(mass as nat),
    decreases mass,
{
    let additional_fuel = mass2fuel(mass);
    if additional_fuel == 0 {
        0
    } else {
        proof {
            lemma_total_fuel_bound(additional_fuel as nat);
        }
        additional_fuel + fuel_for_mass_and_fuel(additional_fuel)
    }
}

/// The fuel that all masses need together, counting the fuel's own mass when
/// `with_fuel_mass` holds.
pub open spec fn fuel_sum(masses: Seq<i64>, with_fuel_mass: bool) -> int
    decreases masses.len(),
{
    if masses.len() == 0 {
        0
    } else {
        let m = masses.last() as nat;
        fuel_sum(masses.drop_last(), with_fuel_mass) + if with_fuel_mass {
            total_fuel_spec(m)
        } else {
            fuel_spec(m)
        }
    }
}

/// The total fuel for a list of masses; none when a mass is negative or too
/// large for an address-sized integer, or the total does not fit in a `u64`.
pub fn total_fuel(masses: &Vec<i64>, with_fuel_mass: bool) -> (r: Option<u64>)
    ensures
        (forall|i: int| 0 <= i < masses@.len() ==> 0 <= #[trigger] masses@[i] <= usize::MAX)
            && fuel_sum(
            masses@,
            with_fuel_mass,
        ) <= u64::MAX ==> r == Some(fuel_sum(masses@, with_fuel_mass) as u64),
        r matches Some(v) ==> v == fuel_sum(masses@, with_fuel_mass),
{
    let mut total: u64 = 0;
    let mut i: usize = 0;
    while i < masses.len()
        invariant
            i <= masses@.len(),
            total == fuel_sum(masses@.subrange(0, i as int), with_fuel_mass),
        decreases masses.len() - i,
    {
        proof {
            assert(masses@.subrange(0, i + 1).drop_last() =~= masses@.subrange(0, i as int));
        }
        let m = masses[i];
        if m < 0 || m as u64 > usize::MAX as u64 {
            proof {
                assert(!(0 <= masses@[i as int] <= usize::MAX));
            }
            return None;
        }
        let f = if with_fuel_mass {
            fuel_for_mass_and_fuel(m as usize)
        } else {
            mass2fuel(m as usize)
        };
        if f as u64 > u64::MAX - total {
            proof {
                lemma_fuel_sum_prefix(masses@, with_fuel_mass, i + 1);
            }
            return None;
        }
        total = total + f as u64;
        i = i + 1;
    }
    proof {
        assert(masses@.subrange(0, masses@.len() as int) =~= masses@);
    }
    Some(total)
}

proof fn lemma_fuel_sum_prefix(masses: Seq<i64>, with_fuel_mass: bool, k: int)
    requires
        0 <= k <= masses.len(),
    ensures
        fuel_sum(masses.subrange(0, k), with_fuel_mass) <= fuel_sum(masses, with_fuel_mass),
    decreases masses.len() - k,
{
    if k < masses.len() {
        lemma_fuel_sum_prefix(masses, with_fuel_mass, k + 1);
        assert(masses.subrange(0, k + 1).drop_last() =~= masses.subrange(0, k));
    } else {
        assert(masses.subrange(0, k) =~= masses);
    }
}

pub struct DayOne {}

impl DayOne {
    /// The answer for a list of masses, as text.
    fn answer(input: &str, with_fuel_mass: bool) -> String {
        match parse_words(input) {
            Ok(masses) => match total_fuel(&masses, with_fuel_mass) {
                Some(total) => total.to_string(),
                None => "masses must be non-negative and their fuel must fit in 64 bits".to_string(),
            },
            Err(word) => word,
        }
    }
}

impl Problem for DayOne {
    fn name(&self) -> String {
        "The Tyranny of the Rocket Equation".to_string()
    }

    fn part_one(&self, input: &str) -> String {
        DayOne::answer(input, false)
    }

    fn part_two(&self, input: &str) -> String {
        DayOne::answer(input, true)
    }
}

} // verus!
