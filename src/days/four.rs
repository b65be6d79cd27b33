//! Secure Container: six-digit passwords with a doubled digit and no
//! decreasing pair of digits.

use vstd::prelude::*;

use crate::problem::Problem;

verus! {

pub const PASSWORD_LOW: usize = 146810;

pub const PASSWORD_HIGH: usize = 612564;

/// The decimal digits of `n`, most significant first; zero is one digit.
pub open spec fn digits_of(n: nat) -> Seq<usize>
    decreases n,
{
    if n < 10 {
        seq![n as usize]
    } else {
        digits_of(n / 10).push((n % 10) as usize)
    }
}

pub fn digits(n: &usize) -> (r: Vec<usize>)
    ensures
        r@ == digits_of(*n as nat),
    decreases *n,
{
    if *n < 10 {
        vec![*n]
    } else {
        let mut rest = digits(&(*n / 10));
        rest.push(*n % 10);
        rest
    }
}

/// Each digit of `n` with the digit after it.
pub open spec fn pairs_of(n: nat) -> Seq<(usize, usize)> {
    let d = digits_of(n);
    Seq::new((d.len() - 1) as nat, |i: int| (d[i], d[i + 1]))
}

proof fn lemma_digits_nonempty(n: nat)
    ensures
        digits_of(n).len() >= 1,
    decreases n,
{
    if n >= 10 {
        lemma_digits_nonempty(n / 10);
    }
}

pub fn digit_pairs(n: &usize) -> (r: Vec<(usize, usize)>)
    ensures
        r@ == pairs_of(*n as nat),
{
    let d = digits(n);
    proof {
        lemma_digits_nonempty(*n as nat);
    }
    let mut pairs: Vec<(usize, usize)> = Vec::new();
    let mut i: usize = 1;
    while i < d.len()
        invariant
            1 <= i <= d@.len(),
            d@ == digits_of(*n as nat),
            pairs@ == Seq::new((i - 1) as nat, |k: int| (d@[k], d@[k + 1])),
        decreases d.len() - i,
    {
        pairs.push((d[i - 1], d[i]));
        i = i + 1;
        proof {
            assert(pairs@ =~= Seq::new((i - 1) as nat, |k: int| (d@[k], d@[k + 1])));
        }
    }
    proof {
        assert(pairs@ =~= pairs_of(*n as nat));
    }
    pairs
}

/// Some two adjacent digits of `n` are equal.
pub open spec fn has_double(n: nat) -> bool {
    exists|i: int| 0 <= i < pairs_of(n).len() && (#[trigger] pairs_of(n)[i]).0 == pairs_of(n)[i].1
}

/// The digits of `n` never decrease from left to right.
pub open spec fn never_decreases(n: nat) -> bool {
    forall|i: int| 0 <= i < pairs_of(n).len() ==> (#[trigger] pairs_of(n)[i]).0 <= pairs_of(n)[i].1
}

pub fn has_identical_pair(password: &usize) -> (r: bool)
    ensures
        r == has_double(*password as nat),
{
    let pairs = digit_pairs(password);
    let mut i: usize = 0;
    while i < pairs.len()
        invariant
            i <= pairs@.len(),
            pairs@ == pairs_of(*password as nat),
            forall|k: int| 0 <= k < i ==> (#[trigger] pairs@[k]).0 != pairs@[k].1,
        decreases pairs.len() - i,
    {
        if pairs[i].0 == pairs[i].1 {
            return true;
        }
        i = i + 1;
    }
    false
}

pub fn no_decreasing_pairs(password: &usize) -> (r: bool)
    ensures
        r == never_decreases(*password as nat),
{
    let pairs = digit_pairs(password);
    let mut i: usize = 0;
    while i < pairs.len()
        invariant
            i <= pairs@.len(),
            pairs@ == pairs_of(*password as nat),
            forall|k: int| 0 <= k < i ==> (#[trigger] pairs@[k]).0 <= pairs@[k].1,
        decreases pairs.len() - i,
    {
        if pairs[i].0 > pairs[i].1 {
            return false;
        }
        i = i + 1;
    }
    true
}

pub fn within_bounds(password: &usize) -> (r: bool)
    ensures
        r == (PASSWORD_LOW <= *password <= PASSWORD_HIGH),
{
    *password >= PASSWORD_LOW && *password <= PASSWORD_HIGH
}

/// Whether `n` is a password candidate by its digits alone.
pub open spec fn valid_digits(n: nat) -> bool {
    has_double(n) && never_decreases(n)
}

/// How many numbers in `low..hi` are valid by their digits.
pub open spec fn count_valid(low: nat, hi: nat) -> nat
    decreases hi,
{
    if hi <= low {
        0
    } else {
        count_valid(low, (hi - 1) as nat) + if valid_digits((hi - 1) as nat) {
            1nat
        } else {
            0nat
        }
    }
}

/// Counts the numbers from `low` through `high` whose digits hold a doubled
/// digit and never decrease.
pub fn count_valid_passwords(low: usize, high: usize) -> (r: usize)
    requires
        high < usize::MAX,
    ensures
        r == count_valid(low as nat, (high + 1) as nat),
{
    let mut count: usize = 0;
    let mut n: usize = low;
    if low > high {
        return 0;
    }
    while n <= high
        invariant
            low <= n <= high + 1,
            high < usize::MAX,
            count == count_valid(low as nat, n as nat),
            count <= n - low,
        decreases high + 1 - n,
    {
        if has_identical_pair(&n) && no_decreasing_pairs(&n) {
            count = count + 1;
        }
        n = n + 1;
    }
    count
}

pub struct DayFour {}

impl Problem for DayFour {
    fn part_one(&self, input: &str) -> String {
        count_valid_passwords(PASSWORD_LOW, PASSWORD_HIGH).to_string()
    }

    fn part_two(&self, input: &str) -> String {
        "Part two not yet implemented.".to_string()
    }
}

} // verus!
