//! Flawed Frequency Transmission: phases of a repeating-pattern transform on
//! a list of digits.

use vstd::prelude::*;

use vstd::arithmetic::div_mod::lemma_add_mod_noop;
use vstd::slice::slice_to_vec;

use crate::parse::chars_of;
use crate::problem::Problem;

verus! {

/// The pattern value for position `index` of output element `repeats`: the
/// base pattern 0, 1, 0, -1 with each value repeated `repeats` times, shifted
/// left by one.
pub open spec fn pattern(index: int, repeats: int) -> int {
    let k = ((index + 1) / repeats) % 4;
    if k == 1 {
        1
    } else if k == 3 {
        -1
    } else {
        0
    }
}

pub fn index_to_pattern_val(index: usize, repeats: usize) -> (r: i64)
    requires
        repeats > 0,
        index < usize::MAX,
    ensures
        r == pattern(index as int, repeats as int),
{
    match ((index + 1) / repeats) % 4 {
        0 => 0,
        1 => 1,
        2 => 0,
        _ => -1,
    }
}

/// Whether `input` is a list of decimal digits short enough that its sums fit.
pub open spec fn digit_list(input: Seq<usize>) -> bool {
    &&& input.len() < 0x1_0000_0000_0000
    &&& forall|i: int| 0 <= i < input.len() ==> #[trigger] input[i] <= 9
}

/// The sum of `input[i] * pattern(i, repeats)` over the first `n` elements.
pub open spec fn weighted_sum(input: Seq<usize>, repeats: int, n: int) -> int
    decreases n,
{
    if n <= 0 {
        0
    } else {
        weighted_sum(input, repeats, n - 1) + input[n - 1] * pattern(n - 1, repeats)
    }
}

proof fn lemma_weighted_sum_bound(input: Seq<usize>, repeats: int, n: int)
    requires
        digit_list(input),
        0 <= n <= input.len(),
        repeats > 0,
    ensures
        -9 * n <= weighted_sum(input, repeats, n) <= 9 * n,
    decreases n,
{
    if n > 0 {
        lemma_weighted_sum_bound(input, repeats, n - 1);
        assert(input[n - 1] <= 9);
    }
}

/// Element `repeats - 1` of the next phase: the last digit of the weighted sum.
pub open spec fn phase_val(input: Seq<usize>, repeats: int) -> int {
    let s = weighted_sum(input, repeats, input.len() as int);
    (if s < 0 {
        -s
    } else {
        s
    }) % 10
}

pub fn next_phase_val(input: &[usize], index: usize) -> (r: usize)
    requires
        digit_list(input@),
        index > 0,
    ensures
        r == phase_val(input@, index as int),
{
    let mut sum: i64 = 0;
    let mut i: usize = 0;
    while i < input.len()
        invariant
            i <= input@.len(),
            digit_list(input@),
            index > 0,
            sum == weighted_sum(input@, index as int, i as int),
        decreases input.len() - i,
    {
        proof {
            lemma_weighted_sum_bound(input@, index as int, i as int);
            assert(input@[i as int] <= 9);
        }
        let p = index_to_pattern_val(i, index);
        sum = sum + (input[i] as i64) * p;
        i = i + 1;
    }
    proof {
        lemma_weighted_sum_bound(input@, index as int, input@.len() as int);
    }
    let magnitude: i64 = if sum < 0 {
        -sum
    } else {
        sum
    };
    (magnitude % 10) as usize
}

/// The next phase of `input`.
pub open spec fn phase(input: Seq<usize>) -> Seq<usize> {
    Seq::new(input.len(), |i: int| phase_val(input, i + 1) as usize)
}

proof fn lemma_phase_digits(input: Seq<usize>)
    requires
        digit_list(input),
    ensures
        digit_list(phase(input)),
{
    assert forall|i: int| 0 <= i < input.len() implies #[trigger] phase(input)[i] <= 9 by {
        let s = weighted_sum(input, i + 1, input.len() as int);
        assert((if s < 0 {
            -s
        } else {
            s
        }) % 10 < 10);
    }
}

pub fn next_phase(input: &[usize]) -> (r: Vec<usize>)
    requires
        digit_list(input@),
    ensures
        r@ == phase(input@),
        digit_list(r@),
{
    let mut out: Vec<usize> = Vec::new();
    let mut i: usize = 0;
    while i < input.len()
        invariant
            i <= input@.len(),
            digit_list(input@),
            out@ == phase(input@).subrange(0, i as int),
        decreases input.len() - i,
    {
        let v = next_phase_val(input, i + 1);
        out.push(v);
        i = i + 1;
        proof {
            assert(out@ =~= phase(input@).subrange(0, i as int));
        }
    }
    proof {
        assert(out@ =~= phase(input@));
        lemma_phase_digits(input@);
    }
    out
}

/// `input` after `n` phases.
pub open spec fn nth_phase_spec(input: Seq<usize>, n: nat) -> Seq<usize>
    decreases n,
{
    if n == 0 {
        input
    } else {
        phase(nth_phase_spec(input, (n - 1) as nat))
    }
}

pub fn nth_phase(input: &[usize], n: usize) -> (r: Vec<usize>)
    requires
        digit_list(input@),
    ensures
        r@ == nth_phase_spec(input@, n as nat),
{
    let mut acc: Vec<usize> = slice_to_vec(input);
    let mut k: usize = 0;
    while k < n
        invariant
            k <= n,
            acc@ == nth_phase_spec(input@, k as nat),
            digit_list(acc@),
        decreases n - k,
    {
        acc = next_phase(acc.as_slice());
        k = k + 1;
    }
    acc
}

/// The digit values of `s`, if every character is a decimal digit.
pub open spec fn digits_spec(s: Seq<char>) -> Option<Seq<usize>> {
    if forall|i: int| 0 <= i < s.len() ==> '0' <= #[trigger] s[i] <= '9' {
        Some(Seq::new(s.len(), |i: int| (s[i] as u32 - '0' as u32) as usize))
    } else {
        None
    }
}

pub fn digits(input: &str) -> (r: Option<Vec<usize>>)
    ensures
        match digits_spec(input@) {
            Some(d) => r matches Some(v) && v@ == d,
            None => r is None,
        },
{
    let cs = chars_of(input);
    let mut out: Vec<usize> = Vec::new();
    let mut i: usize = 0;
    while i < cs.len()
        invariant
            i <= cs@.len(),
            cs@ == input@,
            out@.len() == i,
            forall|k: int| 0 <= k < i ==> '0' <= #[trigger] cs@[k] <= '9',
            forall|k: int| 0 <= k < i ==> #[trigger] out@[k] == (cs@[k] as u32 - '0' as u32) as usize,
        decreases cs.len() - i,
    {
        let c = cs[i];
        if !('0' <= c && c <= '9') {
            return None;
        }
        out.push((c as u32 - '0' as u32) as usize);
        i = i + 1;
    }
    proof {
        assert(out@ =~= Seq::new(cs@.len(), |k: int| (cs@[k] as u32 - '0' as u32) as usize));
    }
    Some(out)
}

/// The sum of `input[k..]`.
pub open spec fn suffix_sum(input: Seq<usize>, k: int) -> int
    decreases input.len() - k,
{
    if k >= input.len() || k < 0 {
        0
    } else {
        input[k] + suffix_sum(input, k + 1)
    }
}

/// The next phase of the back half of a signal, where each element is the
/// sum of itself and everything after it, mod ten.
pub open spec fn cheating_phase(input: Seq<usize>) -> Seq<usize> {
    Seq::new(input.len(), |k: int| (suffix_sum(input, k) % 10) as usize)
}

pub fn next_phase_cheating(input: &[usize]) -> (r: Vec<usize>)
    ensures
        r@ == cheating_phase(input@),
{
    let n = input.len();
    let mut next: Vec<usize> = vec![0; n];
    let mut sum: usize = 0;
    let mut k: usize = n;
    while k > 0
        invariant
            k <= n == input@.len(),
            next@.len() == n,
            sum == suffix_sum(input@, k as int) % 10,
            forall|j: int| k <= j < n ==> #[trigger] next@[j] == (suffix_sum(input@, j) % 10) as usize,
        decreases k,
    {
        k = k - 1;
        proof {
            lemma_add_mod_noop(input@[k as int] as int, suffix_sum(input@, k + 1), 10);
            assert(suffix_sum(input@, k as int) == input@[k as int] + suffix_sum(input@, k + 1));
        }
        sum = (sum + input[k] % 10) % 10;
        next.set(k, sum);
    }
    proof {
        assert(next@ =~= cheating_phase(input@));
    }
    next
}

/// `input` after `n` back-half phases.
pub open spec fn nth_cheating_spec(input: Seq<usize>, n: nat) -> Seq<usize>
    decreases n,
{
    if n == 0 {
        input
    } else {
        cheating_phase(nth_cheating_spec(input, (n - 1) as nat))
    }
}

pub fn nth_phase_cheating(input: &[usize], n: usize) -> (r: Vec<usize>)
    ensures
        r@ == nth_cheating_spec(input@, n as nat),
{
    let mut acc: Vec<usize> = slice_to_vec(input);
    let mut k: usize = 0;
    while k < n
        invariant
            k <= n,
            acc@ == nth_cheating_spec(input@, k as nat),
        decreases n - k,
    {
        acc = next_phase_cheating(acc.as_slice());
        k = k + 1;
    }
    acc
}

/// The first eight digits of `ds` (fewer if it is shorter), as text.
fn first_eight(ds: &Vec<usize>) -> String {
    let mut text = String::new();
    let mut i: usize = 0;
    while i < ds.len() && i < 8
        decreases ds.len() - i,
    {
        let d = match ds[i] {
            0 => "0",
            1 => "1",
            2 => "2",
            3 => "3",
            4 => "4",
            5 => "5",
            6 => "6",
            7 => "7",
            8 => "8",
            _ => "9",
        };
        text.append(d);
        i = i + 1;
    }
    text
}

pub struct DaySixteen {}

impl Problem for DaySixteen {
    fn part_one(&self, input: &str) -> String {
        match digits(input) {
            Some(ds) => {
                if ds.len() as u64 >= 0x1_0000_0000_0000u64 {
                    return "signal too long".to_string();
                }
                first_eight(&nth_phase(ds.as_slice(), 100))
            },
            None => "signal must be decimal digits".to_string(),
        }
    }

    fn part_two(&self, input: &str) -> String {
        let base = match digits(input) {
            Some(ds) => ds,
            None => {
                return "signal must be decimal digits".to_string();
            },
        };
        if base.len() < 7 || base.len() > usize::MAX / 10_000 {
            return "signal is too short or too long".to_string();
        }
        let mut skip: usize = 0;
        let mut i: usize = 0;
        while i < 7
            invariant
                i <= 7,
                7 <= base@.len(),
                skip < pow10(i as nat),
            decreases 7 - i,
        {
            let d = if base[i] > 9 {
                9
            } else {
                base[i]
            };
            skip = skip * 10 + d;
            i = i + 1;
        }
        let total = base.len() * 10_000;
        if skip >= total {
            return "message offset lies past the end of the signal".to_string();
        }
        let mut tail: Vec<usize> = Vec::new();
        let mut k: usize = skip;
        while k < total
            invariant
                skip <= k <= total,
                base@.len() > 0,
            decreases total - k,
        {
            tail.push(base[k % base.len()]);
            k = k + 1;
        }
        first_eight(&nth_phase_cheating(tail.as_slice(), 100))
    }
}

/// Ten to the power `n`, for the few powers that a message offset needs.
pub open spec fn pow10(n: nat) -> int {
    if n == 0 {
        1
    } else if n == 1 {
        10
    } else if n == 2 {
        100
    } else if n == 3 {
        1_000
    } else if n == 4 {
        10_000
    } else if n == 5 {
        100_000
    } else if n == 6 {
        1_000_000
    } else {
        10_000_000
    }
}

} // verus!
