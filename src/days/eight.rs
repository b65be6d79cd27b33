//! Space Image Format: an image sent as layers of digits.

use vstd::prelude::*;

use crate::parse::{chars_of, trim_str};
use crate::problem::Problem;

verus! {

pub const IMAGE_WIDTH: usize = 25;

pub const IMAGE_HEIGHT: usize = 6;

pub const IMAGE_PIXELS: usize = 150;

/// `s` cut into pieces of `size` characters, counting from the end, so that
/// only the first piece may be shorter.
pub open spec fn chunks_spec(s: Seq<char>, size: nat) -> Seq<Seq<char>>
    decreases s.len(),
{
    if size == 0 || size >= s.len() {
        seq![s]
    } else {
        chunks_spec(s.subrange(0, s.len() - size), size).push(
            s.subrange(s.len() - size, s.len() as int),
        )
    }
}

pub fn str_chunks<'a>(s: &'a str, size: usize) -> (r: Vec<&'a str>)
    requires
        size > 0,
    ensures
        r@.len() == chunks_spec(s@, size as nat).len(),
        forall|i: int| 0 <= i < r@.len() ==> (#[trigger] r@[i])@ == chunks_spec(s@, size as nat)[i],
    decreases s@.len(),
{
    let n = s.unicode_len();
    if size >= n {
        vec![s]
    } else {
        let front = s.substring_char(0, n - size);
        let back = s.substring_char(n - size, n);
        let mut chunks = str_chunks(front, size);
        chunks.push(back);
        chunks
    }
}

/// How often `c` occurs in `s`.
pub open spec fn count_in(s: Seq<char>, c: char) -> nat
    decreases s.len(),
{
    if s.len() == 0 {
        0
    } else {
        count_in(s.drop_last(), c) + if s.last() == c {
            1nat
        } else {
            0nat
        }
    }
}

proof fn lemma_count_bound(s: Seq<char>, c: char)
    ensures
        count_in(s, c) <= s.len(),
    decreases s.len(),
{
    if s.len() > 0 {
        lemma_count_bound(s.drop_last(), c);
    }
}

/// Each character of `s` with how often it occurs, in order of first occurrence.
pub fn count_chars(s: &str) -> (r: Vec<(char, usize)>)
    ensures
        forall|k: int| 0 <= k < r@.len() ==> (#[trigger] r@[k]).1 == count_in(s@, r@[k].0),
        forall|j: int, k: int| 0 <= j < k < r@.len() ==> (#[trigger] r@[j]).0 != (#[trigger] r@[k]).0,
        forall|i: int| 0 <= i < s@.len() ==> exists|k: int| 0 <= k < r@.len() && (#[trigger] r@[k]).0 == #[trigger] s@[i],
{
    let cs = chars_of(s);
    let mut counts: Vec<(char, usize)> = Vec::new();
    let mut i: usize = 0;
    while i < cs.len()
        invariant
            i <= cs@.len(),
            cs@ == s@,
            forall|k: int| 0 <= k < counts@.len() ==> (#[trigger] counts@[k]).1 == count_in(cs@.subrange(0, i as int), counts@[k].0),
            forall|j: int, k: int| 0 <= j < k < counts@.len() ==> (#[trigger] counts@[j]).0 != (#[trigger] counts@[k]).0,
            forall|j: int| 0 <= j < i ==> exists|k: int| 0 <= k < counts@.len() && (#[trigger] counts@[k]).0 == #[trigger] cs@[j],
        decreases cs.len() - i,
    {
        let c = cs[i];
        let ghost pre = cs@.subrange(0, i as int);
        let ghost next = cs@.subrange(0, i + 1);
        proof {
            assert(next.drop_last() =~= pre);
            lemma_count_bound(pre, c);
        }
        let mut k: usize = 0;
        while k < counts.len() && counts[k].0 != c
            invariant
                k <= counts@.len(),
                forall|j: int| 0 <= j < k ==> (#[trigger] counts@[j]).0 != c,
            decreases counts.len() - k,
        {
            k = k + 1;
        }
        let ghost before = counts@;
        if k < counts.len() {
            let old_count = counts[k].1;
            counts.set(k, (c, old_count + 1));
            proof {
                assert forall|j: int| 0 <= j < counts@.len() implies (#[trigger] counts@[j]).1 == count_in(next, counts@[j].0) by {
                    assert(counts@[j].0 == before[j].0);
                }
                assert forall|j: int| 0 <= j < i + 1 implies exists|m: int| 0 <= m < counts@.len() && (#[trigger] counts@[m]).0 == #[trigger] cs@[j] by {
                    if j < i {
                        let m = choose|m: int| 0 <= m < before.len() && (#[trigger] before[m]).0 == cs@[j];
                        assert(counts@[m].0 == cs@[j]);
                    } else {
                        assert(counts@[k as int].0 == cs@[j]);
                    }
                }
            }
        } else {
            counts.push((c, 1));
            proof {
                assert forall|j: int| 0 <= j < counts@.len() implies (#[trigger] counts@[j]).1 == count_in(next, counts@[j].0) by {
                    if j < before.len() {
                        assert(counts@[j] == before[j]);
                    } else {
                        lemma_count_absent(pre, c);
                    }
                }
                assert forall|j: int| 0 <= j < i + 1 implies exists|m: int| 0 <= m < counts@.len() && (#[trigger] counts@[m]).0 == #[trigger] cs@[j] by {
                    if j < i {
                        let m = choose|m: int| 0 <= m < before.len() && (#[trigger] before[m]).0 == cs@[j];
                        assert(counts@[m].0 == cs@[j]);
                    } else {
                        assert(counts@[before.len() as int].0 == cs@[j]);
                    }
                }
            }
        }
        i = i + 1;
    }
    proof {
        assert(cs@.subrange(0, cs@.len() as int) =~= cs@);
    }
    counts
}

proof fn lemma_count_absent(s: Seq<char>, c: char)
    requires
        forall|j: int| 0 <= j < s.len() ==> s[j] != c,
    ensures
        count_in(s, c) == 0,
    decreases s.len(),
{
    if s.len() > 0 {
        lemma_count_absent(s.drop_last(), c);
    }
}

/// The count that `counts` holds for `c`, zero when it holds none.
pub fn count_of(counts: &Vec<(char, usize)>, c: char) -> (r: usize)
    ensures
        (exists|k: int| 0 <= k < counts@.len() && (#[trigger] counts@[k]).0 == c) ==> exists|k: int|
            0 <= k < counts@.len() && (#[trigger] counts@[k]).0 == c && counts@[k].1 == r,
        (forall|k: int| 0 <= k < counts@.len() ==> (#[trigger] counts@[k]).0 != c) ==> r == 0,
{
    let mut k: usize = 0;
    while k < counts.len()
        invariant
            k <= counts@.len(),
            forall|j: int| 0 <= j < k ==> (#[trigger] counts@[j]).0 != c,
        decreases counts.len() - k,
    {
        if counts[k].0 == c {
            return counts[k].1;
        }
        k = k + 1;
    }
    0
}

pub struct DayEight {}

impl Problem for DayEight {
    fn name(&self) -> String {
        "Space Image Format".to_string()
    }

    fn part_one(&self, input: &str) -> String {
        let chunks = str_chunks(trim_str(input), IMAGE_PIXELS);
        let mut least_zeroes = usize::MAX;
        let mut ones_and_twos: u128 = 0;
        let mut i: usize = 0;
        while i < chunks.len()
            decreases chunks.len() - i,
        {
            let counts = count_chars(chunks[i]);
            let zeroes = count_of(&counts, '0');
            if zeroes < least_zeroes {
                least_zeroes = zeroes;
                let ones = count_of(&counts, '1') as u64;
                let twos = count_of(&counts, '2') as u64;
                proof {
                    assert(ones as int * twos as int <= 0xffff_ffff_ffff_ffff * 0xffff_ffff_ffff_ffff)
                        by (nonlinear_arith)
                        requires
                            ones <= 0xffff_ffff_ffff_ffffu64,
                            twos <= 0xffff_ffff_ffff_ffffu64,
                    ;
                }
                ones_and_twos = ones as u128 * twos as u128;
            }
            i = i + 1;
        }
        ones_and_twos.to_string()
    }

    fn part_two(&self, input: &str) -> String {
        let layers = str_chunks(trim_str(input), IMAGE_PIXELS);
        let mut pixels: Vec<Vec<char>> = Vec::new();
        let mut l: usize = 0;
        while l < layers.len()
            decreases layers.len() - l,
        {
            pixels.push(chars_of(layers[l]));
            l = l + 1;
        }
        let mut message = "\n".to_string();
        let mut row: usize = 0;
        while row < IMAGE_HEIGHT
            decreases IMAGE_HEIGHT - row,
        {
            let mut col: usize = 0;
            while col < IMAGE_WIDTH
                invariant
                    row < IMAGE_HEIGHT,
                decreases IMAGE_WIDTH - col,
            {
                let index = row * IMAGE_WIDTH + col;
                let mut k: usize = 0;
                while k < pixels.len()
                    decreases pixels.len() - k,
                {
                    if index < pixels[k].len() {
                        let c = pixels[k][index];
                        if c == '0' {
                            message.append(" ");
                            break;
                        } else if c == '1' {
                            message.append("#");
                            break;
                        }
                    }
                    k = k + 1;
                }
                col = col + 1;
            }
            message.append("\n");
            row = row + 1;
        }
        message
    }
}

} // verus!
