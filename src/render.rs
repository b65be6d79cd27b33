//! Integers rendered as decimal text.

use vstd::prelude::*;

use itertools::Itertools;

verus! {

pub open spec fn digit_char(d: nat) -> char {
    if d == 0 {
        '0'
    } else if d == 1 {
        '1'
    } else if d == 2 {
        '2'
    } else if d == 3 {
        '3'
    } else if d == 4 {
        '4'
    } else if d == 5 {
        '5'
    } else if d == 6 {
        '6'
    } else if d == 7 {
        '7'
    } else if d == 8 {
        '8'
    } else {
        '9'
    }
}

/// The decimal digits of `n`, most significant first, without leading zeros.
pub open spec fn unsigned_decimal(n: nat) -> Seq<char>
    decreases n,
{
    if n < 10 {
        seq![digit_char(n)]
    } else {
        unsigned_decimal(n / 10).push(digit_char(n % 10))
    }
}

/// `n` in decimal, with a leading minus sign when it is negative.
pub open spec fn decimal(n: int) -> Seq<char> {
    if n < 0 {
        seq!['-'] + unsigned_decimal((-n) as nat)
    } else {
        unsigned_decimal(n as nat)
    }
}

/// The decimal forms of `vs`, with `sep` between each two.
pub open spec fn joined(vs: Seq<i64>, sep: Seq<char>) -> Seq<char>
    decreases vs.len(),
{
    if vs.len() == 0 {
        Seq::empty()
    } else if vs.len() == 1 {
        decimal(vs[0] as int)
    } else {
        joined(vs.drop_last(), sep) + sep + decimal(vs.last() as int)
    }
}

/// Relies on itertools' `join`, which writes each value with its `Display`
/// impl (decimal for integers) and puts `sep` between each two.
#[verifier::external_body]
pub(crate) fn join_values(vs: &Vec<i64>, sep: &str) -> (r: String)
    ensures
        r@ == joined(vs@, sep@),
{
    vs.iter().join(sep)
}

/// Relies on `char::encode_utf8`: the character's UTF-8 encoding, as text.
#[verifier::external_body]
fn encode_char(c: char, buf: &mut [u8; 4]) -> (r: &str)
    ensures
        r@ == seq![c],
{
    c.encode_utf8(buf)
}

/// The characters `cs` as text.
pub fn to_text(cs: &Vec<char>) -> (r: String)
    ensures
        r@ == cs@,
{
    let mut s = String::new();
    let mut i: usize = 0;
    while i < cs.len()
        invariant
            i <= cs@.len(),
            s@ == cs@.subrange(0, i as int),
        decreases cs.len() - i,
    {
        let mut buf = [0u8; 4];
        let c = cs[i];
        s.append(encode_char(c, &mut buf));
        i = i + 1;
        proof {
            assert(s@ =~= cs@.subrange(0, i as int));
        }
    }
    s
}

} // verus!
