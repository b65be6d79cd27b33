//! Program text: comma-separated signed decimal integers, each optionally
//! padded with whitespace.

use vstd::prelude::*;

verus! {

/// Whether `c` has the Unicode White_Space property.
pub open spec fn is_space(c: char) -> bool {
    let u = c as u32;
    u == 0x20 || (0x09 <= u <= 0x0d) || u == 0x85 || u == 0xa0 || u == 0x1680 || (0x2000 <= u
        <= 0x200a) || u == 0x2028 || u == 0x2029 || u == 0x202f || u == 0x205f || u == 0x3000
}

pub fn is_space_char(c: char) -> (r: bool)
    ensures
        r == is_space(c),
{
    let u = c as u32;
    u == 0x20 || (0x09 <= u && u <= 0x0d) || u == 0x85 || u == 0xa0 || u == 0x1680 || (0x2000 <= u
        && u <= 0x200a) || u == 0x2028 || u == 0x2029 || u == 0x202f || u == 0x205f || u == 0x3000
}

/// `t` without its leading whitespace.
pub open spec fn trim_start(t: Seq<char>) -> Seq<char>
    decreases t.len(),
{
    if t.len() > 0 && is_space(t[0]) {
        trim_start(t.drop_first())
    } else {
        t
    }
}

/// `t` without its trailing whitespace.
pub open spec fn trim_end(t: Seq<char>) -> Seq<char>
    decreases t.len(),
{
    if t.len() > 0 && is_space(t.last()) {
        trim_end(t.drop_last())
    } else {
        t
    }
}

pub open spec fn is_digit(c: char) -> bool {
    '0' <= c <= '9'
}

pub open spec fn all_digits(d: Seq<char>) -> bool {
    forall|i: int| 0 <= i < d.len() ==> is_digit(#[trigger] d[i])
}

/// The number that the decimal digits `d` spell.
pub open spec fn digits_value(d: Seq<char>) -> int
    decreases d.len(),
{
    if d.len() == 0 {
        0
    } else {
        digits_value(d.drop_last()) * 10 + (d.last() as int - '0' as int)
    }
}

/// The integer that `t` spells: an optional sign and at least one decimal digit.
pub open spec fn integer_of(t: Seq<char>) -> Option<int> {
    if t.len() > 0 && (t[0] == '-' || t[0] == '+') {
        let d = t.drop_first();
        if d.len() > 0 && all_digits(d) {
            Some(
                if t[0] == '-' {
                    -digits_value(d)
                } else {
                    digits_value(d)
                },
            )
        } else {
            None
        }
    } else if t.len() > 0 && all_digits(t) {
        Some(digits_value(t))
    } else {
        None
    }
}

/// The machine word that a token spells once its whitespace is trimmed, if any.
pub open spec fn token_value(t: Seq<char>) -> Option<i64> {
    match integer_of(trim_end(trim_start(t))) {
        Some(v) => if i64::MIN <= v <= i64::MAX {
            Some(v as i64)
        } else {
            None
        },
        None => None,
    }
}

/// What separates the tokens of a text.
#[derive(Debug, Clone, Copy, PartialEq, Eq, Structural)]
pub enum Separator {
    Comma,
    Whitespace,
    Newline,
}

/// Whether `c` separates tokens under `sep`.
pub open spec fn is_sep(c: char, sep: Separator) -> bool {
    match sep {
        Separator::Comma => c == ',',
        Separator::Whitespace => is_space(c),
        Separator::Newline => c == '\n',
    }
}

/// `s` cut at every separator; the separators themselves belong to no token.
pub open spec fn split_by(s: Seq<char>, sep: Separator) -> Seq<Seq<char>>
    decreases s.len(),
{
    if s.len() == 0 {
        seq![Seq::empty()]
    } else {
        let init = split_by(s.drop_last(), sep);
        if is_sep(s.last(), sep) {
            init.push(Seq::empty())
        } else {
            init.update(init.len() - 1, init.last().push(s.last()))
        }
    }
}

/// The values of `toks` in order, or the first token that spells no machine word.
pub open spec fn parse_tokens(toks: Seq<Seq<char>>) -> Result<Seq<i64>, Seq<char>>
    decreases toks.len(),
{
    if toks.len() == 0 {
        Ok(Seq::empty())
    } else {
        match parse_tokens(toks.drop_last()) {
            Err(t) => Err(t),
            Ok(vs) => match token_value(toks.last()) {
                Some(v) => Ok(vs.push(v)),
                None => Err(toks.last()),
            },
        }
    }
}

/// The values of the non-empty tokens of `toks` in order, or the first
/// non-empty token that spells no machine word.
pub open spec fn parse_nonempty(toks: Seq<Seq<char>>) -> Result<Seq<i64>, Seq<char>>
    decreases toks.len(),
{
    if toks.len() == 0 {
        Ok(Seq::empty())
    } else {
        match parse_nonempty(toks.drop_last()) {
            Err(t) => Err(t),
            Ok(vs) => if toks.last().len() == 0 {
                Ok(vs)
            } else {
                match token_value(toks.last()) {
                    Some(v) => Ok(vs.push(v)),
                    None => Err(toks.last()),
                }
            },
        }
    }
}

/// The integers of a whitespace-separated list of words, or the first word
/// that is not an integer.
pub open spec fn parse_words_spec(s: Seq<char>) -> Result<Seq<i64>, Seq<char>> {
    parse_nonempty(split_by(s, Separator::Whitespace))
}

/// The memory image that program text `s` describes, or the first token
/// that is not an integer.
pub open spec fn parse_program(s: Seq<char>) -> Result<Seq<i64>, Seq<char>> {
    parse_tokens(split_by(s, Separator::Comma))
}

proof fn lemma_digits_monotone(d: Seq<char>, k: int)
    requires
        0 <= k <= d.len(),
        all_digits(d),
    ensures
        digits_value(d.subrange(0, k)) <= digits_value(d),
        0 <= digits_value(d.subrange(0, k)),
    decreases d.len() - k,
{
    if k < d.len() {
        lemma_digits_monotone(d, k + 1);
        assert(d.subrange(0, k + 1).drop_last() =~= d.subrange(0, k));
        assert(is_digit(d[k]));
    } else {
        assert(d.subrange(0, k) =~= d);
        lemma_digits_nonneg(d);
    }
}

proof fn lemma_digits_nonneg(d: Seq<char>)
    requires
        all_digits(d),
    ensures
        0 <= digits_value(d),
    decreases d.len(),
{
    if d.len() > 0 {
        assert(is_digit(d.last()));
        lemma_digits_nonneg(d.drop_last());
    }
}

/// The characters of `s`, in order.
pub fn chars_of(s: &str) -> (r: Vec<char>)
    ensures
        r@ == s@,
{
    let mut out: Vec<char> = Vec::new();
    for c in it: s.chars()
        invariant
            it.seq() == s@,
            out@ == it.seq().subrange(0, it.index() as int),
    {
        out.push(c);
        proof {
            assert(out@ =~= it.seq().subrange(0, it.index() + 1));
        }
    }
    out
}

/// The magnitude that the digits `cs[lo..hi]` spell, or none when it exceeds 2^63.
fn magnitude(cs: &Vec<char>, lo: usize, hi: usize) -> (r: Option<u64>)
    requires
        lo <= hi <= cs@.len(),
        all_digits(cs@.subrange(lo as int, hi as int)),
    ensures
        match r {
            Some(v) => v == digits_value(cs@.subrange(lo as int, hi as int)),
            None => digits_value(cs@.subrange(lo as int, hi as int)) > 0x8000_0000_0000_0000,
        },
{
    let ghost d = cs@.subrange(lo as int, hi as int);
    let mut acc: u64 = 0;
    let mut i: usize = lo;
    while i < hi
        invariant
            lo <= i <= hi <= cs@.len(),
            d == cs@.subrange(lo as int, hi as int),
            all_digits(d),
            acc == digits_value(d.subrange(0, i - lo)),
            acc <= 0x8000_0000_0000_0000,
        decreases hi - i,
    {
        let c = cs[i];
        proof {
            assert(d[i - lo] == c);
            assert(is_digit(d[i - lo]));
            assert(d.subrange(0, i - lo + 1).drop_last() =~= d.subrange(0, i - lo));
        }
        let digit = (c as u32 - '0' as u32) as u64;
        let next: u128 = acc as u128 * 10 + digit as u128;
        if next > 0x8000_0000_0000_0000 {
            proof {
                lemma_digits_monotone(d, i - lo + 1);
            }
            return None;
        }
        acc = next as u64;
        i = i + 1;
    }
    proof {
        assert(d.subrange(0, hi - lo) =~= d);
    }
    Some(acc)
}

fn all_digits_in(cs: &Vec<char>, lo: usize, hi: usize) -> (r: bool)
    requires
        lo <= hi <= cs@.len(),
    ensures
        r == all_digits(cs@.subrange(lo as int, hi as int)),
{
    let mut i: usize = lo;
    while i < hi
        invariant
            lo <= i <= hi <= cs@.len(),
            forall|j: int| lo <= j < i ==> is_digit(#[trigger] cs@[j]),
        decreases hi - i,
    {
        if !('0' <= cs[i] && cs[i] <= '9') {
            proof {
                assert(!is_digit(cs@.subrange(lo as int, hi as int)[i - lo]));
            }
            return false;
        }
        i = i + 1;
    }
    proof {
        assert forall|j: int| 0 <= j < hi - lo implies is_digit(
            #[trigger] cs@.subrange(lo as int, hi as int)[j],
        ) by {
            assert(cs@.subrange(lo as int, hi as int)[j] == cs@[lo + j]);
        }
    }
    true
}

/// `s` without leading and trailing whitespace.
pub fn trim_str(s: &str) -> (r: &str)
    ensures
        r@ == trim_end(trim_start(s@)),
{
    let cs = chars_of(s);
    let n = cs.len();
    let mut a: usize = 0;
    proof {
        assert(cs@.subrange(0, n as int) =~= cs@);
    }
    while a < n && is_space_char(cs[a])
        invariant
            a <= n == cs@.len(),
            cs@ == s@,
            trim_start(s@) == trim_start(cs@.subrange(a as int, n as int)),
        decreases n - a,
    {
        proof {
            assert(cs@.subrange(a as int, n as int).drop_first() =~= cs@.subrange(a + 1, n as int));
        }
        a = a + 1;
    }
    proof {
        assert(cs@.subrange(0, n as int) =~= cs@);
        if a < n {
            assert(cs@.subrange(a as int, n as int)[0] == cs@[a as int]);
        }
    }
    let mut b: usize = n;
    while b > a && is_space_char(cs[b - 1])
        invariant
            a <= b <= n == cs@.len(),
            cs@ == s@,
            trim_start(s@) == cs@.subrange(a as int, n as int),
            trim_end(trim_start(s@)) == trim_end(cs@.subrange(a as int, b as int)),
        decreases b - a,
    {
        proof {
            assert(cs@.subrange(a as int, b as int).drop_last() =~= cs@.subrange(a as int, b - 1));
        }
        b = b - 1;
    }
    proof {
        if b > a {
            assert(cs@.subrange(a as int, b as int).last() == cs@[b - 1]);
        }
    }
    s.substring_char(a, b)
}

/// The machine word that the token `cs[lo..hi]` spells, as `token_value` says.
pub fn parse_value(cs: &Vec<char>, lo: usize, hi: usize) -> (r: Option<i64>)
    requires
        lo <= hi <= cs@.len(),
    ensures
        r == token_value(cs@.subrange(lo as int, hi as int)),
{
    let ghost t = cs@.subrange(lo as int, hi as int);
    let mut a: usize = lo;
    while a < hi && is_space_char(cs[a])
        invariant
            lo <= a <= hi <= cs@.len(),
            t == cs@.subrange(lo as int, hi as int),
            trim_start(t) == trim_start(cs@.subrange(a as int, hi as int)),
        decreases hi - a,
    {
        proof {
            assert(cs@.subrange(a as int, hi as int).drop_first() =~= cs@.subrange(
                a + 1,
                hi as int,
            ));
        }
        a = a + 1;
    }
    proof {
        if a < hi {
            assert(cs@.subrange(a as int, hi as int)[0] == cs@[a as int]);
        }
    }
    let mut b: usize = hi;
    while b > a && is_space_char(cs[b - 1])
        invariant
            lo <= a <= b <= hi <= cs@.len(),
            t == cs@.subrange(lo as int, hi as int),
            trim_start(t) == cs@.subrange(a as int, hi as int),
            trim_end(trim_start(t)) == trim_end(cs@.subrange(a as int, b as int)),
        decreases b - a,
    {
        proof {
            assert(cs@.subrange(a as int, b as int).drop_last() =~= cs@.subrange(
                a as int,
                b - 1,
            ));
        }
        b = b - 1;
    }
    let ghost u = cs@.subrange(a as int, b as int);
    proof {
        if b > a {
            assert(u.last() == cs@[b - 1]);
        }
        assert(trim_end(trim_start(t)) == u);
    }
    if a == b {
        return None;
    }
    let negative = cs[a] == '-';
    let signed = negative || cs[a] == '+';
    let start = if signed {
        a + 1
    } else {
        a
    };
    proof {
        assert(u[0] == cs@[a as int]);
        if signed {
            assert(u.drop_first() =~= cs@.subrange(start as int, b as int));
        } else {
            assert(u =~= cs@.subrange(start as int, b as int));
        }
    }
    if start == b || !all_digits_in(cs, start, b) {
        proof {
            if !signed && start < b {
                assert(!is_digit(u[0]) || !all_digits(u));
            }
        }
        return None;
    }
    match magnitude(cs, start, b) {
        None => None,
        Some(m) => {
            if negative {
                if m > 0x8000_0000_0000_0000 {
                    None
                } else {
                    Some((0i128 - m as i128) as i64)
                }
            } else if m > 0x7fff_ffff_ffff_ffff {
                None
            } else {
                Some(m as i64)
            }
        },
    }
}

proof fn lemma_parse_error_persists(toks: Seq<Seq<char>>, i: int, n: int)
    requires
        0 <= i <= n <= toks.len(),
        parse_tokens(toks.subrange(0, i)) is Err,
    ensures
        parse_tokens(toks.subrange(0, n)) == parse_tokens(toks.subrange(0, i)),
    decreases n,
{
    if n > i {
        lemma_parse_error_persists(toks, i, n - 1);
        assert(toks.subrange(0, n).drop_last() =~= toks.subrange(0, n - 1));
    }
}

/// The bounds of the tokens of `cs`, as `split_by` cuts them.
pub(crate) fn token_bounds(cs: &Vec<char>, sep: Separator) -> (r: Vec<(usize, usize)>)
    ensures
        r@.len() == split_by(cs@, sep).len(),
        forall|j: int|
            0 <= j < r@.len() ==> (#[trigger] r@[j]).0 <= r@[j].1 <= cs@.len() && split_by(cs@, sep)[j] == cs@.subrange(r@[j].0 as int, r@[j].1 as int),
{
    let ghost s = cs@;
    let mut bounds: Vec<(usize, usize)> = Vec::new();
    let mut start: usize = 0;
    let mut i: usize = 0;
    proof {
        assert(s.subrange(0, 0) =~= Seq::<char>::empty());
    }
    while i < cs.len()
        invariant
            s == cs@,
            start <= i <= cs@.len(),
            split_by(s.subrange(0, i as int), sep).len() == bounds@.len() + 1,
            forall|j: int|
                0 <= j < bounds@.len() ==> (#[trigger] bounds@[j]).0 <= bounds@[j].1 <= cs@.len()
                    && split_by(s.subrange(0, i as int), sep)[j] == s.subrange(
                    bounds@[j].0 as int,
                    bounds@[j].1 as int,
                ),
            split_by(s.subrange(0, i as int), sep).last() == s.subrange(start as int, i as int),
        decreases cs.len() - i,
    {
        proof {
            assert(s.subrange(0, i + 1).drop_last() =~= s.subrange(0, i as int));
            assert(s.subrange(0, i + 1).last() == s[i as int]);
        }
        let cut = match sep {
            Separator::Comma => cs[i] == ',',
            Separator::Whitespace => is_space_char(cs[i]),
            Separator::Newline => cs[i] == '\n',
        };
        if cut {
            bounds.push((start, i));
            start = i + 1;
            proof {
                assert(s.subrange(start as int, i + 1) =~= Seq::<char>::empty());
            }
        } else {
            proof {
                assert(s.subrange(start as int, i + 1) =~= s.subrange(start as int, i as int).push(
                    s[i as int],
                ));
            }
        }
        i = i + 1;
    }
    bounds.push((start, cs.len()));
    proof {
        assert(s.subrange(0, s.len() as int) =~= s);
    }
    bounds
}

proof fn lemma_nonempty_error_persists(toks: Seq<Seq<char>>, i: int, n: int)
    requires
        0 <= i <= n <= toks.len(),
        parse_nonempty(toks.subrange(0, i)) is Err,
    ensures
        parse_nonempty(toks.subrange(0, n)) == parse_nonempty(toks.subrange(0, i)),
    decreases n,
{
    if n > i {
        lemma_nonempty_error_persists(toks, i, n - 1);
        assert(toks.subrange(0, n).drop_last() =~= toks.subrange(0, n - 1));
    }
}

/// Parses a whitespace-separated list of integers; on failure returns the
/// first word that is not an integer.
pub fn parse_words(input: &str) -> (r: Result<Vec<i64>, String>)
    ensures
        match parse_words_spec(input@) {
            Ok(vals) => r matches Ok(v) && v@ == vals,
            Err(tok) => r matches Err(t) && t@ == tok,
        },
{
    let cs = chars_of(input);
    let ghost s = cs@;
    let bounds = token_bounds(&cs, Separator::Whitespace);
    let ghost toks = split_by(s, Separator::Whitespace);
    let mut values: Vec<i64> = Vec::new();
    let mut j: usize = 0;
    proof {
        assert(toks.subrange(0, 0) =~= Seq::<Seq<char>>::empty());
    }
    while j < bounds.len()
        invariant
            s == cs@,
            s == input@,
            toks == split_by(s, Separator::Whitespace),
            toks.len() == bounds@.len(),
            j <= bounds@.len(),
            forall|k: int|
                0 <= k < bounds@.len() ==> (#[trigger] bounds@[k]).0 <= bounds@[k].1 <= cs@.len()
                    && toks[k] == s.subrange(bounds@[k].0 as int, bounds@[k].1 as int),
            parse_nonempty(toks.subrange(0, j as int)) == Ok::<Seq<i64>, Seq<char>>(values@),
        decreases bounds.len() - j,
    {
        let (lo, hi) = bounds[j];
        proof {
            assert(toks.subrange(0, j + 1).drop_last() =~= toks.subrange(0, j as int));
            assert(toks.subrange(0, j + 1).last() == toks[j as int]);
        }
        if lo < hi {
            match parse_value(&cs, lo, hi) {
                Some(v) => {
                    values.push(v);
                },
                None => {
                    proof {
                        lemma_nonempty_error_persists(toks, j + 1, toks.len() as int);
                        assert(toks.subrange(0, toks.len() as int) =~= toks);
                    }
                    let text = input.substring_char(lo, hi);
                    return Err(text.to_owned());
                },
            }
        }
        j = j + 1;
    }
    proof {
        assert(toks.subrange(0, toks.len() as int) =~= toks);
    }
    Ok(values)
}

/// Parses program text into a memory image; on failure returns the first
/// token, untrimmed, that is not an integer.
pub fn parse_program_text(input: &str) -> (r: Result<Vec<i64>, String>)
    ensures
        match parse_program(input@) {
            Ok(vals) => r matches Ok(v) && v@ == vals,
            Err(tok) => r matches Err(t) && t@ == tok,
        },
{
    let cs = chars_of(input);
    let ghost s = cs@;
    let bounds = token_bounds(&cs, Separator::Comma);
    let ghost toks = split_by(s, Separator::Comma);
    // Values, second pass.
    let mut values: Vec<i64> = Vec::new();
    let mut j: usize = 0;
    proof {
        assert(toks.subrange(0, 0) =~= Seq::<Seq<char>>::empty());
    }
    while j < bounds.len()
        invariant
            s == cs@,
            s == input@,
            toks == split_by(s, Separator::Comma),
            toks.len() == bounds@.len(),
            j <= bounds@.len(),
            forall|k: int|
                0 <= k < bounds@.len() ==> (#[trigger] bounds@[k]).0 <= bounds@[k].1 <= cs@.len()
                    && toks[k] == s.subrange(bounds@[k].0 as int, bounds@[k].1 as int),
            parse_tokens(toks.subrange(0, j as int)) == Ok::<Seq<i64>, Seq<char>>(values@),
        decreases bounds.len() - j,
    {
        let (lo, hi) = bounds[j];
        proof {
            assert(toks.subrange(0, j + 1).drop_last() =~= toks.subrange(0, j as int));
            assert(toks.subrange(0, j + 1).last() == toks[j as int]);
        }
        match parse_value(&cs, lo, hi) {
            Some(v) => {
                values.push(v);
            },
            None => {
                proof {
                    lemma_parse_error_persists(toks, j + 1, toks.len() as int);
                    assert(toks.subrange(0, toks.len() as int) =~= toks);
                }
                let text = input.substring_char(lo, hi);
                return Err(text.to_owned());
            },
        }
        j = j + 1;
    }
    proof {
        assert(toks.subrange(0, toks.len() as int) =~= toks);
    }
    Ok(values)
}

} // verus!
