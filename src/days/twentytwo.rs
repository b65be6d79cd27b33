//! Slam Shuffle: a deck of numbered cards under three shuffling techniques.

use vstd::prelude::*;

use crate::parse::{chars_of, parse_value, split_by, token_bounds, token_value, Separator};
use crate::problem::Problem;

verus! {

/// The size of the factory deck.
pub const DECK_SIZE: usize = 10007;

/// Cards 0 through `DECK_SIZE - 1`, in order.
pub fn new_deck() -> (r: Vec<usize>)
    ensures
        r@ == Seq::new(DECK_SIZE as nat, |i: int| i as usize),
{
    let mut deck: Vec<usize> = Vec::new();
    let mut i: usize = 0;
    while i < DECK_SIZE
        invariant
            i <= DECK_SIZE,
            deck@ == Seq::new(i as nat, |k: int| k as usize),
        decreases DECK_SIZE - i,
    {
        deck.push(i);
        i = i + 1;
        proof {
            assert(deck@ =~= Seq::new(i as nat, |k: int| k as usize));
        }
    }
    deck
}

/// The deck turned over: its order reversed.
pub fn deal_into_new_stack(deck: Vec<usize>) -> (r: Vec<usize>)
    ensures
        r@ == deck@.reverse(),
{
    let mut stack: Vec<usize> = Vec::new();
    let mut i: usize = deck.len();
    while i > 0
        invariant
            i <= deck@.len(),
            stack@ == deck@.subrange(i as int, deck@.len() as int).reverse(),
        decreases i,
    {
        i = i - 1;
        stack.push(deck[i]);
        proof {
            assert(stack@ =~= deck@.subrange(i as int, deck@.len() as int).reverse());
        }
    }
    proof {
        assert(deck@.subrange(0, deck@.len() as int) =~= deck@);
    }
    stack
}

/// Where a cut of `n` cards splits a deck of `len` cards: the top `n` cards
/// for positive `n`, the bottom `-n` cards otherwise.
pub open spec fn cut_point(len: int, n: int) -> int {
    if n > 0 {
        n
    } else {
        len + n
    }
}

/// The deck after a cut of `n` cards: the cut part moves to the other end.
pub open spec fn cut_spec(deck: Seq<usize>, n: int) -> Seq<usize> {
    let at = cut_point(deck.len() as int, n);
    deck.subrange(at, deck.len() as int) + deck.subrange(0, at)
}

pub fn cut(deck: Vec<usize>, n: i64) -> (r: Vec<usize>)
    requires
        -(deck@.len() as int) <= n <= deck@.len(),
    ensures
        r@ == cut_spec(deck@, n as int),
{
    let mut deck = deck;
    let len = deck.len();
    let split: usize = if n > 0 {
        n as usize
    } else {
        len - (0i128 - n as i128) as usize
    };
    let ghost whole = deck@;
    let mut bottom = deck.split_off(split);
    bottom.append(&mut deck);
    proof {
        assert(bottom@ =~= cut_spec(whole, n as int));
    }
    bottom
}

/// The table after the first `k` cards of `deck` are dealt onto a table of
/// `deck.len()` zeros, card `i` onto position `i * n` modulo the length.
pub open spec fn dealt(deck: Seq<usize>, n: nat, k: nat) -> Seq<usize>
    decreases k,
{
    if k == 0 {
        Seq::new(deck.len(), |i: int| 0usize)
    } else {
        dealt(deck, n, (k - 1) as nat).update(((k - 1) * n) as int % (deck.len() as int), deck[k - 1])
    }
}

pub fn deal_with_increment(deck: Vec<usize>, n: usize) -> (r: Vec<usize>)
    ensures
        r@ == dealt(deck@, n as nat, deck@.len()),
{
    let len = deck.len();
    let mut table: Vec<usize> = vec![0; len];
    let mut i: usize = 0;
    proof {
        assert(table@ =~= dealt(deck@, n as nat, 0));
    }
    while i < len
        invariant
            i <= len == deck@.len(),
            table@ == dealt(deck@, n as nat, i as nat),
            table@.len() == len,
        decreases len - i,
    {
        proof {
            assert(0 <= (i as int * n as int) <= 0xffff_ffff_ffff_ffff_ffff_ffff_ffff_ffff) by (nonlinear_arith)
                requires
                    0 <= i <= 0xffff_ffff_ffff_ffff,
                    0 <= n <= 0xffff_ffff_ffff_ffff,
            ;
        }
        let position = ((i as u128 * n as u128) % len as u128) as usize;
        table.set(position, deck[i]);
        i = i + 1;
    }
    table
}

/// A shuffling technique.
#[derive(Debug, Clone, Copy, PartialEq, Eq, Structural)]
pub enum Technique {
    DealNewStack,
    Cut(i64),
    DealWithIncrement(usize),
}

/// The technique that a line of the shuffle names: `cut N`, `deal with
/// increment N`, and anything else deals into a new stack; none when the
/// number is missing or malformed.
pub open spec fn technique_spec(s: Seq<char>) -> Option<Technique> {
    if s.len() >= 3 && s.subrange(0, 3) == seq!['c', 'u', 't'] {
        if s.len() < 4 {
            None
        } else {
            match token_value(s.subrange(4, s.len() as int)) {
                Some(v) => Some(Technique::Cut(v)),
                None => None,
            }
        }
    } else if s.len() >= 9 && s.subrange(0, 9) == seq!['d', 'e', 'a', 'l', ' ', 'w', 'i', 't', 'h'] {
        if s.len() < 20 {
            None
        } else {
            match token_value(s.subrange(20, s.len() as int)) {
                Some(v) => if 0 <= v <= usize::MAX {
                    Some(Technique::DealWithIncrement(v as usize))
                } else {
                    None
                },
                None => None,
            }
        }
    } else {
        Some(Technique::DealNewStack)
    }
}

/// Whether a technique can be applied to a deck of `len` cards.
pub open spec fn applicable(t: Technique, len: nat) -> bool {
    match t {
        Technique::Cut(n) => -(len as int) <= n <= len,
        _ => true,
    }
}

/// The deck after technique `t`.
pub open spec fn apply_spec(t: Technique, deck: Seq<usize>) -> Seq<usize> {
    match t {
        Technique::DealNewStack => deck.reverse(),
        Technique::Cut(n) => cut_spec(deck, n as int),
        Technique::DealWithIncrement(n) => dealt(deck, n as nat, deck.len()),
    }
}

impl Technique {
    pub fn from_str(s: &str) -> (r: Option<Technique>)
        ensures
            r == technique_spec(s@),
    {
        let cs = chars_of(s);
        let n = cs.len();
        if n >= 3 && cs[0] == 'c' && cs[1] == 'u' && cs[2] == 't' {
            proof {
                assert(cs@.subrange(0, 3) =~= seq!['c', 'u', 't']);
            }
            if n < 4 {
                return None;
            }
            return match parse_value(&cs, 4, n) {
                Some(v) => Some(Technique::Cut(v)),
                None => None,
            };
        }
        proof {
            if n >= 3 {
                assert(cs@.subrange(0, 3)[0] == cs@[0]);
                assert(cs@.subrange(0, 3)[1] == cs@[1]);
                assert(cs@.subrange(0, 3)[2] == cs@[2]);
            }
        }
        let word = n >= 9 && cs[0] == 'd' && cs[1] == 'e' && cs[2] == 'a' && cs[3] == 'l' && cs[4]
            == ' ' && cs[5] == 'w' && cs[6] == 'i' && cs[7] == 't' && cs[8] == 'h';
        proof {
            if n >= 9 {
                let p = cs@.subrange(0, 9);
                let w = seq!['d', 'e', 'a', 'l', ' ', 'w', 'i', 't', 'h'];
                if word {
                    assert(p =~= w);
                } else {
                    assert(p != w) by {
                        if p == w {
                            assert(p[0] == w[0] && p[1] == w[1] && p[2] == w[2] && p[3] == w[3]
                                && p[4] == w[4] && p[5] == w[5] && p[6] == w[6] && p[7] == w[7]
                                && p[8] == w[8]);
                        }
                    }
                }
            }
        }
        if word {
            if n < 20 {
                return None;
            }
            return match parse_value(&cs, 20, n) {
                Some(v) => if v >= 0 && v as u64 <= usize::MAX as u64 {
                    Some(Technique::DealWithIncrement(v as usize))
                } else {
                    None
                },
                None => None,
            };
        }
        Some(Technique::DealNewStack)
    }

    pub fn apply(&self, deck: Vec<usize>) -> (r: Vec<usize>)
        requires
            applicable(*self, deck@.len()),
        ensures
            r@ == apply_spec(*self, deck@),
    {
        match self {
            Technique::DealNewStack => deal_into_new_stack(deck),
            Technique::Cut(n) => cut(deck, *n),
            Technique::DealWithIncrement(n) => deal_with_increment(deck, *n),
        }
    }
}

/// The deck after each technique in turn, or none when one cannot apply.
pub open spec fn shuffle_spec(ts: Seq<Technique>, deck: Seq<usize>) -> Option<Seq<usize>>
    decreases ts.len(),
{
    if ts.len() == 0 {
        Some(deck)
    } else {
        match shuffle_spec(ts.drop_last(), deck) {
            None => None,
            Some(d) => if applicable(ts.last(), d.len()) {
                Some(apply_spec(ts.last(), d))
            } else {
                None
            },
        }
    }
}

proof fn lemma_shuffle_none_persists(ts: Seq<Technique>, deck: Seq<usize>, i: int, n: int)
    requires
        0 <= i <= n <= ts.len(),
        shuffle_spec(ts.subrange(0, i), deck) is None,
    ensures
        shuffle_spec(ts.subrange(0, n), deck) is None,
    decreases n,
{
    if n > i {
        lemma_shuffle_none_persists(ts, deck, i, n - 1);
        assert(ts.subrange(0, n).drop_last() =~= ts.subrange(0, n - 1));
    }
}

/// Applies the techniques in turn; none when a cut is larger than the deck.
pub fn shuffle(techniques: &Vec<Technique>, deck: Vec<usize>) -> (r: Option<Vec<usize>>)
    ensures
        match shuffle_spec(techniques@, deck@) {
            Some(d) => r matches Some(v) && v@ == d,
            None => r is None,
        },
{
    let ghost start = deck@;
    let mut current = deck;
    let mut i: usize = 0;
    proof {
        assert(techniques@.subrange(0, 0) =~= Seq::<Technique>::empty());
    }
    while i < techniques.len()
        invariant
            i <= techniques@.len(),
            shuffle_spec(techniques@.subrange(0, i as int), start) == Some(current@),
            start == deck@,
        decreases techniques.len() - i,
    {
        let t = techniques[i];
        proof {
            assert(techniques@.subrange(0, i + 1).drop_last() =~= techniques@.subrange(0, i as int));
        }
        let fits = match t {
            Technique::Cut(n) => {
                let len = current.len();
                (n >= 0 && n as u64 <= len as u64) || (n < 0 && (0i128 - n as i128) as u64
                    <= len as u64)
            },
            _ => true,
        };
        if !fits {
            proof {
                assert(!applicable(t, current@.len()));
                assert(shuffle_spec(techniques@.subrange(0, i + 1), start) is None);
                lemma_shuffle_none_persists(techniques@, start, i + 1, techniques@.len() as int);
                assert(techniques@.subrange(0, techniques@.len() as int) =~= techniques@);
            }
            return None;
        }
        current = t.apply(current);
        i = i + 1;
    }
    proof {
        assert(techniques@.subrange(0, techniques@.len() as int) =~= techniques@);
    }
    Some(current)
}

/// The techniques of the non-empty lines of `s`, or none at the first
/// malformed line.
pub open spec fn techniques_spec(lines: Seq<Seq<char>>) -> Option<Seq<Technique>>
    decreases lines.len(),
{
    if lines.len() == 0 {
        Some(Seq::empty())
    } else {
        match techniques_spec(lines.drop_last()) {
            None => None,
            Some(ts) => if lines.last().len() == 0 {
                Some(ts)
            } else {
                match technique_spec(lines.last()) {
                    None => None,
                    Some(t) => Some(ts.push(t)),
                }
            },
        }
    }
}

proof fn lemma_techniques_none_persists(lines: Seq<Seq<char>>, i: int, n: int)
    requires
        0 <= i <= n <= lines.len(),
        techniques_spec(lines.subrange(0, i)) is None,
    ensures
        techniques_spec(lines.subrange(0, n)) is None,
    decreases n,
{
    if n > i {
        lemma_techniques_none_persists(lines, i, n - 1);
        assert(lines.subrange(0, n).drop_last() =~= lines.subrange(0, n - 1));
    }
}

/// Reads one technique from each non-empty line.
pub fn techniques_from_str(s: &str) -> (r: Option<Vec<Technique>>)
    ensures
        match techniques_spec(split_by(s@, Separator::Newline)) {
            Some(ts) => r matches Some(v) && v@ == ts,
            None => r is None,
        },
{
    let cs = chars_of(s);
    let bounds = token_bounds(&cs, Separator::Newline);
    let ghost lines = split_by(s@, Separator::Newline);
    let mut ts: Vec<Technique> = Vec::new();
    let mut j: usize = 0;
    proof {
        assert(lines.subrange(0, 0) =~= Seq::<Seq<char>>::empty());
    }
    while j < bounds.len()
        invariant
            cs@ == s@,
            lines == split_by(s@, Separator::Newline),
            lines.len() == bounds@.len(),
            j <= bounds@.len(),
            forall|k: int|
                0 <= k < bounds@.len() ==> (#[trigger] bounds@[k]).0 <= bounds@[k].1 <= cs@.len()
                    && lines[k] == s@.subrange(bounds@[k].0 as int, bounds@[k].1 as int),
            techniques_spec(lines.subrange(0, j as int)) == Some(ts@),
        decreases bounds.len() - j,
    {
        let (lo, hi) = bounds[j];
        proof {
            assert(lines.subrange(0, j + 1).drop_last() =~= lines.subrange(0, j as int));
            assert(lines.subrange(0, j + 1).last() == lines[j as int]);
        }
        if lo < hi {
            match Technique::from_str(s.substring_char(lo, hi)) {
                Some(t) => ts.push(t),
                None => {
                    proof {
                        lemma_techniques_none_persists(lines, j + 1, lines.len() as int);
                        assert(lines.subrange(0, lines.len() as int) =~= lines);
                    }
                    return None;
                },
            }
        }
        j = j + 1;
    }
    proof {
        assert(lines.subrange(0, lines.len() as int) =~= lines);
    }
    Some(ts)
}

/// The first position of `card` in `deck`.
pub fn position_of(deck: &Vec<usize>, card: usize) -> (r: Option<usize>)
    ensures
        match r {
            Some(i) => i < deck@.len() && deck@[i as int] == card && forall|j: int|
                0 <= j < i ==> deck@[j] != card,
            None => forall|j: int| 0 <= j < deck@.len() ==> deck@[j] != card,
        },
{
    let mut i: usize = 0;
    while i < deck.len()
        invariant
            i <= deck@.len(),
            forall|j: int| 0 <= j < i ==> deck@[j] != card,
        decreases deck.len() - i,
    {
        if deck[i] == card {
            return Some(i);
        }
        i = i + 1;
    }
    None
}

pub struct DayTwentyTwo {}

impl Problem for DayTwentyTwo {
    fn part_one(&self, input: &str) -> String {
        let techniques = match techniques_from_str(input) {
            Some(ts) => ts,
            None => {
                return "malformed shuffle".to_string();
            },
        };
        match shuffle(&techniques, new_deck()) {
            Some(deck) => match position_of(&deck, 2019) {
                Some(p) => p.to_string(),
                None => "card 2019 is not in the deck".to_string(),
            },
            None => "a cut is larger than the deck".to_string(),
        }
    }

    fn part_two(&self, input: &str) -> String {
        "Part two not yet implemented.".to_string()
    }
}

} // verus!
