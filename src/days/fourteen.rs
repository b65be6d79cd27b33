//! Space Stoichiometry: reactions that turn input chemicals into one output.

use vstd::prelude::*;

use crate::parse::{chars_of, token_bounds, trim_str, Separator};
use crate::problem::Problem;
use crate::render::to_text;

verus! {

#[derive(Debug)]
pub enum ReactionError {
    /// The line names no reactant.
    NoReactants(String),
    /// An amount does not fit in a machine word.
    AmountTooLarge(String),
}

#[derive(Debug, Clone)]
pub struct Reactant {
    pub chemical: String,
    pub amount: usize,
}

#[derive(Debug)]
pub struct Reaction {
    pub inputs: Vec<Reactant>,
    pub output: Reactant,
}

pub open spec fn is_digit(c: char) -> bool {
    '0' <= c <= '9'
}

pub open spec fn is_upper(c: char) -> bool {
    'A' <= c <= 'Z'
}

/// Finds every amount-and-chemical pair in `cs`, left to right: a run of
/// decimal digits, one space, and a run of capital letters. Each pair is the
/// bounds of its digits and of its letters.
pub fn reactant_spans(cs: &Vec<char>) -> (r: Vec<(usize, usize, usize, usize)>)
    ensures
        forall|k: int|
            0 <= k < r@.len() ==> {
                let (a, b, c, d) = #[trigger] r@[k];
                &&& a < b && b + 1 == c && c < d && d <= cs@.len()
                &&& forall|i: int| a <= i < b ==> is_digit(cs@[i])
                &&& cs@[b as int] == ' '
                &&& forall|i: int| c <= i < d ==> is_upper(cs@[i])
            },
{
    let n = cs.len();
    let mut spans: Vec<(usize, usize, usize, usize)> = Vec::new();
    let mut i: usize = 0;
    while i < n
        invariant
            i <= n == cs@.len(),
            forall|k: int|
                0 <= k < spans@.len() ==> {
                    let (a, b, c, d) = #[trigger] spans@[k];
                    &&& a < b && b + 1 == c && c < d && d <= cs@.len()
                    &&& forall|i: int| a <= i < b ==> is_digit(cs@[i])
                    &&& cs@[b as int] == ' '
                    &&& forall|i: int| c <= i < d ==> is_upper(cs@[i])
                },
        decreases n - i,
    {
        let mut j = i;
        while j < n && '0' <= cs[j] && cs[j] <= '9'
            invariant
                i <= j <= n == cs@.len(),
                forall|k: int| i <= k < j ==> is_digit(cs@[k]),
            decreases n - j,
        {
            j = j + 1;
        }
        if j > i && j < n - 1 && cs[j] == ' ' && 'A' <= cs[j + 1] && cs[j + 1] <= 'Z' {
            let mut k = j + 1;
            while k < n && 'A' <= cs[k] && cs[k] <= 'Z'
                invariant
                    j + 1 <= k <= n == cs@.len(),
                    forall|m: int| j + 1 <= m < k ==> is_upper(cs@[m]),
                decreases n - k,
            {
                k = k + 1;
            }
            spans.push((i, j, j + 1, k));
            i = k;
        } else {
            i = i + 1;
        }
    }
    spans
}

/// The number that the digits `cs[a..b]` spell; none when it does not fit.
fn amount_of(cs: &Vec<char>, a: usize, b: usize) -> (r: Option<usize>)
    requires
        a <= b <= cs@.len(),
        forall|i: int| a <= i < b ==> is_digit(cs@[i]),
{
    let mut value: usize = 0;
    let mut i: usize = a;
    while i < b
        invariant
            a <= i <= b <= cs@.len(),
            forall|k: int| a <= k < b ==> is_digit(cs@[k]),
        decreases b - i,
    {
        let d = (cs[i] as u32 - '0' as u32) as usize;
        if value > (usize::MAX - d) / 10 {
            return None;
        }
        value = value * 10 + d;
        i = i + 1;
    }
    Some(value)
}

fn copy_range(cs: &Vec<char>, lo: usize, hi: usize) -> (r: Vec<char>)
    requires
        lo <= hi <= cs@.len(),
    ensures
        r@ == cs@.subrange(lo as int, hi as int),
{
    let mut out: Vec<char> = Vec::new();
    let mut i: usize = lo;
    while i < hi
        invariant
            lo <= i <= hi <= cs@.len(),
            out@ == cs@.subrange(lo as int, i as int),
        decreases hi - i,
    {
        out.push(cs[i]);
        i = i + 1;
        proof {
            assert(out@ =~= cs@.subrange(lo as int, i as int));
        }
    }
    out
}

/// Reads one reaction: every amount-and-chemical pair on the line, the last
/// being the output and the others the inputs.
pub fn read_line(line: &str) -> (r: Result<Reaction, ReactionError>) {
    let cs = chars_of(line);
    let spans = reactant_spans(&cs);
    if spans.len() == 0 {
        return Err(ReactionError::NoReactants(line.to_owned()));
    }
    let mut reactants: Vec<Reactant> = Vec::new();
    let mut k: usize = 0;
    while k < spans.len()
        invariant
            forall|m: int|
                0 <= m < spans@.len() ==> {
                    let (a, b, c, d) = #[trigger] spans@[m];
                    &&& a < b && b + 1 == c && c < d && d <= cs@.len()
                    &&& forall|i: int| a <= i < b ==> is_digit(cs@[i])
                },
            reactants@.len() == k,
            k <= spans@.len(),
        decreases spans.len() - k,
    {
        let (a, b, c, d) = spans[k];
        let amount = match amount_of(&cs, a, b) {
            Some(v) => v,
            None => {
                return Err(ReactionError::AmountTooLarge(to_text(&copy_range(&cs, a, b))));
            },
        };
        reactants.push(Reactant { chemical: to_text(&copy_range(&cs, c, d)), amount });
        k = k + 1;
    }
    let output = reactants.pop();
    match output {
        Some(output) => Ok(Reaction { inputs: reactants, output }),
        None => Err(ReactionError::NoReactants(line.to_owned())),
    }
}

/// Each reaction's output chemical with the reaction's position.
pub fn reaction_map(reactions: &Vec<Reaction>) -> (r: Vec<(String, usize)>)
    ensures
        r@.len() == reactions@.len(),
        forall|i: int| 0 <= i < r@.len() ==> (#[trigger] r@[i]).1 == i && r@[i].0@ == reactions@[i].output.chemical@,
{
    let mut map: Vec<(String, usize)> = Vec::new();
    let mut i: usize = 0;
    while i < reactions.len()
        invariant
            i <= reactions@.len(),
            map@.len() == i,
            forall|k: int| 0 <= k < i ==> (#[trigger] map@[k]).1 == k && map@[k].0@ == reactions@[k].output.chemical@,
        decreases reactions.len() - i,
    {
        map.push((reactions[i].output.chemical.clone(), i));
        i = i + 1;
    }
    map
}

/// Reads one reaction per line of `input`, skipping blank lines.
pub fn read_reactions(input: &str) -> Result<Vec<Reaction>, ReactionError> {
    let cs = chars_of(input);
    let bounds = token_bounds(&cs, Separator::Newline);
    let mut reactions: Vec<Reaction> = Vec::new();
    let mut j: usize = 0;
    while j < bounds.len()
        invariant
            forall|k: int|
                0 <= k < bounds@.len() ==> (#[trigger] bounds@[k]).0 <= bounds@[k].1 <= cs@.len(),
            cs@ == input@,
        decreases bounds.len() - j,
    {
        let (lo, hi) = bounds[j];
        let line = trim_str(input.substring_char(lo, hi));
        if line.unicode_len() > 0 {
            reactions.push(read_line(line)?);
        }
        j = j + 1;
    }
    Ok(reactions)
}

pub struct DayFourteen {}

impl Problem for DayFourteen {
    fn part_one(&self, input: &str) -> String {
        match read_reactions(input) {
            Ok(reactions) => {
                let _ = reaction_map(&reactions);
                "Part one not yet implemented.".to_string()
            },
            Err(_) => "a reaction is malformed".to_string(),
        }
    }

    fn part_two(&self, input: &str) -> String {
        "Part two not yet implemented.".to_string()
    }
}

} // verus!
