//! Universal Orbit Map: objects each orbiting one parent, all around COM.

use vstd::prelude::*;

use crate::parse::{chars_of, token_bounds, trim_end, trim_start, Separator};
use crate::problem::Problem;
use crate::render::to_text;

verus! {

#[derive(Debug)]
pub enum OrbitError {
    /// The object was given a second parent.
    TwoParents(String),
    /// A line holds no `)`.
    Malformed(String),
    /// The object has no parent and is not the root.
    NoParent(String),
    /// Following parents from the object never reaches the root.
    Cycle(String),
}

/// An orbit: the orbiting object and the object it orbits.
pub struct Orbit {
    pub orbiter: Vec<char>,
    pub parent: Vec<char>,
}

/// The root object, which orbits nothing.
pub open spec fn root() -> Seq<char> {
    seq!['C', 'O', 'M']
}

fn is_root(name: &Vec<char>) -> (r: bool)
    ensures
        r == (name@ == root()),
{
    let r = name.len() == 3 && name[0] == 'C' && name[1] == 'O' && name[2] == 'M';
    proof {
        if r {
            assert(name@ =~= root());
        } else if name@.len() == 3 {
            assert(name@ != root()) by {
                if name@ == root() {
                    assert(name@[0] == 'C' && name@[1] == 'O' && name@[2] == 'M');
                }
            }
        }
    }
    r
}

fn same_name(a: &Vec<char>, b: &Vec<char>) -> (r: bool)
    ensures
        r == (a@ == b@),
{
    if a.len() != b.len() {
        return false;
    }
    let mut i: usize = 0;
    while i < a.len()
        invariant
            i <= a@.len() == b@.len(),
            forall|k: int| 0 <= k < i ==> a@[k] == b@[k],
        decreases a.len() - i,
    {
        if a[i] != b[i] {
            return false;
        }
        i = i + 1;
    }
    proof {
        assert(a@ =~= b@);
    }
    true
}

/// Splits one line of the map at its first `)`: the parent before it and
/// the orbiter after it, both trimmed.
pub fn orbit_line(line: &Vec<char>) -> (r: Option<(Vec<char>, Vec<char>)>)
    ensures
        r matches Some((p, o)) ==> exists|k: int|
            0 <= k < line@.len() && line@[k] == ')' && p@ == trim_end(trim_start(line@.subrange(0, k)))
                && (forall|j: int| 0 <= j < k ==> line@[j] != ')'),
{
    let mut k: usize = 0;
    while k < line.len() && line[k] != ')'
        invariant
            k <= line@.len(),
            forall|j: int| 0 <= j < k ==> line@[j] != ')',
        decreases line.len() - k,
    {
        k = k + 1;
    }
    if k == line.len() {
        return None;
    }
    let parent = trimmed(line, 0, k);
    let orbiter = trimmed(line, k + 1, line.len());
    Some((parent, orbiter))
}

/// `cs[lo..hi]` without leading and trailing whitespace.
fn trimmed(cs: &Vec<char>, lo: usize, hi: usize) -> (r: Vec<char>)
    requires
        lo <= hi <= cs@.len(),
    ensures
        r@ == trim_end(trim_start(cs@.subrange(lo as int, hi as int))),
{
    let ghost t = cs@.subrange(lo as int, hi as int);
    let mut a: usize = lo;
    while a < hi && crate::parse::is_space_char(cs[a])
        invariant
            lo <= a <= hi <= cs@.len(),
            t == cs@.subrange(lo as int, hi as int),
            trim_start(t) == trim_start(cs@.subrange(a as int, hi as int)),
        decreases hi - a,
    {
        proof {
            assert(cs@.subrange(a as int, hi as int).drop_first() =~= cs@.subrange(a + 1, hi as int));
        }
        a = a + 1;
    }
    proof {
        if a < hi {
            assert(cs@.subrange(a as int, hi as int)[0] == cs@[a as int]);
        }
    }
    let mut b: usize = hi;
    while b > a && crate::parse::is_space_char(cs[b - 1])
        invariant
            lo <= a <= b <= hi <= cs@.len(),
            t == cs@.subrange(lo as int, hi as int),
            trim_start(t) == cs@.subrange(a as int, hi as int),
            trim_end(trim_start(t)) == trim_end(cs@.subrange(a as int, b as int)),
        decreases b - a,
    {
        proof {
            assert(cs@.subrange(a as int, b as int).drop_last() =~= cs@.subrange(a as int, b - 1));
        }
        b = b - 1;
    }
    proof {
        if b > a {
            assert(cs@.subrange(a as int, b as int).last() == cs@[b - 1]);
        }
    }
    let mut out: Vec<char> = Vec::new();
    let mut i: usize = a;
    while i < b
        invariant
            a <= i <= b <= cs@.len(),
            out@ == cs@.subrange(a as int, i as int),
        decreases b - i,
    {
        out.push(cs[i]);
        i = i + 1;
        proof {
            assert(out@ =~= cs@.subrange(a as int, i as int));
        }
    }
    out
}

/// No object appears as an orbiter twice.
pub open spec fn single_parents(g: Seq<Orbit>) -> bool {
    forall|i: int, j: int| 0 <= i < j < g.len() ==> (#[trigger] g[i]).orbiter@ != (#[trigger] g[j]).orbiter@
}

/// Reads the map: one `PARENT)ORBITER` pair per whitespace-separated word.
pub fn orbit_graph(input: &str) -> (r: Result<Vec<Orbit>, OrbitError>)
    ensures
        r matches Ok(g) ==> single_parents(g@),
{
    let cs = chars_of(input);
    let bounds = token_bounds(&cs, Separator::Whitespace);
    let mut graph: Vec<Orbit> = Vec::new();
    let mut j: usize = 0;
    while j < bounds.len()
        invariant
            single_parents(graph@),
            forall|k: int|
                0 <= k < bounds@.len() ==> (#[trigger] bounds@[k]).0 <= bounds@[k].1 <= cs@.len(),
        decreases bounds.len() - j,
    {
        let (lo, hi) = bounds[j];
        if lo < hi {
            let line = copy_range(&cs, lo, hi);
            match orbit_line(&line) {
                None => {
                    return Err(OrbitError::Malformed(to_text(&line)));
                },
                Some((parent, orbiter)) => {
                    match find_orbit(&graph, &orbiter) {
                        Some(_) => {
                            return Err(OrbitError::TwoParents(to_text(&orbiter)));
                        },
                        None => {
                            graph.push(Orbit { orbiter, parent });
                        },
                    }
                },
            }
        }
        j = j + 1;
    }
    Ok(graph)
}

fn copy_range(cs: &Vec<char>, lo: usize, hi: usize) -> (r: Vec<char>)
    requires
        lo <= hi <= cs@.len(),
    ensures
        r@ == cs@.subrange(lo as int, hi as int),
{
    let mut out: Vec<char> = Vec::new();
    let mut i: usize = lo;
    while i < hi
        invariant
            lo <= i <= hi <= cs@.len(),
            out@ == cs@.subrange(lo as int, i as int),
        decreases hi - i,
    {
        out.push(cs[i]);
        i = i + 1;
        proof {
            assert(out@ =~= cs@.subrange(lo as int, i as int));
        }
    }
    out
}

/// Where `name` appears as an orbiter.
fn find_orbit(graph: &Vec<Orbit>, name: &Vec<char>) -> (r: Option<usize>)
    ensures
        match r {
            Some(i) => i < graph@.len() && graph@[i as int].orbiter@ == name@,
            None => forall|i: int| 0 <= i < graph@.len() ==> (#[trigger] graph@[i]).orbiter@ != name@,
        },
{
    let mut i: usize = 0;
    while i < graph.len()
        invariant
            i <= graph@.len(),
            forall|k: int| 0 <= k < i ==> (#[trigger] graph@[k]).orbiter@ != name@,
        decreases graph.len() - i,
    {
        if same_name(&graph[i].orbiter, name) {
            return Some(i);
        }
        i = i + 1;
    }
    None
}

/// The ancestors of `orbiter`: its parent, that one's parent, and so on up
/// to and including the root, nearest first.
pub fn orbital_parents(graph: &Vec<Orbit>, orbiter: &Vec<char>) -> (r: Result<Vec<Vec<char>>, OrbitError>)
    ensures
        r matches Ok(chain) ==> chain@.len() <= graph@.len() && (chain@.len() > 0 ==> chain@.last()@
            == root()),
        r matches Ok(chain) && chain@.len() == 0 ==> orbiter@ == root(),
{
    let mut chain: Vec<Vec<char>> = Vec::new();
    let mut current: Vec<char> = copy_range(orbiter, 0, orbiter.len());
    let mut steps: usize = 0;
    loop
        invariant
            steps == chain@.len(),
            steps <= graph@.len(),
            chain@.len() > 0 ==> chain@.last()@ == current@,
            chain@.len() == 0 ==> current@ == orbiter@,
        decreases graph@.len() - steps,
    {
        if is_root(&current) {
            return Ok(chain);
        }
        if steps == graph.len() {
            return Err(OrbitError::Cycle(to_text(orbiter)));
        }
        match find_orbit(graph, &current) {
            None => {
                return Err(OrbitError::NoParent(to_text(&current)));
            },
            Some(i) => {
                let parent = copy_range(&graph[i].parent, 0, graph[i].parent.len());
                current = copy_range(&parent, 0, parent.len());
                chain.push(parent);
                steps = steps + 1;
            },
        }
    }
}

/// How many objects `orbiter` orbits, directly or indirectly.
pub fn count_orbits(graph: &Vec<Orbit>, orbiter: &Vec<char>) -> (r: Result<usize, OrbitError>)
    ensures
        r matches Ok(n) ==> n <= graph@.len(),
{
    let chain = orbital_parents(graph, orbiter)?;
    Ok(chain.len())
}

/// The number of direct and indirect orbits in the map.
pub fn count_total_orbits(graph: &Vec<Orbit>) -> (r: Result<u64, OrbitError>)
    requires
        graph@.len() < 0x1_0000_0000,
{
    let mut total: u64 = 0;
    let mut i: usize = 0;
    while i < graph.len()
        invariant
            i <= graph@.len() < 0x1_0000_0000,
            total <= i * graph@.len(),
        decreases graph.len() - i,
    {
        let n = count_orbits(graph, &graph[i].orbiter)?;
        proof {
            assert(total + n <= (i + 1) * graph@.len()) by (nonlinear_arith)
                requires
                    total <= i * graph@.len(),
                    n <= graph@.len(),
            ;
            assert((i + 1) * graph@.len() < 0x1_0000_0000 * 0x1_0000_0000) by (nonlinear_arith)
                requires
                    i < graph@.len() < 0x1_0000_0000,
            ;
        }
        total = total + n as u64;
        i = i + 1;
    }
    Ok(total)
}

/// How many names appear in both lists.
fn shared_count(a: &Vec<Vec<char>>, b: &Vec<Vec<char>>) -> (r: usize)
    ensures
        r <= a@.len(),
{
    let mut count: usize = 0;
    let mut i: usize = 0;
    while i < a.len()
        invariant
            count <= i <= a@.len(),
        decreases a.len() - i,
    {
        let mut j: usize = 0;
        let mut found = false;
        while j < b.len() && !found
            invariant
                i < a@.len(),
            decreases b.len() - j,
        {
            if same_name(&a[i], &b[j]) {
                found = true;
            }
            j = j + 1;
        }
        if found {
            count = count + 1;
        }
        i = i + 1;
    }
    count
}

/// The number of orbital transfers between what `from` orbits and what `to` orbits.
pub fn transfers(graph: &Vec<Orbit>, from: &Vec<char>, to: &Vec<char>) -> Result<usize, OrbitError> {
    let mine = match find_orbit(graph, from) {
        Some(i) => orbital_parents(graph, &graph[i].parent)?,
        None => {
            return Err(OrbitError::NoParent(to_text(from)));
        },
    };
    let theirs = match find_orbit(graph, to) {
        Some(i) => orbital_parents(graph, &graph[i].parent)?,
        None => {
            return Err(OrbitError::NoParent(to_text(to)));
        },
    };
    let shared = shared_count(&mine, &theirs);
    let a = mine.len() as u128;
    let b = theirs.len() as u128;
    let s = shared as u128;
    if s == 0 || a + b < 2 * (s - 1) {
        return Err(OrbitError::Cycle(to_text(from)));
    }
    let d = a + b - 2 * (s - 1);
    if d > usize::MAX as u128 {
        return Err(OrbitError::Cycle(to_text(from)));
    }
    Ok(d as usize)
}

pub struct DaySix {}

impl Problem for DaySix {
    fn part_one(&self, input: &str) -> String {
        match orbit_graph(input) {
            Ok(graph) => {
                if graph.len() as u64 >= 0x1_0000_0000u64 {
                    return "the map is too large".to_string();
                }
                match count_total_orbits(&graph) {
                    Ok(n) => n.to_string(),
                    Err(_) => "the map does not lead every object to COM".to_string(),
                }
            },
            Err(_) => "the map is malformed".to_string(),
        }
    }

    fn part_two(&self, input: &str) -> String {
        match orbit_graph(input) {
            Ok(graph) => match transfers(&graph, &vec!['Y', 'O', 'U'], &vec!['S', 'A', 'N']) {
                Ok(n) => n.to_string(),
                Err(_) => "YOU and SAN are not both on the map".to_string(),
            },
            Err(_) => "the map is malformed".to_string(),
        }
    }
}

} // verus!
