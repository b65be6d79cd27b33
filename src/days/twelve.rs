//! The N-Body Problem: moons pulling on each other along three axes.

use vstd::prelude::*;

use crate::problem::Problem;

verus! {

/// The sign of `v`: -1, 0 or 1.
pub open spec fn sign(v: int) -> int {
    if v < 0 {
        -1
    } else if v > 0 {
        1
    } else {
        0
    }
}

pub fn normalize(v: i64) -> (r: i64)
    ensures
        r == sign(v as int),
{
    if v < 0 {
        -1
    } else if v > 0 {
        1
    } else {
        0
    }
}

/// A point or vector in three dimensions.
#[derive(Debug, Clone, Copy, PartialEq, Eq, Structural)]
pub struct Z3 {
    pub x: i64,
    pub y: i64,
    pub z: i64,
}

pub open spec fn fits(v: int) -> bool {
    i64::MIN <= v <= i64::MAX
}

/// Whether the sum of `a` and `b` fits on every axis.
pub open spec fn sum_fits(a: Z3, b: Z3) -> bool {
    fits(a.x + b.x) && fits(a.y + b.y) && fits(a.z + b.z)
}

pub open spec fn plus(a: Z3, b: Z3) -> Z3 {
    Z3 { x: (a.x + b.x) as i64, y: (a.y + b.y) as i64, z: (a.z + b.z) as i64 }
}

impl Z3 {
    pub fn add(&mut self, other: &Z3)
        requires
            sum_fits(*old(self), *other),
        ensures
            *final(self) == plus(*old(self), *other),
    {
        self.x = self.x + other.x;
        self.y = self.y + other.y;
        self.z = self.z + other.z;
    }

    fn checked_add(&self, other: &Z3) -> (r: Option<Z3>)
        ensures
            sum_fits(*self, *other) ==> r == Some(plus(*self, *other)),
            !sum_fits(*self, *other) ==> r is None,
    {
        let x = self.x as i128 + other.x as i128;
        let y = self.y as i128 + other.y as i128;
        let z = self.z as i128 + other.z as i128;
        if x < i64::MIN as i128 || x > i64::MAX as i128 || y < i64::MIN as i128 || y > i64::MAX
            as i128 || z < i64::MIN as i128 || z > i64::MAX as i128 {
            None
        } else {
            Some(Z3 { x: x as i64, y: y as i64, z: z as i64 })
        }
    }
}

#[derive(Debug, Clone, Copy, PartialEq, Eq, Structural)]
pub struct Body {
    pub position: Z3,
    pub velocity: Z3,
}

/// The pull on `a` towards `b`: one unit towards it on each axis where they differ.
pub open spec fn pull(a: Z3, b: Z3) -> Z3 {
    Z3 {
        x: sign(b.x - a.x) as i64,
        y: sign(b.y - a.y) as i64,
        z: sign(b.z - a.z) as i64,
    }
}

/// The body after its velocity changes by `delta_v` and it moves by its new velocity.
pub open spec fn moved(b: Body, delta_v: Z3) -> Option<Body> {
    if !sum_fits(b.velocity, delta_v) {
        None
    } else {
        let v = plus(b.velocity, delta_v);
        if !sum_fits(b.position, v) {
            None
        } else {
            Some(Body { position: plus(b.position, v), velocity: v })
        }
    }
}

pub open spec fn abs(v: int) -> int {
    if v < 0 {
        -v
    } else {
        v
    }
}

pub open spec fn magnitude(v: Z3) -> int {
    abs(v.x as int) + abs(v.y as int) + abs(v.z as int)
}

fn magnitude_of(v: &Z3) -> (r: u64)
    requires
        magnitude(*v) <= u64::MAX,
    ensures
        r == magnitude(*v),
{
    let ax = if v.x < 0 {
        (0i128 - v.x as i128) as u64
    } else {
        v.x as u64
    };
    let ay = if v.y < 0 {
        (0i128 - v.y as i128) as u64
    } else {
        v.y as u64
    };
    let az = if v.z < 0 {
        (0i128 - v.z as i128) as u64
    } else {
        v.z as u64
    };
    ax + ay + az
}

impl Body {
    pub fn from_triple(x: i64, y: i64, z: i64) -> (r: Body)
        ensures
            r == (Body { position: Z3 { x, y, z }, velocity: Z3 { x: 0, y: 0, z: 0 } }),
    {
        Body { position: Z3 { x, y, z }, velocity: Z3 { x: 0, y: 0, z: 0 } }
    }

    pub fn delta_v_from(&self, other: &Body) -> (r: Z3)
        ensures
            r == pull(self.position, other.position),
    {
        Z3 {
            x: if self.position.x < other.position.x {
                1
            } else if self.position.x > other.position.x {
                -1
            } else {
                0
            },
            y: if self.position.y < other.position.y {
                1
            } else if self.position.y > other.position.y {
                -1
            } else {
                0
            },
            z: if self.position.z < other.position.z {
                1
            } else if self.position.z > other.position.z {
                -1
            } else {
                0
            },
        }
    }

    pub fn step(&mut self, delta_v: Z3)
        requires
            moved(*old(self), delta_v) is Some,
        ensures
            Some(*final(self)) == moved(*old(self), delta_v),
    {
        self.velocity.add(&delta_v);
        let v = self.velocity;
        self.position.add(&v);
    }

    pub fn potential_energy(&self) -> (r: usize)
        requires
            magnitude(self.position) <= usize::MAX,
        ensures
            r == magnitude(self.position),
    {
        magnitude_of(&self.position) as usize
    }

    pub fn kinetic_energy(&self) -> (r: usize)
        requires
            magnitude(self.velocity) <= usize::MAX,
        ensures
            r == magnitude(self.velocity),
    {
        magnitude_of(&self.velocity) as usize
    }

    pub fn total_energy(&self) -> (r: usize)
        requires
            magnitude(self.position) * magnitude(self.velocity) <= usize::MAX,
            magnitude(self.position) <= usize::MAX,
            magnitude(self.velocity) <= usize::MAX,
        ensures
            r == magnitude(self.position) * magnitude(self.velocity),
    {
        self.potential_energy() * self.kinetic_energy()
    }
}

/// The total pull on body `i` from the first `k` bodies (itself included, which pulls nothing).
pub open spec fn gravity(bodies: Seq<Body>, i: int, k: int) -> (int, int, int)
    decreases k,
{
    if k <= 0 {
        (0, 0, 0)
    } else {
        let g = gravity(bodies, i, k - 1);
        let p = pull(bodies[i].position, bodies[k - 1].position);
        (g.0 + p.x, g.1 + p.y, g.2 + p.z)
    }
}

proof fn lemma_gravity_bound(bodies: Seq<Body>, i: int, k: int)
    requires
        0 <= k,
    ensures
        -k <= gravity(bodies, i, k).0 <= k,
        -k <= gravity(bodies, i, k).1 <= k,
        -k <= gravity(bodies, i, k).2 <= k,
    decreases k,
{
    if k > 0 {
        lemma_gravity_bound(bodies, i, k - 1);
    }
}

pub open spec fn as_z3(g: (int, int, int)) -> Z3 {
    Z3 { x: g.0 as i64, y: g.1 as i64, z: g.2 as i64 }
}

/// Every body after one time step, or none when a coordinate would not fit.
pub open spec fn stepped_bodies(bodies: Seq<Body>) -> Option<Seq<Body>> {
    if forall|i: int|
        0 <= i < bodies.len() ==> #[trigger] moved(
            bodies[i],
            as_z3(gravity(bodies, i, bodies.len() as int)),
        ) is Some {
        Some(
            Seq::new(
                bodies.len(),
                |i: int| moved(bodies[i], as_z3(gravity(bodies, i, bodies.len() as int)))->Some_0,
            ),
        )
    } else {
        None
    }
}

#[derive(Debug, PartialEq, Eq)]
pub struct OrbitalSystem {
    pub bodies: Vec<Body>,
    pub step_count: usize,
}

impl OrbitalSystem {
    pub fn from_bodies(bodies: Vec<Body>) -> (r: OrbitalSystem)
        ensures
            r.bodies@ == bodies@,
            r.step_count == 0,
    {
        OrbitalSystem { bodies, step_count: 0 }
    }

    /// Advances every body by one time step. Returns false, changing nothing,
    /// when a coordinate would not fit in a machine word or the step count
    /// is at its limit.
    pub fn step(&mut self) -> (ok: bool)
        requires
            old(self).bodies@.len() < 0x1_0000_0000,
        ensures
            ok == (stepped_bodies(old(self).bodies@) is Some && old(self).step_count < usize::MAX),
            ok ==> Some(final(self).bodies@) == stepped_bodies(old(self).bodies@)
                && final(self).step_count == old(self).step_count + 1,
            !ok ==> final(self).bodies@ == old(self).bodies@ && final(self).step_count
                == old(self).step_count,
    {
        let n = self.bodies.len();
        let ghost bs = self.bodies@;
        let mut next: Vec<Body> = Vec::new();
        let mut i: usize = 0;
        while i < n
            invariant
                i <= n == bs.len() == self.bodies@.len(),
                n < 0x1_0000_0000,
                bs == self.bodies@,
                next@.len() == i,
                forall|k: int|
                    0 <= k < i ==> #[trigger] moved(bs[k], as_z3(gravity(bs, k, n as int)))
                        == Some(next@[k]),
            decreases n - i,
        {
            let mut dv = Z3 { x: 0, y: 0, z: 0 };
            let mut j: usize = 0;
            while j < n
                invariant
                    i < n == bs.len() == self.bodies@.len(),
                    n < 0x1_0000_0000,
                    bs == self.bodies@,
                    j <= n,
                    dv == as_z3(gravity(bs, i as int, j as int)),
                decreases n - j,
            {
                proof {
                    lemma_gravity_bound(bs, i as int, j as int);
                }
                let p = self.bodies[i].delta_v_from(&self.bodies[j]);
                dv.add(&p);
                j = j + 1;
            }
            let b = self.bodies[i];
            let v = match b.velocity.checked_add(&dv) {
                Some(v) => v,
                None => {
                    proof {
                        assert(moved(bs[i as int], as_z3(gravity(bs, i as int, n as int))) is None);
                    }
                    return false;
                },
            };
            let p = match b.position.checked_add(&v) {
                Some(p) => p,
                None => {
                    proof {
                        assert(moved(bs[i as int], as_z3(gravity(bs, i as int, n as int))) is None);
                    }
                    return false;
                },
            };
            next.push(Body { position: p, velocity: v });
            i = i + 1;
        }
        if self.step_count == usize::MAX {
            return false;
        }
        proof {
            assert(next@ =~= stepped_bodies(bs)->Some_0);
        }
        self.bodies = next;
        self.step_count = self.step_count + 1;
        true
    }

    /// Takes up to `n` steps, stopping early when a step cannot be taken;
    /// returns how many were taken.
    pub fn n_steps(&mut self, n: usize) -> (taken: usize)
        requires
            old(self).bodies@.len() < 0x1_0000_0000,
        ensures
            taken <= n,
            final(self).step_count == old(self).step_count + taken,
    {
        let mut k: usize = 0;
        while k < n
            invariant
                k <= n,
                self.bodies@.len() == old(self).bodies@.len(),
                self.bodies@.len() < 0x1_0000_0000,
                self.step_count == old(self).step_count + k,
            decreases n - k,
        {
            if !self.step() {
                return k;
            }
            k = k + 1;
        }
        n
    }

    /// The sum of the bodies' energies; none when it does not fit.
    pub fn total_energy(&self) -> (r: Option<usize>)
        ensures
            r matches Some(e) ==> e == energy_sum(self.bodies@),
            energy_sum(self.bodies@) <= usize::MAX && (forall|i: int| 0 <= i < self.bodies@.len() ==> magnitude((#[trigger] self.bodies@[i]).position) <= u64::MAX && magnitude(self.bodies@[i].velocity) <= u64::MAX) ==> r == Some(energy_sum(self.bodies@) as usize),
    {
        let mut total: usize = 0;
        let mut i: usize = 0;
        while i < self.bodies.len()
            invariant
                i <= self.bodies@.len(),
                total == energy_sum(self.bodies@.subrange(0, i as int)),
            decreases self.bodies.len() - i,
        {
            proof {
                assert(self.bodies@.subrange(0, i + 1).drop_last() =~= self.bodies@.subrange(0, i as int));
                lemma_energy_prefix(self.bodies@, i + 1);
            }
            let b = self.bodies[i];
            let pm = magnitude_of_checked(&b.position);
            let km = magnitude_of_checked(&b.velocity);
            match (pm, km) {
                (Some(p), Some(k)) => {
                    proof {
                        assert(p as int * k as int <= 0xffff_ffff_ffff_ffff * 0xffff_ffff_ffff_ffff)
                            by (nonlinear_arith)
                            requires
                                p <= 0xffff_ffff_ffff_ffffu64,
                                k <= 0xffff_ffff_ffff_ffffu64,
                        ;
                    }
                    let e = p as u128 * k as u128;
                    if e > (usize::MAX - total) as u128 {
                        return None;
                    }
                    total = total + e as usize;
                },
                _ => {
                    return None;
                },
            }
            i = i + 1;
        }
        proof {
            assert(self.bodies@.subrange(0, self.bodies@.len() as int) =~= self.bodies@);
        }
        Some(total)
    }
}

/// The total energy of `bodies`: each body's potential times kinetic energy, summed.
pub open spec fn energy_sum(bodies: Seq<Body>) -> int
    decreases bodies.len(),
{
    if bodies.len() == 0 {
        0
    } else {
        energy_sum(bodies.drop_last()) + magnitude(bodies.last().position) * magnitude(
            bodies.last().velocity,
        )
    }
}

proof fn lemma_energy_prefix(bodies: Seq<Body>, k: int)
    requires
        0 <= k <= bodies.len(),
    ensures
        0 <= energy_sum(bodies.subrange(0, k)) <= energy_sum(bodies),
    decreases bodies.len() - k,
{
    if k < bodies.len() {
        lemma_energy_prefix(bodies, k + 1);
        assert(bodies.subrange(0, k + 1).drop_last() =~= bodies.subrange(0, k));
        assert(bodies.subrange(0, k + 1).last() == bodies[k]);
        lemma_energy_nonneg(bodies.subrange(0, k));
        let b = bodies[k];
        assert(magnitude(b.position) * magnitude(b.velocity) >= 0) by (nonlinear_arith)
            requires
                magnitude(b.position) >= 0,
                magnitude(b.velocity) >= 0,
        ;
    } else {
        assert(bodies.subrange(0, k) =~= bodies);
        lemma_energy_nonneg(bodies);
    }
}

proof fn lemma_energy_nonneg(bodies: Seq<Body>)
    ensures
        energy_sum(bodies) >= 0,
    decreases bodies.len(),
{
    if bodies.len() > 0 {
        lemma_energy_nonneg(bodies.drop_last());
        let b = bodies.last();
        assert(magnitude(b.position) * magnitude(b.velocity) >= 0) by (nonlinear_arith)
            requires
                magnitude(b.position) >= 0,
                magnitude(b.velocity) >= 0,
        ;
    }
}

fn magnitude_of_checked(v: &Z3) -> (r: Option<u64>)
    ensures
        r matches Some(m) ==> m == magnitude(*v),
        magnitude(*v) <= u64::MAX ==> r is Some,
{
    let ax = if v.x < 0 {
        (0i128 - v.x as i128) as u128
    } else {
        v.x as u128
    };
    let ay = if v.y < 0 {
        (0i128 - v.y as i128) as u128
    } else {
        v.y as u128
    };
    let az = if v.z < 0 {
        (0i128 - v.z as i128) as u128
    } else {
        v.z as u128
    };
    let sum = ax + ay + az;
    if sum > u64::MAX as u128 {
        None
    } else {
        Some(sum as u64)
    }
}

pub struct DayTwelve {}

impl Problem for DayTwelve {
    fn name(&self) -> String {
        "The N-Body Problem".to_string()
    }

    fn part_one(&self, input: &str) -> String {
        let mut system = OrbitalSystem::from_bodies(
            vec![
                Body::from_triple(9, 13, -8),
                Body::from_triple(-3, 16, -17),
                Body::from_triple(-4, 11, -10),
                Body::from_triple(0, -2, -2),
            ],
        );
        system.n_steps(1000);
        match system.total_energy() {
            Some(e) => e.to_string(),
            None => "energy overflow".to_string(),
        }
    }

    fn part_two(&self, input: &str) -> String {
        "Part two not yet implemented.".to_string()
    }
}

} // verus!
