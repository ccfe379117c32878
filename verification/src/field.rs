//! The simulation field: the dynamic particle population of one run and
//! the per-frame pipeline — integrate every particle, walk every
//! unordered pair once for collision resolution and gravitational
//! accumulation against a frozen snapshot, then commit the removals of
//! merge-consumed particles in a single step.

use vstd::prelude::*;
use vstd::pervasive::VecAdditionalExecFns;
use crate::consts::{A_MAX, MAX_DIM, MAX_MASS, MAX_PARTICLES, MAX_R3, POS_LIMIT};
use crate::math::{clamp, spec_isqrt};
use crate::particle::{dist_sq, grav_accel, in_box, lemma_wf_positive, pos_bounded,
    spec_did_collide, spec_integrate, spec_mass, spec_reflect, spec_volume, wf_body, Particle};
use crate::point::Point;

verus! {

// ---------------------------------------------------------------------
// Sums over the population
// ---------------------------------------------------------------------

/// The volume of a particle, as a function value for summing.
pub open spec fn vol_fn() -> spec_fn(Particle) -> int {
    |p: Particle| spec_volume(p)
}

/// The mass of a particle, as a function value for summing.
pub open spec fn mass_fn() -> spec_fn(Particle) -> int {
    |p: Particle| spec_mass(p)
}

/// The sum of `f` over all particles of `s`.
pub open spec fn total_sum(s: Seq<Particle>, f: spec_fn(Particle) -> int) -> int
    decreases s.len(),
{
    if s.len() == 0 {
        0
    } else {
        total_sum(s.drop_last(), f) + f(s.last())
    }
}

/// The sum of `f` over the particles of `s` whose mark in `alive` is
/// still set.
pub open spec fn alive_sum(s: Seq<Particle>, alive: Seq<bool>, f: spec_fn(Particle) -> int) -> int
    decreases s.len(),
{
    if s.len() == 0 {
        0
    } else {
        alive_sum(s.drop_last(), alive.drop_last(), f) + (if alive[s.len() - 1] {
            f(s.last())
        } else {
            0
        })
    }
}

/// How many marks are still set.
pub open spec fn count_alive(alive: Seq<bool>) -> int
    decreases alive.len(),
{
    if alive.len() == 0 {
        0
    } else {
        count_alive(alive.drop_last()) + (if alive.last() {
            1int
        } else {
            0int
        })
    }
}

proof fn lemma_total_sum_push(s: Seq<Particle>, f: spec_fn(Particle) -> int, p: Particle)
    ensures
        total_sum(s.push(p), f) == total_sum(s, f) + f(p),
{
    assert(s.push(p).drop_last() =~= s);
    assert(s.push(p).last() == p);
}

proof fn lemma_total_sum_take_step(s: Seq<Particle>, f: spec_fn(Particle) -> int, k: int)
    requires
        0 <= k < s.len(),
    ensures
        total_sum(s.take(k + 1), f) == total_sum(s.take(k), f) + f(s[k]),
{
    assert(s.take(k + 1).drop_last() =~= s.take(k));
    assert(s.take(k + 1).last() == s[k]);
}

proof fn lemma_alive_sum_take_step(s: Seq<Particle>, alive: Seq<bool>, f: spec_fn(
    Particle) -> int, k: int)
    requires
        s.len() == alive.len(),
        0 <= k < s.len(),
    ensures
        alive_sum(s.take(k + 1), alive.take(k + 1), f) == alive_sum(s.take(k), alive.take(k), f)
            + (if alive[k] {
            f(s[k])
        } else {
            0
        }),
{
    assert(s.take(k + 1).drop_last() =~= s.take(k));
    assert(alive.take(k + 1).drop_last() =~= alive.take(k));
    assert(s.take(k + 1).last() == s[k]);
    assert(alive.take(k + 1)[k] == alive[k]);
}

proof fn lemma_count_alive_take_step(alive: Seq<bool>, k: int)
    requires
        0 <= k < alive.len(),
    ensures
        count_alive(alive.take(k + 1)) == count_alive(alive.take(k)) + (if alive[k] {
            1int
        } else {
            0int
        }),
{
    assert(alive.take(k + 1).drop_last() =~= alive.take(k));
    assert(alive.take(k + 1).last() == alive[k]);
}

/// Replacing the particle at `i` moves the masked sum by the difference
/// at `i`, when the mark at `i` is set; a dead slot changes nothing.
proof fn lemma_alive_sum_update(s: Seq<Particle>, alive: Seq<bool>, f: spec_fn(Particle) -> int,
    i: int, p: Particle)
    requires
        s.len() == alive.len(),
        0 <= i < s.len(),
    ensures
        alive_sum(s.update(i, p), alive, f) == alive_sum(s, alive, f) + (if alive[i] {
            f(p) - f(s[i])
        } else {
            0
        }),
    decreases s.len(),
{
    let n = s.len() as int;
    if i == n - 1 {
        assert(s.update(i, p).drop_last() =~= s.drop_last());
        assert(s.update(i, p).last() == p);
    } else {
        assert(s.update(i, p).drop_last() =~= s.drop_last().update(i, p));
        lemma_alive_sum_update(s.drop_last(), alive.drop_last(), f, i, p);
        assert(alive.drop_last()[i] == alive[i]);
        assert(s.update(i, p).last() == s.last());
    }
}

/// Clearing the mark at `j` removes that particle's contribution.
proof fn lemma_alive_sum_kill(s: Seq<Particle>, alive: Seq<bool>, f: spec_fn(Particle) -> int,
    j: int)
    requires
        s.len() == alive.len(),
        0 <= j < s.len(),
    ensures
        alive_sum(s, alive.update(j, false), f) == alive_sum(s, alive, f) - (if alive[j] {
            f(s[j])
        } else {
            0
        }),
    decreases s.len(),
{
    let n = s.len() as int;
    if j == n - 1 {
        assert(alive.update(j, false).drop_last() =~= alive.drop_last());
    } else {
        assert(alive.update(j, false).drop_last() =~= alive.drop_last().update(j, false));
        lemma_alive_sum_kill(s.drop_last(), alive.drop_last(), f, j);
        assert(alive.drop_last()[j] == alive[j]);
        assert(alive.update(j, false)[n - 1] == alive[n - 1]);
    }
}

/// Clearing the mark at `j` lowers the count by one when it was set.
proof fn lemma_count_alive_kill(alive: Seq<bool>, j: int)
    requires
        0 <= j < alive.len(),
    ensures
        count_alive(alive.update(j, false)) == count_alive(alive) - (if alive[j] {
            1int
        } else {
            0int
        }),
    decreases alive.len(),
{
    let n = alive.len() as int;
    if j == n - 1 {
        assert(alive.update(j, false).drop_last() =~= alive.drop_last());
    } else {
        assert(alive.update(j, false).drop_last() =~= alive.drop_last().update(j, false));
        lemma_count_alive_kill(alive.drop_last(), j);
        assert(alive.drop_last()[j] == alive[j]);
        assert(alive.update(j, false)[n - 1] == alive[n - 1]);
    }
}

/// A masked sum of non-negative contributions is non-negative.
proof fn lemma_alive_sum_nonneg(s: Seq<Particle>, alive: Seq<bool>, f: spec_fn(Particle) -> int)
    requires
        s.len() == alive.len(),
        forall|k: int| 0 <= k < s.len() && alive[k] ==> f(#[trigger] s[k]) >= 0,
    ensures
        alive_sum(s, alive, f) >= 0,
    decreases s.len(),
{
    if s.len() > 0 {
        lemma_alive_sum_nonneg(s.drop_last(), alive.drop_last(), f);
    }
}

/// A live particle's contribution is bounded by the masked sum.
proof fn lemma_alive_sum_member_bound(s: Seq<Particle>, alive: Seq<bool>, f: spec_fn(
    Particle) -> int, j: int)
    requires
        s.len() == alive.len(),
        0 <= j < s.len(),
        alive[j],
        forall|k: int| 0 <= k < s.len() && alive[k] ==> f(#[trigger] s[k]) >= 0,
    ensures
        f(s[j]) <= alive_sum(s, alive, f),
{
    lemma_alive_sum_kill(s, alive, f, j);
    lemma_alive_sum_nonneg(s, alive.update(j, false), f);
}

/// Two distinct live particles together contribute at most the masked
/// sum.
proof fn lemma_alive_sum_pair_bound(s: Seq<Particle>, alive: Seq<bool>, f: spec_fn(
    Particle) -> int, i: int, j: int)
    requires
        s.len() == alive.len(),
        0 <= i < s.len(),
        0 <= j < s.len(),
        i != j,
        alive[i],
        alive[j],
        forall|k: int| 0 <= k < s.len() && alive[k] ==> f(#[trigger] s[k]) >= 0,
    ensures
        f(s[i]) + f(s[j]) <= alive_sum(s, alive, f),
{
    lemma_alive_sum_kill(s, alive, f, j);
    lemma_alive_sum_member_bound(s, alive.update(j, false), f, i);
}

/// With every mark set, the masked sum is the plain sum.
proof fn lemma_alive_sum_all_true(s: Seq<Particle>, alive: Seq<bool>, f: spec_fn(Particle) -> int)
    requires
        s.len() == alive.len(),
        forall|k: int| 0 <= k < alive.len() ==> #[trigger] alive[k],
    ensures
        alive_sum(s, alive, f) == total_sum(s, f),
    decreases s.len(),
{
    if s.len() > 0 {
        lemma_alive_sum_all_true(s.drop_last(), alive.drop_last(), f);
    }
}

/// The count of live marks never exceeds the population.
proof fn lemma_count_alive_le_len(alive: Seq<bool>)
    ensures
        0 <= count_alive(alive) <= alive.len(),
    decreases alive.len(),
{
    if alive.len() > 0 {
        lemma_count_alive_le_len(alive.drop_last());
    }
}

// ---------------------------------------------------------------------
// The unordered pairs of a population
// ---------------------------------------------------------------------

/// All unordered index pairs over a population of `n`, as ordered pairs
/// `(a, b)` with `a < b`.
pub open spec fn all_pairs(n: int) -> Set<(int, int)> {
    Set::new(|p: (int, int)| 0 <= p.0 < p.1 < n)
}

/// The pairs the pass has fully handled when the outer scan stands at
/// `i`: every pair whose first index is below `i`.
spec fn pairs_upto(n: int, i: int) -> Set<(int, int)> {
    Set::new(|p: (int, int)| 0 <= p.0 < p.1 < n && p.0 < i)
}

/// The pairs the pass has handled when the inner scan stands at
/// `(i, j)`: every pair before `i`, and the pairs `(i, b)` with `b < j`.
spec fn pairs_lt(n: int, i: int, j: int) -> Set<(int, int)> {
    Set::new(|p: (int, int)| 0 <= p.0 < p.1 < n && (p.0 < i || (p.0 == i && p.1 < j)))
}

/// The pairs `(a, k)` with `a < m`.
spec fn pair_column(k: int, m: int) -> Set<(int, int)> {
    Set::new(|p: (int, int)| p.1 == k && 0 <= p.0 < m)
}

proof fn lemma_pair_column_card(k: int, m: int)
    requires
        0 <= m,
    ensures
        pair_column(k, m).finite(),
        pair_column(k, m).len() == m,
    decreases m,
{
    if m == 0 {
        assert(pair_column(k, 0) =~= Set::<(int, int)>::empty());
    } else {
        lemma_pair_column_card(k, m - 1);
        assert(pair_column(k, m) =~= pair_column(k, m - 1).insert((m - 1, k)));
        assert(!pair_column(k, m - 1).contains((m - 1, k)));
    }
}

/// The union of two disjoint finite sets has the summed cardinality.
proof fn lemma_disjoint_union_len<A>(s1: Set<A>, s2: Set<A>)
    requires
        s1.finite(),
        s2.finite(),
        s1.disjoint(s2),
    ensures
        s1.union(s2).finite(),
        s1.union(s2).len() == s1.len() + s2.len(),
    decreases s2.len(),
{
    if s2.len() == 0 {
        assert(s2 =~= Set::<A>::empty());
        assert(s1.union(s2) =~= s1);
    } else {
        let a = s2.choose();
        assert(s2.contains(a));
        lemma_disjoint_union_len(s1, s2.remove(a));
        assert(s1.union(s2) =~= s1.union(s2.remove(a)).insert(a));
        assert(!s1.union(s2.remove(a)).contains(a));
    }
}

/// There are `n * (n - 1) / 2` unordered pairs over a population of
/// `n`: the pairwise pass of a frame with no merges considers exactly
/// that many pairs, each exactly once.
pub proof fn lemma_all_pairs_count(n: int)
    requires
        0 <= n,
    ensures
        all_pairs(n).finite(),
        2 * all_pairs(n).len() == n * (n - 1),
        all_pairs(n).len() == n * (n - 1) / 2,
    decreases n,
{
    if n == 0 {
        assert(all_pairs(0) =~= Set::<(int, int)>::empty());
    } else {
        lemma_all_pairs_count(n - 1);
        lemma_pair_column_card(n - 1, n - 1);
        assert(all_pairs(n - 1).disjoint(pair_column(n - 1, n - 1)));
        lemma_disjoint_union_len(all_pairs(n - 1), pair_column(n - 1, n - 1));
        assert(all_pairs(n) =~= all_pairs(n - 1).union(pair_column(n - 1, n - 1)));
        assert((n - 1) * (n - 2) + 2 * (n - 1) == n * (n - 1)) by (nonlinear_arith);
    }
    let len = all_pairs(n).len() as int;
    vstd::arithmetic::div_mod::lemma_div_by_multiple(len, 2);
    vstd::arithmetic::mul::lemma_mul_is_commutative(len, 2);
}

// ---------------------------------------------------------------------
// The per-frame pipeline, modelled
// ---------------------------------------------------------------------

/// Every particle after integration and boundary reflection.
pub open spec fn spec_step_seq(s: Seq<Particle>, height: int, width: int, length: int) -> Seq<
    Particle> {
    Seq::new(s.len(), |k: int| spec_reflect(spec_integrate(s[k]), height, width, length))
}

/// The same particle with the given acceleration components.
pub open spec fn with_accel(p: Particle, ax: int, ay: int, az: int) -> Particle {
    Particle {
        position: p.position,
        velocity: p.velocity,
        acceleration: Point { x: ax as i64, y: ay as i64, z: az as i64 },
        radius: p.radius,
        density: p.density,
        element: p.element,
    }
}

/// No two distinct particles of the population collide.
pub open spec fn no_collisions(s: Seq<Particle>) -> bool {
    forall|i: int, j: int|
        0 <= i < j < s.len() ==> !spec_did_collide(#[trigger] s[i], #[trigger] s[j])
}

/// The `x` acceleration of particle `k` after folding, onto zero, the
/// gravitational contributions of particles `0..m` (skipping `k`), in
/// index order, each saturated at the acceleration cap.
pub open spec fn grav_fold_x(s: Seq<Particle>, k: int, m: int) -> int
    decreases m,
{
    if m <= 0 {
        0
    } else {
        let prev = grav_fold_x(s, k, m - 1);
        let j = m - 1;
        if j == k {
            prev
        } else {
            let d = spec_isqrt(dist_sq(s[k], s[j]));
            if d == 0 {
                prev
            } else {
                clamp(prev + grav_accel(spec_mass(s[j]), s[j].position.x - s[k].position.x, d),
                    A_MAX as int)
            }
        }
    }
}

/// As [`grav_fold_x`], on the `y` axis.
pub open spec fn grav_fold_y(s: Seq<Particle>, k: int, m: int) -> int
    decreases m,
{
    if m <= 0 {
        0
    } else {
        let prev = grav_fold_y(s, k, m - 1);
        let j = m - 1;
        if j == k {
            prev
        } else {
            let d = spec_isqrt(dist_sq(s[k], s[j]));
            if d == 0 {
                prev
            } else {
                clamp(prev + grav_accel(spec_mass(s[j]), s[j].position.y - s[k].position.y, d),
                    A_MAX as int)
            }
        }
    }
}

/// As [`grav_fold_x`], on the `z` axis.
pub open spec fn grav_fold_z(s: Seq<Particle>, k: int, m: int) -> int
    decreases m,
{
    if m <= 0 {
        0
    } else {
        let prev = grav_fold_z(s, k, m - 1);
        let j = m - 1;
        if j == k {
            prev
        } else {
            let d = spec_isqrt(dist_sq(s[k], s[j]));
            if d == 0 {
                prev
            } else {
                clamp(prev + grav_accel(spec_mass(s[j]), s[j].position.z - s[k].position.z, d),
                    A_MAX as int)
            }
        }
    }
}

/// What a collision-free frame makes of particle `k`: the stepped
/// particle, its acceleration replaced by the gravitational fold up to
/// cutoff `m` when gravity is on.
pub open spec fn nc_expected(stepped: Seq<Particle>, gravity: bool, k: int, m: int) -> Particle {
    if gravity {
        with_accel(stepped[k], grav_fold_x(stepped, k, m), grav_fold_y(stepped, k, m),
            grav_fold_z(stepped, k, m))
    } else {
        stepped[k]
    }
}

/// The fold cutoff of particle `k` between two outer iterations `i`.
spec fn outer_cutoff(n: int, i: int, k: int) -> int {
    if k < i {
        n
    } else {
        i
    }
}

/// The fold cutoff of particle `k` while the pass stands at pair
/// `(i, j)`.
spec fn inner_cutoff(n: int, i: int, j: int, k: int) -> int {
    if k < i {
        n
    } else if k == i {
        j
    } else if k < j {
        i + 1
    } else {
        i
    }
}

/// Every particle of the working population is well formed and inside
/// the domain box.
spec fn pass_wf(cur: Seq<Particle>, height: int, width: int, length: int) -> bool {
    forall|k: int|
        0 <= k < cur.len() ==> wf_body(#[trigger] cur[k]) && in_box(cur[k], height, width, length)
}

/// The collision-free shape of the population between outer iterations.
spec fn nc_inv_outer(stepped: Seq<Particle>, gravity: bool, cur: Seq<Particle>, n: int,
    i: int) -> bool {
    forall|k: int|
        0 <= k < n ==> #[trigger] cur[k] == nc_expected(stepped, gravity, k, outer_cutoff(n, i,
            k))
}

/// The collision-free shape of the population inside the inner scan.
spec fn nc_inv_inner(stepped: Seq<Particle>, gravity: bool, cur: Seq<Particle>, n: int, i: int,
    j: int) -> bool {
    forall|k: int|
        0 <= k < n ==> #[trigger] cur[k] == nc_expected(stepped, gravity, k, inner_cutoff(n, i, j,
            k))
}

/// The gravitational folds stay inside the acceleration cap.
proof fn lemma_grav_fold_bounded(s: Seq<Particle>, k: int, m: int)
    ensures
        -A_MAX <= grav_fold_x(s, k, m) <= A_MAX,
        -A_MAX <= grav_fold_y(s, k, m) <= A_MAX,
        -A_MAX <= grav_fold_z(s, k, m) <= A_MAX,
    decreases m,
{
    if m > 0 {
        lemma_grav_fold_bounded(s, k, m - 1);
    }
}

/// Two pairs of particles that agree on position, radius and density
/// also agree on collision geometry and mass.
proof fn lemma_same_geometry(a: Particle, b: Particle, p: Particle, q: Particle)
    requires
        a.position == p.position,
        a.radius == p.radius,
        a.density == p.density,
        b.position == q.position,
        b.radius == q.radius,
        b.density == q.density,
    ensures
        dist_sq(a, b) == dist_sq(p, q),
        spec_did_collide(a, b) == spec_did_collide(p, q),
        spec_mass(a) == spec_mass(p),
        spec_mass(b) == spec_mass(q),
{
}

/// The same particle with its acceleration cleared.
fn clear_acceleration(p: &Particle) -> (r: Particle)
    ensures
        r == with_accel(*p, 0, 0, 0),
{
    Particle {
        position: p.position,
        velocity: p.velocity,
        acceleration: Point { x: 0, y: 0, z: 0 },
        radius: p.radius,
        density: p.density,
        element: p.element.clone(),
    }
}

// ---------------------------------------------------------------------
// The field
// ---------------------------------------------------------------------

pub struct SimulationField {
    pub particles: Vec<Particle>,
    /// Domain size along `z`.
    pub height: i64,
    /// Domain size along `x`.
    pub width: i64,
    /// Domain size along `y`.
    pub length: i64,
    /// Whether the pairwise pass accumulates gravitational attraction.
    pub gravity: bool,
}

/// One frame's bookkeeping: how many unordered pairs the pairwise pass
/// considered, how many merges happened, and — in ghost state — which
/// pairs were processed.
pub struct StepReport {
    pub pairs_considered: u64,
    pub merges: usize,
    pub visited: Ghost<Set<(int, int)>>,
}

/// A field is well formed when its domain fits the global limits, the
/// population is within the cap, every particle is well formed with a
/// bounded position, and the growth caps hold for the summed volume and
/// mass.
pub open spec fn wf_field(f: SimulationField) -> bool {
    &&& 0 <= f.height <= MAX_DIM
    &&& 0 <= f.width <= MAX_DIM
    &&& 0 <= f.length <= MAX_DIM
    &&& f.particles@.len() <= MAX_PARTICLES
    &&& forall|i: int|
        0 <= i < f.particles@.len() ==> wf_body(#[trigger] f.particles@[i]) && pos_bounded(
            f.particles@[i])
    &&& total_sum(f.particles@, vol_fn()) <= MAX_R3
    &&& total_sum(f.particles@, mass_fn()) <= MAX_MASS
}

impl SimulationField {
    /// The field is terminal once its population falls below the given
    /// minimum.
    pub fn is_terminal(&self, min_population: usize) -> (r: bool)
        ensures
            r == (self.particles@.len() < min_population),
    {
        self.particles.len() < min_population
    }

    /// The render snapshot of the current frame: position in the image
    /// plane, radius and colour of every particle, in order.
    pub fn snapshot(&self) -> (r: Vec<(i64, i64, i64, [u8; 3])>)
        ensures
            r@.len() == self.particles@.len(),
            forall|k: int|
                0 <= k < r@.len() ==> r@[k] == (((#[trigger] self.particles@[k]).position.x,
                    self.particles@[k].position.y, self.particles@[k].radius,
                    self.particles@[k].element.color)),
    {
        let n = self.particles.len();
        let mut out: Vec<(i64, i64, i64, [u8; 3])> = Vec::new();
        let mut k: usize = 0;
        while k < n
            invariant
                k <= n,
                n == self.particles@.len(),
                out@.len() == k,
                forall|t: int|
                    0 <= t < k ==> out@[t] == (((#[trigger] self.particles@[t]).position.x,
                        self.particles@[t].position.y, self.particles@[t].radius,
                        self.particles@[t].element.color)),
            decreases n - k,
        {
            let p = &self.particles[k];
            out.push((p.position.x, p.position.y, p.radius, p.element.color));
            k += 1;
        }
        out
    }

    /// Decide the field's validity at run time: the domain within the
    /// global limits, the population within the cap, every particle
    /// well formed with a bounded position, and the volume and mass
    /// growth caps.
    #[verifier::loop_isolation(false)]
    pub fn is_well_formed(&self) -> (r: bool)
        ensures
            r == wf_field(*self),
    {
        if self.height < 0 || self.height > MAX_DIM {
            return false;
        }
        if self.width < 0 || self.width > MAX_DIM {
            return false;
        }
        if self.length < 0 || self.length > MAX_DIM {
            return false;
        }
        let n = self.particles.len();
        if n > MAX_PARTICLES {
            return false;
        }
        let mut vol_total: i128 = 0;
        let mut mass_total: i128 = 0;
        let mut k: usize = 0;
        while k < n
            invariant
                k <= n,
                forall|t: int|
                    0 <= t < k ==> wf_body(#[trigger] self.particles@[t]) && pos_bounded(
                        self.particles@[t]),
                vol_total == total_sum(self.particles@.take(k as int), vol_fn()),
                mass_total == total_sum(self.particles@.take(k as int), mass_fn()),
                0 <= vol_total <= (k as int) * MAX_R3,
                0 <= mass_total <= (k as int) * MAX_MASS,
            decreases n - k,
        {
            let p = &self.particles[k];
            if !p.is_well_formed() {
                return false;
            }
            if !(-POS_LIMIT <= p.position.x && p.position.x <= POS_LIMIT) {
                return false;
            }
            if !(-POS_LIMIT <= p.position.y && p.position.y <= POS_LIMIT) {
                return false;
            }
            if !(-POS_LIMIT <= p.position.z && p.position.z <= POS_LIMIT) {
                return false;
            }
            let v = p.volume();
            let m = p.mass();
            proof {
                lemma_total_sum_take_step(self.particles@, vol_fn(), k as int);
                lemma_total_sum_take_step(self.particles@, mass_fn(), k as int);
                lemma_wf_positive(self.particles@[k as int]);
            }
            vol_total = vol_total + v as i128;
            mass_total = mass_total + m as i128;
            k += 1;
        }
        proof {
            assert(self.particles@.take(n as int) =~= self.particles@);
        }
        vol_total <= MAX_R3 as i128 && mass_total <= MAX_MASS as i128
    }

    /// One full frame of the pipeline: integrate and reflect every
    /// particle (resetting accelerations when gravity is on), walk
    /// every unordered pair of live particles at most once — resolving
    /// a collision into a sticky merge or an elastic bounce and
    /// accumulating gravity onto both partners — then commit the
    /// removals of merge-consumed particles in one step.
    ///
    /// The sticking decision is stochastic, so the contract states what
    /// holds of every outcome: the bookkeeping of pairs and merges, the
    /// preservation of validity and of the volume and mass caps, and
    /// the exact result for a frame in which no pair collides.
    #[verifier::loop_isolation(false)]
    #[verifier::rlimit(100)]
    pub fn time_step(&self) -> (r: (SimulationField, StepReport))
        requires
            wf_field(*self),
        ensures
            r.0.height == self.height,
            r.0.width == self.width,
            r.0.length == self.length,
            r.0.gravity == self.gravity,
            wf_field(r.0),
            forall|k: int|
                0 <= k < r.0.particles@.len() ==> in_box(#[trigger] r.0.particles@[k],
                    self.height as int, self.width as int, self.length as int),
            r.1.merges <= self.particles@.len(),
            r.0.particles@.len() == self.particles@.len() - r.1.merges,
            r.1.visited@.finite(),
            r.1.visited@.subset_of(all_pairs(self.particles@.len() as int)),
            r.1.pairs_considered == r.1.visited@.len(),
            r.1.merges == 0 ==> r.1.visited@ == all_pairs(self.particles@.len() as int)
                && r.1.pairs_considered == self.particles@.len() * (self.particles@.len() - 1)
                / 2,
            total_sum(r.0.particles@, vol_fn()) <= total_sum(self.particles@, vol_fn()),
            total_sum(r.0.particles@, mass_fn()) <= total_sum(self.particles@, mass_fn()),
            no_collisions(spec_step_seq(self.particles@, self.height as int, self.width as int,
                self.length as int)) ==> r.1.merges == 0 && (forall|k: int|
                0 <= k < self.particles@.len() ==> #[trigger] r.0.particles@[k] == nc_expected(
                    spec_step_seq(self.particles@, self.height as int, self.width as int,
                        self.length as int), self.gravity, k, self.particles@.len() as int)),
    {
        let n = self.particles.len();
        let height = self.height;
        let width = self.width;
        let length = self.length;
        let ghost hh = height as int;
        let ghost ww = width as int;
        let ghost ll = length as int;
        let ghost stepped = spec_step_seq(self.particles@, hh, ww, ll);
        let ghost v0 = total_sum(self.particles@, vol_fn());
        let ghost m0 = total_sum(self.particles@, mass_fn());

        // Integrate and reflect every particle against the frozen
        // previous population; with gravity on, the accumulation pass
        // starts from a clean acceleration.
        let mut cur: Vec<Particle> = Vec::new();
        let mut alive: Vec<bool> = Vec::new();
        let mut idx: usize = 0;
        while idx < n
            invariant
                idx <= n,
                cur@.len() == idx,
                alive@.len() == idx,
                forall|k: int| 0 <= k < idx ==> #[trigger] alive@[k],
                forall|k: int|
                    0 <= k < idx ==> #[trigger] cur@[k] == (if self.gravity {
                        with_accel(stepped[k], 0, 0, 0)
                    } else {
                        stepped[k]
                    }),
                pass_wf(cur@, hh, ww, ll),
                total_sum(cur@, vol_fn()) == total_sum(self.particles@.take(idx as int), vol_fn()),
                total_sum(cur@, mass_fn()) == total_sum(self.particles@.take(idx as int),
                    mass_fn()),
            decreases n - idx,
        {
            let p = self.particles[idx].time_step_return(height, width, length);
            let q = if self.gravity {
                clear_acceleration(&p)
            } else {
                p
            };
            proof {
                lemma_total_sum_push(cur@, vol_fn(), q);
                lemma_total_sum_push(cur@, mass_fn(), q);
                lemma_total_sum_take_step(self.particles@, vol_fn(), idx as int);
                lemma_total_sum_take_step(self.particles@, mass_fn(), idx as int);
            }
            cur.push(q);
            alive.push(true);
            idx += 1;
        }
        proof {
            assert(self.particles@.take(n as int) =~= self.particles@);
        }

        // The pairwise pass over the frozen snapshot: each unordered
        // pair of still-live particles is considered at most once, and
        // exactly once when no merge removes a partner first.
        let mut pairs: u64 = 0;
        let mut merges: usize = 0;
        let ghost mut visited: Set<(int, int)> = Set::empty();
        let mut i: usize = 0;
        proof {
            lemma_alive_sum_all_true(cur@, alive@, vol_fn());
            lemma_alive_sum_all_true(cur@, alive@, mass_fn());
            lemma_count_alive_all_true(alive@);
        }
        while i < n
            invariant
                i <= n,
                cur@.len() == n,
                alive@.len() == n,
                pass_wf(cur@, hh, ww, ll),
                alive_sum(cur@, alive@, vol_fn()) <= v0,
                alive_sum(cur@, alive@, mass_fn()) <= m0,
                count_alive(alive@) == n - merges,
                0 <= count_alive(alive@),
                visited.finite(),
                visited.subset_of(pairs_upto(n as int, i as int)),
                pairs == visited.len(),
                pairs as int <= (i as int) * (n as int),
                merges == 0 ==> visited == pairs_upto(n as int, i as int) && (forall|k: int|
                    0 <= k < n ==> #[trigger] alive@[k]),
                no_collisions(stepped) ==> merges == 0 && nc_inv_outer(stepped, self.gravity,
                    cur@, n as int, i as int),
            decreases n - i,
        {
            if alive[i] {
                let mut j = i + 1;
                proof {
                    assert(pairs_upto(n as int, i as int) =~= pairs_lt(n as int, i as int, (i
                        + 1) as int));
                    assert(grav_fold_x(stepped, i as int, i as int + 1) == grav_fold_x(stepped,
                        i as int, i as int));
                    assert(grav_fold_y(stepped, i as int, i as int + 1) == grav_fold_y(stepped,
                        i as int, i as int));
                    assert(grav_fold_z(stepped, i as int, i as int + 1) == grav_fold_z(stepped,
                        i as int, i as int));
                }
                while j < n
                    invariant
                        i < n,
                        i + 1 <= j <= n,
                        cur@.len() == n,
                        alive@.len() == n,
                        alive@[i as int],
                        pass_wf(cur@, hh, ww, ll),
                        alive_sum(cur@, alive@, vol_fn()) <= v0,
                        alive_sum(cur@, alive@, mass_fn()) <= m0,
                        count_alive(alive@) == n - merges,
                        0 <= count_alive(alive@),
                        visited.finite(),
                        visited.subset_of(pairs_lt(n as int, i as int, j as int)),
                        pairs == visited.len(),
                        pairs as int <= (i as int) * (n as int) + (j as int),
                        merges == 0 ==> visited == pairs_lt(n as int, i as int, j as int) && (
                        forall|k: int| 0 <= k < n ==> #[trigger] alive@[k]),
                        no_collisions(stepped) ==> merges == 0 && nc_inv_inner(stepped,
                            self.gravity, cur@, n as int, i as int, j as int),
                    decreases n - j,
                {
                    if alive[j] {
                        proof {
                            assert(!visited.contains((i as int, j as int)));
                            visited = visited.insert((i as int, j as int));
                            assert((i as int) * (n as int) + (j as int) + 1 <= 2_000_000_000_000int)
                                by (nonlinear_arith)
                                requires
                                    0 <= i < n,
                                    0 <= j <= n,
                                    n <= 1_000_000,
                            ;
                        }
                        pairs = pairs + 1;
                        proof {
                            assert(pos_bounded(cur@[i as int]) && pos_bounded(cur@[j as int]));
                        }
                        let collide = cur[i].did_collide(&cur[j]);
                        proof {
                            if collide && no_collisions(stepped) {
                                lemma_same_geometry(cur@[i as int], cur@[j as int],
                                    stepped[i as int], stepped[j as int]);
                                assert(!spec_did_collide(stepped[i as int], stepped[j as int]));
                                assert(false);
                            }
                        }
                        if collide {
                            proof {
                                assert forall|k: int|
                                    0 <= k < cur@.len() && alive@[k] implies vol_fn()(
                                    #[trigger] cur@[k]) >= 0 && mass_fn()(cur@[k]) >= 0 by {
                                    lemma_wf_positive(cur@[k]);
                                }
                                lemma_alive_sum_pair_bound(cur@, alive@, vol_fn(), i as int,
                                    j as int);
                                lemma_alive_sum_pair_bound(cur@, alive@, mass_fn(), i as int,
                                    j as int);
                            }
                            if cur[i].will_stick(&cur[j]) {
                                let ghost cur0 = cur@;
                                let ghost alive0 = alive@;
                                let merged = cur[i].sticky_collision(&cur[j]);
                                cur.set(i, merged);
                                alive.set(j, false);
                                proof {
                                    lemma_alive_sum_update(cur0, alive0, vol_fn(), i as int,
                                        merged);
                                    lemma_alive_sum_update(cur0, alive0, mass_fn(), i as int,
                                        merged);
                                    lemma_alive_sum_kill(cur0.update(i as int, merged), alive0,
                                        vol_fn(), j as int);
                                    lemma_alive_sum_kill(cur0.update(i as int, merged), alive0,
                                        mass_fn(), j as int);
                                    lemma_count_alive_kill(alive0, j as int);
                                    lemma_count_alive_le_len(alive@);
                                }
                                merges = merges + 1;
                            } else {
                                let ghost cur0 = cur@;
                                let pair = cur[i].elastic_collision(&cur[j]);
                                cur.set(i, pair.0);
                                cur.set(j, pair.1);
                                proof {
                                    lemma_alive_sum_update(cur0, alive@, vol_fn(), i as int,
                                        pair.0);
                                    lemma_alive_sum_update(cur0, alive@, mass_fn(), i as int,
                                        pair.0);
                                    lemma_alive_sum_update(cur0.update(i as int, pair.0), alive@,
                                        vol_fn(), j as int, pair.1);
                                    lemma_alive_sum_update(cur0.update(i as int, pair.0), alive@,
                                        mass_fn(), j as int, pair.1);
                                }
                            }
                        }
                        if self.gravity && alive[j] {
                            let ghost cur1 = cur@;
                            let gi = cur[i].gravitate(&cur[j]);
                            cur.set(i, gi);
                            let gj = cur[j].gravitate(&cur[i]);
                            cur.set(j, gj);
                            proof {
                                lemma_alive_sum_update(cur1, alive@, vol_fn(), i as int, gi);
                                lemma_alive_sum_update(cur1, alive@, mass_fn(), i as int, gi);
                                lemma_alive_sum_update(cur1.update(i as int, gi), alive@, vol_fn(),
                                    j as int, gj);
                                lemma_alive_sum_update(cur1.update(i as int, gi), alive@,
                                    mass_fn(), j as int, gj);
                                if no_collisions(stepped) {
                                    lemma_nc_gravity_step(stepped, cur1, cur@, gi, gj, n as int,
                                        i as int, j as int);
                                }
                            }
                        }
                        proof {
                            assert(pairs_lt(n as int, i as int, j as int).insert((i as int,
                                j as int)) =~= pairs_lt(n as int, i as int, j as int + 1));
                            if no_collisions(stepped) && !self.gravity {
                                assert(nc_inv_inner(stepped, self.gravity, cur@, n as int,
                                    i as int, j as int + 1));
                            }
                        }
                    } else {
                        proof {
                            assert(merges > 0);
                            assert(visited.subset_of(pairs_lt(n as int, i as int, j as int + 1)));
                        }
                    }
                    j += 1;
                }
                proof {
                    assert(pairs_lt(n as int, i as int, n as int) =~= pairs_upto(n as int, i as int
                        + 1));
                    assert((i as int) * (n as int) + (n as int) == (i as int + 1) * (n as int))
                        by (nonlinear_arith);
                    if no_collisions(stepped) {
                        assert(nc_inv_outer(stepped, self.gravity, cur@, n as int, i as int + 1));
                    }
                }
            } else {
                proof {
                    assert(merges > 0);
                    assert(visited.subset_of(pairs_upto(n as int, i as int + 1)));
                    assert((i as int) * (n as int) <= (i as int + 1) * (n as int))
                        by (nonlinear_arith)
                        requires
                            0 <= n,
                    ;
                }
            }
            i += 1;
        }

        // Commit: the next frame's population is the live particles, in
        // order.
        let mut out: Vec<Particle> = Vec::new();
        let mut k: usize = 0;
        while k < n
            invariant
                k <= n,
                cur@.len() == n,
                alive@.len() == n,
                out@.len() == count_alive(alive@.take(k as int)),
                total_sum(out@, vol_fn()) == alive_sum(cur@.take(k as int), alive@.take(k as int),
                    vol_fn()),
                total_sum(out@, mass_fn()) == alive_sum(cur@.take(k as int), alive@.take(
                    k as int), mass_fn()),
                forall|t: int|
                    0 <= t < out@.len() ==> wf_body(#[trigger] out@[t]) && in_box(out@[t], hh, ww,
                        ll),
                merges == 0 ==> out@ =~= cur@.take(k as int),
            decreases n - k,
        {
            proof {
                lemma_count_alive_take_step(alive@, k as int);
                lemma_alive_sum_take_step(cur@, alive@, vol_fn(), k as int);
                lemma_alive_sum_take_step(cur@, alive@, mass_fn(), k as int);
            }
            if alive[k] {
                proof {
                    lemma_total_sum_push(out@, vol_fn(), cur@[k as int]);
                    lemma_total_sum_push(out@, mass_fn(), cur@[k as int]);
                }
                out.push(cur[k].clone());
            } else {
                proof {
                    assert(merges > 0);
                }
            }
            k += 1;
        }
        proof {
            assert(cur@.take(n as int) =~= cur@);
            assert(alive@.take(n as int) =~= alive@);
            lemma_count_alive_le_len(alive@);
            assert(pairs_upto(n as int, n as int) =~= all_pairs(n as int));
            if merges == 0 {
                lemma_all_pairs_count(n as int);
            }
        }
        let next = SimulationField {
            particles: out,
            height,
            width,
            length,
            gravity: self.gravity,
        };
        let report = StepReport { pairs_considered: pairs, merges, visited: Ghost(visited) };
        (next, report)
    }
}

/// With every mark set, the count of live marks is the population.
proof fn lemma_count_alive_all_true(alive: Seq<bool>)
    requires
        forall|k: int| 0 <= k < alive.len() ==> #[trigger] alive[k],
    ensures
        count_alive(alive) == alive.len(),
    decreases alive.len(),
{
    if alive.len() > 0 {
        lemma_count_alive_all_true(alive.drop_last());
    }
}

/// One gravity exchange of the pair `(i, j)` advances the collision-free
/// shape of the population from cutoff `j` to cutoff `j + 1`.
proof fn lemma_nc_gravity_step(stepped: Seq<Particle>, cur1: Seq<Particle>, cur2: Seq<Particle>,
    gi: Particle, gj: Particle, n: int, i: int, j: int)
    requires
        stepped.len() == n,
        cur1.len() == n,
        0 <= i < j < n,
        nc_inv_inner(stepped, true, cur1, n, i, j),
        cur2 == cur1.update(i, gi).update(j, gj),
        ({
            let d = spec_isqrt(dist_sq(cur1[i], cur1[j]));
            if d == 0 {
                gi == cur1[i]
            } else {
                &&& gi.acceleration.x == clamp(cur1[i].acceleration.x + grav_accel(spec_mass(
                    cur1[j]), cur1[j].position.x - cur1[i].position.x, d), A_MAX as int)
                &&& gi.acceleration.y == clamp(cur1[i].acceleration.y + grav_accel(spec_mass(
                    cur1[j]), cur1[j].position.y - cur1[i].position.y, d), A_MAX as int)
                &&& gi.acceleration.z == clamp(cur1[i].acceleration.z + grav_accel(spec_mass(
                    cur1[j]), cur1[j].position.z - cur1[i].position.z, d), A_MAX as int)
                &&& gi.position == cur1[i].position
                &&& gi.velocity == cur1[i].velocity
                &&& gi.radius == cur1[i].radius
                &&& gi.density == cur1[i].density
                &&& gi.element == cur1[i].element
            }
        }),
        ({
            let d = spec_isqrt(dist_sq(cur1[j], gi));
            if d == 0 {
                gj == cur1[j]
            } else {
                &&& gj.acceleration.x == clamp(cur1[j].acceleration.x + grav_accel(spec_mass(gi),
                    gi.position.x - cur1[j].position.x, d), A_MAX as int)
                &&& gj.acceleration.y == clamp(cur1[j].acceleration.y + grav_accel(spec_mass(gi),
                    gi.position.y - cur1[j].position.y, d), A_MAX as int)
                &&& gj.acceleration.z == clamp(cur1[j].acceleration.z + grav_accel(spec_mass(gi),
                    gi.position.z - cur1[j].position.z, d), A_MAX as int)
                &&& gj.position == cur1[j].position
                &&& gj.velocity == cur1[j].velocity
                &&& gj.radius == cur1[j].radius
                &&& gj.density == cur1[j].density
                &&& gj.element == cur1[j].element
            }
        }),
    ensures
        nc_inv_inner(stepped, true, cur2, n, i, j + 1),
{
    lemma_grav_fold_bounded(stepped, i, j);
    lemma_grav_fold_bounded(stepped, j, i);
    lemma_same_geometry(cur1[i], cur1[j], stepped[i], stepped[j]);
    lemma_same_geometry(cur1[j], gi, stepped[j], stepped[i]);
    assert forall|k: int| 0 <= k < n implies #[trigger] cur2[k] == nc_expected(stepped, true, k,
        inner_cutoff(n, i, j + 1, k)) by {
        if k == i {
            assert(cur1[i] == nc_expected(stepped, true, i, j));
            assert(cur2[i] == gi);
            let d = spec_isqrt(dist_sq(stepped[i], stepped[j]));
            if d == 0 {
                assert(grav_fold_x(stepped, i, j + 1) == grav_fold_x(stepped, i, j));
                assert(grav_fold_y(stepped, i, j + 1) == grav_fold_y(stepped, i, j));
                assert(grav_fold_z(stepped, i, j + 1) == grav_fold_z(stepped, i, j));
            } else {
                assert(grav_fold_x(stepped, i, j + 1) == clamp(grav_fold_x(stepped, i, j)
                    + grav_accel(spec_mass(stepped[j]), stepped[j].position.x
                    - stepped[i].position.x, d), A_MAX as int));
            }
            assert(cur2[i] == nc_expected(stepped, true, i, j + 1));
        } else if k == j {
            assert(cur1[j] == nc_expected(stepped, true, j, i));
            assert(cur2[j] == gj);
            let d = spec_isqrt(dist_sq(stepped[j], stepped[i]));
            if d == 0 {
                assert(grav_fold_x(stepped, j, i + 1) == grav_fold_x(stepped, j, i));
                assert(grav_fold_y(stepped, j, i + 1) == grav_fold_y(stepped, j, i));
                assert(grav_fold_z(stepped, j, i + 1) == grav_fold_z(stepped, j, i));
            } else {
                assert(grav_fold_x(stepped, j, i + 1) == clamp(grav_fold_x(stepped, j, i)
                    + grav_accel(spec_mass(stepped[i]), stepped[i].position.x
                    - stepped[j].position.x, d), A_MAX as int));
            }
            assert(cur2[j] == nc_expected(stepped, true, j, i + 1));
        } else {
            assert(cur2[k] == cur1[k]);
            assert(inner_cutoff(n, i, j + 1, k) == inner_cutoff(n, i, j, k));
        }
    }
}

} // verus!
