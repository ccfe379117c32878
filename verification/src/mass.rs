//! A loose aggregate of particles stepped as one body, tracking the sum
//! of its particles' positions as its centre of gravity.

use vstd::prelude::*;
use crate::consts::{C_CONST, MAX_PARTICLES, POS_LIMIT};
use crate::particle::{pos_bounded, spec_integrate, wf_body, Particle};
use crate::point::Point;

verus! {

pub struct Mass {
    pub particles: Vec<Particle>,
    pub center_of_gravity: Point,
}

/// The summed `x` components of a particle sequence's positions.
pub open spec fn position_sum_x(s: Seq<Particle>) -> int
    decreases s.len(),
{
    if s.len() == 0 {
        0
    } else {
        position_sum_x(s.drop_last()) + s.last().position.x
    }
}

/// The summed `y` components of a particle sequence's positions.
pub open spec fn position_sum_y(s: Seq<Particle>) -> int
    decreases s.len(),
{
    if s.len() == 0 {
        0
    } else {
        position_sum_y(s.drop_last()) + s.last().position.y
    }
}

/// The summed `z` components of a particle sequence's positions.
pub open spec fn position_sum_z(s: Seq<Particle>) -> int
    decreases s.len(),
{
    if s.len() == 0 {
        0
    } else {
        position_sum_z(s.drop_last()) + s.last().position.z
    }
}

/// A mass is well formed when its population is within the cap and
/// every particle is well formed with a bounded position.
pub open spec fn wf_mass(m: Mass) -> bool {
    &&& m.particles@.len() <= MAX_PARTICLES
    &&& forall|i: int|
        0 <= i < m.particles@.len() ==> wf_body(#[trigger] m.particles@[i]) && pos_bounded(
            m.particles@[i])
}

/// `r` is `m` after one integration step of every particle, with the
/// centre of gravity recomputed over the stepped particles.
pub open spec fn is_mass_step(m: Mass, r: Mass) -> bool {
    &&& r.particles@.len() == m.particles@.len()
    &&& (forall|i: int|
        0 <= i < m.particles@.len() ==> r.particles@[i] == spec_integrate(
            #[trigger] m.particles@[i]))
    &&& r.center_of_gravity.x == position_sum_x(r.particles@)
    &&& r.center_of_gravity.y == position_sum_y(r.particles@)
    &&& r.center_of_gravity.z == position_sum_z(r.particles@)
}

impl Mass {
    /// Step every particle of the aggregate, then recompute the centre
    /// of gravity from the stepped positions.
    pub fn time_step(&self) -> (r: Mass)
        requires
            wf_mass(*self),
        ensures
            is_mass_step(*self, r),
            r.particles@.len() <= MAX_PARTICLES,
            forall|i: int| 0 <= i < r.particles@.len() ==> wf_body(#[trigger] r.particles@[i]),
    {
        let n = self.particles.len();
        let mut stepped: Vec<Particle> = Vec::new();
        let mut i: usize = 0;
        while i < n
            invariant
                i <= n,
                n == self.particles@.len() <= MAX_PARTICLES,
                stepped@.len() == i,
                forall|k: int|
                    0 <= k < n ==> wf_body(#[trigger] self.particles@[k]) && pos_bounded(
                        self.particles@[k]),
                forall|k: int|
                    0 <= k < i ==> stepped@[k] == spec_integrate(#[trigger] self.particles@[k]),
                forall|k: int|
                    0 <= k < i ==> wf_body(#[trigger] stepped@[k]) && -POS_LIMIT - C_CONST
                        <= stepped@[k].position.x <= POS_LIMIT + C_CONST && -POS_LIMIT - C_CONST
                        <= stepped@[k].position.y <= POS_LIMIT + C_CONST && -POS_LIMIT - C_CONST
                        <= stepped@[k].position.z <= POS_LIMIT + C_CONST,
            decreases n - i,
        {
            stepped.push(self.particles[i].time_step());
            i += 1;
        }
        let mut to_return = Mass { particles: stepped, center_of_gravity: Point::default() };
        let center = to_return.get_center_of_gravity();
        to_return.center_of_gravity = center;
        to_return
    }

    /// The sum of the positions of the particles, folded left to right.
    fn get_center_of_gravity(&self) -> (r: Point)
        requires
            self.particles@.len() <= MAX_PARTICLES,
            forall|k: int|
                0 <= k < self.particles@.len() ==> -POS_LIMIT - C_CONST <= (
                #[trigger] self.particles@[k]).position.x <= POS_LIMIT + C_CONST && -POS_LIMIT
                    - C_CONST <= self.particles@[k].position.y <= POS_LIMIT + C_CONST && -POS_LIMIT
                    - C_CONST <= self.particles@[k].position.z <= POS_LIMIT + C_CONST,
        ensures
            r.x == position_sum_x(self.particles@),
            r.y == position_sum_y(self.particles@),
            r.z == position_sum_z(self.particles@),
    {
        let n = self.particles.len();
        let mut acc = Point::default();
        let mut idx: usize = 0;
        while idx < n
            invariant
                idx <= n,
                n == self.particles@.len() <= MAX_PARTICLES,
                forall|k: int|
                    0 <= k < n ==> -POS_LIMIT - C_CONST <= (
                    #[trigger] self.particles@[k]).position.x <= POS_LIMIT + C_CONST && -POS_LIMIT
                        - C_CONST <= self.particles@[k].position.y <= POS_LIMIT + C_CONST
                        && -POS_LIMIT - C_CONST <= self.particles@[k].position.z <= POS_LIMIT
                        + C_CONST,
                acc.x == position_sum_x(self.particles@.take(idx as int)),
                acc.y == position_sum_y(self.particles@.take(idx as int)),
                acc.z == position_sum_z(self.particles@.take(idx as int)),
                -(idx * 2_030_000) <= acc.x <= idx * 2_030_000,
                -(idx * 2_030_000) <= acc.y <= idx * 2_030_000,
                -(idx * 2_030_000) <= acc.z <= idx * 2_030_000,
            decreases n - idx,
        {
            let p = &self.particles[idx];
            acc = acc.add(&p.position);
            proof {
                let s = self.particles@;
                assert(s.take(idx + 1).drop_last() =~= s.take(idx as int));
                assert(s.take(idx + 1).last() == s[idx as int]);
            }
            idx += 1;
        }
        proof {
            assert(self.particles@.take(n as int) =~= self.particles@);
        }
        acc
    }
}

} // verus!
