//! The particle: position, velocity, acceleration, radius, density and an
//! element tag, with the pure transition functions of the engine —
//! integration, boundary reflection, collision detection, elastic and
//! sticky collision resolution, and gravitational accumulation. Every
//! transition returns a new particle; nothing is mutated in place.
//!
//! Physical model: elastic collisions exchange the two velocity vectors
//! (the idealised equal-mass policy); merges conserve momentum
//! (`v' = (v1*m1 + v2*m2)/(m1+m2)`, truncated) and conserve mass through
//! the recomputed density (`d' = (m1+m2)/volume'`), with the merged
//! radius the floor cube root of the summed cubed radii.

use vstd::prelude::*;
use crate::consts::{A_MAX, C_CONST, GRAV_DEN, GRAV_NUM, MAX_MASS, MAX_R3, POS_LIMIT,
    STICKINESS_SCALE};
use crate::element::{wf_element, Element};
use crate::math::{clamp, div_trunc, icbrt, isqrt, lemma_icbrt_bounds, lemma_isqrt_bounds,
    spec_icbrt, spec_isqrt, tdiv};
use crate::point::Point;

verus! {

pub struct Particle {
    pub position: Point,
    pub velocity: Point,
    pub acceleration: Point,
    pub radius: i64,
    pub density: i64,
    pub element: Element,
}

impl Clone for Particle {
    fn clone(&self) -> (r: Self)
        ensures
            r == *self,
    {
        Particle {
            position: self.position,
            velocity: self.velocity,
            acceleration: self.acceleration,
            radius: self.radius,
            density: self.density,
            element: self.element.clone(),
        }
    }
}

// ---------------------------------------------------------------------
// Validity
// ---------------------------------------------------------------------

/// The body of a particle is well formed when its element is well
/// formed, its velocity and acceleration respect the global caps, and
/// its radius and density are positive and within the growth caps.
pub open spec fn wf_body(p: Particle) -> bool {
    &&& wf_element(p.element)
    &&& -C_CONST <= p.velocity.x <= C_CONST
    &&& -C_CONST <= p.velocity.y <= C_CONST
    &&& -C_CONST <= p.velocity.z <= C_CONST
    &&& -A_MAX <= p.acceleration.x <= A_MAX
    &&& -A_MAX <= p.acceleration.y <= A_MAX
    &&& -A_MAX <= p.acceleration.z <= A_MAX
    &&& 1 <= p.radius
    &&& p.radius * p.radius * p.radius <= MAX_R3
    &&& 1 <= p.density
    &&& p.density * (p.radius * p.radius * p.radius) <= MAX_MASS
}

/// Position components within the engine's working range.
pub open spec fn pos_bounded(p: Particle) -> bool {
    &&& -POS_LIMIT <= p.position.x <= POS_LIMIT
    &&& -POS_LIMIT <= p.position.y <= POS_LIMIT
    &&& -POS_LIMIT <= p.position.z <= POS_LIMIT
}

/// Position inside the domain box: `x` across the width, `y` along the
/// length, `z` up the height.
pub open spec fn in_box(p: Particle, height: int, width: int, length: int) -> bool {
    &&& 0 <= p.position.z <= height
    &&& 0 <= p.position.x <= width
    &&& 0 <= p.position.y <= length
}

// ---------------------------------------------------------------------
// Spec-level models of the transitions
// ---------------------------------------------------------------------

/// The cubed radius: the particle's volume, in units where the sphere
/// constant is 1.
pub open spec fn spec_volume(p: Particle) -> int {
    p.radius * p.radius * p.radius
}

/// Mass is density times volume.
pub open spec fn spec_mass(p: Particle) -> int {
    p.density * spec_volume(p)
}

/// The squared distance between the centres of two particles.
pub open spec fn dist_sq(a: Particle, b: Particle) -> int {
    (b.position.x - a.position.x) * (b.position.x - a.position.x)
        + (b.position.y - a.position.y) * (b.position.y - a.position.y)
        + (b.position.z - a.position.z) * (b.position.z - a.position.z)
}

/// Two particles collide when their centres are strictly closer than
/// their summed radii.
pub open spec fn spec_did_collide(a: Particle, b: Particle) -> bool {
    dist_sq(a, b) < (a.radius + b.radius) * (a.radius + b.radius)
}

/// The semi-implicit Euler step: position advances by the pre-step
/// velocity, then velocity advances by the acceleration and is clamped
/// to the speed cap.
pub open spec fn spec_integrate(p: Particle) -> Particle {
    Particle {
        position: Point {
            x: (p.position.x + p.velocity.x) as i64,
            y: (p.position.y + p.velocity.y) as i64,
            z: (p.position.z + p.velocity.z) as i64,
        },
        velocity: Point {
            x: clamp(p.velocity.x + p.acceleration.x, C_CONST as int) as i64,
            y: clamp(p.velocity.y + p.acceleration.y, C_CONST as int) as i64,
            z: clamp(p.velocity.z + p.acceleration.z, C_CONST as int) as i64,
        },
        acceleration: p.acceleration,
        radius: p.radius,
        density: p.density,
        element: p.element,
    }
}

/// Reflection on one axis: the position is clamped into `[0, bound]`.
pub open spec fn reflect_pos(pos: int, bound: int) -> int {
    if pos > bound {
        bound
    } else if pos < 0 {
        0
    } else {
        pos
    }
}

/// Reflection on one axis: the velocity component is negated when the
/// position lay outside `[0, bound]`.
pub open spec fn reflect_vel(pos: int, vel: int, bound: int) -> int {
    if pos > bound || pos < 0 {
        -vel
    } else {
        vel
    }
}

/// Reflection at all six domain walls; the axes are corrected
/// independently against the pre-call position.
pub open spec fn spec_reflect(p: Particle, height: int, width: int, length: int) -> Particle {
    Particle {
        position: Point {
            x: reflect_pos(p.position.x as int, width) as i64,
            y: reflect_pos(p.position.y as int, length) as i64,
            z: reflect_pos(p.position.z as int, height) as i64,
        },
        velocity: Point {
            x: reflect_vel(p.position.x as int, p.velocity.x as int, width) as i64,
            y: reflect_vel(p.position.y as int, p.velocity.y as int, length) as i64,
            z: reflect_vel(p.position.z as int, p.velocity.z as int, height) as i64,
        },
        acceleration: p.acceleration,
        radius: p.radius,
        density: p.density,
        element: p.element,
    }
}

/// Does a draw from `[0, STICKINESS_SCALE)` make a colliding pair merge?
/// The asymmetric weighting (only the second stickiness is halved) is
/// the engine's policy, kept as it stands.
pub open spec fn spec_sticks(s1: int, s2: int, draw: int) -> bool {
    draw > s1 + s2 / 2
}

/// The gravitational acceleration contribution along one axis, from a
/// body of mass `m` at component distance `delta` and full distance `d`.
pub open spec fn grav_accel(m: int, delta: int, d: int) -> int {
    tdiv(GRAV_NUM * m * delta, GRAV_DEN * (d * d * d))
}

// ---------------------------------------------------------------------
// Laws
// ---------------------------------------------------------------------

/// A well-formed particle has positive volume and mass.
pub proof fn lemma_wf_positive(p: Particle)
    requires
        wf_body(p),
    ensures
        spec_volume(p) >= 1,
        spec_mass(p) >= 1,
{
    assert(p.radius * p.radius * p.radius >= 1) by (nonlinear_arith)
        requires
            p.radius >= 1,
    ;
    assert(p.density * (p.radius * p.radius * p.radius) >= 1) by (nonlinear_arith)
        requires
            p.density >= 1,
            p.radius * p.radius * p.radius >= 1,
    ;
}

/// The squared distance is a sum of squares, so it is never negative.
pub proof fn lemma_dist_sq_nonneg(a: Particle, b: Particle)
    ensures
        dist_sq(a, b) >= 0,
{
    let ux: int = b.position.x - a.position.x;
    let uy: int = b.position.y - a.position.y;
    let uz: int = b.position.z - a.position.z;
    assert(ux * ux >= 0 && uy * uy >= 0 && uz * uz >= 0) by (nonlinear_arith);
    assert(dist_sq(a, b) == ux * ux + uy * uy + uz * uz);
}

/// Collision detection is symmetric: the pair collides seen from either
/// side.
pub proof fn lemma_did_collide_symmetric(a: Particle, b: Particle)
    ensures
        spec_did_collide(a, b) == spec_did_collide(b, a),
{
    let ux: int = b.position.x - a.position.x;
    let uy: int = b.position.y - a.position.y;
    let uz: int = b.position.z - a.position.z;
    assert((-ux) * (-ux) == ux * ux && (-uy) * (-uy) == uy * uy && (-uz) * (-uz) == uz * uz)
        by (nonlinear_arith);
    assert(dist_sq(a, b) == ux * ux + uy * uy + uz * uz);
    assert(dist_sq(b, a) == (-ux) * (-ux) + (-uy) * (-uy) + (-uz) * (-uz));
    let s: int = a.radius + b.radius;
    assert((a.radius + b.radius) * (a.radius + b.radius) == s * s);
    assert((b.radius + a.radius) * (b.radius + a.radius) == s * s);
}

/// Boundary reflection is idempotent: one pass already places the
/// position inside the box with the velocity pointing inward, so a
/// second pass changes nothing.
pub proof fn lemma_reflect_idempotent(p: Particle, height: int, width: int, length: int)
    requires
        0 <= height <= i64::MAX,
        0 <= width <= i64::MAX,
        0 <= length <= i64::MAX,
        wf_body(p),
    ensures
        in_box(spec_reflect(p, height, width, length), height, width, length),
        spec_reflect(spec_reflect(p, height, width, length), height, width, length)
            == spec_reflect(p, height, width, length),
{
    let q = spec_reflect(p, height, width, length);
    assert(0 <= q.position.x <= width);
    assert(0 <= q.position.y <= length);
    assert(0 <= q.position.z <= height);
}

// ---------------------------------------------------------------------
// The outside randomness
// ---------------------------------------------------------------------

/// Relies on `rand::random_range`: a uniform draw from the half-open
/// integer range `lo..hi`, which panics only on an empty range; whatever
/// the randomness, the result lies in the range.
#[verifier::external_body]
fn rand_range(lo: i64, hi: i64) -> (r: i64)
    requires
        lo < hi,
    ensures
        lo <= r < hi,
{
    rand::random_range(lo..hi)
}

// ---------------------------------------------------------------------
// The particle API
// ---------------------------------------------------------------------

impl Particle {
    /// A freshly seeded particle: at rest at the given position, with a
    /// randomly drawn radius, unit density and the hydrogen tag.
    fn random_particle(x: i64, y: i64, z: i64) -> (r: Particle)
        ensures
            r.position == (Point { x, y, z }),
            r.velocity == (Point { x: 0i64, y: 0i64, z: 0i64 }),
            r.acceleration == (Point { x: 0i64, y: 0i64, z: 0i64 }),
            3 <= r.radius < 8,
            r.density == 1,
            r.element.name@ == "hydrogen"@,
            r.element.stickiness == 600,
            wf_body(r),
    {
        let radius = rand_range(3, 8);
        proof {
            assert(radius * radius * radius <= 343) by (nonlinear_arith)
                requires
                    1 <= radius <= 7,
            ;
        }
        Particle {
            position: Point { x, y, z },
            velocity: Point::default(),
            acceleration: Point::default(),
            density: 1,
            radius,
            element: Element::hydrogen(),
        }
    }

    /// Mass, in units of the cubed radius.
    pub fn mass(&self) -> (r: i64)
        requires
            wf_body(*self),
        ensures
            r == spec_mass(*self),
            1 <= r <= MAX_MASS,
    {
        let vol = self.volume();
        proof {
            assert(self.density * vol >= 1) by (nonlinear_arith)
                requires
                    self.density >= 1,
                    vol >= 1,
            ;
        }
        self.density * vol
    }

    /// Volume, in units where the sphere constant is 1: the cubed radius.
    pub fn volume(&self) -> (r: i64)
        requires
            wf_body(*self),
        ensures
            r == spec_volume(*self),
            1 <= r <= MAX_R3,
    {
        proof {
            lemma_radius_bounds(self.radius as int);
            assert(self.radius * self.radius * self.radius >= 1) by (nonlinear_arith)
                requires
                    self.radius >= 1,
            ;
        }
        self.radius * self.radius * self.radius
    }

    pub fn low_energy_hydrogen(x: i64, y: i64, z: i64) -> (r: Particle)
        ensures
            r.position == (Point { x, y, z }),
            r.velocity == (Point { x: 0i64, y: 0i64, z: 0i64 }),
            r.acceleration == (Point { x: 0i64, y: 0i64, z: 0i64 }),
            3 <= r.radius < 8,
            r.density == 1,
            r.element.name@ == "hydrogen"@,
            r.element.stickiness == 600,
            wf_body(r),
    {
        Particle::random_particle(x, y, z)
    }

    pub fn low_energy_oxygen(x: i64, y: i64, z: i64) -> (r: Particle)
        ensures
            r.position == (Point { x, y, z }),
            r.velocity == (Point { x: 0i64, y: 0i64, z: 0i64 }),
            r.acceleration == (Point { x: 0i64, y: 0i64, z: 0i64 }),
            3 <= r.radius < 8,
            r.density == 1,
            r.element.name@ == "oxygen"@,
            r.element.stickiness == 200,
            wf_body(r),
    {
        let mut part = Particle::random_particle(x, y, z);
        part.element = Element::oxygen();
        part
    }

    pub fn low_energy_carbon(x: i64, y: i64, z: i64) -> (r: Particle)
        ensures
            r.position == (Point { x, y, z }),
            r.velocity == (Point { x: 0i64, y: 0i64, z: 0i64 }),
            r.acceleration == (Point { x: 0i64, y: 0i64, z: 0i64 }),
            3 <= r.radius < 8,
            r.density == 1,
            r.element.name@ == "carbon"@,
            r.element.stickiness == 340,
            wf_body(r),
    {
        let mut part = Particle::random_particle(x, y, z);
        part.element = Element::carbon();
        part
    }

    /// Decide at run time whether the particle body is well formed.
    pub fn is_well_formed(&self) -> (r: bool)
        ensures
            r == wf_body(*self),
    {
        if !(0 <= self.element.stickiness && self.element.stickiness <= STICKINESS_SCALE) {
            return false;
        }
        if !(-C_CONST <= self.velocity.x && self.velocity.x <= C_CONST) {
            return false;
        }
        if !(-C_CONST <= self.velocity.y && self.velocity.y <= C_CONST) {
            return false;
        }
        if !(-C_CONST <= self.velocity.z && self.velocity.z <= C_CONST) {
            return false;
        }
        if !(-A_MAX <= self.acceleration.x && self.acceleration.x <= A_MAX) {
            return false;
        }
        if !(-A_MAX <= self.acceleration.y && self.acceleration.y <= A_MAX) {
            return false;
        }
        if !(-A_MAX <= self.acceleration.z && self.acceleration.z <= A_MAX) {
            return false;
        }
        if self.radius < 1 {
            return false;
        }
        if self.radius > 0x10_0000 {
            proof {
                assert(self.radius * self.radius * self.radius > 0x1000_0000_0000_0000int)
                    by (nonlinear_arith)
                    requires
                        self.radius >= 0x10_0001,
                ;
            }
            return false;
        }
        proof {
            assert(1 <= self.radius * self.radius <= 0x100_0000_0000int && 1 <= self.radius
                * self.radius * self.radius <= 0x1000_0000_0000_0000int) by (nonlinear_arith)
                requires
                    1 <= self.radius <= 0x10_0000,
            ;
        }
        let r3 = self.radius * self.radius * self.radius;
        if r3 > MAX_R3 {
            return false;
        }
        if self.density < 1 {
            return false;
        }
        proof {
            assert(1 <= (self.density as int) * (r3 as int)
                <= 0x7FFF_FFFF_FFFF_FFFF_F000_0000_0000_0000int) by (nonlinear_arith)
                requires
                    1 <= self.density <= 0x7FFF_FFFF_FFFF_FFFFint,
                    1 <= r3 <= 0x1000_0000_0000_0000int,
            ;
        }
        let m: i128 = (self.density as i128) * (r3 as i128);
        m <= MAX_MASS as i128
    }

    /// One integration step followed by boundary reflection.
    pub fn time_step_return(&self, height: i64, width: i64, length: i64) -> (r: Particle)
        requires
            wf_body(*self),
            pos_bounded(*self),
            0 <= height,
            0 <= width,
            0 <= length,
        ensures
            r == spec_reflect(spec_integrate(*self), height as int, width as int, length as int),
            wf_body(r),
            in_box(r, height as int, width as int, length as int),
    {
        let stepped = self.time_step();
        stepped.bounds_check(height, width, length)
    }

    /// One integration step without reflection.
    pub fn time_step(&self) -> (r: Particle)
        requires
            wf_body(*self),
            pos_bounded(*self),
        ensures
            r == spec_integrate(*self),
            wf_body(r),
            -POS_LIMIT - C_CONST <= r.position.x <= POS_LIMIT + C_CONST,
            -POS_LIMIT - C_CONST <= r.position.y <= POS_LIMIT + C_CONST,
            -POS_LIMIT - C_CONST <= r.position.z <= POS_LIMIT + C_CONST,
    {
        let mut to_return = self.clone();
        to_return.position = self.position.add(&self.velocity);
        to_return.velocity = self.velocity.add(&self.acceleration);
        if to_return.velocity.x > C_CONST {
            to_return.velocity.x = C_CONST;
        }
        if to_return.velocity.y > C_CONST {
            to_return.velocity.y = C_CONST;
        }
        if to_return.velocity.z > C_CONST {
            to_return.velocity.z = C_CONST;
        }
        if to_return.velocity.x < -C_CONST {
            to_return.velocity.x = -C_CONST;
        }
        if to_return.velocity.y < -C_CONST {
            to_return.velocity.y = -C_CONST;
        }
        if to_return.velocity.z < -C_CONST {
            to_return.velocity.z = -C_CONST;
        }
        to_return
    }

    /// The Euclidean distance between the centres, rounded down.
    pub fn distance(&self, other: &Particle) -> (r: i64)
        requires
            pos_bounded(*self),
            pos_bounded(*other),
        ensures
            r == spec_isqrt(dist_sq(*self, *other)),
            0 <= r <= 7_000_000,
    {
        let dx = other.position.x - self.position.x;
        let dy = other.position.y - self.position.y;
        let dz = other.position.z - self.position.z;
        proof {
            assert(0 <= dx * dx <= 16_000_000_000_000int && 0 <= dy * dy
                <= 16_000_000_000_000int && 0 <= dz * dz <= 16_000_000_000_000int)
                by (nonlinear_arith)
                requires
                    -4_000_000 <= dx <= 4_000_000,
                    -4_000_000 <= dy <= 4_000_000,
                    -4_000_000 <= dz <= 4_000_000,
            ;
        }
        let s: i64 = dx * dx + dy * dy + dz * dz;
        let r = isqrt(s as u64);
        proof {
            lemma_isqrt_bounds(s as int);
            assert(r <= 7_000_000) by (nonlinear_arith)
                requires
                    0 <= r,
                    (r as int) * (r as int) <= 48_000_000_000_000int,
            ;
        }
        r as i64
    }

    /// Collision test: centres strictly closer than the summed radii.
    pub fn did_collide(&self, other: &Particle) -> (r: bool)
        requires
            wf_body(*self),
            wf_body(*other),
            pos_bounded(*self),
            pos_bounded(*other),
        ensures
            r == spec_did_collide(*self, *other),
    {
        let d = self.distance(other);
        proof {
            lemma_radius_bounds(self.radius as int);
            lemma_radius_bounds(other.radius as int);
            lemma_dist_sq_nonneg(*self, *other);
            crate::math::lemma_isqrt_cmp(dist_sq(*self, *other), self.radius + other.radius);
        }
        d < self.radius + other.radius
    }

    /// The deterministic core of the sticking decision: does the given
    /// draw make this pair merge?
    pub fn would_stick(&self, other: &Particle, draw: i64) -> (r: bool)
        requires
            wf_element(self.element),
            wf_element(other.element),
        ensures
            r == spec_sticks(self.element.stickiness as int, other.element.stickiness as int,
                draw as int),
    {
        draw > self.element.stickiness + other.element.stickiness / 2
    }

    /// The stochastic sticking decision: a fresh uniform draw fed to
    /// [`Particle::would_stick`]. Some draw from the scale explains
    /// whatever comes back.
    pub fn will_stick(&self, other: &Particle) -> (r: bool)
        requires
            wf_element(self.element),
            wf_element(other.element),
        ensures
            exists|draw: int|
                0 <= draw < STICKINESS_SCALE && r == spec_sticks(self.element.stickiness as int,
                    other.element.stickiness as int, draw),
    {
        let draw = rand_range(0, STICKINESS_SCALE);
        let r = self.would_stick(other, draw);
        proof {
            let d = draw as int;
            assert(0 <= d < STICKINESS_SCALE && r == spec_sticks(self.element.stickiness as int,
                other.element.stickiness as int, d));
        }
        r
    }

    /// Merge two colliding particles into one composite particle: the
    /// position of the larger body, momentum-conserving velocity,
    /// volume-additive radius, mass-conserving density, capped summed
    /// acceleration, combined element.
    pub fn sticky_collision(&self, other: &Particle) -> (r: Particle)
        requires
            wf_body(*self),
            wf_body(*other),
            spec_volume(*self) + spec_volume(*other) <= MAX_R3,
            spec_mass(*self) + spec_mass(*other) <= MAX_MASS,
        ensures
            r.position == (if self.radius > other.radius {
                self.position
            } else {
                other.position
            }),
            r.radius == spec_icbrt(spec_volume(*self) + spec_volume(*other)),
            r.velocity.x == tdiv(self.velocity.x * spec_mass(*self) + other.velocity.x * spec_mass(
                *other), spec_mass(*self) + spec_mass(*other)),
            r.velocity.y == tdiv(self.velocity.y * spec_mass(*self) + other.velocity.y * spec_mass(
                *other), spec_mass(*self) + spec_mass(*other)),
            r.velocity.z == tdiv(self.velocity.z * spec_mass(*self) + other.velocity.z * spec_mass(
                *other), spec_mass(*self) + spec_mass(*other)),
            r.acceleration.x == clamp(self.acceleration.x + other.acceleration.x, A_MAX as int),
            r.acceleration.y == clamp(self.acceleration.y + other.acceleration.y, A_MAX as int),
            r.acceleration.z == clamp(self.acceleration.z + other.acceleration.z, A_MAX as int),
            r.density == (spec_mass(*self) + spec_mass(*other)) / spec_volume(r),
            r.element.name@ == self.element.name@ + "-"@ + other.element.name@,
            r.element.stickiness == (self.element.stickiness + other.element.stickiness) / 2,
            r.element.color@[0] == (self.element.color@[0] + other.element.color@[0]) / 2,
            r.element.color@[1] == (self.element.color@[1] + other.element.color@[1]) / 2,
            r.element.color@[2] == (self.element.color@[2] + other.element.color@[2]) / 2,
            wf_body(r),
            spec_volume(r) <= spec_volume(*self) + spec_volume(*other),
            spec_mass(r) <= spec_mass(*self) + spec_mass(*other),
    {
        let m1 = self.mass();
        let m2 = other.mass();
        let msum = m1 + m2;
        let vol1 = self.volume();
        let vol2 = other.volume();
        let vsum = vol1 + vol2;

        proof {
            lemma_new_radius_bounds(vsum as int);
        }
        let new_radius = icbrt(vsum as u64) as i64;
        proof {
            assert(1 <= new_radius * new_radius <= 0x100_0000_0000int && 1 <= new_radius
                * new_radius * new_radius <= 0x1000_0000_0000_0000int) by (nonlinear_arith)
                requires
                    1 <= new_radius <= 0x10_0000,
            ;
        }
        let new_volume = new_radius * new_radius * new_radius;
        let new_density = ((msum as u64) / (new_volume as u64)) as i64;
        proof {
            lemma_merge_density_bounds(msum as int, new_volume as int, vsum as int, m1 as int,
                m2 as int, vol1 as int, vol2 as int, self.density as int, other.density as int);
        }

        let vx = Self::merge_velocity(self.velocity.x, m1, other.velocity.x, m2);
        let vy = Self::merge_velocity(self.velocity.y, m1, other.velocity.y, m2);
        let vz = Self::merge_velocity(self.velocity.z, m1, other.velocity.z, m2);

        Particle {
            position: if self.radius > other.radius { self.position } else { other.position },
            velocity: Point { x: vx, y: vy, z: vz },
            radius: new_radius,
            acceleration: Point {
                x: clamp_cap(self.acceleration.x, other.acceleration.x, A_MAX),
                y: clamp_cap(self.acceleration.y, other.acceleration.y, A_MAX),
                z: clamp_cap(self.acceleration.z, other.acceleration.z, A_MAX),
            },
            density: new_density,
            element: self.element.combine(&other.element),
        }
    }

    /// The momentum-conserving velocity of a merged pair, one component
    /// at a time.
    fn merge_velocity(v1: i64, m1: i64, v2: i64, m2: i64) -> (r: i64)
        requires
            -C_CONST <= v1 <= C_CONST,
            -C_CONST <= v2 <= C_CONST,
            1 <= m1,
            1 <= m2,
            m1 + m2 <= MAX_MASS,
        ensures
            r == tdiv(v1 * m1 + v2 * m2, m1 + m2),
            -C_CONST <= r <= C_CONST,
    {
        proof {
            let vv1 = v1 as int;
            let vv2 = v2 as int;
            let mm1 = m1 as int;
            let mm2 = m2 as int;
            assert(-(30_000 * mm1) <= vv1 * mm1 <= 30_000 * mm1 && -(30_000 * mm2) <= vv2 * mm2
                <= 30_000 * mm2) by (nonlinear_arith)
                requires
                    -30_000 <= vv1 <= 30_000,
                    -30_000 <= vv2 <= 30_000,
                    1 <= mm1,
                    1 <= mm2,
            ;
            assert(30_000 * mm1 + 30_000 * mm2 == 30_000 * (mm1 + mm2));
        }
        let num: i128 = (v1 as i128) * (m1 as i128) + (v2 as i128) * (m2 as i128);
        let den: i128 = (m1 as i128) + (m2 as i128);
        proof {
            crate::math::lemma_tdiv_bound(num as int, den as int, 30_000int);
        }
        let q = div_trunc(num, den);
        q as i64
    }

    /// Reflect the particle at the six walls of the domain box. The axes
    /// are checked independently against the pre-call position; a
    /// particle can be corrected on more than one axis in one call.
    pub fn bounds_check(&self, height: i64, width: i64, length: i64) -> (r: Particle)
        requires
            wf_body(*self),
            0 <= height,
            0 <= width,
            0 <= length,
        ensures
            r == spec_reflect(*self, height as int, width as int, length as int),
            wf_body(r),
            in_box(r, height as int, width as int, length as int),
    {
        let mut return_particle = self.clone();

        if self.position.z > height {
            return_particle.position.z = height;
            return_particle.velocity.z = -self.velocity.z;
        }
        if self.position.y > length {
            return_particle.position.y = length;
            return_particle.velocity.y = -self.velocity.y;
        }
        if self.position.x > width {
            return_particle.position.x = width;
            return_particle.velocity.x = -self.velocity.x;
        }
        if self.position.z < 0 {
            return_particle.position.z = 0;
            return_particle.velocity.z = -self.velocity.z;
        }
        if self.position.x < 0 {
            return_particle.position.x = 0;
            return_particle.velocity.x = -self.velocity.x;
        }
        if self.position.y < 0 {
            return_particle.position.y = 0;
            return_particle.velocity.y = -self.velocity.y;
        }
        return_particle
    }

    /// Resolve an elastic collision: the two velocity vectors are
    /// exchanged outright (the idealised equal-mass policy), everything
    /// else is unchanged.
    pub fn elastic_collision(&self, other: &Particle) -> (r: (Particle, Particle))
        ensures
            r.0.velocity == other.velocity,
            r.1.velocity == self.velocity,
            r.0.position == self.position,
            r.0.acceleration == self.acceleration,
            r.0.radius == self.radius,
            r.0.density == self.density,
            r.0.element == self.element,
            r.1.position == other.position,
            r.1.acceleration == other.acceleration,
            r.1.radius == other.radius,
            r.1.density == other.density,
            r.1.element == other.element,
            wf_body(*self) && wf_body(*other) ==> wf_body(r.0) && wf_body(r.1),
    {
        let mut particle1 = self.clone();
        particle1.velocity = other.velocity;
        let mut particle2 = other.clone();
        particle2.velocity = self.velocity;
        (particle1, particle2)
    }

    /// Accumulate onto this particle's acceleration the gravitational
    /// pull that `other` exerts on it, inverse-square in the distance;
    /// coincident centres contribute nothing. Each component saturates
    /// at the acceleration cap.
    pub fn gravitate(&self, other: &Particle) -> (r: Particle)
        requires
            wf_body(*self),
            wf_body(*other),
            pos_bounded(*self),
            pos_bounded(*other),
        ensures
            ({
                let d = spec_isqrt(dist_sq(*self, *other));
                if d == 0 {
                    r == *self
                } else {
                    &&& r.acceleration.x == clamp(self.acceleration.x + grav_accel(spec_mass(
                        *other), other.position.x - self.position.x, d), A_MAX as int)
                    &&& r.acceleration.y == clamp(self.acceleration.y + grav_accel(spec_mass(
                        *other), other.position.y - self.position.y, d), A_MAX as int)
                    &&& r.acceleration.z == clamp(self.acceleration.z + grav_accel(spec_mass(
                        *other), other.position.z - self.position.z, d), A_MAX as int)
                    &&& r.position == self.position
                    &&& r.velocity == self.velocity
                    &&& r.radius == self.radius
                    &&& r.density == self.density
                    &&& r.element == self.element
                }
            }),
            wf_body(r),
    {
        let d = self.distance(other);
        if d == 0 {
            return self.clone();
        }
        let m = other.mass() as i128;
        let d128 = d as i128;
        proof {
            assert(1 <= d128 * d128 <= 49_000_000_000_000int && 1 <= d128 * d128 * d128
                <= 343_000_000_000_000_000_000int) by (nonlinear_arith)
                requires
                    1 <= d128 <= 7_000_000,
            ;
        }
        let den: i128 = (GRAV_DEN as i128) * (d128 * d128 * d128);
        let gx = Self::grav_component(m, (other.position.x - self.position.x) as i128, den);
        let gy = Self::grav_component(m, (other.position.y - self.position.y) as i128, den);
        let gz = Self::grav_component(m, (other.position.z - self.position.z) as i128, den);
        let ax = clamp_wide(self.acceleration.x, gx, A_MAX);
        let ay = clamp_wide(self.acceleration.y, gy, A_MAX);
        let az = clamp_wide(self.acceleration.z, gz, A_MAX);
        Particle {
            position: self.position,
            velocity: self.velocity,
            acceleration: Point { x: ax, y: ay, z: az },
            density: self.density,
            radius: self.radius,
            element: self.element.clone(),
        }
    }

    /// One axis of the gravitational term: `GRAV_NUM * m * delta` over
    /// the already-scaled cubed distance.
    fn grav_component(m: i128, delta: i128, den: i128) -> (r: i128)
        requires
            1 <= m <= MAX_MASS,
            -4_000_000 <= delta <= 4_000_000,
            1 <= den <= 1_029_000_000_000_000_000_000int,
        ensures
            r == tdiv(GRAV_NUM * m * delta, den as int),
            -368_934_881_474_191_032_320_000_000int <= r <= 368_934_881_474_191_032_320_000_000int,
    {
        proof {
            let mm = m as int;
            let dd = delta as int;
            assert(-368_934_881_474_191_032_320_000_000int <= 20 * mm * dd
                <= 368_934_881_474_191_032_320_000_000int) by (nonlinear_arith)
                requires
                    1 <= mm <= 0x4000_0000_0000_0000int,
                    -4_000_000 <= dd <= 4_000_000,
            ;
        }
        let num: i128 = (GRAV_NUM as i128) * m * delta;
        proof {
            crate::math::lemma_tdiv_magnitude(num as int, den as int);
        }
        div_trunc(num, den)
    }
}

/// The sum of two capped values, saturated at `cap`.
fn clamp_cap(a: i64, b: i64, cap: i64) -> (r: i64)
    requires
        0 < cap,
        2 * cap <= i64::MAX,
        -cap <= a <= cap,
        -cap <= b <= cap,
    ensures
        r == clamp(a + b, cap as int),
{
    let s = a + b;
    if s > cap {
        cap
    } else if s < -cap {
        -cap
    } else {
        s
    }
}

/// A capped value plus a wide contribution, saturated at `cap`.
fn clamp_wide(a: i64, g: i128, cap: i64) -> (r: i64)
    requires
        0 < cap,
        -cap <= a <= cap,
        i128::MIN < a as i128 + g <= i128::MAX,
    ensures
        r == clamp(a + g, cap as int),
{
    let s: i128 = (a as i128) + g;
    if s > cap as i128 {
        cap
    } else if s < -(cap as i128) {
        -cap
    } else {
        s as i64
    }
}

/// A well-formed radius is at most 2^20, so its square and cube stay
/// comfortably inside `i64`.
pub proof fn lemma_radius_bounds(r: int)
    requires
        1 <= r,
        r * r * r <= MAX_R3,
    ensures
        r <= 0x10_0000,
        r * r <= 0x100_0000_0000int,
{
    if r > 0x10_0000 {
        assert(r * r * r > 0x1000_0000_0000_0000int) by (nonlinear_arith)
            requires
                r >= 0x10_0001,
        ;
    }
    assert(r * r <= 0x100_0000_0000int) by (nonlinear_arith)
        requires
            1 <= r <= 0x10_0000,
    ;
}

/// The floor cube root of a summed volume within the growth cap is a
/// well-formed radius.
proof fn lemma_new_radius_bounds(s: int)
    requires
        2 <= s <= MAX_R3,
    ensures
        1 <= spec_icbrt(s) <= 0x10_0000,
        spec_icbrt(s) * spec_icbrt(s) * spec_icbrt(s) <= s,
{
    lemma_icbrt_bounds(s);
    let r = spec_icbrt(s);
    assert(r >= 1);
    if r > 0x10_0000 {
        assert(r * r * r > 0x1000_0000_0000_0000int) by (nonlinear_arith)
            requires
                r >= 0x10_0001,
        ;
    }
}

/// The recomputed density of a merged particle is positive and keeps
/// the particle's mass under the summed mass of its parents.
proof fn lemma_merge_density_bounds(msum: int, vnew: int, vsum: int, m1: int, m2: int, vol1: int,
    vol2: int, d1: int, d2: int)
    requires
        m1 == d1 * vol1,
        m2 == d2 * vol2,
        msum == m1 + m2,
        1 <= d1,
        1 <= d2,
        1 <= vol1,
        1 <= vol2,
        vsum == vol1 + vol2,
        1 <= vnew <= vsum,
    ensures
        1 <= msum / vnew,
        (msum / vnew) * vnew <= msum,
{
    assert(vol1 <= m1 && vol2 <= m2) by (nonlinear_arith)
        requires
            m1 == d1 * vol1,
            m2 == d2 * vol2,
            1 <= d1,
            1 <= d2,
            1 <= vol1,
            1 <= vol2,
    ;
    assert(vnew <= msum);
    vstd::arithmetic::div_mod::lemma_div_is_ordered(vnew, msum, vnew);
    vstd::arithmetic::div_mod::lemma_div_by_self(vnew);
    vstd::arithmetic::div_mod::lemma_fundamental_div_mod(msum, vnew);
    vstd::arithmetic::mul::lemma_mul_is_commutative(msum / vnew, vnew);
    assert(msum % vnew >= 0) by {
        vstd::arithmetic::div_mod::lemma_mod_bound(msum, vnew);
    }
}

} // verus!
