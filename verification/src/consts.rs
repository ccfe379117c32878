//! The ambient constants of the simulation: the speed and acceleration
//! caps, the domain-size limit, the fixed-point stickiness scale, the
//! gravitational constant and the growth caps that keep every arithmetic
//! step of the engine inside `i64`.

use vstd::prelude::*;

verus! {

/// The "speed of light": every velocity component is clamped to
/// `[-C_CONST, C_CONST]` after each integration step.
pub const C_CONST: i64 = 30_000;

/// Cap on each acceleration component; gravitational accumulation
/// saturates here instead of growing without bound.
pub const A_MAX: i64 = 30_000;

/// Largest admissible side length of the simulation domain.
pub const MAX_DIM: i64 = 1_000_000;

/// Bound on the magnitude of every position component that the engine
/// works with; positions inside the domain stay far below it.
pub const POS_LIMIT: i64 = 2_000_000;

/// Stickiness is a fixed-point fraction of this scale: a stickiness of
/// `STICKINESS_SCALE` stands for 1.0.
pub const STICKINESS_SCALE: i64 = 1_000;

/// Numerator of the gravitational constant (10 over a damping factor of
/// 1.5, as a fraction in lowest terms).
pub const GRAV_NUM: i64 = 20;

/// Denominator of the gravitational constant.
pub const GRAV_DEN: i64 = 3;

/// Cap on the summed cubed radii of a particle population. Merging is
/// volume-additive, so the sum never grows and every radius stays below
/// the cube root of this cap.
pub const MAX_R3: i64 = 0x1000_0000_0000_0000;

/// Cap on the summed mass of a particle population. Merging never creates
/// mass, so the sum never grows.
pub const MAX_MASS: i64 = 0x4000_0000_0000_0000;

/// Largest admissible particle population.
pub const MAX_PARTICLES: usize = 1_000_000;

} // verus!
