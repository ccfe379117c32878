//! A discrete-time N-body particle simulator over integer (fixed-point)
//! coordinates: spherical particles with position, velocity, radius and a
//! chemical element tag evolve under simple kinematics, pairwise collision
//! resolution (elastic bounces and sticky merges), boundary reflection and
//! optional gravitational attraction.
//!
//! All lengths (coordinates, radii, speeds) are measured in one integer
//! unit; stickiness is a fixed-point fraction scaled by
//! [`consts::STICKINESS_SCALE`]. Masses are measured in units of the cubed
//! radius: the sphere-volume constant is absorbed into the gravitational
//! constant.

pub mod consts;
pub mod element;
pub mod field;
pub mod mass;
pub mod math;
pub mod particle;
pub mod particle_field;
pub mod point;
pub mod render;
