//! Geometry for rasterising a frame: the pixel-space distance that
//! decides which pixels a particle's disc covers.

use vstd::prelude::*;
use crate::consts::MAX_DIM;
use crate::math::{isqrt, lemma_isqrt_bounds, spec_isqrt};

verus! {

/// The squared distance between two pixel coordinates.
pub open spec fn pixel_dist_sq(p1: (u32, u32), p2: (u32, u32)) -> int {
    (p1.0 - p2.0) * (p1.0 - p2.0) + (p1.1 - p2.1) * (p1.1 - p2.1)
}

/// The Euclidean distance between two pixel coordinates, rounded down.
pub fn distance(p1: (u32, u32), p2: (u32, u32)) -> (r: u32)
    requires
        p1.0 <= MAX_DIM,
        p1.1 <= MAX_DIM,
        p2.0 <= MAX_DIM,
        p2.1 <= MAX_DIM,
    ensures
        r == spec_isqrt(pixel_dist_sq(p1, p2)),
{
    let (x1, y1) = p1;
    let (x2, y2) = p2;
    let dx: i64 = x1 as i64 - x2 as i64;
    let dy: i64 = y1 as i64 - y2 as i64;
    proof {
        assert(0 <= dx * dx <= 1_000_000_000_000int && 0 <= dy * dy <= 1_000_000_000_000int)
            by (nonlinear_arith)
            requires
                -1_000_000 <= dx <= 1_000_000,
                -1_000_000 <= dy <= 1_000_000,
        ;
    }
    let s: u64 = (dx * dx + dy * dy) as u64;
    let r = isqrt(s);
    proof {
        lemma_isqrt_bounds(s as int);
        assert(r <= 2_000_000) by (nonlinear_arith)
            requires
                0 <= r,
                (r as int) * (r as int) <= 2_000_000_000_000int,
        ;
    }
    r as u32
}

} // verus!
