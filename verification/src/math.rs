//! Integer arithmetic for the engine: clamping, truncating division, and
//! floor square and cube roots with exact specifications.

use vstd::prelude::*;

verus! {

/// Clamp `v` to the symmetric interval `[-cap, cap]`.
pub open spec fn clamp(v: int, cap: int) -> int {
    if v > cap {
        cap
    } else if v < -cap {
        -cap
    } else {
        v
    }
}

/// Division truncated towards zero (the behaviour of `/` on machine
/// integers), defined for positive divisors.
pub open spec fn tdiv(a: int, b: int) -> int {
    if a >= 0 {
        a / b
    } else {
        -((-a) / b)
    }
}

/// The floor of the square root of `n` (0 for negative `n`).
pub open spec fn spec_isqrt(n: int) -> int
    decreases n,
{
    if n <= 0 {
        0
    } else {
        let r = spec_isqrt(n - 1);
        if (r + 1) * (r + 1) <= n {
            r + 1
        } else {
            r
        }
    }
}

/// The floor of the cube root of `n` (0 for negative `n`).
pub open spec fn spec_icbrt(n: int) -> int
    decreases n,
{
    if n <= 0 {
        0
    } else {
        let r = spec_icbrt(n - 1);
        if (r + 1) * (r + 1) * (r + 1) <= n {
            r + 1
        } else {
            r
        }
    }
}

/// `spec_isqrt(n)` really is the floor of the square root: its square is
/// at most `n` and the next square is beyond `n`.
pub proof fn lemma_isqrt_bounds(n: int)
    requires
        0 <= n,
    ensures
        0 <= spec_isqrt(n),
        spec_isqrt(n) * spec_isqrt(n) <= n,
        n < (spec_isqrt(n) + 1) * (spec_isqrt(n) + 1),
    decreases n,
{
    if n == 0 {
        assert(spec_isqrt(0) == 0);
    } else {
        lemma_isqrt_bounds(n - 1);
        let r = spec_isqrt(n - 1);
        if (r + 1) * (r + 1) <= n {
            assert(n - 1 < (r + 1) * (r + 1));
            assert(n == (r + 1) * (r + 1));
            assert(n < (r + 2) * (r + 2)) by (nonlinear_arith)
                requires
                    n == (r + 1) * (r + 1),
                    0 <= r,
            ;
        }
    }
}

/// A bracketing by consecutive squares pins the floor square root down.
pub proof fn lemma_isqrt_unique(n: int, r: int)
    requires
        0 <= n,
        0 <= r,
        r * r <= n,
        n < (r + 1) * (r + 1),
    ensures
        r == spec_isqrt(n),
{
    lemma_isqrt_bounds(n);
    let s = spec_isqrt(n);
    if r < s {
        assert((r + 1) * (r + 1) <= s * s) by (nonlinear_arith)
            requires
                0 <= r,
                r + 1 <= s,
        ;
    }
    if s < r {
        assert((s + 1) * (s + 1) <= r * r) by (nonlinear_arith)
            requires
                0 <= s,
                s + 1 <= r,
        ;
    }
}

/// `spec_icbrt(n)` really is the floor of the cube root.
pub proof fn lemma_icbrt_bounds(n: int)
    requires
        0 <= n,
    ensures
        0 <= spec_icbrt(n),
        spec_icbrt(n) * spec_icbrt(n) * spec_icbrt(n) <= n,
        n < (spec_icbrt(n) + 1) * (spec_icbrt(n) + 1) * (spec_icbrt(n) + 1),
    decreases n,
{
    if n == 0 {
        assert(spec_icbrt(0) == 0);
    } else {
        lemma_icbrt_bounds(n - 1);
        let r = spec_icbrt(n - 1);
        if (r + 1) * (r + 1) * (r + 1) <= n {
            assert(n - 1 < (r + 1) * (r + 1) * (r + 1));
            assert(n == (r + 1) * (r + 1) * (r + 1));
            assert(n < (r + 2) * (r + 2) * (r + 2)) by (nonlinear_arith)
                requires
                    n == (r + 1) * (r + 1) * (r + 1),
                    0 <= r,
            ;
        }
    }
}

/// A bracketing by consecutive cubes pins the floor cube root down.
pub proof fn lemma_icbrt_unique(n: int, r: int)
    requires
        0 <= n,
        0 <= r,
        r * r * r <= n,
        n < (r + 1) * (r + 1) * (r + 1),
    ensures
        r == spec_icbrt(n),
{
    lemma_icbrt_bounds(n);
    let s = spec_icbrt(n);
    if r < s {
        assert((r + 1) * (r + 1) * (r + 1) <= s * s * s) by (nonlinear_arith)
            requires
                0 <= r,
                r + 1 <= s,
        ;
    }
    if s < r {
        assert((s + 1) * (s + 1) * (s + 1) <= r * r * r) by (nonlinear_arith)
            requires
                0 <= s,
                s + 1 <= r,
        ;
    }
}

/// Comparing a floor square root against `s` is comparing the radicand
/// against `s` squared.
pub proof fn lemma_isqrt_cmp(n: int, s: int)
    requires
        0 <= n,
        0 <= s,
    ensures
        (spec_isqrt(n) < s) == (n < s * s),
{
    lemma_isqrt_bounds(n);
    let r = spec_isqrt(n);
    if r < s {
        assert((r + 1) * (r + 1) <= s * s) by (nonlinear_arith)
            requires
                0 <= r,
                r + 1 <= s,
        ;
    } else {
        assert(s * s <= r * r) by (nonlinear_arith)
            requires
                0 <= s,
                s <= r,
        ;
    }
}

/// A truncating quotient is bounded by any bound on the numerator that
/// is a multiple of the denominator.
pub proof fn lemma_tdiv_bound(a: int, b: int, c: int)
    requires
        1 <= b,
        0 <= c,
        -(c * b) <= a <= c * b,
    ensures
        -c <= tdiv(a, b) <= c,
{
    if a >= 0 {
        vstd::arithmetic::div_mod::lemma_div_pos_is_pos(a, b);
        vstd::arithmetic::div_mod::lemma_div_is_ordered(a, c * b, b);
        vstd::arithmetic::div_mod::lemma_div_by_multiple(c, b);
    } else {
        vstd::arithmetic::div_mod::lemma_div_pos_is_pos(-a, b);
        vstd::arithmetic::div_mod::lemma_div_is_ordered(-a, c * b, b);
        vstd::arithmetic::div_mod::lemma_div_by_multiple(c, b);
    }
}

/// A truncating quotient never exceeds the numerator in magnitude.
pub proof fn lemma_tdiv_magnitude(a: int, b: int)
    requires
        1 <= b,
    ensures
        a >= 0 ==> 0 <= tdiv(a, b) <= a,
        a < 0 ==> a <= tdiv(a, b) <= 0,
{
    if a >= 0 {
        vstd::arithmetic::div_mod::lemma_div_pos_is_pos(a, b);
        vstd::arithmetic::div_mod::lemma_div_nonincreasing(a, b);
    } else {
        vstd::arithmetic::div_mod::lemma_div_pos_is_pos(-a, b);
        vstd::arithmetic::div_mod::lemma_div_nonincreasing(-a, b);
    }
}

/// Floor square root of a machine integer, by binary search.
pub fn isqrt(n: u64) -> (r: u64)
    ensures
        r == spec_isqrt(n as int),
{
    let mut lo: u64 = 0;
    let mut hi: u64 = 0x1_0000_0000;
    proof {
        assert((0x1_0000_0000int) * (0x1_0000_0000int) > u64::MAX);
    }
    while lo + 1 < hi
        invariant
            0 <= lo < hi <= 0x1_0000_0000,
            lo * lo <= n,
            n < hi * hi,
        decreases hi - lo,
    {
        let mid: u64 = lo + (hi - lo) / 2;
        proof {
            assert((mid as int) * (mid as int) <= 0x1_0000_0000_0000_0000int) by (nonlinear_arith)
                requires
                    0 <= mid <= 0x1_0000_0000,
            ;
        }
        let sq: u128 = (mid as u128) * (mid as u128);
        if sq <= n as u128 {
            lo = mid;
        } else {
            hi = mid;
        }
    }
    proof {
        lemma_isqrt_unique(n as int, lo as int);
    }
    lo
}

/// Floor cube root of a machine integer, by binary search.
pub fn icbrt(n: u64) -> (r: u64)
    ensures
        r == spec_icbrt(n as int),
{
    let mut lo: u64 = 0;
    let mut hi: u64 = 0x40_0000;
    proof {
        assert((0x40_0000int) * (0x40_0000int) * (0x40_0000int) > u64::MAX);
    }
    while lo + 1 < hi
        invariant
            0 <= lo < hi <= 0x40_0000,
            lo * lo * lo <= n,
            n < hi * hi * hi,
        decreases hi - lo,
    {
        let mid: u64 = lo + (hi - lo) / 2;
        proof {
            assert((mid as int) * (mid as int) <= 0x10_0000_0000_0000int) by (nonlinear_arith)
                requires
                    0 <= mid <= 0x40_0000,
            ;
            assert((mid as int) * (mid as int) * (mid as int) <= 0x40_0000_0000_0000_0000int)
                by (nonlinear_arith)
                requires
                    0 <= mid <= 0x40_0000,
            ;
        }
        let cube: u128 = (mid as u128) * (mid as u128) * (mid as u128);
        if cube <= n as u128 {
            lo = mid;
        } else {
            hi = mid;
        }
    }
    proof {
        lemma_icbrt_unique(n as int, lo as int);
    }
    lo
}

/// Truncating division on wide integers, for a positive divisor.
pub fn div_trunc(a: i128, b: i128) -> (q: i128)
    requires
        0 < b,
        i128::MIN < a,
    ensures
        q == tdiv(a as int, b as int),
{
    if a >= 0 {
        let mag: u128 = (a as u128) / (b as u128);
        proof {
            vstd::arithmetic::div_mod::lemma_div_nonincreasing(a as int, b as int);
            vstd::arithmetic::div_mod::lemma_div_pos_is_pos(a as int, b as int);
        }
        mag as i128
    } else {
        let neg: u128 = (-a) as u128;
        let mag: u128 = neg / (b as u128);
        proof {
            vstd::arithmetic::div_mod::lemma_div_nonincreasing(neg as int, b as int);
            vstd::arithmetic::div_mod::lemma_div_pos_is_pos(neg as int, b as int);
        }
        -(mag as i128)
    }
}

} // verus!
