//! Evolutionary driving simulation: a closed track with ray-intersection
//! queries, fixed-point vehicle kinematics and sensing, small feed-forward
//! controllers, and a generational evolution loop over a population of agents.
//!
//! All quantities are fixed-point integers: a stored value `v` stands for the
//! real number `v / SCALE`.  Angles are integers modulo `ANGLE_FULL` (one
//! full turn), see the `trig` module.
use vstd::prelude::*;

pub mod math;
pub mod trig;
pub mod geom;
pub mod track;
pub mod rng;
pub mod nn;
pub mod vehicle;
pub mod agent;
pub mod evolution;

verus! {

/// Fixed-point scale: a stored value `v` represents the real `v / SCALE`.
pub const SCALE: i64 = 1024;

/// Truncating (toward zero) division by a positive divisor, as the
/// executable code computes it on signed values.
pub open spec fn tdiv(a: int, d: int) -> int {
    if a >= 0 {
        a / d
    } else {
        -((-a) / d)
    }
}

/// Clamp `v` into the closed interval `[lo, hi]`.
pub open spec fn spec_clamp(v: int, lo: int, hi: int) -> int {
    if v < lo {
        lo
    } else if v > hi {
        hi
    } else {
        v
    }
}

/// Absolute value.
pub open spec fn spec_abs(v: int) -> int {
    if v >= 0 {
        v
    } else {
        -v
    }
}

/// Divide by a positive divisor, truncating toward zero.
pub fn div_trunc(a: i64, d: i64) -> (r: i64)
    requires
        d > 0,
        a > i64::MIN,
    ensures
        r == tdiv(a as int, d as int),
        spec_abs(r as int) <= spec_abs(a as int),
{
    if a >= 0 {
        a / d
    } else {
        -((-a) / d)
    }
}

/// Compute `a * b / d` (truncating toward zero) through a wide intermediate.
pub fn mul_div(a: i64, b: i64, d: i64) -> (r: i64)
    requires
        d > 0,
        -0x7fff_ffff_ffff_ffff <= tdiv(a as int * b as int, d as int)
            <= 0x7fff_ffff_ffff_ffff,
    ensures
        r == tdiv(a as int * b as int, d as int),
{
    assert(-0x4000_0000_0000_0000_0000_0000_0000_0000
        <= (a as int) * (b as int)
        <= 0x4000_0000_0000_0000_0000_0000_0000_0000) by (nonlinear_arith)
        requires
            -0x8000_0000_0000_0000 <= a <= 0x7fff_ffff_ffff_ffff,
            -0x8000_0000_0000_0000 <= b <= 0x7fff_ffff_ffff_ffff,
    ;
    let p: i128 = a as i128 * b as i128;
    let q: i128 = if p >= 0 {
        p / (d as i128)
    } else {
        -((-p) / (d as i128))
    };
    assert(q == tdiv(a as int * b as int, d as int));
    q as i64
}

/// Compute `a * b / d` (truncating toward zero) and clamp the quotient
/// into `[lo, hi]`, all through a wide intermediate.
pub fn mul_div_clamp(a: i64, b: i64, d: i64, lo: i64, hi: i64) -> (r: i64)
    requires
        d > 0,
        lo <= hi,
    ensures
        r == spec_clamp(tdiv(a as int * b as int, d as int), lo as int, hi as int),
{
    assert(-0x4000_0000_0000_0000_0000_0000_0000_0000
        <= (a as int) * (b as int)
        <= 0x4000_0000_0000_0000_0000_0000_0000_0000) by (nonlinear_arith)
        requires
            -0x8000_0000_0000_0000 <= a <= 0x7fff_ffff_ffff_ffff,
            -0x8000_0000_0000_0000 <= b <= 0x7fff_ffff_ffff_ffff,
    ;
    let p: i128 = a as i128 * b as i128;
    let q: i128 = if p >= 0 {
        p / (d as i128)
    } else {
        -((-p) / (d as i128))
    };
    assert(q == tdiv(a as int * b as int, d as int));
    if q < lo as i128 {
        lo
    } else if q > hi as i128 {
        hi
    } else {
        q as i64
    }
}

/// A bound on a product carries over to the truncated quotient.
pub proof fn lemma_tdiv_bound(p: int, d: int, b: int)
    requires
        d > 0,
        b >= 0,
        -(b * d) <= p <= b * d,
    ensures
        -b <= tdiv(p, d) <= b,
{
    vstd::arithmetic::mul::lemma_mul_is_commutative(b, d);
    if p >= 0 {
        vstd::arithmetic::div_mod::lemma_multiply_divide_le(p, d, b);
        vstd::arithmetic::div_mod::lemma_div_pos_is_pos(p, d);
    } else {
        vstd::arithmetic::div_mod::lemma_multiply_divide_le(-p, d, b);
        vstd::arithmetic::div_mod::lemma_div_pos_is_pos(-p, d);
    }
}

/// Clamp `v` into `[lo, hi]`.
pub fn clamp(v: i64, lo: i64, hi: i64) -> (r: i64)
    requires
        lo <= hi,
    ensures
        r == spec_clamp(v as int, lo as int, hi as int),
{
    if v < lo {
        lo
    } else if v > hi {
        hi
    } else {
        v
    }
}

/// Absolute value of an `i64` above `i64::MIN`.
pub fn abs64(v: i64) -> (r: i64)
    requires
        v > i64::MIN,
    ensures
        r == spec_abs(v as int),
{
    if v >= 0 {
        v
    } else {
        -v
    }
}

} // verus!
