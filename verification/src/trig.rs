//! Fixed-point angles and trigonometry.
//!
//! An angle is an integer number of units, `ANGLE_FULL` units to a full
//! turn, kept normalized into `[0, ANGLE_FULL)`.  `sin_units` / `cos_units`
//! return fixed-point values in `[-SCALE, SCALE]`, using a quadratic
//! rational approximation of the half-wave that is exact at `0`, the
//! quarter turn and the half turn.  `pseudo_angle` is a monotone rational
//! angle measure used for the track's curvature estimate.
use vstd::prelude::*;
use vstd::arithmetic::div_mod::{
    lemma_div_pos_is_pos, lemma_multiply_divide_le, lemma_multiply_divide_lt,
};

verus! {

/// Angle units in a full turn.
pub const ANGLE_FULL: i64 = 16384;

/// Angle units in half a turn.
pub const ANGLE_HALF: i64 = 8192;

/// Angle units in a quarter turn.
pub const ANGLE_QUARTER: i64 = 4096;

/// Bring an angle that is less than one turn outside `[0, ANGLE_FULL)`
/// back into that interval.
pub open spec fn spec_norm_angle(a: int) -> int {
    if a < 0 {
        a + 16384
    } else if a >= 16384 {
        a - 16384
    } else {
        a
    }
}

/// Half-wave sine approximation: for `x` in `[0, ANGLE_HALF]` this is
/// `SCALE * sin(pi * x / ANGLE_HALF)` up to quantization, in `[0, SCALE]`.
pub open spec fn spec_sin_half(x: int) -> int {
    4096 * x * (8192 - x) / (83_886_080 - x * (8192 - x))
}

/// Fixed-point sine of a normalized angle, in `[-SCALE, SCALE]`.
pub open spec fn spec_sin(a: int) -> int {
    if a <= 8192 {
        spec_sin_half(a)
    } else {
        -spec_sin_half(a - 8192)
    }
}

/// Fixed-point cosine of a normalized angle, in `[-SCALE, SCALE]`.
pub open spec fn spec_cos(a: int) -> int {
    spec_sin(spec_norm_angle(a + 4096))
}

pub fn norm_angle(a: i64) -> (r: i64)
    requires
        -16384 <= a < 32768,
    ensures
        r == spec_norm_angle(a as int),
        0 <= r < 16384,
{
    if a < 0 {
        a + 16384
    } else if a >= 16384 {
        a - 16384
    } else {
        a
    }
}

fn sin_half(x: i64) -> (r: i64)
    requires
        0 <= x <= 8192,
    ensures
        r == spec_sin_half(x as int),
        0 <= r <= 1024,
{
    proof {
        assert(0 <= x * (8192 - x) <= 16_777_216) by (nonlinear_arith)
            requires
                0 <= x <= 8192,
        ;
    }
    let u: i64 = x * (8192 - x);
    let num: i64 = 4096 * u;
    let den: i64 = 83_886_080 - u;
    proof {
        assert(den >= 67_108_864);
        assert(num == 4096 * (x as int) * (8192 - x as int)) by (nonlinear_arith)
            requires
                u == (x as int) * (8192 - x as int),
                num == 4096 * (u as int),
        ;
        assert(num <= 1024 * den);
        lemma_div_pos_is_pos(num as int, den as int);
        lemma_multiply_divide_le(num as int, den as int, 1024);
    }
    num / den
}

/// Fixed-point sine of an angle in `[0, ANGLE_FULL)`.
pub fn sin_units(a: i64) -> (r: i64)
    requires
        0 <= a < 16384,
    ensures
        r == spec_sin(a as int),
        -1024 <= r <= 1024,
{
    if a <= 8192 {
        sin_half(a)
    } else {
        -sin_half(a - 8192)
    }
}

/// Fixed-point cosine of an angle in `[0, ANGLE_FULL)`.
pub fn cos_units(a: i64) -> (r: i64)
    requires
        0 <= a < 16384,
    ensures
        r == spec_cos(a as int),
        -1024 <= r <= 1024,
{
    sin_units(norm_angle(a + 4096))
}

/// Monotone "diamond" angle measure of a vector, in `[0, 4 * SCALE)`,
/// growing counterclockwise; `0` for the zero vector.  A quarter turn is
/// `SCALE` units of the measure.
pub open spec fn spec_pseudo_angle(dx: int, dy: int) -> int {
    if dx == 0 && dy == 0 {
        0
    } else if dx >= 0 && dy >= 0 {
        1024 * dy / (dx + dy)
    } else if dx < 0 && dy >= 0 {
        1024 + 1024 * (-dx) / ((-dx) + dy)
    } else if dx < 0 {
        2048 + 1024 * (-dy) / ((-dx) + (-dy))
    } else {
        3072 + 1024 * dx / (dx + (-dy))
    }
}

pub fn pseudo_angle(dx: i64, dy: i64) -> (r: i64)
    requires
        -0x1_0000_0000 <= dx <= 0x1_0000_0000,
        -0x1_0000_0000 <= dy <= 0x1_0000_0000,
    ensures
        r == spec_pseudo_angle(dx as int, dy as int),
        0 <= r < 4096,
{
    if dx == 0 && dy == 0 {
        0
    } else if dx >= 0 && dy >= 0 {
        let den: i64 = dx + dy;
        proof {
            lemma_div_pos_is_pos(1024 * dy, den as int);
            lemma_multiply_divide_le(1024 * dy, den as int, 1024);
        }
        (1024 * dy) / den
    } else if dx < 0 && dy >= 0 {
        let den: i64 = (-dx) + dy;
        proof {
            lemma_div_pos_is_pos(1024 * (-dx as int), den as int);
            lemma_multiply_divide_le(1024 * (-dx as int), den as int, 1024);
        }
        1024 + (1024 * (-dx)) / den
    } else if dx < 0 {
        let den: i64 = (-dx) + (-dy);
        proof {
            lemma_div_pos_is_pos(1024 * (-dy as int), den as int);
            assert(1024 * (-dy as int) < den as int * 1024) by (nonlinear_arith)
                requires
                    dx < 0,
                    dy < 0,
                    den == (-dx as int) + (-dy as int),
            ;
            lemma_multiply_divide_lt(1024 * (-dy as int), den as int, 1024);
        }
        2048 + (1024 * (-dy)) / den
    } else {
        let den: i64 = dx + (-dy);
        proof {
            lemma_div_pos_is_pos(1024 * dx, den as int);
            assert(1024 * dx < den as int * 1024) by (nonlinear_arith)
                requires
                    dx >= 0,
                    dy < 0,
                    den == dx + (-dy as int),
            ;
            lemma_multiply_divide_lt(1024 * dx, den as int, 1024);
        }
        3072 + (1024 * dx) / den
    }
}

/// Signed difference of two pseudo-angles, wrapped into
/// `(-2 * SCALE, 2 * SCALE]` (half a turn each way).
pub open spec fn spec_pseudo_diff(pa: int, pb: int) -> int {
    let d = pa - pb;
    if d > 2048 {
        d - 4096
    } else if d <= -2048 {
        d + 4096
    } else {
        d
    }
}

pub fn pseudo_diff(pa: i64, pb: i64) -> (r: i64)
    requires
        0 <= pa < 4096,
        0 <= pb < 4096,
    ensures
        r == spec_pseudo_diff(pa as int, pb as int),
        -2048 < r <= 2048,
{
    let d: i64 = pa - pb;
    if d > 2048 {
        d - 4096
    } else if d <= -2048 {
        d + 4096
    } else {
        d
    }
}

} // verus!
