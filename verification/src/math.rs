//! Integer root helpers used by the track's boundary-offset damping.
use vstd::prelude::*;

verus! {

/// Tenth power of a nonnegative integer.
pub open spec fn pow10(r: int) -> int {
    r * r * r * r * r * r * r * r * r * r
}

/// Squaring is monotone on nonnegative integers.
pub proof fn lemma_sq_le(a: int, b: int)
    requires
        0 <= a <= b,
    ensures
        a * a <= b * b,
        0 <= a * a,
{
    assert(a * a <= b * b && 0 <= a * a) by (nonlinear_arith)
        requires
            0 <= a <= b,
    ;
}

/// Tenth powers are monotone on nonnegative integers.
pub proof fn lemma_pow10_le(a: int, b: int)
    requires
        0 <= a <= b,
    ensures
        pow10(a) <= pow10(b),
{
    let a2 = a * a;
    let b2 = b * b;
    lemma_sq_le(a, b);
    lemma_sq_le(a2, b2);
    let a4 = a2 * a2;
    let b4 = b2 * b2;
    lemma_sq_le(a4, b4);
    let a8 = a4 * a4;
    let b8 = b4 * b4;
    assert(a8 * a2 <= b8 * b2) by (nonlinear_arith)
        requires
            0 <= a8 <= b8,
            0 <= a2 <= b2,
    ;
    assert(pow10(a) == a8 * a2) by (nonlinear_arith)
        requires
            a2 == a * a,
            a4 == a2 * a2,
            a8 == a4 * a4,
    ;
    assert(pow10(b) == b8 * b2) by (nonlinear_arith)
        requires
            b2 == b * b,
            b4 == b2 * b2,
            b8 == b4 * b4,
    ;
}

/// Tenth root by upward search, as a specification-level function.
pub open spec fn iroot10_from(x: int, r: int) -> int
    decreases 5000 - r,
{
    if r < 0 || r >= 4999 {
        4999
    } else if x < pow10(r + 1) {
        r
    } else {
        iroot10_from(x, r + 1)
    }
}

/// The tenth root of `x`, as the track's damping computation uses it.
pub open spec fn spec_iroot10(x: int) -> int {
    iroot10_from(x, 0)
}

pub proof fn lemma_iroot10_from(x: int, r: int, s: int)
    requires
        0 <= s <= r <= 4999,
        pow10(r) <= x,
        r < 4999 ==> x < pow10(r + 1),
    ensures
        iroot10_from(x, s) == r,
    decreases r - s,
{
    if s == r {
    } else {
        lemma_pow10_le(s + 1, r);
        lemma_iroot10_from(x, r, s + 1);
    }
}

/// Square root by upward search, as a specification-level function.
pub open spec fn isqrt_from(x: int, r: int) -> int
    decreases 0x1_0000_0000 - r,
{
    if r < 0 || r >= 0xffff_ffff {
        0xffff_ffff
    } else if x < (r + 1) * (r + 1) {
        r
    } else {
        isqrt_from(x, r + 1)
    }
}

/// The integer square root of `x`, for `x` within `u64` range.
pub open spec fn spec_isqrt(x: int) -> int {
    isqrt_from(x, 0)
}

pub proof fn lemma_isqrt_from(x: int, r: int, s: int)
    requires
        0 <= s <= r <= 0xffff_ffff,
        r * r <= x,
        r < 0xffff_ffff ==> x < (r + 1) * (r + 1),
    ensures
        isqrt_from(x, s) == r,
    decreases r - s,
{
    if s == r {
    } else {
        lemma_sq_le(s + 1, r);
        lemma_isqrt_from(x, r, s + 1);
    }
}

/// Integer square root: the largest `r` with `r * r <= n`.
pub fn isqrt(n: u64) -> (r: u64)
    ensures
        r * r <= n < (r + 1) * (r + 1),
        r == spec_isqrt(n as int),
        r <= 0xffff_ffff,
{
    let mut lo: u64 = 0;
    let mut hi: u64 = 0x1_0000_0000;
    assert((hi as int) * (hi as int) > n as int) by (nonlinear_arith)
        requires
            hi == 0x1_0000_0000,
            n <= u64::MAX,
    ;
    while lo + 1 < hi
        invariant
            lo < hi <= 0x1_0000_0000,
            (lo as int) * (lo as int) <= n as int,
            (hi as int) * (hi as int) > n as int,
        decreases hi - lo,
    {
        let mid: u64 = lo + (hi - lo) / 2;
        assert(lo < mid < hi);
        assert((mid as int) * (mid as int) <= u64::MAX as int) by (nonlinear_arith)
            requires
                mid < 0x1_0000_0000,
        ;
        if mid * mid <= n {
            lo = mid;
        } else {
            hi = mid;
        }
    }
    proof {
        lemma_isqrt_from(n as int, lo as int, 0);
    }
    lo
}

/// Tenth power, executable; `m` is small enough that the result fits.
pub fn pow10_exec(m: u64) -> (r: u128)
    requires
        m <= 5000,
    ensures
        r == pow10(m as int),
{
    assert((m as int) * (m as int) <= 25_000_000) by (nonlinear_arith)
        requires
            m <= 5000,
    ;
    let m2: u128 = (m as u128) * (m as u128);
    assert((m2 as int) * (m2 as int) <= 625_000_000_000_000) by (nonlinear_arith)
        requires
            m2 <= 25_000_000,
    ;
    let m4: u128 = m2 * m2;
    assert((m4 as int) * (m4 as int) <= 390_625_000_000_000_000_000_000_000_000)
        by (nonlinear_arith)
        requires
            m4 <= 625_000_000_000_000,
    ;
    let m8: u128 = m4 * m4;
    assert((m8 as int) * (m2 as int) <= 9_765_625_000_000_000_000_000_000_000_000_000_000)
        by (nonlinear_arith)
        requires
            m8 <= 390_625_000_000_000_000_000_000_000_000,
            m2 <= 25_000_000,
    ;
    let r: u128 = m8 * m2;
    assert(r == pow10(m as int)) by (nonlinear_arith)
        requires
            m2 == (m as int) * (m as int),
            m4 == m2 * m2,
            m8 == m4 * m4,
            r == m8 * m2,
    ;
    r
}

/// Largest `r` with `r^10 <= n`, for `n` below `5000^10`.
pub fn iroot10(n: u128) -> (r: u64)
    requires
        n < pow10(5000),
    ensures
        pow10(r as int) <= n < pow10(r as int + 1),
        r == spec_iroot10(n as int),
        r < 5000,
{
    let mut lo: u64 = 0;
    let mut hi: u64 = 5000;
    assert(pow10(0) == 0);
    while lo + 1 < hi
        invariant
            lo < hi <= 5000,
            pow10(lo as int) <= n as int,
            pow10(hi as int) > n as int,
        decreases hi - lo,
    {
        let mid: u64 = lo + (hi - lo) / 2;
        assert(lo < mid < hi);
        let p: u128 = pow10_exec(mid);
        if p <= n {
            lo = mid;
        } else {
            hi = mid;
        }
    }
    proof {
        lemma_iroot10_from(n as int, lo as int, 0);
    }
    lo
}

} // verus!
