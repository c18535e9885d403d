//! Random sampling, behind one trusted wrapper around the `rand` crate.
use vstd::prelude::*;

verus! {

/// Relies on `rand::random_range` over `0..n`: returns a uniformly random
/// value of the (nonempty) range.  Nothing more is assumed of the value.
#[verifier::external_body]
pub fn random_below(n: u64) -> (r: u64)
    requires
        n > 0,
    ensures
        r < n,
{
    rand::random_range(0..n)
}

/// A uniformly random index below `n`.
pub fn random_index(n: usize) -> (r: usize)
    requires
        n > 0,
    ensures
        r < n,
{
    random_below(n as u64) as usize
}

/// Centered sum of twelve uniform draws on `[0, spread]`: an approximately
/// normal sample with mean zero and standard deviation near `spread`.
pub fn noise_centered(spread: i64) -> (r: i64)
    requires
        0 <= spread <= 0x10_0000,
    ensures
        -6 * spread <= r <= 6 * spread,
{
    let mut acc: i64 = 0;
    let mut k: usize = 0;
    while k < 12
        invariant
            0 <= spread <= 0x10_0000,
            k <= 12,
            0 <= acc <= k * spread,
        decreases 12 - k,
    {
        let draw: i64 = random_below((spread + 1) as u64) as i64;
        proof {
            assert(acc + draw <= (k + 1) * spread && (k + 1) * spread <= 13 * 0x10_0000)
                by (nonlinear_arith)
                requires
                    0 <= acc <= (k as int) * spread,
                    0 <= draw <= spread,
                    0 <= spread <= 0x10_0000,
                    k < 12,
            ;
        }
        acc = acc + draw;
        k = k + 1;
    }
    acc - 6 * spread
}

} // verus!
