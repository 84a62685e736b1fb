//! Integer helpers.

use vstd::prelude::*;

verus! {

/// `r` is the integer nearest to the square root of `x` (a square root of an
/// integer is never exactly halfway between two integers).
pub open spec fn is_rounded_sqrt(x: int, r: int) -> bool {
    &&& 0 <= r
    &&& 4 * x < (2 * r + 1) * (2 * r + 1)
    &&& r == 0 || (2 * r - 1) * (2 * r - 1) <= 4 * x
}

/// The square root of `x`, rounded to the nearest integer.
pub fn u_sqrt(x: usize) -> (r: usize)
    ensures
        is_rounded_sqrt(x as int, r as int),
{
    let xx = x as u128;
    let mut lo: u128 = 0;
    let mut hi: u128 = xx + 1;
    assert(xx < hi * hi) by (nonlinear_arith)
        requires
            hi == xx + 1,
    ;
    while hi - lo > 1
        invariant
            lo < hi <= xx + 1,
            xx <= usize::MAX,
            usize::MAX <= 0xffff_ffff_ffff_ffffu128,
            lo * lo <= xx < hi * hi,
        decreases hi - lo,
    {
        let mid = lo + (hi - lo) / 2;
        assert(mid * mid <= hi * hi) by (nonlinear_arith)
            requires
                mid < hi,
        ;
        assert(mid * mid <= 0xffff_ffff_ffff_ffffu128 * 0xffff_ffff_ffff_ffffu128)
            by (nonlinear_arith)
            requires
                mid <= 0xffff_ffff_ffff_ffffu128,
        ;
        if mid * mid <= xx {
            lo = mid;
        } else {
            hi = mid;
        }
    }
    assert(hi == lo + 1);
    let sq = lo * lo;
    if xx - sq > lo {
        assert(lo + 1 <= xx) by (nonlinear_arith)
            requires
                xx - lo * lo > lo,
        ;
        assert(is_rounded_sqrt(xx as int, (lo + 1) as int)) by (nonlinear_arith)
            requires
                xx - lo * lo > lo,
                xx < (lo + 1) * (lo + 1),
        ;
        (lo + 1) as usize
    } else {
        assert(lo <= xx) by (nonlinear_arith)
            requires
                lo * lo <= xx,
        ;
        assert(is_rounded_sqrt(xx as int, lo as int)) by (nonlinear_arith)
            requires
                xx - lo * lo <= lo,
                lo * lo <= xx,
        ;
        lo as usize
    }
}

} // verus!
