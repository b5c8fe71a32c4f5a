//! Integer square root, the numeric kernel of the RMS reduction.

use vstd::prelude::*;

verus! {

/// `r` is the square root of `x`, rounded down to an integer.
pub open spec fn is_floor_sqrt(x: int, r: int) -> bool {
    0 <= r && r * r <= x && x < (r + 1) * (r + 1)
}

/// The square root of `x`, rounded down; meaningful for `x >= 0`.
pub closed spec fn floor_sqrt(x: int) -> int {
    choose|r: int| is_floor_sqrt(x, r)
}

proof fn lemma_floor_sqrt_exists(x: int) -> (r: int)
    requires
        0 <= x,
    ensures
        is_floor_sqrt(x, r),
    decreases x,
{
    if x == 0 {
        assert(is_floor_sqrt(0, 0)) by (nonlinear_arith);
        0
    } else {
        let p = lemma_floor_sqrt_exists(x - 1);
        if (p + 1) * (p + 1) <= x {
            assert(is_floor_sqrt(x, p + 1)) by (nonlinear_arith)
                requires
                    0 <= p,
                    (p + 1) * (p + 1) <= x,
                    x - 1 < (p + 1) * (p + 1);
            p + 1
        } else {
            assert(is_floor_sqrt(x, p)) by (nonlinear_arith)
                requires
                    0 <= p,
                    p * p <= x - 1,
                    x < (p + 1) * (p + 1);
            p
        }
    }
}

/// `floor_sqrt(x)` indeed squares to at most `x`, and is the largest such.
pub proof fn lemma_floor_sqrt(x: int)
    requires
        0 <= x,
    ensures
        is_floor_sqrt(x, floor_sqrt(x)),
{
    let r = lemma_floor_sqrt_exists(x);
    assert(is_floor_sqrt(x, r));
}

/// There is only one rounded-down square root of a given `x`.
pub proof fn lemma_floor_sqrt_unique(x: int, r: int)
    requires
        0 <= x,
        is_floor_sqrt(x, r),
    ensures
        r == floor_sqrt(x),
{
    lemma_floor_sqrt(x);
    let q = floor_sqrt(x);
    if r < q {
        assert(false) by (nonlinear_arith)
            requires
                0 <= r < q,
                x < (r + 1) * (r + 1),
                0 <= q && q * q <= x;
    }
    if q < r {
        assert(false) by (nonlinear_arith)
            requires
                0 <= q < r,
                x < (q + 1) * (q + 1),
                0 <= r && r * r <= x;
    }
}

/// Integer square root, rounded down.
pub fn isqrt(x: u64) -> (r: u64)
    requires
        x <= u32::MAX as u64,
    ensures
        is_floor_sqrt(x as int, r as int),
        r as int == floor_sqrt(x as int),
{
    let mut lo: u64 = 0;
    let mut hi: u64 = 65536;
    assert((x as int) < 65536 * 65536);
    while lo + 1 < hi
        invariant
            lo < hi <= 65536,
            (lo as int) * (lo as int) <= x as int,
            (x as int) < (hi as int) * (hi as int),
        decreases hi - lo,
    {
        let mid = lo + (hi - lo) / 2;
        assert((mid as int) * (mid as int) <= 65536 * 65536) by (nonlinear_arith)
            requires
                0 <= mid as int <= 65536;
        if mid * mid <= x {
            lo = mid;
        } else {
            hi = mid;
        }
    }
    proof {
        lemma_floor_sqrt_unique(x as int, lo as int);
    }
    lo
}

} // verus!
