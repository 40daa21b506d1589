//! Integer square root, used for distances between fixed-point coordinates.
//!
//! The square of a fixed-point value carries `SCALE * SCALE` ticks per unit,
//! so the integer square root of a sum of squared coordinates is again an
//! ordinary fixed-point value.

use vstd::prelude::*;

verus! {

/// The greatest `r >= 0` with `r * r <= n`, as a recursive specification.
pub open spec fn isqrt_spec(n: int) -> int
    decreases n,
{
    if n <= 0 {
        0
    } else {
        let r = isqrt_spec(n - 1);
        if (r + 1) * (r + 1) <= n {
            r + 1
        } else {
            r
        }
    }
}

/// `isqrt_spec(n)` is the floor of the square root: it is nonnegative, its
/// square is at most `n`, and the next square is beyond `n`.
pub proof fn lemma_isqrt_spec_bounds(n: int)
    requires
        n >= 0,
    ensures
        0 <= isqrt_spec(n),
        isqrt_spec(n) * isqrt_spec(n) <= n,
        n < (isqrt_spec(n) + 1) * (isqrt_spec(n) + 1),
    decreases n,
{
    if n == 0 {
        assert(isqrt_spec(0) == 0);
    } else {
        lemma_isqrt_spec_bounds(n - 1);
        let r = isqrt_spec(n - 1);
        if (r + 1) * (r + 1) <= n {
            assert(n < ((r + 1) + 1) * ((r + 1) + 1)) by (nonlinear_arith)
                requires
                    r >= 0,
                    n - 1 < (r + 1) * (r + 1),
            ;
        }
    }
}

/// Any `r` in the floor-square-root window is `isqrt_spec(n)`.
pub proof fn lemma_isqrt_unique(n: int, r: int)
    requires
        n >= 0,
        r >= 0,
        r * r <= n,
        n < (r + 1) * (r + 1),
    ensures
        r == isqrt_spec(n),
{
    lemma_isqrt_spec_bounds(n);
    let s = isqrt_spec(n);
    if r < s {
        assert((r + 1) * (r + 1) <= s * s) by (nonlinear_arith)
            requires
                0 <= r,
                r + 1 <= s,
        ;
    }
    if s < r {
        assert((s + 1) * (s + 1) <= r * r) by (nonlinear_arith)
            requires
                0 <= s,
                s + 1 <= r,
        ;
    }
}

/// Integer square root by bisection.
pub fn isqrt(n: u64) -> (r: u64)
    requires
        n <= 0x7fff_ffff_ffff_ffff,
    ensures
        r == isqrt_spec(n as int),
        r * r <= n,
        n < (r + 1) * (r + 1),
{
    if n == 0 {
        proof {
            lemma_isqrt_unique(n as int, 0);
        }
        return 0;
    }
    let mut lo: u64 = 0;
    let mut hi: u64 = 3_037_000_500;
    proof {
        assert((hi as int) * (hi as int) > n as int) by (nonlinear_arith)
            requires
                hi == 3_037_000_500,
                n <= 0x7fff_ffff_ffff_ffff,
        ;
    }
    while lo + 1 < hi
        invariant
            lo < hi,
            hi <= 3_037_000_500,
            (lo as int) * (lo as int) <= n as int,
            (n as int) < (hi as int) * (hi as int),
        decreases hi - lo,
    {
        let mid = lo + (hi - lo) / 2;
        proof {
            assert((mid as int) * (mid as int) < 0x8000_0000_0000_0000) by (nonlinear_arith)
                requires
                    mid < 3_037_000_500,
            ;
        }
        if mid * mid <= n {
            lo = mid;
        } else {
            hi = mid;
        }
    }
    proof {
        lemma_isqrt_unique(n as int, lo as int);
    }
    lo
}

} // verus!
