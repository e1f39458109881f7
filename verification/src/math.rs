//! Integer square root, the arithmetic core of every distance, slope and
//! cost formula in this crate. `sqrt_floor` is the mathematical floor of
//! the square root; `isqrt64` computes it for `u64` values.

use vstd::prelude::*;

verus! {

/// Floor of the square root of `n` (0 for negative arguments), defined by
/// counting up: the largest `r` with `r * r <= n`.
pub open spec fn sqrt_floor(n: int) -> int
    decreases n,
{
    if n < 1 {
        0
    } else if (sqrt_floor(n - 1) + 1) * (sqrt_floor(n - 1) + 1) <= n {
        sqrt_floor(n - 1) + 1
    } else {
        sqrt_floor(n - 1)
    }
}

/// `sqrt_floor(n)` is the unique `r >= 0` with `r * r <= n < (r + 1) * (r + 1)`.
pub proof fn lemma_sqrt_floor_bounds(n: int)
    requires
        n >= 0,
    ensures
        0 <= sqrt_floor(n),
        sqrt_floor(n) * sqrt_floor(n) <= n,
        n < (sqrt_floor(n) + 1) * (sqrt_floor(n) + 1),
    decreases n,
{
    if n >= 1 {
        lemma_sqrt_floor_bounds(n - 1);
        let p = sqrt_floor(n - 1);
        if (p + 1) * (p + 1) <= n {
            assert(n < (p + 2) * (p + 2)) by (nonlinear_arith)
                requires
                    n - 1 < (p + 1) * (p + 1),
                    p >= 0,
            {
            }
        }
    }
}

/// Any `r >= 0` with `r * r <= n < (r + 1) * (r + 1)` is `sqrt_floor(n)`.
pub proof fn lemma_sqrt_floor_unique(n: int, r: int)
    requires
        n >= 0,
        r >= 0,
        r * r <= n,
        n < (r + 1) * (r + 1),
    ensures
        r == sqrt_floor(n),
{
    lemma_sqrt_floor_bounds(n);
    let s = sqrt_floor(n);
    if r < s {
        assert((r + 1) * (r + 1) <= s * s) by (nonlinear_arith)
            requires
                0 <= r,
                r + 1 <= s,
        {
        }
    }
    if s < r {
        assert((s + 1) * (s + 1) <= r * r) by (nonlinear_arith)
            requires
                0 <= s,
                s + 1 <= r,
        {
        }
    }
}

/// `sqrt_floor` is monotone.
pub proof fn lemma_sqrt_floor_monotone(a: int, b: int)
    requires
        0 <= a <= b,
    ensures
        sqrt_floor(a) <= sqrt_floor(b),
{
    lemma_sqrt_floor_bounds(a);
    lemma_sqrt_floor_bounds(b);
    let ra = sqrt_floor(a);
    let rb = sqrt_floor(b);
    if rb < ra {
        assert((rb + 1) * (rb + 1) <= ra * ra) by (nonlinear_arith)
            requires
                0 <= rb,
                rb + 1 <= ra,
        {
        }
    }
}

/// Binary search for the integer square root of a `u64`.
pub fn isqrt64(n: u64) -> (r: u64)
    ensures
        r == sqrt_floor(n as int),
{
    let mut lo: u64 = 0;
    let mut hi: u64 = 0x1_0000_0000;
    // Invariant: lo * lo <= n < hi * hi.
    while lo + 1 < hi
        invariant
            lo < hi <= 0x1_0000_0000,
            (lo * lo) as int <= n as int,
            (n as int) < (hi as int) * (hi as int),
        decreases hi - lo,
    {
        let mid: u64 = lo + (hi - lo) / 2;
        proof {
            assert((mid as int) * (mid as int) < 0x1_0000_0000_0000_0000_0000_0000_0000_0000) by (nonlinear_arith)
                requires
                    0 <= mid as int <= 0x1_0000_0000,
            {
            }
        }
        let sq: u128 = (mid as u128) * (mid as u128);
        if sq <= n as u128 {
            lo = mid;
        } else {
            hi = mid;
        }
    }
    proof {
        assert((n as int) < (lo + 1) * (lo + 1));
        lemma_sqrt_floor_unique(n as int, lo as int);
    }
    lo
}

} // verus!
