//! Integer square roots.

use vstd::prelude::*;

verus! {

/// `r` is the integer square root of `n`: the one number whose square does
/// not exceed `n` while the square of its successor does.
pub open spec fn is_sqrt_floor(n: nat, r: nat) -> bool {
    r * r <= n < (r + 1) * (r + 1)
}

/// The integer square root of `n`, that is `floor(sqrt(n))`.
pub open spec fn sqrt_floor(n: nat) -> nat {
    choose|r: nat| is_sqrt_floor(n, r)
}

/// Squaring keeps the strict order of natural numbers.
proof fn lemma_square_strictly_monotonic(a: nat, b: nat)
    by (nonlinear_arith)
    requires
        a < b,
    ensures
        a * a < b * b,
        (a + 1) * (a + 1) <= b * b,
{
}

/// Every natural number has an integer square root.
pub proof fn lemma_sqrt_floor_exists(n: nat)
    ensures
        exists|r: nat| is_sqrt_floor(n, r),
    decreases n,
{
    if n == 0 {
        assert(is_sqrt_floor(0, 0)) by (nonlinear_arith);
    } else {
        let m: nat = (n - 1) as nat;
        lemma_sqrt_floor_exists(m);
        let r: nat = sqrt_floor(m);
        if (r + 1) * (r + 1) <= n {
            lemma_square_strictly_monotonic(r + 1, r + 2);
            assert(is_sqrt_floor(n, (r + 1) as nat));
        } else {
            assert(is_sqrt_floor(n, r));
        }
    }
}

/// No natural number has two integer square roots.
pub proof fn lemma_sqrt_floor_unique(n: nat, r: nat, s: nat)
    requires
        is_sqrt_floor(n, r),
        is_sqrt_floor(n, s),
    ensures
        r == s,
{
    if r < s {
        lemma_square_strictly_monotonic(r, s);
    } else if s < r {
        lemma_square_strictly_monotonic(s, r);
    }
}

/// `sqrt_floor(n)` is the integer square root of `n`, and nothing else is.
pub proof fn lemma_sqrt_floor(n: nat)
    ensures
        is_sqrt_floor(n, sqrt_floor(n)),
        forall|r: nat| is_sqrt_floor(n, r) ==> r == sqrt_floor(n),
{
    lemma_sqrt_floor_exists(n);
    assert forall|r: nat| is_sqrt_floor(n, r) implies r == sqrt_floor(n) by {
        lemma_sqrt_floor_unique(n, r, sqrt_floor(n));
    }
}

/// Computes `floor(sqrt(n))` in integer arithmetic, by bisection over the
/// 32-bit candidates. The result is exact for every `n`, up to `u64::MAX`.
pub fn integer_sqrt(n: u64) -> (r: u64)
    ensures
        r == sqrt_floor(n as nat),
        is_sqrt_floor(n as nat, r as nat),
        r <= 0xFFFF_FFFF,
{
    let mut lo: u64 = 0;
    let mut hi: u64 = 0x1_0000_0000;
    assert(0x1_0000_0000u64 * 0x1_0000_0000u64 > n) by (nonlinear_arith);
    while hi - lo > 1
        invariant
            lo < hi <= 0x1_0000_0000,
            lo * lo <= n < hi * hi,
        decreases hi - lo,
    {
        let mid: u64 = lo + (hi - lo) / 2;
        assert(mid * mid <= 0xFFFF_FFFF * 0xFFFF_FFFF) by (nonlinear_arith)
            requires
                mid <= 0xFFFF_FFFF,
        ;
        if mid * mid <= n {
            lo = mid;
        } else {
            hi = mid;
        }
    }
    proof {
        assert(is_sqrt_floor(n as nat, lo as nat));
        lemma_sqrt_floor(n as nat);
    }
    lo
}

} // verus!
