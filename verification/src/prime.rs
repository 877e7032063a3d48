//! Prime numbers: the definition, the trial-division criterion, and the
//! executable test.

use crate::sqrt::{integer_sqrt, lemma_sqrt_floor, sqrt_floor};
use vstd::arithmetic::div_mod::{lemma_fundamental_div_mod, lemma_mod_multiples_basic};
use vstd::prelude::*;

verus! {

/// `d` divides `n` evenly.
pub open spec fn divides(d: nat, n: nat) -> bool {
    d > 0 && n % d == 0
}

/// `n` is a prime number: it is greater than 1 and no number strictly
/// between 1 and `n` divides it.
pub open spec fn is_prime_number(n: nat) -> bool {
    &&& n > 1
    &&& forall|d: nat| 1 < d < n ==> !divides(d, n)
}

/// `n` passes trial division: it is greater than 1 and no candidate from 2
/// up to and including `floor(sqrt(n))` divides it.
pub open spec fn passes_trial_division(n: nat) -> bool {
    &&& n > 1
    &&& forall|d: nat| 2 <= d <= sqrt_floor(n) ==> !divides(d, n)
}

/// A divisor `d` of `n` comes with the cofactor `n / d`, which divides `n`
/// too and multiplies with `d` to `n`.
pub proof fn lemma_cofactor(d: nat, n: nat)
    requires
        divides(d, n),
    ensures
        d * (n / d) == n,
        n > 0 ==> divides(n / d, n),
{
    lemma_fundamental_div_mod(n as int, d as int);
    if n > 0 {
        let q = n / d;
        assert(q > 0) by (nonlinear_arith)
            requires
                d * q == n,
                n > 0,
        ;
        assert(d * q == q * d) by (nonlinear_arith);
        lemma_mod_multiples_basic(d as int, q as int);
    }
}

/// Of a divisor and its cofactor, one is no greater than the square root.
proof fn lemma_small_factor(d: nat, q: nat, n: nat)
    by (nonlinear_arith)
    requires
        d * q == n,
        d <= q,
    ensures
        d * d <= n,
{
}

/// A number whose square does not exceed `n` does not exceed `r` either,
/// where `r` is the integer square root of `n`.
proof fn lemma_below_sqrt(d: nat, r: nat, n: nat)
    by (nonlinear_arith)
    requires
        d * d <= n,
        n < (r + 1) * (r + 1),
    ensures
        d <= r,
{
}

/// A number greater than 1 is less than its square, so a candidate of trial
/// division for `n > 1` is less than `n`.
proof fn lemma_candidate_below(d: nat, r: nat, n: nat)
    by (nonlinear_arith)
    requires
        2 <= d <= r,
        r * r <= n,
    ensures
        d < n,
{
}

/// Trial division up to the integer square root decides primality: a number
/// passes it if and only if it is prime.
pub proof fn lemma_trial_division_decides_primality(n: nat)
    ensures
        passes_trial_division(n) == is_prime_number(n),
{
    lemma_sqrt_floor(n);
    let r = sqrt_floor(n);
    if n > 1 {
        if is_prime_number(n) {
            assert forall|d: nat| 2 <= d <= r implies !divides(d, n) by {
                lemma_candidate_below(d, r, n);
            }
        }
        if passes_trial_division(n) {
            assert forall|d: nat| 1 < d < n implies !divides(d, n) by {
                if divides(d, n) {
                    lemma_cofactor(d, n);
                    let q = n / d;
                    assert(1 < q) by (nonlinear_arith)
                        requires
                            d * q == n,
                            0 < d < n,
                    ;
                    if d <= q {
                        lemma_small_factor(d, q, n);
                        lemma_below_sqrt(d, r, n);
                        // `d` is a candidate, and no candidate divides `n`
                        assert(!divides(d, n));
                    } else {
                        assert(q * d == n) by (nonlinear_arith)
                            requires
                                d * q == n,
                        ;
                        lemma_small_factor(q, d, n);
                        lemma_below_sqrt(q, r, n);
                        // the cofactor is a candidate, and no candidate divides `n`
                        assert(!divides(q, n));
                    }
                }
            }
        }
    }
}

/// Decides whether `n` is prime by trial division: `false` for 0 and 1,
/// otherwise `false` as soon as a candidate from 2 up to and including
/// `floor(sqrt(n))` divides `n`, and `true` when none does.
///
/// The bound is the exact integer square root, so the answer is right for
/// every `n`, up to `u64::MAX`. The result is a function of `n` alone.
pub fn is_prime(n: u64) -> (b: bool)
    ensures
        b == is_prime_number(n as nat),
        b == passes_trial_division(n as nat),
{
    if n <= 1 {
        return false;
    }
    let bound: u64 = integer_sqrt(n);
    assert(bound >= 1) by (nonlinear_arith)
        requires
            n > 1,
            n < (bound + 1) * (bound + 1),
    ;
    let mut i: u64 = 2;
    while i <= bound
        invariant
            n > 1,
            2 <= i <= bound + 1,
            bound <= 0xFFFF_FFFF,
            bound == sqrt_floor(n as nat),
            forall|d: nat| 2 <= d < i ==> !divides(d, n as nat),
        decreases bound + 1 - i,
    {
        if n % i == 0 {
            proof {
                assert(divides(i as nat, n as nat));
                lemma_trial_division_decides_primality(n as nat);
            }
            return false;
        }
        i += 1;
    }
    proof {
        lemma_trial_division_decides_primality(n as nat);
    }
    true
}

/// `is_prime` has no hidden state: whatever two calls on the same `n`
/// return, they return the same.
pub proof fn lemma_is_prime_repeats(n: u64, first: bool, second: bool)
    requires
        call_ensures(is_prime, (n,), first),
        call_ensures(is_prime, (n,), second),
    ensures
        first == second,
{
}

} // verus!
