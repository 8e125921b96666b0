//! How often rejection sampling accepts, and how evenly its outcomes fall.
//!
//! A raw value `v` of `w` bytes is accepted where it lies below the
//! acceptance limit, and then yields `min + v % range`. The raw values
//! accepted are therefore those below `accepted_count`, and the outcome
//! `min + r` is hit as often as values below that count leave the remainder
//! `r`.

use super::sampling::{acceptance_limit, lemma_pow256_values, pow256, two_64, width_of};
use vstd::arithmetic::div_mod::{
    lemma_fundamental_div_mod,
    lemma_fundamental_div_mod_converse,
    lemma_mod_multiples_basic,
};
use vstd::arithmetic::power2::{
    lemma2_to64,
    lemma2_to64_rest,
    lemma_pow2_adds,
    lemma_pow2_pos,
    lemma_pow2_strictly_increases,
    lemma_pow2_unfold,
    pow2,
};
use vstd::prelude::*;

verus! {

/// Number of raw values of `w` bytes that are accepted for a range of
/// `range` values: those below the acceptance limit.
pub open spec fn accepted_count(range: int, w: nat) -> int {
    if acceptance_limit(range) < pow256(w) {
        acceptance_limit(range)
    } else {
        pow256(w)
    }
}

/// Number of values below `n` whose remainder by `range` is `outcome`.
pub open spec fn hits(range: int, outcome: int, n: nat) -> nat
    decreases n,
{
    if n == 0 {
        0
    } else {
        hits(range, outcome, (n - 1) as nat) + if (n - 1) % range == outcome {
            1nat
        } else {
            0nat
        }
    }
}

/// The acceptance limit is a multiple of the range, and less than one range
/// below 2^64.
pub proof fn lemma_limit_is_multiple(range: int)
    requires
        1 <= range,
    ensures
        acceptance_limit(range) % range == 0,
        two_64() - range <= acceptance_limit(range) < two_64(),
        acceptance_limit(range) >= 0,
{
    let top = u64::MAX as int;
    lemma_fundamental_div_mod(top, range);
    assert(0 <= top % range < range) by (nonlinear_arith)
        requires
            range >= 1,
    ;
    assert(acceptance_limit(range) == range * (top / range));
    assert(range * (top / range) == (top / range) * range) by (nonlinear_arith);
    lemma_mod_multiples_basic(top / range, range);
}

/// Whatever the range of a request, at least half of all raw values are
/// accepted. The one range left out is that of all 2^64 integers, for which
/// the acceptance limit is zero.
pub proof fn lemma_acceptance_at_least_half(range: int)
    requires
        2 <= range < two_64(),
    ensures
        2 * accepted_count(range, width_of(range)) >= pow256(width_of(range)),
{
    lemma_pow256_values();
    lemma_limit_is_multiple(range);
    let top = u64::MAX as int;
    if range > 0x8000_0000_0000_0000 {
        lemma_fundamental_div_mod_converse(top, range, 1, top - range);
    }
}

/// Where one integer takes fewer than eight bytes, no raw value is rejected.
pub proof fn lemma_no_rejection_below_eight_bytes(range: int)
    requires
        2 <= range,
        width_of(range) < 8,
    ensures
        accepted_count(range, width_of(range)) == pow256(width_of(range)),
{
    lemma_pow256_values();
    lemma_limit_is_multiple(range);
}

/// Among the values below `n`, each remainder is hit once in every full run
/// of `range` values, and once more where the last, partial run reaches it.
pub proof fn lemma_hits_formula(range: int, outcome: int, n: nat)
    requires
        1 <= range,
        0 <= outcome < range,
    ensures
        hits(range, outcome, n) == n as int / range + (if n as int % range > outcome {
            1int
        } else {
            0int
        }),
    decreases n,
{
    if n == 0 {
        lemma_fundamental_div_mod_converse(0, range, 0, 0);
    } else {
        let m = (n - 1) as nat;
        lemma_hits_formula(range, outcome, m);
        let q = m as int / range;
        let r = m as int % range;
        lemma_fundamental_div_mod(m as int, range);
        assert(0 <= r < range) by (nonlinear_arith)
            requires
                r == m as int % range,
                range >= 1,
        ;
        assert(range * q == q * range) by (nonlinear_arith);
        if r < range - 1 {
            lemma_fundamental_div_mod_converse(n as int, range, q, r + 1);
        } else {
            assert((q + 1) * range == q * range + range) by (nonlinear_arith);
            lemma_fundamental_div_mod_converse(n as int, range, q + 1, 0);
        }
    }
}

/// A divisor of a power of two is a power of two, with no larger exponent.
pub proof fn lemma_divisor_of_pow2(d: int, n: nat) -> (j: nat)
    requires
        d >= 1,
        pow2(n) as int % d == 0,
    ensures
        j <= n,
        d == pow2(j),
    decreases n,
{
    lemma2_to64();
    lemma_pow2_pos(n);
    let whole = pow2(n) as int;
    let q = whole / d;
    lemma_fundamental_div_mod(whole, d);
    assert(whole == d * q);
    if n == 0 {
        assert(d == 1) by (nonlinear_arith)
            requires
                1 == d * q,
                d >= 1,
        ;
        0
    } else {
        let half = pow2((n - 1) as nat) as int;
        lemma_pow2_unfold(n);
        assert(whole == 2 * half);
        if d % 2 == 0 {
            let e = d / 2;
            assert(half == e * q) by (nonlinear_arith)
                requires
                    2 * half == d * q,
                    d == 2 * e,
            ;
            assert(e * q == q * e) by (nonlinear_arith);
            lemma_mod_multiples_basic(q, e);
            let j = lemma_divisor_of_pow2(e, (n - 1) as nat);
            lemma_pow2_unfold(j + 1);
            j + 1
        } else {
            let a = d / 2;
            assert(d == 2 * a + 1);
            let p = q / 2;
            assert(q == 2 * p) by {
                if q % 2 != 0 {
                    assert(d * q == 2 * (2 * a * p + a + p) + 1) by (nonlinear_arith)
                        requires
                            d == 2 * a + 1,
                            q == 2 * p + 1,
                    ;
                }
            }
            assert(half == d * p) by (nonlinear_arith)
                requires
                    2 * half == d * q,
                    q == 2 * p,
            ;
            assert(d * p == p * d) by (nonlinear_arith);
            lemma_mod_multiples_basic(p, d);
            lemma_divisor_of_pow2(d, (n - 1) as nat)
        }
    }
}

/// A power of 256 is a power of two.
pub proof fn lemma_pow256_is_pow2(w: nat)
    ensures
        pow256(w) == pow2(8 * w),
    decreases w,
{
    lemma2_to64();
    if w > 0 {
        lemma_pow256_is_pow2((w - 1) as nat);
        lemma_pow2_adds(8, (8 * (w - 1)) as nat);
        assert(8 + 8 * (w - 1) == 8 * w);
    }
}

/// Where the range divides 2^64, the number of accepted raw values is a
/// multiple of the range.
pub proof fn lemma_accepted_count_is_multiple(range: int)
    requires
        2 <= range <= two_64(),
        two_64() % range == 0,
    ensures
        accepted_count(range, width_of(range)) % range == 0,
        accepted_count(range, width_of(range)) >= 0,
{
    let w = width_of(range);
    lemma_pow256_values();
    lemma_limit_is_multiple(range);
    if w < 8 {
        lemma2_to64();
        lemma2_to64_rest();
        let j = lemma_divisor_of_pow2(range, 64);
        lemma_pow256_is_pow2(w);
        if j > 8 * w {
            lemma_pow2_strictly_increases(8 * w, j);
        }
        let rest = (8 * w - j) as nat;
        lemma_pow2_adds(rest, j);
        assert(rest + j == 8 * w);
        lemma_mod_multiples_basic(pow2(rest) as int, range);
    }
}

/// Where the range divides 2^64, the outcomes are exactly uniform: among the
/// accepted raw values, each of the `range` remainders is hit equally often,
/// namely once for every `range` accepted values.
pub proof fn lemma_uniform_when_range_divides(range: int, outcome: int)
    requires
        2 <= range <= two_64(),
        two_64() % range == 0,
        0 <= outcome < range,
    ensures
        hits(range, outcome, accepted_count(range, width_of(range)) as nat) == accepted_count(
            range,
            width_of(range),
        ) / range,
{
    lemma_accepted_count_is_multiple(range);
    lemma_hits_formula(range, outcome, accepted_count(range, width_of(range)) as nat);
}

} // verus!
