//! Exponential inter-event times, in fixed point.
//!
//! A candidate's fire time is the last committed time plus a draw from an
//! exponential distribution with the rule's rate: `ln(1/U) / rate` for a
//! fresh uniform draw `U` in (0, 1).  Times and rates are `u64` fixed-point
//! values with `TIME_ONE` standing for 1.0.  The draw comes from 64 random
//! bits; `-log2(U)` is computed with a binary logarithm whose fractional
//! part is linearly interpolated, then scaled by `ln 2` and divided by the
//! rate.  The interval is clamped into `1 ..= u64::MAX`, so it is always
//! strictly positive; a rate of 0 yields no interval at all (such a rule
//! never fires).

use vstd::prelude::*;
use vstd::arithmetic::div_mod::{lemma_multiply_divide_lt, lemma_div_pos_is_pos};
use vstd::arithmetic::mul::lemma_mul_strict_inequality;
use vstd::arithmetic::power2::{
    pow2, lemma_pow2_unfold, lemma_pow2_strictly_increases, lemma2_to64,
};
use crate::reactions::TIME_ONE;

verus! {

/// `ln 2` in fixed point: `round(ln 2 * TIME_ONE)`.
pub const LN2_FIXED: u64 = 2977044472;

/// `floor(log2(x))` for `x >= 1` (and 0 for `x == 0`).
pub open spec fn log2_floor(x: nat) -> nat
    decreases x,
{
    if x < 2 {
        0
    } else {
        1 + log2_floor(x / 2)
    }
}

/// `log2(x)` in fixed point for `x >= 1`: the integer part is exact, the
/// fractional part interpolates linearly between consecutive powers of two.
pub open spec fn log2_fixed(x: nat) -> int {
    let b = log2_floor(x);
    b * TIME_ONE + ((x - pow2(b)) * TIME_ONE) / (pow2(b) as int)
}

/// `-log2(U)` in fixed point, where `U = draw / 2^64` and a draw of 0 is
/// read as the smallest representable `U`, `2^-64`.
pub open spec fn neg_log2_unit_fixed(draw: u64) -> int {
    if draw == 0 {
        64 * (TIME_ONE as int)
    } else {
        64 * (TIME_ONE as int) - log2_fixed(draw as nat)
    }
}

/// The sampled interval for a rule of rate `rate` and a 64-bit uniform draw:
/// `-log2(U) * ln 2 / rate`, clamped into `1 ..= u64::MAX`.  A rate of 0
/// never fires and yields no interval.
pub open spec fn sample_interval_spec(rate: u64, draw: u64) -> Option<u64> {
    if rate == 0 {
        None
    } else {
        let d = neg_log2_unit_fixed(draw) * LN2_FIXED / (rate as int);
        if d < 1 {
            Some(1u64)
        } else if d > u64::MAX {
            Some(u64::MAX)
        } else {
            Some(d as u64)
        }
    }
}

/// Relies on rand::random: draws 64 uniformly random bits from the thread's
/// generator.  Nothing can be promised of the value.
#[verifier::external_body]
pub fn random_bits() -> u64 {
    rand::random::<u64>()
}

/// The deterministic half of time sampling: the interval that a given rate
/// and a given 64-bit draw produce.  Strictly positive whenever the rate is
/// nonzero; no interval when the rate is 0.
pub fn sample_interval(rate: u64, draw: u64) -> (r: Option<u64>)
    ensures
        r == sample_interval_spec(rate, draw),
        r is Some <==> rate != 0,
        r matches Some(d) ==> 1 <= d,
{
    if rate == 0 {
        return None;
    }
    let neg_log2: u64 = if draw == 0 {
        64 * TIME_ONE
    } else {
        // Find b = floor(log2(draw)) and p = 2^b by halving.
        let mut v: u64 = draw;
        let mut b: u64 = 0;
        let mut p: u64 = 1;
        proof {
            lemma2_to64();
        }
        while v >= 2
            invariant
                1 <= v,
                1 <= p,
                b <= 63,
                p == pow2(b as nat),
                log2_floor(draw as nat) == b + log2_floor(v as nat),
                v * p <= draw < (v + 1) * p,
            decreases v,
        {
            proof {
                assert((v / 2) * (2 * p) <= v * p) by (nonlinear_arith)
                    requires
                        v >= 2,
                        p >= 1,
                ;
                assert((v + 1) * p <= (v / 2 + 1) * (2 * p)) by (nonlinear_arith)
                    requires
                        v >= 2,
                        p >= 1,
                ;
                assert(v * p <= draw);
                assert(2 * p <= v * p) by (nonlinear_arith)
                    requires
                        v >= 2,
                        1 <= p,
                ;
                lemma_pow2_unfold((b + 1) as nat);
                if b + 1 >= 64 {
                    lemma2_to64();
                    if b + 1 > 64 {
                        lemma_pow2_strictly_increases(64, (b + 1) as nat);
                    }
                    assert(false);
                }
            }
            v = v / 2;
            b = b + 1;
            p = p * 2;
        }
        proof {
            assert(v == 1);
            assert(log2_floor(draw as nat) == b);
            assert(p <= draw < 2 * p);
            assert(b <= 63) by {
                lemma2_to64();
                if b > 64 {
                    lemma_pow2_strictly_increases(64, b as nat);
                }
            }
        }
        // frac = (draw - p) * TIME_ONE / p, the linear part of log2 in [0, TIME_ONE).
        let frac128: u128 = ((draw - p) as u128) * (TIME_ONE as u128) / (p as u128);
        proof {
            lemma_mul_strict_inequality((draw - p) as int, p as int, TIME_ONE as int);
            lemma_multiply_divide_lt(
                (draw - p) as int * (TIME_ONE as int),
                p as int,
                TIME_ONE as int,
            );
            lemma_div_pos_is_pos((draw - p) as int * (TIME_ONE as int), p as int);
            assert((p as int) * (TIME_ONE as int) == (TIME_ONE as int) * (p as int))
                by (nonlinear_arith);
        }
        let frac: u64 = frac128 as u64;
        64 * TIME_ONE - (b * TIME_ONE + frac)
    };
    proof {
        assert(1 <= neg_log2 <= 64 * TIME_ONE);
        assert(neg_log2 == neg_log2_unit_fixed(draw));
    }
    let prod: u128 = (neg_log2 as u128) * (LN2_FIXED as u128);
    let d128: u128 = prod / (rate as u128);
    proof {
        lemma_div_pos_is_pos(prod as int, rate as int);
    }
    if d128 < 1 {
        Some(1u64)
    } else if d128 > u64::MAX as u128 {
        Some(u64::MAX)
    } else {
        Some(d128 as u64)
    }
}

} // verus!
