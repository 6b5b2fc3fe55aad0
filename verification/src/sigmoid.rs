//! The logistic activation `1 / (1 + e^-z)`, computed entirely in
//! fixed-point arithmetic.
//!
//! For `z >= 0` the pre-activation is split as `z = k*ln2 + r` with
//! `0 <= r < ln2`; then `e^-z = 2^-k / e^r`, where `e^r` comes from a
//! truncated Taylor series, and
//! `sigmoid(z) = e^r / (e^r + 2^-k)`. Negative inputs use the mirror
//! identity `sigmoid(z) = 1 - sigmoid(-z)`. Every step is specified
//! exactly, so the activation is a deterministic function of its input
//! and provably lies in `[0, 1]`.

use vstd::prelude::*;

use crate::fixed::Fx;
use crate::fixed::ONE_RAW;

verus! {

/// ln 2 in raw units, rounded down: floor(ln2 * 2^32).
pub const LN2_RAW: u64 = 0xB172_17F7;

/// Number of Taylor terms used for e^r.
pub const EXP_TERMS: u64 = 16;

/// Term `n` of the Taylor series of e^r in raw units, with the
/// truncation the executable code performs at each step.
pub open spec fn exp_term(r: int, n: nat) -> int
    decreases n,
{
    if n == 0 {
        ONE_RAW as int
    } else {
        (exp_term(r, (n - 1) as nat) * r / (ONE_RAW as int)) / n as int
    }
}

/// Sum of the first `n + 1` Taylor terms of e^r in raw units.
pub open spec fn exp_sum(r: int, n: nat) -> int
    decreases n,
{
    if n == 0 {
        ONE_RAW as int
    } else {
        exp_sum(r, (n - 1) as nat) + exp_term(r, n)
    }
}

/// `x` halved `k` times, truncating: floor(x / 2^k).
pub open spec fn halve_n(x: int, k: nat) -> int
    decreases k,
{
    if k == 0 {
        x
    } else {
        halve_n(x, (k - 1) as nat) / 2
    }
}

/// The sigmoid on a non-negative raw pre-activation `zm`.
pub open spec fn sig_pos(zm: int) -> int {
    let k = zm / (LN2_RAW as int);
    let r = zm % (LN2_RAW as int);
    let e = exp_sum(r, EXP_TERMS as nat);
    let h = if k >= 33 {
        0
    } else {
        halve_n(ONE_RAW as int, k as nat)
    };
    (e * (ONE_RAW as int)) / (e + h)
}

/// What `sigmoid` returns, on raw values.
pub open spec fn sigmoid_spec(v: int) -> int {
    if v >= 0 {
        sig_pos(v)
    } else {
        (ONE_RAW as int) - sig_pos(-v)
    }
}

/// Every Taylor term is non-negative for a non-negative argument.
proof fn lemma_exp_term_nonneg(r: int, n: nat)
    requires
        r >= 0,
    ensures
        exp_term(r, n) >= 0,
    decreases n,
{
    if n > 0 {
        lemma_exp_term_nonneg(r, (n - 1) as nat);
        let t = exp_term(r, (n - 1) as nat);
        vstd::arithmetic::mul::lemma_mul_nonnegative(t, r);
        vstd::arithmetic::div_mod::lemma_div_pos_is_pos(t * r, ONE_RAW as int);
        vstd::arithmetic::div_mod::lemma_div_pos_is_pos(t * r / (ONE_RAW as int), n as int);
    }
}

/// The series sum is at least 1.0 for a non-negative argument.
proof fn lemma_exp_sum_ge_one(r: int, n: nat)
    requires
        r >= 0,
    ensures
        exp_sum(r, n) >= ONE_RAW as int,
    decreases n,
{
    if n > 0 {
        lemma_exp_sum_ge_one(r, (n - 1) as nat);
        lemma_exp_term_nonneg(r, n);
    }
}

/// Halving keeps non-negative values non-negative.
proof fn lemma_halve_n_nonneg(x: int, k: nat)
    requires
        x >= 0,
    ensures
        halve_n(x, k) >= 0,
    decreases k,
{
    if k > 0 {
        lemma_halve_n_nonneg(x, (k - 1) as nat);
        vstd::arithmetic::div_mod::lemma_div_pos_is_pos(halve_n(x, (k - 1) as nat), 2);
    }
}

/// The sigmoid of a non-negative raw pre-activation lies in [0, 1].
proof fn lemma_sig_pos_range(zm: int)
    requires
        zm >= 0,
    ensures
        0 <= sig_pos(zm) <= ONE_RAW as int,
{
    let k = zm / (LN2_RAW as int);
    let r = zm % (LN2_RAW as int);
    vstd::arithmetic::div_mod::lemma_mod_bound(zm, LN2_RAW as int);
    vstd::arithmetic::div_mod::lemma_div_pos_is_pos(zm, LN2_RAW as int);
    let e = exp_sum(r, EXP_TERMS as nat);
    lemma_exp_sum_ge_one(r, EXP_TERMS as nat);
    let h = if k >= 33 {
        0
    } else {
        halve_n(ONE_RAW as int, k as nat)
    };
    if k < 33 {
        lemma_halve_n_nonneg(ONE_RAW as int, k as nat);
    }
    vstd::arithmetic::mul::lemma_mul_nonnegative(e, ONE_RAW as int);
    vstd::arithmetic::div_mod::lemma_div_pos_is_pos(e * (ONE_RAW as int), e + h);
    assert(e * (ONE_RAW as int) <= (e + h) * (ONE_RAW as int)) by (nonlinear_arith)
        requires
            h >= 0,
    ;
    vstd::arithmetic::div_mod::lemma_div_is_ordered(
        e * (ONE_RAW as int),
        (e + h) * (ONE_RAW as int),
        e + h,
    );
    vstd::arithmetic::div_mod::lemma_div_multiples_vanish(ONE_RAW as int, e + h);
}

/// Range law: the sigmoid lies within the closed unit interval `[0, 1]`
/// for every input whatsoever.
pub proof fn lemma_sigmoid_spec_range(v: int)
    ensures
        0 <= sigmoid_spec(v) <= ONE_RAW as int,
{
    if v >= 0 {
        lemma_sig_pos_range(v);
    } else {
        lemma_sig_pos_range(-v);
    }
}

/// The truncated Taylor series of e^r, for `0 <= r < 1.0` raw.
fn exp_series(r: u64) -> (e: u64)
    requires
        r < ONE_RAW as u64,
    ensures
        e as int == exp_sum(r as int, EXP_TERMS as nat),
        ONE_RAW as u64 <= e <= (EXP_TERMS + 1) * (ONE_RAW as u64),
{
    let mut sum: u64 = ONE_RAW as u64;
    let mut term: u64 = ONE_RAW as u64;
    let mut n: u64 = 1;
    while n <= EXP_TERMS
        invariant
            1 <= n <= EXP_TERMS + 1,
            r < ONE_RAW as u64,
            term as int == exp_term(r as int, (n - 1) as nat),
            sum as int == exp_sum(r as int, (n - 1) as nat),
            term <= ONE_RAW as u64,
            ONE_RAW as u64 <= sum <= n * (ONE_RAW as u64),
        decreases EXP_TERMS + 1 - n,
    {
        proof {
            assert((term as int) * (r as int) < 0x1_0000_0000_0000_0000) by (nonlinear_arith)
                requires
                    0 <= term as int <= 0x1_0000_0000,
                    0 <= (r as int) < 0x1_0000_0000,
            ;
        }
        let scaled: u128 = (term as u128) * (r as u128) / 0x1_0000_0000u128;
        proof {
            assert(scaled as int <= term as int) by (nonlinear_arith)
                requires
                    scaled as int == (term as int) * (r as int) / 0x1_0000_0000,
                    0 <= term as int,
                    0 <= (r as int) < 0x1_0000_0000,
            ;
        }
        let next: u64 = (scaled as u64) / n;
        proof {
            vstd::arithmetic::div_mod::lemma_div_is_ordered_by_denominator(
                scaled as int,
                1,
                n as int,
            );
            assert(next as int <= scaled as int);
            assert(sum as int <= 16 * 0x1_0000_0000) by (nonlinear_arith)
                requires
                    sum as int <= (n as int) * 0x1_0000_0000,
                    n as int <= 16,
            ;
        }
        term = next;
        sum = sum + term;
        n = n + 1;
    }
    sum
}

/// The sigmoid on a non-negative raw pre-activation.
fn sig_pos_exec(zm: u64) -> (s: u64)
    ensures
        s as int == sig_pos(zm as int),
        s <= ONE_RAW as u64,
{
    let k: u64 = zm / LN2_RAW;
    let r: u64 = zm % LN2_RAW;
    let e: u64 = exp_series(r);
    let h: u64 = if k >= 33 {
        0
    } else {
        let mut h: u64 = ONE_RAW as u64;
        let mut i: u64 = 0;
        while i < k
            invariant
                i <= k <= 32,
                h as int == halve_n(ONE_RAW as int, i as nat),
                h <= ONE_RAW as u64,
            decreases k - i,
        {
            h = h / 2;
            i = i + 1;
        }
        h
    };
    let num: u128 = (e as u128) * 0x1_0000_0000u128;
    let den: u128 = e as u128 + h as u128;
    let s128: u128 = num / den;
    proof {
        assert(num <= den * 0x1_0000_0000u128) by (nonlinear_arith)
            requires
                num == (e as u128) * 0x1_0000_0000u128,
                den >= e as u128,
        ;
        vstd::arithmetic::div_mod::lemma_div_is_ordered(
            num as int,
            (den * 0x1_0000_0000u128) as int,
            den as int,
        );
        vstd::arithmetic::div_mod::lemma_div_multiples_vanish(
            0x1_0000_0000u128 as int,
            den as int,
        );
    }
    s128 as u64
}

/// The logistic activation `1 / (1 + e^-z)`, exactly `sigmoid_spec` on
/// the raw value, always within `[0, 1]`.
pub fn sigmoid(z: Fx) -> (r: Fx)
    ensures
        r@ == sigmoid_spec(z@),
        0 <= r@ <= ONE_RAW as int,
{
    let raw: i64 = z.raw();
    if raw < 0 {
        let zm: u64 = (-(raw as i128)) as u64;
        let s: u64 = sig_pos_exec(zm);
        Fx::from_raw(ONE_RAW - (s as i64))
    } else {
        let zm: u64 = raw as u64;
        let s: u64 = sig_pos_exec(zm);
        Fx::from_raw(s as i64)
    }
}

} // verus!
