//! Atmospheric velocity damping.
//!
//! The gravity model produces a per-second velocity retention fraction
//! `f` in `(1/2, 1]` at the [`crate::FRAC_ONE`] scale.  Damping must be
//! step-size independent: a step covering `n` ticks of 1/60 s scales the
//! velocity by `f` raised to `n / 60`.  That power is evaluated in fixed
//! point as `g^n`, where `g` approximates the 60th root of `f` through
//! `exp(ln(f) / 60)`: `ln` by a two-term series of `2 * atanh((f-1)/(f+1))`
//! and `exp` by its quadratic Taylor polynomial.  The contracts state the
//! exact integer formulas.

use vstd::prelude::*;

use crate::math::{clamp_i128, clamp_spec, div_i128, div_t, lemma_div_t_shrink,
    lemma_mul_abs_bound};
use crate::FRAC_ONE;

verus! {

/// Fixed-point logarithm approximation of a fraction `f` in `[1, FRAC_ONE]`:
/// `2u + 2u^3/3` with `u = (f - 1)/(f + 1)`, everything at the `FRAC_ONE`
/// scale.  Nonpositive, since `f <= 1`.
pub open spec fn ln_approx(f: int) -> int {
    let u = div_t((f - FRAC_ONE) * FRAC_ONE, f + FRAC_ONE);
    2 * u + div_t(2 * (u * u * u), 3 * (FRAC_ONE as int) * (FRAC_ONE as int))
}

/// Per-tick retention fraction: the quadratic Taylor polynomial of
/// `exp(ln_approx(f) / 60)`, clamped into `[0, FRAC_ONE]`.
pub open spec fn per_tick_spec(f: int) -> int {
    let l = ln_approx(f);
    clamp_spec(
        FRAC_ONE + div_t(l, 60) + div_t(l * l, 7200 * (FRAC_ONE as int)),
        0,
        FRAC_ONE as int,
    )
}

/// `g^n` in fixed point: `n` successive scaled multiplications.
pub open spec fn pow_frac_spec(g: int, n: nat) -> int
    decreases n,
{
    if n == 0 {
        FRAC_ONE as int
    } else {
        div_t(g * pow_frac_spec(g, (n - 1) as nat), FRAC_ONE as int)
    }
}

/// A retention fraction of exactly one stays one under any power: no
/// atmosphere means no velocity loss, whatever the step size.
pub proof fn lemma_pow_frac_one(n: nat)
    ensures
        pow_frac_spec(FRAC_ONE as int, n) == FRAC_ONE as int,
    decreases n,
{
    if n > 0 {
        lemma_pow_frac_one((n - 1) as nat);
    }
}

/// Powers of a fraction stay within `[0, FRAC_ONE]`.
pub proof fn lemma_pow_frac_bounds(g: int, n: nat)
    requires
        0 <= g <= FRAC_ONE as int,
    ensures
        0 <= pow_frac_spec(g, n) <= FRAC_ONE as int,
    decreases n,
{
    if n > 0 {
        lemma_pow_frac_bounds(g, (n - 1) as nat);
        lemma_mul_abs_bound(g, pow_frac_spec(g, (n - 1) as nat), FRAC_ONE as int,
            FRAC_ONE as int);
        lemma_div_t_shrink(g * pow_frac_spec(g, (n - 1) as nat), FRAC_ONE as int,
            (FRAC_ONE as int) * (FRAC_ONE as int));
        vstd::arithmetic::div_mod::lemma_div_pos_is_pos(
            g * pow_frac_spec(g, (n - 1) as nat),
            FRAC_ONE as int,
        );
        assert(g * pow_frac_spec(g, (n - 1) as nat) >= 0) by (nonlinear_arith)
            requires
                g >= 0,
                pow_frac_spec(g, (n - 1) as nat) >= 0,
        ;
    }
}

/// Per-tick retention fraction of a per-second fraction `f`.
pub fn damping_per_tick(f: i64) -> (r: i64)
    requires
        1 <= f <= FRAC_ONE,
    ensures
        r == per_tick_spec(f as int),
        0 <= r <= FRAC_ONE,
        f == FRAC_ONE ==> r == FRAC_ONE,
{
    let fw = f as i128;
    let one = FRAC_ONE as i128;
    proof {
        lemma_mul_abs_bound((f - FRAC_ONE) as int, FRAC_ONE as int, FRAC_ONE as int,
            FRAC_ONE as int);
        lemma_div_t_shrink(
            (f - FRAC_ONE) as int * (FRAC_ONE as int),
            f as int + FRAC_ONE as int,
            (FRAC_ONE as int) * (FRAC_ONE as int),
        );
        vstd::arithmetic::div_mod::lemma_div_is_ordered_by_denominator(
            (FRAC_ONE as int) * (FRAC_ONE as int),
            FRAC_ONE as int,
            f as int + FRAC_ONE as int,
        );
    }
    let u: i128 = div_i128((fw - one) * one, fw + one);
    proof {
        lemma_mul_abs_bound(u as int, u as int, FRAC_ONE as int, FRAC_ONE as int);
        lemma_mul_abs_bound(u as int * u as int, u as int,
            (FRAC_ONE as int) * (FRAC_ONE as int), FRAC_ONE as int);
        lemma_div_t_shrink(
            2 * ((u as int * u as int) * u as int),
            3 * (FRAC_ONE as int) * (FRAC_ONE as int),
            2 * (((FRAC_ONE as int) * (FRAC_ONE as int)) * (FRAC_ONE as int)),
        );
    }
    let l: i128 = 2 * u + div_i128(2 * (u * u * u), 3 * one * one);
    proof {
        lemma_div_t_shrink(l as int, 60, 2_666_668);
        lemma_mul_abs_bound(l as int, l as int, 2_666_668, 2_666_668);
        lemma_div_t_shrink(l as int * l as int, 7200 * (FRAC_ONE as int),
            2_666_668int * 2_666_668int);
    }
    let g = clamp_i128(one + div_i128(l, 60) + div_i128(l * l, 7200 * one), FRAC_ONE);
    if g < 0 {
        0
    } else {
        g
    }
}

/// `g^n` in fixed point, by the left-to-right product the spec unfolds to.
pub fn pow_frac(g: i64, n: u64) -> (r: i64)
    requires
        0 <= g <= FRAC_ONE,
    ensures
        r == pow_frac_spec(g as int, n as nat),
        0 <= r <= FRAC_ONE,
{
    let mut r: i64 = FRAC_ONE;
    let mut i: u64 = 0;
    while i < n
        invariant
            0 <= i <= n,
            0 <= g <= FRAC_ONE,
            0 <= r <= FRAC_ONE,
            r == pow_frac_spec(g as int, i as nat),
        decreases n - i,
    {
        proof {
            lemma_mul_abs_bound(g as int, r as int, FRAC_ONE as int, FRAC_ONE as int);
            lemma_div_t_shrink(g as int * r as int, FRAC_ONE as int,
                (FRAC_ONE as int) * (FRAC_ONE as int));
            vstd::arithmetic::div_mod::lemma_div_pos_is_pos(g as int * r as int,
                FRAC_ONE as int);
            assert(g as int * r as int >= 0) by (nonlinear_arith)
                requires
                    g >= 0,
                    r >= 0,
            ;
        }
        r = div_i128((g as i128) * (r as i128), FRAC_ONE as i128) as i64;
        i = i + 1;
    }
    r
}


/// A per-second retention of exactly one yields a per-tick retention of
/// exactly one: no atmosphere, no damping.
pub proof fn lemma_per_tick_one()
    ensures
        per_tick_spec(FRAC_ONE as int) == FRAC_ONE as int,
{
    vstd::arithmetic::div_mod::lemma_div_of0(2 * (FRAC_ONE as int));
    vstd::arithmetic::div_mod::lemma_div_of0(3 * (FRAC_ONE as int) * (FRAC_ONE as int));
    vstd::arithmetic::div_mod::lemma_div_of0(60);
    vstd::arithmetic::div_mod::lemma_div_of0(7200 * (FRAC_ONE as int));
}

} // verus!
