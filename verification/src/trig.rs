//! Fixed-point sine and cosine for the rocket's orientation angle.
//!
//! Angles are micro-radians in `[0, TWO_PI_MICRO)`; results are fractions at
//! the [`crate::FRAC_ONE`] scale.  Both functions evaluate a truncated Taylor
//! series in Horner form over the shifted angle in `(-pi, pi]`; the contract
//! states the exact integer formula, and the final value is clamped into
//! `[-FRAC_ONE, FRAC_ONE]`.

use vstd::prelude::*;

use crate::math::{clamp_i128, clamp_spec, div_i128, div_t, lemma_div_t_shrink,
    lemma_mul_abs_bound};
use crate::{FRAC_ONE, PI_MICRO, TWO_PI_MICRO};

verus! {

/// Shift an angle from `[0, 2 pi)` to the symmetric interval `(-pi, pi]`.
pub open spec fn wrap_to_pi(a: int) -> int {
    if a <= PI_MICRO {
        a
    } else {
        a - TWO_PI_MICRO
    }
}

/// One Horner stage of the series: `1 - (u / d!') * inner`, everything at the
/// `FRAC_ONE` scale, where `u` is the squared angle and `d` the pair of
/// factorial divisors for this stage.
pub open spec fn stage(u: int, inner: int, d: int) -> int {
    FRAC_ONE - div_t(u * inner, d * (FRAC_ONE as int))
}

/// The exact fixed-point sine polynomial over `t` in `(-pi, pi]` micro-radians.
pub open spec fn sin_poly(t: int) -> int {
    let u = div_t(t * t, FRAC_ONE as int);
    let p7 = stage(u, FRAC_ONE as int, 210);
    let p6 = stage(u, p7, 156);
    let p5 = stage(u, p6, 110);
    let p4 = stage(u, p5, 72);
    let p3 = stage(u, p4, 42);
    let p2 = stage(u, p3, 20);
    let p1 = stage(u, p2, 6);
    clamp_spec(div_t(t * p1, FRAC_ONE as int), -(FRAC_ONE as int), FRAC_ONE as int)
}

/// The exact fixed-point cosine polynomial over `t` in `(-pi, pi]`
/// micro-radians.
pub open spec fn cos_poly(t: int) -> int {
    let u = div_t(t * t, FRAC_ONE as int);
    let z8 = stage(u, FRAC_ONE as int, 240);
    let z7 = stage(u, z8, 182);
    let z6 = stage(u, z7, 132);
    let z5 = stage(u, z6, 90);
    let z4 = stage(u, z5, 56);
    let z3 = stage(u, z4, 30);
    let z2 = stage(u, z3, 12);
    let z1 = stage(u, z2, 2);
    clamp_spec(z1, -(FRAC_ONE as int), FRAC_ONE as int)
}

/// Sine of a normalized angle, as a fraction in `[-FRAC_ONE, FRAC_ONE]`.
pub open spec fn sin_frac_spec(a: int) -> int {
    sin_poly(wrap_to_pi(a))
}

/// Cosine of a normalized angle, as a fraction in `[-FRAC_ONE, FRAC_ONE]`.
pub open spec fn cos_frac_spec(a: int) -> int {
    cos_poly(wrap_to_pi(a))
}

/// Magnitude bound for the squared shifted angle at the `FRAC_ONE` scale.
proof fn lemma_u_bound(t: int) -> (u: int)
    requires
        -(PI_MICRO as int) < t <= PI_MICRO as int,
    ensures
        u == div_t(t * t, FRAC_ONE as int),
        0 <= u <= 10_000_000,
        0 <= t * t <= (PI_MICRO as int) * (PI_MICRO as int),
{
    assert(0 <= t * t <= (PI_MICRO as int) * (PI_MICRO as int)) by (nonlinear_arith)
        requires
            -(PI_MICRO as int) < t <= PI_MICRO as int,
    ;
    lemma_div_t_shrink(t * t, FRAC_ONE as int, (PI_MICRO as int) * (PI_MICRO as int));
    vstd::arithmetic::div_mod::lemma_div_pos_is_pos(t * t, FRAC_ONE as int);
    div_t(t * t, FRAC_ONE as int)
}

/// One executable Horner stage, with an explicit magnitude bound carried as a
/// ghost argument.
fn stage_exec(u: i128, inner: i128, d: i128, Ghost(bound): Ghost<int>) -> (r: i128)
    requires
        0 <= u <= 10_000_000,
        2 <= d <= 240,
        0 <= bound <= 20_000_000,
        -bound <= inner <= bound,
    ensures
        r == stage(u as int, inner as int, d as int),
        -(FRAC_ONE + div_t(10_000_000 * bound, d * (FRAC_ONE as int))) <= r
            <= FRAC_ONE + div_t(10_000_000 * bound, d * (FRAC_ONE as int)),
{
    proof {
        lemma_mul_abs_bound(u as int, inner as int, 10_000_000, bound);
        lemma_div_t_shrink(u as int * inner as int, d * (FRAC_ONE as int), 10_000_000 * bound);
    }
    (FRAC_ONE as i128) - div_i128(u * inner, d * (FRAC_ONE as i128))
}

/// Sine of an angle in `[0, 2 pi)` micro-radians.
pub fn sin_frac(a: i64) -> (r: i64)
    requires
        0 <= a < TWO_PI_MICRO,
    ensures
        r == sin_frac_spec(a as int),
        -FRAC_ONE <= r <= FRAC_ONE,
{
    let t: i128 = if a <= PI_MICRO {
        a as i128
    } else {
        (a as i128) - (TWO_PI_MICRO as i128)
    };
    proof {
        lemma_u_bound(t as int);
    }
    let u: i128 = div_i128(t * t, FRAC_ONE as i128);
    let p7 = stage_exec(u, FRAC_ONE as i128, 210, Ghost(1_000_000));
    let p6 = stage_exec(u, p7, 156, Ghost(1_047_620));
    let p5 = stage_exec(u, p6, 110, Ghost(1_067_160));
    let p4 = stage_exec(u, p5, 72, Ghost(1_097_016));
    let p3 = stage_exec(u, p4, 42, Ghost(1_152_364));
    let p2 = stage_exec(u, p3, 20, Ghost(1_274_373));
    let p1 = stage_exec(u, p2, 6, Ghost(1_637_187));
    proof {
        lemma_mul_abs_bound(t as int, p1 as int, PI_MICRO as int, 3_728_646);
    }
    let s = div_i128(t * p1, FRAC_ONE as i128);
    clamp_i128(s, FRAC_ONE)
}

/// Cosine of an angle in `[0, 2 pi)` micro-radians.
pub fn cos_frac(a: i64) -> (r: i64)
    requires
        0 <= a < TWO_PI_MICRO,
    ensures
        r == cos_frac_spec(a as int),
        -FRAC_ONE <= r <= FRAC_ONE,
{
    let t: i128 = if a <= PI_MICRO {
        a as i128
    } else {
        (a as i128) - (TWO_PI_MICRO as i128)
    };
    proof {
        lemma_u_bound(t as int);
    }
    let u: i128 = div_i128(t * t, FRAC_ONE as i128);
    let z8 = stage_exec(u, FRAC_ONE as i128, 240, Ghost(1_000_000));
    let z7 = stage_exec(u, z8, 182, Ghost(1_041_667));
    let z6 = stage_exec(u, z7, 132, Ghost(1_057_235));
    let z5 = stage_exec(u, z6, 90, Ghost(1_080_094));
    let z4 = stage_exec(u, z5, 56, Ghost(1_120_011));
    let z3 = stage_exec(u, z4, 30, Ghost(1_200_003));
    let z2 = stage_exec(u, z3, 12, Ghost(1_400_001));
    let z1 = stage_exec(u, z2, 2, Ghost(2_166_668));
    clamp_i128(z1, FRAC_ONE)
}

} // verus!
