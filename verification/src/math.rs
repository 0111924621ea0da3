//! Scalar helpers for the fixed-point arithmetic the engine is built on:
//! truncating division, clamping into a symmetric range, and the integer
//! square root.  Every executable helper is specified exactly, so the
//! physics contracts above them can state results as closed integer
//! formulas.

use vstd::prelude::*;

verus! {

/// Truncating division (rounds toward zero) for a positive divisor.
/// This is the rounding rule of Rust's `/` on signed integers and the one
/// every fixed-point operation in this crate uses.
pub open spec fn div_t(a: int, b: int) -> int
    recommends
        b > 0,
{
    if a >= 0 {
        a / b
    } else {
        -((-a) / b)
    }
}

/// Clamp `v` into `[lo, hi]`.
pub open spec fn clamp_spec(v: int, lo: int, hi: int) -> int
    recommends
        lo <= hi,
{
    if v < lo {
        lo
    } else if v > hi {
        hi
    } else {
        v
    }
}

/// Largest `r >= 0` with `r * r <= n` (0 for negative arguments).
pub open spec fn sqrt_floor(n: int) -> int
    decreases n,
{
    if n <= 0 {
        0
    } else {
        let r = sqrt_floor(n - 1);
        if (r + 1) * (r + 1) <= n {
            r + 1
        } else {
            r
        }
    }
}

pub proof fn lemma_sqrt_floor_bounds(n: int)
    requires
        n >= 0,
    ensures
        sqrt_floor(n) >= 0,
        sqrt_floor(n) * sqrt_floor(n) <= n,
        n < (sqrt_floor(n) + 1) * (sqrt_floor(n) + 1),
    decreases n,
{
    if n == 0 {
    } else {
        lemma_sqrt_floor_bounds(n - 1);
        let r = sqrt_floor(n - 1);
        if (r + 1) * (r + 1) <= n {
            assert(n < (r + 2) * (r + 2)) by (nonlinear_arith)
                requires
                    n - 1 < (r + 1) * (r + 1),
                    r >= 0,
            ;
        }
    }
}

pub proof fn lemma_sqrt_floor_unique(n: int, r: int)
    requires
        n >= 0,
        r >= 0,
        r * r <= n,
        n < (r + 1) * (r + 1),
    ensures
        r == sqrt_floor(n),
{
    lemma_sqrt_floor_bounds(n);
    let s = sqrt_floor(n);
    assert(r == s) by (nonlinear_arith)
        requires
            r >= 0,
            s >= 0,
            r * r <= n,
            n < (r + 1) * (r + 1),
            s * s <= n,
            n < (s + 1) * (s + 1),
    ;
}

/// A positive argument has a positive floored square root.
pub proof fn lemma_sqrt_floor_pos(n: int)
    requires
        n >= 1,
    ensures
        sqrt_floor(n) >= 1,
{
    lemma_sqrt_floor_bounds(n);
    let s = sqrt_floor(n);
    assert(s >= 1) by (nonlinear_arith)
        requires
            s >= 0,
            n < (s + 1) * (s + 1),
            n >= 1,
    ;
}


/// If `b * b <= n` for some `b >= 0`, then `sqrt_floor(n) >= b`.
pub proof fn lemma_sqrt_floor_ge(n: int, b: int)
    requires
        0 <= b,
        b * b <= n,
    ensures
        sqrt_floor(n) >= b,
{
    lemma_sqrt_floor_bounds(n);
    let s = sqrt_floor(n);
    assert(s >= b) by (nonlinear_arith)
        requires
            s >= 0,
            b >= 0,
            n < (s + 1) * (s + 1),
            b * b <= n,
    ;
}

/// If `0 <= n <= b * b` then `sqrt_floor(n) <= b`.
pub proof fn lemma_sqrt_floor_le(n: int, b: int)
    requires
        0 <= n,
        0 <= b,
        n <= b * b,
    ensures
        sqrt_floor(n) <= b,
{
    lemma_sqrt_floor_bounds(n);
    let s = sqrt_floor(n);
    assert(s <= b) by (nonlinear_arith)
        requires
            s >= 0,
            b >= 0,
            s * s <= n,
            n <= b * b,
    ;
}

/// Magnitude bound for a product: |a * b| <= ca * cb when |a| <= ca and
/// |b| <= cb.
pub proof fn lemma_mul_abs_bound(a: int, b: int, ca: int, cb: int)
    requires
        -ca <= a <= ca,
        -cb <= b <= cb,
    ensures
        -(ca * cb) <= a * b <= ca * cb,
{
    assert(-(ca * cb) <= a * b <= ca * cb) by (nonlinear_arith)
        requires
            -ca <= a <= ca,
            -cb <= b <= cb,
    ;
}

/// Truncating division never grows a magnitude: a bound on the dividend
/// bounds the quotient, and the quotient keeps the dividend's sign.
pub proof fn lemma_div_t_abs_le(a: int, b: int, c: int)
    requires
        b > 0,
        -c <= a <= c,
        0 <= c,
    ensures
        -c <= div_t(a, b) <= c,
        a >= 0 ==> 0 <= div_t(a, b) <= a,
        a <= 0 ==> a <= div_t(a, b) <= 0,
{
    if a >= 0 {
        assert(0 <= a / b <= a) by (nonlinear_arith)
            requires
                a >= 0,
                b > 0,
        ;
    } else {
        assert(0 <= (-a) / b <= -a) by (nonlinear_arith)
            requires
                -a >= 0,
                b > 0,
        ;
    }
}

/// A bound on the dividend gives a bound on the truncating quotient:
/// |a| <= c implies |div_t(a, b)| <= c / b.
pub proof fn lemma_div_t_shrink(a: int, b: int, c: int)
    requires
        b > 0,
        0 <= c,
        -c <= a <= c,
    ensures
        -(c / b) <= div_t(a, b) <= c / b,
{
    if a >= 0 {
        vstd::arithmetic::div_mod::lemma_div_is_ordered(a, c, b);
        vstd::arithmetic::div_mod::lemma_div_pos_is_pos(a, b);
        vstd::arithmetic::div_mod::lemma_div_pos_is_pos(c, b);
    } else {
        vstd::arithmetic::div_mod::lemma_div_is_ordered(-a, c, b);
        vstd::arithmetic::div_mod::lemma_div_pos_is_pos(-a, b);
        vstd::arithmetic::div_mod::lemma_div_pos_is_pos(c, b);
    }
}

/// The sign of a truncating quotient follows the sign of the dividend.
pub proof fn lemma_div_t_sign(a: int, b: int)
    requires
        b > 0,
    ensures
        a >= 0 ==> div_t(a, b) >= 0,
        a <= 0 ==> div_t(a, b) <= 0,
        div_t(a, b) * a >= 0,
{
    lemma_div_t_abs_le(a, b, if a >= 0 { a } else { -a });
    let q = div_t(a, b);
    assert(q * a >= 0) by (nonlinear_arith)
        requires
            (a >= 0 && q >= 0) || (a <= 0 && q <= 0),
    ;
}

/// Truncating division of an `i128` by a positive divisor.
pub fn div_i128(a: i128, b: i128) -> (r: i128)
    requires
        b > 0,
    ensures
        r == div_t(a as int, b as int),
{
    a / b
}

/// Clamp an `i128` into the symmetric `i64` range `[-bound, bound]`.
pub fn clamp_i128(v: i128, bound: i64) -> (r: i64)
    requires
        bound >= 0,
    ensures
        r == clamp_spec(v as int, -(bound as int), bound as int),
{
    if v < -(bound as i128) {
        -bound
    } else if v > bound as i128 {
        bound
    } else {
        v as i64
    }
}

/// Integer square root: the largest `r` with `r * r <= n`.
pub fn isqrt_u128(n: u128) -> (r: u128)
    ensures
        r == sqrt_floor(n as int),
        r * r <= n,
{
    let mut lo: u128 = 0;
    let mut hi: u128 = (u64::MAX as u128) + 1;
    if n < hi {
        hi = n + 1;
    }
    proof {
        if n >= (u64::MAX as u128) + 1 {
            assert((u64::MAX as int + 1) * (u64::MAX as int + 1) > u128::MAX as int)
                by (nonlinear_arith);
        } else {
            assert(n < (n as int + 1) * (n as int + 1)) by (nonlinear_arith);
        }
    }
    while hi - lo > 1
        invariant
            0 <= lo < hi,
            hi <= (u64::MAX as u128) + 1,
            lo * lo <= n,
            n < hi * hi,
        decreases hi - lo,
    {
        let mid = lo + (hi - lo) / 2;
        assert(lo < mid < hi);
        assert(mid * mid <= (u64::MAX as u128) * ((u64::MAX as u128) + 1)) by (nonlinear_arith)
            requires
                0 <= mid,
                mid < (u64::MAX as u128) + 1,
        ;
        if mid * mid <= n {
            lo = mid;
        } else {
            hi = mid;
        }
    }
    proof {
        if n >= (u64::MAX as u128) + 1 {
            assert(n < hi * hi);
        }
        assert(n < (lo + 1) * (lo + 1));
        lemma_sqrt_floor_unique(n as int, lo as int);
    }
    lo
}


/// Euclidean remainder of an `i128` by a positive divisor: the result the
/// spec-level `%` denotes, always in `[0, b)`.
pub fn mod_euclid_i128(a: i128, b: i128) -> (r: i128)
    requires
        b > 0,
        a > i128::MIN,
    ensures
        r == (a as int) % (b as int),
        0 <= r < b,
{
    proof {
        if a >= 0 {
            vstd::arithmetic::div_mod::lemma_fundamental_div_mod(a as int, b as int);
            vstd::arithmetic::div_mod::lemma_mod_bound(a as int, b as int);
        } else {
            vstd::arithmetic::div_mod::lemma_fundamental_div_mod(-(a as int), b as int);
            vstd::arithmetic::div_mod::lemma_mod_bound(-(a as int), b as int);
        }
    }
    let q = a / b;
    proof {
        if a >= 0 {
            assert(q as int * (b as int) == (b as int) * ((a as int) / (b as int)))
                by (nonlinear_arith)
                requires
                    q == (a as int) / (b as int),
            ;
        } else {
            assert(q as int * (b as int) == -((b as int) * ((-(a as int)) / (b as int))))
                by (nonlinear_arith)
                requires
                    q == -((-(a as int)) / (b as int)),
            ;
        }
    }
    let r0 = a - q * b;
    proof {
        let qe = div_t(a as int, b as int);
        if a >= 0 {
        } else {
            let m = (-(a as int)) % (b as int);
            assert(r0 == -m);
            if m == 0 {
                vstd::arithmetic::div_mod::lemma_fundamental_div_mod_converse(
                    a as int, b as int, -((-(a as int)) / (b as int)), 0);
            } else {
                assert(a as int == (-((-(a as int)) / (b as int)) - 1) * (b as int)
                    + ((b as int) - m)) by (nonlinear_arith)
                    requires
                        -(a as int) == (b as int) * ((-(a as int)) / (b as int)) + m,
                ;
                vstd::arithmetic::div_mod::lemma_fundamental_div_mod_converse(
                    a as int, b as int, -((-(a as int)) / (b as int)) - 1, b - m);
            }
        }
    }
    if r0 < 0 {
        r0 + b
    } else {
        r0
    }
}

} // verus!
