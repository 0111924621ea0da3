//! The fixed-point numeric kernel against floating-point references.

use rocket_sim::damping::{damping_per_tick, pow_frac};
use rocket_sim::math::{clamp_i128, div_i128, isqrt_u128, mod_euclid_i128};
use rocket_sim::trig::{cos_frac, sin_frac};
use rocket_sim::FRAC_ONE;

#[test]
fn isqrt_exact_values() {
    assert_eq!(isqrt_u128(0), 0);
    assert_eq!(isqrt_u128(1), 1);
    assert_eq!(isqrt_u128(2), 1);
    assert_eq!(isqrt_u128(3), 1);
    assert_eq!(isqrt_u128(4), 2);
    assert_eq!(isqrt_u128(15), 3);
    assert_eq!(isqrt_u128(16), 4);
    assert_eq!(isqrt_u128(999_999), 999);
    assert_eq!(isqrt_u128(1_000_000), 1000);
    assert_eq!(isqrt_u128(u64::MAX as u128), 4_294_967_295);
    assert_eq!(isqrt_u128((1u128 << 100) - 1), (1u128 << 50) - 1);
}

#[test]
fn division_truncates_toward_zero() {
    assert_eq!(div_i128(7, 2), 3);
    assert_eq!(div_i128(-7, 2), -3);
    assert_eq!(div_i128(0, 5), 0);
    assert_eq!(div_i128(-1, 1_000_000), 0);
}

#[test]
fn euclidean_remainder_is_nonnegative() {
    assert_eq!(mod_euclid_i128(7, 3), 1);
    assert_eq!(mod_euclid_i128(-7, 3), 2);
    assert_eq!(mod_euclid_i128(-6, 3), 0);
    assert_eq!(mod_euclid_i128(6_283_186, 6_283_185), 1);
    assert_eq!(mod_euclid_i128(-1, 6_283_185), 6_283_184);
}

#[test]
fn clamping_saturates() {
    assert_eq!(clamp_i128(5, 10), 5);
    assert_eq!(clamp_i128(15, 10), 10);
    assert_eq!(clamp_i128(-15, 10), -10);
}

/// Fixed-point sine and cosine track the real functions to a few
/// hundred-thousandths over the whole circle.
#[test]
fn trig_tracks_the_real_functions() {
    let mut a: i64 = 0;
    while a < 6_283_185 {
        let rad = a as f64 / 1e6;
        let s = sin_frac(a) as f64 / 1e6;
        let c = cos_frac(a) as f64 / 1e6;
        assert!((s - rad.sin()).abs() < 1e-4, "sin at {a}: {s}");
        assert!((c - rad.cos()).abs() < 1e-4, "cos at {a}: {c}");
        a += 39_119;
    }
    assert_eq!(sin_frac(0), 0);
    assert_eq!(cos_frac(0), FRAC_ONE);
}

/// The per-tick retention fraction approximates the 60th root of the
/// per-second fraction.
#[test]
fn per_tick_damping_tracks_the_real_root() {
    for f in [500_000i64, 600_000, 750_000, 900_000, 973_751, 999_999] {
        let real = (f as f64 / 1e6).powf(1.0 / 60.0);
        let got = damping_per_tick(f) as f64 / 1e6;
        assert!((got - real).abs() < 2e-4, "per-tick at {f}: {got} vs {real}");
    }
    assert_eq!(damping_per_tick(FRAC_ONE), FRAC_ONE);
}

/// Scaled powers track the real power function, making damping step-size
/// independent: n ticks of the per-tick fraction approximate f^(n/60).
#[test]
fn damping_power_is_step_size_independent() {
    for f in [600_000i64, 900_000] {
        let g = damping_per_tick(f);
        for n in [1u64, 30, 60, 120] {
            let real = (f as f64 / 1e6).powf(n as f64 / 60.0);
            let got = pow_frac(g, n) as f64 / 1e6;
            assert!((got - real).abs() < 2e-2, "pow at {f}^{n}/60: {got} vs {real}");
        }
    }
    assert_eq!(pow_frac(FRAC_ONE, 1000), FRAC_ONE);
    assert_eq!(pow_frac(0, 1), 0);
    assert_eq!(pow_frac(500_000, 0), FRAC_ONE);
}
