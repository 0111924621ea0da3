//! The fixed-step scheduler: frame time in, whole steps out, remainder
//! carried.

use rocket_sim::main_state::MainState;
use rocket_sim::physics::Vec2;

/// A state whose step count is directly observable: with no gravity and a
/// velocity of 60 units/s, every fixed step moves the rocket by exactly
/// 1000 milli-units.
fn counting_state() -> MainState {
    let mut s = MainState::new();
    s.planets.clear();
    s.cut_throttle();
    s.kinematics.vel = Vec2 { x: 60_000, y: 0 };
    s
}

/// Frame times summing to exactly N nominal frames run exactly N steps and
/// leave a zero remainder.
#[test]
fn round_trip_conservation_of_simulated_time() {
    let mut s = counting_state();
    // 700 + 300 + 1500 + 500 = 3000 time units = 3 ticks
    for dt in [700u64, 300, 1500, 500] {
        s.update(dt).unwrap();
    }
    assert_eq!(s.kinematics.pos.x, 3 * 1000);
    assert_eq!(s.leftover_time, 0);
}

/// A short frame runs no step but nothing is lost: the remainder carries.
#[test]
fn fractional_frames_carry_over() {
    let mut s = counting_state();
    s.update(999).unwrap();
    assert_eq!(s.kinematics.pos.x, 0);
    assert_eq!(s.leftover_time, 999);
    s.update(1).unwrap();
    assert_eq!(s.kinematics.pos.x, 1000);
    assert_eq!(s.leftover_time, 0);
}

/// The speed multiplier multiplies the number of steps per frame.
#[test]
fn multiplier_scales_step_count() {
    let mut s = counting_state();
    s.set_time_speed(3);
    s.update(1000).unwrap();
    assert_eq!(s.kinematics.pos.x, 3 * 1000);
    assert_eq!(s.leftover_time, 0);
}

/// The multiplier is clamped into its legal range at the input boundary.
#[test]
fn multiplier_is_clamped() {
    let mut s = MainState::new();
    s.set_time_speed(0);
    assert_eq!(s.steps.0, 1);
    s.set_time_speed(1_000_000);
    assert_eq!(s.steps.0, 100);
    s.set_time_speed(42);
    assert_eq!(s.steps.0, 42);
}

/// The throttle delta is clamped into [0, 1] at the input boundary.
#[test]
fn throttle_is_clamped() {
    let mut s = MainState::new();
    for _ in 0..1000 {
        s.adjust_throttle(true, 1000);
    }
    assert_eq!(s.rocket.thrust, 1_000_000);
    for _ in 0..1000 {
        s.adjust_throttle(false, 1000);
    }
    assert_eq!(s.rocket.thrust, 0);
    s.adjust_throttle(true, 1000);
    // 0.1 per second over one nominal frame: 100000/60 = 1666
    assert_eq!(s.rocket.thrust, 1666);
}

/// Steering turns at 0.75 rad/s and keeps the angle normalized into one
/// full turn.
#[test]
fn steering_wraps_the_angle() {
    let mut s = MainState::new();
    // one nominal frame: 750000/60 = 12500 micro-radians
    s.steer(true, 1000);
    assert_eq!(s.rocket.angle, 12_500);
    s.steer(false, 1000);
    s.steer(false, 1000);
    // wrapped below zero into [0, 2 pi)
    assert_eq!(s.rocket.angle, 6_283_185 - 12_500);
    for _ in 0..1000 {
        s.steer(true, 1000);
        assert!(0 <= s.rocket.angle && s.rocket.angle < 6_283_185);
    }
}
