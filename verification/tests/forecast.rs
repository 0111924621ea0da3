//! The trajectory forecaster: invalidation, reseeding, budgeted resumable
//! refill.

use rocket_sim::main_state::MainState;
use rocket_sim::physics::Vec2;

/// While the throttle is open the forecast is invalid: cleared and
/// reseeded every frame.
#[test]
fn thrusting_invalidates_the_forecast() {
    let mut s = MainState::new();
    s.full_throttle();
    s.add_trajectory_points(50);
    assert!(!s.trajectory.valid);
    assert_eq!(s.trajectory.points.len(), 0);
    assert_eq!(s.shadow_rocket, s.rocket);
    assert_eq!(s.shadow_kinematics, s.kinematics);
}

/// Setting the throttle to full and back to zero invalidates: the buffer
/// is cleared, the shadow state is reseeded from the exact live state, and
/// the flag stays false until a later frame refills.
#[test]
fn invalidation_reseeds_from_live_state() {
    let mut s = MainState::new();
    s.kinematics.pos = Vec2 { x: 0, y: 8_000_000 };
    s.cut_throttle();
    s.add_trajectory_points(50);
    s.add_trajectory_points(50);
    assert!(s.trajectory.valid);
    assert!(s.trajectory.points.len() > 0);

    s.full_throttle();
    s.add_trajectory_points(50);
    assert!(!s.trajectory.valid);
    assert_eq!(s.trajectory.points.len(), 0);

    s.cut_throttle();
    // the control input changed, so this frame still invalidates
    s.add_trajectory_points(50);
    assert!(!s.trajectory.valid, "valid stays false until a refill occurs");
    assert_eq!(s.trajectory.points.len(), 0, "no stale samples");
    assert_eq!(s.shadow_rocket, s.rocket);
    assert_eq!(s.shadow_kinematics, s.kinematics);

    // and the next quiet frame refills
    s.add_trajectory_points(50);
    assert!(s.trajectory.valid);
    assert_eq!(s.trajectory.points.len(), 50);
}

/// The refill is budgeted and resumable: a later frame continues where the
/// previous one stopped, never recomputing the prefix.
#[test]
fn refill_resumes_across_frames() {
    let mut s = MainState::new();
    s.kinematics.pos = Vec2 { x: 0, y: 8_000_000 };
    s.cut_throttle();
    s.add_trajectory_points(0);  // invalidation frame (input changed)
    s.add_trajectory_points(5);
    assert!(s.trajectory.valid);
    assert_eq!(s.trajectory.points.len(), 5);
    let prefix: Vec<Vec2> = s.trajectory.points.clone();
    s.add_trajectory_points(5);
    assert_eq!(s.trajectory.points.len(), 10);
    for i in 0..5 {
        assert_eq!(s.trajectory.points[i], prefix[i]);
    }
}

/// The buffer never exceeds its capacity, however large the budget.
#[test]
fn buffer_is_bounded() {
    let mut s = MainState::new();
    s.kinematics.pos = Vec2 { x: 0, y: 8_000_000 };
    s.cut_throttle();
    s.add_trajectory_points(0);
    s.add_trajectory_points(1_000_000);
    assert!(s.trajectory.valid);
    assert_eq!(s.trajectory.points.len(), s.trajectory.max_len);
    s.add_trajectory_points(1_000_000);
    assert!(s.trajectory.points.len() <= s.trajectory.max_len);
}

/// The forecast samples are exactly what the shared physics step produces
/// from the seeded shadow state, one coarse step per sample.
#[test]
fn forecast_matches_the_physics_step() {
    let mut s = MainState::new();
    s.kinematics.pos = Vec2 { x: 0, y: 8_000_000 };
    s.kinematics.vel = Vec2 { x: 300_000, y: 0 };
    s.cut_throttle();
    s.add_trajectory_points(0);
    s.add_trajectory_points(3);
    let forecast: Vec<Vec2> = s.trajectory.points.clone();
    assert_eq!(forecast.len(), 3);
    // Replay: each sample is one physics step of needed_ticks = 30 ticks
    // applied to the reseeded (= live) state.
    let mut rocket = s.rocket;
    let mut kin = s.kinematics;
    for sample in forecast {
        rocket_sim::physics::physics_step(&mut rocket, &mut kin, &s.planets, 30);
        assert_eq!(kin.pos, sample);
    }
}

/// A fresh world's forecast starts empty and invalid.
#[test]
fn fresh_forecast_is_empty() {
    let s = MainState::new();
    assert!(!s.trajectory.valid);
    assert_eq!(s.trajectory.points.len(), 0);
    assert_eq!(s.trajectory.max_len, rocket_sim::main_state::FORECAST_MAX_POINTS);
}
