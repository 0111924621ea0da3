//! A fixed-timestep orbital-mechanics engine: multi-body gravity with
//! atmospheric drag, player thrust, a frame-time scheduler, a resumable
//! trajectory forecaster, and a floating-origin recentering scheme.
//!
//! All state is kept in deterministic fixed-point integers:
//! * coordinates, velocities, accelerations, masses and fuel are scaled by
//!   1000 (milli-units);
//! * dimensionless fractions (throttle, damping factors, trig values) and
//!   angles in radians are scaled by [`FRAC_ONE`] (micro-units);
//! * real time is measured in units of 1/60000 s, so that the fixed physics
//!   tick of 1/60 s is exactly [`TICK_TU`] time units.
//!
//! A frame driver is expected to call, in order: [`MainState::update`] with
//! the elapsed real time, then [`MainState::add_trajectory_points`] under its
//! own wall-clock budget, then [`update_offset_sys`], and finally read the
//! state out for display.

use vstd::prelude::*;

pub mod error;
pub mod math;
pub mod trig;
pub mod damping;
pub mod planet;
pub mod rocket;
pub mod physics;
pub mod trajectory;
pub mod main_state;

verus! {

/// Fixed-point scale of dimensionless fractions and of angles (micro-units).
pub const FRAC_ONE: i64 = 1_000_000;

/// One half at the [`FRAC_ONE`] scale.
pub const FRAC_HALF: i64 = 500_000;

/// Gravitational constant of the simulated universe (plain units).
pub const GRAVITY: i64 = 1350;

/// Extra gain applied to thrust acceleration (plain units).
pub const THRUST_MULTIPLIER: i64 = 90;

/// pi in micro-radians.
pub const PI_MICRO: i64 = 3_141_593;

/// 2 * pi in micro-radians; angles are normalized into `[0, TWO_PI_MICRO)`.
pub const TWO_PI_MICRO: i64 = 6_283_185;

/// Positions are saturated into `[-POS_LIMIT, POS_LIMIT]` (milli-units).
pub const POS_LIMIT: i64 = 1_000_000_000_000;

/// Velocities are saturated into `[-VEL_LIMIT, VEL_LIMIT]` (milli-units/s).
pub const VEL_LIMIT: i64 = 1_000_000_000_000;

/// Accelerations are saturated into `[-ACC_LIMIT, ACC_LIMIT]`.
pub const ACC_LIMIT: i64 = 1_000_000_000_000_000;

/// Upper bound on body masses and on rocket fuel/structure masses.
pub const MASS_LIMIT: i64 = 1_000_000_000_000;

/// Upper bound on the rocket's burn rate and thrust factor.
pub const RATE_LIMIT: i64 = 1_000_000_000;

/// The accumulated recentering offset saturates at this magnitude.
pub const OFFSET_LIMIT: i64 = 4_000_000_000_000_000_000;

/// Real-time units per second: one unit is 1/60000 s.
pub const TU_PER_SECOND: u64 = 60_000;

/// Real-time units per fixed physics tick (1/60 s).
pub const TICK_TU: u64 = 1000;

/// Largest simulation-speed multiplier the scheduler accepts.
pub const MAX_MULTIPLIER: u64 = 100;

/// Largest frame time (in time units) the scheduler accepts: about 16 s.
pub const MAX_FRAME_TU: u64 = 1_000_000;

/// Largest number of ticks a single physics step may cover.
pub const MAX_STEP_TICKS: u64 = 60_000;

} // verus!
