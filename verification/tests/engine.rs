//! End-to-end behavior of the live simulation engine.

use rocket_sim::main_state::MainState;
use rocket_sim::physics::{calculate_planet_interaction, Kinematics, Vec2};
use rocket_sim::planet::{CelestialBody, Planet};
use rocket_sim::rocket::{Altitude, RocketCrashed};
use rocket_sim::{FRAC_ONE, GRAVITY};

fn zero_kin() -> Kinematics {
    Kinematics {
        pos: Vec2 { x: 0, y: 0 },
        vel: Vec2 { x: 0, y: 0 },
        acc: Vec2 { x: 0, y: 0 },
    }
}

/// With no gravity sources and no thrust, one fixed step is exactly the
/// semi-implicit Euler update.
#[test]
fn coasting_step_is_exact_euler() {
    let mut s = MainState::new();
    s.planets.clear();
    s.cut_throttle();
    s.kinematics.pos = Vec2 { x: 1_000_000, y: 2_000_000 };
    s.kinematics.vel = Vec2 { x: 3000, y: -2000 };
    s.update(1000).unwrap();
    // pos += vel * (1/60): 3000/60 = 50, -2000/60 = -33 (toward zero)
    assert_eq!(s.kinematics.pos.x, 1_000_050);
    assert_eq!(s.kinematics.pos.y, 2_000_000 - 33);
    assert_eq!(s.kinematics.vel.x, 3000);
    assert_eq!(s.kinematics.vel.y, -2000);
    assert_eq!(s.kinematics.acc.x, 0);
    assert_eq!(s.kinematics.acc.y, 0);
    assert!(!s.crashed.0);
}

/// A rocket at rest above a single planet keeps accelerating toward it,
/// and every state component stays a well-defined finite integer.
#[test]
fn gravity_always_points_at_the_planet() {
    let mut s = MainState::new();
    s.cut_throttle();
    // 10000 units above the planet's center: outside the atmosphere.
    s.kinematics.pos = Vec2 { x: 0, y: 10_000_000 };
    let mut last_vel_y = 0i64;
    for _ in 0..100 {
        s.update(1000).unwrap();
        assert!(!s.crashed.0);
        // velocity toward the planet grows every step
        assert!(s.kinematics.vel.y < last_vel_y);
        last_vel_y = s.kinematics.vel.y;
        assert!(s.kinematics.vel.x == 0);
    }
    assert!(s.kinematics.pos.y < 10_000_000);
}

/// The interaction of a point outside the atmosphere: no damping at all,
/// acceleration along the separation vector only.
#[test]
fn interaction_outside_atmosphere() {
    let body = CelestialBody {
        radius: 6_000_000,
        mass: 600_000_000,
        atmosphere_radius: 6_700_000,
    };
    let mut rocket_kin = zero_kin();
    rocket_kin.pos = Vec2 { x: 0, y: 8_000_000 };
    let planet_kin = zero_kin();
    let (acc, damping) = calculate_planet_interaction(&rocket_kin, &body, &planet_kin);
    assert_eq!(damping, FRAC_ONE);
    assert_eq!(acc.x, 0);
    assert!(acc.y > 0);
    // magnitude close to G * m / d^2 (in milli-units of acceleration)
    let expect = 1000.0 * (GRAVITY as f64) * 600_000.0 / (8000.0f64 * 8000.0);
    assert!((acc.y as f64 - expect).abs() < 20.0);
}

/// The end-to-end scenario at distance 6015: acceleration G*m/6015^2 toward
/// the planet, velocity damped by damping_eqn(6015/6700)^(1/60), no crash.
#[test]
fn one_step_at_6015() {
    let mut s = MainState::new();
    s.cut_throttle();
    s.kinematics.pos = Vec2 { x: 0, y: 6_015_000 };
    s.update(1000).unwrap();
    assert!(!s.crashed.0);
    // Half the acceleration over one tick squared moves the position by
    // floor(a / 7200) = 3 milli-units.
    assert_eq!(s.kinematics.pos.y, 6_015_000 - 3);
    assert_eq!(s.kinematics.pos.x, 0);
    // Velocity: a * dt, then the per-second retention raised to 1/60.
    let a = (GRAVITY as f64) * 600_000.0 / (6015.0f64 * 6015.0);
    let retention = 0.5 + (6015.0f64 / 6700.0).sqrt() / 2.0;
    let v_expect = -(a / 60.0) * retention.powf(1.0 / 60.0);
    let v_got = s.kinematics.vel.y as f64 / 1000.0;
    assert!((v_got - v_expect).abs() < 0.005);
    // The acceleration accumulator is reset after the step.
    assert_eq!(s.kinematics.acc.x, 0);
    assert_eq!(s.kinematics.acc.y, 0);
}

/// The crash flag latches exactly below the radius and never clears.
#[test]
fn crash_flag_is_sticky_and_exact() {
    let mut s = MainState::new();
    s.cut_throttle();
    // Exactly at the radius: not a crash (the condition is strict).
    s.kinematics.pos = Vec2 { x: 0, y: 6_000_000 };
    s.kinematics.vel = Vec2 { x: 0, y: 0 };
    let before = s.kinematics.pos.y;
    s.update(1000).unwrap();
    // It may fall below the surface during this step; only check the strict
    // comparison at the position the step ended on.
    let d = s.kinematics.pos.y;
    assert_eq!(s.crashed.0, d < 6_000_000, "crash iff strictly inside");
    assert!(before >= d);

    // Strictly inside: crashes.
    let mut s2 = MainState::new();
    s2.cut_throttle();
    s2.kinematics.pos = Vec2 { x: 0, y: 5_999_999 };
    s2.update(1000).unwrap();
    assert!(s2.crashed.0);

    // Sticky: even teleported far away, the flag stays and the world
    // freezes.
    s2.kinematics.pos = Vec2 { x: 0, y: 50_000_000 };
    let frozen = s2.kinematics;
    s2.update(1000).unwrap();
    assert!(s2.crashed.0);
    assert_eq!(s2.kinematics.pos.y, frozen.pos.y);
    assert_eq!(s2.kinematics.vel.y, frozen.vel.y);
}

/// With the tank empty and the throttle wide open there is no thrust and
/// the fuel mass stays exactly zero.
#[test]
fn empty_tank_gives_no_thrust() {
    let mut s = MainState::new();
    s.planets.clear();
    s.full_throttle();
    s.rocket.current_fuel_mass = 0;
    for _ in 0..10 {
        s.update(1000).unwrap();
    }
    assert_eq!(s.rocket.current_fuel_mass, 0);
    assert_eq!(s.kinematics.vel.x, 0);
    assert_eq!(s.kinematics.vel.y, 0);
}

/// Thrust with a full tank: exact fixed-point values for one step at
/// angle zero (straight up).
#[test]
fn thrust_step_exact_values() {
    let mut s = MainState::new();
    s.planets.clear();
    s.full_throttle();
    s.update(1000).unwrap();
    // burned = 2000 * 1 * 1000000 / (60 * 1000000) = 33
    assert_eq!(s.rocket.current_fuel_mass, 2_500_000 - 33);
    // accel = 33 * 500000 * 90 / 2600000 = 571; vel += 571/60 = 9
    assert_eq!(s.kinematics.vel.y, 9);
    assert_eq!(s.kinematics.vel.x, 0);
}

/// The altitude readout tracks the nearest body, keeping the first of a
/// tie.
#[test]
fn altitude_tracks_nearest_body() {
    let mut alt = Altitude { height: 0, closest_planet: 7 };
    let rocket_kin = zero_kin();
    let mk = |x: i64, radius: i64| Planet {
        body: CelestialBody { radius, mass: 1_000, atmosphere_radius: radius + 1 },
        kin: Kinematics {
            pos: Vec2 { x, y: 0 },
            vel: Vec2 { x: 0, y: 0 },
            acc: Vec2 { x: 0, y: 0 },
        },
    };
    let planets = vec![mk(10_000, 2_000), mk(5_000, 1_000), mk(-5_000, 1_000)];
    rocket_sim::rocket::update_altitude_sys(&mut alt, &rocket_kin, &planets);
    // distances to surfaces: 8000, 4000, 4000: the first body attaining
    // the minimum wins.
    assert_eq!(alt.height, 4_000);
    assert_eq!(alt.closest_planet, 1);

    // with no bodies the height is unbounded and the index is kept
    let empty: Vec<Planet> = Vec::new();
    rocket_sim::rocket::update_altitude_sys(&mut alt, &rocket_kin, &empty);
    assert_eq!(alt.height, i64::MAX);
    assert_eq!(alt.closest_planet, 1);
}

/// The crash detector itself: strictly inside one of several bodies.
#[test]
fn crash_detector_checks_all_bodies() {
    let mut crashed = RocketCrashed(false);
    let mut rocket_kin = zero_kin();
    rocket_kin.pos = Vec2 { x: 0, y: 900 };
    let far = Planet {
        body: CelestialBody { radius: 500, mass: 10, atmosphere_radius: 600 },
        kin: Kinematics {
            pos: Vec2 { x: 100_000, y: 0 },
            vel: Vec2 { x: 0, y: 0 },
            acc: Vec2 { x: 0, y: 0 },
        },
    };
    let near = Planet {
        body: CelestialBody { radius: 1_000, mass: 10, atmosphere_radius: 1_100 },
        kin: Kinematics {
            pos: Vec2 { x: 0, y: 0 },
            vel: Vec2 { x: 0, y: 0 },
            acc: Vec2 { x: 0, y: 0 },
        },
    };
    let planets = vec![far, near];
    rocket_sim::physics::rocket_crash_sys(&rocket_kin, &planets, &mut crashed);
    assert!(crashed.0);
    // and it never resets the flag
    let mut rocket_kin2 = zero_kin();
    rocket_kin2.pos = Vec2 { x: 0, y: 5_000 };
    rocket_sim::physics::rocket_crash_sys(&rocket_kin2, &planets, &mut crashed);
    assert!(crashed.0);
}

/// The error type never occurs; its rendering exists for API completeness.
#[test]
fn game_error_message() {
    let e = rocket_sim::error::GameError::Never;
    assert_eq!(e.message(), "GameError");
}

/// Total mass is fuel plus structure.
#[test]
fn total_mass_adds_fuel_and_structure() {
    let s = MainState::new();
    assert_eq!(s.rocket.total_mass(), 2_500_000 + 100_000);
}

/// Damping at one step, exact fixed-point value: a fast rocket inside the
/// atmosphere keeps retention^(1/60) of its velocity after gravity.
#[test]
fn damping_exact_one_step() {
    let mut s = MainState::new();
    s.cut_throttle();
    s.kinematics.pos = Vec2 { x: 0, y: 6_015_000 };
    s.kinematics.vel = Vec2 { x: 0, y: -600_000 };
    s.update(1000).unwrap();
    assert!(!s.crashed.0);
    // gravity: floor(G * m / 6015^2 scaled) = 22387; vel += -22387/60 = -373;
    // retention = 0.5 + sqrt(6015/6700)/2 -> 973751; per tick 999557;
    // damped: trunc(600373 * 999557 / 10^6) = 600107.
    assert_eq!(s.kinematics.vel.y, -600_107);
    // cross-check against the real-valued model
    let a = (GRAVITY as f64) * 600_000.0 / (6015.0f64 * 6015.0);
    let retention = 0.5 + (6015.0f64 / 6700.0).sqrt() / 2.0;
    let expect = (-600.0 - a / 60.0) * retention.powf(1.0 / 60.0);
    assert!((s.kinematics.vel.y as f64 / 1000.0 - expect).abs() < 0.01);
}
