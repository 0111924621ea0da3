//! Floating-origin recentering: the shift, its threshold, and the
//! round-trip invariant `tracked + offset == true position`.

use rocket_sim::main_state::MainState;
use rocket_sim::physics::offset::update_offset_sys;
use rocket_sim::physics::Vec2;

/// Below the threshold nothing moves.
#[test]
fn no_shift_below_threshold() {
    let mut s = MainState::new();
    s.kinematics.pos = Vec2 { x: 40_000_000, y: 10_000 };
    let before_pos = s.kinematics.pos;
    update_offset_sys(&mut s.kinematics, &mut s.planets, &mut s.shadow_kinematics,
        &mut s.trajectory, &mut s.offset);
    assert_eq!(s.kinematics.pos, before_pos);
    assert_eq!(s.offset.offset, Vec2 { x: 0, y: 0 });
    assert_eq!(s.planets[0].kin.pos, Vec2 { x: 0, y: 0 });
}

/// Beyond the threshold the whole world shifts by the rocket's position
/// and the offset accumulates it: every tracked position plus the offset
/// is unchanged.
#[test]
fn shift_preserves_true_positions() {
    let mut s = MainState::new();
    s.cut_throttle();
    s.kinematics.pos = Vec2 { x: 60_000_000, y: 10_000 };
    s.shadow_kinematics.pos = Vec2 { x: 59_000_000, y: 20_000 };
    s.trajectory.points.push(Vec2 { x: 61_000_000, y: 5_000 });
    update_offset_sys(&mut s.kinematics, &mut s.planets, &mut s.shadow_kinematics,
        &mut s.trajectory, &mut s.offset);

    assert_eq!(s.offset.offset, Vec2 { x: 60_000_000, y: 10_000 });
    // rocket lands exactly at the origin
    assert_eq!(s.kinematics.pos, Vec2 { x: 0, y: 0 });
    // every tracked position plus the offset reconstructs the old value
    assert_eq!(s.kinematics.pos.x + s.offset.offset.x, 60_000_000);
    assert_eq!(s.kinematics.pos.y + s.offset.offset.y, 10_000);
    assert_eq!(s.planets[0].kin.pos.x + s.offset.offset.x, 0);
    assert_eq!(s.planets[0].kin.pos.y + s.offset.offset.y, 0);
    assert_eq!(s.shadow_kinematics.pos.x + s.offset.offset.x, 59_000_000);
    assert_eq!(s.shadow_kinematics.pos.y + s.offset.offset.y, 20_000);
    assert_eq!(s.trajectory.points[0].x + s.offset.offset.x, 61_000_000);
    assert_eq!(s.trajectory.points[0].y + s.offset.offset.y, 5_000);
    // velocity is untouched by a shift
    assert_eq!(s.kinematics.vel, Vec2 { x: 0, y: 0 });
}

/// Two consecutive shifts accumulate: the cumulative offset still
/// reconstructs the true position.
#[test]
fn offsets_accumulate_across_shifts() {
    let mut s = MainState::new();
    s.cut_throttle();
    s.kinematics.pos = Vec2 { x: 60_000_000, y: 0 };
    update_offset_sys(&mut s.kinematics, &mut s.planets, &mut s.shadow_kinematics,
        &mut s.trajectory, &mut s.offset);
    // the rocket strays again
    s.kinematics.pos = Vec2 { x: -55_000_000, y: 0 };
    // true position now: -55_000_000 + 60_000_000 = 5_000_000
    update_offset_sys(&mut s.kinematics, &mut s.planets, &mut s.shadow_kinematics,
        &mut s.trajectory, &mut s.offset);
    assert_eq!(s.offset.offset.x, 5_000_000);
    assert_eq!(s.kinematics.pos.x, 0);
    assert_eq!(s.kinematics.pos.x + s.offset.offset.x, 5_000_000);
    // the planet's true position is still the origin
    assert_eq!(s.planets[0].kin.pos.x + s.offset.offset.x, 0);
}

/// The gravity field moves with the shift: physics after a recenter
/// continues as if nothing happened.
#[test]
fn physics_is_unaffected_by_recenter() {
    let mut a = MainState::new();
    a.cut_throttle();
    a.kinematics.pos = Vec2 { x: 0, y: 8_000_000 };
    let mut b = MainState::new();
    b.cut_throttle();
    b.kinematics.pos = Vec2 { x: 0, y: 8_000_000 };

    // shift world b by hand through a recenter triggered at a tiny radius
    b.offset.max_rocket_radius = 1_000;
    update_offset_sys(&mut b.kinematics, &mut b.planets, &mut b.shadow_kinematics,
        &mut b.trajectory, &mut b.offset);
    assert_eq!(b.kinematics.pos, Vec2 { x: 0, y: 0 });

    for _ in 0..10 {
        a.update(1000).unwrap();
        b.update(1000).unwrap();
    }
    // same true positions and identical velocities
    assert_eq!(a.kinematics.vel, b.kinematics.vel);
    assert_eq!(a.kinematics.pos.x, b.kinematics.pos.x + b.offset.offset.x);
    assert_eq!(a.kinematics.pos.y, b.kinematics.pos.y + b.offset.offset.y);
}
