//! Floating-origin recentering.
//!
//! Whenever the rocket strays beyond a threshold radius from the coordinate
//! origin, every tracked position — the rocket, all bodies, the forecast
//! shadow and the buffered forecast points — is shifted by the rocket's
//! position, and the shift is accumulated in an offset, so that
//! `tracked_position + offset` remains the true world position.

use vstd::prelude::*;

use crate::math::{clamp_i128, clamp_spec, lemma_mul_abs_bound};
use crate::physics::{in_range, kin_wf, Kinematics, Vec2};
use crate::planet::{planets_wf, Planet};
use crate::trajectory::{trajectory_wf, Trajectory};
use crate::{OFFSET_LIMIT, POS_LIMIT};

verus! {

/// The accumulated recentering shift and the radius that triggers a shift.
#[derive(Clone, Copy, PartialEq, Eq, Structural, Debug)]
pub struct UniverseOffset {
    pub offset: Vec2,
    pub max_rocket_radius: i64,
}

impl Default for UniverseOffset {
    fn default() -> (r: Self)
        ensures
            r == (UniverseOffset {
                offset: Vec2 { x: 0, y: 0 },
                max_rocket_radius: 50_000_000,
            }),
    {
        UniverseOffset { offset: Vec2 { x: 0, y: 0 }, max_rocket_radius: 50_000_000 }
    }
}

pub open spec fn offset_wf(o: UniverseOffset) -> bool {
    &&& in_range(o.offset.x as int, OFFSET_LIMIT as int)
    &&& in_range(o.offset.y as int, OFFSET_LIMIT as int)
    &&& 1 <= o.max_rocket_radius <= POS_LIMIT
}

/// A recenter fires when the rocket's distance from the origin exceeds the
/// threshold radius.
pub open spec fn recenter_needed(rpos: Vec2, threshold: int) -> bool {
    rpos.x * rpos.x + rpos.y * rpos.y > threshold * threshold
}

/// One shifted coordinate: the tracked value minus the shift, saturated.
pub open spec fn shift_coord(p: int, shift: int) -> int {
    clamp_spec(p - shift, -(POS_LIMIT as int), POS_LIMIT as int)
}

/// One accumulated offset coordinate, saturated.
pub open spec fn grow_offset(o: int, shift: int) -> int {
    clamp_spec(o + shift, -(OFFSET_LIMIT as int), OFFSET_LIMIT as int)
}

/// Shift a position vector by the rocket's position.
pub open spec fn shift_vec(p: Vec2, shift: Vec2) -> Vec2 {
    Vec2 { x: shift_coord(p.x as int, shift.x as int) as i64,
        y: shift_coord(p.y as int, shift.y as int) as i64 }
}

/// Shift only the position of a kinematic state.
pub open spec fn shift_kin(k: Kinematics, shift: Vec2) -> Kinematics {
    Kinematics { pos: shift_vec(k.pos, shift), ..k }
}

/// As long as nothing saturates, a shift moves no true position: tracked
/// plus offset is preserved exactly, coordinate by coordinate.
pub proof fn lemma_shift_preserves_true_position(p: int, o: int, shift: int)
    requires
        in_range(p - shift, POS_LIMIT as int),
        in_range(o + shift, OFFSET_LIMIT as int),
    ensures
        shift_coord(p, shift) + grow_offset(o, shift) == p + o,
{
}

fn shift_kin_exec(k: &mut Kinematics, shift: Vec2)
    requires
        kin_wf(*old(k)),
        in_range(shift.x as int, POS_LIMIT as int),
        in_range(shift.y as int, POS_LIMIT as int),
    ensures
        *final(k) == shift_kin(*old(k), shift),
        kin_wf(*final(k)),
{
    k.pos.x = clamp_i128(k.pos.x as i128 - shift.x as i128, POS_LIMIT);
    k.pos.y = clamp_i128(k.pos.y as i128 - shift.y as i128, POS_LIMIT);
}

/// Recenter the universe around the rocket if it has strayed too far: shift
/// every tracked position by the rocket's position and add that shift to
/// the accumulated offset.  The whole world moves atomically, between
/// steps, never inside one.
pub fn update_offset_sys(rocket_kinematics: &mut Kinematics, planets: &mut Vec<Planet>,
    shadow_kinematics: &mut Kinematics, trajectory: &mut Trajectory,
    offset: &mut UniverseOffset)
    requires
        kin_wf(*old(rocket_kinematics)),
        planets_wf(old(planets)@),
        kin_wf(*old(shadow_kinematics)),
        trajectory_wf(*old(trajectory)),
        offset_wf(*old(offset)),
    ensures
        kin_wf(*final(rocket_kinematics)),
        planets_wf(final(planets)@),
        kin_wf(*final(shadow_kinematics)),
        trajectory_wf(*final(trajectory)),
        offset_wf(*final(offset)),
        !recenter_needed(old(rocket_kinematics).pos, old(offset).max_rocket_radius as int)
            ==> {
            &&& *final(rocket_kinematics) == *old(rocket_kinematics)
            &&& final(planets)@ == old(planets)@
            &&& *final(shadow_kinematics) == *old(shadow_kinematics)
            &&& *final(trajectory) == *old(trajectory)
            &&& *final(offset) == *old(offset)
        },
        recenter_needed(old(rocket_kinematics).pos, old(offset).max_rocket_radius as int)
            ==> {
            let shift = old(rocket_kinematics).pos;
            &&& *final(rocket_kinematics) == shift_kin(*old(rocket_kinematics), shift)
            &&& final(planets)@.len() == old(planets)@.len()
            &&& forall|i: int| 0 <= i < old(planets)@.len() ==> #[trigger] final(planets)@[i]
                == (Planet {
                body: old(planets)@[i].body,
                kin: shift_kin(old(planets)@[i].kin, shift),
            })
            &&& *final(shadow_kinematics) == shift_kin(*old(shadow_kinematics), shift)
            &&& final(trajectory).points@.len() == old(trajectory).points@.len()
            &&& forall|i: int| 0 <= i < old(trajectory).points@.len()
                ==> #[trigger] final(trajectory).points@[i]
                == shift_vec(old(trajectory).points@[i], shift)
            &&& final(trajectory).max_len == old(trajectory).max_len
            &&& final(trajectory).valid == old(trajectory).valid
            &&& final(offset).offset == (Vec2 {
                x: grow_offset(old(offset).offset.x as int, shift.x as int) as i64,
                y: grow_offset(old(offset).offset.y as int, shift.y as int) as i64,
            })
            &&& final(offset).max_rocket_radius == old(offset).max_rocket_radius
        },
{
    let rocket_pos = rocket_kinematics.pos;
    proof {
        lemma_mul_abs_bound(rocket_pos.x as int, rocket_pos.x as int, POS_LIMIT as int,
            POS_LIMIT as int);
        lemma_mul_abs_bound(rocket_pos.y as int, rocket_pos.y as int, POS_LIMIT as int,
            POS_LIMIT as int);
        lemma_mul_abs_bound(offset.max_rocket_radius as int, offset.max_rocket_radius as int,
            POS_LIMIT as int, POS_LIMIT as int);
    }
    let d2 = (rocket_pos.x as i128) * (rocket_pos.x as i128)
        + (rocket_pos.y as i128) * (rocket_pos.y as i128);
    let t2 = (offset.max_rocket_radius as i128) * (offset.max_rocket_radius as i128);
    if d2 > t2 {
        offset.offset.x = clamp_i128(offset.offset.x as i128 + rocket_pos.x as i128,
            OFFSET_LIMIT);
        offset.offset.y = clamp_i128(offset.offset.y as i128 + rocket_pos.y as i128,
            OFFSET_LIMIT);
        shift_kin_exec(rocket_kinematics, rocket_pos);
        shift_kin_exec(shadow_kinematics, rocket_pos);
        let mut i: usize = 0;
        while i < planets.len()
            invariant
                0 <= i <= planets@.len(),
                planets@.len() == old(planets)@.len(),
                planets_wf(old(planets)@),
                in_range(rocket_pos.x as int, POS_LIMIT as int),
                in_range(rocket_pos.y as int, POS_LIMIT as int),
                forall|j: int| i <= j < planets@.len() ==> #[trigger] planets@[j]
                    == old(planets)@[j],
                forall|j: int| 0 <= j < i ==> #[trigger] planets@[j] == (Planet {
                    body: old(planets)@[j].body,
                    kin: shift_kin(old(planets)@[j].kin, rocket_pos),
                }),
                forall|j: int| 0 <= j < i ==> kin_wf(#[trigger] planets@[j].kin),
            decreases planets@.len() - i,
        {
            let p = planets[i];
            let mut k = p.kin;
            shift_kin_exec(&mut k, rocket_pos);
            planets.set(i, Planet { body: p.body, kin: k });
            i = i + 1;
        }
        let mut j: usize = 0;
        while j < trajectory.points.len()
            invariant
                0 <= j <= trajectory.points@.len(),
                trajectory.points@.len() == old(trajectory).points@.len(),
                trajectory.max_len == old(trajectory).max_len,
                trajectory.valid == old(trajectory).valid,
                trajectory_wf(*old(trajectory)),
                in_range(rocket_pos.x as int, POS_LIMIT as int),
                in_range(rocket_pos.y as int, POS_LIMIT as int),
                forall|w: int| j <= w < trajectory.points@.len()
                    ==> #[trigger] trajectory.points@[w] == old(trajectory).points@[w],
                forall|w: int| 0 <= w < j ==> #[trigger] trajectory.points@[w]
                    == shift_vec(old(trajectory).points@[w], rocket_pos),
                forall|w: int| 0 <= w < j ==> {
                    &&& -POS_LIMIT <= (#[trigger] trajectory.points@[w]).x <= POS_LIMIT
                    &&& -POS_LIMIT <= trajectory.points@[w].y <= POS_LIMIT
                },
            decreases trajectory.points@.len() - j,
        {
            let q = trajectory.points[j];
            let shifted = Vec2 {
                x: clamp_i128(q.x as i128 - rocket_pos.x as i128, POS_LIMIT),
                y: clamp_i128(q.y as i128 - rocket_pos.y as i128, POS_LIMIT),
            };
            trajectory.points.set(j, shifted);
            j = j + 1;
        }
    }
}


/// The recentering round trip for a whole tracked position: as long as
/// neither the shifted position nor the grown offset saturates, the true
/// position `tracked + offset` is exactly preserved in both coordinates.
pub proof fn lemma_shift_vec_preserves(p: Vec2, o: Vec2, shift: Vec2)
    requires
        in_range(p.x - shift.x, POS_LIMIT as int),
        in_range(p.y - shift.y, POS_LIMIT as int),
        in_range(o.x + shift.x, OFFSET_LIMIT as int),
        in_range(o.y + shift.y, OFFSET_LIMIT as int),
    ensures
        shift_vec(p, shift).x + grow_offset(o.x as int, shift.x as int) == p.x + o.x,
        shift_vec(p, shift).y + grow_offset(o.y as int, shift.y as int) == p.y + o.y,
{
    lemma_shift_preserves_true_position(p.x as int, o.x as int, shift.x as int);
    lemma_shift_preserves_true_position(p.y as int, o.y as int, shift.y as int);
}

} // verus!
