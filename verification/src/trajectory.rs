//! The trajectory forecast: a bounded, ordered list of predicted positions
//! (oldest first) with a validity flag, refilled incrementally from a shadow
//! copy of the rocket's state.  The refill logic lives on
//! [`crate::main_state::MainState`].

use vstd::prelude::*;

use crate::main_state::{main_state_wf, MainState};
use crate::physics::{kin_wf, physics_step, step_kin_spec, step_rocket_spec, Kinematics, Vec2};
use crate::planet::{planets_wf, Planet};
use crate::rocket::{rocket_wf, Rocket};
use crate::{MAX_STEP_TICKS, POS_LIMIT};

verus! {

/// Paces the sliding of the forecast window: the window advances one sample
/// every time the live simulation has covered `needed_ticks` ticks, which is
/// also the tick span of one coarse forecast step.
#[derive(Clone, Copy, PartialEq, Eq, Structural, Debug)]
pub struct TrajectorySyncClock {
    pub tick: usize,
    pub needed_ticks: usize,
}

impl Default for TrajectorySyncClock {
    fn default() -> (r: Self)
        ensures
            r == (TrajectorySyncClock { tick: 0, needed_ticks: 30 }),
    {
        TrajectorySyncClock { tick: 0, needed_ticks: 30 }
    }
}

pub open spec fn clock_wf(c: TrajectorySyncClock) -> bool {
    &&& 1 <= c.needed_ticks <= MAX_STEP_TICKS
    &&& c.tick <= c.needed_ticks
}

/// The forecast buffer: predicted positions, oldest first, never longer
/// than `max_len`.
#[derive(PartialEq, Eq, Debug)]
pub struct Trajectory {
    pub points: Vec<Vec2>,
    pub max_len: usize,
    pub valid: bool,
}

pub open spec fn trajectory_wf(t: Trajectory) -> bool {
    &&& t.points@.len() <= t.max_len
    &&& t.max_len <= 100_000
    &&& forall|i: int| 0 <= i < t.points@.len() ==> {
        &&& -POS_LIMIT <= (#[trigger] t.points@[i]).x <= POS_LIMIT
        &&& -POS_LIMIT <= t.points@[i].y <= POS_LIMIT
    }
}

impl Trajectory {
    /// An empty, not yet valid forecast of the given capacity.
    pub fn new(max_len: usize) -> (r: Self)
        requires
            max_len <= 100_000,
        ensures
            r.points@.len() == 0,
            r.max_len == max_len,
            r.valid == false,
            trajectory_wf(r),
    {
        Trajectory { points: Vec::new(), max_len, valid: false }
    }
}

/// Advance the forecast window: the clock tick saturates at the tick span
/// it is counting toward.
pub open spec fn tick_next(c: TrajectorySyncClock) -> usize {
    if c.tick < c.needed_ticks {
        (c.tick + 1) as usize
    } else {
        c.tick
    }
}

/// The shadow state and the samples produced by `count` coarse forecast
/// steps of `n` ticks each: each step advances the shadow rocket and its
/// kinematic state exactly as a live step would, and records the new
/// position.
pub open spec fn shadow_trace(r: Rocket, k: Kinematics, ps: Seq<Planet>, n: int, count: nat)
    -> (Rocket, Kinematics, Seq<Vec2>)
    decreases count,
{
    if count == 0 {
        (r, k, Seq::<Vec2>::empty())
    } else {
        let prev = shadow_trace(r, k, ps, n, (count - 1) as nat);
        let r2 = step_rocket_spec(prev.0, n);
        let k2 = step_kin_spec(prev.1, prev.0, ps, n);
        (r2, k2, prev.2.push(k2.pos))
    }
}


impl MainState {
    /// One frame of the trajectory forecaster.
    ///
    /// If the throttle is open or a control input changed since the last
    /// frame, the forecast is invalid: the buffer is cleared and the shadow
    /// state is reseeded from the live rocket, and the flag stays false
    /// until a later frame refills.  Otherwise the forecast is valid: once
    /// the live simulation has covered the window's tick span the oldest
    /// sample is dropped, and up to `budget` new samples are appended, each
    /// one coarse physics step of the shadow state.  The caller chooses
    /// `budget` from its own real-time allowance, so a frame never stalls
    /// on forecasting; the shadow state persists, and the next frame
    /// resumes where this one stopped.
    pub fn add_trajectory_points(&mut self, budget: usize)
        requires
            main_state_wf(*old(self)),
        ensures
            main_state_wf(*final(self)),
            final(self).rocket == old(self).rocket,
            final(self).kinematics == old(self).kinematics,
            final(self).planets@ == old(self).planets@,
            final(self).crashed == old(self).crashed,
            final(self).altitude == old(self).altitude,
            final(self).steps == old(self).steps,
            final(self).leftover_time == old(self).leftover_time,
            final(self).offset == old(self).offset,
            final(self).trajectory.max_len == old(self).trajectory.max_len,
            final(self).clock.needed_ticks == old(self).clock.needed_ticks,
            final(self).trajectory_dirty == false,
            (old(self).rocket.thrust > 0 || old(self).trajectory_dirty) ==> {
                &&& final(self).trajectory.points@.len() == 0
                &&& final(self).trajectory.valid == false
                &&& final(self).shadow_rocket == old(self).rocket
                &&& final(self).shadow_kinematics == old(self).kinematics
                &&& final(self).clock.tick == tick_next(old(self).clock)
            },
            !(old(self).rocket.thrust > 0 || old(self).trajectory_dirty) ==> ({
                let fired = old(self).clock.tick * old(self).steps.0
                    >= old(self).clock.needed_ticks;
                let base = if fired && old(self).trajectory.points@.len() > 0 {
                    old(self).trajectory.points@.subrange(1,
                        old(self).trajectory.points@.len() as int)
                } else {
                    old(self).trajectory.points@
                };
                let missing = old(self).trajectory.max_len - base.len();
                let count: int = if budget < missing { budget as int } else { missing };
                let nfill: int = if missing == 1 { old(self).steps.0 as int } else {
                    old(self).clock.needed_ticks as int
                };
                let tr = shadow_trace(old(self).shadow_rocket, old(self).shadow_kinematics,
                    old(self).planets@, nfill, count as nat);
                &&& final(self).trajectory.valid == true
                &&& final(self).trajectory.points@ == base + tr.2
                &&& final(self).shadow_rocket == tr.0
                &&& final(self).shadow_kinematics == tr.1
                &&& final(self).clock.tick == if fired { 1int } else {
                    tick_next(old(self).clock) as int
                }
            }),
    {
        let invalidate = self.rocket.thrust > 0 || self.trajectory_dirty;
        self.trajectory_dirty = false;
        if invalidate {
            self.trajectory.valid = false;
            self.trajectory.points.clear();
            self.shadow_rocket = self.rocket;
            self.shadow_kinematics = self.kinematics;
            if self.clock.tick < self.clock.needed_ticks {
                self.clock.tick = self.clock.tick + 1;
            }
        } else {
            self.trajectory.valid = true;
            proof {
                crate::math::lemma_mul_abs_bound(self.clock.tick as int, self.steps.0 as int,
                    MAX_STEP_TICKS as int, 100);
            }
            let fired = (self.clock.tick as u64) * (self.steps.0 as u64)
                >= self.clock.needed_ticks as u64;
            if fired {
                self.clock.tick = 1;
                if self.trajectory.points.len() > 0 {
                    self.trajectory.points.remove(0);
                    proof {
                        assert(self.trajectory.points@ =~= old(self).trajectory.points@
                            .subrange(1, old(self).trajectory.points@.len() as int));
                    }
                }
            } else {
                if self.clock.tick < self.clock.needed_ticks {
                    self.clock.tick = self.clock.tick + 1;
                }
            }
            let ghost base = self.trajectory.points@;
            let ghost sr0 = self.shadow_rocket;
            let ghost sk0 = self.shadow_kinematics;
            let missing = self.trajectory.max_len - self.trajectory.points.len();
            let count = if budget < missing { budget } else { missing };
            let nfill: u64 = if missing == 1 { self.steps.0 as u64 } else {
                self.clock.needed_ticks as u64
            };
            let mut used: usize = 0;
            proof {
                assert(forall|i: int| 0 <= i < base.len()
                    ==> -POS_LIMIT <= (#[trigger] base[i]).x <= POS_LIMIT
                    && -POS_LIMIT <= base[i].y <= POS_LIMIT);
            }
            while used < count
                invariant
                    main_state_wf(*old(self)),
                    0 <= used <= count,
                    count <= missing,
                    count == if budget < missing { budget as int } else { missing as int },
                    missing == old(self).trajectory.max_len - base.len(),
                    1 <= nfill <= MAX_STEP_TICKS,
                    fired == (old(self).clock.tick * old(self).steps.0
                        >= old(self).clock.needed_ticks),
                    base == (if fired && old(self).trajectory.points@.len() > 0 {
                        old(self).trajectory.points@.subrange(1,
                            old(self).trajectory.points@.len() as int)
                    } else {
                        old(self).trajectory.points@
                    }),
                    sr0 == old(self).shadow_rocket,
                    sk0 == old(self).shadow_kinematics,
                    nfill == if missing == 1 { old(self).steps.0 as int } else {
                        old(self).clock.needed_ticks as int
                    },
                    self.clock.needed_ticks == old(self).clock.needed_ticks,
                    self.clock.tick == if fired { 1int } else {
                        tick_next(old(self).clock) as int
                    },
                    planets_wf(self.planets@),
                    rocket_wf(self.shadow_rocket),
                    kin_wf(self.shadow_kinematics),
                    self.planets@ == old(self).planets@,
                    self.rocket == old(self).rocket,
                    self.kinematics == old(self).kinematics,
                    self.crashed == old(self).crashed,
                    self.altitude == old(self).altitude,
                    self.steps == old(self).steps,
                    self.leftover_time == old(self).leftover_time,
                    self.offset == old(self).offset,
                    self.clock.tick <= self.clock.needed_ticks,
                    self.trajectory_dirty == false,
                    self.trajectory.valid == true,
                    self.trajectory.max_len == old(self).trajectory.max_len,
                    base.len() + used <= self.trajectory.max_len,
                    self.trajectory.points@.len() == base.len() + used,
                    forall|i: int| 0 <= i < self.trajectory.points@.len() ==> {
                        &&& -POS_LIMIT <= (#[trigger] self.trajectory.points@[i]).x
                            <= POS_LIMIT
                        &&& -POS_LIMIT <= self.trajectory.points@[i].y <= POS_LIMIT
                    },
                    ({
                        let tr = shadow_trace(sr0, sk0, self.planets@, nfill as int,
                            used as nat);
                        &&& self.shadow_rocket == tr.0
                        &&& self.shadow_kinematics == tr.1
                        &&& self.trajectory.points@ == base + tr.2
                    }),
                decreases count - used,
            {
                physics_step(&mut self.shadow_rocket, &mut self.shadow_kinematics,
                    &self.planets, nfill);
                self.trajectory.points.push(self.shadow_kinematics.pos);
                proof {
                    let tr_prev = shadow_trace(sr0, sk0, self.planets@, nfill as int,
                        used as nat);
                    let tr_now = shadow_trace(sr0, sk0, self.planets@, nfill as int,
                        (used + 1) as nat);
                    assert(self.trajectory.points@ =~= base + tr_now.2);
                }
                used = used + 1;
            }
        }
    }
}

} // verus!
