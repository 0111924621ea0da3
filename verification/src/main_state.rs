//! The simulation context: the live world, the fixed-step scheduler, the
//! forecast shadow state, and the input boundary.
//!
//! Per frame a driver calls [`MainState::update`] with the elapsed real
//! time; the scheduler converts it into a whole number of fixed physics
//! steps, carrying the fractional remainder to the next frame, and freezes
//! entirely once the crash flag is set.

use vstd::prelude::*;

use crate::error::GameError;
use crate::physics::offset::{offset_wf, UniverseOffset};
use crate::physics::{drift_kin_spec, hits_any, integrate_planets, kin_wf,
    physics_step, rocket_crash_sys, step_kin_spec, step_rocket_spec, Kinematics, Steps, Vec2};
use crate::planet::{add_planets, planets_wf, Planet};
use crate::rocket::{alt_fold, rocket_wf, update_altitude_sys, Altitude, Rocket, RocketBundle,
    RocketCrashed};
use crate::trajectory::{clock_wf, trajectory_wf, Trajectory, TrajectorySyncClock};
use crate::math::{clamp_spec, div_i128, div_t, mod_euclid_i128};
use crate::{FRAC_ONE, MAX_FRAME_TU, MAX_MULTIPLIER, TICK_TU, TWO_PI_MICRO};

verus! {

/// How many forecast samples the trajectory buffer holds at most.
pub const FORECAST_MAX_POINTS: usize = 300;

/// The live part of the world, as one spec-level value: what a fixed step
/// transforms.
#[verifier::ext_equal]
pub struct LiveSnap {
    pub rocket: Rocket,
    pub kin: Kinematics,
    pub planets: Seq<Planet>,
    pub crashed: bool,
    pub altitude: Altitude,
}

/// One fixed step of `n` ticks over the whole live world: the rocket and
/// every body advance from one consistent snapshot, then the crash flag
/// latches and the altitude readout is recomputed.
pub open spec fn live_step_spec(s: LiveSnap, n: int) -> LiveSnap {
    let rocket2 = step_rocket_spec(s.rocket, n);
    let kin2 = step_kin_spec(s.kin, s.rocket, s.planets, n);
    let planets2 = s.planets.map_values(
        |p: Planet| Planet { body: p.body, kin: drift_kin_spec(p.kin, n) },
    );
    LiveSnap {
        rocket: rocket2,
        kin: kin2,
        planets: planets2,
        crashed: s.crashed || hits_any(kin2.pos, planets2),
        altitude: alt_fold(kin2.pos, planets2, s.altitude.closest_planet),
    }
}

/// `count` fixed steps in sequence.
pub open spec fn live_steps_spec(s: LiveSnap, count: nat, n: int) -> LiveSnap
    decreases count,
{
    if count == 0 {
        s
    } else {
        live_step_spec(live_steps_spec(s, (count - 1) as nat, n), n)
    }
}

/// The crash flag is sticky across any number of fixed steps: once set it
/// stays set, and it is never cleared by a step that did not observe an
/// intersection.
pub proof fn lemma_crash_sticky(s: LiveSnap, count: nat, n: int)
    ensures
        s.crashed ==> live_steps_spec(s, count, n).crashed,
    decreases count,
{
    if count > 0 {
        lemma_crash_sticky(s, (count - 1) as nat, n);
    }
}

/// The whole simulation context.
pub struct MainState {
    pub rocket: Rocket,
    pub kinematics: Kinematics,
    pub planets: Vec<Planet>,
    pub crashed: RocketCrashed,
    pub altitude: Altitude,
    pub steps: Steps,
    pub leftover_time: u64,
    pub trajectory: Trajectory,
    pub shadow_rocket: Rocket,
    pub shadow_kinematics: Kinematics,
    pub clock: TrajectorySyncClock,
    pub offset: UniverseOffset,
    pub trajectory_dirty: bool,
}

pub open spec fn main_state_wf(s: MainState) -> bool {
    &&& rocket_wf(s.rocket)
    &&& kin_wf(s.kinematics)
    &&& planets_wf(s.planets@)
    &&& rocket_wf(s.shadow_rocket)
    &&& kin_wf(s.shadow_kinematics)
    &&& trajectory_wf(s.trajectory)
    &&& clock_wf(s.clock)
    &&& offset_wf(s.offset)
    &&& 1 <= s.steps.0 <= MAX_MULTIPLIER
    &&& s.leftover_time < TICK_TU
}

/// The live part of the state, as the spec value the step function acts on.
pub open spec fn live_view(s: MainState) -> LiveSnap {
    LiveSnap {
        rocket: s.rocket,
        kin: s.kinematics,
        planets: s.planets@,
        crashed: s.crashed.0,
        altitude: s.altitude,
    }
}

impl MainState {
    /// A fresh world: the rocket resting just above the surface of the one
    /// planet, full tank, full throttle, nothing crashed, empty forecast.
    pub fn new() -> (s: Self)
        ensures
            main_state_wf(s),
            s.rocket == (Rocket {
                fuel_capacity: 2_500_000,
                current_fuel_mass: 2_500_000,
                non_fuel_mass: 100_000,
                fuel_burn_rate: 2_000,
                fuel_thrust_factor: 500_000,
                angle: 0,
                thrust: FRAC_ONE,
            }),
            s.kinematics == (Kinematics {
                pos: Vec2 { x: 0, y: 6_000_500 },
                vel: Vec2 { x: 0, y: 0 },
                acc: Vec2 { x: 0, y: 0 },
            }),
            s.planets@.len() == 1,
            s.planets@[0].body.radius == 6_000_000,
            s.planets@[0].body.mass == 600_000_000,
            s.planets@[0].body.atmosphere_radius == 6_700_000,
            s.planets@[0].kin == (Kinematics {
                pos: Vec2 { x: 0, y: 0 },
                vel: Vec2 { x: 0, y: 0 },
                acc: Vec2 { x: 0, y: 0 },
            }),
            s.crashed.0 == false,
            s.altitude == (Altitude { height: i64::MAX, closest_planet: 0 }),
            s.steps.0 == 1,
            s.leftover_time == 0,
            s.trajectory.points@.len() == 0,
            s.trajectory.max_len == FORECAST_MAX_POINTS,
            s.trajectory.valid == false,
            s.shadow_rocket == s.rocket,
            s.shadow_kinematics == s.kinematics,
            s.clock == (TrajectorySyncClock { tick: 0, needed_ticks: 30 }),
            s.offset == (UniverseOffset {
                offset: Vec2 { x: 0, y: 0 },
                max_rocket_radius: 50_000_000,
            }),
            s.trajectory_dirty == false,
    {
        let bundle = RocketBundle::default();
        let mut planets: Vec<Planet> = Vec::new();
        add_planets(&mut planets);
        MainState {
            rocket: bundle.rocket,
            kinematics: bundle.kinematics,
            planets,
            crashed: RocketCrashed(false),
            altitude: bundle.altitude,
            steps: Steps(1),
            leftover_time: 0,
            trajectory: Trajectory::new(FORECAST_MAX_POINTS),
            shadow_rocket: bundle.rocket,
            shadow_kinematics: bundle.kinematics,
            clock: TrajectorySyncClock::default(),
            offset: UniverseOffset::default(),
            trajectory_dirty: false,
        }
    }

    /// One frame of simulated time: convert the elapsed real time into
    /// fixed steps, honoring the speed multiplier and carrying the
    /// fractional remainder; run those steps; freeze entirely while
    /// crashed.
    pub fn update(&mut self, frame_dt: u64) -> (r: Result<(), GameError>)
        requires
            main_state_wf(*old(self)),
            frame_dt <= MAX_FRAME_TU,
        ensures
            main_state_wf(*final(self)),
            r is Ok,
            old(self).crashed.0 ==> *final(self) == *old(self),
            !old(self).crashed.0 ==> ({
                let target = old(self).steps.0 * frame_dt + old(self).leftover_time;
                let n = target / (TICK_TU as int);
                &&& final(self).leftover_time == target % (TICK_TU as int)
                &&& live_view(*final(self)) == live_steps_spec(live_view(*old(self)),
                    n as nat, 1)
                &&& final(self).steps == old(self).steps
                &&& final(self).trajectory == old(self).trajectory
                &&& final(self).shadow_rocket == old(self).shadow_rocket
                &&& final(self).shadow_kinematics == old(self).shadow_kinematics
                &&& final(self).clock == old(self).clock
                &&& final(self).offset == old(self).offset
                &&& final(self).trajectory_dirty == old(self).trajectory_dirty
            }),
    {
        if self.crashed.0 {
            return Ok(());
        }
        proof {
            crate::math::lemma_mul_abs_bound(self.steps.0 as int, frame_dt as int,
                MAX_MULTIPLIER as int, MAX_FRAME_TU as int);
        }
        let target: u64 = (self.steps.0 as u64) * frame_dt + self.leftover_time;
        let n: u64 = target / TICK_TU;
        self.leftover_time = target % TICK_TU;
        let ghost s0 = live_view(*self);
        assert(s0 == live_view(*old(self)));
        let mut j: u64 = 0;
        while j < n
            invariant
                0 <= j <= n,
                rocket_wf(self.rocket),
                kin_wf(self.kinematics),
                planets_wf(self.planets@),
                live_view(*self) == live_steps_spec(s0, j as nat, 1),
                self.steps == old(self).steps,
                self.leftover_time == (old(self).steps.0 * frame_dt
                    + old(self).leftover_time) % (TICK_TU as int),
                self.leftover_time < TICK_TU,
                self.trajectory == old(self).trajectory,
                self.shadow_rocket == old(self).shadow_rocket,
                self.shadow_kinematics == old(self).shadow_kinematics,
                self.clock == old(self).clock,
                self.offset == old(self).offset,
                self.trajectory_dirty == old(self).trajectory_dirty,
                main_state_wf(*old(self)),
            decreases n - j,
        {
            let ghost prev = live_view(*self);
            physics_step(&mut self.rocket, &mut self.kinematics, &self.planets, 1);
            integrate_planets(&mut self.planets, 1);
            rocket_crash_sys(&self.kinematics, &self.planets, &mut self.crashed);
            update_altitude_sys(&mut self.altitude, &self.kinematics, &self.planets);
            proof {
                assert(self.planets@ =~= prev.planets.map_values(
                    |p: Planet| Planet { body: p.body, kin: drift_kin_spec(p.kin, 1) },
                ));
                assert(live_view(*self) =~= live_step_spec(prev, 1));
                lemma_live_steps_snoc(s0, j as nat, 1);
            }
            j = j + 1;
        }
        Ok(())
    }

    /// Turn the rocket by 0.75 rad/s of real time; with `left` the angle
    /// grows, otherwise it shrinks.  The angle
    /// stays normalized into one full turn.  Steering invalidates the
    /// forecast.
    pub fn steer(&mut self, left: bool, frame_dt: u64)
        requires
            main_state_wf(*old(self)),
            frame_dt <= MAX_FRAME_TU,
        ensures
            main_state_wf(*final(self)),
            *final(self) == (MainState {
                rocket: Rocket {
                    angle: ((old(self).rocket.angle
                        + (if left { div_t(750_000 * frame_dt, 60_000) } else {
                            -div_t(750_000 * frame_dt, 60_000)
                        })) % (TWO_PI_MICRO as int)) as i64,
                    ..old(self).rocket
                },
                trajectory_dirty: true,
                ..*old(self)
            }),
    {
        let delta = div_i128(750_000 * (frame_dt as i128), 60_000);
        let shifted = if left {
            self.rocket.angle as i128 + delta
        } else {
            self.rocket.angle as i128 - delta
        };
        self.rocket.angle = mod_euclid_i128(shifted, TWO_PI_MICRO as i128) as i64;
        self.trajectory_dirty = true;
    }

    /// Open or close the throttle by 0.1 per second of real time, clamped
    /// into `[0, 1]`.  Any change invalidates the forecast.
    pub fn adjust_throttle(&mut self, up: bool, frame_dt: u64)
        requires
            main_state_wf(*old(self)),
            frame_dt <= MAX_FRAME_TU,
        ensures
            main_state_wf(*final(self)),
            *final(self) == (MainState {
                rocket: Rocket {
                    thrust: clamp_spec(old(self).rocket.thrust
                        + (if up { div_t(100_000 * frame_dt, 60_000) } else {
                            -div_t(100_000 * frame_dt, 60_000)
                        }), 0, FRAC_ONE as int) as i64,
                    ..old(self).rocket
                },
                trajectory_dirty: true,
                ..*old(self)
            }),
    {
        let delta = div_i128(100_000 * (frame_dt as i128), 60_000);
        let shifted = if up {
            self.rocket.thrust as i128 + delta
        } else {
            self.rocket.thrust as i128 - delta
        };
        self.rocket.thrust = if shifted < 0 {
            0
        } else if shifted > FRAC_ONE as i128 {
            FRAC_ONE
        } else {
            shifted as i64
        };
        self.trajectory_dirty = true;
    }

    /// Close the throttle entirely, invalidating the forecast.
    pub fn cut_throttle(&mut self)
        requires
            main_state_wf(*old(self)),
        ensures
            main_state_wf(*final(self)),
            *final(self) == (MainState {
                rocket: Rocket { thrust: 0, ..old(self).rocket },
                trajectory_dirty: true,
                ..*old(self)
            }),
    {
        self.rocket.thrust = 0;
        self.trajectory_dirty = true;
    }

    /// Open the throttle fully, invalidating the forecast.
    pub fn full_throttle(&mut self)
        requires
            main_state_wf(*old(self)),
        ensures
            main_state_wf(*final(self)),
            *final(self) == (MainState {
                rocket: Rocket { thrust: FRAC_ONE, ..old(self).rocket },
                trajectory_dirty: true,
                ..*old(self)
            }),
    {
        self.rocket.thrust = FRAC_ONE;
        self.trajectory_dirty = true;
    }

    /// Set the simulation-speed multiplier, clamped into its legal range.
    pub fn set_time_speed(&mut self, multiplier: usize)
        requires
            main_state_wf(*old(self)),
        ensures
            main_state_wf(*final(self)),
            *final(self) == (MainState {
                steps: Steps(clamp_spec(multiplier as int, 1, MAX_MULTIPLIER as int) as usize),
                ..*old(self)
            }),
    {
        self.steps = Steps(
            if multiplier < 1 {
                1
            } else if multiplier > MAX_MULTIPLIER as usize {
                MAX_MULTIPLIER as usize
            } else {
                multiplier
            },
        );
    }
}

/// Iterating the step function one more time applies it once more at the
/// end.
pub proof fn lemma_live_steps_snoc(s: LiveSnap, count: nat, n: int)
    ensures
        live_steps_spec(s, (count + 1) as nat, n) == live_step_spec(live_steps_spec(s, count,
            n), n),
    decreases count,
{
}


/// Sum of a sequence of frame times.
pub open spec fn seq_sum(s: Seq<int>) -> int
    decreases s.len(),
{
    if s.len() == 0 {
        0
    } else {
        seq_sum(s.drop_last()) + s.last()
    }
}

/// The carried remainder after the scheduler has consumed a sequence of
/// frame times, starting from zero: each frame adds `multiplier` times its
/// real time and keeps the part below one tick.
pub open spec fn sched_leftover_after(m: int, fdts: Seq<int>) -> int
    decreases fdts.len(),
{
    if fdts.len() == 0 {
        0
    } else {
        (m * fdts.last() + sched_leftover_after(m, fdts.drop_last())) % (TICK_TU as int)
    }
}

/// The total number of fixed steps the scheduler runs over a sequence of
/// frame times, starting with no carried remainder.
pub open spec fn sched_total_steps(m: int, fdts: Seq<int>) -> int
    decreases fdts.len(),
{
    if fdts.len() == 0 {
        0
    } else {
        sched_total_steps(m, fdts.drop_last()) + (m * fdts.last() + sched_leftover_after(m,
            fdts.drop_last())) / (TICK_TU as int)
    }
}

/// The scheduler conserves simulated time: over any frame sequence, the
/// steps run times one tick plus the carried remainder equal the multiplied
/// real time exactly, and the remainder stays below one tick.  These are
/// the same per-frame formulas `update` is specified by, folded over a
/// whole run.
pub proof fn lemma_scheduler_conservation(m: int, fdts: Seq<int>)
    requires
        m >= 0,
        forall|i: int| 0 <= i < fdts.len() ==> #[trigger] fdts[i] >= 0,
    ensures
        0 <= sched_leftover_after(m, fdts) < TICK_TU,
        (TICK_TU as int) * sched_total_steps(m, fdts) + sched_leftover_after(m, fdts)
            == m * seq_sum(fdts),
    decreases fdts.len(),
{
    if fdts.len() == 0 {
        assert(m * 0 == 0) by (nonlinear_arith);
    } else {
        assert(forall|i: int| 0 <= i < fdts.len() - 1 ==> #[trigger] fdts.drop_last()[i]
            == fdts[i]);
        lemma_scheduler_conservation(m, fdts.drop_last());
        let lo = sched_leftover_after(m, fdts.drop_last());
        let tt = sched_total_steps(m, fdts.drop_last());
        let t = m * fdts.last() + lo;
        assert(m * fdts.last() >= 0) by (nonlinear_arith)
            requires
                m >= 0,
                fdts.last() >= 0,
        ;
        vstd::arithmetic::div_mod::lemma_fundamental_div_mod(t, TICK_TU as int);
        vstd::arithmetic::div_mod::lemma_mod_bound(t, TICK_TU as int);
        assert((TICK_TU as int) * (tt + t / (TICK_TU as int)) == (TICK_TU as int) * tt
            + (TICK_TU as int) * (t / (TICK_TU as int))) by (nonlinear_arith);
        assert(m * (seq_sum(fdts.drop_last()) + fdts.last()) == m * seq_sum(fdts.drop_last())
            + m * fdts.last()) by (nonlinear_arith);
    }
}

/// Round-trip conservation of simulated time: frame times summing to
/// exactly `frames` nominal frames yield exactly `multiplier * frames`
/// fixed steps and a zero final remainder.
pub proof fn lemma_scheduler_round_trip(m: int, fdts: Seq<int>, frames: int)
    requires
        m >= 1,
        forall|i: int| 0 <= i < fdts.len() ==> #[trigger] fdts[i] >= 0,
        seq_sum(fdts) == frames * (TICK_TU as int),
    ensures
        sched_total_steps(m, fdts) == m * frames,
        sched_leftover_after(m, fdts) == 0,
{
    lemma_scheduler_conservation(m, fdts);
    let tt = sched_total_steps(m, fdts);
    let lo = sched_leftover_after(m, fdts);
    let k = TICK_TU as int;
    assert(m * (frames * k) == (m * frames) * k) by (nonlinear_arith);
    let d = m * frames - tt;
    assert(lo == k * d) by (nonlinear_arith)
        requires
            k * tt + lo == (m * frames) * k,
            d == m * frames - tt,
    ;
    if d >= 1 {
        assert(k * d >= k) by (nonlinear_arith)
            requires
                d >= 1,
                k >= 1,
        ;
        assert(false);
    }
    if d <= -1 {
        assert(k * d <= -k) by (nonlinear_arith)
            requires
                d <= -1,
                k >= 1,
        ;
        assert(false);
    }
    assert(d == 0);
    assert(lo == k * 0 == 0) by (nonlinear_arith)
        requires
            lo == k * d,
            d == 0,
    ;
}

} // verus!
