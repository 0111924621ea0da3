//! The force model and the fixed-step integrator.
//!
//! One fixed step covers `n` ticks of 1/60 s and runs, in order: thrust,
//! gravity and drag gathered from a consistent snapshot of all positions,
//! semi-implicit Euler integration, atmospheric damping of the velocity, and
//! an acceleration reset.  Every arithmetic result is pinned exactly by the
//! spec functions below; positions, velocities and accelerations saturate at
//! their range limits instead of overflowing.

pub mod offset;

use vstd::prelude::*;

use crate::damping::{damping_per_tick, per_tick_spec, pow_frac, pow_frac_spec};
use crate::math::{clamp_i128, clamp_spec, div_i128, div_t, isqrt_u128, lemma_div_t_shrink,
    lemma_mul_abs_bound, lemma_sqrt_floor_le, sqrt_floor};
use crate::planet::{body_wf, planets_wf, CelestialBody, Planet, MAX_PLANETS};
use crate::rocket::{rocket_wf, Rocket, RocketCrashed};
use crate::trig::{cos_frac, cos_frac_spec, sin_frac, sin_frac_spec};
use crate::{ACC_LIMIT, FRAC_HALF, FRAC_ONE, GRAVITY, MASS_LIMIT, MAX_STEP_TICKS, POS_LIMIT, RATE_LIMIT,
    THRUST_MULTIPLIER, VEL_LIMIT};

verus! {

/// A two-dimensional vector in fixed-point milli-units.
#[derive(Clone, Copy, PartialEq, Eq, Structural, Debug)]
pub struct Vec2 {
    pub x: i64,
    pub y: i64,
}

/// The kinematic state every moving entity owns: position, velocity and the
/// acceleration being accumulated during the current step.
#[derive(Clone, Copy, PartialEq, Eq, Structural, Debug, Default)]
pub struct Kinematics {
    pub pos: Vec2,
    pub vel: Vec2,
    pub acc: Vec2,
}

impl Default for Vec2 {
    fn default() -> (r: Self)
        ensures
            r == (Vec2 { x: 0, y: 0 }),
    {
        Vec2 { x: 0, y: 0 }
    }
}

/// The simulation-speed multiplier: how many fixed steps one nominal frame
/// should advance.
#[derive(Clone, Copy, PartialEq, Eq, Structural, Debug)]
pub struct Steps(pub usize);

pub open spec fn in_range(v: int, limit: int) -> bool {
    -limit <= v <= limit
}

pub open spec fn kin_wf(k: Kinematics) -> bool {
    &&& in_range(k.pos.x as int, POS_LIMIT as int)
    &&& in_range(k.pos.y as int, POS_LIMIT as int)
    &&& in_range(k.vel.x as int, VEL_LIMIT as int)
    &&& in_range(k.vel.y as int, VEL_LIMIT as int)
    &&& in_range(k.acc.x as int, ACC_LIMIT as int)
    &&& in_range(k.acc.y as int, ACC_LIMIT as int)
}

/// Squared distance between two points.
pub open spec fn dist2(a: Vec2, b: Vec2) -> int {
    (a.x - b.x) * (a.x - b.x) + (a.y - b.y) * (a.y - b.y)
}

/// Distance between two points, rounded down.
pub open spec fn dist_c(a: Vec2, b: Vec2) -> int {
    sqrt_floor(dist2(a, b))
}

/// Gravity applies only strictly outside the body's radius.
pub open spec fn outside_radius(rpos: Vec2, p: Planet) -> bool {
    dist2(rpos, p.kin.pos) > p.body.radius * p.body.radius
}

/// Strictly inside the body's radius: the crash condition.
pub open spec fn inside_radius(rpos: Vec2, p: Planet) -> bool {
    dist2(rpos, p.kin.pos) < p.body.radius * p.body.radius
}

pub open spec fn hits_any(rpos: Vec2, ps: Seq<Planet>) -> bool {
    exists|i: int| 0 <= i < ps.len() && inside_radius(rpos, #[trigger] ps[i])
}

/// Numerator of the gravitational acceleration component: the factor
/// `FRAC_ONE` converts from plain units to the milli-unit coordinate scale.
pub open spec fn grav_num(m: int, delta: int) -> int {
    (FRAC_ONE as int) * (GRAVITY as int) * m * delta
}

/// Outward gravitational acceleration component along x, before the caller
/// subtracts it: `G * m * dx / d^3`, saturated.
pub open spec fn inter_acc_x(rpos: Vec2, body: CelestialBody, ppos: Vec2) -> int {
    let d = sqrt_floor(dist2(rpos, ppos));
    clamp_spec(
        div_t(grav_num(body.mass as int, rpos.x - ppos.x), d * d * d),
        -(ACC_LIMIT as int),
        ACC_LIMIT as int,
    )
}

pub open spec fn inter_acc_y(rpos: Vec2, body: CelestialBody, ppos: Vec2) -> int {
    let d = sqrt_floor(dist2(rpos, ppos));
    clamp_spec(
        div_t(grav_num(body.mass as int, rpos.y - ppos.y), d * d * d),
        -(ACC_LIMIT as int),
        ACC_LIMIT as int,
    )
}

/// Per-second velocity retention fraction of one body's atmosphere:
/// `1/2 + sqrt(d / atmosphere_radius) / 2` inside the atmosphere, one
/// outside.
pub open spec fn inter_damping(rpos: Vec2, body: CelestialBody, ppos: Vec2) -> int {
    let d = sqrt_floor(dist2(rpos, ppos));
    if d < body.atmosphere_radius {
        FRAC_HALF + div_t(sqrt_floor(div_t(d * (FRAC_ONE as int), body.atmosphere_radius as int)
            * (FRAC_ONE as int)), 2)
    } else {
        FRAC_ONE as int
    }
}

/// Sum of the outward gravitational x-components of all bodies the point is
/// strictly outside of.
pub open spec fn grav_sum_x(rpos: Vec2, ps: Seq<Planet>) -> int
    decreases ps.len(),
{
    if ps.len() == 0 {
        0
    } else {
        grav_sum_x(rpos, ps.drop_last()) + if outside_radius(rpos, ps.last()) {
            inter_acc_x(rpos, ps.last().body, ps.last().kin.pos)
        } else {
            0
        }
    }
}

pub open spec fn grav_sum_y(rpos: Vec2, ps: Seq<Planet>) -> int
    decreases ps.len(),
{
    if ps.len() == 0 {
        0
    } else {
        grav_sum_y(rpos, ps.drop_last()) + if outside_radius(rpos, ps.last()) {
            inter_acc_y(rpos, ps.last().body, ps.last().kin.pos)
        } else {
            0
        }
    }
}

/// One scaled multiplication of the combined damping product, kept at least
/// one so the retention fraction never collapses to zero.
pub open spec fn damp_mul(a: int, b: int) -> int {
    let m = div_t(a * b, FRAC_ONE as int);
    if m < 1 {
        1
    } else {
        m
    }
}

/// Combined per-second retention fraction of all atmospheres in range:
/// individual fractions compose multiplicatively.
pub open spec fn grav_damp(rpos: Vec2, ps: Seq<Planet>) -> int
    decreases ps.len(),
{
    if ps.len() == 0 {
        FRAC_ONE as int
    } else {
        let rest = grav_damp(rpos, ps.drop_last());
        if outside_radius(rpos, ps.last()) {
            damp_mul(rest, inter_damping(rpos, ps.last().body, ps.last().kin.pos))
        } else {
            rest
        }
    }
}

/// Thrust applies only with an open throttle and fuel left.
pub open spec fn thrusting(r: Rocket) -> bool {
    r.thrust > 0 && r.current_fuel_mass > 0
}

/// Fuel mass burned over `n` ticks at the current throttle, before clamping
/// to the fuel that is actually left.
pub open spec fn burn_raw(r: Rocket, n: int) -> int {
    div_t(r.fuel_burn_rate * n * r.thrust, 60 * (FRAC_ONE as int))
}

pub open spec fn fuel_after(r: Rocket, n: int) -> int {
    if thrusting(r) {
        if burn_raw(r, n) < r.current_fuel_mass {
            r.current_fuel_mass - burn_raw(r, n)
        } else {
            0
        }
    } else {
        r.current_fuel_mass as int
    }
}

/// Magnitude of the thrust acceleration over `n` ticks: burned fuel times
/// the thrust factor and the global gain, over the rocket's total mass.
pub open spec fn thrust_mag(r: Rocket, n: int) -> int {
    div_t(
        burn_raw(r, n) * r.fuel_thrust_factor * (THRUST_MULTIPLIER as int),
        r.current_fuel_mass + r.non_fuel_mass,
    )
}

/// Acceleration after the thrust contribution along the orientation vector
/// `(sin angle, cos angle)`.
pub open spec fn acc_after_thrust_x(k: Kinematics, r: Rocket, n: int) -> int {
    if thrusting(r) {
        clamp_spec(
            k.acc.x + div_t(thrust_mag(r, n) * sin_frac_spec(r.angle as int), FRAC_ONE as int),
            -(ACC_LIMIT as int),
            ACC_LIMIT as int,
        )
    } else {
        k.acc.x as int
    }
}

pub open spec fn acc_after_thrust_y(k: Kinematics, r: Rocket, n: int) -> int {
    if thrusting(r) {
        clamp_spec(
            k.acc.y + div_t(thrust_mag(r, n) * cos_frac_spec(r.angle as int), FRAC_ONE as int),
            -(ACC_LIMIT as int),
            ACC_LIMIT as int,
        )
    } else {
        k.acc.y as int
    }
}

/// The rocket's fields after one step: only the fuel mass changes.
pub open spec fn step_rocket_spec(r: Rocket, n: int) -> Rocket {
    Rocket { current_fuel_mass: fuel_after(r, n) as i64, ..r }
}

/// The rocket's kinematic state after one full fixed step of `n` ticks.
pub open spec fn step_kin_spec(k: Kinematics, r: Rocket, ps: Seq<Planet>, n: int) -> Kinematics {
    let a2x = clamp_spec(acc_after_thrust_x(k, r, n) - grav_sum_x(k.pos, ps),
        -(ACC_LIMIT as int), ACC_LIMIT as int);
    let a2y = clamp_spec(acc_after_thrust_y(k, r, n) - grav_sum_y(k.pos, ps),
        -(ACC_LIMIT as int), ACC_LIMIT as int);
    let px = clamp_spec(k.pos.x + div_t(k.vel.x * n, 60) + div_t((a2x * n) * n, 7200),
        -(POS_LIMIT as int), POS_LIMIT as int);
    let py = clamp_spec(k.pos.y + div_t(k.vel.y * n, 60) + div_t((a2y * n) * n, 7200),
        -(POS_LIMIT as int), POS_LIMIT as int);
    let v1x = clamp_spec(k.vel.x + div_t(a2x * n, 60), -(VEL_LIMIT as int), VEL_LIMIT as int);
    let v1y = clamp_spec(k.vel.y + div_t(a2y * n, 60), -(VEL_LIMIT as int), VEL_LIMIT as int);
    let dn = pow_frac_spec(per_tick_spec(grav_damp(k.pos, ps)), n as nat);
    Kinematics {
        pos: Vec2 { x: px as i64, y: py as i64 },
        vel: Vec2 {
            x: div_t(v1x * dn, FRAC_ONE as int) as i64,
            y: div_t(v1y * dn, FRAC_ONE as int) as i64,
        },
        acc: Vec2 { x: 0, y: 0 },
    }
}

/// The kinematic state of a body no force acts on, after `n` ticks: plain
/// integration of its own acceleration, no damping, then the reset.
pub open spec fn drift_kin_spec(k: Kinematics, n: int) -> Kinematics {
    let px = clamp_spec(k.pos.x + div_t(k.vel.x * n, 60) + div_t((k.acc.x * n) * n, 7200),
        -(POS_LIMIT as int), POS_LIMIT as int);
    let py = clamp_spec(k.pos.y + div_t(k.vel.y * n, 60) + div_t((k.acc.y * n) * n, 7200),
        -(POS_LIMIT as int), POS_LIMIT as int);
    let vx = clamp_spec(k.vel.x + div_t(k.acc.x * n, 60), -(VEL_LIMIT as int), VEL_LIMIT as int);
    let vy = clamp_spec(k.vel.y + div_t(k.acc.y * n, 60), -(VEL_LIMIT as int), VEL_LIMIT as int);
    Kinematics {
        pos: Vec2 { x: px as i64, y: py as i64 },
        vel: Vec2 { x: vx as i64, y: vy as i64 },
        acc: Vec2 { x: 0, y: 0 },
    }
}

/// Squared distance and distance of two in-range points.
fn dist_pair(a: &Vec2, b: &Vec2) -> (r: (i128, i64))
    requires
        in_range(a.x as int, POS_LIMIT as int),
        in_range(a.y as int, POS_LIMIT as int),
        in_range(b.x as int, POS_LIMIT as int),
        in_range(b.y as int, POS_LIMIT as int),
    ensures
        r.0 == dist2(*a, *b),
        r.1 == dist_c(*a, *b),
        0 <= r.0 <= 8_000_000_000_000_000_000_000_000,
        0 <= r.1 <= 3_000_000_000_000,
{
    let dx = a.x as i128 - b.x as i128;
    let dy = a.y as i128 - b.y as i128;
    proof {
        lemma_mul_abs_bound(dx as int, dx as int, 2_000_000_000_000, 2_000_000_000_000);
        lemma_mul_abs_bound(dy as int, dy as int, 2_000_000_000_000, 2_000_000_000_000);
        assert(dx as int * dx as int >= 0 && dy as int * dy as int >= 0) by (nonlinear_arith);
    }
    let d2 = dx * dx + dy * dy;
    proof {
        lemma_sqrt_floor_le(d2 as int, 3_000_000_000_000);
        crate::math::lemma_sqrt_floor_bounds(d2 as int);
    }
    let d = isqrt_u128(d2 as u128);
    (d2, d as i64)
}

/// Gravitational interaction of one moving point with one body: the outward
/// acceleration (to be subtracted by the caller) and the per-second
/// atmospheric retention fraction.
pub fn calculate_planet_interaction(
    rocket_kinematics: &Kinematics,
    planet: &CelestialBody,
    planet_kinematics: &Kinematics,
) -> (r: (Vec2, i64))
    requires
        kin_wf(*rocket_kinematics),
        kin_wf(*planet_kinematics),
        body_wf(*planet),
        dist2(rocket_kinematics.pos, planet_kinematics.pos) > planet.radius * planet.radius,
    ensures
        r.0.x == inter_acc_x(rocket_kinematics.pos, *planet, planet_kinematics.pos),
        r.0.y == inter_acc_y(rocket_kinematics.pos, *planet, planet_kinematics.pos),
        r.1 == inter_damping(rocket_kinematics.pos, *planet, planet_kinematics.pos),
        FRAC_HALF <= r.1 <= FRAC_ONE,
        in_range(r.0.x as int, ACC_LIMIT as int),
        in_range(r.0.y as int, ACC_LIMIT as int),
{
    let rpos = rocket_kinematics.pos;
    let ppos = planet_kinematics.pos;
    let (d2, d) = dist_pair(&rpos, &ppos);
    proof {
        assert(planet.radius * planet.radius >= 1) by (nonlinear_arith)
            requires
                planet.radius >= 1,
        ;
        crate::math::lemma_sqrt_floor_pos(dist2(rpos, ppos));
        assert(d >= 1);
    }
    let d_i = d as i128;
    proof {
        assert(1 <= d_i as int * d_i as int <= 9_000_000_000_000_000_000_000_000int)
            by (nonlinear_arith)
            requires
                1 <= d_i <= 3_000_000_000_000,
        ;
        lemma_mul_abs_bound(d_i as int * d_i as int, d_i as int,
            9_000_000_000_000_000_000_000_000int, 3_000_000_000_000);
        assert((d_i as int * d_i as int) * d_i as int >= 1) by (nonlinear_arith)
            requires
                d_i as int * d_i as int >= 1,
                d_i >= 1,
        ;
    }
    let d3 = (d_i * d_i) * d_i;
    let dx = rpos.x as i128 - ppos.x as i128;
    let dy = rpos.y as i128 - ppos.y as i128;
    proof {
        lemma_mul_abs_bound((FRAC_ONE as int) * (GRAVITY as int), planet.mass as int,
            1_350_000_000, MASS_LIMIT as int);
        lemma_mul_abs_bound(((FRAC_ONE as int) * (GRAVITY as int)) * (planet.mass as int),
            dx as int, 1_350_000_000 * (MASS_LIMIT as int), 2_000_000_000_000);
        lemma_mul_abs_bound(((FRAC_ONE as int) * (GRAVITY as int)) * (planet.mass as int),
            dy as int, 1_350_000_000 * (MASS_LIMIT as int), 2_000_000_000_000);
    }
    let num_x = ((FRAC_ONE as i128) * (GRAVITY as i128) * (planet.mass as i128)) * dx;
    let num_y = ((FRAC_ONE as i128) * (GRAVITY as i128) * (planet.mass as i128)) * dy;
    let ax = clamp_i128(div_i128(num_x, d3), ACC_LIMIT);
    let ay = clamp_i128(div_i128(num_y, d3), ACC_LIMIT);
    let damping: i64 = if d < planet.atmosphere_radius {
        proof {
            lemma_div_t_shrink(d as int * (FRAC_ONE as int), planet.atmosphere_radius as int,
                planet.atmosphere_radius as int * (FRAC_ONE as int));
            vstd::arithmetic::div_mod::lemma_div_multiples_vanish(FRAC_ONE as int,
                planet.atmosphere_radius as int);
            vstd::arithmetic::div_mod::lemma_div_pos_is_pos(d as int * (FRAC_ONE as int),
                planet.atmosphere_radius as int);
            assert(d as int * (FRAC_ONE as int) >= 0) by (nonlinear_arith)
                requires
                    d >= 0,
            ;
        }
        let p_frac = div_i128((d as i128) * (FRAC_ONE as i128), planet.atmosphere_radius as i128);
        proof {
            lemma_sqrt_floor_le(p_frac as int * (FRAC_ONE as int), FRAC_ONE as int);
            crate::math::lemma_sqrt_floor_bounds(p_frac as int * (FRAC_ONE as int));
            assert(p_frac as int * (FRAC_ONE as int) >= 0) by (nonlinear_arith)
                requires
                    p_frac >= 0,
            ;
            assert(p_frac as int * (FRAC_ONE as int) <= (FRAC_ONE as int) * (FRAC_ONE as int))
                by (nonlinear_arith)
                requires
                    0 <= p_frac <= FRAC_ONE as int,
            ;
        }
        let s = isqrt_u128((p_frac * (FRAC_ONE as i128)) as u128);
        FRAC_HALF + (s as i64) / 2
    } else {
        FRAC_ONE
    };
    (Vec2 { x: ax, y: ay }, damping)
}

/// All gravity and drag of one snapshot position: the summed outward
/// acceleration and the combined retention fraction.
fn gather_forces(kin: &Kinematics, planets: &Vec<Planet>) -> (r: (i128, i128, i64))
    requires
        kin_wf(*kin),
        planets_wf(planets@),
    ensures
        r.0 == grav_sum_x(kin.pos, planets@),
        r.1 == grav_sum_y(kin.pos, planets@),
        r.2 == grav_damp(kin.pos, planets@),
        in_range(r.0 as int, (MAX_PLANETS as int) * (ACC_LIMIT as int)),
        in_range(r.1 as int, (MAX_PLANETS as int) * (ACC_LIMIT as int)),
        1 <= r.2 <= FRAC_ONE,
{
    let mut sum_x: i128 = 0;
    let mut sum_y: i128 = 0;
    let mut damp: i64 = FRAC_ONE;
    let mut i: usize = 0;
    while i < planets.len()
        invariant
            0 <= i <= planets@.len(),
            kin_wf(*kin),
            planets_wf(planets@),
            sum_x == grav_sum_x(kin.pos, planets@.take(i as int)),
            sum_y == grav_sum_y(kin.pos, planets@.take(i as int)),
            damp == grav_damp(kin.pos, planets@.take(i as int)),
            in_range(sum_x as int, (i as int) * (ACC_LIMIT as int)),
            in_range(sum_y as int, (i as int) * (ACC_LIMIT as int)),
            1 <= damp <= FRAC_ONE,
        decreases planets@.len() - i,
    {
        let p = planets[i];
        let (d2, _d) = dist_pair(&kin.pos, &p.kin.pos);
        proof {
            lemma_mul_abs_bound(p.body.radius as int, p.body.radius as int, POS_LIMIT as int,
                POS_LIMIT as int);
        }
        if d2 > (p.body.radius as i128) * (p.body.radius as i128) {
            let (a, f) = calculate_planet_interaction(kin, &p.body, &p.kin);
            sum_x = sum_x + a.x as i128;
            sum_y = sum_y + a.y as i128;
            proof {
                lemma_mul_abs_bound(damp as int, f as int, FRAC_ONE as int, FRAC_ONE as int);
                lemma_div_t_shrink(damp as int * f as int, FRAC_ONE as int,
                    (FRAC_ONE as int) * (FRAC_ONE as int));
            }
            let m = div_i128((damp as i128) * (f as i128), FRAC_ONE as i128);
            damp = if m < 1 {
                1
            } else {
                m as i64
            };
        }
        proof {
            assert(planets@.take(i + 1 as int).drop_last() =~= planets@.take(i as int));
            assert(planets@.take(i + 1 as int).last() == planets@[i as int]);
        }
        i = i + 1;
    }
    proof {
        assert(planets@.take(planets@.len() as int) =~= planets@);
    }
    (sum_x, sum_y, damp)
}

/// One fixed physics step of `n` ticks for the rocket: thrust, gravity and
/// drag from a consistent position snapshot, integration, damping, reset.
pub fn physics_step(rocket: &mut Rocket, kinematics: &mut Kinematics, planets: &Vec<Planet>,
    n: u64)
    requires
        rocket_wf(*old(rocket)),
        kin_wf(*old(kinematics)),
        planets_wf(planets@),
        1 <= n <= MAX_STEP_TICKS,
    ensures
        *final(rocket) == step_rocket_spec(*old(rocket), n as int),
        *final(kinematics) == step_kin_spec(*old(kinematics), *old(rocket), planets@, n as int),
        rocket_wf(*final(rocket)),
        kin_wf(*final(kinematics)),
{
    let (gx, gy, damp) = gather_forces(kinematics, planets);

    // Thrust: burn fuel and push along the orientation vector.
    if rocket.thrust > 0 && rocket.current_fuel_mass > 0 {
        let total_mass = rocket.current_fuel_mass + rocket.non_fuel_mass;
        proof {
            lemma_mul_abs_bound(rocket.fuel_burn_rate as int, n as int, RATE_LIMIT as int,
                MAX_STEP_TICKS as int);
            lemma_mul_abs_bound(rocket.fuel_burn_rate as int * n as int, rocket.thrust as int,
                60_000_000_000_000int, FRAC_ONE as int);
            lemma_div_t_shrink(
                (rocket.fuel_burn_rate as int * n as int) * rocket.thrust as int,
                60 * (FRAC_ONE as int),
                60_000_000_000_000int * (FRAC_ONE as int),
            );
        }
        let burned_raw = div_i128(((rocket.fuel_burn_rate as i128) * (n as i128))
            * (rocket.thrust as i128), 60 * (FRAC_ONE as i128));
        proof {
            lemma_mul_abs_bound(burn_raw(*rocket, n as int), rocket.fuel_thrust_factor as int,
                1_000_000_000_000, 1_000_000_000);
            lemma_div_t_shrink(
                (burn_raw(*rocket, n as int) * rocket.fuel_thrust_factor as int)
                    * (THRUST_MULTIPLIER as int),
                rocket.current_fuel_mass as int + rocket.non_fuel_mass as int,
                90_000_000_000_000_000_000_000int,
            );
        }
        let mag = div_i128((burned_raw * (rocket.fuel_thrust_factor as i128))
            * (THRUST_MULTIPLIER as i128), total_mass as i128);
        let s = sin_frac(rocket.angle);
        let c = cos_frac(rocket.angle);
        proof {
            lemma_mul_abs_bound(mag as int, s as int, 90_000_000_000_000_000_000_000int,
                FRAC_ONE as int);
            lemma_mul_abs_bound(mag as int, c as int, 90_000_000_000_000_000_000_000int,
                FRAC_ONE as int);
            lemma_div_t_shrink(mag as int * s as int, FRAC_ONE as int,
                90_000_000_000_000_000_000_000int * (FRAC_ONE as int));
            lemma_div_t_shrink(mag as int * c as int, FRAC_ONE as int,
                90_000_000_000_000_000_000_000int * (FRAC_ONE as int));
        }
        kinematics.acc.x = clamp_i128(kinematics.acc.x as i128
            + div_i128(mag * (s as i128), FRAC_ONE as i128), ACC_LIMIT);
        kinematics.acc.y = clamp_i128(kinematics.acc.y as i128
            + div_i128(mag * (c as i128), FRAC_ONE as i128), ACC_LIMIT);
        proof {
            vstd::arithmetic::div_mod::lemma_div_pos_is_pos(
                (rocket.fuel_burn_rate as int * n as int) * rocket.thrust as int,
                60 * (FRAC_ONE as int),
            );
            assert((rocket.fuel_burn_rate as int * n as int) * rocket.thrust as int >= 0)
                by (nonlinear_arith)
                requires
                    rocket.fuel_burn_rate >= 0,
                    n >= 1,
                    rocket.thrust >= 0,
            ;
        }
        if burned_raw < rocket.current_fuel_mass as i128 {
            rocket.current_fuel_mass = rocket.current_fuel_mass - burned_raw as i64;
        } else {
            rocket.current_fuel_mass = 0;
        }
    }

    // Gravity is attractive: subtract the outward components.
    kinematics.acc.x = clamp_i128(kinematics.acc.x as i128 - gx, ACC_LIMIT);
    kinematics.acc.y = clamp_i128(kinematics.acc.y as i128 - gy, ACC_LIMIT);

    // Semi-implicit Euler integration over n ticks (dt = n / 60 s).
    let n_i = n as i128;
    proof {
        lemma_step_arith_bounds(kinematics.vel.x as int, kinematics.acc.x as int, n as int);
        lemma_step_arith_bounds(kinematics.vel.y as int, kinematics.acc.y as int, n as int);
    }
    kinematics.pos.x = clamp_i128(kinematics.pos.x as i128
        + div_i128((kinematics.vel.x as i128) * n_i, 60)
        + div_i128(((kinematics.acc.x as i128) * n_i) * n_i, 7200), POS_LIMIT);
    kinematics.pos.y = clamp_i128(kinematics.pos.y as i128
        + div_i128((kinematics.vel.y as i128) * n_i, 60)
        + div_i128(((kinematics.acc.y as i128) * n_i) * n_i, 7200), POS_LIMIT);
    kinematics.vel.x = clamp_i128(kinematics.vel.x as i128
        + div_i128((kinematics.acc.x as i128) * n_i, 60), VEL_LIMIT);
    kinematics.vel.y = clamp_i128(kinematics.vel.y as i128
        + div_i128((kinematics.acc.y as i128) * n_i, 60), VEL_LIMIT);

    // Atmospheric damping, step-size independent: retention ^ (n / 60).
    let dn = pow_frac(damping_per_tick(damp), n);
    proof {
        lemma_mul_abs_bound(kinematics.vel.x as int, dn as int, VEL_LIMIT as int,
            FRAC_ONE as int);
        lemma_mul_abs_bound(kinematics.vel.y as int, dn as int, VEL_LIMIT as int,
            FRAC_ONE as int);
        lemma_div_t_shrink(kinematics.vel.x as int * dn as int, FRAC_ONE as int,
            (VEL_LIMIT as int) * (FRAC_ONE as int));
        lemma_div_t_shrink(kinematics.vel.y as int * dn as int, FRAC_ONE as int,
            (VEL_LIMIT as int) * (FRAC_ONE as int));
    }
    kinematics.vel.x = div_i128((kinematics.vel.x as i128) * (dn as i128), FRAC_ONE as i128)
        as i64;
    kinematics.vel.y = div_i128((kinematics.vel.y as i128) * (dn as i128), FRAC_ONE as i128)
        as i64;

    // Reset: forces accumulate afresh next step.
    kinematics.acc.x = 0;
    kinematics.acc.y = 0;
}

/// Intermediate magnitude bounds of the integration formulas.
proof fn lemma_step_arith_bounds(v: int, a: int, n: int)
    requires
        in_range(v, VEL_LIMIT as int),
        in_range(a, ACC_LIMIT as int),
        1 <= n <= MAX_STEP_TICKS as int,
    ensures
        in_range(v * n, 60_000_000_000_000_000int),
        in_range((a * n) * n, 3_600_000_000_000_000_000_000_000int),
        in_range(div_t(v * n, 60), 1_000_000_000_000_000int),
        in_range(div_t((a * n) * n, 7200), 500_000_000_000_000_000_000int),
        in_range(div_t(a * n, 60), 1_000_000_000_000_000_000int),
{
    lemma_mul_abs_bound(v, n, VEL_LIMIT as int, MAX_STEP_TICKS as int);
    lemma_mul_abs_bound(a, n, ACC_LIMIT as int, MAX_STEP_TICKS as int);
    lemma_mul_abs_bound(a * n, n, (ACC_LIMIT as int) * (MAX_STEP_TICKS as int),
        MAX_STEP_TICKS as int);
    lemma_div_t_shrink(v * n, 60, 60_000_000_000_000_000int);
    lemma_div_t_shrink((a * n) * n, 7200, 3_600_000_000_000_000_000_000_000int);
    lemma_div_t_shrink(a * n, 60, 60_000_000_000_000_000_000int);
}

/// Advance the kinematic state of one body no force acts on.
fn drift_kin(k: &Kinematics, n: u64) -> (r: Kinematics)
    requires
        kin_wf(*k),
        1 <= n <= MAX_STEP_TICKS,
    ensures
        r == drift_kin_spec(*k, n as int),
        kin_wf(r),
{
    proof {
        lemma_step_arith_bounds(k.vel.x as int, k.acc.x as int, n as int);
        lemma_step_arith_bounds(k.vel.y as int, k.acc.y as int, n as int);
    }
    let n_i = n as i128;
    Kinematics {
        pos: Vec2 {
            x: clamp_i128(k.pos.x as i128 + div_i128((k.vel.x as i128) * n_i, 60)
                + div_i128(((k.acc.x as i128) * n_i) * n_i, 7200), POS_LIMIT),
            y: clamp_i128(k.pos.y as i128 + div_i128((k.vel.y as i128) * n_i, 60)
                + div_i128(((k.acc.y as i128) * n_i) * n_i, 7200), POS_LIMIT),
        },
        vel: Vec2 {
            x: clamp_i128(k.vel.x as i128 + div_i128((k.acc.x as i128) * n_i, 60), VEL_LIMIT),
            y: clamp_i128(k.vel.y as i128 + div_i128((k.acc.y as i128) * n_i, 60), VEL_LIMIT),
        },
        acc: Vec2 { x: 0, y: 0 },
    }
}

/// Advance every celestial body by `n` ticks.
pub fn integrate_planets(planets: &mut Vec<Planet>, n: u64)
    requires
        planets_wf(old(planets)@),
        1 <= n <= MAX_STEP_TICKS,
    ensures
        final(planets)@.len() == old(planets)@.len(),
        forall|i: int| 0 <= i < final(planets)@.len() ==> #[trigger] final(planets)@[i]
            == (Planet {
            body: old(planets)@[i].body,
            kin: drift_kin_spec(old(planets)@[i].kin, n as int),
        }),
        planets_wf(final(planets)@),
{
    let mut i: usize = 0;
    while i < planets.len()
        invariant
            0 <= i <= planets@.len(),
            planets@.len() == old(planets)@.len(),
            1 <= n <= MAX_STEP_TICKS,
            planets_wf(old(planets)@),
            forall|j: int| i <= j < planets@.len() ==> #[trigger] planets@[j]
                == old(planets)@[j],
            forall|j: int| 0 <= j < i ==> #[trigger] planets@[j] == (Planet {
                body: old(planets)@[j].body,
                kin: drift_kin_spec(old(planets)@[j].kin, n as int),
            }),
            forall|j: int| 0 <= j < i ==> kin_wf(#[trigger] planets@[j].kin),
        decreases planets@.len() - i,
    {
        let p = planets[i];
        let moved = Planet { body: p.body, kin: drift_kin(&p.kin, n) };
        planets.set(i, moved);
        i = i + 1;
    }
}

/// Latch the crash flag as soon as the rocket is strictly inside any body's
/// radius; once set it is never cleared.
pub fn rocket_crash_sys(rocket_kinematics: &Kinematics, planets: &Vec<Planet>,
    rocket_crashed: &mut RocketCrashed)
    requires
        kin_wf(*rocket_kinematics),
        planets_wf(planets@),
    ensures
        final(rocket_crashed).0 == (old(rocket_crashed).0
            || hits_any(rocket_kinematics.pos, planets@)),
{
    let mut found = false;
    let mut i: usize = 0;
    while i < planets.len()
        invariant
            0 <= i <= planets@.len(),
            kin_wf(*rocket_kinematics),
            planets_wf(planets@),
            found == hits_any(rocket_kinematics.pos, planets@.take(i as int)),
        decreases planets@.len() - i,
    {
        let p = planets[i];
        let (d2, _d) = dist_pair(&rocket_kinematics.pos, &p.kin.pos);
        proof {
            lemma_mul_abs_bound(p.body.radius as int, p.body.radius as int, POS_LIMIT as int,
                POS_LIMIT as int);
        }
        if d2 < (p.body.radius as i128) * (p.body.radius as i128) {
            found = true;
        }
        proof {
            assert(planets@.take(i + 1 as int) =~= planets@.take(i as int).push(
                planets@[i as int]));
            if found {
                if inside_radius(rocket_kinematics.pos, planets@[i as int]) {
                    assert(planets@.take(i + 1 as int)[i as int] == planets@[i as int]);
                    assert(hits_any(rocket_kinematics.pos, planets@.take(i + 1 as int)));
                } else {
                    let w = choose|w: int| 0 <= w < planets@.take(i as int).len()
                        && inside_radius(rocket_kinematics.pos,
                        #[trigger] planets@.take(i as int)[w]);
                    assert(planets@.take(i + 1 as int)[w] == planets@.take(i as int)[w]);
                    assert(hits_any(rocket_kinematics.pos, planets@.take(i + 1 as int)));
                }
            } else {
                assert(forall|w: int| 0 <= w < i + 1 ==> !inside_radius(rocket_kinematics.pos,
                    #[trigger] planets@.take(i + 1 as int)[w]));
            }
        }
        i = i + 1;
    }
    proof {
        assert(planets@.take(planets@.len() as int) =~= planets@);
    }
    if found {
        rocket_crashed.0 = true;
    }
}


/// Coasting is exact Euler integration: with no throttle (or no fuel) and
/// no gravity sources at all, one fixed step updates position and velocity
/// by exactly the semi-implicit formulas `pos += vel*dt + acc*dt^2/2`,
/// `vel += acc*dt`, with no damping and no saturation, and resets the
/// acceleration.
pub proof fn lemma_coast_step_exact(k: Kinematics, r: Rocket, n: int)
    requires
        !thrusting(r),
        kin_wf(k),
        1 <= n <= MAX_STEP_TICKS,
        in_range(k.pos.x + div_t(k.vel.x * n, 60) + div_t((k.acc.x * n) * n, 7200),
            POS_LIMIT as int),
        in_range(k.pos.y + div_t(k.vel.y * n, 60) + div_t((k.acc.y * n) * n, 7200),
            POS_LIMIT as int),
        in_range(k.vel.x + div_t(k.acc.x * n, 60), VEL_LIMIT as int),
        in_range(k.vel.y + div_t(k.acc.y * n, 60), VEL_LIMIT as int),
    ensures
        ({
            let k2 = step_kin_spec(k, r, Seq::<Planet>::empty(), n);
            &&& k2.pos.x == k.pos.x + div_t(k.vel.x * n, 60) + div_t((k.acc.x * n) * n, 7200)
            &&& k2.pos.y == k.pos.y + div_t(k.vel.y * n, 60) + div_t((k.acc.y * n) * n, 7200)
            &&& k2.vel.x == k.vel.x + div_t(k.acc.x * n, 60)
            &&& k2.vel.y == k.vel.y + div_t(k.acc.y * n, 60)
            &&& k2.acc == (Vec2 { x: 0, y: 0 })
        }),
{
    let ps = Seq::<Planet>::empty();
    assert(grav_sum_x(k.pos, ps) == 0);
    assert(grav_sum_y(k.pos, ps) == 0);
    assert(grav_damp(k.pos, ps) == FRAC_ONE as int);
    crate::damping::lemma_per_tick_one();
    crate::damping::lemma_pow_frac_one(n as nat);
    let v1x = clamp_spec(k.vel.x + div_t(k.acc.x * n, 60), -(VEL_LIMIT as int),
        VEL_LIMIT as int);
    let v1y = clamp_spec(k.vel.y + div_t(k.acc.y * n, 60), -(VEL_LIMIT as int),
        VEL_LIMIT as int);
    assert(v1x == k.vel.x + div_t(k.acc.x * n, 60));
    assert(v1y == k.vel.y + div_t(k.acc.y * n, 60));
    assert(v1x * (FRAC_ONE as int) == (FRAC_ONE as int) * v1x) by (nonlinear_arith);
    assert(v1y * (FRAC_ONE as int) == (FRAC_ONE as int) * v1y) by (nonlinear_arith);
    vstd::arithmetic::div_mod::lemma_div_multiples_vanish(v1x, FRAC_ONE as int);
    vstd::arithmetic::div_mod::lemma_div_multiples_vanish(v1y, FRAC_ONE as int);
    if v1x >= 0 {
    } else {
        assert((-v1x) * (FRAC_ONE as int) == -(v1x * (FRAC_ONE as int))) by (nonlinear_arith);
        vstd::arithmetic::div_mod::lemma_div_multiples_vanish(-v1x, FRAC_ONE as int);
    }
    if v1y >= 0 {
    } else {
        assert((-v1y) * (FRAC_ONE as int) == -(v1y * (FRAC_ONE as int))) by (nonlinear_arith);
        vstd::arithmetic::div_mod::lemma_div_multiples_vanish(-v1y, FRAC_ONE as int);
    }
}

/// Gravity is attractive: the outward acceleration the model returns points
/// along the separation vector (so subtracting it accelerates the rocket
/// toward the body), and the retention fraction lies in `[1/2, 1]`.  A step
/// keeps every quantity inside its finite range (`physics_step` ensures
/// well-formedness), so no value ever becomes undefined.
pub proof fn lemma_gravity_attracts(rpos: Vec2, body: CelestialBody, ppos: Vec2)
    requires
        body_wf(body),
        in_range(rpos.x as int, POS_LIMIT as int),
        in_range(rpos.y as int, POS_LIMIT as int),
        in_range(ppos.x as int, POS_LIMIT as int),
        in_range(ppos.y as int, POS_LIMIT as int),
        dist2(rpos, ppos) > body.radius * body.radius,
    ensures
        inter_acc_x(rpos, body, ppos) * (rpos.x - ppos.x) >= 0,
        inter_acc_y(rpos, body, ppos) * (rpos.y - ppos.y) >= 0,
        FRAC_HALF <= inter_damping(rpos, body, ppos) <= FRAC_ONE,
{
    assert(body.radius * body.radius >= 1) by (nonlinear_arith)
        requires
            body.radius >= 1,
    ;
    crate::math::lemma_sqrt_floor_pos(dist2(rpos, ppos));
    let d = sqrt_floor(dist2(rpos, ppos));
    assert((d * d) * d >= 1) by (nonlinear_arith)
        requires
            d >= 1,
    ;
    let cm = (FRAC_ONE as int) * (GRAVITY as int) * (body.mass as int);
    assert(cm >= 0);
    let dx = rpos.x - ppos.x;
    let dy = rpos.y - ppos.y;
    lemma_inter_sign(cm, dx, (d * d) * d);
    lemma_inter_sign(cm, dy, (d * d) * d);
    lemma_damping_range(rpos, body, ppos);
}

/// Sign of one clamped gravitational component: `clamp(c*delta/d3)` times
/// `delta` is never negative when `c, d3 >= 0`.
proof fn lemma_inter_sign(c: int, delta: int, d3: int)
    requires
        c >= 0,
        d3 >= 1,
    ensures
        clamp_spec(div_t(c * delta, d3), -(ACC_LIMIT as int), ACC_LIMIT as int) * delta >= 0,
{
    let q = div_t(c * delta, d3);
    crate::math::lemma_div_t_sign(c * delta, d3);
    if delta >= 0 {
        assert(c * delta >= 0) by (nonlinear_arith)
            requires
                c >= 0,
                delta >= 0,
        ;
        assert(clamp_spec(q, -(ACC_LIMIT as int), ACC_LIMIT as int) * delta >= 0)
            by (nonlinear_arith)
            requires
                q >= 0,
                delta >= 0,
                clamp_spec(q, -(ACC_LIMIT as int), ACC_LIMIT as int) == if q > ACC_LIMIT as int {
                    ACC_LIMIT as int
                } else {
                    q
                },
                ACC_LIMIT > 0,
        ;
    } else {
        assert(c * delta <= 0) by (nonlinear_arith)
            requires
                c >= 0,
                delta <= 0,
        ;
        assert(clamp_spec(q, -(ACC_LIMIT as int), ACC_LIMIT as int) * delta >= 0)
            by (nonlinear_arith)
            requires
                q <= 0,
                delta <= 0,
                clamp_spec(q, -(ACC_LIMIT as int), ACC_LIMIT as int) == if q < -(ACC_LIMIT as int) {
                    -(ACC_LIMIT as int)
                } else {
                    q
                },
                ACC_LIMIT > 0,
        ;
    }
}

/// The per-body retention fraction always lies in `[1/2, 1]`.
proof fn lemma_damping_range(rpos: Vec2, body: CelestialBody, ppos: Vec2)
    requires
        body_wf(body),
        in_range(rpos.x as int, POS_LIMIT as int),
        in_range(rpos.y as int, POS_LIMIT as int),
        in_range(ppos.x as int, POS_LIMIT as int),
        in_range(ppos.y as int, POS_LIMIT as int),
        dist2(rpos, ppos) >= 0,
    ensures
        FRAC_HALF <= inter_damping(rpos, body, ppos) <= FRAC_ONE,
{
    let d = sqrt_floor(dist2(rpos, ppos));
    crate::math::lemma_sqrt_floor_bounds(dist2(rpos, ppos));
    if d < body.atmosphere_radius {
        lemma_mul_abs_bound(d, FRAC_ONE as int, body.atmosphere_radius as int,
            FRAC_ONE as int);
        lemma_div_t_shrink(d * (FRAC_ONE as int), body.atmosphere_radius as int,
            body.atmosphere_radius as int * (FRAC_ONE as int));
        vstd::arithmetic::div_mod::lemma_div_multiples_vanish(FRAC_ONE as int,
            body.atmosphere_radius as int);
        vstd::arithmetic::div_mod::lemma_div_pos_is_pos(d * (FRAC_ONE as int),
            body.atmosphere_radius as int);
        assert(d * (FRAC_ONE as int) >= 0) by (nonlinear_arith)
            requires
                d >= 0,
        ;
        let p = div_t(d * (FRAC_ONE as int), body.atmosphere_radius as int);
        assert(p * (FRAC_ONE as int) <= (FRAC_ONE as int) * (FRAC_ONE as int))
            by (nonlinear_arith)
            requires
                0 <= p <= FRAC_ONE as int,
        ;
        assert(p * (FRAC_ONE as int) >= 0) by (nonlinear_arith)
            requires
                p >= 0,
        ;
        crate::math::lemma_sqrt_floor_le(p * (FRAC_ONE as int), FRAC_ONE as int);
        crate::math::lemma_sqrt_floor_bounds(p * (FRAC_ONE as int));
        let sq = sqrt_floor(p * (FRAC_ONE as int));
        vstd::arithmetic::div_mod::lemma_div_pos_is_pos(sq, 2);
        vstd::arithmetic::div_mod::lemma_div_is_ordered(sq, FRAC_ONE as int, 2);
    }
}

/// An empty tank gives no thrust: with zero fuel the step adds no thrust
/// acceleration and the fuel mass stays exactly zero, never negative.
pub proof fn lemma_no_fuel_no_thrust(k: Kinematics, r: Rocket, n: int)
    requires
        r.current_fuel_mass == 0,
    ensures
        step_rocket_spec(r, n).current_fuel_mass == 0,
        acc_after_thrust_x(k, r, n) == k.acc.x,
        acc_after_thrust_y(k, r, n) == k.acc.y,
{
}

} // verus!
