//! The rocket's own state, the sticky crash flag, and the altitude readout.

use vstd::prelude::*;

use crate::math::lemma_mul_abs_bound;
use crate::physics::{dist2, dist_c, in_range, kin_wf, Kinematics, Vec2};
use crate::planet::planet_wf;
use crate::planet::{planets_wf, Planet};
use crate::{FRAC_ONE, MASS_LIMIT, POS_LIMIT, RATE_LIMIT, TWO_PI_MICRO};

verus! {

/// Sticky terminal condition: set once the rocket intersects a body, never
/// cleared by the simulation.
#[derive(Clone, Copy, PartialEq, Eq, Structural, Debug)]
pub struct RocketCrashed(pub bool);

/// The rocket.  Masses and fuel are milli-units; `angle` is micro-radians,
/// normalized into `[0, TWO_PI_MICRO)`; `thrust` is the throttle fraction at
/// the `FRAC_ONE` scale.
#[derive(Clone, Copy, PartialEq, Eq, Structural, Debug)]
pub struct Rocket {
    pub fuel_capacity: i64,
    pub current_fuel_mass: i64,
    pub non_fuel_mass: i64,
    /// how fast the fuel burns
    pub fuel_burn_rate: i64,
    /// how much force per fuel unit
    pub fuel_thrust_factor: i64,
    pub angle: i64,
    /// throttle fraction, from 0 to FRAC_ONE
    pub thrust: i64,
}

pub open spec fn rocket_wf(r: Rocket) -> bool {
    &&& 0 <= r.current_fuel_mass <= r.fuel_capacity
    &&& r.fuel_capacity <= MASS_LIMIT
    &&& 1 <= r.non_fuel_mass <= MASS_LIMIT
    &&& 0 <= r.fuel_burn_rate <= RATE_LIMIT
    &&& 0 <= r.fuel_thrust_factor <= RATE_LIMIT
    &&& 0 <= r.angle < TWO_PI_MICRO
    &&& 0 <= r.thrust <= FRAC_ONE
}

impl Default for Rocket {
    /// A fresh rocket: full tank, nose up, full throttle.
    fn default() -> (r: Self)
        ensures
            r == (Rocket {
                fuel_capacity: 2_500_000,
                current_fuel_mass: 2_500_000,
                non_fuel_mass: 100_000,
                fuel_burn_rate: 2_000,
                fuel_thrust_factor: 500_000,
                angle: 0,
                thrust: FRAC_ONE,
            }),
            rocket_wf(r),
    {
        Rocket {
            fuel_capacity: 2_500_000,
            current_fuel_mass: 2_500_000,
            non_fuel_mass: 100_000,
            fuel_burn_rate: 2_000,
            fuel_thrust_factor: 500_000,
            angle: 0,
            thrust: FRAC_ONE,
        }
    }
}

impl Rocket {
    /// Total mass: remaining fuel plus the structure.
    pub fn total_mass(&self) -> (r: i64)
        requires
            rocket_wf(*self),
        ensures
            r == self.current_fuel_mass + self.non_fuel_mass,
    {
        self.current_fuel_mass + self.non_fuel_mass
    }
}

/// Distance to the nearest body's surface, and which body that is (an index
/// into the planet list).  Negative height means the rocket is below that
/// surface.
#[derive(Clone, Copy, PartialEq, Eq, Structural, Debug)]
pub struct Altitude {
    pub height: i64,
    pub closest_planet: usize,
}

impl Default for Altitude {
    fn default() -> (r: Self)
        ensures
            r == (Altitude { height: i64::MAX, closest_planet: 0 }),
    {
        Altitude { height: i64::MAX, closest_planet: 0 }
    }
}

/// The live rocket with its kinematic state and altitude readout, as it is
/// placed into a fresh world: resting just above the surface of a body of
/// radius 6000 units at the origin.
#[derive(Clone, Copy, PartialEq, Eq, Structural, Debug)]
pub struct RocketBundle {
    pub kinematics: Kinematics,
    pub rocket: Rocket,
    pub altitude: Altitude,
}

impl Default for RocketBundle {
    fn default() -> (r: Self)
        ensures
            r.kinematics == (Kinematics {
                pos: Vec2 { x: 0, y: 6_000_500 },
                vel: Vec2 { x: 0, y: 0 },
                acc: Vec2 { x: 0, y: 0 },
            }),
            r.rocket == (Rocket {
                fuel_capacity: 2_500_000,
                current_fuel_mass: 2_500_000,
                non_fuel_mass: 100_000,
                fuel_burn_rate: 2_000,
                fuel_thrust_factor: 500_000,
                angle: 0,
                thrust: FRAC_ONE,
            }),
            r.altitude == (Altitude { height: i64::MAX, closest_planet: 0 }),
            kin_wf(r.kinematics),
            rocket_wf(r.rocket),
    {
        RocketBundle {
            kinematics: Kinematics {
                pos: Vec2 { x: 0, y: 6_000_500 },
                vel: Vec2 { x: 0, y: 0 },
                acc: Vec2 { x: 0, y: 0 },
            },
            rocket: Rocket::default(),
            altitude: Altitude::default(),
        }
    }
}

/// Height of a point above one body's surface.
pub open spec fn surface_height(rpos: Vec2, p: Planet) -> int {
    dist_c(rpos, p.kin.pos) - p.body.radius
}

/// The altitude readout over a list of bodies: the smallest surface height,
/// keeping the first body that attains it, or an unbounded height (and the
/// previous body index) when there are no bodies.
pub open spec fn alt_fold(rpos: Vec2, ps: Seq<Planet>, prev_idx: usize) -> Altitude
    decreases ps.len(),
{
    if ps.len() == 0 {
        Altitude { height: i64::MAX, closest_planet: prev_idx }
    } else {
        let rest = alt_fold(rpos, ps.drop_last(), prev_idx);
        let h = surface_height(rpos, ps.last());
        if h < rest.height {
            Altitude { height: h as i64, closest_planet: (ps.len() - 1) as usize }
        } else {
            rest
        }
    }
}

/// What the readout means: the chosen height is a lower bound of every
/// surface height, attained at the chosen body, and no earlier body
/// attains it.
pub proof fn lemma_alt_fold_min(rpos: Vec2, ps: Seq<Planet>, prev_idx: usize)
    requires
        ps.len() > 0,
        planets_wf(ps),
        in_range(rpos.x as int, POS_LIMIT as int),
        in_range(rpos.y as int, POS_LIMIT as int),
    ensures
        0 <= alt_fold(rpos, ps, prev_idx).closest_planet < ps.len(),
        alt_fold(rpos, ps, prev_idx).height == surface_height(rpos,
            ps[alt_fold(rpos, ps, prev_idx).closest_planet as int]),
        forall|j: int| 0 <= j < ps.len() ==> surface_height(rpos, #[trigger] ps[j])
            >= alt_fold(rpos, ps, prev_idx).height,
        forall|j: int| 0 <= j < alt_fold(rpos, ps, prev_idx).closest_planet
            ==> surface_height(rpos, #[trigger] ps[j]) > alt_fold(rpos, ps, prev_idx).height,
    decreases ps.len(),
{
    let r = alt_fold(rpos, ps, prev_idx);
    lemma_surface_height_range(rpos, ps.last());
    if ps.len() == 1 {
    } else {
        lemma_alt_fold_min(rpos, ps.drop_last(), prev_idx);
        assert(forall|j: int| 0 <= j < ps.len() - 1 ==> ps.drop_last()[j] == #[trigger] ps[j]);
    }
}

/// A surface height fits comfortably inside the `i64` range.
pub proof fn lemma_surface_height_range(rpos: Vec2, p: Planet)
    requires
        planet_wf(p),
        in_range(rpos.x as int, POS_LIMIT as int),
        in_range(rpos.y as int, POS_LIMIT as int),
    ensures
        -(POS_LIMIT as int) <= surface_height(rpos, p) <= 3_000_000_000_000,
{
    lemma_mul_abs_bound(rpos.x - p.kin.pos.x, rpos.x - p.kin.pos.x, 2_000_000_000_000,
        2_000_000_000_000);
    lemma_mul_abs_bound(rpos.y - p.kin.pos.y, rpos.y - p.kin.pos.y, 2_000_000_000_000,
        2_000_000_000_000);
    assert((rpos.x - p.kin.pos.x) * (rpos.x - p.kin.pos.x) >= 0 && (rpos.y - p.kin.pos.y)
        * (rpos.y - p.kin.pos.y) >= 0) by (nonlinear_arith);
    crate::math::lemma_sqrt_floor_le(dist2(rpos, p.kin.pos), 3_000_000_000_000);
    crate::math::lemma_sqrt_floor_bounds(dist2(rpos, p.kin.pos));
}


/// While the rocket is not strictly inside any body, the altitude readout
/// is non-negative: clear of every surface, or exactly on one.
pub proof fn lemma_altitude_nonnegative_when_clear(rpos: Vec2, ps: Seq<Planet>,
    prev_idx: usize)
    requires
        ps.len() > 0,
        planets_wf(ps),
        in_range(rpos.x as int, POS_LIMIT as int),
        in_range(rpos.y as int, POS_LIMIT as int),
        !crate::physics::hits_any(rpos, ps),
    ensures
        alt_fold(rpos, ps, prev_idx).height >= 0,
{
    lemma_alt_fold_min(rpos, ps, prev_idx);
    let c = alt_fold(rpos, ps, prev_idx).closest_planet as int;
    let p = ps[c];
    assert(!crate::physics::inside_radius(rpos, p));
    lemma_mul_abs_bound(rpos.x - p.kin.pos.x, rpos.x - p.kin.pos.x, 2_000_000_000_000,
        2_000_000_000_000);
    lemma_mul_abs_bound(rpos.y - p.kin.pos.y, rpos.y - p.kin.pos.y, 2_000_000_000_000,
        2_000_000_000_000);
    assert((rpos.x - p.kin.pos.x) * (rpos.x - p.kin.pos.x) >= 0 && (rpos.y - p.kin.pos.y)
        * (rpos.y - p.kin.pos.y) >= 0) by (nonlinear_arith);
    crate::math::lemma_sqrt_floor_ge(dist2(rpos, p.kin.pos), p.body.radius as int);
}

/// Recompute the altitude readout from the current positions.
pub fn update_altitude_sys(altitude: &mut Altitude, rocket_kinematics: &Kinematics,
    planets: &Vec<Planet>)
    requires
        kin_wf(*rocket_kinematics),
        planets_wf(planets@),
    ensures
        *final(altitude) == alt_fold(rocket_kinematics.pos, planets@,
            old(altitude).closest_planet),
{
    altitude.height = i64::MAX;
    let mut i: usize = 0;
    while i < planets.len()
        invariant
            0 <= i <= planets@.len(),
            kin_wf(*rocket_kinematics),
            planets_wf(planets@),
            *altitude == alt_fold(rocket_kinematics.pos, planets@.take(i as int),
                old(altitude).closest_planet),
        decreases planets@.len() - i,
    {
        let p = planets[i];
        let dx = rocket_kinematics.pos.x as i128 - p.kin.pos.x as i128;
        let dy = rocket_kinematics.pos.y as i128 - p.kin.pos.y as i128;
        proof {
            lemma_mul_abs_bound(dx as int, dx as int, 2_000_000_000_000, 2_000_000_000_000);
            lemma_mul_abs_bound(dy as int, dy as int, 2_000_000_000_000, 2_000_000_000_000);
            assert(dx as int * dx as int >= 0 && dy as int * dy as int >= 0)
                by (nonlinear_arith);
            crate::math::lemma_sqrt_floor_le((dx as int * dx as int) + (dy as int * dy as int),
                3_000_000_000_000);
            crate::math::lemma_sqrt_floor_bounds((dx as int * dx as int)
                + (dy as int * dy as int));
        }
        let d = crate::math::isqrt_u128((dx * dx + dy * dy) as u128);
        let current_altitude = (d as i64) - p.body.radius;
        if current_altitude < altitude.height {
            altitude.height = current_altitude;
            altitude.closest_planet = i;
        }
        proof {
            assert(planets@.take(i + 1 as int).drop_last() =~= planets@.take(i as int));
            assert(planets@.take(i + 1 as int).last() == planets@[i as int]);
        }
        i = i + 1;
    }
    proof {
        assert(planets@.take(planets@.len() as int) =~= planets@);
    }
}

} // verus!
