//! Celestial bodies: immutable parameters plus a kinematic state.

use vstd::prelude::*;

use crate::physics::{kin_wf, Kinematics, Vec2};
use crate::{MASS_LIMIT, POS_LIMIT};

verus! {

/// Parameters of one gravity source.  Lengths are milli-units, the mass is
/// milli-mass-units.  Immutable after creation.
#[derive(Clone, Copy, PartialEq, Eq, Structural, Debug)]
pub struct CelestialBody {
    pub radius: i64,
    pub mass: i64,
    pub atmosphere_radius: i64,
}

/// One gravity source together with its kinematic state.
#[derive(Clone, Copy, PartialEq, Eq, Structural, Debug)]
pub struct Planet {
    pub body: CelestialBody,
    pub kin: Kinematics,
}

pub open spec fn body_wf(b: CelestialBody) -> bool {
    &&& 1 <= b.radius <= POS_LIMIT
    &&& b.radius < b.atmosphere_radius <= POS_LIMIT
    &&& 0 <= b.mass <= MASS_LIMIT
}

pub open spec fn planet_wf(p: Planet) -> bool {
    &&& body_wf(p.body)
    &&& kin_wf(p.kin)
}

/// At most this many gravity sources may be registered; the bound keeps the
/// accumulated force sums within the intermediate integer range.
pub const MAX_PLANETS: usize = 1000;

pub open spec fn planets_wf(ps: Seq<Planet>) -> bool {
    &&& ps.len() <= MAX_PLANETS
    &&& forall|i: int| 0 <= i < ps.len() ==> planet_wf(#[trigger] ps[i])
}

/// Populate the world with its gravity sources: one earth-like planet of
/// radius 6000 units and atmosphere radius 6700 units at the origin.
pub fn add_planets(planets: &mut Vec<Planet>)
    requires
        old(planets)@.len() == 0,
    ensures
        final(planets)@.len() == 1,
        final(planets)@[0] == (Planet {
            body: CelestialBody {
                radius: 6_000_000,
                mass: 600_000_000,
                atmosphere_radius: 6_700_000,
            },
            kin: Kinematics {
                pos: Vec2 { x: 0, y: 0 },
                vel: Vec2 { x: 0, y: 0 },
                acc: Vec2 { x: 0, y: 0 },
            },
        }),
        planets_wf(final(planets)@),
{
    planets.push(Planet {
        body: CelestialBody {
            radius: 6_000_000,
            mass: 600_000_000,
            atmosphere_radius: 6_700_000,
        },
        kin: Kinematics {
            pos: Vec2 { x: 0, y: 0 },
            vel: Vec2 { x: 0, y: 0 },
            acc: Vec2 { x: 0, y: 0 },
        },
    });
}

} // verus!
