use vstd::prelude::*;

verus! {

use crate::fx::Fx;
use crate::trig::pi;
use crate::trig::pi_spec;
use crate::vector::Vec3;

/// A light with a position, falling off with the square of the distance.
#[derive(Clone, Debug)]
pub struct SphericalLight {
    pub position: Vec3,
    pub color: Vec3,
    pub intensity: Fx,
}

/// A light at infinity: one direction, no falloff.
#[derive(Clone, Debug)]
pub struct DirectionalLight {
    pub direction: Vec3,
    pub color: Vec3,
    pub intensity: Fx,
}

#[derive(Clone, Debug)]
pub enum Light {
    Spherical(SphericalLight),
    Directional(DirectionalLight),
}

/// How far a light is from a point: a directional light reports an
/// unbounded distance, which nothing can be farther than.
#[derive(Clone, Copy, PartialEq, Eq, Structural, Debug)]
pub enum LightDistance {
    Finite(Fx),
    Unbounded,
}

/// Whether a blocker at distance `d` sits beyond the light itself; if so
/// it casts no shadow on the point.
pub open spec fn beyond_light(d: Fx, ld: LightDistance) -> bool {
    match ld {
        LightDistance::Finite(f) => d.raw > f.raw,
        LightDistance::Unbounded => false,
    }
}

impl Light {
    pub open spec fn wf(self) -> bool {
        match self {
            Light::Spherical(l) => l.intensity.raw >= 0,
            Light::Directional(l) => l.intensity.raw >= 0,
        }
    }

    pub open spec fn color_spec(self) -> Vec3 {
        match self {
            Light::Spherical(l) => l.color,
            Light::Directional(l) => l.color,
        }
    }

    pub fn color(&self) -> (r: Vec3)
        ensures
            r == self.color_spec(),
    {
        match self {
            Light::Spherical(l) => l.color,
            Light::Directional(l) => l.color,
        }
    }

    /// The unit direction from a point toward the light.
    pub open spec fn direction_from_spec(self, hit_point: Vec3) -> Vec3 {
        match self {
            Light::Spherical(l) => l.position.sub_spec(hit_point).normalize_spec(),
            Light::Directional(l) => l.direction.normalize_spec().neg_spec(),
        }
    }

    pub fn direction_from(&self, hit_point: &Vec3) -> (r: Vec3)
        ensures
            r == self.direction_from_spec(*hit_point),
    {
        match self {
            Light::Spherical(l) => l.position.sub(*hit_point).normalize(),
            Light::Directional(l) => l.direction.normalize().neg(),
        }
    }

    /// The light power arriving at a point: a spherical light spreads its
    /// intensity over the sphere through the point, so it divides by
    /// `4 * pi * r^2`; a directional light arrives undiminished.
    pub open spec fn intensity_spec(self, hit_point: Vec3) -> Fx {
        match self {
            Light::Spherical(l) => {
                let v = l.position.sub_spec(hit_point);
                let r2 = v.dot_spec(v);
                l.intensity.div_spec(Fx::from_int_spec(4).mul_spec(pi_spec()).mul_spec(r2))
            },
            Light::Directional(l) => l.intensity,
        }
    }

    pub fn intensity(&self, hit_point: &Vec3) -> (r: Fx)
        ensures
            r == self.intensity_spec(*hit_point),
    {
        match self {
            Light::Spherical(l) => {
                let v = l.position.sub(*hit_point);
                let r2 = v.dot(v);
                l.intensity.div(Fx::from_int(4).mul(pi()).mul(r2))
            },
            Light::Directional(l) => l.intensity,
        }
    }

    /// The distance from a point to the light.
    pub open spec fn distance_spec(self, hit_point: Vec3) -> LightDistance {
        match self {
            Light::Spherical(l) => LightDistance::Finite(
                l.position.sub_spec(hit_point).norm_spec(),
            ),
            Light::Directional(_) => LightDistance::Unbounded,
        }
    }

    pub fn distance(&self, hit_point: &Vec3) -> (r: LightDistance)
        ensures
            r == self.distance_spec(*hit_point),
    {
        match self {
            Light::Spherical(l) => LightDistance::Finite(l.position.sub(*hit_point).norm()),
            Light::Directional(_) => LightDistance::Unbounded,
        }
    }
}

} // verus!
