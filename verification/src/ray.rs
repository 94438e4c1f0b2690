use vstd::prelude::*;

verus! {

use crate::fx::Fx;
use crate::fx::isqrt_spec;
use crate::fx::isqrt_u128;
use crate::fx::lemma_isqrt_bounds;
use crate::scene::Scene;
use crate::trig::pi;
use crate::trig::pi_spec;
use crate::trig::tan;
use crate::trig::tan_spec;
use crate::vector::Vec3;

/// An origin and a direction, normalized at construction.
#[derive(Clone, Copy, PartialEq, Eq, Structural, Debug)]
pub struct Ray {
    pub origin: Vec3,
    pub direction: Vec3,
}

pub open spec fn to_radians_spec(a: Fx) -> Fx {
    a.mul_spec(pi_spec()).div_spec(Fx::from_int_spec(180))
}

fn to_radians(a: Fx) -> (r: Fx)
    ensures
        r == to_radians_spec(a),
{
    a.mul(pi()).div(Fx::from_int(180))
}

/// The side of the stratified sample grid: the square root of the sample
/// count.
pub open spec fn sample_grid_spec(samples: u32) -> u32 {
    isqrt_spec(samples as nat) as u32
}

pub fn sample_grid(samples: u32) -> (r: u32)
    ensures
        r == sample_grid_spec(samples),
{
    let root = isqrt_u128(samples as u128);
    proof {
        lemma_isqrt_bounds(samples as nat);
        assert(isqrt_spec(samples as nat) < 0x1_0000) by (nonlinear_arith)
            requires
                isqrt_spec(samples as nat) * isqrt_spec(samples as nat) <= samples as nat,
                samples <= 0xFFFF_FFFFu32,
    ;
    }
    root as u32
}

impl Ray {
    /// The camera ray for sub-sample `s` of pixel `(x, y)`: the pinhole
    /// sits at the origin looking down the negative forward axis, the
    /// pixel is jittered to the center of sample cell `(s mod k, s div k)`
    /// of the `k * k` stratified grid, the sensor is scaled by the aspect
    /// ratio and the tangent of half the field of view, and the direction
    /// is normalized.
    pub open spec fn new_prime_spec(x: u32, y: u32, s: u32, scene: Scene) -> Ray {
        let w = Fx::from_int_spec(scene.width as int);
        let h = Fx::from_int_spec(scene.height as int);
        let two = Fx::from_int_spec(2);
        let aspect = w.div_spec(h);
        let fov_adj = tan_spec(to_radians_spec(scene.fov).div_spec(two));
        let ss = sample_grid_spec(scene.samples);
        let sw = Fx::one_spec().div_spec(Fx::from_int_spec(ss as int));
        let sw_2 = sw.div_spec(two);
        let sx = Fx::from_int_spec((s as int) % (ss as int)).mul_spec(sw).add_spec(sw_2);
        let sy = Fx::from_int_spec((s as int) / (ss as int)).mul_spec(sw).add_spec(sw_2);
        let sensor_x = Fx::from_int_spec(x as int).add_spec(sx).div_spec(w).mul_spec(
            two,
        ).sub_spec(Fx::one_spec()).mul_spec(aspect).mul_spec(fov_adj);
        let sensor_y = Fx::one_spec().sub_spec(
            Fx::from_int_spec(y as int).add_spec(sy).div_spec(h).mul_spec(two),
        );
        Ray {
            origin: Vec3::zero_spec(),
            direction: Vec3 {
                x: sensor_x,
                y: sensor_y,
                z: Fx::one_spec().neg_spec(),
            }.normalize_spec(),
        }
    }

    pub fn new_prime(x: u32, y: u32, s: u32, scene: &Scene) -> (r: Ray)
        requires
            scene.wf(),
        ensures
            r == Ray::new_prime_spec(x, y, s, *scene),
    {
        let w = Fx::from_int(scene.width as i64);
        let h = Fx::from_int(scene.height as i64);
        let two = Fx::from_int(2);
        let aspect = w.div(h);
        let fov_adj = tan(to_radians(scene.fov).div(two));
        let ss = sample_grid(scene.samples);
        proof {
            let g = isqrt_spec(scene.samples as nat);
            assert(g * g == scene.samples as nat);
            if g == 0 {
                assert(scene.samples as nat == 0);
            }
            assert(g >= 1);
            assert(g <= 0x1_0000) by (nonlinear_arith)
                requires
                    g * g <= 0x1_0000nat,
                    g >= 1,
            ;
            assert(ss > 0);
        }
        let sw = Fx::one().div(Fx::from_int(ss as i64));
        let sw_2 = sw.div(two);
        let sx = Fx::from_int((s % ss) as i64).mul(sw).add(sw_2);
        let sy = Fx::from_int((s / ss) as i64).mul(sw).add(sw_2);
        let sensor_x = Fx::from_int(x as i64).add(sx).div(w).mul(two).sub(Fx::one()).mul(
            aspect,
        ).mul(fov_adj);
        let sensor_y = Fx::one().sub(Fx::from_int(y as i64).add(sy).div(h).mul(two));
        Ray {
            origin: Vec3::zero(),
            direction: Vec3::new(sensor_x, sensor_y, Fx::one().neg()).normalize(),
        }
    }

    /// The bounce ray off a mirror: start a bias above the surface and
    /// mirror the incident direction about the normal.
    pub open spec fn create_reflection_spec(
        normal: Vec3,
        incident: Vec3,
        intersection: Vec3,
        bias: Fx,
    ) -> Ray {
        Ray {
            origin: intersection.add_spec(normal.scale_spec(bias)),
            direction: incident.sub_spec(
                normal.scale_spec(Fx::from_int_spec(2).mul_spec(incident.dot_spec(normal))),
            ),
        }
    }

    pub fn create_reflection(normal: Vec3, incident: Vec3, intersection: Vec3, bias: Fx) -> (r:
        Ray)
        ensures
            r == Ray::create_reflection_spec(normal, incident, intersection, bias),
    {
        Ray {
            origin: intersection.add(normal.scale(bias)),
            direction: incident.sub(normal.scale(Fx::from_int(2).mul(incident.dot(normal)))),
        }
    }

    /// The transmitted ray through a dielectric, by Snell's law: entry or
    /// exit is read off the sign of `incident . normal`, exiting swaps the
    /// two indices and flips the working normal, and a negative
    /// discriminant is total internal reflection, which yields no ray.
    /// The origin starts a bias beneath the surface.
    pub open spec fn create_transmission_spec(
        normal: Vec3,
        incident: Vec3,
        intersection: Vec3,
        bias: Fx,
        index: Fx,
    ) -> Option<Ray> {
        let d = incident.dot_spec(normal);
        let entering = d.raw < 0;
        let ref_n = if entering {
            normal
        } else {
            normal.neg_spec()
        };
        let i_dot_n = if entering {
            d.neg_spec()
        } else {
            d
        };
        let eta_i = if entering {
            Fx::one_spec()
        } else {
            index
        };
        let eta_t = if entering {
            index
        } else {
            Fx::one_spec()
        };
        let eta = eta_i.div_spec(eta_t);
        let k = Fx::one_spec().sub_spec(
            eta.mul_spec(eta).mul_spec(Fx::one_spec().sub_spec(i_dot_n.mul_spec(i_dot_n))),
        );
        if k.raw < 0 {
            None
        } else {
            Some(
                Ray {
                    origin: intersection.add_spec(ref_n.scale_spec(bias.neg_spec())),
                    direction: incident.add_spec(ref_n.scale_spec(i_dot_n)).scale_spec(
                        eta,
                    ).sub_spec(ref_n.scale_spec(k.sqrt_spec())),
                },
            )
        }
    }

    pub fn create_transmission(
        normal: Vec3,
        incident: Vec3,
        intersection: Vec3,
        bias: Fx,
        index: Fx,
    ) -> (r: Option<Ray>)
        ensures
            r == Ray::create_transmission_spec(normal, incident, intersection, bias, index),
    {
        let d = incident.dot(normal);
        let entering = d.raw < 0;
        let ref_n = if entering {
            normal
        } else {
            normal.neg()
        };
        let i_dot_n = if entering {
            d.neg()
        } else {
            d
        };
        let eta_i = if entering {
            Fx::one()
        } else {
            index
        };
        let eta_t = if entering {
            index
        } else {
            Fx::one()
        };
        let eta = eta_i.div(eta_t);
        let k = Fx::one().sub(eta.mul(eta).mul(Fx::one().sub(i_dot_n.mul(i_dot_n))));
        if k.raw < 0 {
            None
        } else {
            Some(
                Ray {
                    origin: intersection.add(ref_n.scale(bias.neg())),
                    direction: incident.add(ref_n.scale(i_dot_n)).scale(eta).sub(
                        ref_n.scale(k.sqrt()),
                    ),
                },
            )
        }
    }
}

} // verus!
