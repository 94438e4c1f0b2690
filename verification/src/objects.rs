use vstd::prelude::*;

verus! {

use crate::fx::Fx;
use crate::material::Material;
use crate::ray::Ray;
use crate::trig::acos;
use crate::trig::acos_spec;
use crate::trig::atan2;
use crate::trig::atan2_spec;
use crate::trig::pi;
use crate::trig::pi_spec;
use crate::vector::Vec2;
use crate::vector::Vec3;

/// A sphere, a center and a radius, owning its material.
#[derive(Clone, Debug)]
pub struct Sphere {
    pub center: Vec3,
    pub radius: Fx,
    pub material: Material,
}

/// An infinite plane through an origin with a unit normal, owning its
/// material.
#[derive(Clone, Debug)]
pub struct Plane {
    pub origin: Vec3,
    pub normal: Vec3,
    pub material: Material,
}

/// The closed set of geometry the scene can hold.
#[derive(Clone, Debug)]
pub enum Object {
    Sphere(Sphere),
    Plane(Plane),
}

impl Sphere {
    pub open spec fn wf(self) -> bool {
        self.radius.raw > 0 && self.material.wf()
    }

    /// The analytic quadratic solve: project the center onto the ray,
    /// reject when the perpendicular distance squared exceeds the radius
    /// squared, and pick the nearer root that lies in front of the origin.
    pub open spec fn intersect_spec(self, ray: Ray) -> Option<Fx> {
        let l = self.center.sub_spec(ray.origin);
        let adj = l.dot_spec(ray.direction);
        let d2 = l.dot_spec(l).sub_spec(adj.mul_spec(adj));
        let r2 = self.radius.mul_spec(self.radius);
        if d2.raw > r2.raw {
            None
        } else {
            let thc = r2.sub_spec(d2).sqrt_spec();
            let t0 = adj.sub_spec(thc);
            let t1 = adj.add_spec(thc);
            if t0.raw < 0 && t1.raw < 0 {
                None
            } else if t0.raw < 0 {
                Some(t1)
            } else if t1.raw < 0 {
                Some(t0)
            } else {
                Some(t0.min_spec(t1))
            }
        }
    }

    /// The two roots of the quadratic the intersection solves, nearer
    /// first.
    pub open spec fn roots_spec(self, ray: Ray) -> (Fx, Fx) {
        let l = self.center.sub_spec(ray.origin);
        let adj = l.dot_spec(ray.direction);
        let d2 = l.dot_spec(l).sub_spec(adj.mul_spec(adj));
        let r2 = self.radius.mul_spec(self.radius);
        let thc = r2.sub_spec(d2).sqrt_spec();
        (adj.sub_spec(thc), adj.add_spec(thc))
    }

    pub fn intersect(&self, ray: &Ray) -> (r: Option<Fx>)
        ensures
            r == self.intersect_spec(*ray),
    {
        let l = self.center.sub(ray.origin);
        let adj = l.dot(ray.direction);
        let d2 = l.dot(l).sub(adj.mul(adj));
        let r2 = self.radius.mul(self.radius);
        if d2.raw > r2.raw {
            return None;
        }
        let thc = r2.sub(d2).sqrt();
        let t0 = adj.sub(thc);
        let t1 = adj.add(thc);
        if t0.raw < 0 && t1.raw < 0 {
            None
        } else if t0.raw < 0 {
            Some(t1)
        } else if t1.raw < 0 {
            Some(t0)
        } else {
            Some(t0.min(t1))
        }
    }

    pub open spec fn surface_normal_spec(self, hit_point: Vec3) -> Vec3 {
        hit_point.sub_spec(self.center).normalize_spec()
    }

    pub fn surface_normal(&self, hit_point: &Vec3) -> (r: Vec3)
        ensures
            r == self.surface_normal_spec(*hit_point),
    {
        hit_point.sub(self.center).normalize()
    }

    /// Spherical mapping: the azimuth spread over `[0, 1]` and the polar
    /// angle over `[0, 1]`.
    pub open spec fn texture_coords_spec(self, hit_point: Vec3) -> Vec2 {
        let hit_vec = hit_point.sub_spec(self.center);
        let u = Fx::one_spec().add_spec(
            atan2_spec(hit_vec.z, hit_vec.x).div_spec(pi_spec()),
        ).mul_spec(Fx { raw: 32768 });
        let v = acos_spec(hit_vec.y.div_spec(self.radius)).div_spec(pi_spec());
        Vec2 { x: u, y: v }
    }

    pub fn texture_coords(&self, hit_point: &Vec3) -> (r: Vec2)
        ensures
            r == self.texture_coords_spec(*hit_point),
    {
        let hit_vec = hit_point.sub(self.center);
        let u = Fx::one().add(atan2(hit_vec.z, hit_vec.x).div(pi())).mul(Fx { raw: 32768 });
        let v = acos(hit_vec.y.div(self.radius)).div(pi());
        Vec2 { x: u, y: v }
    }

    /// The spherical mapping lands in the unit square: the azimuth angle
    /// stays within half a turn of zero and the polar angle within the
    /// upper half turn, so the normalized coordinates need no wrapping.
    pub proof fn lemma_texture_coords_unit(self, hit_point: Vec3)
        ensures
            0 <= self.texture_coords_spec(hit_point).x.raw <= crate::fx::SCALE,
            0 <= self.texture_coords_spec(hit_point).y.raw <= crate::fx::SCALE,
    {
        let hit_vec = hit_point.sub_spec(self.center);
        let d = atan2_spec(hit_vec.z, hit_vec.x);
        crate::trig::lemma_atan2_range(hit_vec.z, hit_vec.x);
        let q = d.div_spec(pi_spec());
        crate::fx::lemma_ratio_unit(d, pi_spec());
        let w = Fx::one_spec().add_spec(q);
        assert(0 <= w.raw <= 2 * crate::fx::SCALE);
        let p = w.raw * 32768;
        assert(0 <= p <= (2 * crate::fx::SCALE) * 32768) by (nonlinear_arith)
            requires
                p == w.raw * 32768,
                0 <= w.raw <= 2 * crate::fx::SCALE,
        ;
        assert(crate::fx::sdiv(p, crate::fx::SCALE as int) == p / (crate::fx::SCALE as int));
        vstd::arithmetic::div_mod::lemma_div_is_ordered(0, p, crate::fx::SCALE as int);
        vstd::arithmetic::div_mod::lemma_div_is_ordered(
            p,
            (2 * crate::fx::SCALE) * 32768,
            crate::fx::SCALE as int,
        );
        assert(((2 * crate::fx::SCALE) * 32768) / (crate::fx::SCALE as int)
            == crate::fx::SCALE) by (nonlinear_arith);
        let ac = acos_spec(hit_vec.y.div_spec(self.radius));
        crate::trig::lemma_acos_range(hit_vec.y.div_spec(self.radius));
        crate::fx::lemma_ratio_unit(ac, pi_spec());
        assert(self.texture_coords_spec(hit_point).y.raw >= 0) by {
            vstd::arithmetic::div_mod::lemma_div_is_ordered(
                0,
                ac.raw * crate::fx::SCALE,
                crate::trig::PI_RAW as int,
            );
            assert(ac.raw * crate::fx::SCALE >= 0) by (nonlinear_arith)
                requires
                    ac.raw >= 0,
            ;
        }
    }

    pub fn material(&self) -> (r: &Material)
        ensures
            r == self.material,
    {
        &self.material
    }
}

impl Plane {
    pub open spec fn wf(self) -> bool {
        self.material.wf()
    }

    /// A hit needs the ray to run toward the plane with a clearly nonzero
    /// slope, and the crossing to lie in front of the origin.
    pub open spec fn intersect_spec(self, ray: Ray) -> Option<Fx> {
        let denom = self.normal.dot_spec(ray.direction);
        if denom.raw > 0 {
            let v = self.origin.sub_spec(ray.origin);
            let distance = v.dot_spec(self.normal).div_spec(denom);
            if distance.raw >= 0 {
                Some(distance)
            } else {
                None
            }
        } else {
            None
        }
    }

    pub fn intersect(&self, ray: &Ray) -> (r: Option<Fx>)
        ensures
            r == self.intersect_spec(*ray),
    {
        let denom = self.normal.dot(ray.direction);
        if denom.raw > 0 {
            let v = self.origin.sub(ray.origin);
            let distance = v.dot(self.normal).div(denom);
            if distance.raw >= 0 {
                return Some(distance);
            }
        }
        None
    }

    /// The stored normal negated, so it faces the ray.
    pub open spec fn surface_normal_spec(self, hit_point: Vec3) -> Vec3 {
        self.normal.neg_spec()
    }

    pub fn surface_normal(&self, hit_point: &Vec3) -> (r: Vec3)
        ensures
            r == self.surface_normal_spec(*hit_point),
    {
        self.normal.neg()
    }

    /// Project the hit offset onto two axes orthogonal to the normal; if
    /// the first default axis is parallel to the normal, fall back to the
    /// second.
    pub open spec fn texture_coords_spec(self, hit_point: Vec3) -> Vec2 {
        let first = self.normal.cross_spec(
            Vec3 { x: Fx::zero_spec(), y: Fx::zero_spec(), z: Fx::one_spec() },
        );
        let x_axis = if first.norm_spec().raw == 0 {
            self.normal.cross_spec(
                Vec3 { x: Fx::zero_spec(), y: Fx::one_spec(), z: Fx::zero_spec() },
            )
        } else {
            first
        };
        let y_axis = self.normal.cross_spec(x_axis);
        let hit_vec = hit_point.sub_spec(self.origin);
        Vec2 { x: hit_vec.dot_spec(x_axis), y: hit_vec.dot_spec(y_axis) }
    }

    pub fn texture_coords(&self, hit_point: &Vec3) -> (r: Vec2)
        ensures
            r == self.texture_coords_spec(*hit_point),
    {
        let mut x_axis = self.normal.cross(Vec3::new(Fx::zero(), Fx::zero(), Fx::one()));
        if x_axis.norm().raw == 0 {
            x_axis = self.normal.cross(Vec3::new(Fx::zero(), Fx::one(), Fx::zero()));
        }
        let y_axis = self.normal.cross(x_axis);
        let hit_vec = hit_point.sub(self.origin);
        Vec2 { x: hit_vec.dot(x_axis), y: hit_vec.dot(y_axis) }
    }

    pub fn material(&self) -> (r: &Material)
        ensures
            r == self.material,
    {
        &self.material
    }
}

impl Object {
    pub open spec fn wf(self) -> bool {
        match self {
            Object::Sphere(s) => s.wf(),
            Object::Plane(p) => p.wf(),
        }
    }

    /// Every reported intersection distance lies in front of the ray
    /// origin, so distances are always comparable and never negative.
    pub proof fn lemma_intersect_nonneg(self, ray: Ray)
        ensures
            self.intersect_spec(ray) is Some ==> self.intersect_spec(ray).unwrap().raw >= 0,
    {
        match self {
            Object::Sphere(s) => {
                let l = s.center.sub_spec(ray.origin);
                let adj = l.dot_spec(ray.direction);
                let d2 = l.dot_spec(l).sub_spec(adj.mul_spec(adj));
                let r2 = s.radius.mul_spec(s.radius);
                crate::fx::lemma_sqrt_nonneg(r2.sub_spec(d2));
            },
            Object::Plane(_) => {},
        }
    }

    /// Decide well-formedness at run time.
    pub fn check(&self) -> (r: bool)
        ensures
            r == self.wf(),
    {
        match self {
            Object::Sphere(s) => s.radius.raw > 0 && s.material.check(),
            Object::Plane(p) => p.material.check(),
        }
    }

    pub open spec fn intersect_spec(self, ray: Ray) -> Option<Fx> {
        match self {
            Object::Sphere(s) => s.intersect_spec(ray),
            Object::Plane(p) => p.intersect_spec(ray),
        }
    }

    pub fn intersect(&self, ray: &Ray) -> (r: Option<Fx>)
        ensures
            r == self.intersect_spec(*ray),
    {
        match self {
            Object::Sphere(s) => s.intersect(ray),
            Object::Plane(p) => p.intersect(ray),
        }
    }

    pub open spec fn surface_normal_spec(self, hit_point: Vec3) -> Vec3 {
        match self {
            Object::Sphere(s) => s.surface_normal_spec(hit_point),
            Object::Plane(p) => p.surface_normal_spec(hit_point),
        }
    }

    pub fn surface_normal(&self, hit_point: &Vec3) -> (r: Vec3)
        ensures
            r == self.surface_normal_spec(*hit_point),
    {
        match self {
            Object::Sphere(s) => s.surface_normal(hit_point),
            Object::Plane(p) => p.surface_normal(hit_point),
        }
    }

    pub open spec fn texture_coords_spec(self, hit_point: Vec3) -> Vec2 {
        match self {
            Object::Sphere(s) => s.texture_coords_spec(hit_point),
            Object::Plane(p) => p.texture_coords_spec(hit_point),
        }
    }

    pub fn texture_coords(&self, hit_point: &Vec3) -> (r: Vec2)
        ensures
            r == self.texture_coords_spec(*hit_point),
    {
        match self {
            Object::Sphere(s) => s.texture_coords(hit_point),
            Object::Plane(p) => p.texture_coords(hit_point),
        }
    }

    pub open spec fn material_spec(self) -> Material {
        match self {
            Object::Sphere(s) => s.material,
            Object::Plane(p) => p.material,
        }
    }

    pub fn material(&self) -> (r: &Material)
        ensures
            r == self.material_spec(),
    {
        match self {
            Object::Sphere(s) => s.material(),
            Object::Plane(p) => p.material(),
        }
    }
}

} // verus!
