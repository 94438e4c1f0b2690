use vstd::prelude::*;

verus! {

use crate::fx::Fx;

/// A 3-component fixed-point vector, used both for directions and points in
/// space and for linear colors.
#[derive(Clone, Copy, PartialEq, Eq, Structural, Debug)]
pub struct Vec3 {
    pub x: Fx,
    pub y: Fx,
    pub z: Fx,
}

/// Every channel of a color vector sits in the unit interval.
pub open spec fn in_unit(v: Vec3) -> bool {
    &&& 0 <= v.x.raw <= crate::fx::SCALE
    &&& 0 <= v.y.raw <= crate::fx::SCALE
    &&& 0 <= v.z.raw <= crate::fx::SCALE
}

/// A 2-component fixed-point vector, used for texture coordinates.
#[derive(Clone, Copy, PartialEq, Eq, Structural, Debug)]
pub struct Vec2 {
    pub x: Fx,
    pub y: Fx,
}

impl Vec2 {
    pub fn new(x: Fx, y: Fx) -> (r: Vec2)
        ensures
            r == (Vec2 { x, y }),
    {
        Vec2 { x, y }
    }
}

impl Vec3 {
    pub fn new(x: Fx, y: Fx, z: Fx) -> (r: Vec3)
        ensures
            r == (Vec3 { x, y, z }),
    {
        Vec3 { x, y, z }
    }

    pub open spec fn zero_spec() -> Vec3 {
        Vec3 { x: Fx::zero_spec(), y: Fx::zero_spec(), z: Fx::zero_spec() }
    }

    pub fn zero() -> (r: Vec3)
        ensures
            r == Vec3::zero_spec(),
    {
        Vec3 { x: Fx::zero(), y: Fx::zero(), z: Fx::zero() }
    }

    pub open spec fn add_spec(self, o: Vec3) -> Vec3 {
        Vec3 { x: self.x.add_spec(o.x), y: self.y.add_spec(o.y), z: self.z.add_spec(o.z) }
    }

    pub fn add(self, o: Vec3) -> (r: Vec3)
        ensures
            r == self.add_spec(o),
    {
        Vec3 { x: self.x.add(o.x), y: self.y.add(o.y), z: self.z.add(o.z) }
    }

    pub open spec fn sub_spec(self, o: Vec3) -> Vec3 {
        Vec3 { x: self.x.sub_spec(o.x), y: self.y.sub_spec(o.y), z: self.z.sub_spec(o.z) }
    }

    pub fn sub(self, o: Vec3) -> (r: Vec3)
        ensures
            r == self.sub_spec(o),
    {
        Vec3 { x: self.x.sub(o.x), y: self.y.sub(o.y), z: self.z.sub(o.z) }
    }

    pub open spec fn neg_spec(self) -> Vec3 {
        Vec3 { x: self.x.neg_spec(), y: self.y.neg_spec(), z: self.z.neg_spec() }
    }

    pub fn neg(self) -> (r: Vec3)
        ensures
            r == self.neg_spec(),
    {
        Vec3 { x: self.x.neg(), y: self.y.neg(), z: self.z.neg() }
    }

    /// Multiply every component by one scalar.
    pub open spec fn scale_spec(self, k: Fx) -> Vec3 {
        Vec3 { x: self.x.mul_spec(k), y: self.y.mul_spec(k), z: self.z.mul_spec(k) }
    }

    pub fn scale(self, k: Fx) -> (r: Vec3)
        ensures
            r == self.scale_spec(k),
    {
        Vec3 { x: self.x.mul(k), y: self.y.mul(k), z: self.z.mul(k) }
    }

    /// Divide every component by one scalar.
    pub open spec fn div_by_spec(self, k: Fx) -> Vec3 {
        Vec3 { x: self.x.div_spec(k), y: self.y.div_spec(k), z: self.z.div_spec(k) }
    }

    pub fn div_by(self, k: Fx) -> (r: Vec3)
        ensures
            r == self.div_by_spec(k),
    {
        Vec3 { x: self.x.div(k), y: self.y.div(k), z: self.z.div(k) }
    }

    /// Component-wise product, as colors are filtered by colors.
    pub open spec fn component_mul_spec(self, o: Vec3) -> Vec3 {
        Vec3 { x: self.x.mul_spec(o.x), y: self.y.mul_spec(o.y), z: self.z.mul_spec(o.z) }
    }

    pub fn component_mul(self, o: Vec3) -> (r: Vec3)
        ensures
            r == self.component_mul_spec(o),
    {
        Vec3 { x: self.x.mul(o.x), y: self.y.mul(o.y), z: self.z.mul(o.z) }
    }

    pub open spec fn dot_spec(self, o: Vec3) -> Fx {
        self.x.mul_spec(o.x).add_spec(self.y.mul_spec(o.y)).add_spec(self.z.mul_spec(o.z))
    }

    pub fn dot(self, o: Vec3) -> (r: Fx)
        ensures
            r == self.dot_spec(o),
    {
        self.x.mul(o.x).add(self.y.mul(o.y)).add(self.z.mul(o.z))
    }

    pub open spec fn cross_spec(self, o: Vec3) -> Vec3 {
        Vec3 {
            x: self.y.mul_spec(o.z).sub_spec(self.z.mul_spec(o.y)),
            y: self.z.mul_spec(o.x).sub_spec(self.x.mul_spec(o.z)),
            z: self.x.mul_spec(o.y).sub_spec(self.y.mul_spec(o.x)),
        }
    }

    pub fn cross(self, o: Vec3) -> (r: Vec3)
        ensures
            r == self.cross_spec(o),
    {
        Vec3 {
            x: self.y.mul(o.z).sub(self.z.mul(o.y)),
            y: self.z.mul(o.x).sub(self.x.mul(o.z)),
            z: self.x.mul(o.y).sub(self.y.mul(o.x)),
        }
    }

    /// Euclidean length.
    pub open spec fn norm_spec(self) -> Fx {
        self.dot_spec(self).sqrt_spec()
    }

    pub fn norm(self) -> (r: Fx)
        ensures
            r == self.norm_spec(),
    {
        self.dot(self).sqrt()
    }

    /// Scale to unit length; the zero vector stays zero, as its length
    /// offers no direction to keep.
    pub open spec fn normalize_spec(self) -> Vec3 {
        let n = self.norm_spec();
        Vec3 { x: self.x.div_spec(n), y: self.y.div_spec(n), z: self.z.div_spec(n) }
    }

    pub fn normalize(self) -> (r: Vec3)
        ensures
            r == self.normalize_spec(),
    {
        let n = self.norm();
        Vec3 { x: self.x.div(n), y: self.y.div(n), z: self.z.div(n) }
    }

    /// Clamp every component into `[0, 1]`.
    pub open spec fn clamp01_spec(self) -> Vec3 {
        Vec3 { x: self.x.clamp01_spec(), y: self.y.clamp01_spec(), z: self.z.clamp01_spec() }
    }

    pub fn clamp01(self) -> (r: Vec3)
        ensures
            r == self.clamp01_spec(),
    {
        Vec3 { x: self.x.clamp01(), y: self.y.clamp01(), z: self.z.clamp01() }
    }
}

} // verus!
