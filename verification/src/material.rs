use vstd::prelude::*;

verus! {

use crate::fx::Fx;
use crate::fx::SCALE;
use crate::coloration::Coloration;

/// How a surface answers incoming light: plain diffuse scattering, a
/// mirror blend, or a dielectric that both reflects and transmits.
#[derive(Clone, Copy, Debug)]
pub enum SurfaceType {
    Diffuse,
    Reflective { reflectivity: Fx },
    Refractive { index: Fx, transparency: Fx },
}

/// A coloration, an albedo, and the surface behavior.
#[derive(Clone, Debug)]
pub struct Material {
    pub color: Coloration,
    pub surface: SurfaceType,
    pub albedo: Fx,
}

impl SurfaceType {
    pub open spec fn wf(self) -> bool {
        match self {
            SurfaceType::Diffuse => true,
            SurfaceType::Reflective { reflectivity } => 0 <= reflectivity.raw <= SCALE,
            SurfaceType::Refractive { index, transparency } => index.raw > 0 && 0
                <= transparency.raw <= SCALE,
        }
    }
}

impl Material {
    pub open spec fn wf(self) -> bool {
        &&& self.color.wf()
        &&& self.surface.wf()
        &&& 0 <= self.albedo.raw <= SCALE
    }

    /// Decide well-formedness at run time.
    pub fn check(&self) -> (r: bool)
        ensures
            r == self.wf(),
    {
        let surface_ok = match self.surface {
            SurfaceType::Diffuse => true,
            SurfaceType::Reflective { reflectivity } => 0 <= reflectivity.raw
                && reflectivity.raw <= SCALE,
            SurfaceType::Refractive { index, transparency } => index.raw > 0 && 0
                <= transparency.raw && transparency.raw <= SCALE,
        };
        surface_ok && self.color.check() && 0 <= self.albedo.raw && self.albedo.raw <= SCALE
    }
}

} // verus!
