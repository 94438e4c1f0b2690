use vstd::prelude::*;

verus! {

use crate::fx::isqrt_spec;
use crate::fx::Fx;
use crate::intersection::Intersection;
use crate::lights::Light;
use crate::objects::Object;
use crate::ray::Ray;

/// The whole immutable world: raster dimensions, camera field of view,
/// sample count, shadow bias, recursion cap, and the object and light
/// lists. It is built once and only read while rendering.
pub struct Scene {
    pub width: u32,
    pub height: u32,
    pub fov: Fx,
    pub samples: u32,
    pub shadow_bias: Fx,
    pub max_recursion_depth: u32,
    pub objects: Vec<Object>,
    pub lights: Vec<Light>,
}

impl Scene {
    /// What a renderable scene satisfies: a landscape raster of bounded
    /// size, a perfect-square sample count for the stratified grid, a
    /// nonnegative shadow bias, and well-formed objects and lights.
    pub open spec fn wf(self) -> bool {
        &&& 0 < self.height < self.width <= 16384
        &&& 1 <= self.samples <= 0x1_0000
        &&& isqrt_spec(self.samples as nat) * isqrt_spec(self.samples as nat)
            == self.samples as nat
        &&& self.shadow_bias.raw >= 0
        &&& forall|i: int|
            0 <= i < self.objects.len() ==> (#[trigger] self.objects[i]).wf()
        &&& forall|i: int| 0 <= i < self.lights.len() ==> (#[trigger] self.lights[i]).wf()
    }

    /// Decide well-formedness at run time, so an unverified caller can
    /// reject a bad scene before any pixel work begins.
    pub fn check(&self) -> (r: bool)
        ensures
            r == self.wf(),
    {
        if !(0 < self.height && self.height < self.width && self.width <= 16384) {
            return false;
        }
        if !(1 <= self.samples && self.samples <= 0x1_0000) {
            return false;
        }
        let g = crate::ray::sample_grid(self.samples);
        proof {
            crate::fx::lemma_isqrt_bounds(self.samples as nat);
            assert(isqrt_spec(self.samples as nat) <= 0x1_0000) by (nonlinear_arith)
                requires
                    isqrt_spec(self.samples as nat) * isqrt_spec(self.samples as nat)
                        <= self.samples as nat,
                    self.samples <= 0x1_0000u32,
            ;
        }
        if !((g as u64) * (g as u64) == self.samples as u64) {
            proof {
                assert(g * g != self.samples as nat);
            }
            return false;
        }
        if self.shadow_bias.raw < 0 {
            return false;
        }
        let mut i: usize = 0;
        while i < self.objects.len()
            invariant
                i <= self.objects.len(),
                forall|j: int| 0 <= j < i ==> (#[trigger] self.objects[j]).wf(),
            decreases self.objects.len() - i,
        {
            if !self.objects[i].check() {
                return false;
            }
            i = i + 1;
        }
        let mut i: usize = 0;
        while i < self.lights.len()
            invariant
                i <= self.lights.len(),
                forall|j: int| 0 <= j < i ==> (#[trigger] self.lights[j]).wf(),
            decreases self.lights.len() - i,
        {
            let ok = match &self.lights[i] {
                Light::Spherical(l) => l.intensity.raw >= 0,
                Light::Directional(l) => l.intensity.raw >= 0,
            };
            if !ok {
                return false;
            }
            i = i + 1;
        }
        true
    }

    /// The closest intersection among the first `n` objects; on equal
    /// distances the earlier object wins.
    pub open spec fn trace_upto_spec(self, ray: Ray, n: int) -> Option<Intersection>
        decreases n,
    {
        if n <= 0 {
            None
        } else {
            let prev = self.trace_upto_spec(ray, n - 1);
            match self.objects[n - 1].intersect_spec(ray) {
                None => prev,
                Some(d) => match prev {
                    None => Some(
                        Intersection { distance: d, object_index: (n - 1) as usize },
                    ),
                    Some(p) => if d.raw < p.distance.raw {
                        Some(Intersection { distance: d, object_index: (n - 1) as usize })
                    } else {
                        prev
                    },
                },
            }
        }
    }

    pub open spec fn trace_spec(self, ray: Ray) -> Option<Intersection> {
        self.trace_upto_spec(ray, self.objects.len() as int)
    }

    /// Whatever the query returns points into the object list, reports the
    /// hit object's own nonnegative distance, no object closes the
    /// distance further, and any earlier object stays strictly farther:
    /// on equal distances the first-encountered object wins. On a miss,
    /// no object intersects the ray at all.
    pub proof fn lemma_trace_upto_props(self, ray: Ray, n: int)
        requires
            0 <= n <= self.objects.len(),
        ensures
            match self.trace_upto_spec(ray, n) {
                Some(p) => {
                    &&& p.object_index < n
                    &&& p.distance.raw >= 0
                    &&& self.objects[p.object_index as int].intersect_spec(ray) == Some(
                        p.distance,
                    )
                    &&& forall|j: int|
                        0 <= j < n && (#[trigger] self.objects[j].intersect_spec(ray))
                            is Some ==> self.objects[j].intersect_spec(
                            ray,
                        ).unwrap().raw >= p.distance.raw
                    &&& forall|j: int|
                        0 <= j < p.object_index && (#[trigger] self.objects[j].intersect_spec(
                            ray,
                        )) is Some ==> self.objects[j].intersect_spec(ray).unwrap().raw
                            > p.distance.raw
                },
                None => forall|j: int|
                    0 <= j < n ==> (#[trigger] self.objects[j].intersect_spec(ray)) is None,
            },
        decreases n,
    {
        if n > 0 {
            self.lemma_trace_upto_props(ray, n - 1);
            self.objects[n - 1].lemma_intersect_nonneg(ray);
        }
    }

    /// Scan every object and keep the closest hit: the result points into
    /// the object list, carries that object's own distance, no object
    /// intersects the ray any closer, and a miss means no object
    /// intersects the ray at all.
    pub fn trace(&self, ray: &Ray) -> (r: Option<Intersection>)
        ensures
            r == self.trace_spec(*ray),
            r is Some ==> {
                let p = r.unwrap();
                &&& p.object_index < self.objects.len()
                &&& p.distance.raw >= 0
                &&& self.objects[p.object_index as int].intersect_spec(*ray) == Some(
                    p.distance,
                )
                &&& forall|j: int|
                    0 <= j < self.objects.len() && (#[trigger] self.objects[
                        j
                    ].intersect_spec(*ray)) is Some ==> self.objects[j].intersect_spec(
                        *ray,
                    ).unwrap().raw >= p.distance.raw
            },
            r is None ==> forall|j: int|
                0 <= j < self.objects.len() ==> (#[trigger] self.objects[j].intersect_spec(
                    *ray,
                )) is None,
    {
        proof {
            self.lemma_trace_upto_props(*ray, self.objects.len() as int);
        }
        let mut best: Option<Intersection> = None;
        let mut i: usize = 0;
        while i < self.objects.len()
            invariant
                i <= self.objects.len(),
                best == self.trace_upto_spec(*ray, i as int),
                best is Some ==> best.unwrap().object_index < i,
            decreases self.objects.len() - i,
        {
            match self.objects[i].intersect(ray) {
                None => {},
                Some(d) => {
                    let replace = match &best {
                        None => true,
                        Some(p) => d.raw < p.distance.raw,
                    };
                    if replace {
                        best = Some(Intersection { distance: d, object_index: i });
                    }
                },
            }
            i = i + 1;
        }
        best
    }
}

} // verus!
