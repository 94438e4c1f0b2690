use vstd::prelude::*;

verus! {

use crate::fx::Fx;

/// One hit found by the scene query: the distance along the ray and the
/// index of the hit object in the scene's list. The value lives only for
/// the shading step that consumes it.
#[derive(Clone, Copy, PartialEq, Eq, Structural, Debug)]
pub struct Intersection {
    pub distance: Fx,
    pub object_index: usize,
}

impl Intersection {
    pub fn new(distance: Fx, object_index: usize) -> (r: Intersection)
        ensures
            r == (Intersection { distance, object_index }),
    {
        Intersection { distance, object_index }
    }
}

} // verus!
