//! Rays: an origin and a direction, with the point-at-parameter evaluator.

use vstd::prelude::*;

use crate::fx::Fx;
use crate::vector::Vector;
use crate::vector::spec_add;
use crate::vector::spec_scale;

verus! {

/// A ray `origin + t * direction`; the direction need not be unit length.
#[derive(Clone, Copy, PartialEq, Eq, Structural, Debug)]
pub struct Ray {
    pub origin: Vector,
    pub direction: Vector,
}

/// Model of the point a ray reaches at parameter `t`.
pub open spec fn spec_travel(ray: Ray, t: Fx) -> Vector {
    spec_add(ray.origin, spec_scale(ray.direction, t))
}

impl Ray {
    /// Well-formed: both vectors are in range.
    pub open spec fn wf(self) -> bool {
        self.origin.wf() && self.direction.wf()
    }

    /// Builds a ray from an origin and a direction.
    pub fn new(origin: Vector, direction: Vector) -> (r: Ray)
        ensures
            r == (Ray { origin, direction }),
    {
        Ray { origin, direction }
    }

    /// The point reached at parameter `t`.
    pub fn travel(self, t: Fx) -> (r: Vector)
        requires
            self.wf(),
            t.wf(),
        ensures
            r == spec_travel(self, t),
            r.wf(),
    {
        self.origin.add(self.direction.scale(t))
    }
}

} // verus!
