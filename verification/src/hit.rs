//! The transient result of a successful ray/shape intersection.

use vstd::prelude::*;

use crate::fx::Fx;
use crate::material::Material;
use crate::vector::Vector;

verus! {

/// A hit: the ray parameter, the point reached, the surface normal there
/// and a copy of the surface's material.
#[derive(Clone, Copy, PartialEq, Eq, Structural, Debug)]
pub struct HitRecord {
    pub t: Fx,
    pub p: Vector,
    pub normal: Vector,
    pub material: Material,
}

impl HitRecord {
    /// Well-formed: every field is in range.
    pub open spec fn wf(self) -> bool {
        self.t.wf() && self.p.wf() && self.normal.wf() && self.material.wf()
    }
}

} // verus!
