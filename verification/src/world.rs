//! Scene aggregation: a linear scan over all spheres that narrows the
//! parameter window to the closest hit found so far and returns the
//! globally closest hit.

use vstd::prelude::*;

use crate::fx::Fx;
use crate::hit::HitRecord;
use crate::ray::Ray;
use crate::sphere::Sphere;
use crate::sphere::lemma_hit_shrink;
use crate::sphere::lemma_hit_widen;
use crate::sphere::spec_sphere_hit;

verus! {

/// An immutable collection of spheres.
pub struct World {
    pub components: Vec<Sphere>,
}

/// Model of the scan from index `i` on: the first sphere's hit, if any,
/// narrows the window for the rest; a strictly closer hit from the rest
/// wins.
pub open spec fn spec_world_hit_from(
    shapes: Seq<Sphere>,
    i: int,
    ray: Ray,
    tmin: Fx,
    tmax: Fx,
) -> Option<HitRecord>
    decreases shapes.len() - i,
{
    if i < 0 || i >= shapes.len() {
        None
    } else {
        match spec_sphere_hit(shapes[i], ray, tmin, tmax) {
            None => spec_world_hit_from(shapes, i + 1, ray, tmin, tmax),
            Some(h) => match spec_world_hit_from(shapes, i + 1, ray, tmin, h.t) {
                Some(h2) => Some(h2),
                None => Some(h),
            },
        }
    }
}

/// Model of the whole scene test.
pub open spec fn spec_world_hit(shapes: Seq<Sphere>, ray: Ray, tmin: Fx, tmax: Fx) -> Option<
    HitRecord,
> {
    spec_world_hit_from(shapes, 0, ray, tmin, tmax)
}

impl World {
    /// Well-formed: every sphere is in range.
    pub open spec fn wf(self) -> bool {
        forall|i: int| 0 <= i < self.components@.len() ==> self.components@[i].wf()
    }

    /// Builds a scene from its spheres.
    pub fn new(components: Vec<Sphere>) -> (r: World)
        ensures
            r.components@ == components@,
    {
        World { components }
    }

    /// Returns the closest hit strictly inside `(tmin, tmax)`, or nothing
    /// when no sphere intersects there.
    pub fn hit(&self, ray: Ray, tmin: Fx, tmax: Fx) -> (r: Option<HitRecord>)
        requires
            self.wf(),
            ray.wf(),
            tmin.wf(),
            tmax.wf(),
        ensures
            r == spec_world_hit(self.components@, ray, tmin, tmax),
            r is Some ==> r->Some_0.wf(),
    {
        let n = self.components.len();
        let mut best: Option<HitRecord> = None;
        let mut closest = tmax;
        let mut i: usize = 0;
        while i < n
            invariant
                0 <= i <= n,
                n == self.components@.len(),
                self.wf(),
                ray.wf(),
                tmin.wf(),
                tmax.wf(),
                closest.wf(),
                match best {
                    None => closest == tmax,
                    Some(h) => closest == h.t && h.wf(),
                },
                spec_world_hit(self.components@, ray, tmin, tmax) == (
                match spec_world_hit_from(self.components@, i as int, ray, tmin, closest) {
                    Some(h2) => Some(h2),
                    None => best,
                }),
            decreases n - i,
        {
            let sphere = self.components[i];
            match sphere.hit(ray, tmin, closest) {
                Some(h) => {
                    best = Some(h);
                    closest = h.t;
                },
                None => {},
            }
            i = i + 1;
        }
        best
    }
}

/// The scan agrees with testing every sphere independently in the full
/// window and keeping a hit of minimal parameter: a reported hit is some
/// sphere's own hit, no sphere's own hit is strictly closer, and nothing
/// is reported only when no sphere hits at all.
pub proof fn lemma_world_hit_minimal_from(
    shapes: Seq<Sphere>,
    i: int,
    ray: Ray,
    tmin: Fx,
    tmax: Fx,
)
    requires
        i >= 0,
    ensures
        match spec_world_hit_from(shapes, i, ray, tmin, tmax) {
            Some(h) => {
                &&& exists|j: int|
                    i <= j < shapes.len() && spec_sphere_hit(shapes[j], ray, tmin, tmax) == Some(h)
                &&& forall|j: int|
                    i <= j < shapes.len() ==> match #[trigger] spec_sphere_hit(shapes[j], ray, tmin, tmax) {
                        Some(h2) => h.t.raw <= h2.t.raw,
                        None => true,
                    }
                &&& tmin.raw < h.t.raw < tmax.raw
            },
            None => forall|j: int|
                i <= j < shapes.len() ==> #[trigger] spec_sphere_hit(shapes[j], ray, tmin, tmax) is None,
        },
    decreases shapes.len() - i,
{
    if i < 0 || i >= shapes.len() {
    } else {
        match spec_sphere_hit(shapes[i], ray, tmin, tmax) {
            None => {
                lemma_world_hit_minimal_from(shapes, i + 1, ray, tmin, tmax);
            },
            Some(h1) => {
                crate::sphere::lemma_hit_in_window(shapes[i], ray, tmin, tmax);
                lemma_world_hit_minimal_from(shapes, i + 1, ray, tmin, h1.t);
                lemma_world_hit_minimal_from(shapes, i + 1, ray, tmin, tmax);
                match spec_world_hit_from(shapes, i + 1, ray, tmin, h1.t) {
                    Some(h2) => {
                        // The rest, searched below `h1.t`, found something
                        // strictly closer; it also stands in the full window.
                        let j2 = choose|j: int|
                            i + 1 <= j < shapes.len() && spec_sphere_hit(shapes[j], ray, tmin, h1.t)
                                == Some(h2);
                        lemma_hit_widen(shapes[j2], ray, tmin, h1.t, tmax);
                        assert(spec_sphere_hit(shapes[j2], ray, tmin, tmax) == Some(h2));
                        // No sphere of the rest is closer in the full window:
                        // a closer full-window hit would show up below `h1.t`.
                        assert forall|j: int| i + 1 <= j < shapes.len() implies match #[trigger] spec_sphere_hit(
                            shapes[j],
                            ray,
                            tmin,
                            tmax,
                        ) {
                            Some(hj) => h2.t.raw <= hj.t.raw,
                            None => true,
                        } by {
                            lemma_hit_shrink(shapes[j], ray, tmin, h1.t, tmax);
                        }
                    },
                    None => {
                        // The rest has nothing below `h1.t`, so the first hit
                        // is the minimum: anything in the full window from the
                        // rest would otherwise appear below `h1.t`.
                        assert forall|j: int| i + 1 <= j < shapes.len() implies match #[trigger] spec_sphere_hit(
                            shapes[j],
                            ray,
                            tmin,
                            tmax,
                        ) {
                            Some(hj) => h1.t.raw <= hj.t.raw,
                            None => true,
                        } by {
                            lemma_hit_shrink(shapes[j], ray, tmin, h1.t, tmax);
                        }
                    },
                }
            },
        }
    }
}

/// Scene aggregation returns the minimum-parameter hit among the spheres'
/// own hits in the full window, and nothing only when every sphere misses.
pub proof fn lemma_world_hit_minimal(shapes: Seq<Sphere>, ray: Ray, tmin: Fx, tmax: Fx)
    ensures
        match spec_world_hit(shapes, ray, tmin, tmax) {
            Some(h) => {
                &&& exists|j: int|
                    0 <= j < shapes.len() && spec_sphere_hit(shapes[j], ray, tmin, tmax) == Some(h)
                &&& forall|j: int|
                    0 <= j < shapes.len() ==> match #[trigger] spec_sphere_hit(shapes[j], ray, tmin, tmax) {
                        Some(h2) => h.t.raw <= h2.t.raw,
                        None => true,
                    }
            },
            None => forall|j: int|
                0 <= j < shapes.len() ==> #[trigger] spec_sphere_hit(shapes[j], ray, tmin, tmax) is None,
        },
{
    lemma_world_hit_minimal_from(shapes, 0, ray, tmin, tmax);
}

} // verus!
