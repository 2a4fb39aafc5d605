//! Closed-form ray/sphere intersection.

use vstd::prelude::*;

use crate::fx::Fx;
use crate::fx::div_raw;
use crate::fx::mul_raw;
use crate::fx::sqrt_raw;
use crate::fx::sub_raw;
use crate::hit::HitRecord;
use crate::material::Material;
use crate::ray::Ray;
use crate::ray::spec_travel;
use crate::vector::Vector;
use crate::vector::spec_div_s;
use crate::vector::spec_dot;
use crate::vector::spec_sub;

verus! {

/// A sphere with a material. A negative radius flips the normal inward,
/// which models the inner surface of a hollow shell; that sign is part of
/// the design and is preserved exactly.
#[derive(Clone, Copy, PartialEq, Eq, Structural, Debug)]
pub struct Sphere {
    pub center: Vector,
    pub radius: Fx,
    pub material: Material,
}

/// The record a sphere reports for a qualifying root.
pub open spec fn spec_hit_record(s: Sphere, ray: Ray, t: Fx) -> HitRecord {
    HitRecord {
        t,
        p: spec_travel(ray, t),
        normal: spec_div_s(spec_sub(spec_travel(ray, t), s.center), s.radius),
        material: s.material,
    }
}

/// Model of the intersection test: solve `a t^2 + 2 b t + c = 0` and
/// report the smallest root strictly inside `(tmin, tmax)`, trying the
/// near root first. A sphere of zero radius, a degenerate direction whose
/// self-dot rounds to zero, or a nonpositive discriminant report nothing.
#[verifier::opaque]
pub open spec fn spec_sphere_hit(s: Sphere, ray: Ray, tmin: Fx, tmax: Fx) -> Option<HitRecord> {
    if s.radius.raw == 0 {
        None
    } else {
        let oc = spec_sub(ray.origin, s.center);
        let a = spec_dot(ray.direction, ray.direction);
        let b = spec_dot(oc, ray.direction);
        let c = Fx {
            raw: sub_raw(
                spec_dot(oc, oc).raw as int,
                mul_raw(s.radius.raw as int, s.radius.raw as int),
            ) as i64,
        };
        let disc = Fx {
            raw: sub_raw(
                mul_raw(b.raw as int, b.raw as int),
                mul_raw(a.raw as int, c.raw as int),
            ) as i64,
        };
        if a.raw != 0 && disc.raw > 0 {
            let root = Fx { raw: sqrt_raw(disc.raw as int) as i64 };
            let t1 = Fx {
                raw: div_raw(sub_raw(-(b.raw as int), root.raw as int), a.raw as int) as i64,
            };
            let t2 = Fx {
                raw: div_raw(
                    crate::fx::add_raw(-(b.raw as int), root.raw as int),
                    a.raw as int,
                ) as i64,
            };
            if tmin.raw < t1.raw && t1.raw < tmax.raw {
                Some(spec_hit_record(s, ray, t1))
            } else if tmin.raw < t2.raw && t2.raw < tmax.raw {
                Some(spec_hit_record(s, ray, t2))
            } else {
                None
            }
        } else {
            None
        }
    }
}

impl Sphere {
    /// Well-formed: every field is in range.
    pub open spec fn wf(self) -> bool {
        self.center.wf() && self.radius.wf() && self.material.wf()
    }

    /// Builds a sphere.
    pub fn new(center: Vector, radius: Fx, material: Material) -> (r: Sphere)
        ensures
            r == (Sphere { center, radius, material }),
    {
        Sphere { center, radius, material }
    }

    /// Tests the ray against this sphere inside the open parameter window
    /// `(tmin, tmax)`.
    pub fn hit(&self, ray: Ray, tmin: Fx, tmax: Fx) -> (r: Option<HitRecord>)
        requires
            self.wf(),
            ray.wf(),
            tmin.wf(),
            tmax.wf(),
        ensures
            r == spec_sphere_hit(*self, ray, tmin, tmax),
            r is Some ==> r->Some_0.wf(),
    {
        proof {
            reveal(spec_sphere_hit);
        }
        if self.radius.raw == 0 {
            return None;
        }
        let oc = ray.origin.sub(self.center);
        let a = ray.direction.dot(ray.direction);
        let b = oc.dot(ray.direction);
        let c = oc.dot(oc).sub(self.radius.mul(self.radius));
        let disc = b.mul(b).sub(a.mul(c));
        if a.raw != 0 && disc.raw > 0 {
            let root = disc.sqrt();
            let t1 = b.neg().sub(root).div(a);
            let t2 = b.neg().add(root).div(a);
            if tmin.raw < t1.raw && t1.raw < tmax.raw {
                let p = ray.travel(t1);
                Some(
                    HitRecord {
                        t: t1,
                        p,
                        normal: p.sub(self.center).div_s(self.radius),
                        material: self.material,
                    },
                )
            } else if tmin.raw < t2.raw && t2.raw < tmax.raw {
                let p = ray.travel(t2);
                Some(
                    HitRecord {
                        t: t2,
                        p,
                        normal: p.sub(self.center).div_s(self.radius),
                        material: self.material,
                    },
                )
            } else {
                None
            }
        } else {
            None
        }
    }
}

/// Inside the intersection model's reporting branch, the near root never
/// exceeds the far root.
proof fn lemma_roots_ordered(s: Sphere, ray: Ray, tmin: Fx, tmax: Fx)
    ensures
        ({
            let oc = spec_sub(ray.origin, s.center);
            let a = spec_dot(ray.direction, ray.direction);
            let b = spec_dot(oc, ray.direction);
            let c = Fx {
                raw: sub_raw(
                    spec_dot(oc, oc).raw as int,
                    mul_raw(s.radius.raw as int, s.radius.raw as int),
                ) as i64,
            };
            let disc = Fx {
                raw: sub_raw(
                    mul_raw(b.raw as int, b.raw as int),
                    mul_raw(a.raw as int, c.raw as int),
                ) as i64,
            };
            (a.raw != 0 && disc.raw > 0) ==> div_raw(
                sub_raw(-(b.raw as int), sqrt_raw(disc.raw as int)),
                a.raw as int,
            ) <= div_raw(
                crate::fx::add_raw(-(b.raw as int), sqrt_raw(disc.raw as int)),
                a.raw as int,
            )
        }),
{
    let oc = spec_sub(ray.origin, s.center);
    let a = spec_dot(ray.direction, ray.direction);
    let b = spec_dot(oc, ray.direction);
    let c = Fx {
        raw: sub_raw(
            spec_dot(oc, oc).raw as int,
            mul_raw(s.radius.raw as int, s.radius.raw as int),
        ) as i64,
    };
    let disc = Fx {
        raw: sub_raw(
            mul_raw(b.raw as int, b.raw as int),
            mul_raw(a.raw as int, c.raw as int),
        ) as i64,
    };
    if a.raw != 0 && disc.raw > 0 {
        crate::vector::lemma_squared_length_nonneg(ray.direction);
        assert(a.raw > 0);
        let root = sqrt_raw(disc.raw as int);
        assert((disc.raw as int) * (crate::fx::SCALE as int) >= 0) by (nonlinear_arith)
            requires
                disc.raw as int > 0,
                crate::fx::SCALE as int > 0,
        ;
        crate::fx::lemma_sqrt_floor_bounds((disc.raw as int) * (crate::fx::SCALE as int));
        assert(root >= 0);
        crate::fx::lemma_clamp_monotone(-(b.raw as int) - root, -(b.raw as int) + root);
        crate::fx::lemma_div_raw_monotone(
            sub_raw(-(b.raw as int), root),
            crate::fx::add_raw(-(b.raw as int), root),
            a.raw as int,
        );
    }
}

/// Widening the window keeps any reported hit: what a sphere reports
/// inside a narrower window it reports unchanged inside a wider one.
pub proof fn lemma_hit_widen(s: Sphere, ray: Ray, tmin: Fx, w1: Fx, w2: Fx)
    requires
        w1.raw <= w2.raw,
    ensures
        match spec_sphere_hit(s, ray, tmin, w1) {
            Some(h) => spec_sphere_hit(s, ray, tmin, w2) == Some(h),
            None => true,
        },
{
    reveal(spec_sphere_hit);
    lemma_roots_ordered(s, ray, tmin, w1);
    if s.radius.raw != 0 {
        let oc = spec_sub(ray.origin, s.center);
        let a = spec_dot(ray.direction, ray.direction);
        let b = spec_dot(oc, ray.direction);
        let c = Fx {
            raw: sub_raw(
                spec_dot(oc, oc).raw as int,
                mul_raw(s.radius.raw as int, s.radius.raw as int),
            ) as i64,
        };
        let disc = Fx {
            raw: sub_raw(
                mul_raw(b.raw as int, b.raw as int),
                mul_raw(a.raw as int, c.raw as int),
            ) as i64,
        };
        if a.raw != 0 && disc.raw > 0 {
            crate::fx::lemma_sqrt_raw_range(disc.raw as int);
            let root = Fx { raw: sqrt_raw(disc.raw as int) as i64 };
            assert(root.raw as int == sqrt_raw(disc.raw as int));
            let n1 = sub_raw(-(b.raw as int), root.raw as int);
            let n2 = crate::fx::add_raw(-(b.raw as int), root.raw as int);
            assert(-(crate::fx::MAX_RAW as int) <= div_raw(n1, a.raw as int) <= crate::fx::MAX_RAW as int);
            assert(-(crate::fx::MAX_RAW as int) <= div_raw(n2, a.raw as int) <= crate::fx::MAX_RAW as int);
            let t1 = Fx {
                raw: div_raw(sub_raw(-(b.raw as int), root.raw as int), a.raw as int) as i64,
            };
            let t2 = Fx {
                raw: div_raw(
                    crate::fx::add_raw(-(b.raw as int), root.raw as int),
                    a.raw as int,
                ) as i64,
            };
            assert(t1.raw <= t2.raw);
            if tmin.raw < t1.raw && t1.raw < w1.raw {
                assert(spec_sphere_hit(s, ray, tmin, w1) == Some(spec_hit_record(s, ray, t1)));
                assert(spec_sphere_hit(s, ray, tmin, w2) == Some(spec_hit_record(s, ray, t1)));
            } else if tmin.raw < t2.raw && t2.raw < w1.raw {
                assert(t1.raw <= tmin.raw);
                assert(spec_sphere_hit(s, ray, tmin, w2) == Some(spec_hit_record(s, ray, t2)));
            }
        }
    }
}

/// Shrinking the window down to just above a reported hit keeps that hit.
pub proof fn lemma_hit_shrink(s: Sphere, ray: Ray, tmin: Fx, w1: Fx, w2: Fx)
    requires
        w1.raw <= w2.raw,
    ensures
        match spec_sphere_hit(s, ray, tmin, w2) {
            Some(h) => h.t.raw < w1.raw ==> spec_sphere_hit(s, ray, tmin, w1) == Some(h),
            None => true,
        },
{
    reveal(spec_sphere_hit);
}

/// A reported hit's parameter lies strictly inside the window.
pub proof fn lemma_hit_in_window(s: Sphere, ray: Ray, tmin: Fx, tmax: Fx)
    ensures
        match spec_sphere_hit(s, ray, tmin, tmax) {
            Some(h) => tmin.raw < h.t.raw < tmax.raw,
            None => true,
        },
{
    reveal(spec_sphere_hit);
}

/// Any hit a sphere reports lies on the ray: its point is the ray
/// evaluated at its parameter, and its normal is the offset of that point
/// from the center divided by the signed radius.
pub proof fn lemma_hit_on_ray(s: Sphere, ray: Ray, tmin: Fx, tmax: Fx)
    ensures
        match spec_sphere_hit(s, ray, tmin, tmax) {
            Some(h) => h.p == spec_travel(ray, h.t) && h.normal == spec_div_s(
                spec_sub(h.p, s.center),
                s.radius,
            ),
            None => true,
        },
{
    reveal(spec_sphere_hit);
}

} // verus!
