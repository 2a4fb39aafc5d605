//! Cameras: a pinhole model and a thin-lens model for depth of field.
//!
//! Construction works from a precomputed image-plane half-height (the
//! tangent of half the vertical field of view, supplied by the caller,
//! since trigonometry is no business of the fixed-point core) and derives
//! an orthonormal basis and the image-plane corner and spans.

use vstd::prelude::*;

use crate::fx::Fx;
use crate::fx::SCALE;
use crate::fx::mul_raw;
use crate::prng::Prng;
use crate::prng::spec_next_state;
use crate::prng::spec_output;
use crate::prng::spec_unit_raw;
use crate::ray::Ray;
use crate::vector::Vector;
use crate::vector::spec_add;
use crate::vector::spec_cross;
use crate::vector::spec_length;
use crate::vector::spec_scale;
use crate::vector::spec_sub;
use crate::vector::spec_unit;

verus! {

/// Retry bound of the lens-disk rejection sampler; unreachable in
/// practice, it keeps the sampler a total function of the stream.
pub const DISK_TRIES: u64 = 64;

/// Derived, immutable camera parameters.
#[derive(Clone, Copy, PartialEq, Eq, Structural, Debug)]
pub struct Camera {
    pub origin: Vector,
    pub corner: Vector,
    pub horizontal: Vector,
    pub vertical: Vector,
    pub lens_radius: Fx,
}

/// Two draws making one candidate point of the square `[-1, 1)^2` on the
/// lens plane, together with the state after them.
pub open spec fn spec_disk_point(s: u64) -> (Vector, u64) {
    let u1 = spec_output(s);
    let s1 = spec_next_state(s);
    let u2 = spec_output(s1);
    let s2 = spec_next_state(s1);
    (
        Vector {
            x: crate::material::spec_ball_component(u1),
            y: crate::material::spec_ball_component(u2),
            z: Fx { raw: 0 },
        },
        s2,
    )
}

/// Model of rejection sampling inside the unit disk; after the retry
/// bound the center of the disk is returned.
pub open spec fn spec_sample_disk(s: u64, fuel: nat) -> (Vector, u64)
    decreases fuel,
{
    if fuel == 0 {
        (Vector::spec_zeros(), s)
    } else {
        let ps = spec_disk_point(s);
        if crate::vector::spec_squared_length(ps.0).raw < SCALE {
            ps
        } else {
            spec_sample_disk(ps.1, (fuel - 1) as nat)
        }
    }
}

/// Whatever the stream, a sampled lens point is in range.
pub proof fn lemma_sample_disk_wf(s: u64, fuel: nat)
    ensures
        spec_sample_disk(s, fuel).0.wf(),
    decreases fuel,
{
    if fuel == 0 {
    } else {
        let ps = spec_disk_point(s);
        if crate::vector::spec_squared_length(ps.0).raw < SCALE {
            crate::material::lemma_unit_raw_bound(spec_output(s));
            crate::material::lemma_unit_raw_bound(spec_output(spec_next_state(s)));
        } else {
            lemma_sample_disk_wf(ps.1, (fuel - 1) as nat);
        }
    }
}

/// Rejection-samples a point uniformly inside the unit disk of the lens
/// plane.
#[verifier::rlimit(100)]
pub fn random_in_unit_disk(rng: &mut Prng) -> (r: Vector)
    ensures
        r == spec_sample_disk(old(rng).state, DISK_TRIES as nat).0,
        final(rng).state == spec_sample_disk(old(rng).state, DISK_TRIES as nat).1,
        r.wf(),
{
    let mut tries: u64 = DISK_TRIES;
    loop
        invariant
            tries <= DISK_TRIES,
            spec_sample_disk(old(rng).state, DISK_TRIES as nat) == spec_sample_disk(
                rng.state,
                tries as nat,
            ),
        decreases tries,
    {
        if tries == 0 {
            proof {
                lemma_sample_disk_wf(old(rng).state, DISK_TRIES as nat);
            }
            return Vector::zeros();
        }
        let ghost s_iter = rng.state;
        let u1 = rng.next_unit();
        let u2 = rng.next_unit();
        let p = Vector {
            x: Fx { raw: 2 * u1.raw - SCALE },
            y: Fx { raw: 2 * u2.raw - SCALE },
            z: Fx { raw: 0 },
        };
        proof {
            assert(p == spec_disk_point(s_iter).0);
            assert(rng.state == spec_disk_point(s_iter).1);
        }
        let sq = p.squared_length();
        if sq.raw < SCALE {
            proof {
                assert(spec_sample_disk(s_iter, tries as nat) == (p, rng.state));
            }
            return p;
        }
        proof {
            assert(spec_sample_disk(s_iter, tries as nat) == spec_sample_disk(
                rng.state,
                (tries - 1) as nat,
            ));
        }
        tries = tries - 1;
    }
}

/// Model of thin-lens construction. Nothing is built when the view
/// direction or the cross of the up vector with it has zero length, as no
/// orthonormal basis exists there.
pub open spec fn spec_camera_new(
    lookfrom: Vector,
    lookat: Vector,
    vup: Vector,
    half_height: Fx,
    aspect: Fx,
    aperture: Fx,
    focus_dist: Fx,
) -> Option<Camera> {
    let half_width = Fx { raw: mul_raw(aspect.raw as int, half_height.raw as int) as i64 };
    let wdir = spec_sub(lookfrom, lookat);
    if spec_length(wdir).raw == 0 {
        None
    } else {
        let w = spec_unit(wdir);
        let cr = spec_cross(vup, w);
        if spec_length(cr).raw == 0 {
            None
        } else {
            let u = spec_unit(cr);
            let v = spec_cross(w, u);
            let hwf = Fx { raw: mul_raw(half_width.raw as int, focus_dist.raw as int) as i64 };
            let hhf = Fx { raw: mul_raw(half_height.raw as int, focus_dist.raw as int) as i64 };
            Some(
                Camera {
                    origin: lookfrom,
                    corner: spec_sub(
                        spec_sub(spec_sub(lookfrom, spec_scale(u, hwf)), spec_scale(v, hhf)),
                        spec_scale(w, focus_dist),
                    ),
                    horizontal: spec_scale(
                        u,
                        Fx { raw: mul_raw(2 * SCALE as int, hwf.raw as int) as i64 },
                    ),
                    vertical: spec_scale(
                        v,
                        Fx { raw: mul_raw(2 * SCALE as int, hhf.raw as int) as i64 },
                    ),
                    lens_radius: Fx {
                        raw: crate::fx::div_raw(aperture.raw as int, 2 * SCALE as int) as i64,
                    },
                },
            )
        }
    }
}

/// Model of pinhole construction: the thin-lens formulas at unit focus
/// and zero aperture.
pub open spec fn spec_camera_pinhole(
    lookfrom: Vector,
    lookat: Vector,
    vup: Vector,
    half_height: Fx,
    aspect: Fx,
) -> Option<Camera> {
    let half_width = Fx { raw: mul_raw(aspect.raw as int, half_height.raw as int) as i64 };
    let wdir = spec_sub(lookfrom, lookat);
    if spec_length(wdir).raw == 0 {
        None
    } else {
        let w = spec_unit(wdir);
        let cr = spec_cross(vup, w);
        if spec_length(cr).raw == 0 {
            None
        } else {
            let u = spec_unit(cr);
            let v = spec_cross(w, u);
            Some(
                Camera {
                    origin: lookfrom,
                    corner: spec_sub(
                        spec_sub(spec_sub(lookfrom, spec_scale(u, half_width)), spec_scale(
                            v,
                            half_height,
                        )),
                        spec_scale(w, Fx { raw: SCALE }),
                    ),
                    horizontal: spec_scale(
                        u,
                        Fx { raw: mul_raw(2 * SCALE as int, half_width.raw as int) as i64 },
                    ),
                    vertical: spec_scale(
                        v,
                        Fx { raw: mul_raw(2 * SCALE as int, half_height.raw as int) as i64 },
                    ),
                    lens_radius: Fx { raw: 0 },
                },
            )
        }
    }
}

impl Camera {
    /// Well-formed: every derived parameter is in range.
    pub open spec fn wf(self) -> bool {
        self.origin.wf() && self.corner.wf() && self.horizontal.wf() && self.vertical.wf()
            && self.lens_radius.wf()
    }

    /// Thin-lens construction. `half_height` is the tangent of half the
    /// vertical field of view. Nothing is built for a degenerate view
    /// direction or up vector.
    pub fn new(
        lookfrom: Vector,
        lookat: Vector,
        vup: Vector,
        half_height: Fx,
        aspect: Fx,
        aperture: Fx,
        focus_dist: Fx,
    ) -> (r: Option<Camera>)
        requires
            lookfrom.wf(),
            lookat.wf(),
            vup.wf(),
            half_height.wf(),
            aspect.wf(),
            aperture.wf(),
            focus_dist.wf(),
        ensures
            r == spec_camera_new(lookfrom, lookat, vup, half_height, aspect, aperture, focus_dist),
            r is Some ==> r->Some_0.wf(),
    {
        let half_width = aspect.mul(half_height);
        let wdir = lookfrom.sub(lookat);
        let wlen = wdir.length();
        if wlen.raw == 0 {
            return None;
        }
        let w = wdir.unit();
        let cr = vup.cross(w);
        let crlen = cr.length();
        if crlen.raw == 0 {
            return None;
        }
        let u = cr.unit();
        let v = w.cross(u);
        let hwf = half_width.mul(focus_dist);
        let hhf = half_height.mul(focus_dist);
        let two = Fx { raw: 2 * SCALE };
        Some(
            Camera {
                origin: lookfrom,
                corner: lookfrom.sub(u.scale(hwf)).sub(v.scale(hhf)).sub(w.scale(focus_dist)),
                horizontal: u.scale(two.mul(hwf)),
                vertical: v.scale(two.mul(hhf)),
                lens_radius: aperture.div(two),
            },
        )
    }

    /// Pinhole construction: no lens, unit focus distance.
    pub fn pinhole(lookfrom: Vector, lookat: Vector, vup: Vector, half_height: Fx, aspect: Fx) -> (r:
        Option<Camera>)
        requires
            lookfrom.wf(),
            lookat.wf(),
            vup.wf(),
            half_height.wf(),
            aspect.wf(),
        ensures
            r == spec_camera_pinhole(lookfrom, lookat, vup, half_height, aspect),
            r is Some ==> r->Some_0.wf(),
    {
        let half_width = aspect.mul(half_height);
        let wdir = lookfrom.sub(lookat);
        let wlen = wdir.length();
        if wlen.raw == 0 {
            return None;
        }
        let w = wdir.unit();
        let cr = vup.cross(w);
        let crlen = cr.length();
        if crlen.raw == 0 {
            return None;
        }
        let u = cr.unit();
        let v = w.cross(u);
        let two = Fx { raw: 2 * SCALE };
        Some(
            Camera {
                origin: lookfrom,
                corner: lookfrom.sub(u.scale(half_width)).sub(v.scale(half_height)).sub(
                    w.scale(Fx::one()),
                ),
                horizontal: u.scale(two.mul(half_width)),
                vertical: v.scale(two.mul(half_height)),
                lens_radius: Fx { raw: 0 },
            },
        )
    }

    /// Samples a lens offset and returns the primary ray for normalized
    /// image coordinates `(u, v)`.
    pub fn get_ray(&self, u: Fx, v: Fx, rng: &mut Prng) -> (r: Ray)
        requires
            self.wf(),
            u.wf(),
            v.wf(),
        ensures
            r == spec_get_ray(*self, u, v, old(rng).state).0,
            final(rng).state == spec_get_ray(*self, u, v, old(rng).state).1,
            r.wf(),
    {
        let disk = random_in_unit_disk(rng);
        let rd = disk.scale(self.lens_radius);
        let offset = Vector::new(u.mul(rd.x), v.mul(rd.y), Fx::zero());
        Ray::new(
            self.origin.add(offset),
            self.corner.add(self.horizontal.scale(u)).add(self.vertical.scale(v)).sub(
                self.origin,
            ).sub(offset),
        )
    }
}

/// Model of primary-ray generation through the lens.
pub open spec fn spec_get_ray(cam: Camera, u: Fx, v: Fx, s: u64) -> (Ray, u64) {
    let ds = spec_sample_disk(s, DISK_TRIES as nat);
    let rd = spec_scale(ds.0, cam.lens_radius);
    let offset = Vector {
        x: Fx { raw: mul_raw(u.raw as int, rd.x.raw as int) as i64 },
        y: Fx { raw: mul_raw(v.raw as int, rd.y.raw as int) as i64 },
        z: Fx { raw: 0 },
    };
    (
        Ray {
            origin: spec_add(cam.origin, offset),
            direction: spec_sub(
                spec_sub(
                    spec_add(
                        spec_add(cam.corner, spec_scale(cam.horizontal, u)),
                        spec_scale(cam.vertical, v),
                    ),
                    cam.origin,
                ),
                offset,
            ),
        },
        ds.1,
    )
}

/// The deterministic pinhole ray: the lens formula with no offset.
pub open spec fn spec_pinhole_ray(cam: Camera, u: Fx, v: Fx) -> Ray {
    Ray {
        origin: cam.origin,
        direction: spec_sub(
            spec_add(
                spec_add(cam.corner, spec_scale(cam.horizontal, u)),
                spec_scale(cam.vertical, v),
            ),
            cam.origin,
        ),
    }
}

/// A camera whose lens radius is zero produces, for any state of the
/// stream, exactly the deterministic pinhole ray: the lens jitter has no
/// effect.
pub proof fn lemma_zero_aperture_ray(cam: Camera, u: Fx, v: Fx, s: u64)
    requires
        cam.wf(),
        cam.lens_radius.raw == 0,
        u.wf(),
        v.wf(),
    ensures
        spec_get_ray(cam, u, v, s).0 == spec_pinhole_ray(cam, u, v),
{
    lemma_sample_disk_wf(s, DISK_TRIES as nat);
    let ds = spec_sample_disk(s, DISK_TRIES as nat);
    crate::fx::lemma_mul_raw_zero(ds.0.x.raw as int);
    crate::fx::lemma_mul_raw_zero(ds.0.y.raw as int);
    crate::fx::lemma_mul_raw_zero(ds.0.z.raw as int);
    crate::fx::lemma_mul_raw_zero(u.raw as int);
    crate::fx::lemma_mul_raw_zero(v.raw as int);
    let base = spec_sub(
        spec_add(
            spec_add(cam.corner, spec_scale(cam.horizontal, u)),
            spec_scale(cam.vertical, v),
        ),
        cam.origin,
    );
    crate::fx::lemma_add_sub_raw_zero(cam.origin.x.raw as int);
    crate::fx::lemma_add_sub_raw_zero(cam.origin.y.raw as int);
    crate::fx::lemma_add_sub_raw_zero(cam.origin.z.raw as int);
    crate::fx::lemma_add_sub_raw_zero(base.x.raw as int);
    crate::fx::lemma_add_sub_raw_zero(base.y.raw as int);
    crate::fx::lemma_add_sub_raw_zero(base.z.raw as int);
}

/// A thin lens built with zero aperture and unit focus distance is the
/// pinhole camera itself, field for field.
pub proof fn lemma_zero_aperture_camera(
    lookfrom: Vector,
    lookat: Vector,
    vup: Vector,
    half_height: Fx,
    aspect: Fx,
)
    requires
        lookfrom.wf(),
        lookat.wf(),
        vup.wf(),
        half_height.wf(),
        aspect.wf(),
    ensures
        spec_camera_new(
            lookfrom,
            lookat,
            vup,
            half_height,
            aspect,
            Fx { raw: 0 },
            Fx { raw: SCALE },
        ) == spec_camera_pinhole(lookfrom, lookat, vup, half_height, aspect),
{
    let half_width = Fx { raw: mul_raw(aspect.raw as int, half_height.raw as int) as i64 };
    crate::fx::lemma_mul_raw_one(half_width.raw as int);
    crate::fx::lemma_mul_raw_one(half_height.raw as int);
    assert(crate::fx::abs_i(0) * (SCALE as int) == 0);
    assert(0int / (2 * SCALE as int) == 0);
}

} // verus!
