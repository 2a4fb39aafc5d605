//! Material behavior: diffuse, reflective and refractive scattering.
//!
//! Each scatter is pinned to a spec-level model that threads the random
//! stream explicitly, so what a material does is an exact function of the
//! incoming ray, the hit and the stream's state.

use vstd::prelude::*;

use crate::fx::Fx;
use crate::fx::SCALE;
use crate::fx::mul_raw;
use crate::hit::HitRecord;
use crate::prng::Prng;
use crate::prng::spec_next_state;
use crate::prng::spec_output;
use crate::prng::spec_unit_raw;
use crate::ray::Ray;
use crate::vector::Vector;
use crate::vector::spec_add;
use crate::vector::spec_dot;
use crate::vector::spec_length;
use crate::vector::spec_neg;
use crate::vector::spec_scale;
use crate::vector::spec_squared_length;
use crate::vector::spec_sub;
use crate::vector::spec_unit;

verus! {

/// Retry bound of the rejection sampler. The chance that one try lands
/// outside the unit ball is below a half, so the bound is unreachable in
/// practice; it keeps the sampler a total function of the stream.
pub const BALL_TRIES: u64 = 64;

/// One sampled component, uniform in `[-1, 1)`: a unit draw doubled and
/// shifted down by one.
pub open spec fn spec_ball_component(u: u64) -> Fx {
    Fx { raw: (2 * spec_unit_raw(u) - SCALE as int) as i64 }
}

/// Three draws making one candidate point of the cube `[-1, 1)^3`,
/// together with the state after them.
pub open spec fn spec_ball_point(s: u64) -> (Vector, u64) {
    let u1 = spec_output(s);
    let s1 = spec_next_state(s);
    let u2 = spec_output(s1);
    let s2 = spec_next_state(s1);
    let u3 = spec_output(s2);
    let s3 = spec_next_state(s2);
    (Vector { x: spec_ball_component(u1), y: spec_ball_component(u2), z: spec_ball_component(u3) }, s3)
}

/// Model of rejection sampling inside the unit ball: candidates are drawn
/// until one has squared length below one; after the retry bound the
/// center of the ball is returned.
pub open spec fn spec_sample_ball(s: u64, fuel: nat) -> (Vector, u64)
    decreases fuel,
{
    if fuel == 0 {
        (Vector::spec_zeros(), s)
    } else {
        let ps = spec_ball_point(s);
        if spec_squared_length(ps.0).raw < SCALE {
            ps
        } else {
            spec_sample_ball(ps.1, (fuel - 1) as nat)
        }
    }
}

/// The top sixteen bits of a word are below the scale.
pub proof fn lemma_unit_raw_bound(u: u64)
    ensures
        spec_unit_raw(u) < 65536,
        spec_unit_raw(u) >= 0,
{
    assert(u >> 48u64 < 65536) by (bit_vector);
}

/// Whatever the stream, a sampled point lies inside the unit ball and in
/// range.
pub proof fn lemma_sample_ball_in_ball(s: u64, fuel: nat)
    ensures
        spec_squared_length(spec_sample_ball(s, fuel).0).raw < SCALE,
        spec_sample_ball(s, fuel).0.wf(),
    decreases fuel,
{
    if fuel == 0 {
        assert(crate::fx::abs_i(0) == 0);
        assert(crate::fx::abs_i(0) * crate::fx::abs_i(0) == 0);
        assert(0int / (SCALE as int) == 0);
        assert(mul_raw(0, 0) == 0);
        assert(crate::fx::add_raw(0, 0) == 0);
        assert(spec_squared_length(Vector::spec_zeros()).raw == 0);
    } else {
        let ps = spec_ball_point(s);
        if spec_squared_length(ps.0).raw < SCALE {
            lemma_unit_raw_bound(spec_output(s));
            lemma_unit_raw_bound(spec_output(spec_next_state(s)));
            lemma_unit_raw_bound(spec_output(spec_next_state(spec_next_state(s))));
        } else {
            lemma_sample_ball_in_ball(ps.1, (fuel - 1) as nat);
        }
    }
}

/// Rejection-samples a point uniformly inside the unit ball.
#[verifier::rlimit(100)]
pub fn random_in_unit_sphere(rng: &mut Prng) -> (r: Vector)
    ensures
        r == spec_sample_ball(old(rng).state, BALL_TRIES as nat).0,
        final(rng).state == spec_sample_ball(old(rng).state, BALL_TRIES as nat).1,
        spec_squared_length(r).raw < SCALE,
        r.wf(),
{
    let mut tries: u64 = BALL_TRIES;
    loop
        invariant
            tries <= BALL_TRIES,
            spec_sample_ball(old(rng).state, BALL_TRIES as nat) == spec_sample_ball(
                rng.state,
                tries as nat,
            ),
        decreases tries,
    {
        if tries == 0 {
            proof {
                lemma_sample_ball_in_ball(old(rng).state, BALL_TRIES as nat);
            }
            return Vector::zeros();
        }
        let ghost s_iter = rng.state;
        let u1 = rng.next_unit();
        let u2 = rng.next_unit();
        let u3 = rng.next_unit();
        let p = Vector {
            x: Fx { raw: 2 * u1.raw - SCALE },
            y: Fx { raw: 2 * u2.raw - SCALE },
            z: Fx { raw: 2 * u3.raw - SCALE },
        };
        proof {
            assert(p == spec_ball_point(s_iter).0);
            assert(rng.state == spec_ball_point(s_iter).1);
        }
        let sq = p.squared_length();
        if sq.raw < SCALE {
            proof {
                assert(spec_sample_ball(s_iter, tries as nat) == (p, rng.state));
            }
            return p;
        }
        proof {
            assert(spec_sample_ball(s_iter, tries as nat) == spec_sample_ball(
                rng.state,
                (tries - 1) as nat,
            ));
        }
        tries = tries - 1;
    }
}

/// Model of mirror reflection: `v - 2 (v . n) n`.
pub open spec fn spec_reflect(v: Vector, n: Vector) -> Vector {
    spec_sub(v, spec_scale(n, Fx { raw: mul_raw(2 * SCALE as int, spec_dot(v, n).raw as int) as i64 }))
}

/// Mirror reflection of `v` about the normal `n`.
pub fn reflect(v: Vector, n: Vector) -> (r: Vector)
    requires
        v.wf(),
        n.wf(),
    ensures
        r == spec_reflect(v, n),
        r.wf(),
{
    let two = Fx { raw: 2 * SCALE };
    let s = two.mul(v.dot(n));
    v.sub(n.scale(s))
}

/// Model of Snell refraction: the bent direction when the discriminant is
/// positive, nothing on total internal reflection.
pub open spec fn spec_refract(v: Vector, n: Vector, ni_over_nt: Fx) -> Option<Vector> {
    let uv = spec_unit(v);
    let dt = spec_dot(uv, n);
    let inner = Fx { raw: crate::fx::sub_raw(SCALE as int, mul_raw(dt.raw as int, dt.raw as int)) as i64 };
    let ni2 = Fx { raw: mul_raw(ni_over_nt.raw as int, ni_over_nt.raw as int) as i64 };
    let disc = Fx { raw: crate::fx::sub_raw(SCALE as int, mul_raw(ni2.raw as int, inner.raw as int)) as i64 };
    if disc.raw > 0 {
        let root = Fx { raw: crate::fx::sqrt_raw(disc.raw as int) as i64 };
        Some(spec_sub(spec_scale(spec_sub(uv, spec_scale(n, dt)), ni_over_nt), spec_scale(n, root)))
    } else {
        None
    }
}

/// Refraction of `v` through a surface with outward normal `n`.
pub fn refract(v: Vector, n: Vector, ni_over_nt: Fx) -> (r: Option<Vector>)
    requires
        v.wf(),
        n.wf(),
        ni_over_nt.wf(),
        spec_length(v).raw != 0,
    ensures
        r == spec_refract(v, n, ni_over_nt),
        r is Some ==> r->Some_0.wf(),
{
    let uv = v.unit();
    let dt = uv.dot(n);
    let inner = Fx::one().sub(dt.mul(dt));
    let ni2 = ni_over_nt.mul(ni_over_nt);
    let disc = Fx::one().sub(ni2.mul(inner));
    if disc.raw > 0 {
        let root = disc.sqrt();
        Some(uv.sub(n.scale(dt)).scale(ni_over_nt).sub(n.scale(root)))
    } else {
        None
    }
}

/// Model of the Schlick reflectance approximation.
pub open spec fn spec_schlick(cosine: Fx, refractive_index: Fx) -> Fx {
    let denom = Fx { raw: crate::fx::add_raw(SCALE as int, refractive_index.raw as int) as i64 };
    let r0a = Fx {
        raw: crate::fx::div_raw(
            crate::fx::sub_raw(SCALE as int, refractive_index.raw as int),
            denom.raw as int,
        ) as i64,
    };
    let r0 = Fx { raw: mul_raw(r0a.raw as int, r0a.raw as int) as i64 };
    let omc = Fx { raw: crate::fx::sub_raw(SCALE as int, cosine.raw as int) as i64 };
    let p2 = Fx { raw: mul_raw(omc.raw as int, omc.raw as int) as i64 };
    let p3 = Fx { raw: mul_raw(p2.raw as int, omc.raw as int) as i64 };
    let p4 = Fx { raw: mul_raw(p3.raw as int, omc.raw as int) as i64 };
    let p5 = Fx { raw: mul_raw(p4.raw as int, omc.raw as int) as i64 };
    let rest = Fx {
        raw: mul_raw(crate::fx::sub_raw(SCALE as int, r0.raw as int), p5.raw as int) as i64,
    };
    Fx { raw: crate::fx::add_raw(r0.raw as int, rest.raw as int) as i64 }
}

/// Schlick's polynomial approximation of Fresnel reflectance.
pub fn schlick(cosine: Fx, refractive_index: Fx) -> (r: Fx)
    requires
        cosine.wf(),
        refractive_index.wf(),
        refractive_index.raw > 0,
    ensures
        r == spec_schlick(cosine, refractive_index),
        r.wf(),
{
    let denom = Fx::one().add(refractive_index);
    let r0a = Fx::one().sub(refractive_index).div(denom);
    let r0 = r0a.mul(r0a);
    let omc = Fx::one().sub(cosine);
    let p5 = omc.mul(omc).mul(omc).mul(omc).mul(omc);
    r0.add(Fx::one().sub(r0).mul(p5))
}

/// The attenuation and new ray a material hands back on a scatter.
#[derive(Clone, Copy, PartialEq, Eq, Structural, Debug)]
pub struct Scatter {
    pub attenuation: Vector,
    pub scattered: Ray,
}

/// A diffuse surface.
#[derive(Clone, Copy, PartialEq, Eq, Structural, Debug)]
pub struct Lambertian {
    pub albedo: Vector,
}

/// A reflective surface with a roughness in `[0, 1]`.
#[derive(Clone, Copy, PartialEq, Eq, Structural, Debug)]
pub struct Metal {
    pub albedo: Vector,
    pub fuzz: Fx,
}

/// A refractive, glass-like surface.
#[derive(Clone, Copy, PartialEq, Eq, Structural, Debug)]
pub struct Dielectric {
    pub refractive_index: Fx,
}

/// Model of a diffuse scatter: one ball sample displaces the normal.
pub open spec fn spec_scatter_lambertian(albedo: Vector, rec: HitRecord, s: u64) -> (Option<
    Scatter,
>, u64) {
    let ps = spec_sample_ball(s, BALL_TRIES as nat);
    let target = spec_add(spec_add(rec.p, rec.normal), ps.0);
    (
        Some(
            Scatter {
                attenuation: albedo,
                scattered: Ray { origin: rec.p, direction: spec_sub(target, rec.p) },
            },
        ),
        ps.1,
    )
}

/// Model of a metallic scatter: a fuzzed mirror reflection, absorbed when
/// it would point into the surface.
pub open spec fn spec_scatter_metal(m: Metal, ray: Ray, rec: HitRecord, s: u64) -> (Option<
    Scatter,
>, u64) {
    let reflected = spec_reflect(spec_unit(ray.direction), rec.normal);
    let ps = spec_sample_ball(s, BALL_TRIES as nat);
    let direction = spec_add(reflected, spec_scale(ps.0, m.fuzz));
    if spec_dot(direction, rec.normal).raw > 0 {
        (
            Some(
                Scatter {
                    attenuation: m.albedo,
                    scattered: Ray { origin: rec.p, direction },
                },
            ),
            ps.1,
        )
    } else {
        (None, ps.1)
    }
}

/// Model of a dielectric scatter: refraction by Snell's law where it is
/// possible, reflection otherwise, the choice between the two drawn
/// against the Schlick reflectance.
pub open spec fn spec_scatter_dielectric(d: Dielectric, ray: Ray, rec: HitRecord, s: u64) -> (Option<
    Scatter,
>, u64) {
    let reflected = spec_reflect(ray.direction, rec.normal);
    let dn = spec_dot(ray.direction, rec.normal);
    let len = spec_length(ray.direction);
    let outward = if dn.raw > 0 {
        spec_neg(rec.normal)
    } else {
        rec.normal
    };
    let ni_over_nt = if dn.raw > 0 {
        d.refractive_index
    } else {
        Fx { raw: crate::fx::div_raw(SCALE as int, d.refractive_index.raw as int) as i64 }
    };
    let cosine = if dn.raw > 0 {
        Fx {
            raw: crate::fx::div_raw(
                mul_raw(d.refractive_index.raw as int, dn.raw as int),
                len.raw as int,
            ) as i64,
        }
    } else {
        Fx { raw: crate::fx::div_raw(-(dn.raw as int), len.raw as int) as i64 }
    };
    match spec_refract(ray.direction, outward, ni_over_nt) {
        Some(refracted) => {
            let u = spec_output(s);
            let s1 = spec_next_state(s);
            let scattered = if spec_unit_raw(u) < spec_schlick(cosine, d.refractive_index).raw {
                Ray { origin: rec.p, direction: reflected }
            } else {
                Ray { origin: rec.p, direction: refracted }
            };
            (Some(Scatter { attenuation: Vector::spec_ones(), scattered }), s1)
        },
        None => {
            (
                Some(
                    Scatter {
                        attenuation: Vector::spec_ones(),
                        scattered: Ray { origin: rec.p, direction: reflected },
                    },
                ),
                s,
            )
        },
    }
}

impl Lambertian {
    /// Diffuse scatter; always succeeds.
    pub fn scatter(&self, _ray: Ray, record: HitRecord, rng: &mut Prng) -> (r: Option<Scatter>)
        requires
            self.albedo.wf(),
            record.wf(),
        ensures
            r == spec_scatter_lambertian(self.albedo, record, old(rng).state).0,
            final(rng).state == spec_scatter_lambertian(self.albedo, record, old(rng).state).1,
    {
        let ball = random_in_unit_sphere(rng);
        let target = record.p.add(record.normal).add(ball);
        let scattered = Ray::new(record.p, target.sub(record.p));
        Some(Scatter { attenuation: self.albedo, scattered })
    }
}

impl Metal {
    /// Metallic scatter; absorbed when the fuzzed reflection points into
    /// the surface.
    pub fn scatter(&self, ray: Ray, record: HitRecord, rng: &mut Prng) -> (r: Option<Scatter>)
        requires
            self.albedo.wf(),
            self.fuzz.wf(),
            ray.wf(),
            record.wf(),
            spec_length(ray.direction).raw != 0,
        ensures
            r == spec_scatter_metal(*self, ray, record, old(rng).state).0,
            final(rng).state == spec_scatter_metal(*self, ray, record, old(rng).state).1,
    {
        let reflected = reflect(ray.direction.unit(), record.normal);
        let ball = random_in_unit_sphere(rng);
        let scattered = Ray::new(record.p, reflected.add(ball.scale(self.fuzz)));
        let d = scattered.direction.dot(record.normal);
        if d.raw > 0 {
            Some(Scatter { attenuation: self.albedo, scattered })
        } else {
            None
        }
    }
}

impl Dielectric {
    /// Dielectric scatter; always succeeds, with attenuation one.
    pub fn scatter(&self, ray: Ray, record: HitRecord, rng: &mut Prng) -> (r: Option<Scatter>)
        requires
            self.refractive_index.wf(),
            self.refractive_index.raw > 0,
            ray.wf(),
            record.wf(),
            spec_length(ray.direction).raw != 0,
        ensures
            r == spec_scatter_dielectric(*self, ray, record, old(rng).state).0,
            final(rng).state == spec_scatter_dielectric(*self, ray, record, old(rng).state).1,
    {
        let reflected = reflect(ray.direction, record.normal);
        let attenuation = Vector::ones();
        let dn = ray.direction.dot(record.normal);
        let len = ray.direction.length();
        let (outward_normal, ni_over_nt, cosine) = if dn.raw > 0 {
            (
                record.normal.neg(),
                self.refractive_index,
                self.refractive_index.mul(dn).div(len),
            )
        } else {
            (record.normal, Fx::one().div(self.refractive_index), dn.neg().div(len))
        };
        let scattered = match refract(ray.direction, outward_normal, ni_over_nt) {
            Some(refracted) => {
                let sch = schlick(cosine, self.refractive_index);
                let u = rng.next_unit();
                if u.raw < sch.raw {
                    Ray::new(record.p, reflected)
                } else {
                    Ray::new(record.p, refracted)
                }
            },
            None => Ray::new(record.p, reflected),
        };
        Some(Scatter { attenuation, scattered })
    }
}

/// A closed variant type over the three material behaviors.
#[derive(Clone, Copy, PartialEq, Eq, Structural, Debug)]
pub enum Material {
    Lambertian(Lambertian),
    Metal(Metal),
    Dielectric(Dielectric),
}

/// Model of a scatter, dispatched on the material.
pub open spec fn spec_scatter(m: Material, ray: Ray, rec: HitRecord, s: u64) -> (Option<
    Scatter,
>, u64) {
    match m {
        Material::Lambertian(l) => spec_scatter_lambertian(l.albedo, rec, s),
        Material::Metal(mt) => spec_scatter_metal(mt, ray, rec, s),
        Material::Dielectric(d) => spec_scatter_dielectric(d, ray, rec, s),
    }
}

impl Material {
    /// Well-formed: the payload is in range; a metal's roughness is capped
    /// at one and a refractive index is positive.
    pub open spec fn wf(self) -> bool {
        match self {
            Material::Lambertian(l) => l.albedo.wf(),
            Material::Metal(m) => m.albedo.wf() && m.fuzz.wf() && m.fuzz.raw <= SCALE,
            Material::Dielectric(d) => d.refractive_index.wf() && d.refractive_index.raw > 0,
        }
    }

    /// Builds a diffuse material.
    pub fn lambertian(albedo: Vector) -> (r: Material)
        requires
            albedo.wf(),
        ensures
            r == Material::Lambertian(Lambertian { albedo }),
            r.wf(),
    {
        Material::Lambertian(Lambertian { albedo })
    }

    /// Builds a metallic material; the roughness is capped at one.
    pub fn metal(albedo: Vector, fuzz: Fx) -> (r: Material)
        requires
            albedo.wf(),
            fuzz.wf(),
        ensures
            r == Material::Metal(
                Metal {
                    albedo,
                    fuzz: if fuzz.raw <= SCALE {
                        fuzz
                    } else {
                        Fx { raw: SCALE }
                    },
                },
            ),
            r.wf(),
    {
        let capped = fuzz.min(Fx::one());
        Material::Metal(Metal { albedo, fuzz: capped })
    }

    /// Builds a refractive material from a positive index.
    pub fn dielectric(refractive_index: Fx) -> (r: Material)
        requires
            refractive_index.wf(),
            refractive_index.raw > 0,
        ensures
            r == Material::Dielectric(Dielectric { refractive_index }),
            r.wf(),
    {
        Material::Dielectric(Dielectric { refractive_index })
    }

    /// Scatters an incoming ray at a hit, dispatching on the material.
    pub fn scatter(&self, ray: Ray, record: HitRecord, rng: &mut Prng) -> (r: Option<Scatter>)
        requires
            self.wf(),
            ray.wf(),
            record.wf(),
            spec_length(ray.direction).raw != 0,
        ensures
            r == spec_scatter(*self, ray, record, old(rng).state).0,
            final(rng).state == spec_scatter(*self, ray, record, old(rng).state).1,
    {
        match self {
            Material::Lambertian(l) => l.scatter(ray, record, rng),
            Material::Metal(m) => m.scatter(ray, record, rng),
            Material::Dielectric(d) => d.scatter(ray, record, rng),
        }
    }
}

/// The albedo a diffuse or metallic material was built with.
pub open spec fn spec_albedo(m: Material) -> Vector {
    match m {
        Material::Lambertian(l) => l.albedo,
        Material::Metal(mt) => mt.albedo,
        Material::Dielectric(_) => Vector::spec_ones(),
    }
}

/// Diffuse and metallic materials never amplify energy: whenever they
/// report a scatter, its attenuation is exactly the albedo, so no
/// component exceeds the corresponding component of the albedo.
pub proof fn lemma_attenuation_bounded(m: Material, ray: Ray, rec: HitRecord, s: u64)
    requires
        m is Lambertian || m is Metal,
    ensures
        match spec_scatter(m, ray, rec, s).0 {
            Some(sc) => sc.attenuation.x.raw <= spec_albedo(m).x.raw
                && sc.attenuation.y.raw <= spec_albedo(m).y.raw
                && sc.attenuation.z.raw <= spec_albedo(m).z.raw,
            None => true,
        },
{
}

} // verus!
