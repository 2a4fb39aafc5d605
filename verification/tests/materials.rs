use raytracer::fx::Fx;
use raytracer::fx::SCALE;
use raytracer::hit::HitRecord;
use raytracer::material::Dielectric;
use raytracer::material::Lambertian;
use raytracer::material::Material;
use raytracer::material::Metal;
use raytracer::prng::Prng;
use raytracer::ray::Ray;
use raytracer::vector::Vector;

fn fxr(raw: i64) -> Fx {
    Fx::from_raw(raw)
}

fn vec3(x: i64, y: i64, z: i64) -> Vector {
    Vector::new(fxr(x), fxr(y), fxr(z))
}

fn record(p: Vector, normal: Vector, material: Material) -> HitRecord {
    HitRecord { t: fxr(SCALE / 2), p, normal, material }
}

/// Diffuse scattering always succeeds and hands back exactly the albedo
/// as attenuation: no component ever exceeds it.
#[test]
fn lambertian_attenuation_is_albedo() {
    let albedo = vec3(6554, 13107, 32768);
    let lam = Lambertian { albedo };
    let ray = Ray::new(vec3(0, 0, 0), vec3(0, 0, -SCALE));
    let rec = record(vec3(0, 0, -SCALE / 2), vec3(0, 0, SCALE), Material::lambertian(albedo));
    let mut rng = Prng::new(7);
    let s = lam.scatter(ray, rec, &mut rng).expect("diffuse always scatters");
    assert_eq!(s.attenuation, albedo);
    assert!(s.attenuation.x.raw <= albedo.x.raw);
    assert!(s.attenuation.y.raw <= albedo.y.raw);
    assert!(s.attenuation.z.raw <= albedo.z.raw);
    assert_eq!(s.scattered.origin, rec.p);
}

/// A smooth metal reflects exactly and keeps its albedo as attenuation.
#[test]
fn metal_mirror_reflection() {
    let albedo = vec3(52429, 39322, 13107);
    let metal = Metal { albedo, fuzz: Fx::zero() };
    let ray = Ray::new(vec3(0, 0, SCALE), vec3(0, 0, -SCALE));
    let rec = record(vec3(0, 0, 0), vec3(0, 0, SCALE), Material::metal(albedo, Fx::zero()));
    let mut rng = Prng::new(11);
    let s = metal.scatter(ray, rec, &mut rng).expect("head-on reflection scatters");
    assert_eq!(s.attenuation, albedo);
    assert_eq!(s.scattered.direction, vec3(0, 0, SCALE));
    assert!(s.attenuation.x.raw <= albedo.x.raw);
    assert!(s.attenuation.y.raw <= albedo.y.raw);
    assert!(s.attenuation.z.raw <= albedo.z.raw);
}

/// A reflection that would leave through the surface is absorbed.
#[test]
fn metal_absorbs_into_surface() {
    let albedo = vec3(SCALE / 2, SCALE / 2, SCALE / 2);
    let metal = Metal { albedo, fuzz: Fx::zero() };
    let ray = Ray::new(vec3(0, 0, SCALE), vec3(0, 0, -SCALE));
    let rec = record(vec3(0, 0, 0), vec3(0, 0, -SCALE), Material::metal(albedo, Fx::zero()));
    let mut rng = Prng::new(13);
    assert!(metal.scatter(ray, rec, &mut rng).is_none());
}

/// The metal constructor caps roughness at one.
#[test]
fn metal_fuzz_capped() {
    let albedo = vec3(SCALE / 2, SCALE / 2, SCALE / 2);
    match Material::metal(albedo, fxr(2 * SCALE)) {
        Material::Metal(m) => assert_eq!(m.fuzz.raw, SCALE),
        _ => unreachable!(),
    }
    match Material::metal(albedo, fxr(SCALE / 4)) {
        Material::Metal(m) => assert_eq!(m.fuzz.raw, SCALE / 4),
        _ => unreachable!(),
    }
}

/// A dielectric of unit refractive index is a non-bending interface: at
/// head-on incidence the scattered direction equals the incoming one,
/// and the attenuation is all ones.
#[test]
fn dielectric_unit_index_does_not_bend() {
    let die = Dielectric { refractive_index: Fx::one() };
    let ray = Ray::new(vec3(0, 0, SCALE), vec3(0, 0, -SCALE));
    let rec = record(vec3(0, 0, 0), vec3(0, 0, SCALE), Material::dielectric(Fx::one()));
    for seed in [1u64, 99, 4096, 31337] {
        let mut rng = Prng::new(seed);
        let s = die.scatter(ray, rec, &mut rng).expect("dielectric always scatters");
        assert_eq!(s.scattered.direction, ray.direction);
        assert_eq!(s.attenuation, Vector::ones());
    }
}

/// Glass-like scattering always succeeds, with attenuation one.
#[test]
fn dielectric_always_scatters() {
    let die = Dielectric { refractive_index: fxr(3 * SCALE / 2) };
    let ray = Ray::new(vec3(0, 0, SCALE), vec3(6554, 0, -SCALE));
    let rec = record(vec3(0, 0, 0), vec3(0, 0, SCALE), Material::dielectric(fxr(3 * SCALE / 2)));
    let mut rng = Prng::new(5);
    let s = die.scatter(ray, rec, &mut rng).expect("dielectric always scatters");
    assert_eq!(s.attenuation, Vector::ones());
}

/// Exact values of the Schlick reflectance: at grazing incidence the
/// interface is fully reflective; head on it reflects four percent for
/// an index of one and a half.
#[test]
fn schlick_exact_values() {
    let ri = fxr(3 * SCALE / 2);
    assert_eq!(raytracer::material::schlick(Fx::zero(), ri).raw, SCALE);
    assert_eq!(raytracer::material::schlick(Fx::one(), ri).raw, 2621);
}

/// A grazing ray from a dense medium is totally internally reflected:
/// refraction reports nothing.
#[test]
fn total_internal_reflection() {
    let v = vec3(SCALE, -SCALE, 0);
    let n = vec3(0, SCALE, 0);
    assert!(raytracer::material::refract(v, n, fxr(2 * SCALE)).is_none());
}

/// A head-on refraction through a flat interface keeps the direction.
#[test]
fn refract_head_on() {
    let v = vec3(0, -SCALE, 0);
    let n = vec3(0, SCALE, 0);
    let r = raytracer::material::refract(v, n, fxr(3 * SCALE / 2)).expect("head-on refracts");
    assert_eq!(r, vec3(0, -SCALE, 0));
}

/// The sampler stays inside the unit ball and is reproducible from its
/// seed.
#[test]
fn unit_sphere_sampler() {
    let mut a = Prng::new(12345);
    let mut b = Prng::new(12345);
    for _ in 0..32 {
        let pa = raytracer::material::random_in_unit_sphere(&mut a);
        let pb = raytracer::material::random_in_unit_sphere(&mut b);
        assert_eq!(pa, pb);
        assert!(pa.squared_length().raw < SCALE);
    }
}
