use raytracer::fx::Fx;
use raytracer::fx::MAX_RAW;
use raytracer::fx::SCALE;
use raytracer::material::Material;
use raytracer::ray::Ray;
use raytracer::sphere::Sphere;
use raytracer::vector::Vector;
use raytracer::world::World;

fn fxr(raw: i64) -> Fx {
    Fx::from_raw(raw)
}

fn vec3(x: i64, y: i64, z: i64) -> Vector {
    Vector::new(fxr(x), fxr(y), fxr(z))
}

fn gray() -> Material {
    Material::lambertian(vec3(SCALE / 2, SCALE / 2, SCALE / 2))
}

/// Exact values of the vector algebra on whole-number inputs.
#[test]
fn vector_algebra_exact() {
    let a = vec3(SCALE, 2 * SCALE, 3 * SCALE);
    let b = vec3(4 * SCALE, 5 * SCALE, 6 * SCALE);
    assert_eq!(a.dot(b).raw, 32 * SCALE);
    assert_eq!(a.add(b), vec3(5 * SCALE, 7 * SCALE, 9 * SCALE));
    assert_eq!(b.sub(a), vec3(3 * SCALE, 3 * SCALE, 3 * SCALE));
    assert_eq!(a.mul(b), vec3(4 * SCALE, 10 * SCALE, 18 * SCALE));
    assert_eq!(b.div(a), vec3(4 * SCALE, 5 * SCALE / 2, 2 * SCALE));
    assert_eq!(a.scale(fxr(2 * SCALE)), vec3(2 * SCALE, 4 * SCALE, 6 * SCALE));
    assert_eq!(a.neg(), vec3(-SCALE, -2 * SCALE, -3 * SCALE));
    let x = vec3(SCALE, 0, 0);
    let y = vec3(0, SCALE, 0);
    assert_eq!(x.cross(y), vec3(0, 0, SCALE));
    assert_eq!(y.cross(x), vec3(0, 0, -SCALE));
    let p = vec3(3 * SCALE, 4 * SCALE, 0);
    assert_eq!(p.squared_length().raw, 25 * SCALE);
    assert_eq!(p.length().raw, 5 * SCALE);
    assert_eq!(vec3(0, 3 * SCALE, 0).unit(), vec3(0, SCALE, 0));
    let ray = Ray::new(vec3(SCALE, 0, 0), vec3(0, 2 * SCALE, 0));
    assert_eq!(ray.travel(fxr(SCALE / 2)), vec3(SCALE, SCALE, 0));
}

/// The canonical axis-aligned intersection: a unit ray down negative z
/// against a half-radius sphere one unit away hits at t = 0.5 with the
/// expected point and unit normal, all exactly representable.
#[test]
fn axis_hit_exact() {
    let ray = Ray::new(vec3(0, 0, 0), vec3(0, 0, -SCALE));
    let sphere = Sphere::new(vec3(0, 0, -SCALE), fxr(SCALE / 2), gray());
    let hit = sphere.hit(ray, Fx::zero(), fxr(MAX_RAW)).expect("must hit");
    assert_eq!(hit.t.raw, SCALE / 2);
    assert_eq!(hit.p, vec3(0, 0, -SCALE / 2));
    assert_eq!(hit.normal, vec3(0, 0, SCALE));
}

/// Any reported hit lies on the ray, and its normal is unit length up to
/// fixed-point rounding.
#[test]
fn hit_point_and_normal() {
    let ray = Ray::new(vec3(655, -1310, 0), vec3(19661, -26214, -SCALE));
    let sphere = Sphere::new(vec3(13107, -19661, -2 * SCALE), fxr(45875), gray());
    let hit = sphere.hit(ray, fxr(66), fxr(MAX_RAW)).expect("must hit");
    assert_eq!(hit.p, ray.travel(hit.t));
    let sq = hit.normal.squared_length();
    assert!((sq.raw - SCALE).abs() < 700, "normal squared length {} not near one", sq.raw);
}

/// A ray starting inside a sphere is caught by the far root, which must
/// be tested against the lower window bound, not the upper one.
#[test]
fn far_root_from_inside() {
    let ray = Ray::new(vec3(0, 0, 0), vec3(0, 0, -SCALE));
    let sphere = Sphere::new(vec3(0, 0, 0), fxr(SCALE), gray());
    let hit = sphere.hit(ray, fxr(66), fxr(MAX_RAW)).expect("must hit from inside");
    assert_eq!(hit.t.raw, SCALE);
    assert_eq!(hit.p, vec3(0, 0, -SCALE));
    assert_eq!(hit.normal, vec3(0, 0, -SCALE));
}

/// A negative radius flips the reported normal inward.
#[test]
fn negative_radius_flips_normal() {
    let ray = Ray::new(vec3(0, 0, 0), vec3(0, 0, -SCALE));
    let sphere = Sphere::new(vec3(0, 0, -SCALE), fxr(-SCALE / 2), gray());
    let hit = sphere.hit(ray, fxr(66), fxr(MAX_RAW)).expect("must hit");
    assert_eq!(hit.normal, vec3(0, 0, -SCALE));
}

/// A zero-radius sphere and a direction whose self-product rounds to
/// zero both report nothing.
#[test]
fn degenerate_sphere_and_direction_miss() {
    let ray = Ray::new(vec3(0, 0, 0), vec3(0, 0, -SCALE));
    let zero_sphere = Sphere::new(vec3(0, 0, -SCALE), Fx::zero(), gray());
    assert!(zero_sphere.hit(ray, Fx::zero(), fxr(MAX_RAW)).is_none());
    let tiny = Ray::new(vec3(0, 0, 0), Vector::new(fxr(0), fxr(0), fxr(-100)));
    let sphere = Sphere::new(vec3(0, 0, -SCALE), fxr(SCALE / 2), gray());
    assert!(sphere.hit(tiny, Fx::zero(), fxr(MAX_RAW)).is_none());
}

/// A sphere behind the ray is outside the window and reports nothing.
#[test]
fn sphere_behind_ray_misses() {
    let ray = Ray::new(vec3(0, 0, 0), vec3(0, 0, -SCALE));
    let sphere = Sphere::new(vec3(0, 0, 3 * SCALE), fxr(SCALE / 2), gray());
    assert!(sphere.hit(ray, fxr(66), fxr(MAX_RAW)).is_none());
}

/// The scene returns the same hit as testing every sphere independently
/// and keeping the one of minimal parameter.
#[test]
fn world_returns_minimal_hit() {
    let ray = Ray::new(vec3(0, 0, 0), vec3(0, 0, -SCALE));
    let spheres = vec![
        Sphere::new(vec3(0, 0, -6 * SCALE), fxr(SCALE / 2), gray()),
        Sphere::new(vec3(0, 0, -2 * SCALE), fxr(SCALE / 2), gray()),
        Sphere::new(vec3(0, 0, -4 * SCALE), fxr(SCALE / 2), gray()),
        Sphere::new(vec3(9 * SCALE, 0, 0), fxr(SCALE / 2), gray()),
    ];
    let tmin = fxr(66);
    let tmax = fxr(MAX_RAW);
    let mut best: Option<raytracer::hit::HitRecord> = None;
    for s in spheres.iter() {
        if let Some(h) = s.hit(ray, tmin, tmax) {
            best = match best {
                Some(b) if b.t.raw <= h.t.raw => Some(b),
                _ => Some(h),
            };
        }
    }
    let world = World::new(spheres);
    let agg = world.hit(ray, tmin, tmax);
    let b = best.expect("some sphere hits");
    let a = agg.expect("world reports a hit");
    assert_eq!(a.t.raw, b.t.raw);
    assert_eq!(a.p, b.p);
    assert_eq!(a.normal, b.normal);
}

/// An empty scene reports nothing whatever the window.
#[test]
fn empty_world_misses() {
    let ray = Ray::new(vec3(0, 0, 0), vec3(0, 0, -SCALE));
    let world = World::new(Vec::new());
    assert!(world.hit(ray, fxr(66), fxr(MAX_RAW)).is_none());
}
