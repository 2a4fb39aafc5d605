use raytracer::camera::Camera;
use raytracer::fx::Fx;
use raytracer::fx::SCALE;
use raytracer::material::Material;
use raytracer::prng::Prng;
use raytracer::ray::Ray;
use raytracer::render::color;
use raytracer::render::pack_color;
use raytracer::render::pixel_to_coordinate;
use raytracer::render::render;
use raytracer::render::to_byte;
use raytracer::sphere::Sphere;
use raytracer::vector::Vector;
use raytracer::world::World;

fn fxr(raw: i64) -> Fx {
    Fx::from_raw(raw)
}

fn vec3(x: i64, y: i64, z: i64) -> Vector {
    Vector::new(fxr(x), fxr(y), fxr(z))
}

fn simple_camera() -> Camera {
    Camera::new(
        vec3(0, 0, 0),
        vec3(0, 0, -SCALE),
        vec3(0, SCALE, 0),
        Fx::one(),
        fxr(2 * SCALE),
        Fx::zero(),
        Fx::one(),
    )
    .expect("camera must build")
}

/// A ray through an empty scene yields exactly the sky gradient, at any
/// depth budget, and draws no randomness.
#[test]
fn empty_scene_is_sky() {
    let world = World::new(Vec::new());
    let ray = Ray::new(vec3(0, 0, 0), vec3(0, 0, -SCALE));
    let mut rng = Prng::new(77);
    let before = rng.state;
    let c = color(ray, &world, 0, 50, &mut rng);
    assert_eq!(rng.state, before, "a miss must not consume the stream");
    // Straight ahead: t = 1/2, so the blend is half white, half sky blue.
    assert_eq!(c, vec3(49152, 55705, SCALE));
}

/// A ray trapped between two facing mirrors ends at the depth bound and
/// comes back black.
#[test]
fn mirror_trap_terminates_black() {
    let albedo = vec3(58982, 58982, 58982);
    let world = World::new(vec![
        Sphere::new(vec3(0, 0, -4 * SCALE), fxr(SCALE), Material::metal(albedo, Fx::zero())),
        Sphere::new(vec3(0, 0, 4 * SCALE), fxr(SCALE), Material::metal(albedo, Fx::zero())),
    ]);
    let ray = Ray::new(vec3(0, 0, 0), vec3(0, 0, -SCALE));
    let mut rng = Prng::new(3);
    let c = color(ray, &world, 0, 50, &mut rng);
    assert_eq!(c, Vector::zeros());
}

/// A thin lens with zero aperture and unit focus is field-for-field the
/// pinhole camera, and their rays agree exactly for equal streams.
#[test]
fn zero_aperture_equals_pinhole() {
    let thin = Camera::new(
        vec3(3 * SCALE, 3 * SCALE, 2 * SCALE),
        vec3(0, 0, -SCALE),
        vec3(0, SCALE, 0),
        fxr(11547),
        fxr(2 * SCALE),
        Fx::zero(),
        Fx::one(),
    )
    .expect("thin lens must build");
    let pin = Camera::pinhole(
        vec3(3 * SCALE, 3 * SCALE, 2 * SCALE),
        vec3(0, 0, -SCALE),
        vec3(0, SCALE, 0),
        fxr(11547),
        fxr(2 * SCALE),
    )
    .expect("pinhole must build");
    assert_eq!(thin, pin);
    for seed in [0u64, 1, 42, 512] {
        let mut r1 = Prng::new(seed);
        let mut r2 = Prng::new(seed);
        let a = thin.get_ray(fxr(SCALE / 4), fxr(SCALE / 3), &mut r1);
        let b = pin.get_ray(fxr(SCALE / 4), fxr(SCALE / 3), &mut r2);
        assert_eq!(a, b);
    }
}

/// A degenerate view direction or up vector refuses construction.
#[test]
fn degenerate_camera_refused() {
    let p = vec3(SCALE, 2 * SCALE, 3 * SCALE);
    assert!(Camera::new(p, p, vec3(0, SCALE, 0), Fx::one(), Fx::one(), Fx::zero(), Fx::one())
        .is_none());
    let up_along_view = vec3(0, 0, SCALE);
    assert!(Camera::new(
        vec3(0, 0, SCALE),
        vec3(0, 0, 0),
        up_along_view,
        Fx::one(),
        Fx::one(),
        Fx::zero(),
        Fx::one(),
    )
    .is_none());
}

/// Rendering the same scene twice from the same seed reproduces the
/// buffer bit for bit; a different seed is allowed to differ.
#[test]
fn render_is_deterministic() {
    let camera = simple_camera();
    let world = World::new(vec![
        Sphere::new(
            vec3(0, 0, -SCALE),
            fxr(SCALE / 2),
            Material::lambertian(vec3(6554, 13107, 32768)),
        ),
        Sphere::new(
            vec3(0, -6619136, -SCALE),
            fxr(6553600),
            Material::lambertian(vec3(52429, 52429, 0)),
        ),
    ]);
    let mut r1 = Prng::new(2024);
    let mut r2 = Prng::new(2024);
    let a = render(&camera, &world, 8, 4, 2, 8, &mut r1);
    let b = render(&camera, &world, 8, 4, 2, 8, &mut r2);
    assert_eq!(a.len(), 32);
    assert_eq!(a, b);
    assert_eq!(r1.state, r2.state);
}

/// The whole frame of an empty scene is sky everywhere: no pixel is
/// black and every pixel word has a zero top byte.
#[test]
fn empty_scene_render_is_sky_colored() {
    let camera = simple_camera();
    let world = World::new(Vec::new());
    let mut rng = Prng::new(9);
    let buf = render(&camera, &world, 4, 2, 2, 8, &mut rng);
    assert_eq!(buf.len(), 8);
    for w in buf {
        assert_eq!(w >> 24, 0);
        assert_ne!(w, 0);
    }
}

/// The buffer index maps row-major with a vertical flip.
#[test]
fn pixel_coordinates_flip_vertically() {
    assert_eq!(pixel_to_coordinate(0, 4, 3), (0, 2));
    assert_eq!(pixel_to_coordinate(3, 4, 3), (3, 2));
    assert_eq!(pixel_to_coordinate(4, 4, 3), (0, 1));
    assert_eq!(pixel_to_coordinate(11, 4, 3), (3, 0));
}

/// Gamma correction: zero stays zero, one maps to 255, a quarter maps to
/// the byte below half of the scale, and out-of-range values saturate.
#[test]
fn byte_mapping() {
    assert_eq!(to_byte(Fx::zero()), 0);
    assert_eq!(to_byte(Fx::one()), 255);
    // sqrt(1/4) = 1/2, then 255.99 / 2 floors to 127.
    assert_eq!(to_byte(fxr(SCALE / 4)), 127);
    assert_eq!(to_byte(fxr(4 * SCALE)), 255);
    assert_eq!(to_byte(fxr(-SCALE)), 0);
}

/// Packing: a zero top byte, then red, green and blue.
#[test]
fn pixel_word_layout() {
    assert_eq!(pack_color(0x12, 0x34, 0x56), 0x0012_3456);
    assert_eq!(pack_color(255, 255, 255), 0x00FF_FFFF);
    assert_eq!(pack_color(0, 0, 0), 0);
}

/// The stream itself is reproducible and seed-sensitive.
#[test]
fn stream_reproducible() {
    let mut a = Prng::new(5);
    let mut b = Prng::new(5);
    let mut c = Prng::new(6);
    let xs: Vec<u64> = (0..8).map(|_| a.next_u64()).collect();
    let ys: Vec<u64> = (0..8).map(|_| b.next_u64()).collect();
    let zs: Vec<u64> = (0..8).map(|_| c.next_u64()).collect();
    assert_eq!(xs, ys);
    assert_ne!(xs, zs);
    for _ in 0..64 {
        let u = a.next_unit();
        assert!(0 <= u.raw && u.raw < SCALE);
    }
    let mut entropy = Prng::from_entropy();
    let u = entropy.next_unit();
    assert!(0 <= u.raw && u.raw < SCALE);
}
