//! The radiance estimator and the per-pixel multi-sample driver.
//!
//! A ray is traced against the scene in the window from just above zero
//! to the largest representable parameter; on a hit the material
//! scatters it and the estimator recurses until the depth bound, a
//! failed scatter or a degenerate scattered direction absorbs the path;
//! on a miss the sky gradient ends it. The per-pixel driver averages
//! jittered samples, applies gamma-two correction and packs the channels
//! into one 32-bit word per pixel.

use vstd::prelude::*;

use crate::camera::Camera;
use crate::camera::spec_get_ray;
use crate::fx::Fx;
use crate::fx::MAX_RAW;
use crate::fx::SCALE;
use crate::fx::clamp_raw;
use crate::fx::div_raw;
use crate::fx::mul_raw;
use crate::fx::sqrt_raw;
use crate::material::spec_scatter;
use crate::prng::Prng;
use crate::prng::spec_next_state;
use crate::prng::spec_output;
use crate::prng::spec_unit_raw;
use crate::ray::Ray;
use crate::sphere::Sphere;
use crate::vector::Vector;
use crate::vector::spec_add;
use crate::vector::spec_div_s;
use crate::vector::spec_length;
use crate::vector::spec_mul;
use crate::vector::spec_scale;
use crate::vector::spec_unit;
use crate::world::World;
use crate::world::spec_world_hit;

verus! {

/// Lower end of the hit window: just above zero, to keep a scattered ray
/// from hitting its own origin (shadow acne). About one thousandth.
pub const T_MIN_RAW: i64 = 66;

/// Raw value of one half.
pub const HALF_RAW: i64 = 32768;

/// Raw value of the 0.7 blue-channel coefficient of the sky gradient.
pub const SKY_BLUE_RAW: i64 = 45875;

/// Raw value of the byte-scaling factor, 255.99.
pub const BYTE_SCALE_RAW: i64 = 16776560;

/// Model of the sky gradient: a vertical blend from white to light blue.
pub open spec fn spec_sky(ray: Ray) -> Vector {
    let ud = spec_unit(ray.direction);
    let t = Fx {
        raw: mul_raw(
            HALF_RAW as int,
            crate::fx::add_raw(ud.y.raw as int, SCALE as int),
        ) as i64,
    };
    spec_add(
        spec_scale(Vector::spec_ones(), Fx { raw: crate::fx::sub_raw(SCALE as int, t.raw as int) as i64 }),
        spec_scale(
            Vector { x: Fx { raw: HALF_RAW }, y: Fx { raw: SKY_BLUE_RAW }, z: Fx { raw: SCALE } },
            t,
        ),
    )
}

/// Model of the radiance estimate: attenuations multiply along the path
/// until a miss ends it with the sky, or absorption or the depth bound
/// ends it with black.
#[verifier::opaque]
pub open spec fn spec_color(
    ray: Ray,
    shapes: Seq<Sphere>,
    depth: int,
    max_depth: int,
    s: u64,
) -> (Vector, u64)
    decreases max_depth - depth,
{
    match spec_world_hit(shapes, ray, Fx { raw: T_MIN_RAW }, Fx { raw: MAX_RAW }) {
        Some(h) => {
            let sc = spec_scatter(h.material, ray, h, s);
            match sc.0 {
                Some(scat) => {
                    if depth < max_depth && spec_length(scat.scattered.direction).raw != 0 {
                        let rec = spec_color(scat.scattered, shapes, depth + 1, max_depth, sc.1);
                        (spec_mul(scat.attenuation, rec.0), rec.1)
                    } else {
                        (Vector::spec_zeros(), sc.1)
                    }
                },
                None => (Vector::spec_zeros(), sc.1),
            }
        },
        None => (spec_sky(ray), s),
    }
}

/// The sky gradient of a ray with a nondegenerate direction.
pub fn sky(ray: Ray) -> (r: Vector)
    requires
        ray.wf(),
        spec_length(ray.direction).raw != 0,
    ensures
        r == spec_sky(ray),
        r.wf(),
{
    let ud = ray.direction.unit();
    let half = Fx { raw: HALF_RAW };
    let t = half.mul(ud.y.add(Fx::one()));
    Vector::ones().scale(Fx::one().sub(t)).add(
        Vector::new(half, Fx { raw: SKY_BLUE_RAW }, Fx::one()).scale(t),
    )
}

/// Estimates the radiance carried back along a ray.
pub fn color(ray: Ray, world: &World, depth: usize, max_depth: usize, rng: &mut Prng) -> (r: Vector)
    requires
        ray.wf(),
        world.wf(),
        spec_length(ray.direction).raw != 0,
        depth <= max_depth,
    ensures
        r == spec_color(ray, world.components@, depth as int, max_depth as int, old(rng).state).0,
        final(rng).state == spec_color(
            ray,
            world.components@,
            depth as int,
            max_depth as int,
            old(rng).state,
        ).1,
        r.wf(),
    decreases max_depth - depth,
{
    proof {
        reveal(spec_color);
    }
    match world.hit(ray, Fx { raw: T_MIN_RAW }, Fx { raw: MAX_RAW }) {
        Some(record) => {
            match record.material.scatter(ray, record, rng) {
                Some(scat) => {
                    if depth < max_depth {
                        let dlen = scat.scattered.direction.length();
                        if dlen.raw != 0 {
                            let rec = color(scat.scattered, world, depth + 1, max_depth, rng);
                            scat.attenuation.mul(rec)
                        } else {
                            Vector::zeros()
                        }
                    } else {
                        Vector::zeros()
                    }
                },
                None => Vector::zeros(),
            }
        },
        None => sky(ray),
    }
}

/// In an empty scene every ray misses: the estimate is exactly the sky
/// gradient, no material is consulted, no randomness is drawn, and the
/// path ends at its starting depth.
pub proof fn lemma_empty_scene_sky(ray: Ray, shapes: Seq<Sphere>, depth: int, max_depth: int, s: u64)
    requires
        shapes.len() == 0,
    ensures
        spec_color(ray, shapes, depth, max_depth, s) == (spec_sky(ray), s),
{
    reveal(spec_color);
    assert(spec_world_hit(shapes, ray, Fx { raw: T_MIN_RAW }, Fx { raw: MAX_RAW }) is None);
}

/// At the depth bound the estimator absorbs the path: when the scene
/// still reports a hit and the material still scatters, the result is
/// black, and the recursion goes no deeper (its termination is enforced
/// by the decreasing depth budget).
pub proof fn lemma_depth_bound_black(ray: Ray, shapes: Seq<Sphere>, max_depth: int, s: u64)
    requires
        spec_world_hit(shapes, ray, Fx { raw: T_MIN_RAW }, Fx { raw: MAX_RAW }) is Some,
    ensures
        spec_color(ray, shapes, max_depth, max_depth, s).0 == Vector::spec_zeros(),
{
    reveal(spec_color);
}

/// Model of the gamma-two byte mapping: the channel is clamped to
/// `[0, 1]`, square-rooted, scaled by 255.99 and floored. The explicit
/// clamp makes out-of-range radiance saturate instead of wrapping.
pub open spec fn spec_to_byte(c: Fx) -> int {
    let cl = if c.raw < 0 {
        0int
    } else if c.raw > SCALE {
        SCALE as int
    } else {
        c.raw as int
    };
    (sqrt_raw(cl) * (BYTE_SCALE_RAW as int)) / 0x1_0000_0000
}

/// Gamma-corrects one channel into a byte.
pub fn to_byte(c: Fx) -> (r: u8)
    requires
        c.wf(),
    ensures
        r as int == spec_to_byte(c),
{
    let cl: Fx = if c.raw < 0 {
        Fx { raw: 0 }
    } else if c.raw > SCALE {
        Fx { raw: SCALE }
    } else {
        c
    };
    let root = cl.sqrt();
    proof {
        assert((cl.raw as int) * (SCALE as int) <= 65536 * 65536) by (nonlinear_arith)
            requires
                0 <= cl.raw as int <= 65536,
                SCALE as int == 65536,
        ;
        assert((cl.raw as int) * (SCALE as int) >= 0) by (nonlinear_arith)
            requires
                cl.raw as int >= 0,
                SCALE as int >= 0,
        ;
        crate::fx::lemma_sqrt_floor_bounds((cl.raw as int) * (SCALE as int));
        assert(root.raw as int <= 65536) by (nonlinear_arith)
            requires
                (root.raw as int) * (root.raw as int) <= 65536 * 65536,
                root.raw as int >= 0,
        ;
        assert((root.raw as int) * (BYTE_SCALE_RAW as int) <= 65536 * 16776560) by (nonlinear_arith)
            requires
                0 <= root.raw as int <= 65536,
                BYTE_SCALE_RAW as int == 16776560,
        ;
        assert((root.raw as int) * (BYTE_SCALE_RAW as int) >= 0) by (nonlinear_arith)
            requires
                root.raw as int >= 0,
                BYTE_SCALE_RAW as int >= 0,
        ;
    }
    let wide: u64 = (root.raw as u64) * (BYTE_SCALE_RAW as u64);
    let b: u64 = wide / 4294967296;
    proof {
        vstd::arithmetic::div_mod::lemma_div_is_ordered(
            wide as int,
            (65536 * 16776560) as int,
            4294967296int,
        );
    }
    b as u8
}

/// Model of the pixel word: a zero top byte, then red, green and blue.
pub open spec fn spec_pack(r: u8, g: u8, b: u8) -> u32 {
    ((r as u32) << 16u32) | ((g as u32) << 8u32) | (b as u32)
}

/// Packs three channel bytes into one pixel word.
pub fn pack_color(r: u8, g: u8, b: u8) -> (w: u32)
    ensures
        w == spec_pack(r, g, b),
{
    ((r as u32) << 16) | ((g as u32) << 8) | (b as u32)
}

/// Maps a buffer index to image coordinates, flipping vertically so that
/// the first row of the buffer is the top of the frame.
pub fn pixel_to_coordinate(pixel: usize, width: usize, height: usize) -> (r: (usize, usize))
    requires
        width >= 1,
        height >= 1,
        pixel < width * height,
    ensures
        r.0 as int == (pixel as int) % (width as int),
        r.1 as int == height - 1 - (pixel as int) / (width as int),
        r.0 < width,
        r.1 < height,
{
    proof {
        vstd::arithmetic::div_mod::lemma_multiply_divide_lt(
            pixel as int,
            width as int,
            height as int,
        );
        vstd::arithmetic::div_mod::lemma_div_pos_is_pos(pixel as int, width as int);
    }
    (pixel % width, height - 1 - pixel / width)
}

/// The fixed-point value of a whole number, as the conversion builds it.
pub open spec fn spec_from_int(v: int) -> Fx {
    Fx { raw: clamp_raw(v * (SCALE as int)) as i64 }
}

/// Model of the jittered sample accumulation at one pixel: each sample
/// draws two jitters, asks the camera for a ray and adds the estimated
/// radiance; a degenerate camera ray contributes nothing.
#[verifier::opaque]
pub open spec fn spec_pixel_samples(
    cam: Camera,
    shapes: Seq<Sphere>,
    x: int,
    y: int,
    width: int,
    height: int,
    left: nat,
    max_depth: int,
    s: u64,
    acc: Vector,
) -> (Vector, u64)
    decreases left,
{
    if left == 0 {
        (acc, s)
    } else {
        let ju = spec_unit_raw(spec_output(s));
        let s1 = spec_next_state(s);
        let jv = spec_unit_raw(spec_output(s1));
        let s2 = spec_next_state(s1);
        let u = Fx {
            raw: div_raw(
                crate::fx::add_raw(spec_from_int(x).raw as int, ju),
                spec_from_int(width).raw as int,
            ) as i64,
        };
        let v = Fx {
            raw: div_raw(
                crate::fx::add_raw(spec_from_int(y).raw as int, jv),
                spec_from_int(height).raw as int,
            ) as i64,
        };
        let gr = spec_get_ray(cam, u, v, s2);
        if spec_length(gr.0.direction).raw != 0 {
            let col = spec_color(gr.0, shapes, 0, max_depth, gr.1);
            spec_pixel_samples(
                cam,
                shapes,
                x,
                y,
                width,
                height,
                (left - 1) as nat,
                max_depth,
                col.1,
                spec_add(acc, col.0),
            )
        } else {
            spec_pixel_samples(
                cam,
                shapes,
                x,
                y,
                width,
                height,
                (left - 1) as nat,
                max_depth,
                gr.1,
                acc,
            )
        }
    }
}

/// Model of one finished pixel: the sample average, gamma-corrected and
/// packed.
#[verifier::opaque]
pub open spec fn spec_render_pixel(
    cam: Camera,
    shapes: Seq<Sphere>,
    x: int,
    y: int,
    width: int,
    height: int,
    samples: nat,
    max_depth: int,
    s: u64,
) -> (u32, u64) {
    let ps = spec_pixel_samples(
        cam,
        shapes,
        x,
        y,
        width,
        height,
        samples,
        max_depth,
        s,
        Vector::spec_zeros(),
    );
    let avg = spec_div_s(ps.0, spec_from_int(samples as int));
    (
        spec_pack(
            spec_to_byte(avg.x) as u8,
            spec_to_byte(avg.y) as u8,
            spec_to_byte(avg.z) as u8,
        ),
        ps.1,
    )
}

/// Renders one pixel: `samples` jittered camera rays, averaged,
/// gamma-corrected and packed.
#[verifier::rlimit(100)]
pub fn render_pixel(
    camera: &Camera,
    world: &World,
    x: usize,
    y: usize,
    width: usize,
    height: usize,
    samples: usize,
    max_depth: usize,
    rng: &mut Prng,
) -> (r: u32)
    requires
        camera.wf(),
        world.wf(),
        1 <= width <= 16777216,
        1 <= height <= 16777216,
        1 <= samples <= 16777216,
        x < width,
        y < height,
    ensures
        r == spec_render_pixel(
            *camera,
            world.components@,
            x as int,
            y as int,
            width as int,
            height as int,
            samples as nat,
            max_depth as int,
            old(rng).state,
        ).0,
        final(rng).state == spec_render_pixel(
            *camera,
            world.components@,
            x as int,
            y as int,
            width as int,
            height as int,
            samples as nat,
            max_depth as int,
            old(rng).state,
        ).1,
{
    let mut acc = Vector::zeros();
    let mut left = samples;
    proof {
        reveal(spec_pixel_samples);
    }
    while left > 0
        invariant
            camera.wf(),
            world.wf(),
            1 <= width <= 16777216,
            1 <= height <= 16777216,
            x < width,
            y < height,
            left <= samples,
            acc.wf(),
            spec_pixel_samples(
                *camera,
                world.components@,
                x as int,
                y as int,
                width as int,
                height as int,
                samples as nat,
                max_depth as int,
                old(rng).state,
                Vector::spec_zeros(),
            ) == spec_pixel_samples(
                *camera,
                world.components@,
                x as int,
                y as int,
                width as int,
                height as int,
                left as nat,
                max_depth as int,
                rng.state,
                acc,
            ),
        decreases left,
    {
        let ghost s_iter = rng.state;
        let ghost acc_iter = acc;
        let ju = rng.next_unit();
        let jv = rng.next_unit();
        let xf = Fx::from_i64(x as i64);
        let yf = Fx::from_i64(y as i64);
        let wf = Fx::from_i64(width as i64);
        let hf = Fx::from_i64(height as i64);
        proof {
            assert(wf.raw as int == (width as int) * (SCALE as int) && wf.raw > 0)
                by (nonlinear_arith)
                requires
                    wf.raw as int == clamp_raw((width as int) * (SCALE as int)),
                    1 <= width as int <= 16777216,
                    SCALE as int == 65536,
                    MAX_RAW as int == 1099511627776,
            ;
            assert(hf.raw as int == (height as int) * (SCALE as int) && hf.raw > 0)
                by (nonlinear_arith)
                requires
                    hf.raw as int == clamp_raw((height as int) * (SCALE as int)),
                    1 <= height as int <= 16777216,
                    SCALE as int == 65536,
                    MAX_RAW as int == 1099511627776,
            ;
        }
        let u = xf.add(ju).div(wf);
        let v = yf.add(jv).div(hf);
        let ray = camera.get_ray(u, v, rng);
        let dlen = ray.direction.length();
        if dlen.raw != 0 {
            let c = color(ray, world, 0, max_depth, rng);
            acc = acc.add(c);
        }
        proof {
            reveal(spec_pixel_samples);
            assert(spec_pixel_samples(
                *camera,
                world.components@,
                x as int,
                y as int,
                width as int,
                height as int,
                left as nat,
                max_depth as int,
                s_iter,
                acc_iter,
            ) == spec_pixel_samples(
                *camera,
                world.components@,
                x as int,
                y as int,
                width as int,
                height as int,
                (left - 1) as nat,
                max_depth as int,
                rng.state,
                acc,
            ));
        }
        left = left - 1;
    }
    proof {
        reveal(spec_pixel_samples);
        reveal(spec_render_pixel);
        assert(acc == spec_pixel_samples(
            *camera,
            world.components@,
            x as int,
            y as int,
            width as int,
            height as int,
            samples as nat,
            max_depth as int,
            old(rng).state,
            Vector::spec_zeros(),
        ).0);
    }
    let sf = Fx::from_i64(samples as i64);
    proof {
        assert(sf.raw as int == (samples as int) * (SCALE as int) && sf.raw > 0)
            by (nonlinear_arith)
            requires
                sf.raw as int == clamp_raw((samples as int) * (SCALE as int)),
                1 <= samples as int <= 16777216,
                SCALE as int == 65536,
                MAX_RAW as int == 1099511627776,
        ;
    }
    let avg = acc.div_s(sf);
    let bx = to_byte(avg.x);
    let by = to_byte(avg.y);
    let bz = to_byte(avg.z);
    pack_color(bx, by, bz)
}

/// Model of the whole buffer from a given pixel index on.
#[verifier::opaque]
pub open spec fn spec_render_from(
    cam: Camera,
    shapes: Seq<Sphere>,
    width: int,
    height: int,
    samples: nat,
    max_depth: int,
    pixel: int,
    s: u64,
) -> (Seq<u32>, u64)
    decreases width * height - pixel,
{
    if pixel < 0 || pixel >= width * height {
        (Seq::empty(), s)
    } else {
        let x = pixel % width;
        let y = height - 1 - pixel / width;
        let pr = spec_render_pixel(cam, shapes, x, y, width, height, samples, max_depth, s);
        let rest = spec_render_from(
            cam,
            shapes,
            width,
            height,
            samples,
            max_depth,
            pixel + 1,
            pr.1,
        );
        (seq![pr.0] + rest.0, rest.1)
    }
}

/// Model of the whole render: the buffer is a function of the camera,
/// the scene, the resolution, the sample count, the depth bound and the
/// stream's seed, and of nothing else.
pub open spec fn spec_render(
    cam: Camera,
    shapes: Seq<Sphere>,
    width: int,
    height: int,
    samples: nat,
    max_depth: int,
    s: u64,
) -> (Seq<u32>, u64) {
    spec_render_from(cam, shapes, width, height, samples, max_depth, 0, s)
}

/// Renders the whole frame into a row-major buffer of packed pixel
/// words, top row first. Re-running with the same inputs and the same
/// seed reproduces the buffer exactly, as the result is pinned to a
/// function of them.
pub fn render(
    camera: &Camera,
    world: &World,
    width: usize,
    height: usize,
    samples: usize,
    max_depth: usize,
    rng: &mut Prng,
) -> (buf: Vec<u32>)
    requires
        camera.wf(),
        world.wf(),
        1 <= width <= 16777216,
        1 <= height <= 16777216,
        1 <= samples <= 16777216,
        width * height <= 0xFFFF_FFFF,
    ensures
        buf@ == spec_render(
            *camera,
            world.components@,
            width as int,
            height as int,
            samples as nat,
            max_depth as int,
            old(rng).state,
        ).0,
        final(rng).state == spec_render(
            *camera,
            world.components@,
            width as int,
            height as int,
            samples as nat,
            max_depth as int,
            old(rng).state,
        ).1,
        buf@.len() == width * height,
{
    let total = width * height;
    let mut buf: Vec<u32> = Vec::new();
    let mut p: usize = 0;
    while p < total
        invariant
            camera.wf(),
            world.wf(),
            1 <= width <= 16777216,
            1 <= height <= 16777216,
            1 <= samples <= 16777216,
            total == width * height,
            total <= 0xFFFF_FFFF,
            p <= total,
            buf@.len() == p,
            spec_render(
                *camera,
                world.components@,
                width as int,
                height as int,
                samples as nat,
                max_depth as int,
                old(rng).state,
            ) == (
            buf@ + spec_render_from(
                *camera,
                world.components@,
                width as int,
                height as int,
                samples as nat,
                max_depth as int,
                p as int,
                rng.state,
            ).0,
            spec_render_from(
                *camera,
                world.components@,
                width as int,
                height as int,
                samples as nat,
                max_depth as int,
                p as int,
                rng.state,
            ).1,
            ),
        decreases total - p,
    {
        let ghost s_iter = rng.state;
        let coords = pixel_to_coordinate(p, width, height);
        let w = render_pixel(
            camera,
            world,
            coords.0,
            coords.1,
            width,
            height,
            samples,
            max_depth,
            rng,
        );
        let ghost old_buf = buf@;
        buf.push(w);
        proof {
            reveal(spec_render_from);
            let rest = spec_render_from(
                *camera,
                world.components@,
                width as int,
                height as int,
                samples as nat,
                max_depth as int,
                p as int + 1,
                rng.state,
            );
            assert(spec_render_from(
                *camera,
                world.components@,
                width as int,
                height as int,
                samples as nat,
                max_depth as int,
                p as int,
                s_iter,
            ) == (seq![w] + rest.0, rest.1));
            assert(old_buf + (seq![w] + rest.0) =~= (old_buf + seq![w]) + rest.0);
            assert(buf@ =~= old_buf + seq![w]);
        }
        p = p + 1;
    }
    proof {
        reveal(spec_render_from);
        assert(spec_render_from(
            *camera,
            world.components@,
            width as int,
            height as int,
            samples as nat,
            max_depth as int,
            p as int,
            rng.state,
        ).0 =~= Seq::<u32>::empty());
        assert(buf@ + Seq::<u32>::empty() =~= buf@);
    }
    buf
}

} // verus!
