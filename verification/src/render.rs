//! The path-tracing driver: the recursive radiance estimator, the per-pixel
//! sampling loop, and the full raster render.
//!
//! The raster is row-major, top row first (the top row is the one whose
//! vertical plane coordinate is largest).  Every function here is specified
//! exactly as a function of the scene, the camera, and the generator state,
//! which is what makes a seeded render reproducible bit for bit.

use vstd::prelude::*;
use crate::fixed::{fx_ok, fx_add, fx_sub, fx_mul, fx_div, spec_fx_add, spec_fx_sub, spec_fx_mul,
    spec_fx_div, SCALE, FX_MAX,
};
use crate::vec3::{Vec3, vec_ok, spec_v_add, spec_v_mul, spec_v_scale, spec_v_unit,
    spec_v_near_zero,
};
use crate::ray::{Ray, ray_ok};
use crate::hittable::Hittable;
use crate::hittable_list::{HittableList, list_ok, spec_list_hit};
use crate::material::spec_scatter;
use crate::camera::{Camera, camera_ok, spec_get_ray};
use crate::rng::{Rng, spec_rng_next, spec_rng_unit};
use crate::utils::{Utils, spec_write_color};

verus! {

/// The least accepted ray parameter of a bounce: a small positive epsilon
/// (about 0.001) that excludes the surface point itself, avoiding shadow
/// acne from self-intersection.
pub const T_MIN_BOUNCE: i64 = 66;

/// One half, scaled.
pub const FX_HALF: i64 = 32768;

/// The sky color the background gradient blends toward.
pub open spec fn spec_sky() -> Vec3 {
    Vec3 { x: 32768i64, y: 45875i64, z: 65536i64 }
}

/// The background gradient: blend white into sky blue by the vertical
/// component of the unit direction.
pub open spec fn spec_background(r: Ray) -> Vec3 {
    let unit_direction = spec_v_unit(r.direction);
    let t = spec_fx_mul(FX_HALF, spec_fx_add(unit_direction.y, SCALE));
    spec_v_add(
        spec_v_scale(Vec3 { x: SCALE, y: SCALE, z: SCALE }, spec_fx_sub(SCALE, t)),
        spec_v_scale(spec_sky(), t),
    )
}

/// The radiance estimate of one ray: black once the bounce budget is spent or
/// the ray is degenerate; the background on a miss; on a hit, the scattered
/// estimate tinted by the attenuation, or black if the ray was absorbed.
pub open spec fn spec_ray_color(r: Ray, objs: Seq<Hittable>, depth: u32, s: u64) -> (Vec3, u64)
    decreases depth,
{
    if depth == 0 {
        (Vec3 { x: 0i64, y: 0i64, z: 0i64 }, s)
    } else if spec_v_near_zero(r.direction) {
        (Vec3 { x: 0i64, y: 0i64, z: 0i64 }, s)
    } else {
        match spec_list_hit(objs, r, T_MIN_BOUNCE, FX_MAX) {
            Some(rec) => {
                let (sc, s1) = spec_scatter(rec.material, r, rec, s);
                match sc {
                    Some(pair) => {
                        let (c, s2) = spec_ray_color(pair.1, objs, (depth - 1) as u32, s1);
                        (spec_v_mul(pair.0, c), s2)
                    },
                    None => (Vec3 { x: 0i64, y: 0i64, z: 0i64 }, s1),
                }
            },
            None => (spec_background(r), s),
        }
    }
}

/// The accumulated radiance of `togo` more jittered samples of pixel
/// `(i, j)`, starting from `acc`.
pub open spec fn spec_sample_sum(
    cam: Camera,
    objs: Seq<Hittable>,
    i: u32,
    j: u32,
    width: u32,
    height: u32,
    max_depth: u32,
    togo: nat,
    acc: Vec3,
    s: u64,
) -> (Vec3, u64)
    decreases togo,
{
    if togo == 0 {
        (acc, s)
    } else {
        let u = spec_fx_div(
            spec_fx_add(spec_fx_of_u32(i), spec_rng_unit(s)),
            spec_fx_of_u32(width),
        );
        let s1 = spec_rng_next(s);
        let v = spec_fx_div(
            spec_fx_add(spec_fx_of_u32(j), spec_rng_unit(s1)),
            spec_fx_of_u32(height),
        );
        let s2 = spec_rng_next(s1);
        let (ray, s3) = spec_get_ray(cam, u, v, s2);
        let (col, s4) = spec_ray_color(ray, objs, max_depth, s3);
        spec_sample_sum(
            cam,
            objs,
            i,
            j,
            width,
            height,
            max_depth,
            (togo - 1) as nat,
            spec_v_add(acc, col),
            s4,
        )
    }
}

/// A whole-number pixel coordinate as a scalar.
pub open spec fn spec_fx_of_u32(x: u32) -> i64 {
    (x * 65536) as i64
}

/// The resolved pixels of row `j` from column `i` rightward.
pub open spec fn spec_row(
    cam: Camera,
    objs: Seq<Hittable>,
    j: u32,
    width: u32,
    height: u32,
    spp: u32,
    max_depth: u32,
    i: int,
    s: u64,
) -> (Seq<(u32, u32, u32)>, u64)
    decreases width - i,
{
    if i < 0 || i >= width {
        (Seq::empty(), s)
    } else {
        let (sum, s1) = spec_sample_sum(
            cam,
            objs,
            i as u32,
            j,
            width,
            height,
            max_depth,
            spp as nat,
            Vec3 { x: 0i64, y: 0i64, z: 0i64 },
            s,
        );
        let px = spec_write_color(sum, spp);
        let (rest, s2) = spec_row(cam, objs, j, width, height, spp, max_depth, i + 1, s1);
        (Seq::empty().push(px) + rest, s2)
    }
}

/// The resolved pixels of the `rows_left` rows from the top: row
/// `rows_left - 1` first, down to row zero.
pub open spec fn spec_render_from(
    cam: Camera,
    objs: Seq<Hittable>,
    width: u32,
    height: u32,
    spp: u32,
    max_depth: u32,
    rows_left: int,
    s: u64,
) -> (Seq<(u32, u32, u32)>, u64)
    decreases rows_left,
{
    if rows_left <= 0 {
        (Seq::empty(), s)
    } else {
        let (row, s1) = spec_row(
            cam,
            objs,
            (rows_left - 1) as u32,
            width,
            height,
            spp,
            max_depth,
            0,
            s,
        );
        let (rest, s2) = spec_render_from(
            cam,
            objs,
            width,
            height,
            spp,
            max_depth,
            rows_left - 1,
            s1,
        );
        (row + rest, s2)
    }
}

/// The whole raster, row-major, top row first.
pub open spec fn spec_render(
    cam: Camera,
    objs: Seq<Hittable>,
    width: u32,
    height: u32,
    spp: u32,
    max_depth: u32,
    s: u64,
) -> (Seq<(u32, u32, u32)>, u64) {
    spec_render_from(cam, objs, width, height, spp, max_depth, height as int, s)
}

/// A whole-number pixel coordinate as a scalar.
pub fn fx_of_u32(x: u32) -> (r: i64)
    ensures
        r == spec_fx_of_u32(x),
        fx_ok(r),
        r >= 0,
{
    (x as i64) * SCALE
}

/// The radiance estimate of one ray; see `spec_ray_color`.
pub fn ray_color(r: &Ray, world: &HittableList, depth: u32, rng: &mut Rng) -> (result: Vec3)
    requires
        list_ok(*world),
        ray_ok(*r),
    ensures
        (result, final(rng).state) == spec_ray_color(*r, world.objects@, depth, old(rng).state),
        vec_ok(result),
    decreases depth,
{
    if depth == 0 {
        return Vec3::zero();
    }
    if r.direction().near_zero() {
        return Vec3::zero();
    }

    // Object intersection
    match world.hit(r, T_MIN_BOUNCE, Utils::infinity()) {
        Some(rec) => {
            match rec.material.scatter(r, &rec, rng) {
                Some(pair) => {
                    let (attenuation, scattered) = pair;
                    let c = ray_color(&scattered, world, depth - 1, rng);
                    attenuation.mul(c)
                },
                None => Vec3::zero(),
            }
        },
        None => {
            // Environment
            let unit_direction = Utils::unit_vector(&r.direction());
            let t = fx_mul(FX_HALF, fx_add(unit_direction.y(), SCALE));
            Vec3::one().scale(fx_sub(SCALE, t)).add(Vec3::new(32768, 45875, 65536).scale(t))
        },
    }
}

/// The accumulated radiance of `samples_per_pixel` jittered samples of pixel
/// `(i, j)`; see `spec_sample_sum`.
pub fn sample_pixel(
    cam: &Camera,
    world: &HittableList,
    i: u32,
    j: u32,
    width: u32,
    height: u32,
    samples_per_pixel: u32,
    max_depth: u32,
    rng: &mut Rng,
) -> (result: Vec3)
    requires
        camera_ok(*cam),
        list_ok(*world),
        width >= 1,
        height >= 1,
    ensures
        (result, final(rng).state) == spec_sample_sum(
            *cam,
            world.objects@,
            i,
            j,
            width,
            height,
            max_depth,
            samples_per_pixel as nat,
            Vec3 { x: 0i64, y: 0i64, z: 0i64 },
            old(rng).state,
        ),
        vec_ok(result),
{
    let mut pixel_color = Vec3::zero();
    let mut s: u32 = 0;
    while s < samples_per_pixel
        invariant
            camera_ok(*cam),
            list_ok(*world),
            width >= 1,
            height >= 1,
            s <= samples_per_pixel,
            vec_ok(pixel_color),
            spec_sample_sum(
                *cam,
                world.objects@,
                i,
                j,
                width,
                height,
                max_depth,
                samples_per_pixel as nat,
                Vec3 { x: 0i64, y: 0i64, z: 0i64 },
                old(rng).state,
            ) == spec_sample_sum(
                *cam,
                world.objects@,
                i,
                j,
                width,
                height,
                max_depth,
                (samples_per_pixel - s) as nat,
                pixel_color,
                rng.state,
            ),
        decreases samples_per_pixel - s,
    {
        let du = Utils::random_double(rng);
        let u = fx_div(fx_add(fx_of_u32(i), du), fx_of_u32(width));
        let dv = Utils::random_double(rng);
        let v = fx_div(fx_add(fx_of_u32(j), dv), fx_of_u32(height));
        let r = cam.get_ray(u, v, rng);
        let c = ray_color(&r, world, max_depth, rng);
        pixel_color = pixel_color.add(c);
        s = s + 1;
    }
    pixel_color
}

/// A row holds one pixel per remaining column.
proof fn lemma_row_len(
    cam: Camera,
    objs: Seq<Hittable>,
    j: u32,
    width: u32,
    height: u32,
    spp: u32,
    max_depth: u32,
    i: int,
    s: u64,
)
    requires
        0 <= i <= width,
    ensures
        spec_row(cam, objs, j, width, height, spp, max_depth, i, s).0.len() == width - i,
    decreases width - i,
{
    if i < width {
        let (sum, s1) = spec_sample_sum(
            cam,
            objs,
            i as u32,
            j,
            width,
            height,
            max_depth,
            spp as nat,
            Vec3 { x: 0i64, y: 0i64, z: 0i64 },
            s,
        );
        lemma_row_len(cam, objs, j, width, height, spp, max_depth, i + 1, s1);
    }
}

/// The raster holds one row of pixels per remaining row.
proof fn lemma_render_len(
    cam: Camera,
    objs: Seq<Hittable>,
    width: u32,
    height: u32,
    spp: u32,
    max_depth: u32,
    rows_left: int,
    s: u64,
)
    requires
        0 <= rows_left,
    ensures
        spec_render_from(cam, objs, width, height, spp, max_depth, rows_left, s).0.len()
            == rows_left * width,
    decreases rows_left,
{
    if rows_left <= 0 {
        assert(0int * width == 0) by (nonlinear_arith);
    } else {
        let (row, s1) = spec_row(
            cam,
            objs,
            (rows_left - 1) as u32,
            width,
            height,
            spp,
            max_depth,
            0,
            s,
        );
        lemma_row_len(cam, objs, (rows_left - 1) as u32, width, height, spp, max_depth, 0, s);
        lemma_render_len(cam, objs, width, height, spp, max_depth, rows_left - 1, s1);
        assert((rows_left - 1) * width + width == rows_left * width) by (nonlinear_arith);
    }
}

/// The pixels of row `j` from column `i` rightward; see `spec_row`.
fn render_row(
    cam: &Camera,
    world: &HittableList,
    j: u32,
    width: u32,
    height: u32,
    samples_per_pixel: u32,
    max_depth: u32,
    i: u32,
    rng: &mut Rng,
) -> (result: Vec<(u32, u32, u32)>)
    requires
        camera_ok(*cam),
        list_ok(*world),
        width >= 1,
        height >= 1,
        samples_per_pixel >= 1,
    ensures
        (result@, final(rng).state) == spec_row(
            *cam,
            world.objects@,
            j,
            width,
            height,
            samples_per_pixel,
            max_depth,
            i as int,
            old(rng).state,
        ),
    decreases width - i,
{
    if i >= width {
        Vec::new()
    } else {
        let sum = sample_pixel(cam, world, i, j, width, height, samples_per_pixel, max_depth, rng);
        let px = Utils::write_color(&sum, samples_per_pixel);
        let mut rest = render_row(
            cam,
            world,
            j,
            width,
            height,
            samples_per_pixel,
            max_depth,
            i + 1,
            rng,
        );
        let mut out: Vec<(u32, u32, u32)> = Vec::new();
        out.push(px);
        out.append(&mut rest);
        out
    }
}

/// The `rows_left` rows from the top downward; see `spec_render_from`.
fn render_rows(
    cam: &Camera,
    world: &HittableList,
    width: u32,
    height: u32,
    samples_per_pixel: u32,
    max_depth: u32,
    rows_left: u32,
    rng: &mut Rng,
) -> (result: Vec<(u32, u32, u32)>)
    requires
        camera_ok(*cam),
        list_ok(*world),
        width >= 1,
        height >= 1,
        samples_per_pixel >= 1,
    ensures
        (result@, final(rng).state) == spec_render_from(
            *cam,
            world.objects@,
            width,
            height,
            samples_per_pixel,
            max_depth,
            rows_left as int,
            old(rng).state,
        ),
    decreases rows_left,
{
    if rows_left == 0 {
        Vec::new()
    } else {
        let mut row = render_row(
            cam,
            world,
            rows_left - 1,
            width,
            height,
            samples_per_pixel,
            max_depth,
            0,
            rng,
        );
        let mut rest = render_rows(
            cam,
            world,
            width,
            height,
            samples_per_pixel,
            max_depth,
            rows_left - 1,
            rng,
        );
        row.append(&mut rest);
        row
    }
}

/// Render the whole raster: rows from the top (largest `j`) down, columns
/// left to right, one resolved `[0, 255]` triple per pixel; see `spec_render`.
pub fn render(
    cam: &Camera,
    world: &HittableList,
    width: u32,
    height: u32,
    samples_per_pixel: u32,
    max_depth: u32,
    rng: &mut Rng,
) -> (result: Vec<(u32, u32, u32)>)
    requires
        camera_ok(*cam),
        list_ok(*world),
        width >= 1,
        height >= 1,
        samples_per_pixel >= 1,
    ensures
        (result@, final(rng).state) == spec_render(
            *cam,
            world.objects@,
            width,
            height,
            samples_per_pixel,
            max_depth,
            old(rng).state,
        ),
        result@.len() == (height as int) * (width as int),
{
    proof {
        lemma_render_len(
            *cam,
            world.objects@,
            width,
            height,
            samples_per_pixel,
            max_depth,
            height as int,
            old(rng).state,
        );
    }
    render_rows(cam, world, width, height, samples_per_pixel, max_depth, height, rng)
}

/// With the recursion budget spent, the estimator is black, whatever the
/// scene holds and whatever the generator state is.
pub proof fn lemma_ray_color_depth_zero(r: Ray, objs: Seq<Hittable>, s: u64)
    ensures
        spec_ray_color(r, objs, 0, s) == (Vec3 { x: 0i64, y: 0i64, z: 0i64 }, s),
{
}

/// A ray that hits no primitive yields exactly the background gradient of
/// its direction; the generator state is untouched, so no recursion and no
/// scattering took place.
pub proof fn lemma_ray_color_miss(r: Ray, objs: Seq<Hittable>, depth: u32, s: u64)
    requires
        depth > 0,
        !spec_v_near_zero(r.direction),
        spec_list_hit(objs, r, T_MIN_BOUNCE, FX_MAX) is None,
    ensures
        spec_ray_color(r, objs, depth, s) == (spec_background(r), s),
{
}

} // verus!
