//! The camera: an orthonormal view basis, a focus-plane viewport, and
//! depth-of-field ray generation from a sampled lens disk.
//!
//! The half-angle tangent comes from fixed-point Taylor polynomials of sine
//! and cosine; the cosine is floored at one raw unit so the quotient is total
//! (for any reasonable field of view the floor never engages).

use vstd::prelude::*;
use crate::fixed::{
    fx_ok, fx_add, fx_sub, fx_mul, fx_div, spec_fx_add, spec_fx_sub, spec_fx_mul, spec_fx_div,
    SCALE,
};
use crate::vec3::{
    Vec3, vec_ok, spec_v_add, spec_v_sub, spec_v_scale, spec_v_cross, spec_v_unit,
    spec_v_near_zero,
};
use crate::ray::Ray;
use crate::rng::Rng;
use crate::utils::{Utils, spec_deg2rad, spec_rand_disk, SPHERE_TRIES};

verus! {

/// Two, scaled.
pub const FX_TWO: i64 = 2 * SCALE;

/// The factorial divisors of the Taylor terms, scaled.
pub const FX_SIX: i64 = 6 * SCALE;

pub const FX_24: i64 = 24 * SCALE;

pub const FX_120: i64 = 120 * SCALE;

pub const FX_720: i64 = 720 * SCALE;

pub const FX_5040: i64 = 5040 * SCALE;

/// Taylor sine, four terms: `x - x^3/6 + x^5/120 - x^7/5040`.
pub open spec fn spec_sin(x: i64) -> i64 {
    let x2 = spec_fx_mul(x, x);
    let x3 = spec_fx_mul(x2, x);
    let x5 = spec_fx_mul(x3, x2);
    let x7 = spec_fx_mul(x5, x2);
    spec_fx_sub(
        spec_fx_add(spec_fx_sub(x, spec_fx_div(x3, FX_SIX)), spec_fx_div(x5, FX_120)),
        spec_fx_div(x7, FX_5040),
    )
}

/// Taylor cosine, four terms: `1 - x^2/2 + x^4/24 - x^6/720`.
pub open spec fn spec_cos(x: i64) -> i64 {
    let x2 = spec_fx_mul(x, x);
    let x4 = spec_fx_mul(x2, x2);
    let x6 = spec_fx_mul(x4, x2);
    spec_fx_sub(
        spec_fx_add(spec_fx_sub(SCALE, spec_fx_div(x2, FX_TWO)), spec_fx_div(x4, FX_24)),
        spec_fx_div(x6, FX_720),
    )
}

/// `sin x / cos x`, with the cosine floored at one raw unit.
pub open spec fn spec_tan(x: i64) -> i64 {
    let c = spec_cos(x);
    spec_fx_div(spec_sin(x), if c < 1 { 1i64 } else { c })
}

#[derive(Debug, Clone, Copy, PartialEq, Eq, Structural)]
pub struct Camera {
    pub origin: Vec3,
    pub horizontal: Vec3,
    pub vertical: Vec3,
    pub lower_left_corner: Vec3,
    pub u: Vec3,
    pub v: Vec3,
    pub lens_radius: i64,
}

pub open spec fn camera_ok(c: Camera) -> bool {
    vec_ok(c.origin) && vec_ok(c.horizontal) && vec_ok(c.vertical) && vec_ok(c.lower_left_corner)
        && vec_ok(c.u) && vec_ok(c.v) && fx_ok(c.lens_radius)
}

/// The camera derived from a view configuration; the mirror of `camera`.
pub open spec fn spec_camera(
    lookfrom: Vec3,
    lookat: Vec3,
    vup: Vec3,
    vfov: i64,
    aspect_ratio: i64,
    aperture: i64,
    focus_dist: i64,
) -> Camera {
    let theta = spec_deg2rad(vfov);
    let viewport_height_half = spec_tan(spec_fx_div(theta, FX_TWO));
    let viewport_width_half = spec_fx_mul(aspect_ratio, viewport_height_half);
    let temp_w = spec_v_unit(spec_v_sub(lookfrom, lookat));
    let temp_u = spec_v_unit(spec_v_cross(vup, temp_w));
    let temp_v = spec_v_cross(temp_w, temp_u);
    let hori = spec_v_scale(temp_u, spec_fx_mul(focus_dist, viewport_width_half));
    let vert = spec_v_scale(temp_v, spec_fx_mul(focus_dist, viewport_height_half));
    Camera {
        origin: lookfrom,
        horizontal: spec_v_scale(hori, FX_TWO),
        vertical: spec_v_scale(vert, FX_TWO),
        lower_left_corner: spec_v_sub(
            spec_v_sub(spec_v_sub(lookfrom, hori), vert),
            spec_v_scale(temp_w, focus_dist),
        ),
        u: temp_u,
        v: temp_v,
        lens_radius: spec_fx_div(aperture, FX_TWO),
    }
}

/// The ray of one sample: plane coordinates `(s, t)` in `[0, 1]`, the origin
/// offset by a random lens point, aimed at the focus plane.
pub open spec fn spec_get_ray(cam: Camera, s: i64, t: i64, state: u64) -> (Ray, u64) {
    let (rd_sample, s1) = spec_rand_disk(state, SPHERE_TRIES as nat);
    let rd = spec_v_scale(rd_sample, cam.lens_radius);
    let offset = spec_v_add(spec_v_scale(cam.u, rd.x), spec_v_scale(cam.v, rd.y));
    let origin = spec_v_add(cam.origin, offset);
    let direction = spec_v_sub(
        spec_v_sub(
            spec_v_add(
                spec_v_add(cam.lower_left_corner, spec_v_scale(cam.horizontal, s)),
                spec_v_scale(cam.vertical, t),
            ),
            cam.origin,
        ),
        offset,
    );
    (Ray { origin, direction }, s1)
}

/// Taylor sine; see `spec_sin`.
fn sin_approx(x: i64) -> (r: i64)
    requires
        fx_ok(x),
    ensures
        r == spec_sin(x),
        fx_ok(r),
{
    let x2 = fx_mul(x, x);
    let x3 = fx_mul(x2, x);
    let x5 = fx_mul(x3, x2);
    let x7 = fx_mul(x5, x2);
    fx_sub(fx_add(fx_sub(x, fx_div(x3, FX_SIX)), fx_div(x5, FX_120)), fx_div(x7, FX_5040))
}

/// Taylor cosine; see `spec_cos`.
fn cos_approx(x: i64) -> (r: i64)
    requires
        fx_ok(x),
    ensures
        r == spec_cos(x),
        fx_ok(r),
{
    let x2 = fx_mul(x, x);
    let x4 = fx_mul(x2, x2);
    let x6 = fx_mul(x4, x2);
    fx_sub(fx_add(fx_sub(SCALE, fx_div(x2, FX_TWO)), fx_div(x4, FX_24)), fx_div(x6, FX_720))
}

/// The tangent; see `spec_tan`.
fn tan_approx(x: i64) -> (r: i64)
    requires
        fx_ok(x),
    ensures
        r == spec_tan(x),
        fx_ok(r),
{
    let s = sin_approx(x);
    let c = cos_approx(x);
    let c_floored = if c < 1 {
        1
    } else {
        c
    };
    fx_div(s, c_floored)
}

impl Camera {
    /// A camera from its view configuration.  The eye must not coincide with
    /// the target, and the up vector must not be parallel to the view axis.
    pub fn camera(
        lookfrom: Vec3,
        lookat: Vec3,
        vup: Vec3,
        vfov: i64,
        aspect_ratio: i64,
        aperture: i64,
        focus_dist: i64,
    ) -> (result: Camera)
        requires
            vec_ok(lookfrom),
            vec_ok(lookat),
            vec_ok(vup),
            fx_ok(vfov),
            fx_ok(aspect_ratio),
            fx_ok(aperture),
            fx_ok(focus_dist),
            !spec_v_near_zero(spec_v_sub(lookfrom, lookat)),
            !spec_v_near_zero(spec_v_cross(vup, spec_v_unit(spec_v_sub(lookfrom, lookat)))),
        ensures
            result == spec_camera(lookfrom, lookat, vup, vfov, aspect_ratio, aperture, focus_dist),
            camera_ok(result),
    {
        let theta = Utils::degree_to_radians(vfov);
        let viewport_height_half = tan_approx(fx_div(theta, FX_TWO));
        let viewport_width_half = fx_mul(aspect_ratio, viewport_height_half);

        let temp_w = Utils::unit_vector(&lookfrom.sub(lookat));
        let temp_u = Utils::unit_vector(&Utils::cross(&vup, &temp_w));
        let temp_v = Utils::cross(&temp_w, &temp_u);

        let hori = temp_u.scale(fx_mul(focus_dist, viewport_width_half));
        let vert = temp_v.scale(fx_mul(focus_dist, viewport_height_half));

        Camera {
            origin: lookfrom,
            horizontal: hori.scale(FX_TWO),
            vertical: vert.scale(FX_TWO),
            lower_left_corner: lookfrom.sub(hori).sub(vert).sub(temp_w.scale(focus_dist)),
            u: temp_u,
            v: temp_v,
            lens_radius: fx_div(aperture, FX_TWO),
        }
    }

    /// The ray of one sample; see `spec_get_ray`.
    pub fn get_ray(&self, s: i64, t: i64, rng: &mut Rng) -> (r: Ray)
        requires
            camera_ok(*self),
            fx_ok(s),
            fx_ok(t),
        ensures
            (r, final(rng).state) == spec_get_ray(*self, s, t, old(rng).state),
            crate::ray::ray_ok(r),
    {
        let rd_sample = Utils::random_in_unit_disk(rng);
        let rd = rd_sample.scale(self.lens_radius);
        let offset = self.u.scale(rd.x()).add(self.v.scale(rd.y()));

        Ray {
            origin: self.origin.add(offset),
            direction: self.lower_left_corner.add(self.horizontal.scale(s)).add(
                self.vertical.scale(t),
            ).sub(self.origin).sub(offset),
        }
    }
}

} // verus!
