//! Free-standing helpers: vector algebra forwarders, angle conversion, the
//! color resolution of a sampled pixel, and random sampling of directions.
//!
//! Every sampling helper takes the generator explicitly and is specified as a
//! pure function of the generator's state, so rendering stays reproducible.

use vstd::prelude::*;
use crate::fixed::{
    fx_ok, fx_add, fx_sub, fx_mul, fx_div, fx_sqrt, fx_mag, spec_fx_add, spec_fx_sub, spec_fx_mul,
    spec_fx_div, spec_tdiv, spec_fx_sqrt, spec_mag, lemma_div_le_self, SCALE, FX_MAX,
};
use crate::vec3::{
    Vec3, vec_ok, spec_v_len2, spec_v_len, spec_v_unit, spec_v_dot, spec_v_cross, spec_v_add,
    spec_v_near_zero, lemma_len_positive,
};
use crate::rng::{Rng, spec_rng_next, spec_rng_unit};

verus! {

/// Pi, scaled and truncated.
pub const FX_PI: i64 = 205887;

/// 180 degrees, scaled: the divisor of the degree-to-radian conversion.
pub const DEG_HALF_TURN: i64 = 180 * SCALE;

/// Minus one, scaled.
pub const FX_MINUS_ONE: i64 = -65536;

/// 0.999 scaled: a channel is capped here so the 8-bit value stays below 256.
pub const COLOR_CAP: i64 = 65470;

/// Rejection-sampling attempts before the samplers fall back to a fixed
/// interior point; with 16 fresh bits per component a failure of all attempts
/// is unreachable in practice.
pub const SPHERE_TRIES: u32 = 64;

/// The least accepted squared length of a ball sample (a quarter unit of
/// radius).  Shorter draws are rejected: they carry no more directional
/// information, and normalizing them would amplify rounding error.
pub const BALL_MIN_LEN2: i64 = 4096;

/// `x` forced into `[min, max]`.
pub open spec fn spec_clamp(x: i64, min: i64, max: i64) -> i64 {
    if x < min {
        min
    } else if x > max {
        max
    } else {
        x
    }
}

/// Degrees to radians: `d * pi / 180`.
pub open spec fn spec_deg2rad(d: i64) -> i64 {
    spec_fx_div(spec_fx_mul(d, FX_PI), DEG_HALF_TURN)
}

/// One channel of a finished pixel: average the accumulated sum over the
/// sample count, gamma-correct by square root, cap just below one, and take
/// the top eight bits.
pub open spec fn spec_channel(c: i64, spp: u32) -> u32 {
    let avg = spec_tdiv(c as int, spp as int);
    let g = if avg <= 0 {
        0i64
    } else {
        spec_fx_sqrt(avg as i64)
    };
    let capped = if g > COLOR_CAP {
        COLOR_CAP
    } else {
        g
    };
    ((capped as int) / 256) as u32
}

/// The full pixel: one resolved channel per component.
pub open spec fn spec_write_color(v: Vec3, spp: u32) -> (u32, u32, u32) {
    (spec_channel(v.x, spp), spec_channel(v.y, spp), spec_channel(v.z, spp))
}

/// A draw uniform over the representable values of `[min, min + (max - min))`.
pub open spec fn spec_rand_range(min: i64, max: i64, s: u64) -> i64 {
    spec_fx_add(min, spec_fx_mul(spec_fx_sub(max, min), spec_rng_unit(s)))
}

/// Three consecutive draws.
pub open spec fn spec_rng_next3(s: u64) -> u64 {
    spec_rng_next(spec_rng_next(spec_rng_next(s)))
}

/// A vector of three unit draws.
pub open spec fn spec_rand_vec3(s: u64) -> Vec3 {
    Vec3 {
        x: spec_rng_unit(s),
        y: spec_rng_unit(spec_rng_next(s)),
        z: spec_rng_unit(spec_rng_next(spec_rng_next(s))),
    }
}

/// A vector of three range draws.
pub open spec fn spec_rand_vec3_range(min: i64, max: i64, s: u64) -> Vec3 {
    Vec3 {
        x: spec_rand_range(min, max, s),
        y: spec_rand_range(min, max, spec_rng_next(s)),
        z: spec_rand_range(min, max, spec_rng_next(spec_rng_next(s))),
    }
}

/// The point `random_in_unit_shpere` returns when every attempt is rejected:
/// half a unit along the first axis, strictly inside the ball.
pub open spec fn spec_sphere_fallback() -> Vec3 {
    Vec3 { x: 32768i64, y: 0i64, z: 0i64 }
}

/// Rejection sampling of the open unit ball, `fuel` attempts left: draw a
/// vector in the cube `[-1, 1)^3` and keep the first one strictly inside the
/// ball and no shorter than a quarter unit.
pub open spec fn spec_rand_sphere(s: u64, fuel: nat) -> (Vec3, u64)
    decreases fuel,
{
    if fuel == 0 {
        (spec_sphere_fallback(), s)
    } else {
        let p = spec_rand_vec3_range(FX_MINUS_ONE, SCALE, s);
        let s3 = spec_rng_next3(s);
        if spec_v_len2(p) < SCALE && spec_v_len2(p) >= BALL_MIN_LEN2 {
            (p, s3)
        } else {
            spec_rand_sphere(s3, (fuel - 1) as nat)
        }
    }
}

/// Rejection sampling of the open unit disk in the xy-plane.
pub open spec fn spec_rand_disk(s: u64, fuel: nat) -> (Vec3, u64)
    decreases fuel,
{
    if fuel == 0 {
        (Vec3 { x: 0i64, y: 0i64, z: 0i64 }, s)
    } else {
        let p = Vec3 {
            x: spec_rand_range(FX_MINUS_ONE, SCALE, s),
            y: spec_rand_range(FX_MINUS_ONE, SCALE, spec_rng_next(s)),
            z: 0i64,
        };
        let s2 = spec_rng_next(spec_rng_next(s));
        if spec_v_len2(p) < SCALE {
            (p, s2)
        } else {
            spec_rand_disk(s2, (fuel - 1) as nat)
        }
    }
}

pub struct Utils {}

impl Utils {
    /// The unit vector along a non-degenerate `v`.
    pub fn unit_vector(v: &Vec3) -> (r: Vec3)
        requires
            vec_ok(*v),
            !spec_v_near_zero(*v),
        ensures
            r == spec_v_unit(*v),
            vec_ok(r),
    {
        proof {
            lemma_len_positive(*v);
        }
        let len = v.length();
        v.div(len)
    }

    pub fn cross(v1: &Vec3, v2: &Vec3) -> (r: Vec3)
        requires
            vec_ok(*v1),
            vec_ok(*v2),
        ensures
            r == spec_v_cross(*v1, *v2),
            vec_ok(r),
    {
        v1.cross(v2)
    }

    pub fn dot(v1: &Vec3, v2: &Vec3) -> (r: i64)
        requires
            vec_ok(*v1),
            vec_ok(*v2),
        ensures
            r == spec_v_dot(*v1, *v2),
            fx_ok(r),
    {
        v1.dot(v2)
    }

    /// One resolved channel; see `spec_channel`.
    fn resolve_channel(c: i64, spp: u32) -> (r: u32)
        requires
            fx_ok(c),
            spp >= 1,
        ensures
            r == spec_channel(c, spp),
            r <= 255,
    {
        let m = fx_mag(c);
        let avg_mag: u128 = m / (spp as u128);
        proof {
            lemma_div_le_self(m as int, spp as int);
        }
        let g: i64 = if c < 0 || avg_mag == 0 {
            0
        } else {
            fx_sqrt(avg_mag as i64)
        };
        let capped: i64 = if g > COLOR_CAP {
            COLOR_CAP
        } else {
            g
        };
        ((capped as u64) / 256) as u32
    }

    /// The `[0, 255]` triple of a pixel from its accumulated sample sum.
    /// The caller prints or stores the triple; nothing here does output.
    pub fn write_color(pixel_color: &Vec3, samples_per_pixel: u32) -> (r: (u32, u32, u32))
        requires
            vec_ok(*pixel_color),
            samples_per_pixel >= 1,
        ensures
            r == spec_write_color(*pixel_color, samples_per_pixel),
            r.0 <= 255 && r.1 <= 255 && r.2 <= 255,
    {
        (
            Self::resolve_channel(pixel_color.x, samples_per_pixel),
            Self::resolve_channel(pixel_color.y, samples_per_pixel),
            Self::resolve_channel(pixel_color.z, samples_per_pixel),
        )
    }

    /// `x` forced into `[min, max]`.
    pub fn clamp(x: i64, min: i64, max: i64) -> (r: i64)
        ensures
            r == spec_clamp(x, min, max),
    {
        if x < min {
            return min;
        } else if x > max {
            return max;
        }
        x
    }

    /// The largest representable scalar, standing in for an unbounded ray
    /// parameter.
    pub fn infinity() -> (r: i64)
        ensures
            r == FX_MAX,
    {
        FX_MAX
    }

    pub fn pi() -> (r: i64)
        ensures
            r == FX_PI,
    {
        FX_PI
    }

    pub fn degree_to_radians(degree: i64) -> (r: i64)
        requires
            fx_ok(degree),
        ensures
            r == spec_deg2rad(degree),
            fx_ok(r),
    {
        fx_div(fx_mul(degree, FX_PI), DEG_HALF_TURN)
    }

    /// A scalar draw uniform over `[0, 1)`.
    pub fn random_double(rng: &mut Rng) -> (r: i64)
        ensures
            final(rng).state == spec_rng_next(old(rng).state),
            r == spec_rng_unit(old(rng).state),
            0 <= r < SCALE,
    {
        rng.next_unit()
    }

    /// A scalar draw `min + (max - min) * u` with `u` uniform over `[0, 1)`.
    pub fn random_double_min_max(min: i64, max: i64, rng: &mut Rng) -> (r: i64)
        requires
            fx_ok(min),
            fx_ok(max),
        ensures
            final(rng).state == spec_rng_next(old(rng).state),
            r == spec_rand_range(min, max, old(rng).state),
            fx_ok(r),
    {
        let u = rng.next_unit();
        fx_add(min, fx_mul(fx_sub(max, min), u))
    }

    /// A vector of three unit draws.
    pub fn random_vec3(rng: &mut Rng) -> (r: Vec3)
        ensures
            final(rng).state == spec_rng_next3(old(rng).state),
            r == spec_rand_vec3(old(rng).state),
            vec_ok(r),
    {
        let x = rng.next_unit();
        let y = rng.next_unit();
        let z = rng.next_unit();
        Vec3 { x, y, z }
    }

    /// A vector of three range draws.
    pub fn random_vec3_min_max(min: i64, max: i64, rng: &mut Rng) -> (r: Vec3)
        requires
            fx_ok(min),
            fx_ok(max),
        ensures
            final(rng).state == spec_rng_next3(old(rng).state),
            r == spec_rand_vec3_range(min, max, old(rng).state),
            vec_ok(r),
    {
        let x = Self::random_double_min_max(min, max, rng);
        let y = Self::random_double_min_max(min, max, rng);
        let z = Self::random_double_min_max(min, max, rng);
        Vec3 { x, y, z }
    }

    /// A point strictly inside the unit ball and at least a quarter unit
    /// long, by rejection sampling with a fixed interior fallback after
    /// `SPHERE_TRIES` rejections.  The length floor keeps the point fit for
    /// normalization; it does not bias the directions drawn.
    pub fn random_in_unit_shpere(rng: &mut Rng) -> (r: Vec3)
        ensures
            ({
                let (p, s) = spec_rand_sphere(old(rng).state, SPHERE_TRIES as nat);
                r == p && final(rng).state == s
            }),
            vec_ok(r),
            BALL_MIN_LEN2 <= spec_v_len2(r) < SCALE,
            !spec_v_near_zero(r),
    {
        proof {
            lemma_sphere_fallback_inside();
        }
        let mut k: u32 = 0;
        while k < SPHERE_TRIES
            invariant
                k <= SPHERE_TRIES,
                spec_rand_sphere(old(rng).state, SPHERE_TRIES as nat) == spec_rand_sphere(
                    rng.state,
                    (SPHERE_TRIES - k) as nat,
                ),
            decreases SPHERE_TRIES - k,
        {
            let p = Self::random_vec3_min_max(FX_MINUS_ONE, SCALE, rng);
            let len2 = p.length_squared();
            if len2 < SCALE && len2 >= BALL_MIN_LEN2 {
                proof {
                    lemma_positive_len2_not_degenerate(p);
                }
                return p;
            }
            k = k + 1;
        }
        Vec3 { x: 32768, y: 0, z: 0 }
    }

    /// The unit vector of a random point inside the unit ball.  Its length
    /// is one up to a few raw units, whatever the generator drew.
    pub fn random_unit_vector(rng: &mut Rng) -> (r: Vec3)
        ensures
            ({
                let (p, s) = spec_rand_sphere(old(rng).state, SPHERE_TRIES as nat);
                r == spec_v_unit(p) && final(rng).state == s
            }),
            vec_ok(r),
            SCALE - 4 <= spec_v_len(r) <= SCALE + 6,
            SCALE - 7 <= spec_v_dot(r, r) <= SCALE + 13,
    {
        let p = Self::random_in_unit_shpere(rng);
        proof {
            lemma_ball_sample_normalizable(p);
            crate::vec3::lemma_unit_length(p);
        }
        Self::unit_vector(&p)
    }

    /// A point strictly inside the unit disk of the xy-plane, for sampling a
    /// camera lens; the origin is a valid sample, and the fallback.
    pub fn random_in_unit_disk(rng: &mut Rng) -> (r: Vec3)
        ensures
            ({
                let (p, s) = spec_rand_disk(old(rng).state, SPHERE_TRIES as nat);
                r == p && final(rng).state == s
            }),
            vec_ok(r),
            spec_v_len2(r) < SCALE,
    {
        proof {
            lemma_disk_fallback_inside();
        }
        let mut k: u32 = 0;
        while k < SPHERE_TRIES
            invariant
                k <= SPHERE_TRIES,
                spec_rand_disk(old(rng).state, SPHERE_TRIES as nat) == spec_rand_disk(
                    rng.state,
                    (SPHERE_TRIES - k) as nat,
                ),
            decreases SPHERE_TRIES - k,
        {
            let x = Self::random_double_min_max(FX_MINUS_ONE, SCALE, rng);
            let y = Self::random_double_min_max(FX_MINUS_ONE, SCALE, rng);
            let p = Vec3 { x, y, z: 0 };
            if p.length_squared() < SCALE {
                return p;
            }
            k = k + 1;
        }
        Vec3 { x: 0, y: 0, z: 0 }
    }
}

/// A vector of a quarter unit of length or more is not degenerate.
proof fn lemma_positive_len2_not_degenerate(p: Vec3)
    requires
        spec_v_len2(p) >= BALL_MIN_LEN2,
    ensures
        !spec_v_near_zero(p),
{
    if spec_v_near_zero(p) {
        assert(p.x == 0 && p.y == 0 && p.z == 0);
        assert(0int * 0 == 0) by (nonlinear_arith);
        crate::fixed::lemma_tdiv_zero(SCALE as int);
        assert(spec_v_len2(p) == 0);
    }
}

/// An accepted ball sample's raw square sum lies in the window that makes
/// normalization accurate to a few raw units.
proof fn lemma_ball_sample_normalizable(p: Vec3)
    requires
        vec_ok(p),
        BALL_MIN_LEN2 <= spec_v_len2(p) < SCALE,
    ensures
        268435456 <= crate::vec3::spec_v_dot_raw(p, p),
        crate::vec3::spec_v_dot_raw(p, p) <= (FX_MAX as int) * (FX_MAX as int),
{
    let q = crate::vec3::spec_v_dot_raw(p, p);
    assert(q >= 0) by (nonlinear_arith)
        requires
            q == (p.x as int) * (p.x as int) + (p.y as int) * (p.y as int) + (p.z as int) * (
            p.z as int),
    ;
    let d = spec_tdiv(q, SCALE as int);
    assert(d == q / (SCALE as int));
    // The clamp cannot have engaged: the clamped value is below SCALE.
    assert(spec_v_len2(p) == d);
    vstd::arithmetic::div_mod::lemma_fundamental_div_mod(q, SCALE as int);
    assert(q == (SCALE as int) * d + q % (SCALE as int));
    assert(268435456 <= q && q < 65536 * 65536) by (nonlinear_arith)
        requires
            q == 65536 * d + q % 65536,
            0 <= q % 65536 < 65536,
            4096 <= d < 65536,
    ;
    assert(65536int * 65536 <= (FX_MAX as int) * (FX_MAX as int)) by (nonlinear_arith);
}

/// The sphere fallback point lies strictly inside the ball, long enough to
/// normalize.
proof fn lemma_sphere_fallback_inside()
    ensures
        BALL_MIN_LEN2 <= spec_v_len2(spec_sphere_fallback()) < SCALE,
        !spec_v_near_zero(spec_sphere_fallback()),
        vec_ok(spec_sphere_fallback()),
{
    assert(32768int * 32768 == 1073741824) by (nonlinear_arith);
    assert(0int * 0 == 0) by (nonlinear_arith);
    assert(16384int * 65536 == 1073741824) by (nonlinear_arith);
    vstd::arithmetic::div_mod::lemma_fundamental_div_mod_converse(1073741824, 65536, 16384, 0);
}

/// The disk fallback (the origin) lies inside the disk.
proof fn lemma_disk_fallback_inside()
    ensures
        spec_v_len2(Vec3 { x: 0i64, y: 0i64, z: 0i64 }) < SCALE,
{
    assert(0int * 0 == 0) by (nonlinear_arith);
    assert(0int / 65536 == 0) by {
        assert(0int * 65536 == 0) by (nonlinear_arith);
        vstd::arithmetic::div_mod::lemma_fundamental_div_mod_converse(0, 65536, 0, 0);
    }
}

/// The accumulated color of `k` samples of a pure white scene.
pub open spec fn spec_white_sum(k: nat) -> Vec3
    decreases k,
{
    if k == 0 {
        Vec3 { x: 0i64, y: 0i64, z: 0i64 }
    } else {
        spec_v_add(spec_white_sum((k - 1) as nat), Vec3 { x: SCALE, y: SCALE, z: SCALE })
    }
}

/// The white sum never saturates: it is exactly `k` in every channel.
proof fn lemma_white_sum_value(k: nat)
    requires
        k <= 0xFFFF_FFFF,
    ensures
        spec_white_sum(k) == (Vec3 {
            x: (k * SCALE) as i64,
            y: (k * SCALE) as i64,
            z: (k * SCALE) as i64,
        }),
    decreases k,
{
    assert(0 <= k * SCALE <= 0xFFFF_FFFF * 65536) by (nonlinear_arith)
        requires
            0 <= k <= 0xFFFF_FFFF,
            SCALE == 65536i64,
    ;
    if k > 0 {
        lemma_white_sum_value((k - 1) as nat);
        assert((k - 1) * SCALE + SCALE == k * SCALE) by (nonlinear_arith);
        assert(0 <= (k - 1) * SCALE <= 0xFFFF_FFFF * 65536) by (nonlinear_arith)
            requires
                1 <= k <= 0xFFFF_FFFF,
                SCALE == 65536i64,
        ;
    }
}

/// Round trip of an always-white estimate: accumulating `n` white samples,
/// averaging over `n`, gamma-correcting and scaling to 8 bits yields exactly
/// white, `(255, 255, 255)`.
pub proof fn lemma_white_round_trip(n: u32)
    requires
        1 <= n,
    ensures
        spec_write_color(spec_white_sum(n as nat), n) == (255u32, 255u32, 255u32),
{
    lemma_white_sum_value(n as nat);
    let c: i64 = (n * SCALE) as i64;
    assert(spec_tdiv(c as int, n as int) == SCALE) by {
        assert(c as int == spec_mag(c as int)) by (nonlinear_arith)
            requires
                c as int == n * SCALE,
                1 <= n,
                SCALE == 65536i64,
        ;
        assert(c as int == (SCALE as int) * (n as int) + 0) by (nonlinear_arith)
            requires
                c as int == n * SCALE,
        ;
        vstd::arithmetic::div_mod::lemma_fundamental_div_mod_converse(
            c as int,
            n as int,
            SCALE as int,
            0,
        );
    }
    crate::fixed::lemma_fx_sqrt_one();
    assert((COLOR_CAP as int) / 256 == 255) by {
        assert(65470int == 255 * 256 + 190) by (nonlinear_arith);
        vstd::arithmetic::div_mod::lemma_fundamental_div_mod_converse(65470, 256, 255, 190);
    }
}

} // verus!
