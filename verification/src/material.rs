//! The material model: diffuse, reflective and refractive scattering.
//!
//! Dispatch is a closed enum, so an uninitialized placeholder material is
//! unrepresentable.  Scattering draws from the explicit generator, and each
//! scatter function is specified exactly as a function of the material, the
//! ray, the hit record and the generator state.  `None` means the ray was
//! absorbed.

use vstd::prelude::*;
use crate::fixed::{
    fx_ok, fx_sub, fx_add, fx_mul, fx_div, fx_sqrt, spec_fx_add, spec_fx_sub, spec_fx_mul,
    spec_fx_div, spec_fx_sqrt, SCALE,
};
use crate::vec3::{spec_v_len2, spec_v_dot_raw, spec_v_sub};
use crate::vec3::{
    Vec3, vec_ok, spec_v_add, spec_v_scale, spec_v_dot, spec_v_neg, spec_v_unit, spec_v_near_zero,
    spec_v_reflect, spec_v_refract,
};
use crate::ray::{Ray, ray_ok};
use crate::hittable::HitRecord;
use crate::rng::{Rng, spec_rng_next, spec_rng_unit};
use crate::utils::{Utils, spec_rand_sphere, SPHERE_TRIES};

verus! {

/// Diffuse: scatters around the normal, tinting by its albedo.
#[derive(Debug, Clone, Copy, PartialEq, Eq, Structural)]
pub struct LambertianMaterial {
    pub albedo: Vec3,
}

/// Reflective: mirrors the incoming direction, fuzzed by its roughness.
#[derive(Debug, Clone, Copy, PartialEq, Eq, Structural)]
pub struct MetalMaterial {
    pub albedo: Vec3,
    pub fuzz: i64,
}

/// Refractive: clear glass with the given index of refraction.
#[derive(Debug, Clone, Copy, PartialEq, Eq, Structural)]
pub struct DielectricMaterial {
    pub ir: i64,
}

/// The closed set of materials; every variant scatters, so no placeholder
/// state can reach the renderer.
#[derive(Debug, Clone, Copy, PartialEq, Eq, Structural)]
pub enum Material {
    Lambertian { lambertian: LambertianMaterial },
    Metal { metal: MetalMaterial },
    Dielectric { dielectric: DielectricMaterial },
}

pub open spec fn lambertian_ok(m: LambertianMaterial) -> bool {
    vec_ok(m.albedo)
}

/// Roughness lies in `[0, 1]`.
pub open spec fn metal_ok(m: MetalMaterial) -> bool {
    vec_ok(m.albedo) && 0 <= m.fuzz <= SCALE
}

/// The refractive index is positive.
pub open spec fn dielectric_ok(m: DielectricMaterial) -> bool {
    fx_ok(m.ir) && m.ir > 0
}

pub open spec fn mat_ok(m: Material) -> bool {
    match m {
        Material::Lambertian { lambertian } => lambertian_ok(lambertian),
        Material::Metal { metal } => metal_ok(metal),
        Material::Dielectric { dielectric } => dielectric_ok(dielectric),
    }
}

/// Diffuse scattering: the normal plus a random unit offset; a degenerate sum
/// falls back to the normal itself.  Always scatters.
pub open spec fn spec_lambertian_scatter(m: LambertianMaterial, rec: HitRecord, s: u64) -> (
    Option<(Vec3, Ray)>,
    u64,
) {
    let (q, s1) = spec_rand_sphere(s, SPHERE_TRIES as nat);
    let d0 = spec_v_add(rec.normal, spec_v_unit(q));
    let dir = if spec_v_near_zero(d0) {
        rec.normal
    } else {
        d0
    };
    (Some((m.albedo, Ray { origin: rec.p, direction: dir })), s1)
}

/// Metallic scattering: the fuzzed mirror reflection; absorbed whenever the
/// fuzzed direction no longer points away from the surface.
pub open spec fn spec_metal_scatter(m: MetalMaterial, r_in: Ray, rec: HitRecord, s: u64) -> (
    Option<(Vec3, Ray)>,
    u64,
) {
    let reflected = spec_v_reflect(spec_v_unit(r_in.direction), rec.normal);
    let (q, s1) = spec_rand_sphere(s, SPHERE_TRIES as nat);
    let dir = spec_v_add(reflected, spec_v_scale(q, m.fuzz));
    if spec_v_dot(dir, rec.normal) > 0 {
        (Some((m.albedo, Ray { origin: rec.p, direction: dir })), s1)
    } else {
        (None, s1)
    }
}

/// Schlick's reflectance approximation
/// `r0 + (1 - r0) (1 - cos)^5`, `r0 = ((1 - n) / (1 + n))^2`.
pub open spec fn spec_reflectance(cosine: i64, ref_idx: i64) -> i64 {
    let r0_base = spec_fx_div(spec_fx_sub(SCALE, ref_idx), spec_fx_add(SCALE, ref_idx));
    let r0 = spec_fx_mul(r0_base, r0_base);
    let omc = spec_fx_sub(SCALE, cosine);
    let omc2 = spec_fx_mul(omc, omc);
    let omc4 = spec_fx_mul(omc2, omc2);
    let omc5 = spec_fx_mul(omc4, omc);
    spec_fx_add(r0, spec_fx_mul(spec_fx_sub(SCALE, r0), omc5))
}

/// Refractive scattering: refract when Snell's law allows it and the
/// reflectance draw passes, else reflect.  Never absorbs, never tints.
/// The draw happens only when total internal reflection does not force the
/// choice, exactly as the short-circuit in the executable code evaluates it.
pub open spec fn spec_dielectric_scatter(m: DielectricMaterial, r_in: Ray, rec: HitRecord, s: u64) -> (
    Option<(Vec3, Ray)>,
    u64,
) {
    let refraction_ratio = if rec.front_face {
        spec_fx_div(SCALE, m.ir)
    } else {
        m.ir
    };
    let unit_direction = spec_v_unit(r_in.direction);
    let d = spec_v_dot(spec_v_neg(unit_direction), rec.normal);
    let cos_theta = if d > SCALE {
        SCALE
    } else {
        d
    };
    let sin_theta = spec_fx_sqrt(spec_fx_sub(SCALE, spec_fx_mul(cos_theta, cos_theta)));
    let cannot_refract = spec_fx_mul(refraction_ratio, sin_theta) > SCALE;
    if cannot_refract {
        let dir = spec_v_reflect(unit_direction, rec.normal);
        (Some((Vec3 { x: SCALE, y: SCALE, z: SCALE }, Ray { origin: rec.p, direction: dir })), s)
    } else {
        let u = spec_rng_unit(s);
        let s1 = spec_rng_next(s);
        let dir = if spec_reflectance(cos_theta, refraction_ratio) > u {
            spec_v_reflect(unit_direction, rec.normal)
        } else {
            spec_v_refract(unit_direction, rec.normal, refraction_ratio)
        };
        (Some((Vec3 { x: SCALE, y: SCALE, z: SCALE }, Ray { origin: rec.p, direction: dir })), s1)
    }
}

/// Scattering of any material, by kind.
pub open spec fn spec_scatter(m: Material, r_in: Ray, rec: HitRecord, s: u64) -> (
    Option<(Vec3, Ray)>,
    u64,
) {
    match m {
        Material::Lambertian { lambertian } => spec_lambertian_scatter(lambertian, rec, s),
        Material::Metal { metal } => spec_metal_scatter(metal, r_in, rec, s),
        Material::Dielectric { dielectric } => spec_dielectric_scatter(dielectric, r_in, rec, s),
    }
}

impl LambertianMaterial {
    pub fn lambertian(a: Vec3) -> (r: LambertianMaterial)
        requires
            vec_ok(a),
        ensures
            r == (LambertianMaterial { albedo: a }),
            lambertian_ok(r),
    {
        LambertianMaterial { albedo: a }
    }

    /// See `spec_lambertian_scatter`; the incoming ray plays no part.
    pub fn scatter(&self, _r_in: &Ray, rec: &HitRecord, rng: &mut Rng) -> (r: Option<(Vec3, Ray)>)
        requires
            lambertian_ok(*self),
            vec_ok(rec.p),
            vec_ok(rec.normal),
        ensures
            (r, final(rng).state) == spec_lambertian_scatter(*self, *rec, old(rng).state),
    {
        let u = Utils::random_unit_vector(rng);
        let mut scatter_direction = rec.normal.add(u);

        // Catch degenerate scatter direction
        if scatter_direction.near_zero() {
            scatter_direction = rec.normal;
        }
        Some((self.albedo, Ray::ray(rec.p, scatter_direction)))
    }
}

impl MetalMaterial {
    pub fn metal(a: Vec3, f: i64) -> (r: MetalMaterial)
        requires
            vec_ok(a),
            0 <= f <= SCALE,
        ensures
            r == (MetalMaterial { albedo: a, fuzz: f }),
            metal_ok(r),
    {
        MetalMaterial { albedo: a, fuzz: f }
    }

    /// See `spec_metal_scatter`.
    pub fn scatter(&self, r_in: &Ray, rec: &HitRecord, rng: &mut Rng) -> (r: Option<(Vec3, Ray)>)
        requires
            metal_ok(*self),
            ray_ok(*r_in),
            !spec_v_near_zero(r_in.direction),
            vec_ok(rec.p),
            vec_ok(rec.normal),
        ensures
            (r, final(rng).state) == spec_metal_scatter(*self, *r_in, *rec, old(rng).state),
    {
        let reflected = Utils::unit_vector(&r_in.direction()).reflect(rec.normal);
        let q = Utils::random_in_unit_shpere(rng);
        let dir = reflected.add(q.scale(self.fuzz));
        let scattered = Ray::ray(rec.p, dir);
        if scattered.direction().dot(&rec.normal) > 0 {
            Some((self.albedo, scattered))
        } else {
            None
        }
    }
}

impl DielectricMaterial {
    pub fn dielectric(index_of_refraction: i64) -> (r: DielectricMaterial)
        requires
            fx_ok(index_of_refraction),
            index_of_refraction > 0,
        ensures
            r == (DielectricMaterial { ir: index_of_refraction }),
            dielectric_ok(r),
    {
        DielectricMaterial { ir: index_of_refraction }
    }

    /// Schlick's approximation; see `spec_reflectance`.
    pub fn refractance(cosine: i64, ref_idx: i64) -> (r: i64)
        requires
            fx_ok(cosine),
            fx_ok(ref_idx),
            ref_idx >= 0,
        ensures
            r == spec_reflectance(cosine, ref_idx),
            fx_ok(r),
    {
        let r0_base = fx_div(fx_sub(SCALE, ref_idx), fx_add(SCALE, ref_idx));
        let r0 = fx_mul(r0_base, r0_base);
        let omc = fx_sub(SCALE, cosine);
        let omc2 = fx_mul(omc, omc);
        let omc4 = fx_mul(omc2, omc2);
        let omc5 = fx_mul(omc4, omc);
        fx_add(r0, fx_mul(fx_sub(SCALE, r0), omc5))
    }

    /// See `spec_dielectric_scatter`.
    pub fn scatter(&self, r_in: &Ray, rec: &HitRecord, rng: &mut Rng) -> (r: Option<(Vec3, Ray)>)
        requires
            dielectric_ok(*self),
            ray_ok(*r_in),
            !spec_v_near_zero(r_in.direction),
            vec_ok(rec.p),
            vec_ok(rec.normal),
        ensures
            (r, final(rng).state) == spec_dielectric_scatter(*self, *r_in, *rec, old(rng).state),
    {
        let attenuation = Vec3::one();
        let refraction_ratio = if rec.front_face {
            fx_div(SCALE, self.ir)
        } else {
            self.ir
        };

        let unit_direction = Utils::unit_vector(&r_in.direction());
        let d = unit_direction.neg().dot(&rec.normal);
        let cos_theta = if d > SCALE {
            SCALE
        } else {
            d
        };
        let sin_theta = fx_sqrt(fx_sub(SCALE, fx_mul(cos_theta, cos_theta)));

        let cannot_refract = fx_mul(refraction_ratio, sin_theta) > SCALE;
        let direction = if cannot_refract {
            unit_direction.reflect(rec.normal)
        } else if Self::refractance(cos_theta, refraction_ratio) > Utils::random_double(rng) {
            unit_direction.reflect(rec.normal)
        } else {
            unit_direction.refract(rec.normal, refraction_ratio)
        };

        Some((attenuation, Ray::ray(rec.p, direction)))
    }
}

impl Material {
    /// Scattering of any material, dispatched by kind; see `spec_scatter`.
    pub fn scatter(&self, r_in: &Ray, rec: &HitRecord, rng: &mut Rng) -> (r: Option<(Vec3, Ray)>)
        requires
            mat_ok(*self),
            ray_ok(*r_in),
            !spec_v_near_zero(r_in.direction),
            vec_ok(rec.p),
            vec_ok(rec.normal),
        ensures
            (r, final(rng).state) == spec_scatter(*self, *r_in, *rec, old(rng).state),
    {
        match self {
            Material::Lambertian { lambertian } => lambertian.scatter(r_in, rec, rng),
            Material::Metal { metal } => metal.scatter(r_in, rec, rng),
            Material::Dielectric { dielectric } => dielectric.scatter(r_in, rec, rng),
        }
    }
}

/// Diffuse scattering is total, tints by the albedo, and a degenerate random
/// offset (one that exactly cancels the normal) falls back to the normal
/// itself: the scattered direction is never degenerate when the surface
/// normal is not.
pub proof fn lemma_lambertian_scatter_total(m: LambertianMaterial, rec: HitRecord, s: u64)
    ensures
        ({
            let q = spec_rand_sphere(s, SPHERE_TRIES as nat).0;
            let s1 = spec_rand_sphere(s, SPHERE_TRIES as nat).1;
            let d0 = spec_v_add(rec.normal, spec_v_unit(q));
            let dir = if spec_v_near_zero(d0) {
                rec.normal
            } else {
                d0
            };
            &&& spec_lambertian_scatter(m, rec, s) == (
                Some((m.albedo, Ray { origin: rec.p, direction: dir })),
                s1,
            )
            &&& !spec_v_near_zero(rec.normal) ==> !spec_v_near_zero(dir)
        }),
{
}

/// Metallic scattering absorbs the ray exactly when the fuzzed reflection no
/// longer points away from the surface.
pub proof fn lemma_metal_absorbs_iff(m: MetalMaterial, r_in: Ray, rec: HitRecord, s: u64)
    ensures
        ({
            let q = spec_rand_sphere(s, SPHERE_TRIES as nat).0;
            let dir = spec_v_add(
                spec_v_reflect(spec_v_unit(r_in.direction), rec.normal),
                spec_v_scale(q, m.fuzz),
            );
            spec_metal_scatter(m, r_in, rec, s).0 is None <==> spec_v_dot(dir, rec.normal) <= 0
        }),
{
}

/// A dielectric never absorbs, and never tints: the attenuation is white.
pub proof fn lemma_dielectric_never_absorbs(m: DielectricMaterial, r_in: Ray, rec: HitRecord, s: u64)
    ensures
        spec_dielectric_scatter(m, r_in, rec, s).0 matches Some(pair) && pair.0 == (Vec3 {
            x: SCALE,
            y: SCALE,
            z: SCALE,
        }),
{
}

/// A dielectric whose index matches the surrounding medium never meets
/// total internal reflection: whatever the incidence, the choice between
/// reflecting and refracting falls to the reflectance draw, so exactly one
/// draw is consumed.
pub proof fn lemma_dielectric_matched_no_tir(
    m: DielectricMaterial,
    r_in: Ray,
    rec: HitRecord,
    s: u64,
)
    requires
        m.ir == SCALE,
    ensures
        spec_dielectric_scatter(m, r_in, rec, s).1 == spec_rng_next(s),
{
    crate::fixed::lemma_tdiv_scale(SCALE);
    let refraction_ratio = if rec.front_face {
        spec_fx_div(SCALE, m.ir)
    } else {
        m.ir
    };
    assert(refraction_ratio == SCALE);
    let unit_direction = spec_v_unit(r_in.direction);
    let d = spec_v_dot(spec_v_neg(unit_direction), rec.normal);
    let cos_theta = if d > SCALE {
        SCALE
    } else {
        d
    };
    let c2 = spec_fx_mul(cos_theta, cos_theta);
    assert(c2 >= 0) by {
        crate::fixed::lemma_mul_mag(cos_theta as int, cos_theta as int);
    }
    let radicand = spec_fx_sub(SCALE, c2);
    assert(radicand <= SCALE);
    let sin_theta = spec_fx_sqrt(radicand);
    crate::fixed::lemma_fx_sqrt_nonneg(radicand);
    assert(sin_theta <= SCALE) by {
        if radicand > 0 {
            crate::fixed::lemma_sqrt_floor_monotone(
                (radicand * SCALE) as nat,
                (SCALE * SCALE) as nat,
            );
            assert(radicand * SCALE <= SCALE * SCALE) by (nonlinear_arith)
                requires
                    radicand <= SCALE,
                    0 < radicand,
                    SCALE == 65536i64,
            ;
            assert(crate::fixed::spec_sqrt_floor((SCALE * SCALE) as nat) == 65536) by {
                assert(65536int * 65536 == 4294967296) by (nonlinear_arith);
                assert(65537int * 65537 == 4295098369) by (nonlinear_arith);
                crate::fixed::lemma_sqrt_floor_unique(4294967296nat, 65536nat);
            }
        }
    }
    crate::fixed::lemma_fx_mul_one(sin_theta);
    assert(spec_fx_mul(refraction_ratio, sin_theta) == sin_theta);
}

/// Schlick's reflectance at head-on incidence (`cos == 1`) is exactly `r0`.
pub proof fn lemma_reflectance_head_on(ref_idx: i64)
    ensures
        ({
            let r0_base = spec_fx_div(spec_fx_sub(SCALE, ref_idx), spec_fx_add(SCALE, ref_idx));
            let r0 = spec_fx_mul(r0_base, r0_base);
            spec_reflectance(SCALE, ref_idx) == r0
        }),
{
    let r0_base = spec_fx_div(spec_fx_sub(SCALE, ref_idx), spec_fx_add(SCALE, ref_idx));
    let r0 = spec_fx_mul(r0_base, r0_base);
    crate::fixed::lemma_fx_mul_zero(0);
    crate::fixed::lemma_fx_mul_zero(spec_fx_sub(SCALE, r0));
}

/// A dielectric whose index matches the surrounding medium (`ir == 1`) lets a
/// head-on ray pass straight through: it always takes the refraction branch
/// and the scattered direction equals the incoming unit direction exactly.
/// (At oblique incidence the reflectance draw can still pick the reflection
/// branch, since Schlick's approximation is positive for `cos < 1`.)
pub proof fn lemma_dielectric_matched_straight_through(
    m: DielectricMaterial,
    r_in: Ray,
    rec: HitRecord,
    s: u64,
)
    requires
        m.ir == SCALE,
        vec_ok(rec.normal),
        spec_v_unit(r_in.direction) == spec_v_neg(rec.normal),
        spec_v_dot(rec.normal, rec.normal) == SCALE,
    ensures
        ({
            let uv = spec_v_unit(r_in.direction);
            spec_dielectric_scatter(m, r_in, rec, s) == (
                Some(
                    (
                        Vec3 { x: SCALE, y: SCALE, z: SCALE },
                        Ray { origin: rec.p, direction: uv },
                    ),
                ),
                spec_rng_next(s),
            )
        }),
{
    let n = rec.normal;
    let uv = spec_v_unit(r_in.direction);

    // The refraction ratio is one whichever face was struck.
    crate::fixed::lemma_tdiv_scale(SCALE);
    let ratio = if rec.front_face {
        spec_fx_div(SCALE, m.ir)
    } else {
        m.ir
    };
    assert(ratio == SCALE);

    // Head-on: the cosine is exactly one, the sine exactly zero.
    assert(spec_v_neg(uv) == n);
    let d = spec_v_dot(spec_v_neg(uv), n);
    assert(d == SCALE);
    crate::fixed::lemma_fx_mul_one(SCALE);
    assert(spec_fx_sub(SCALE, spec_fx_mul(SCALE, SCALE)) == 0);
    assert(spec_fx_sqrt(0) == 0);

    // No total internal reflection.
    crate::fixed::lemma_fx_mul_zero(SCALE);
    assert(spec_fx_mul(ratio, 0) == 0);

    // The reflectance is exactly zero, and every draw is non-negative, so
    // the refraction branch is taken.
    crate::fixed::lemma_fx_div_zero(spec_fx_add(SCALE, SCALE));
    crate::fixed::lemma_fx_mul_zero(0);
    crate::fixed::lemma_fx_mul_zero(spec_fx_sub(SCALE, 0));
    assert(spec_reflectance(SCALE, ratio) == 0);
    crate::rng::lemma_rng_unit_bounds(s);

    // Refraction at ratio one reproduces the incoming direction exactly.
    assert(spec_v_scale(n, SCALE) == n) by {
        crate::fixed::lemma_fx_mul_one(n.x);
        crate::fixed::lemma_fx_mul_one(n.y);
        crate::fixed::lemma_fx_mul_one(n.z);
    }
    let zero_v = Vec3 { x: 0i64, y: 0i64, z: 0i64 };
    assert(spec_v_add(uv, n) == zero_v);
    assert(spec_v_scale(zero_v, SCALE) == zero_v) by {
        crate::fixed::lemma_fx_mul_zero(SCALE);
    }
    assert(spec_v_len2(zero_v) == 0) by {
        assert(0int * 0 == 0) by (nonlinear_arith);
        assert(spec_v_dot_raw(zero_v, zero_v) == 0);
        crate::fixed::lemma_tdiv_zero(SCALE as int);
    }
    crate::fixed::lemma_fx_sqrt_one();
    assert(spec_v_sub(zero_v, n) == uv);
    assert(spec_v_refract(uv, n, SCALE) == uv);
}

} // verus!
