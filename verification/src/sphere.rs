//! The sphere primitive and its analytic ray intersection.

use vstd::prelude::*;
use crate::fixed::{
    fx_ok, fx_add, fx_sub, fx_neg, fx_mul, fx_div, fx_sqrt, spec_fx_add, spec_fx_sub, spec_fx_neg,
    spec_fx_mul, spec_fx_div, spec_fx_sqrt,
};
use crate::vec3::{Vec3, vec_ok, spec_v_sub, spec_v_div, spec_v_dot, spec_v_len2};
use crate::ray::{Ray, ray_ok, spec_ray_at};
use crate::hittable::{HitRecord, rec_ok, spec_face_normal};
use crate::material::{Material, mat_ok};

verus! {

/// A sphere owning its material.  A negative radius is legitimate (it flips
/// the normals, which models a hollow interior); only zero is excluded.
#[derive(Debug, Clone, Copy, PartialEq, Eq, Structural)]
pub struct Sphere {
    pub center: Vec3,
    pub radius: i64,
    pub material: Material,
}

pub open spec fn sphere_ok(s: Sphere) -> bool {
    vec_ok(s.center) && fx_ok(s.radius) && s.radius != 0 && mat_ok(s.material)
}

/// Ray-sphere intersection: solve `a t^2 + 2 half_b t + c = 0`, prefer the
/// smaller root, and reject roots outside `[t_min, t_max]`.  A direction too
/// short to register (`a == 0` after rescaling) is treated as a miss.
pub open spec fn spec_sphere_hit(s: Sphere, r: Ray, t_min: i64, t_max: i64) -> Option<HitRecord> {
    let oc = spec_v_sub(r.origin, s.center);
    let a = spec_v_len2(r.direction);
    let half_b = spec_v_dot(oc, r.direction);
    let c = spec_fx_sub(spec_v_len2(oc), spec_fx_mul(s.radius, s.radius));
    let discriminant = spec_fx_sub(spec_fx_mul(half_b, half_b), spec_fx_mul(a, c));
    if a <= 0 || discriminant < 0 {
        None
    } else {
        let sqrtd = spec_fx_sqrt(discriminant);
        let root1 = spec_fx_div(spec_fx_sub(spec_fx_neg(half_b), sqrtd), a);
        let root = if root1 < t_min || t_max < root1 {
            let root2 = spec_fx_div(spec_fx_add(spec_fx_neg(half_b), sqrtd), a);
            if root2 < t_min || t_max < root2 {
                None
            } else {
                Some(root2)
            }
        } else {
            Some(root1)
        };
        match root {
            None => None,
            Some(t) => {
                let p = spec_ray_at(r, t);
                let outward_normal = spec_v_div(spec_v_sub(p, s.center), s.radius);
                let (front, normal) = spec_face_normal(r, outward_normal);
                Some(HitRecord { p, normal, t, front_face: front, material: s.material })
            },
        }
    }
}

impl Sphere {
    pub fn sphere(cen: Vec3, r: i64, material: Material) -> (result: Sphere)
        requires
            vec_ok(cen),
            fx_ok(r),
            r != 0,
            mat_ok(material),
        ensures
            result == (Sphere { center: cen, radius: r, material }),
            sphere_ok(result),
    {
        Sphere { center: cen, radius: r, material }
    }

    /// The closest intersection with `r` whose parameter lies in
    /// `[t_min, t_max]`, if any; see `spec_sphere_hit`.
    pub fn hit(&self, r: &Ray, t_min: i64, t_max: i64) -> (result: Option<HitRecord>)
        requires
            sphere_ok(*self),
            ray_ok(*r),
            fx_ok(t_min),
            fx_ok(t_max),
        ensures
            result == spec_sphere_hit(*self, *r, t_min, t_max),
            result matches Some(rec) ==> rec_ok(rec),
    {
        let oc = r.origin().sub(self.center);
        let a = r.direction().length_squared();
        let half_b = oc.dot(&r.direction());
        let c = fx_sub(oc.length_squared(), fx_mul(self.radius, self.radius));
        let discriminant = fx_sub(fx_mul(half_b, half_b), fx_mul(a, c));

        if a <= 0 || discriminant < 0 {
            return None;
        }
        let sqrtd = fx_sqrt(discriminant);

        // Prefer the nearer root; fall back to the farther one.
        let mut root = fx_div(fx_sub(fx_neg(half_b), sqrtd), a);
        if root < t_min || t_max < root {
            root = fx_div(fx_add(fx_neg(half_b), sqrtd), a);
            if root < t_min || t_max < root {
                return None;
            }
        }

        let p = r.point_at_parameter(root);
        let outward_normal = p.sub(self.center).div(self.radius);
        let mut rec = HitRecord {
            p,
            normal: outward_normal,
            t: root,
            front_face: false,
            material: self.material,
        };
        rec.set_face_normal(r, outward_normal);
        Some(rec)
    }
}

/// An accepted sphere intersection lies inside the requested window and
/// carries the sphere's own material.
pub proof fn lemma_sphere_hit_in_window(s: Sphere, r: Ray, t_min: i64, t_max: i64)
    ensures
        spec_sphere_hit(s, r, t_min, t_max) matches Some(rec) ==> t_min <= rec.t <= t_max
            && rec.material == s.material,
{
}

/// In the solved quadratic the preferred root never exceeds the fallback
/// root.
proof fn lemma_sphere_roots_ordered(s: Sphere, r: Ray)
    ensures
        ({
            let oc = spec_v_sub(r.origin, s.center);
            let a = spec_v_len2(r.direction);
            let half_b = spec_v_dot(oc, r.direction);
            let c = spec_fx_sub(spec_v_len2(oc), spec_fx_mul(s.radius, s.radius));
            let discriminant = spec_fx_sub(spec_fx_mul(half_b, half_b), spec_fx_mul(a, c));
            let sqrtd = spec_fx_sqrt(discriminant);
            a > 0 ==> spec_fx_div(spec_fx_sub(spec_fx_neg(half_b), sqrtd), a) <= spec_fx_div(
                spec_fx_add(spec_fx_neg(half_b), sqrtd),
                a,
            )
        }),
{
    let oc = spec_v_sub(r.origin, s.center);
    let a = spec_v_len2(r.direction);
    let half_b = spec_v_dot(oc, r.direction);
    let c = spec_fx_sub(spec_v_len2(oc), spec_fx_mul(s.radius, s.radius));
    let discriminant = spec_fx_sub(spec_fx_mul(half_b, half_b), spec_fx_mul(a, c));
    let sqrtd = spec_fx_sqrt(discriminant);
    if a > 0 {
        crate::fixed::lemma_fx_sqrt_nonneg(discriminant);
        crate::fixed::lemma_clamp_monotone(
            spec_fx_neg(half_b) - sqrtd,
            spec_fx_neg(half_b) + sqrtd,
        );
        crate::fixed::lemma_fx_div_monotone(
            spec_fx_sub(spec_fx_neg(half_b), sqrtd),
            spec_fx_add(spec_fx_neg(half_b), sqrtd),
            a,
        );
    }
}

/// Shrinking the acceptance window around an accepted hit leaves the hit
/// unchanged.
pub proof fn lemma_sphere_hit_shrink(s: Sphere, r: Ray, t_min: i64, t_max: i64, w: i64)
    requires
        spec_sphere_hit(s, r, t_min, t_max) matches Some(rec) && rec.t <= w,
        w <= t_max,
    ensures
        spec_sphere_hit(s, r, t_min, w) == spec_sphere_hit(s, r, t_min, t_max),
{
}

/// Growing the acceptance window around an accepted hit leaves the hit
/// unchanged: the preferred root was already the smallest acceptable one.
pub proof fn lemma_sphere_hit_grow(s: Sphere, r: Ray, t_min: i64, w: i64, t_max: i64)
    requires
        spec_sphere_hit(s, r, t_min, w) is Some,
        w <= t_max,
    ensures
        spec_sphere_hit(s, r, t_min, t_max) == spec_sphere_hit(s, r, t_min, w),
{
    lemma_sphere_roots_ordered(s, r);
}

} // verus!
