//! Intersection records and the closed set of primitive kinds.
//!
//! Dispatch over primitives is a tagged enum rather than trait objects, so a
//! scene is plain data and every intersection query has an exact spec mirror.

use vstd::prelude::*;
use crate::fixed::fx_ok;
use crate::vec3::{Vec3, vec_ok, spec_v_dot, spec_v_neg};
use crate::ray::Ray;
use crate::material::{Material, mat_ok};
use crate::sphere::{Sphere, sphere_ok, spec_sphere_hit};

verus! {

/// What an intersection query yields: the hit point, the normal oriented
/// against the incoming ray, the ray parameter, which side was struck, and
/// the material that governs scattering there.
#[derive(Debug, Clone, Copy, PartialEq, Eq, Structural)]
pub struct HitRecord {
    pub p: Vec3,
    pub normal: Vec3,
    pub t: i64,
    pub front_face: bool,
    pub material: Material,
}

pub open spec fn rec_ok(rec: HitRecord) -> bool {
    vec_ok(rec.p) && vec_ok(rec.normal) && fx_ok(rec.t) && mat_ok(rec.material)
}

/// Orientation of an outward normal against a ray: the stored normal always
/// points against the incoming direction.
pub open spec fn spec_face_normal(r: Ray, outward_normal: Vec3) -> (bool, Vec3) {
    let front = spec_v_dot(r.direction, outward_normal) < 0;
    (front, if front { outward_normal } else { spec_v_neg(outward_normal) })
}

impl HitRecord {
    /// Store `outward_normal` oriented against the ray, and remember which
    /// side was struck.
    pub fn set_face_normal(&mut self, r: &Ray, outward_normal: Vec3)
        requires
            vec_ok(old(self).p),
            vec_ok(outward_normal),
            vec_ok(r.direction),
        ensures
            (final(self).front_face, final(self).normal) == spec_face_normal(*r, outward_normal),
            final(self).p == old(self).p,
            final(self).t == old(self).t,
            final(self).material == old(self).material,
            vec_ok(final(self).normal),
    {
        self.front_face = r.direction().dot(&outward_normal) < 0;
        if self.front_face {
            self.normal = outward_normal;
        } else {
            self.normal = outward_normal.neg();
        }
    }
}

/// The closed set of primitive kinds a scene can hold.
#[derive(Debug, Clone, Copy, PartialEq, Eq, Structural)]
pub enum Hittable {
    Sphere(Sphere),
}

pub open spec fn hittable_ok(h: Hittable) -> bool {
    match h {
        Hittable::Sphere(s) => sphere_ok(s),
    }
}

/// The intersection of a ray with one primitive, by kind.
pub open spec fn spec_hittable_hit(h: Hittable, r: Ray, t_min: i64, t_max: i64) -> Option<
    HitRecord,
> {
    match h {
        Hittable::Sphere(s) => spec_sphere_hit(s, r, t_min, t_max),
    }
}

impl Hittable {
    /// The closest intersection with `r` whose parameter lies in
    /// `[t_min, t_max]`, if any.
    pub fn hit(&self, r: &Ray, t_min: i64, t_max: i64) -> (result: Option<HitRecord>)
        requires
            hittable_ok(*self),
            crate::ray::ray_ok(*r),
            fx_ok(t_min),
            fx_ok(t_max),
        ensures
            result == spec_hittable_hit(*self, *r, t_min, t_max),
            result matches Some(rec) ==> rec_ok(rec),
    {
        match self {
            Hittable::Sphere(s) => s.hit(r, t_min, t_max),
        }
    }
}

} // verus!
