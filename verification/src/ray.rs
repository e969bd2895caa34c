//! Rays: an origin and a (not necessarily unit) direction.

use vstd::prelude::*;
use crate::fixed::fx_ok;
use crate::vec3::{Vec3, vec_ok, spec_v_add, spec_v_scale};

verus! {

#[derive(Debug, Clone, Copy, PartialEq, Eq, Structural)]
pub struct Ray {
    pub origin: Vec3,
    pub direction: Vec3,
}

pub open spec fn ray_ok(r: Ray) -> bool {
    vec_ok(r.origin) && vec_ok(r.direction)
}

/// The point `origin + direction * t`.
pub open spec fn spec_ray_at(r: Ray, t: i64) -> Vec3 {
    spec_v_add(r.origin, spec_v_scale(r.direction, t))
}

impl Ray {
    pub fn ray(origin: Vec3, direction: Vec3) -> (r: Ray)
        ensures
            r == (Ray { origin, direction }),
    {
        Ray { origin, direction }
    }

    pub fn origin(self) -> (r: Vec3)
        ensures
            r == self.origin,
    {
        self.origin
    }

    pub fn direction(self) -> (r: Vec3)
        ensures
            r == self.direction,
    {
        self.direction
    }

    pub fn point_at_parameter(self, t: i64) -> (r: Vec3)
        requires
            ray_ok(self),
            fx_ok(t),
        ensures
            r == spec_ray_at(self, t),
            vec_ok(r),
    {
        self.origin.add(self.direction.scale(t))
    }
}

} // verus!
