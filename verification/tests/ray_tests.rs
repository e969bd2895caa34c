//! Rays and their parametric evaluation.

use path_tracer::ray::Ray;
use path_tracer::vec3::Vec3;

const ONE: i64 = 65536;

#[test]
fn test_ray_origin() {
    let ray: Ray = Ray::ray(Vec3::new(0, 0, 0), Vec3::new(ONE, 0, 0));
    assert_eq!(ray.origin(), Vec3::new(0, 0, 0));
}

#[test]
fn test_ray_direction() {}

#[test]
fn test_ray_point_at_parameter() {}

#[test]
fn test_ray_at_half() {
    let ray: Ray = Ray::ray(Vec3::new(ONE, 0, 0), Vec3::new(0, 2 * ONE, 0));
    assert_eq!(ray.point_at_parameter(ONE / 2), Vec3::new(ONE, ONE, 0));
}
