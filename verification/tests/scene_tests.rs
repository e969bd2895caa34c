//! Intersection, scattering and end-to-end rendering.

use path_tracer::hittable::Hittable;
use path_tracer::hittable_list::HittableList;
use path_tracer::material::{
    DielectricMaterial, LambertianMaterial, Material, MetalMaterial,
};
use path_tracer::ray::Ray;
use path_tracer::render::{ray_color, render};
use path_tracer::rng::Rng;
use path_tracer::sphere::Sphere;
use path_tracer::vec3::Vec3;

const ONE: i64 = 65536;

fn gray_lambertian() -> Material {
    Material::Lambertian {
        lambertian: LambertianMaterial::lambertian(Vec3::new(ONE / 2, ONE / 2, ONE / 2)),
    }
}

// A ray from the origin straight down the negative z-axis against a sphere
// of radius 0.5 centered at (0, 0, -1) hits at t == 0.5 with normal
// (0, 0, 1), front face.
#[test]
fn test_sphere_hit_head_on() {
    let s = Sphere::sphere(Vec3::new(0, 0, -ONE), ONE / 2, gray_lambertian());
    let r = Ray::ray(Vec3::new(0, 0, 0), Vec3::new(0, 0, -ONE));
    let rec = s.hit(&r, 66, i64::MAX / 2).expect("must hit");
    assert_eq!(rec.t, ONE / 2);
    assert_eq!(rec.normal, Vec3::new(0, 0, ONE));
    assert!(rec.front_face);
    assert_eq!(rec.p, Vec3::new(0, 0, -ONE / 2));
}

#[test]
fn test_sphere_miss() {
    let s = Sphere::sphere(Vec3::new(0, 0, -ONE), ONE / 2, gray_lambertian());
    let r = Ray::ray(Vec3::new(0, 0, 0), Vec3::new(0, 0, ONE));
    assert!(s.hit(&r, 66, i64::MAX / 2).is_none());
}

#[test]
fn test_sphere_window_rejects_root() {
    let s = Sphere::sphere(Vec3::new(0, 0, -ONE), ONE / 2, gray_lambertian());
    let r = Ray::ray(Vec3::new(0, 0, 0), Vec3::new(0, 0, -ONE));
    // Both roots (0.5 and 1.5) lie beyond the window.
    assert!(s.hit(&r, 66, ONE / 4).is_none());
}

// The aggregate returns the closest hit among its members.
#[test]
fn test_list_hit_closest() {
    let mut world = HittableList::new();
    world.add(Hittable::Sphere(Sphere::sphere(
        Vec3::new(0, 0, -3 * ONE),
        ONE / 2,
        gray_lambertian(),
    )));
    world.add(Hittable::Sphere(Sphere::sphere(
        Vec3::new(0, 0, -ONE),
        ONE / 2,
        gray_lambertian(),
    )));
    let r = Ray::ray(Vec3::new(0, 0, 0), Vec3::new(0, 0, -ONE));
    let rec = world.hit(&r, 66, i64::MAX / 2).expect("must hit");
    assert_eq!(rec.t, ONE / 2);
    world.clear();
    assert!(world.hit(&r, 66, i64::MAX / 2).is_none());
}

// With the recursion budget spent, the estimator is black whatever the
// scene holds.
#[test]
fn test_ray_color_depth_zero_black() {
    let mut world = HittableList::new();
    world.add(Hittable::Sphere(Sphere::sphere(
        Vec3::new(0, 0, -ONE),
        ONE / 2,
        gray_lambertian(),
    )));
    let mut rng = Rng::new(1);
    let r = Ray::ray(Vec3::new(0, 0, 0), Vec3::new(0, 0, -ONE));
    assert_eq!(ray_color(&r, &world, 0, &mut rng), Vec3::zero());
}

// A ray that misses everything yields exactly the background gradient for
// its direction, with no randomness consumed (hence no recursion).
#[test]
fn test_ray_color_miss_background() {
    let mut world = HittableList::new();
    world.add(Hittable::Sphere(Sphere::sphere(
        Vec3::new(0, 0, -4 * ONE),
        ONE / 2,
        gray_lambertian(),
    )));
    let mut rng = Rng::new(77);
    let state_before = rng.state;

    // Straight up: the gradient parameter is one, giving pure sky blue.
    let up = Ray::ray(Vec3::new(0, 0, 0), Vec3::new(0, ONE, 0));
    assert_eq!(ray_color(&up, &world, 8, &mut rng), Vec3::new(32768, 45875, ONE));

    // Straight down: the gradient parameter is zero, giving pure white.
    let down = Ray::ray(Vec3::new(0, 0, 0), Vec3::new(0, -ONE, 0));
    assert_eq!(ray_color(&down, &world, 8, &mut rng), Vec3::one());

    assert_eq!(rng.state, state_before);
}

// Lambertian scattering is total and never yields a degenerate direction.
#[test]
fn test_lambertian_scatter_some() {
    let m = LambertianMaterial::lambertian(Vec3::new(ONE / 2, ONE / 2, ONE / 2));
    let s = Sphere::sphere(Vec3::new(0, 0, -ONE), ONE / 2, gray_lambertian());
    let r = Ray::ray(Vec3::new(0, 0, 0), Vec3::new(0, 0, -ONE));
    let rec = s.hit(&r, 66, i64::MAX / 2).expect("must hit");
    let mut rng = Rng::new(3);
    for _ in 0..20 {
        let (att, scattered) = m.scatter(&r, &rec, &mut rng).expect("always scatters");
        assert_eq!(att, Vec3::new(ONE / 2, ONE / 2, ONE / 2));
        assert_eq!(scattered.origin(), rec.p);
        assert!(!scattered.direction().near_zero());
    }
}

// Metal absorbs exactly when the fuzzed reflection no longer points away
// from the surface: a ray hitting the back of the surface reflects inward
// and is absorbed.
#[test]
fn test_metal_scatter_absorbed() {
    let m = MetalMaterial::metal(Vec3::new(ONE, ONE, ONE), 0);
    let s = Sphere::sphere(Vec3::new(0, 0, -ONE), ONE / 2, gray_lambertian());
    let r_front = Ray::ray(Vec3::new(0, 0, 0), Vec3::new(0, 0, -ONE));
    let rec = s.hit(&r_front, 66, i64::MAX / 2).expect("must hit");

    // Incoming along the stored normal: the mirror reflection dives below
    // the surface, so the ray is absorbed.
    let r_behind = Ray::ray(Vec3::new(0, 0, -ONE), Vec3::new(0, 0, ONE));
    let mut rng = Rng::new(4);
    assert!(m.scatter(&r_behind, &rec, &mut rng).is_none());

    // Incoming against the normal: the reflection leaves the surface.
    let mut rng2 = Rng::new(4);
    let (_, scattered) = m.scatter(&r_front, &rec, &mut rng2).expect("reflects");
    assert_eq!(scattered.direction(), Vec3::new(0, 0, ONE));
}

// A dielectric matching the surrounding medium (index one) refracts a
// head-on ray straight through with no bend, and never absorbs.
#[test]
fn test_dielectric_matched_straight_through() {
    let m = DielectricMaterial::dielectric(ONE);
    let s = Sphere::sphere(Vec3::new(0, 0, -ONE), ONE / 2, gray_lambertian());
    let r = Ray::ray(Vec3::new(0, 0, 0), Vec3::new(0, 0, -ONE));
    let rec = s.hit(&r, 66, i64::MAX / 2).expect("must hit");
    let mut rng = Rng::new(11);
    let (att, scattered) = m.scatter(&r, &rec, &mut rng).expect("never absorbs");
    assert_eq!(att, Vec3::one());
    assert_eq!(scattered.direction(), Vec3::new(0, 0, -ONE));
}

// Schlick's reflectance at head-on incidence equals r0; with a matched
// medium r0 is zero.
#[test]
fn test_refractance_head_on() {
    assert_eq!(DielectricMaterial::refractance(ONE, ONE), 0);
    // r0 for a ratio of two: ((1-2)/(1+2))^2 ~ 0.111, truncated in steps.
    assert_eq!(DielectricMaterial::refractance(ONE, 2 * ONE), 7281);
}

// Rendering with a seeded generator is reproducible bit for bit, and the
// raster is row-major with one triple per pixel.
#[test]
fn test_render_reproducible() {
    let mut world = HittableList::new();
    world.add(Hittable::Sphere(Sphere::sphere(
        Vec3::new(0, 0, -ONE),
        ONE / 2,
        gray_lambertian(),
    )));
    let cam = path_tracer::camera::Camera::camera(
        Vec3::new(0, 0, 0),
        Vec3::new(0, 0, -ONE),
        Vec3::new(0, ONE, 0),
        60 * ONE,
        2 * ONE,
        0,
        ONE,
    );
    let mut rng1 = Rng::new(42);
    let image1 = render(&cam, &world, 4, 3, 1, 3, &mut rng1);
    let mut rng2 = Rng::new(42);
    let image2 = render(&cam, &world, 4, 3, 1, 3, &mut rng2);
    assert_eq!(image1.len(), 12);
    assert_eq!(image1, image2);
    assert_eq!(rng1.state, rng2.state);
    for &(r, g, b) in image1.iter() {
        assert!(r <= 255 && g <= 255 && b <= 255);
    }

    // A different seed gives a different sample stream.
    let mut rng3 = Rng::new(43);
    let image3 = render(&cam, &world, 4, 3, 1, 3, &mut rng3);
    assert_eq!(image3.len(), 12);
}

// With a closed aperture the lens offset vanishes: every camera ray starts
// at the eye.
#[test]
fn test_camera_closed_aperture_rays() {
    let lookfrom = Vec3::new(0, 0, 0);
    let cam = path_tracer::camera::Camera::camera(
        lookfrom,
        Vec3::new(0, 0, -ONE),
        Vec3::new(0, ONE, 0),
        90 * ONE,
        ONE,
        0,
        ONE,
    );
    let mut rng = Rng::new(9);
    for _ in 0..5 {
        let r = cam.get_ray(ONE / 2, ONE / 2, &mut rng);
        assert_eq!(r.origin(), lookfrom);
    }
}

// A negative radius is the hollow-interior trick: the hit parameter is the
// same as for the positive sphere, but the outward normal flips, so the
// front-face flag flips with it.
#[test]
fn test_sphere_negative_radius_flips_face() {
    let outer = Sphere::sphere(Vec3::new(0, 0, -ONE), ONE / 2, gray_lambertian());
    let inner = Sphere::sphere(Vec3::new(0, 0, -ONE), -ONE / 2, gray_lambertian());
    let r = Ray::ray(Vec3::new(0, 0, 0), Vec3::new(0, 0, -ONE));
    let rec_outer = outer.hit(&r, 66, i64::MAX / 2).expect("must hit");
    let rec_inner = inner.hit(&r, 66, i64::MAX / 2).expect("must hit");
    assert_eq!(rec_inner.t, rec_outer.t);
    assert_eq!(rec_inner.normal, rec_outer.normal);
    assert!(rec_outer.front_face);
    assert!(!rec_inner.front_face);
}
