//! A stochastic path tracer over saturating fixed-point arithmetic.
//!
//! Every real quantity is represented as a signed 64-bit integer scaled by
//! `SCALE` (so the value `x` stands for the real number `x / SCALE`), and
//! every arithmetic operation saturates into the representable band
//! `[-FX_MAX, FX_MAX]`.  Each executable function is specified exactly by a
//! spec-level mirror, so the whole rendering pipeline — geometry, materials,
//! the recursive radiance estimator and the sampling driver — is a
//! deterministic function of the scene, the camera and the seed of the
//! pseudo-random generator.

pub mod fixed;
pub mod vec3;
pub mod ray;
pub mod rng;
pub mod utils;
pub mod hittable;
pub mod sphere;
pub mod hittable_list;
pub mod material;
pub mod camera;
pub mod render;
