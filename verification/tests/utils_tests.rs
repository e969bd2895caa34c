//! Vector helpers, normalization accuracy, color resolution, and the
//! deterministic generator.

use path_tracer::rng::Rng;
use path_tracer::utils::Utils;
use path_tracer::vec3::Vec3;

const ONE: i64 = 65536;

#[test]
fn test_utils_unit_direction() {
    let v: Vec3 = Vec3::new(4 * ONE, 0, 0);
    assert_eq!(Utils::unit_vector(&v), Vec3::new(ONE, 0, 0))
}

#[test]
fn test_utils_dot() {
    let v1: Vec3 = Vec3::new(1 * ONE, 2 * ONE, 3 * ONE);
    let v2: Vec3 = Vec3::new(1 * ONE, 1 * ONE, 1 * ONE);
    assert_eq!(Utils::dot(&v1, &v2), 6 * ONE);
}

#[test]
fn test_uitls_cross() {
    let v1: Vec3 = Vec3::new(1 * ONE, 0, 0);
    let v2: Vec3 = Vec3::new(0, 1 * ONE, 0);
    assert_eq!(Utils::cross(&v1, &v2), Vec3::new(0, 0, 1 * ONE));
}

// For a non-zero vector, the unit vector has length one up to a few raw
// units, and its dot product with itself is one up to a few raw units.
#[test]
fn test_unit_vector_length_one() {
    let v: Vec3 = Vec3::new(3 * ONE, 4 * ONE, 0);
    let u = Utils::unit_vector(&v);
    assert_eq!(u, Vec3::new(39321, 52428, 0));
    let len = u.length();
    assert!(ONE - 4 <= len && len <= ONE + 1);
    assert_eq!(len, 65535);
    let d = u.dot(&u);
    assert!(ONE - 7 <= d && d <= ONE + 3);
    assert_eq!(d, 65534);
}

#[test]
fn test_clamp() {
    assert_eq!(Utils::clamp(5, 0, 10), 5);
    assert_eq!(Utils::clamp(-3, 0, 10), 0);
    assert_eq!(Utils::clamp(11, 0, 10), 10);
}

#[test]
fn test_degree_to_radians() {
    // 180 degrees is pi.
    assert_eq!(Utils::degree_to_radians(180 * ONE), 205887);
    // 90 degrees is pi / 2, up to truncation.
    let r = Utils::degree_to_radians(90 * ONE);
    assert!((r - 205887 / 2).abs() <= 1);
}

// The generator is a pure function of its seed.
#[test]
fn test_rng_deterministic() {
    let mut a = Rng::new(123);
    let mut b = Rng::new(123);
    assert_eq!(a.next_u64(), b.next_u64());
    assert_eq!(a.next_u64(), b.next_u64());
    let mut c = Rng::new(124);
    assert_ne!(a.state, 0);
    assert_eq!(a.state, b.state);
    let _ = c.next_u64();
    assert_ne!(c.state, a.state);
}

#[test]
fn test_random_double_in_unit_interval() {
    let mut rng = Rng::new(7);
    for _ in 0..100 {
        let u = Utils::random_double(&mut rng);
        assert!(0 <= u && u < ONE);
    }
}

#[test]
fn test_random_in_unit_shpere_inside() {
    let mut rng = Rng::new(99);
    for _ in 0..50 {
        let p = Utils::random_in_unit_shpere(&mut rng);
        assert!(p.length_squared() < ONE);
        assert!(p.length_squared() >= ONE / 16);
        assert!(!p.near_zero());
    }
}

#[test]
fn test_random_unit_vector_normalized() {
    let mut rng = Rng::new(5);
    for _ in 0..50 {
        let u = Utils::random_unit_vector(&mut rng);
        let len = u.length();
        assert!(ONE - 4 <= len && len <= ONE + 6, "length was {len}");
        let d = u.dot(&u);
        assert!(ONE - 7 <= d && d <= ONE + 13, "dot was {d}");
    }
}

// Accumulating n samples of pure white and resolving the pixel yields
// exactly white, (255, 255, 255).
#[test]
fn test_white_round_trip() {
    let n: u32 = 10;
    let mut sum = Vec3::zero();
    for _ in 0..n {
        sum.add_assign(Vec3::one());
    }
    assert_eq!(Utils::write_color(&sum, n), (255, 255, 255));
}

#[test]
fn test_write_color_black_and_negative() {
    assert_eq!(Utils::write_color(&Vec3::zero(), 4), (0, 0, 0));
    // A slightly negative channel (possible after rounding) resolves to zero.
    assert_eq!(Utils::write_color(&Vec3::new(-5, 0, 0), 1), (0, 0, 0));
}

#[test]
fn test_write_color_quarter_gray() {
    // 0.25 averaged over one sample, gamma-corrected to 0.5, scaled: 127.
    let v = Vec3::new(ONE / 4, ONE / 4, ONE / 4);
    assert_eq!(Utils::write_color(&v, 1), (128, 128, 128));
}
