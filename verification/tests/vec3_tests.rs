//! Component-wise vector arithmetic, in scaled fixed-point values
//! (65536 stands for 1.0).

use path_tracer::vec3::Vec3;

const ONE: i64 = 65536;

#[test]
fn test_vec3_add() {
    let v1: Vec3 = Vec3::new(1 * ONE, 2 * ONE, 3 * ONE);
    let v2: Vec3 = Vec3::new(2 * ONE, 4 * ONE, 6 * ONE);
    let v3: Vec3 = Vec3::new(3 * ONE, 6 * ONE, 9 * ONE);
    assert_eq!(v1.add(v2), v3);
}

#[test]
fn test_vec3_sub() {
    let v1: Vec3 = Vec3::new(1 * ONE, 2 * ONE, 3 * ONE);
    let v2: Vec3 = Vec3::new(2 * ONE, 4 * ONE, 6 * ONE);
    let v3: Vec3 = Vec3::new(-1 * ONE, -2 * ONE, -3 * ONE);
    assert_eq!(v1.sub(v2), v3);
}

#[test]
fn test_vec3_neg() {
    let v1: Vec3 = Vec3::new(1 * ONE, 2 * ONE, 3 * ONE);
    let v2: Vec3 = Vec3::new(-1 * ONE, -2 * ONE, -3 * ONE);
    assert_eq!(v1.neg(), v2);
}

#[test]
fn test_vec3_mul() {
    let v1: Vec3 = Vec3::new(1 * ONE, 2 * ONE, 3 * ONE);
    let t: i64 = 2 * ONE;
    let v2: Vec3 = Vec3::new(2 * ONE, 4 * ONE, 6 * ONE);
    assert_eq!(v1.scale(t), v2);
    assert_eq!(v2.scale(ONE), v2);

    let v3: Vec3 = Vec3::new(2 * ONE, 8 * ONE, 18 * ONE);
    assert_eq!(v1.mul(v2), v3);
}

#[test]
fn test_vec3_mul_assign() {
    let mut v1: Vec3 = Vec3::new(1 * ONE, 2 * ONE, 3 * ONE);
    let t: i64 = -2 * ONE;
    let v2: Vec3 = Vec3::new(-2 * ONE, -4 * ONE, -6 * ONE);
    v1.mul_assign(t);
    assert_eq!(v1, v2);
}

#[test]
fn test_vec3_div() {
    let v1: Vec3 = Vec3::new(1 * ONE, 2 * ONE, 3 * ONE);
    let t: i64 = 2 * ONE;
    let v2: Vec3 = Vec3::new(ONE / 2, 1 * ONE, 3 * ONE / 2);
    assert_eq!(v1.div(t), v2);
}

#[test]
fn test_vec3_dot() {
    let v1: Vec3 = Vec3::new(1 * ONE, 2 * ONE, 3 * ONE);
    let v2: Vec3 = Vec3::new(1 * ONE, 1 * ONE, 1 * ONE);
    assert_eq!(v1.dot(&v2), 6 * ONE);
}

#[test]
fn test_vec3_cross() {
    let v1: Vec3 = Vec3::new(1 * ONE, 0, 0);
    let v2: Vec3 = Vec3::new(0, 1 * ONE, 0);
    assert_eq!(v1.cross(&v2), Vec3::new(0, 0, 1 * ONE));
}

#[test]
fn test_vec3_length_square() {
    let v1: Vec3 = Vec3::new(1 * ONE, 2 * ONE, 3 * ONE);
    assert_eq!(v1.length_squared(), 14 * ONE);
}

#[test]
fn test_vec3_length() {
    let v1: Vec3 = Vec3::new(0, 4 * ONE, 3 * ONE);
    assert_eq!(v1.length(), 5 * ONE);
}

#[test]
fn test_vec3_add_assign_and_sub_assign() {
    let mut v: Vec3 = Vec3::new(ONE, 0, -ONE);
    v.add_assign(Vec3::new(ONE, ONE, ONE));
    assert_eq!(v, Vec3::new(2 * ONE, ONE, 0));
    v.sub_assign(Vec3::new(2 * ONE, 0, 0));
    assert_eq!(v, Vec3::new(0, ONE, 0));
}

#[test]
fn test_vec3_near_zero() {
    assert!(Vec3::new(0, 0, 0).near_zero());
    assert!(!Vec3::new(1, 0, 0).near_zero());
    assert!(!Vec3::new(0, 0, -1).near_zero());
}

// Reflection in an axis-aligned mirror plane flips the normal component:
// dot(reflect(v, n), n) == -dot(v, n).
#[test]
fn test_vec3_reflect_mirror() {
    let v: Vec3 = Vec3::new(ONE, -ONE, 0);
    let n: Vec3 = Vec3::new(0, ONE, 0);
    let d = v.dot(&n);
    assert_eq!(d, -ONE);
    let r = v.reflect(n);
    assert_eq!(r, Vec3::new(ONE, ONE, 0));
    assert_eq!(r.dot(&n), -d);
}

// Refraction with a matched medium (ratio one) at head-on incidence passes
// straight through.
#[test]
fn test_vec3_refract_matched() {
    let uv: Vec3 = Vec3::new(0, 0, -ONE);
    let n: Vec3 = Vec3::new(0, 0, ONE);
    assert_eq!(uv.refract(n, ONE), uv);
}

// Arithmetic saturates at the representable band instead of wrapping.
#[test]
fn test_vec3_saturating_band() {
    const FX_MAX: i64 = 0x4000_0000_0000_0000;
    let big: Vec3 = Vec3::new(FX_MAX, 0, -FX_MAX);
    let sum = big.add(big);
    assert_eq!(sum, Vec3::new(FX_MAX, 0, -FX_MAX));
    let sq = big.scale(FX_MAX);
    assert_eq!(sq.x, FX_MAX);
    assert_eq!(sq.z, -FX_MAX);
}

// For a non-axis unit normal the mirror identity holds within ten raw
// units: rounding keeps it from being exact.
#[test]
fn test_vec3_reflect_diagonal_mirror() {
    // A diagonal normal whose fixed-point square length is exactly one.
    let n: Vec3 = Vec3::new(46341, 46341, 0);
    assert_eq!(n.dot(&n), ONE);
    let v: Vec3 = Vec3::new(30000, -50000, 10000);
    let d = v.dot(&n);
    let r = v.reflect(n);
    let flipped = r.dot(&n);
    assert!((flipped + d).abs() <= 10, "residue was {}", flipped + d);
}
