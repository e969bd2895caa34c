//! Three-component vectors over fixed-point scalars.
//!
//! The components double as colors (`r`, `g`, `b`).  Every operation is
//! specified exactly by a spec-level mirror built from the scalar mirrors in
//! `fixed`, so vector code is a deterministic function of its inputs.

use vstd::prelude::*;
use crate::fixed::{
    fx_ok, fx_add, fx_sub, fx_neg, fx_mul, fx_div, lemma_fx_mul_one, lemma_fx_mul_neg_one,
    spec_fx_add, spec_fx_sub, spec_fx_neg,
    spec_fx_mul, spec_fx_div, spec_fx_clamp, spec_tdiv, spec_mag, spec_sqrt_floor, spec_fx_sqrt,
    fx_sqrt, isqrt_u128, lemma_mul_bound, fx_seal, SCALE, FX_MAX,
};

verus! {

/// Components below this magnitude (one raw unit, the smallest non-zero
/// scalar) count as zero when testing for degenerate directions.
pub const NEAR_EPS: i64 = 1;

#[derive(Debug, Clone, Copy, PartialEq, Eq, Structural)]
pub struct Vec3 {
    pub x: i64,
    pub y: i64,
    pub z: i64,
}

/// All three components lie in the representable band.
pub open spec fn vec_ok(v: Vec3) -> bool {
    fx_ok(v.x) && fx_ok(v.y) && fx_ok(v.z)
}

pub open spec fn spec_v_add(a: Vec3, b: Vec3) -> Vec3 {
    Vec3 { x: spec_fx_add(a.x, b.x), y: spec_fx_add(a.y, b.y), z: spec_fx_add(a.z, b.z) }
}

pub open spec fn spec_v_sub(a: Vec3, b: Vec3) -> Vec3 {
    Vec3 { x: spec_fx_sub(a.x, b.x), y: spec_fx_sub(a.y, b.y), z: spec_fx_sub(a.z, b.z) }
}

pub open spec fn spec_v_neg(a: Vec3) -> Vec3 {
    Vec3 { x: spec_fx_neg(a.x), y: spec_fx_neg(a.y), z: spec_fx_neg(a.z) }
}

/// Component-wise product; how an albedo tints a color.
pub open spec fn spec_v_mul(a: Vec3, b: Vec3) -> Vec3 {
    Vec3 { x: spec_fx_mul(a.x, b.x), y: spec_fx_mul(a.y, b.y), z: spec_fx_mul(a.z, b.z) }
}

/// Scaling by a scalar.
pub open spec fn spec_v_scale(a: Vec3, t: i64) -> Vec3 {
    Vec3 { x: spec_fx_mul(a.x, t), y: spec_fx_mul(a.y, t), z: spec_fx_mul(a.z, t) }
}

/// Division by a (non-zero) scalar.
pub open spec fn spec_v_div(a: Vec3, t: i64) -> Vec3 {
    Vec3 { x: spec_fx_div(a.x, t), y: spec_fx_div(a.y, t), z: spec_fx_div(a.z, t) }
}

/// The exact integer `SCALE^2 * (a . b)`, before rescaling.
pub open spec fn spec_v_dot_raw(a: Vec3, b: Vec3) -> int {
    a.x * b.x + a.y * b.y + a.z * b.z
}

pub open spec fn spec_v_dot(a: Vec3, b: Vec3) -> i64 {
    spec_fx_clamp(spec_tdiv(spec_v_dot_raw(a, b), SCALE as int))
}

pub open spec fn spec_v_len2(v: Vec3) -> i64 {
    spec_v_dot(v, v)
}

/// Length of `v`: since the components carry one factor of `SCALE`, the
/// scaled length is exactly the integer square root of the raw dot product.
pub open spec fn spec_v_len(v: Vec3) -> i64 {
    spec_fx_clamp(spec_sqrt_floor(spec_v_dot_raw(v, v) as nat) as int)
}

pub open spec fn spec_v_cross(a: Vec3, b: Vec3) -> Vec3 {
    Vec3 {
        x: spec_fx_clamp(spec_tdiv(a.y * b.z - a.z * b.y, SCALE as int)),
        y: spec_fx_clamp(spec_tdiv(a.z * b.x - a.x * b.z, SCALE as int)),
        z: spec_fx_clamp(spec_tdiv(a.x * b.y - a.y * b.x, SCALE as int)),
    }
}

pub open spec fn spec_v_near_zero(v: Vec3) -> bool {
    spec_mag(v.x as int) < NEAR_EPS && spec_mag(v.y as int) < NEAR_EPS && spec_mag(
        v.z as int,
    ) < NEAR_EPS
}

/// `v - 2 (v . n) n`; the doubled dot product is exact (up to saturation).
pub open spec fn spec_v_reflect(v: Vec3, n: Vec3) -> Vec3 {
    let d = spec_v_dot(v, n);
    spec_v_sub(v, spec_v_scale(n, spec_fx_add(d, d)))
}

/// The unit vector along `v`; meaningful only for non-zero `v`.
pub open spec fn spec_v_unit(v: Vec3) -> Vec3 {
    spec_v_div(v, spec_v_len(v))
}

/// Vector Snell's law.  `eta` is the ratio of refractive indices; the radicand
/// of the parallel component is flattened to zero when rounding drives it
/// negative, the same silent correction applied to other degenerate geometry.
pub open spec fn spec_v_refract(uv: Vec3, n: Vec3, eta: i64) -> Vec3 {
    let d = spec_v_dot(spec_v_neg(uv), n);
    let cos_theta = if d > SCALE { SCALE } else { d };
    let perp = spec_v_scale(spec_v_add(uv, spec_v_scale(n, cos_theta)), eta);
    let par = spec_fx_sqrt(spec_fx_sub(SCALE, spec_v_len2(perp)));
    spec_v_sub(perp, spec_v_scale(n, par))
}

/// A non-degenerate vector has length at least one raw unit.
pub proof fn lemma_len_positive(v: Vec3)
    requires
        vec_ok(v),
        !spec_v_near_zero(v),
    ensures
        1 <= spec_v_len(v),
{
    let a = v.x as int;
    let b = v.y as int;
    let c = v.z as int;
    assert(a * a + b * b + c * c >= 1) by (nonlinear_arith)
        requires
            a <= -1 || a >= 1 || b <= -1 || b >= 1 || c <= -1 || c >= 1,
    ;
    let n = spec_v_dot_raw(v, v) as nat;
    crate::fixed::lemma_sqrt_floor_bounds(n);
    let s = spec_sqrt_floor(n);
    if s == 0 {
        assert((s + 1) * (s + 1) == 1) by (nonlinear_arith)
            requires
                s == 0nat,
        ;
    }
}

/// Rescale an exact product sum: truncate `n / SCALE` toward zero, saturate.
pub(crate) fn tdiv_scale(n: i128) -> (r: i64)
    requires
        n != i128::MIN,
    ensures
        r == spec_fx_clamp(spec_tdiv(n as int, SCALE as int)),
        fx_ok(r),
{
    if n >= 0 {
        fx_seal((n as u128) / (SCALE as u128), false)
    } else {
        fx_seal(((-n) as u128) / (SCALE as u128), true)
    }
}

/// One signed product of two well-formed scalars, exact in 128 bits.
fn prod(a: i64, b: i64) -> (r: i128)
    requires
        fx_ok(a),
        fx_ok(b),
    ensures
        r == a * b,
        -(FX_MAX as int) * (FX_MAX as int) <= r <= (FX_MAX as int) * (FX_MAX as int),
{
    proof {
        lemma_mul_bound(a as int, b as int, FX_MAX as int);
    }
    (a as i128) * (b as i128)
}

impl Vec3 {
    pub fn new(x: i64, y: i64, z: i64) -> (r: Vec3)
        requires
            fx_ok(x),
            fx_ok(y),
            fx_ok(z),
        ensures
            r == (Vec3 { x, y, z }),
            vec_ok(r),
    {
        Vec3 { x, y, z }
    }

    pub fn zero() -> (r: Vec3)
        ensures
            r == (Vec3 { x: 0i64, y: 0i64, z: 0i64 }),
            vec_ok(r),
    {
        Vec3 { x: 0, y: 0, z: 0 }
    }

    /// The color white: one in every channel.
    pub fn one() -> (r: Vec3)
        ensures
            r == (Vec3 { x: SCALE, y: SCALE, z: SCALE }),
            vec_ok(r),
    {
        Vec3 { x: SCALE, y: SCALE, z: SCALE }
    }

    pub fn x(&self) -> (r: i64)
        ensures
            r == self.x,
    {
        self.x
    }

    pub fn y(&self) -> (r: i64)
        ensures
            r == self.y,
    {
        self.y
    }

    pub fn z(&self) -> (r: i64)
        ensures
            r == self.z,
    {
        self.z
    }

    pub fn r(&self) -> (r: i64)
        ensures
            r == self.x,
    {
        self.x
    }

    pub fn g(&self) -> (r: i64)
        ensures
            r == self.y,
    {
        self.y
    }

    pub fn b(&self) -> (r: i64)
        ensures
            r == self.z,
    {
        self.z
    }

    pub fn add(self, rhs: Vec3) -> (r: Vec3)
        requires
            vec_ok(self),
            vec_ok(rhs),
        ensures
            r == spec_v_add(self, rhs),
            vec_ok(r),
    {
        Vec3 { x: fx_add(self.x, rhs.x), y: fx_add(self.y, rhs.y), z: fx_add(self.z, rhs.z) }
    }

    pub fn add_assign(&mut self, rhs: Vec3)
        requires
            vec_ok(*old(self)),
            vec_ok(rhs),
        ensures
            *final(self) == spec_v_add(*old(self), rhs),
            vec_ok(*final(self)),
    {
        *self = Vec3 {
            x: fx_add(self.x, rhs.x),
            y: fx_add(self.y, rhs.y),
            z: fx_add(self.z, rhs.z),
        };
    }

    pub fn sub(self, rhs: Vec3) -> (r: Vec3)
        requires
            vec_ok(self),
            vec_ok(rhs),
        ensures
            r == spec_v_sub(self, rhs),
            vec_ok(r),
    {
        Vec3 { x: fx_sub(self.x, rhs.x), y: fx_sub(self.y, rhs.y), z: fx_sub(self.z, rhs.z) }
    }

    pub fn sub_assign(&mut self, rhs: Vec3)
        requires
            vec_ok(*old(self)),
            vec_ok(rhs),
        ensures
            *final(self) == spec_v_sub(*old(self), rhs),
            vec_ok(*final(self)),
    {
        *self = Vec3 {
            x: fx_sub(self.x, rhs.x),
            y: fx_sub(self.y, rhs.y),
            z: fx_sub(self.z, rhs.z),
        };
    }

    pub fn neg(self) -> (r: Vec3)
        requires
            vec_ok(self),
        ensures
            r == spec_v_neg(self),
            vec_ok(r),
    {
        Vec3 { x: fx_neg(self.x), y: fx_neg(self.y), z: fx_neg(self.z) }
    }

    /// Component-wise product (albedo tinting).
    pub fn mul(self, rhs: Vec3) -> (r: Vec3)
        requires
            vec_ok(self),
            vec_ok(rhs),
        ensures
            r == spec_v_mul(self, rhs),
            vec_ok(r),
    {
        Vec3 { x: fx_mul(self.x, rhs.x), y: fx_mul(self.y, rhs.y), z: fx_mul(self.z, rhs.z) }
    }

    /// Scaling by a scalar.
    pub fn scale(self, t: i64) -> (r: Vec3)
        requires
            vec_ok(self),
            fx_ok(t),
        ensures
            r == spec_v_scale(self, t),
            vec_ok(r),
    {
        Vec3 { x: fx_mul(self.x, t), y: fx_mul(self.y, t), z: fx_mul(self.z, t) }
    }

    pub fn mul_assign(&mut self, t: i64)
        requires
            vec_ok(*old(self)),
            fx_ok(t),
        ensures
            *final(self) == spec_v_scale(*old(self), t),
            vec_ok(*final(self)),
    {
        *self = Vec3 { x: fx_mul(self.x, t), y: fx_mul(self.y, t), z: fx_mul(self.z, t) };
    }

    /// Division by a non-zero scalar.
    pub fn div(self, t: i64) -> (r: Vec3)
        requires
            vec_ok(self),
            fx_ok(t),
            t != 0,
        ensures
            r == spec_v_div(self, t),
            vec_ok(r),
    {
        Vec3 { x: fx_div(self.x, t), y: fx_div(self.y, t), z: fx_div(self.z, t) }
    }

    pub fn dot(&self, rhs: &Vec3) -> (r: i64)
        requires
            vec_ok(*self),
            vec_ok(*rhs),
        ensures
            r == spec_v_dot(*self, *rhs),
            fx_ok(r),
    {
        let s: i128 = prod(self.x, rhs.x) + prod(self.y, rhs.y) + prod(self.z, rhs.z);
        tdiv_scale(s)
    }

    pub fn cross(&self, rhs: &Vec3) -> (r: Vec3)
        requires
            vec_ok(*self),
            vec_ok(*rhs),
        ensures
            r == spec_v_cross(*self, *rhs),
            vec_ok(r),
    {
        Vec3 {
            x: tdiv_scale(prod(self.y, rhs.z) - prod(self.z, rhs.y)),
            y: tdiv_scale(prod(self.z, rhs.x) - prod(self.x, rhs.z)),
            z: tdiv_scale(prod(self.x, rhs.y) - prod(self.y, rhs.x)),
        }
    }

    pub fn length_squared(&self) -> (r: i64)
        requires
            vec_ok(*self),
        ensures
            r == spec_v_len2(*self),
            fx_ok(r),
    {
        self.dot(self)
    }

    pub fn length(&self) -> (r: i64)
        requires
            vec_ok(*self),
        ensures
            r == spec_v_len(*self),
            fx_ok(r),
            r >= 0,
    {
        let q: i128 = prod(self.x, self.x) + prod(self.y, self.y) + prod(self.z, self.z);
        proof {
            assert(self.x * self.x >= 0) by (nonlinear_arith);
            assert(self.y * self.y >= 0) by (nonlinear_arith);
            assert(self.z * self.z >= 0) by (nonlinear_arith);
        }
        let s = isqrt_u128(q as u128);
        if s > FX_MAX as u128 {
            FX_MAX
        } else {
            s as i64
        }
    }

    /// True when every component is smaller than one raw unit, the scaled
    /// analogue of the reference epsilon test for degenerate directions.
    pub fn near_zero(&self) -> (r: bool)
        requires
            vec_ok(*self),
        ensures
            r == spec_v_near_zero(*self),
    {
        self.x < NEAR_EPS && -self.x < NEAR_EPS && self.y < NEAR_EPS && -self.y < NEAR_EPS
            && self.z < NEAR_EPS && -self.z < NEAR_EPS
    }

    pub fn reflect(&self, n: Vec3) -> (r: Vec3)
        requires
            vec_ok(*self),
            vec_ok(n),
        ensures
            r == spec_v_reflect(*self, n),
            vec_ok(r),
    {
        let d = self.dot(&n);
        self.sub(n.scale(fx_add(d, d)))
    }

    pub fn refract(&self, n: Vec3, eta: i64) -> (r: Vec3)
        requires
            vec_ok(*self),
            vec_ok(n),
            fx_ok(eta),
        ensures
            r == spec_v_refract(*self, n, eta),
            vec_ok(r),
    {
        let d = self.neg().dot(&n);
        let cos_theta = if d > SCALE {
            SCALE
        } else {
            d
        };
        let perp = self.add(n.scale(cos_theta)).scale(eta);
        let par = fx_sqrt(fx_sub(SCALE, perp.length_squared()));
        perp.sub(n.scale(par))
    }
}

/// The cross product of the first two basis vectors is the third:
/// `e_x x e_y == e_z`, exactly.
pub proof fn lemma_cross_basis()
    ensures
        spec_v_cross(
            Vec3 { x: SCALE, y: 0i64, z: 0i64 },
            Vec3 { x: 0i64, y: SCALE, z: 0i64 },
        ) == (Vec3 { x: 0i64, y: 0i64, z: SCALE }),
{
    assert(0int * 0 == 0) by (nonlinear_arith);
    assert(0int * 65536 == 0) by (nonlinear_arith);
    assert(65536int * 0 == 0) by (nonlinear_arith);
    crate::fixed::lemma_tdiv_zero(SCALE as int);
    crate::fixed::lemma_tdiv_scale(SCALE);
}

/// `n` is one of the six axis-aligned unit vectors: the orientation of an
/// exactly representable mirror plane.
pub open spec fn spec_axis_unit(n: Vec3) -> bool {
    ||| n == (Vec3 { x: SCALE, y: 0i64, z: 0i64 })
    ||| n == (Vec3 { x: (-SCALE) as i64, y: 0i64, z: 0i64 })
    ||| n == (Vec3 { x: 0i64, y: SCALE, z: 0i64 })
    ||| n == (Vec3 { x: 0i64, y: (-SCALE) as i64, z: 0i64 })
    ||| n == (Vec3 { x: 0i64, y: 0i64, z: SCALE })
    ||| n == (Vec3 { x: 0i64, y: 0i64, z: (-SCALE) as i64 })
}

/// Reflection in a mirror-oriented plane flips the normal component of the
/// incident direction exactly: `dot(reflect(v, n), n) == -dot(v, n)` for an
/// axis-aligned unit normal and a direction within half the representable
/// band (so the doubled projection cannot saturate).  For a general unit
/// normal the identity holds only up to rounding.
pub proof fn lemma_reflect_mirror(v: Vec3, n: Vec3)
    requires
        vec_ok(v),
        spec_mag(v.x as int) <= FX_MAX / 2,
        spec_mag(v.y as int) <= FX_MAX / 2,
        spec_mag(v.z as int) <= FX_MAX / 2,
        spec_axis_unit(n),
    ensures
        spec_v_dot(spec_v_reflect(v, n), n) == spec_fx_neg(spec_v_dot(v, n)),
{
    lemma_axis_dot(v, n);
    let d = spec_v_dot(v, n);
    let t2 = spec_fx_add(d, d);
    assert(fx_ok(d) && spec_mag(d as int) <= FX_MAX / 2);
    lemma_fx_mul_one(t2);
    lemma_fx_mul_neg_one(t2);
    crate::fixed::lemma_fx_mul_zero(t2);
    let refl = spec_v_reflect(v, n);
    lemma_axis_dot(refl, n);
}

/// The dot product with an axis unit vector picks out (possibly negated) the
/// matching component, exactly.
proof fn lemma_axis_dot(v: Vec3, n: Vec3)
    requires
        vec_ok(v),
        spec_axis_unit(n),
    ensures
        n.x == SCALE ==> spec_v_dot(v, n) == v.x,
        n.x == -SCALE ==> spec_v_dot(v, n) == spec_fx_neg(v.x),
        n.y == SCALE ==> spec_v_dot(v, n) == v.y,
        n.y == -SCALE ==> spec_v_dot(v, n) == spec_fx_neg(v.y),
        n.z == SCALE ==> spec_v_dot(v, n) == v.z,
        n.z == -SCALE ==> spec_v_dot(v, n) == spec_fx_neg(v.z),
{
    assert(v.x * 0int == 0) by (nonlinear_arith);
    assert(v.y * 0int == 0) by (nonlinear_arith);
    assert(v.z * 0int == 0) by (nonlinear_arith);
    crate::fixed::lemma_tdiv_scale(v.x);
    crate::fixed::lemma_tdiv_scale(v.y);
    crate::fixed::lemma_tdiv_scale(v.z);
    assert(v.x * ((-SCALE) as int) == -(v.x * SCALE)) by (nonlinear_arith);
    assert(v.y * ((-SCALE) as int) == -(v.y * SCALE)) by (nonlinear_arith);
    assert(v.z * ((-SCALE) as int) == -(v.z * SCALE)) by (nonlinear_arith);
}

/// Reflection in a plane whose unit normal is exact only by the fixed-point
/// measure (`dot(n, n) == 1`) still flips the normal component of a
/// unit-scale incident direction up to ten raw units (about 1.5e-4):
/// `dot(reflect(v, n), n) == -dot(v, n)` within that tolerance.  The
/// axis-aligned case (`lemma_reflect_mirror`) is exact.
pub proof fn lemma_reflect_mirror_general(v: Vec3, n: Vec3)
    requires
        vec_ok(v),
        vec_ok(n),
        spec_mag(v.x as int) <= SCALE,
        spec_mag(v.y as int) <= SCALE,
        spec_mag(v.z as int) <= SCALE,
        spec_v_dot(n, n) == SCALE,
    ensures
        spec_mag(
            spec_v_dot(spec_v_reflect(v, n), n) + spec_v_dot(v, n),
        ) <= 10,
{
    let sc = SCALE as int;
    let a1 = v.x as int;
    let a2 = v.y as int;
    let a3 = v.z as int;
    let b1 = n.x as int;
    let b2 = n.y as int;
    let b3 = n.z as int;

    // The normal's raw square sum is one, up to its sub-unit remainder.
    let nn = spec_v_dot_raw(n, n);
    assert(nn == b1 * b1 + b2 * b2 + b3 * b3 && b1 * b1 >= 0 && b2 * b2 >= 0 && b3 * b3
        >= 0) by (nonlinear_arith)
        requires
            nn == b1 * b1 + b2 * b2 + b3 * b3,
    ;
    vstd::arithmetic::div_mod::lemma_fundamental_div_mod(nn, sc);
    let rn = nn % sc;
    assert(nn / sc == sc);
    assert(nn == sc * sc + rn) by (nonlinear_arith)
        requires
            nn == sc * (nn / sc) + rn,
            nn / sc == sc,
    ;

    // So each normal component is at most one.
    assert(-sc <= b1 <= sc && -sc <= b2 <= sc && -sc <= b3 <= sc) by (nonlinear_arith)
        requires
            b1 * b1 <= sc * sc + rn,
            b2 * b2 <= sc * sc + rn,
            b3 * b3 <= sc * sc + rn,
            0 <= rn < sc,
            sc == 65536,
    ;

    // The projection of the incident direction onto the normal.
    let dr = spec_v_dot_raw(v, n);
    crate::fixed::lemma_mul_bound(a1, b1, sc);
    crate::fixed::lemma_mul_bound(a2, b2, sc);
    crate::fixed::lemma_mul_bound(a3, b3, sc);
    assert(spec_mag(dr) <= 3 * (sc * sc));
    let d0 = spec_tdiv(dr, sc);
    crate::fixed::lemma_tdiv_close(dr, sc);
    let rho = dr - sc * d0;
    assert(spec_mag(d0) <= 3 * sc) by {
        crate::fixed::lemma_div_ordered(spec_mag(dr), 3 * (sc * sc), sc);
        assert((3 * (sc * sc)) / sc == 3 * sc) by {
            assert(3 * (sc * sc) == sc * (3 * sc) + 0) by (nonlinear_arith);
            vstd::arithmetic::div_mod::lemma_fundamental_div_mod_converse(
                3 * (sc * sc),
                sc,
                3 * sc,
                0,
            );
        }
    }
    assert(spec_v_dot(v, n) == d0);
    let t2 = spec_fx_add(spec_v_dot(v, n), spec_v_dot(v, n));
    assert(t2 == 2 * d0);

    // Each scaled normal component, with its sub-unit rounding error.
    let s1 = spec_tdiv(b1 * t2, sc);
    let s2 = spec_tdiv(b2 * t2, sc);
    let s3 = spec_tdiv(b3 * t2, sc);
    crate::fixed::lemma_mul_bound(b1, t2 as int, 6 * sc);
    crate::fixed::lemma_mul_bound(b2, t2 as int, 6 * sc);
    crate::fixed::lemma_mul_bound(b3, t2 as int, 6 * sc);
    crate::fixed::lemma_tdiv_close(b1 * t2, sc);
    crate::fixed::lemma_tdiv_close(b2 * t2, sc);
    crate::fixed::lemma_tdiv_close(b3 * t2, sc);
    let e1 = b1 * t2 - sc * s1;
    let e2 = b2 * t2 - sc * s2;
    let e3 = b3 * t2 - sc * s3;
    assert(spec_mag(s1) <= 36 * sc && spec_mag(s2) <= 36 * sc && spec_mag(s3) <= 36 * sc) by {
        crate::fixed::lemma_div_ordered(spec_mag(b1 * t2), 36 * (sc * sc), sc);
        crate::fixed::lemma_div_ordered(spec_mag(b2 * t2), 36 * (sc * sc), sc);
        crate::fixed::lemma_div_ordered(spec_mag(b3 * t2), 36 * (sc * sc), sc);
        assert((36 * (sc * sc)) / sc == 36 * sc) by {
            assert(36 * (sc * sc) == sc * (36 * sc) + 0) by (nonlinear_arith);
            vstd::arithmetic::div_mod::lemma_fundamental_div_mod_converse(
                36 * (sc * sc),
                sc,
                36 * sc,
                0,
            );
        }
    }
    let refl = spec_v_reflect(v, n);
    assert(refl.x as int == a1 - s1 && refl.y as int == a2 - s2 && refl.z as int == a3 - s3);

    // The reflected projection, in exact integers: first strip the
    // subtraction, then rescale the scaled components, then combine.
    let dr2 = spec_v_dot_raw(refl, n);
    let pp = s1 * b1 + s2 * b2 + s3 * b3;
    let ee = e1 * b1 + e2 * b2 + e3 * b3;
    assert(dr2 == dr - pp) by (nonlinear_arith)
        requires
            dr2 == (a1 - s1) * b1 + (a2 - s2) * b2 + (a3 - s3) * b3,
            dr == a1 * b1 + a2 * b2 + a3 * b3,
            pp == s1 * b1 + s2 * b2 + s3 * b3,
    ;
    assert(sc * (s1 * b1) == t2 * (b1 * b1) - e1 * b1) by (nonlinear_arith)
        requires
            e1 == b1 * t2 - sc * s1,
    ;
    assert(sc * (s2 * b2) == t2 * (b2 * b2) - e2 * b2) by (nonlinear_arith)
        requires
            e2 == b2 * t2 - sc * s2,
    ;
    assert(sc * (s3 * b3) == t2 * (b3 * b3) - e3 * b3) by (nonlinear_arith)
        requires
            e3 == b3 * t2 - sc * s3,
    ;
    assert(sc * pp == t2 * nn - ee) by (nonlinear_arith)
        requires
            sc * (s1 * b1) == t2 * (b1 * b1) - e1 * b1,
            sc * (s2 * b2) == t2 * (b2 * b2) - e2 * b2,
            sc * (s3 * b3) == t2 * (b3 * b3) - e3 * b3,
            pp == s1 * b1 + s2 * b2 + s3 * b3,
            ee == e1 * b1 + e2 * b2 + e3 * b3,
            nn == b1 * b1 + b2 * b2 + b3 * b3,
    ;
    assert(sc * (dr2 + sc * d0) == sc * rho - 2 * (rn * d0) + ee) by (nonlinear_arith)
        requires
            dr2 == dr - pp,
            sc * pp == t2 * nn - ee,
            dr == sc * d0 + rho,
            nn == sc * sc + rn,
            t2 == 2 * d0,
    ;
    crate::fixed::lemma_mul_bound(e1, b1, sc);
    crate::fixed::lemma_mul_bound(e2, b2, sc);
    crate::fixed::lemma_mul_bound(e3, b3, sc);
    assert(spec_mag(rn * d0) <= 3 * (sc * sc)) by (nonlinear_arith)
        requires
            0 <= rn < sc,
            spec_mag(d0) <= 3 * sc,
            d0 == spec_mag(d0) || d0 == -spec_mag(d0),
            sc == 65536,
    ;
    assert(spec_mag(dr2 + sc * d0) <= 10 * sc) by (nonlinear_arith)
        requires
            sc * (dr2 + sc * d0) == sc * rho - 2 * (rn * d0) + ee,
            ee == e1 * b1 + e2 * b2 + e3 * b3,
            spec_mag(rho) < sc,
            rho == spec_mag(rho) || rho == -spec_mag(rho),
            spec_mag(rn * d0) <= 3 * (sc * sc),
            rn * d0 == spec_mag(rn * d0) || rn * d0 == -spec_mag(rn * d0),
            spec_mag(e1 * b1) <= sc * sc,
            e1 * b1 == spec_mag(e1 * b1) || e1 * b1 == -spec_mag(e1 * b1),
            spec_mag(e2 * b2) <= sc * sc,
            e2 * b2 == spec_mag(e2 * b2) || e2 * b2 == -spec_mag(e2 * b2),
            spec_mag(e3 * b3) <= sc * sc,
            e3 * b3 == spec_mag(e3 * b3) || e3 * b3 == -spec_mag(e3 * b3),
            spec_mag(dr2 + sc * d0) == dr2 + sc * d0 || spec_mag(dr2 + sc * d0) == -(dr2 + sc
                * d0),
            sc == 65536,
    ;

    // Rescaling brackets the result within ten raw units of the negation.
    assert(spec_tdiv(dr2, sc) <= -d0 + 10) by {
        crate::fixed::lemma_tdiv_monotone(dr2, ((-d0 + 10) as i64) * SCALE, sc);
        crate::fixed::lemma_tdiv_scale((-d0 + 10) as i64);
        assert(((-d0 + 10) as i64) * SCALE == sc * (-d0 + 10)) by (nonlinear_arith)
            requires
                spec_mag(d0) <= 3 * sc,
                d0 == spec_mag(d0) || d0 == -spec_mag(d0),
                ((-d0 + 10) as i64) as int == -d0 + 10,
                sc == 65536,
                SCALE == 65536i64,
        ;
    }
    assert(spec_tdiv(dr2, sc) >= -d0 - 10) by {
        crate::fixed::lemma_tdiv_monotone(((-d0 - 10) as i64) * SCALE, dr2, sc);
        crate::fixed::lemma_tdiv_scale((-d0 - 10) as i64);
        assert(((-d0 - 10) as i64) * SCALE == sc * (-d0 - 10)) by (nonlinear_arith)
            requires
                spec_mag(d0) <= 3 * sc,
                d0 == spec_mag(d0) || d0 == -spec_mag(d0),
                ((-d0 - 10) as i64) as int == -d0 - 10,
                sc == 65536,
                SCALE == 65536i64,
        ;
    }
    assert(spec_v_dot(refl, n) == spec_tdiv(dr2, sc));
}

/// Normalization really normalizes: for a vector whose true length lies
/// between one and the saturation bound, the computed unit vector has length
/// one up to four raw units (about 6e-5), and its dot product with itself is
/// one up to seven raw units.
pub proof fn lemma_unit_length(v: Vec3)
    requires
        vec_ok(v),
        268435456 <= spec_v_dot_raw(v, v),
        spec_v_dot_raw(v, v) <= (FX_MAX as int) * (FX_MAX as int),
    ensures
        SCALE - 4 <= spec_v_len(spec_v_unit(v)) <= SCALE + 6,
        SCALE - 7 <= spec_v_dot(spec_v_unit(v), spec_v_unit(v)) <= SCALE + 13,
{
    let sc = SCALE as int;
    let a = v.x as int;
    let b = v.y as int;
    let c = v.z as int;
    let q = spec_v_dot_raw(v, v);
    let ma = spec_mag(a);
    let mb = spec_mag(b);
    let mc = spec_mag(c);
    assert(ma * ma == a * a && mb * mb == b * b && mc * mc == c * c && a * a >= 0 && b * b >= 0
        && c * c >= 0) by (nonlinear_arith)
        requires
            ma == a || ma == -a,
            mb == b || mb == -b,
            mc == c || mc == -c,
    ;

    // The computed length is exactly the integer root of the raw square sum.
    crate::fixed::lemma_sqrt_floor_bounds(q as nat);
    let l = spec_sqrt_floor(q as nat) as int;
    if 4 * l < sc {
        crate::fixed::lemma_square_ordered(l + 1, 16384);
        assert(false);
    }
    if l > FX_MAX as int {
        crate::fixed::lemma_square_ordered(FX_MAX as int + 1, l);
        assert((FX_MAX as int + 1) * (FX_MAX as int + 1) > (FX_MAX as int) * (
        FX_MAX as int)) by (nonlinear_arith);
        assert(false);
    }
    assert(spec_v_len(v) == l);

    // Each unit component is the floored quotient of the scaled component.
    let mx = (ma * sc) / l;
    let my = (mb * sc) / l;
    let mz = (mc * sc) / l;
    crate::fixed::lemma_mul_mag(a, sc);
    crate::fixed::lemma_mul_mag(b, sc);
    crate::fixed::lemma_mul_mag(c, sc);
    assert(spec_mag(a * sc) == ma * sc && spec_mag(b * sc) == mb * sc && spec_mag(c * sc) == mc
        * sc);

    // Components never exceed the length, so unit components never exceed one.
    assert(ma <= l && mb <= l && mc <= l) by (nonlinear_arith)
        requires
            ma * ma <= q,
            mb * mb <= q,
            mc * mc <= q,
            q < (l + 1) * (l + 1),
            0 <= ma,
            0 <= mb,
            0 <= mc,
            0 <= l,
            ma * ma == a * a,
            mb * mb == b * b,
            mc * mc == c * c,
            q == a * a + b * b + c * c,
            a * a >= 0,
            b * b >= 0,
            c * c >= 0,
    ;
    assert((l * sc) / l == sc) by {
        assert(l * sc == l * sc + 0) by (nonlinear_arith);
        vstd::arithmetic::div_mod::lemma_fundamental_div_mod_converse(l * sc, l, sc, 0);
    }
    crate::fixed::lemma_div_ordered(ma * sc, l * sc, l);
    crate::fixed::lemma_div_ordered(mb * sc, l * sc, l);
    crate::fixed::lemma_div_ordered(mc * sc, l * sc, l);
    assert(ma * sc <= l * sc && mb * sc <= l * sc && mc * sc <= l * sc) by (nonlinear_arith)
        requires
            ma <= l && mb <= l && mc <= l,
            sc == 65536,
    ;
    assert(0 <= mx <= sc && 0 <= my <= sc && 0 <= mz <= sc);

    // The unit components square to the magnitudes' squares.
    let u = spec_v_unit(v);
    assert(u.x == mx || u.x as int == -mx);
    assert(u.y == my || u.y as int == -my);
    assert(u.z == mz || u.z as int == -mz);
    let qu = spec_v_dot_raw(u, u);
    assert(qu == mx * mx + my * my + mz * mz && mx * mx >= 0 && my * my >= 0 && mz * mz
        >= 0) by (nonlinear_arith)
        requires
            qu == (u.x as int) * (u.x as int) + (u.y as int) * (u.y as int) + (u.z as int) * (
            u.z as int),
            u.x == mx || u.x as int == -mx,
            u.y == my || u.y as int == -my,
            u.z == mz || u.z as int == -mz,
    ;

    // Floored quotients bracket the exact ones.
    vstd::arithmetic::div_mod::lemma_fundamental_div_mod(ma * sc, l);
    vstd::arithmetic::div_mod::lemma_fundamental_div_mod(mb * sc, l);
    vstd::arithmetic::div_mod::lemma_fundamental_div_mod(mc * sc, l);
    let rx = (ma * sc) % l;
    let ry = (mb * sc) % l;
    let rz = (mc * sc) % l;

    // Upper bound: qu * l^2 <= q * sc^2 < (l+1)^2 sc^2, so qu <= sc^2 + 3 sc.
    assert(mx * mx * (l * l) <= ma * ma * (sc * sc)) by (nonlinear_arith)
        requires
            ma * sc == l * mx + rx,
            0 <= rx,
            0 <= mx,
            0 <= l,
            0 <= ma,
            0 <= sc,
    ;
    assert(my * my * (l * l) <= mb * mb * (sc * sc)) by (nonlinear_arith)
        requires
            mb * sc == l * my + ry,
            0 <= ry,
            0 <= my,
            0 <= l,
            0 <= mb,
            0 <= sc,
    ;
    assert(mz * mz * (l * l) <= mc * mc * (sc * sc)) by (nonlinear_arith)
        requires
            mc * sc == l * mz + rz,
            0 <= rz,
            0 <= mz,
            0 <= l,
            0 <= mc,
            0 <= sc,
    ;
    assert(qu * (l * l) <= q * (sc * sc)) by (nonlinear_arith)
        requires
            mx * mx * (l * l) <= ma * ma * (sc * sc),
            my * my * (l * l) <= mb * mb * (sc * sc),
            mz * mz * (l * l) <= mc * mc * (sc * sc),
            qu == mx * mx + my * my + mz * mz,
            q == a * a + b * b + c * c,
            ma * ma == a * a,
            mb * mb == b * b,
            mc * mc == c * c,
    ;
    assert(qu <= sc * sc + 13 * sc) by (nonlinear_arith)
        requires
            qu * (l * l) <= q * (sc * sc),
            q < (l + 1) * (l + 1),
            4 * l >= sc,
            sc == 65536,
            0 <= qu,
    ;

    // Lower bound: q * sc^2 < (qu + 2 (mx+my+mz) + 3) l^2, so qu >= sc^2 - 6 sc - 2.
    assert(ma * ma * (sc * sc) < (l * mx + l) * (l * mx + l)) by (nonlinear_arith)
        requires
            ma * sc == l * mx + rx,
            0 <= rx < l,
            0 <= ma,
            0 <= sc,
    ;
    assert(mb * mb * (sc * sc) < (l * my + l) * (l * my + l)) by (nonlinear_arith)
        requires
            mb * sc == l * my + ry,
            0 <= ry < l,
            0 <= mb,
            0 <= sc,
    ;
    assert(mc * mc * (sc * sc) < (l * mz + l) * (l * mz + l)) by (nonlinear_arith)
        requires
            mc * sc == l * mz + rz,
            0 <= rz < l,
            0 <= mc,
            0 <= sc,
    ;
    assert(ma * ma * (sc * sc) < (mx * mx + 2 * mx + 1) * (l * l)) by (nonlinear_arith)
        requires
            ma * ma * (sc * sc) < (l * mx + l) * (l * mx + l),
    ;
    assert(mb * mb * (sc * sc) < (my * my + 2 * my + 1) * (l * l)) by (nonlinear_arith)
        requires
            mb * mb * (sc * sc) < (l * my + l) * (l * my + l),
    ;
    assert(mc * mc * (sc * sc) < (mz * mz + 2 * mz + 1) * (l * l)) by (nonlinear_arith)
        requires
            mc * mc * (sc * sc) < (l * mz + l) * (l * mz + l),
    ;
    assert(q * (sc * sc) < (qu + 2 * (mx + my + mz) + 3) * (l * l)) by (nonlinear_arith)
        requires
            ma * ma * (sc * sc) < (mx * mx + 2 * mx + 1) * (l * l),
            mb * mb * (sc * sc) < (my * my + 2 * my + 1) * (l * l),
            mc * mc * (sc * sc) < (mz * mz + 2 * mz + 1) * (l * l),
            qu == mx * mx + my * my + mz * mz,
            q == a * a + b * b + c * c,
            ma * ma == a * a,
            mb * mb == b * b,
            mc * mc == c * c,
    ;
    assert(sc * sc < qu + 2 * (mx + my + mz) + 3) by (nonlinear_arith)
        requires
            q * (sc * sc) < (qu + 2 * (mx + my + mz) + 3) * (l * l),
            l * l <= q,
            0 < l,
            0 < sc,
    ;
    assert(qu >= sc * sc - 6 * sc - 2);

    // The root of the unit square sum lies within four raw units of one.
    crate::fixed::lemma_sqrt_floor_bounds(qu as nat);
    let su = spec_sqrt_floor(qu as nat) as int;
    if su > sc + 6 {
        crate::fixed::lemma_square_ordered(sc + 7, su);
        assert((sc + 7) * (sc + 7) > sc * sc + 13 * sc) by (nonlinear_arith)
            requires
                sc == 65536,
        ;
        assert(false);
    }
    if su < sc - 4 {
        crate::fixed::lemma_square_ordered(su + 1, sc - 4);
        assert((sc - 4) * (sc - 4) <= sc * sc - 6 * sc - 2) by (nonlinear_arith)
            requires
                sc == 65536,
        ;
        assert(false);
    }
    assert(spec_v_len(u) == su);

    // And the rescaled dot product lies within seven raw units of one.
    assert(spec_mag(qu) == qu);
    let du = qu / sc;
    assert((sc - 7) * sc <= qu) by (nonlinear_arith)
        requires
            qu >= sc * sc - 6 * sc - 2,
            sc == 65536,
    ;
    assert(qu <= (sc + 13) * sc) by (nonlinear_arith)
        requires
            qu <= sc * sc + 13 * sc,
            sc == 65536,
    ;
    assert(((sc - 7) * sc) / sc == sc - 7) by {
        assert((sc - 7) * sc == sc * (sc - 7) + 0) by (nonlinear_arith);
        vstd::arithmetic::div_mod::lemma_fundamental_div_mod_converse(
            (sc - 7) * sc,
            sc,
            sc - 7,
            0,
        );
    }
    assert(((sc + 13) * sc) / sc == sc + 13) by {
        assert((sc + 13) * sc == sc * (sc + 13) + 0) by (nonlinear_arith);
        vstd::arithmetic::div_mod::lemma_fundamental_div_mod_converse(
            (sc + 13) * sc,
            sc,
            sc + 13,
            0,
        );
    }
    crate::fixed::lemma_div_ordered((sc - 7) * sc, qu, sc);
    crate::fixed::lemma_div_ordered(qu, (sc + 13) * sc, sc);
    assert(sc - 7 <= du <= sc + 13);
    assert(spec_v_dot(u, u) == du);
}

} // verus!
