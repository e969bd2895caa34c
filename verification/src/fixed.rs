//! Saturating fixed-point scalars.
//!
//! A scalar is an `i64` holding `SCALE` times its real value.  Results of
//! every operation are clamped into `[-FX_MAX, FX_MAX]`, so the operations
//! are total on well-formed inputs and closed over well-formedness.
//! Multiplication and division truncate toward zero, as the sign-magnitude
//! executable code computes them; `spec_tdiv` is that rounding rule.

use vstd::prelude::*;

verus! {

/// One, in fixed-point representation: values carry 16 fractional bits.
pub const SCALE: i64 = 65536;

/// Largest representable magnitude (2^62); all operations saturate here.
pub const FX_MAX: i64 = 0x4000_0000_0000_0000;

/// A scalar is well formed when it lies in the saturation band.
pub open spec fn fx_ok(a: i64) -> bool {
    -FX_MAX <= a <= FX_MAX
}

/// Magnitude of a mathematical integer.
pub open spec fn spec_mag(x: int) -> int {
    if x < 0 { -x } else { x }
}

/// Division truncating toward zero, the rounding of all fixed-point ops.
pub open spec fn spec_tdiv(n: int, d: int) -> int {
    if (n < 0) != (d < 0) {
        -(spec_mag(n) / spec_mag(d))
    } else {
        spec_mag(n) / spec_mag(d)
    }
}

/// Saturation into the representable band.
pub open spec fn spec_fx_clamp(x: int) -> i64 {
    if x > FX_MAX {
        FX_MAX
    } else if x < -FX_MAX {
        (-FX_MAX) as i64
    } else {
        x as i64
    }
}

pub open spec fn spec_fx_add(a: i64, b: i64) -> i64 {
    spec_fx_clamp(a + b)
}

pub open spec fn spec_fx_sub(a: i64, b: i64) -> i64 {
    spec_fx_clamp(a - b)
}

pub open spec fn spec_fx_neg(a: i64) -> i64 {
    spec_fx_clamp(-a)
}

pub open spec fn spec_fx_mul(a: i64, b: i64) -> i64 {
    spec_fx_clamp(spec_tdiv(a * b, SCALE as int))
}

pub open spec fn spec_fx_div(a: i64, b: i64) -> i64 {
    spec_fx_clamp(spec_tdiv(a * SCALE, b as int))
}

/// Floor of the square root, defined by counting up; `lemma_sqrt_floor_bounds`
/// shows it is the usual integer square root.
pub open spec fn spec_sqrt_floor(n: nat) -> nat
    decreases n,
{
    if n == 0 {
        0
    } else {
        let r = spec_sqrt_floor((n - 1) as nat);
        if (r + 1) * (r + 1) <= n {
            r + 1
        } else {
            r
        }
    }
}

/// Square root of a scalar: `sqrt(a / SCALE) * SCALE == sqrt(a * SCALE)`.
/// Negative inputs are flattened to zero, the same silent correction the
/// scattering code applies to other degenerate geometry.
pub open spec fn spec_fx_sqrt(a: i64) -> i64 {
    if a <= 0 {
        0
    } else {
        spec_sqrt_floor((a * SCALE) as nat) as i64
    }
}

/// A product of two integers is the signed product of their magnitudes.
pub proof fn lemma_mul_mag(a: int, b: int)
    ensures
        a * b == if (a < 0) != (b < 0) {
            -(spec_mag(a) * spec_mag(b))
        } else {
            spec_mag(a) * spec_mag(b)
        },
{
    if a < 0 {
        if b < 0 {
            assert(a * b == (-a) * (-b)) by (nonlinear_arith);
        } else {
            assert(a * b == -((-a) * b)) by (nonlinear_arith);
        }
    } else {
        if b < 0 {
            assert(a * b == -(a * (-b))) by (nonlinear_arith);
        }
    }
}

/// Bound on a product from bounds on the factors.
pub proof fn lemma_mul_bound(a: int, b: int, m: int)
    by (nonlinear_arith)
    requires
        -m <= a <= m,
        -m <= b <= m,
        0 <= m,
    ensures
        -(m * m) <= a * b <= m * m,
{
}

/// Squares are ordered as their non-negative roots are.
pub proof fn lemma_square_ordered(a: int, b: int)
    by (nonlinear_arith)
    requires
        0 <= a <= b,
    ensures
        a * a <= b * b,
{
}

/// `spec_sqrt_floor` really is the floor of the square root.
pub proof fn lemma_sqrt_floor_bounds(n: nat)
    ensures
        spec_sqrt_floor(n) * spec_sqrt_floor(n) <= n,
        n < (spec_sqrt_floor(n) + 1) * (spec_sqrt_floor(n) + 1),
    decreases n,
{
    let s = spec_sqrt_floor(n);
    if n == 0 {
        assert(s * s <= n && n < (s + 1) * (s + 1)) by (nonlinear_arith)
            requires
                s == 0,
                n == 0,
        ;
    } else {
        lemma_sqrt_floor_bounds((n - 1) as nat);
        let r = spec_sqrt_floor((n - 1) as nat);
        if (r + 1) * (r + 1) <= n {
            assert(s == r + 1);
            assert(s * s <= n && n < (s + 1) * (s + 1)) by (nonlinear_arith)
                requires
                    s == r + 1,
                    (r + 1) * (r + 1) <= n,
                    n - 1 < (r + 1) * (r + 1),
            ;
        } else {
            assert(s == r);
            assert(s * s <= n && n < (s + 1) * (s + 1)) by (nonlinear_arith)
                requires
                    s == r,
                    r * r <= n - 1,
                    !((r + 1) * (r + 1) <= n),
            ;
        }
    }
}

/// The floor of the square root is monotone.
pub proof fn lemma_sqrt_floor_monotone(n1: nat, n2: nat)
    requires
        n1 <= n2,
    ensures
        spec_sqrt_floor(n1) <= spec_sqrt_floor(n2),
{
    lemma_sqrt_floor_bounds(n1);
    lemma_sqrt_floor_bounds(n2);
    let s1 = spec_sqrt_floor(n1);
    let s2 = spec_sqrt_floor(n2);
    if s1 > s2 {
        lemma_square_ordered(s2 as int + 1, s1 as int);
    }
}

/// The floor of the square root is the only integer between the two squares.
pub proof fn lemma_sqrt_floor_unique(n: nat, r: nat)
    requires
        r * r <= n,
        n < (r + 1) * (r + 1),
    ensures
        r == spec_sqrt_floor(n),
{
    let s = spec_sqrt_floor(n);
    lemma_sqrt_floor_bounds(n);
    if r < s {
        lemma_square_ordered(r as int + 1, s as int);
    }
    if s < r {
        lemma_square_ordered(s as int + 1, r as int);
    }
}

/// Truncating division by `SCALE` undoes multiplication by `SCALE`.
pub proof fn lemma_tdiv_scale(x: i64)
    ensures
        spec_tdiv(x * SCALE, SCALE as int) == x,
        spec_tdiv(-(x * SCALE), SCALE as int) == -(x as int),
{
    lemma_mul_mag(x as int, SCALE as int);
    let m = spec_mag(x as int);
    assert((m * SCALE) / (SCALE as int) == m) by {
        assert(m * SCALE == SCALE * m + 0) by (nonlinear_arith);
        vstd::arithmetic::div_mod::lemma_fundamental_div_mod_converse(m * SCALE, SCALE as int, m, 0);
    }
}

/// Multiplying by one (the scale) is the identity, either way round.
pub proof fn lemma_fx_mul_one(x: i64)
    requires
        fx_ok(x),
    ensures
        spec_fx_mul(x, SCALE) == x,
        spec_fx_mul(SCALE, x) == x,
{
    lemma_tdiv_scale(x);
    assert(SCALE * x == x * SCALE) by (nonlinear_arith);
}

/// Multiplying by zero gives zero, either way round.
pub proof fn lemma_fx_mul_zero(x: i64)
    ensures
        spec_fx_mul(x, 0) == 0,
        spec_fx_mul(0, x) == 0,
{
    assert(x * 0 == 0) by (nonlinear_arith);
    assert(0 * x == 0) by (nonlinear_arith);
    assert(spec_mag(0) / spec_mag(SCALE as int) == 0) by {
        assert(0int == SCALE * 0 + 0) by (nonlinear_arith);
        vstd::arithmetic::div_mod::lemma_fundamental_div_mod_converse(0, SCALE as int, 0, 0);
    }
}

/// Multiplying by minus one (the negated scale) negates, either way round.
pub proof fn lemma_fx_mul_neg_one(x: i64)
    requires
        fx_ok(x),
    ensures
        spec_fx_mul(x, (-SCALE) as i64) == spec_fx_neg(x),
        spec_fx_mul((-SCALE) as i64, x) == spec_fx_neg(x),
{
    lemma_tdiv_scale(x);
    assert(x * ((-SCALE) as i64) == -(x * SCALE)) by (nonlinear_arith)
        requires
            SCALE == 65536i64,
    ;
    assert(((-SCALE) as i64) * x == -(x * SCALE)) by (nonlinear_arith)
        requires
            SCALE == 65536i64,
    ;
}

/// The square root of one (the scale) is one.
pub proof fn lemma_fx_sqrt_one()
    ensures
        spec_fx_sqrt(SCALE) == SCALE,
{
    assert(65536int * 65536 == 4294967296) by (nonlinear_arith);
    assert(65537int * 65537 == 4295098369) by (nonlinear_arith);
    lemma_sqrt_floor_unique(4294967296nat, 65536nat);
}

/// Zero divided by anything non-zero is zero.
pub proof fn lemma_tdiv_zero(d: int)
    requires
        d != 0,
    ensures
        spec_tdiv(0, d) == 0,
{
    assert(spec_mag(0) / spec_mag(d) == 0) by {
        assert(0int == spec_mag(d) * 0 + 0) by (nonlinear_arith);
        vstd::arithmetic::div_mod::lemma_fundamental_div_mod_converse(0, spec_mag(d), 0, 0);
    }
}

/// A zero numerator divides to zero.
pub proof fn lemma_fx_div_zero(b: i64)
    requires
        b != 0,
    ensures
        spec_fx_div(0, b) == 0,
{
    assert(0 * SCALE == 0) by (nonlinear_arith);
    lemma_tdiv_zero(b as int);
}

/// A non-negative integer does not grow when divided by a positive one.
pub proof fn lemma_div_le_self(x: int, d: int)
    requires
        0 <= x,
        1 <= d,
    ensures
        0 <= x / d <= x,
{
    vstd::arithmetic::div_mod::lemma_fundamental_div_mod(x, d);
    let q = x / d;
    let r = x % d;
    assert(0 <= q && q <= x) by (nonlinear_arith)
        requires
            x == d * q + r,
            0 <= r < d,
            1 <= d,
            0 <= x,
    ;
}

/// Division by a positive integer is monotone in the numerator.
pub proof fn lemma_div_ordered(x: int, y: int, d: int)
    requires
        0 <= x <= y,
        0 < d,
    ensures
        x / d <= y / d,
{
    vstd::arithmetic::div_mod::lemma_fundamental_div_mod(x, d);
    vstd::arithmetic::div_mod::lemma_fundamental_div_mod(y, d);
    let qx = x / d;
    let rx = x % d;
    let qy = y / d;
    let ry = y % d;
    assert(qx <= qy) by (nonlinear_arith)
        requires
            x == d * qx + rx,
            y == d * qy + ry,
            0 <= rx < d,
            0 <= ry < d,
            0 <= x <= y,
            0 < d,
    ;
}

/// Truncating division by a positive integer is monotone in the numerator.
pub proof fn lemma_tdiv_monotone(n1: int, n2: int, d: int)
    requires
        n1 <= n2,
        0 < d,
    ensures
        spec_tdiv(n1, d) <= spec_tdiv(n2, d),
{
    if n1 >= 0 {
        lemma_div_ordered(n1, n2, d);
    } else if n2 < 0 {
        lemma_div_ordered(-n2, -n1, d);
    } else {
        lemma_div_ordered(0, -n1, d);
        lemma_div_ordered(0, n2, d);
        assert(0int / d == 0) by {
            lemma_tdiv_zero(d);
        }
    }
}

/// Truncating division leaves a remainder smaller than the divisor.
pub proof fn lemma_tdiv_close(n: int, d: int)
    requires
        0 < d,
    ensures
        spec_mag(n - d * spec_tdiv(n, d)) < d,
        spec_mag(spec_tdiv(n, d)) == spec_mag(n) / d,
{
    let t = spec_tdiv(n, d);
    if n >= 0 {
        vstd::arithmetic::div_mod::lemma_fundamental_div_mod(n, d);
        assert(d * t == d * (n / d)) by (nonlinear_arith)
            requires
                t == n / d,
        ;
    } else {
        vstd::arithmetic::div_mod::lemma_fundamental_div_mod(-n, d);
        let q = (-n) / d;
        assert(d * t == -(d * q)) by (nonlinear_arith)
            requires
                t == -q,
        ;
    }
}

/// Saturation is monotone.
pub proof fn lemma_clamp_monotone(x1: int, x2: int)
    requires
        x1 <= x2,
    ensures
        spec_fx_clamp(x1) <= spec_fx_clamp(x2),
{
}

/// Fixed-point division by a positive scalar is monotone in the numerator.
pub proof fn lemma_fx_div_monotone(a1: i64, a2: i64, b: i64)
    requires
        a1 <= a2,
        b > 0,
    ensures
        spec_fx_div(a1, b) <= spec_fx_div(a2, b),
{
    lemma_tdiv_monotone(a1 * SCALE, a2 * SCALE, b as int);
    lemma_clamp_monotone(spec_tdiv(a1 * SCALE, b as int), spec_tdiv(a2 * SCALE, b as int));
}

/// The square root of a well-formed scalar is a well-formed non-negative
/// scalar.
pub proof fn lemma_fx_sqrt_nonneg(a: i64)
    requires
        fx_ok(a),
    ensures
        0 <= spec_fx_sqrt(a) <= FX_MAX,
{
    if a > 0 {
        lemma_sqrt_floor_bounds((a * SCALE) as nat);
        let s = spec_sqrt_floor((a * SCALE) as nat);
        assert(a * SCALE <= 0x4000_0000_0000_0000 * 65536) by (nonlinear_arith)
            requires
                0 < a <= 0x4000_0000_0000_0000i64,
                SCALE == 65536i64,
        ;
        if s > 0x80_0000_0000 {
            lemma_square_ordered(0x80_0000_0000int + 1, s as int);
            assert((0x80_0000_0000int + 1) * (0x80_0000_0000int + 1) > 0x4000_0000_0000_0000int
                * 65536) by (nonlinear_arith);
        }
    }
}

/// Executable magnitude of a well-formed scalar.
pub fn fx_mag(a: i64) -> (r: u128)
    requires
        fx_ok(a),
    ensures
        r as int == spec_mag(a as int),
{
    if a < 0 {
        (-a) as u128
    } else {
        a as u128
    }
}

/// Clamp a sign-and-magnitude result into the representable band.
pub(crate) fn fx_seal(m: u128, neg: bool) -> (r: i64)
    ensures
        r as int == spec_fx_clamp(if neg { -(m as int) } else { m as int }) as int,
{
    let capped: u128 = if m > FX_MAX as u128 {
        FX_MAX as u128
    } else {
        m
    };
    if neg {
        -(capped as i64)
    } else {
        capped as i64
    }
}

/// Saturating addition.
pub fn fx_add(a: i64, b: i64) -> (r: i64)
    requires
        fx_ok(a),
        fx_ok(b),
    ensures
        r == spec_fx_add(a, b),
        fx_ok(r),
{
    let s: i128 = a as i128 + b as i128;
    if s > FX_MAX as i128 {
        FX_MAX
    } else if s < -(FX_MAX as i128) {
        -FX_MAX
    } else {
        s as i64
    }
}

/// Saturating subtraction.
pub fn fx_sub(a: i64, b: i64) -> (r: i64)
    requires
        fx_ok(a),
        fx_ok(b),
    ensures
        r == spec_fx_sub(a, b),
        fx_ok(r),
{
    let s: i128 = a as i128 - b as i128;
    if s > FX_MAX as i128 {
        FX_MAX
    } else if s < -(FX_MAX as i128) {
        -FX_MAX
    } else {
        s as i64
    }
}

/// Negation.
pub fn fx_neg(a: i64) -> (r: i64)
    requires
        fx_ok(a),
    ensures
        r == spec_fx_neg(a),
        fx_ok(r),
{
    -a
}

/// Saturating fixed-point product, truncating toward zero.
pub fn fx_mul(a: i64, b: i64) -> (r: i64)
    requires
        fx_ok(a),
        fx_ok(b),
    ensures
        r == spec_fx_mul(a, b),
        fx_ok(r),
{
    let neg = (a < 0) != (b < 0);
    let ma = fx_mag(a);
    let mb = fx_mag(b);
    proof {
        lemma_mul_bound(ma as int, mb as int, FX_MAX as int);
        lemma_mul_mag(a as int, b as int);
        assert(ma * mb == spec_mag(a as int) * spec_mag(b as int)) by (nonlinear_arith)
            requires
                ma == spec_mag(a as int),
                mb == spec_mag(b as int),
        ;
    }
    let q: u128 = (ma * mb) / (SCALE as u128);
    fx_seal(q, neg)
}

/// Saturating fixed-point quotient, truncating toward zero.
pub fn fx_div(a: i64, b: i64) -> (r: i64)
    requires
        fx_ok(a),
        fx_ok(b),
        b != 0,
    ensures
        r == spec_fx_div(a, b),
        fx_ok(r),
{
    let neg = (a < 0) != (b < 0);
    let ma = fx_mag(a);
    let mb = fx_mag(b);
    proof {
        lemma_mul_bound(ma as int, SCALE as int, FX_MAX as int);
        lemma_mul_mag(a as int, SCALE as int);
        assert(ma * (SCALE as u128) == spec_mag(a as int) * (SCALE as int)) by (nonlinear_arith)
            requires
                ma == spec_mag(a as int),
        ;
    }
    let q: u128 = (ma * (SCALE as u128)) / mb;
    fx_seal(q, neg)
}

/// Floor of the square root of an arbitrary 128-bit integer, by bisection.
pub fn isqrt_u128(n: u128) -> (r: u128)
    ensures
        r as nat == spec_sqrt_floor(n as nat),
{
    let mut lo: u128 = 0;
    let mut hi: u128 = 0x1_0000_0000_0000_0000;
    proof {
        assert(n < hi * hi) by (nonlinear_arith)
            requires
                hi == 0x1_0000_0000_0000_0000u128,
                n <= u128::MAX,
        ;
    }
    while lo + 1 < hi
        invariant
            lo < hi,
            hi <= 0x1_0000_0000_0000_0000,
            lo * lo <= n as int,
            (n as int) < hi * hi,
        decreases hi - lo,
    {
        let mid: u128 = lo + (hi - lo) / 2;
        proof {
            lemma_mul_bound(mid as int, mid as int, 0xFFFF_FFFF_FFFF_FFFF);
        }
        if mid * mid <= n {
            lo = mid;
        } else {
            hi = mid;
        }
    }
    proof {
        lemma_sqrt_floor_unique(n as nat, lo as nat);
    }
    lo
}

/// Square root of a scalar; negative inputs are flattened to zero.
pub fn fx_sqrt(a: i64) -> (r: i64)
    requires
        fx_ok(a),
    ensures
        r == spec_fx_sqrt(a),
        fx_ok(r),
        r >= 0,
{
    if a <= 0 {
        0
    } else {
        let s = isqrt_u128((a as u128) * (SCALE as u128));
        proof {
            lemma_sqrt_floor_bounds((a * SCALE) as nat);
            assert(s * s <= FX_MAX * FX_MAX) by {
                assert((a * SCALE) as int <= FX_MAX * FX_MAX) by (nonlinear_arith)
                    requires
                        0 < a <= FX_MAX,
                        SCALE == 65536i64,
                        FX_MAX == 0x4000_0000_0000_0000i64,
                ;
            }
            if s as int > FX_MAX as int {
                lemma_square_ordered(FX_MAX as int + 1, s as int);
            }
        }
        s as i64
    }
}

} // verus!

