//! Saturating fixed-point arithmetic.
//!
//! A fixed-point value is an `i64` counting steps of `1 / FX_ONE`. Products
//! and quotients are computed in `i128`, rounded toward zero, and clamped to
//! the symmetric range `[-FX_MAX, FX_MAX]`, so every operation is total and
//! the results are pinned exactly by the spec functions below.

use vstd::arithmetic::div_mod::{
    lemma_div_is_ordered, lemma_div_nonincreasing, lemma_div_pos_is_pos,
    lemma_fundamental_div_mod,
};
use vstd::prelude::*;

verus! {

/// Number of fixed-point steps in one unit.
pub const FX_ONE: i64 = 65536;

/// Largest representable magnitude; results beyond it saturate.
pub const FX_MAX: i64 = 0x7fff_ffff_ffff_ffff;

/// Absolute value of a mathematical integer.
pub open spec fn iabs(a: int) -> int {
    if a >= 0 {
        a
    } else {
        -a
    }
}

/// Clamp a mathematical integer into the representable range.
pub open spec fn sat(v: int) -> int {
    if v > FX_MAX as int {
        FX_MAX as int
    } else if v < -(FX_MAX as int) {
        -(FX_MAX as int)
    } else {
        v
    }
}

/// Division rounding toward zero, as the hardware division does.
pub open spec fn tdiv(a: int, b: int) -> int
    recommends
        b != 0,
{
    if (a >= 0) == (b >= 0) {
        iabs(a) / iabs(b)
    } else {
        -(iabs(a) / iabs(b))
    }
}

/// What fixed-point addition returns.
pub open spec fn spec_add(a: int, b: int) -> int {
    sat(a + b)
}

/// What fixed-point subtraction returns.
pub open spec fn spec_sub(a: int, b: int) -> int {
    sat(a - b)
}

/// What fixed-point negation returns.
pub open spec fn spec_neg(a: int) -> int {
    sat(-a)
}

/// What fixed-point multiplication returns.
pub open spec fn spec_mul(a: int, b: int) -> int {
    sat(tdiv(a * b, FX_ONE as int))
}

/// What fixed-point division returns. A zero divisor saturates in the
/// direction of the dividend, the way infinities would.
pub open spec fn spec_div(a: int, b: int) -> int {
    if b == 0 {
        if a > 0 {
            FX_MAX as int
        } else if a < 0 {
            -(FX_MAX as int)
        } else {
            0
        }
    } else {
        sat(tdiv(a * (FX_ONE as int), b))
    }
}

/// Integer square root, rounded down; zero on nonpositive input.
pub open spec fn isqrt(n: int) -> int
    decreases n,
{
    if n <= 0 {
        0
    } else {
        let r = 2 * isqrt(n / 4);
        if (r + 1) * (r + 1) <= n {
            r + 1
        } else {
            r
        }
    }
}

/// What fixed-point square root returns: zero for nonpositive input, else
/// the floor of the square root scaled back into fixed point.
pub open spec fn spec_sqrt(a: int) -> int {
    if a <= 0 {
        0
    } else {
        isqrt(a * (FX_ONE as int))
    }
}

/// `isqrt` is the rounded-down square root.
pub proof fn lemma_isqrt(n: int)
    ensures
        isqrt(n) >= 0,
        n >= 0 ==> isqrt(n) * isqrt(n) <= n && n < (isqrt(n) + 1) * (isqrt(n) + 1),
    decreases n,
{
    if n <= 0 {
    } else {
        let m = n / 4;
        lemma_isqrt(m);
        let r0 = isqrt(m);
        lemma_fundamental_div_mod(n, 4);
        assert(4 * m <= n && n < 4 * m + 4);
        assert((2 * r0) * (2 * r0) <= 4 * m) by (nonlinear_arith)
            requires
                r0 * r0 <= m,
        ;
        assert(4 * m + 4 <= (2 * r0 + 2) * (2 * r0 + 2)) by (nonlinear_arith)
            requires
                m < (r0 + 1) * (r0 + 1),
        ;
        let r = 2 * r0;
        if (r + 1) * (r + 1) <= n {
            assert(isqrt(n) == r + 1);
            assert(n < (r + 2) * (r + 2));
        } else {
            assert(isqrt(n) == r);
        }
    }
}

/// Two rounded-down square roots of the same number are the same.
pub proof fn lemma_isqrt_unique(n: int, r: int)
    requires
        n >= 0,
        r >= 0,
        r * r <= n,
        n < (r + 1) * (r + 1),
    ensures
        r == isqrt(n),
{
    lemma_isqrt(n);
    let q = isqrt(n);
    if r < q {
        assert((r + 1) * (r + 1) <= q * q) by (nonlinear_arith)
            requires
                0 <= r,
                r + 1 <= q,
        ;
    }
    if q < r {
        assert((q + 1) * (q + 1) <= r * r) by (nonlinear_arith)
            requires
                0 <= q,
                q + 1 <= r,
        ;
    }
}

/// `isqrt` is monotone.
pub proof fn lemma_isqrt_mono(a: int, b: int)
    requires
        0 <= a <= b,
    ensures
        isqrt(a) <= isqrt(b),
{
    lemma_isqrt(a);
    lemma_isqrt(b);
    let ra = isqrt(a);
    let rb = isqrt(b);
    if rb < ra {
        assert((rb + 1) * (rb + 1) <= ra * ra) by (nonlinear_arith)
            requires
                0 <= rb,
                rb + 1 <= ra,
        ;
    }
}

/// Truncating division negates with its dividend.
pub proof fn lemma_tdiv_neg(a: int, b: int)
    requires
        b > 0,
    ensures
        tdiv(-a, b) == -tdiv(a, b),
{
}

/// Truncating division by a positive divisor is monotone in the dividend.
pub proof fn lemma_tdiv_mono(a1: int, a2: int, b: int)
    requires
        b > 0,
        a1 <= a2,
    ensures
        tdiv(a1, b) <= tdiv(a2, b),
{
    if a1 >= 0 {
        lemma_div_is_ordered(a1, a2, b);
    } else if a2 < 0 {
        lemma_div_is_ordered(-a2, -a1, b);
    } else {
        lemma_div_pos_is_pos(a2, b);
        lemma_div_pos_is_pos(-a1, b);
    }
}

/// Truncating division shrinks magnitudes.
pub proof fn lemma_tdiv_bound(a: int, b: int)
    requires
        b > 0,
    ensures
        iabs(tdiv(a, b)) == iabs(a) / b,
        iabs(a) / b <= iabs(a),
        iabs(a) < b ==> tdiv(a, b) == 0,
{
    lemma_div_nonincreasing(iabs(a), b);
    lemma_div_pos_is_pos(iabs(a), b);
    if iabs(a) < b {
        assert(iabs(a) / b == 0) by {
            vstd::arithmetic::div_mod::lemma_basic_div(iabs(a), b);
        }
    }
}

/// Saturation is odd: the bounds are symmetric.
pub proof fn lemma_sat_odd(v: int)
    ensures
        sat(-v) == -sat(v),
{
}

/// Negating one factor negates a saturating product.
pub proof fn lemma_spec_mul_neg_right(a: int, b: int)
    ensures
        spec_mul(a, -b) == -spec_mul(a, b),
{
    assert(a * (-b) == -(a * b)) by (nonlinear_arith);
    lemma_tdiv_neg(a * b, FX_ONE as int);
    lemma_sat_odd(tdiv(a * b, FX_ONE as int));
}

/// Negating both terms negates a saturating sum.
pub proof fn lemma_spec_add_neg(a: int, b: int)
    ensures
        spec_add(-a, -b) == -spec_add(a, b),
{
    lemma_sat_odd(a + b);
}

/// A saturating product of a value with itself is nonnegative.
pub proof fn lemma_spec_mul_self_nonneg(a: int)
    ensures
        spec_mul(a, a) >= 0,
{
    assert(a * a >= 0) by (nonlinear_arith);
    lemma_tdiv_bound(a * a, FX_ONE as int);
}

/// Saturating division is monotone in the dividend when the divisor is
/// nonnegative.
pub proof fn lemma_spec_div_mono_num(a1: int, a2: int, b: int)
    requires
        a1 <= a2,
        b >= 0,
    ensures
        spec_div(a1, b) <= spec_div(a2, b),
{
    if b != 0 {
        assert(a1 * (FX_ONE as int) <= a2 * (FX_ONE as int)) by (nonlinear_arith)
            requires
                a1 <= a2,
        ;
        lemma_tdiv_mono(a1 * (FX_ONE as int), a2 * (FX_ONE as int), b);
        lemma_sat_mono(tdiv(a1 * (FX_ONE as int), b), tdiv(a2 * (FX_ONE as int), b));
    }
}

/// Saturating division stays within the representable range.
pub proof fn lemma_spec_div_range(a: int, b: int)
    ensures
        -(FX_MAX as int) <= spec_div(a, b) <= FX_MAX as int,
{
}

/// Saturation is monotone.
pub proof fn lemma_sat_mono(v1: int, v2: int)
    requires
        v1 <= v2,
    ensures
        sat(v1) <= sat(v2),
{
}

/// A product of bounded factors is bounded.
pub proof fn lemma_mul_abs_bound(a: int, b: int, ca: int, cb: int)
    requires
        iabs(a) <= ca,
        iabs(b) <= cb,
    ensures
        iabs(a * b) <= ca * cb,
{
    assert(iabs(a * b) <= ca * cb) by (nonlinear_arith)
        requires
            iabs(a) <= ca,
            iabs(b) <= cb,
    ;
}

/// A saturating product of bounded factors does not saturate, and its
/// magnitude is bounded by the scaled product of the factor bounds.
pub proof fn lemma_spec_mul_exact(a: int, b: int, ca: int, cb: int)
    requires
        iabs(a) <= ca,
        iabs(b) <= cb,
        ca * cb <= (FX_MAX as int) * (FX_ONE as int),
    ensures
        spec_mul(a, b) == tdiv(a * b, FX_ONE as int),
        iabs(tdiv(a * b, FX_ONE as int)) <= ca * cb / (FX_ONE as int),
        ca * cb / (FX_ONE as int) <= FX_MAX as int,
{
    lemma_mul_abs_bound(a, b, ca, cb);
    lemma_tdiv_bound(a * b, FX_ONE as int);
    lemma_div_is_ordered(iabs(a * b), ca * cb, FX_ONE as int);
    lemma_div_is_ordered(ca * cb, (FX_MAX as int) * (FX_ONE as int), FX_ONE as int);
    vstd::arithmetic::div_mod::lemma_div_by_multiple(FX_MAX as int, FX_ONE as int);
}

/// Division by the scale undoes multiplication by the scale, up to less
/// than one step: `tdiv(x, s) * s` lies within `s - 1` of `x` for `x >= 0`.
pub proof fn lemma_tdiv_times_back(x: int, s: int)
    requires
        x >= 0,
        s > 0,
    ensures
        (x / s) * s <= x,
        x < (x / s) * s + s,
        x - (s - 1) <= (x / s) * s,
        tdiv(x, s) == x / s,
{
    lemma_fundamental_div_mod(x, s);
    lemma_div_pos_is_pos(x, s);
    vstd::arithmetic::div_mod::lemma_mod_bound(x, s);
    vstd::arithmetic::mul::lemma_mul_is_commutative(s, x / s);
}

/// Clamp an `i128` into the representable fixed-point range.
fn clamp_i128(v: i128) -> (r: i64)
    ensures
        r as int == sat(v as int),
{
    if v > FX_MAX as i128 {
        FX_MAX
    } else if v < -(FX_MAX as i128) {
        -FX_MAX
    } else {
        v as i64
    }
}

/// Division of `i128` values rounding toward zero.
fn div_i128(a: i128, b: i128) -> (r: i128)
    requires
        b != 0,
        a != i128::MIN,
        b != i128::MIN,
    ensures
        r as int == tdiv(a as int, b as int),
{
    let ua: u128 = if a >= 0 {
        a as u128
    } else {
        (-a) as u128
    };
    let ub: u128 = if b >= 0 {
        b as u128
    } else {
        (-b) as u128
    };
    let q: u128 = ua / ub;
    proof {
        assert(ua as int == iabs(a as int));
        assert(ub as int == iabs(b as int));
        lemma_div_nonincreasing(ua as int, ub as int);
        lemma_div_pos_is_pos(ua as int, ub as int);
    }
    if (a >= 0) == (b >= 0) {
        q as i128
    } else {
        -(q as i128)
    }
}

/// Saturating fixed-point addition.
pub fn fx_add(a: i64, b: i64) -> (r: i64)
    ensures
        r as int == spec_add(a as int, b as int),
{
    clamp_i128(a as i128 + b as i128)
}

/// Saturating fixed-point subtraction.
pub fn fx_sub(a: i64, b: i64) -> (r: i64)
    ensures
        r as int == spec_sub(a as int, b as int),
{
    clamp_i128(a as i128 - b as i128)
}

/// Saturating fixed-point negation.
pub fn fx_neg(a: i64) -> (r: i64)
    ensures
        r as int == spec_neg(a as int),
{
    clamp_i128(-(a as i128))
}

/// Saturating fixed-point multiplication.
pub fn fx_mul(a: i64, b: i64) -> (r: i64)
    ensures
        r as int == spec_mul(a as int, b as int),
{
    proof {
        lemma_mul_abs_bound(a as int, b as int, 0x8000_0000_0000_0000, 0x8000_0000_0000_0000);
    }
    let p: i128 = (a as i128) * (b as i128);
    let q: i128 = div_i128(p, FX_ONE as i128);
    clamp_i128(q)
}

/// Saturating fixed-point division; a zero divisor saturates in the
/// direction of the dividend.
pub fn fx_div(a: i64, b: i64) -> (r: i64)
    ensures
        r as int == spec_div(a as int, b as int),
{
    if b == 0 {
        if a > 0 {
            FX_MAX
        } else if a < 0 {
            -FX_MAX
        } else {
            0
        }
    } else {
        proof {
            lemma_mul_abs_bound(a as int, FX_ONE as int, 0x8000_0000_0000_0000, FX_ONE as int);
        }
        let n: i128 = (a as i128) * (FX_ONE as i128);
        let q: i128 = div_i128(n, b as i128);
        clamp_i128(q)
    }
}

/// Rounded-down square root of a `u128`.
fn isqrt_u128(n: u128) -> (r: u128)
    requires
        n < 0x4000_0000_0000_0000_0000_0000_0000_0000u128,
    ensures
        r as int == isqrt(n as int),
        r * r <= n,
        n < (r + 1) * (r + 1),
{
    let mut lo: u128 = 0;
    let mut hi: u128 = 0x8000_0000_0000_0000;
    proof {
        assert((0x8000_0000_0000_0000 as int) * (0x8000_0000_0000_0000 as int)
            == 0x4000_0000_0000_0000_0000_0000_0000_0000);
    }
    while lo + 1 < hi
        invariant
            0 <= lo < hi <= 0x8000_0000_0000_0000u128,
            lo * lo <= n,
            n < hi * hi,
        decreases hi - lo,
    {
        let mid: u128 = lo + (hi - lo) / 2;
        assert(lo < mid < hi);
        proof {
            assert((mid as int) * (mid as int) < 0x4000_0000_0000_0000_0000_0000_0000_0000) by (nonlinear_arith)
                requires
                    0 <= (mid as int) < 0x8000_0000_0000_0000,
            ;
        }
        if mid * mid <= n {
            lo = mid;
        } else {
            hi = mid;
        }
    }
    proof {
        lemma_isqrt_unique(n as int, lo as int);
    }
    lo
}

/// Saturating fixed-point square root; zero on nonpositive input.
pub fn fx_sqrt(a: i64) -> (r: i64)
    ensures
        r as int == spec_sqrt(a as int),
        r >= 0,
{
    if a <= 0 {
        0
    } else {
        proof {
            assert((a as int) * (FX_ONE as int) < 0x1_0000_0000_0000_0000_0000);
        }
        let n: u128 = (a as u128) * (FX_ONE as u128);
        let r: u128 = isqrt_u128(n);
        proof {
            lemma_isqrt(n as int);
            assert((n as int) < 0x1_0000_0000_0000_0000_0000);
            if r as int >= 0x100_0000_0000 {
                assert((0x100_0000_0000 as int) * (0x100_0000_0000 as int) <= (r as int) * (
                r as int)) by (nonlinear_arith)
                    requires
                        r as int >= 0x100_0000_0000,
                ;
            }
        }
        r as i64
    }
}

/// The fixed-point value of a whole number.
pub open spec fn spec_from_i32(v: int) -> int {
    v * (FX_ONE as int)
}

/// Turn a whole number into fixed point; never overflows.
pub fn fx_from_i32(v: i32) -> (r: i64)
    ensures
        r as int == spec_from_i32(v as int),
{
    proof {
        assert(-0x8000_0000_0000_0000 <= (v as int) * (FX_ONE as int) < 0x8000_0000_0000_0000)
            by (nonlinear_arith)
            requires
                -0x8000_0000 <= (v as int) <= 0x7fff_ffff,
        ;
    }
    (v as i64) * (FX_ONE as i64)
}

/// The whole part of a fixed-point value, rounded toward zero.
pub fn fx_trunc(a: i64) -> (r: i64)
    ensures
        r as int == tdiv(a as int, FX_ONE as int),
{
    proof {
        lemma_tdiv_bound(a as int, FX_ONE as int);
    }
    let q: i128 = div_i128(a as i128, FX_ONE as i128);
    q as i64
}

/// Pi, in fixed point.
pub const FX_PI: i64 = 205887;

/// One hundred eighty, in fixed point.
pub const FX_DEG_HALF_TURN: i64 = 11796480;

/// An angle in degrees turned into radians: the angle times pi over one
/// hundred eighty.
pub fn degrees_to_radians(degrees: i64) -> (r: i64)
    ensures
        r as int == spec_div(spec_mul(degrees as int, FX_PI as int), FX_DEG_HALF_TURN as int),
{
    fx_div(fx_mul(degrees, FX_PI), FX_DEG_HALF_TURN)
}

/// Sign-magnitude comparison helper: the smallest of two values.
pub fn fx_min(a: i64, b: i64) -> (r: i64)
    ensures
        r as int == if a as int <= b as int { a as int } else { b as int },
{
    if a <= b {
        a
    } else {
        b
    }
}

/// Absolute value, saturating on the most negative input.
pub fn fx_abs(a: i64) -> (r: i64)
    ensures
        r as int == sat(iabs(a as int)),
{
    if a >= 0 {
        a
    } else {
        clamp_i128(-(a as i128))
    }
}

} // verus!
