//! Three-component fixed-point vectors, used for points, directions and
//! colors alike.

use crate::fixed::{
    iabs, lemma_spec_mul_exact, lemma_tdiv_bound, sat, spec_add, spec_div, spec_mul, spec_neg,
    spec_sqrt, spec_sub, tdiv, fx_abs, fx_add, fx_div, fx_mul, fx_neg, fx_sqrt, fx_sub, FX_MAX,
    FX_ONE,
};
use crate::sampler::{spec_fx01, spec_fx_bounded, spec_next_state, Prng};
use vstd::prelude::*;

verus! {

/// A vector of three fixed-point components.
#[derive(Clone, Copy, Debug, PartialEq, Eq, Structural)]
pub struct Vec3 {
    pub x: i64,
    pub y: i64,
    pub z: i64,
}

/// A position in space; same representation as a direction.
pub type Point3 = Vec3;

/// Componentwise sum.
pub open spec fn spec_vadd(a: Vec3, b: Vec3) -> Vec3 {
    Vec3 {
        x: spec_add(a.x as int, b.x as int) as i64,
        y: spec_add(a.y as int, b.y as int) as i64,
        z: spec_add(a.z as int, b.z as int) as i64,
    }
}

/// Componentwise difference.
pub open spec fn spec_vsub(a: Vec3, b: Vec3) -> Vec3 {
    Vec3 {
        x: spec_sub(a.x as int, b.x as int) as i64,
        y: spec_sub(a.y as int, b.y as int) as i64,
        z: spec_sub(a.z as int, b.z as int) as i64,
    }
}

/// Componentwise product.
pub open spec fn spec_vmul(a: Vec3, b: Vec3) -> Vec3 {
    Vec3 {
        x: spec_mul(a.x as int, b.x as int) as i64,
        y: spec_mul(a.y as int, b.y as int) as i64,
        z: spec_mul(a.z as int, b.z as int) as i64,
    }
}

/// Componentwise quotient.
pub open spec fn spec_vdiv(a: Vec3, b: Vec3) -> Vec3 {
    Vec3 {
        x: spec_div(a.x as int, b.x as int) as i64,
        y: spec_div(a.y as int, b.y as int) as i64,
        z: spec_div(a.z as int, b.z as int) as i64,
    }
}

/// Negation.
pub open spec fn spec_vneg(a: Vec3) -> Vec3 {
    Vec3 {
        x: spec_neg(a.x as int) as i64,
        y: spec_neg(a.y as int) as i64,
        z: spec_neg(a.z as int) as i64,
    }
}

/// Product with a scalar.
pub open spec fn spec_vscale(a: Vec3, t: i64) -> Vec3 {
    Vec3 {
        x: spec_mul(a.x as int, t as int) as i64,
        y: spec_mul(a.y as int, t as int) as i64,
        z: spec_mul(a.z as int, t as int) as i64,
    }
}

/// Quotient by a scalar.
pub open spec fn spec_vdiv_s(a: Vec3, t: i64) -> Vec3 {
    Vec3 {
        x: spec_div(a.x as int, t as int) as i64,
        y: spec_div(a.y as int, t as int) as i64,
        z: spec_div(a.z as int, t as int) as i64,
    }
}

/// Sum with a scalar on each component.
pub open spec fn spec_vadd_s(a: Vec3, t: i64) -> Vec3 {
    Vec3 {
        x: spec_add(a.x as int, t as int) as i64,
        y: spec_add(a.y as int, t as int) as i64,
        z: spec_add(a.z as int, t as int) as i64,
    }
}

/// Difference with a scalar on each component.
pub open spec fn spec_vsub_s(a: Vec3, t: i64) -> Vec3 {
    Vec3 {
        x: spec_sub(a.x as int, t as int) as i64,
        y: spec_sub(a.y as int, t as int) as i64,
        z: spec_sub(a.z as int, t as int) as i64,
    }
}

/// Inner product, accumulated left to right.
pub open spec fn spec_dot(a: Vec3, b: Vec3) -> i64 {
    spec_add(
        spec_add(
            spec_mul(a.x as int, b.x as int),
            spec_mul(a.y as int, b.y as int),
        ),
        spec_mul(a.z as int, b.z as int),
    ) as i64
}

/// Squared length.
pub open spec fn spec_lensq(a: Vec3) -> i64 {
    spec_dot(a, a)
}

/// Length: the square root of the squared length.
pub open spec fn spec_len(a: Vec3) -> i64 {
    spec_sqrt(spec_lensq(a) as int) as i64
}

/// The vector scaled to unit length by componentwise division.
pub open spec fn spec_unit(a: Vec3) -> Vec3 {
    spec_vdiv_s(a, spec_len(a))
}

/// Cross product.
pub open spec fn spec_cross(a: Vec3, b: Vec3) -> Vec3 {
    Vec3 {
        x: spec_sub(spec_mul(a.y as int, b.z as int), spec_mul(a.z as int, b.y as int)) as i64,
        y: spec_sub(spec_mul(a.z as int, b.x as int), spec_mul(a.x as int, b.z as int)) as i64,
        z: spec_sub(spec_mul(a.x as int, b.y as int), spec_mul(a.y as int, b.x as int)) as i64,
    }
}

/// Whether every component is a whole zero step.
pub open spec fn spec_near_zero(a: Vec3) -> bool {
    a.x == 0 && a.y == 0 && a.z == 0
}

/// Mirror reflection about a normal: `v - 2 (v . n) n`.
pub open spec fn spec_reflect(v: Vec3, n: Vec3) -> Vec3 {
    let d = spec_dot(v, n);
    spec_vsub(v, spec_vscale(n, spec_add(d as int, d as int) as i64))
}

/// Snell refraction of a unit direction about a normal with relative index
/// `etai_over_etat`.
pub open spec fn spec_refract(uv: Vec3, n: Vec3, etai_over_etat: i64) -> Vec3 {
    let d = spec_dot(spec_vneg(uv), n);
    let cos_theta = if d as int <= FX_ONE as int {
        d
    } else {
        FX_ONE
    };
    let r_out_perp = spec_vscale(spec_vadd(uv, spec_vscale(n, cos_theta)), etai_over_etat);
    let k = spec_sub(FX_ONE as int, spec_lensq(r_out_perp) as int);
    let r_out_parallel = spec_vscale(
        n,
        spec_neg(spec_sqrt(sat(iabs(k as int)) as int) as int) as i64,
    );
    spec_vadd(r_out_perp, r_out_parallel)
}

/// The vector drawn by three fraction draws, with the state that follows.
pub open spec fn spec_random_vec(s: u64) -> (Vec3, u64) {
    let s1 = spec_next_state(s);
    let s2 = spec_next_state(s1);
    let s3 = spec_next_state(s2);
    (Vec3 { x: spec_fx01(s), y: spec_fx01(s1), z: spec_fx01(s2) }, s3)
}

/// The vector drawn by three bounded draws, with the state that follows.
pub open spec fn spec_random_vec_bounded(min: i64, max: i64, s: u64) -> (Vec3, u64) {
    let s1 = spec_next_state(s);
    let s2 = spec_next_state(s1);
    let s3 = spec_next_state(s2);
    (
        Vec3 {
            x: spec_fx_bounded(min, max, s),
            y: spec_fx_bounded(min, max, s1),
            z: spec_fx_bounded(min, max, s2),
        },
        s3,
    )
}

/// Squared length below which a draw is rejected as too short to scale.
pub const FX_SQ_EPS: i64 = 16;

/// The unit vector found by rejection sampling with the given fuel: draws
/// from the cube `[-1, 1]^3` until the squared length falls in
/// `(FX_SQ_EPS, FX_ONE]`, then scales; a spent fuel yields the x axis.
pub open spec fn spec_random_unit(s: u64, fuel: nat) -> (Vec3, u64)
    decreases fuel,
{
    if fuel == 0 {
        (Vec3 { x: FX_ONE, y: 0, z: 0 }, s)
    } else {
        let (p, s1) = spec_random_vec_bounded((-FX_ONE) as i64, FX_ONE, s);
        let q = spec_lensq(p);
        if FX_SQ_EPS < q && q <= FX_ONE {
            (spec_vdiv_s(p, spec_sqrt(q as int) as i64), s1)
        } else {
            spec_random_unit(s1, (fuel - 1) as nat)
        }
    }
}

/// The disk point found by rejection sampling with the given fuel: draws
/// from the square `[-1, 1]^2` at height zero until the squared length is
/// below one; a spent fuel yields the center.
pub open spec fn spec_random_in_unit_disk(s: u64, fuel: nat) -> (Vec3, u64)
    decreases fuel,
{
    if fuel == 0 {
        (Vec3 { x: 0, y: 0, z: 0 }, s)
    } else {
        let s1 = spec_next_state(s);
        let s2 = spec_next_state(s1);
        let p = Vec3 {
            x: spec_fx_bounded((-FX_ONE) as i64, FX_ONE, s),
            y: spec_fx_bounded((-FX_ONE) as i64, FX_ONE, s1),
            z: 0,
        };
        if spec_lensq(p) < FX_ONE {
            (p, s2)
        } else {
            spec_random_in_unit_disk(s2, (fuel - 1) as nat)
        }
    }
}

/// The unit vector turned into the hemisphere of the given normal.
pub open spec fn spec_random_on_hemisphere(normal: Vec3, s: u64) -> (Vec3, u64) {
    let (u, s1) = spec_random_unit(s, 32);
    if spec_dot(u, normal) > 0 {
        (u, s1)
    } else {
        (spec_vneg(u), s1)
    }
}

/// Number of draws the rejection samplers may spend before falling back.
pub const SAMPLE_FUEL: u32 = 32;

/// Negating the second argument negates the inner product, whenever the
/// negation itself does not saturate.
pub proof fn lemma_dot_neg(a: Vec3, b: Vec3)
    requires
        -FX_MAX <= b.x,
        -FX_MAX <= b.y,
        -FX_MAX <= b.z,
    ensures
        spec_dot(a, spec_vneg(b)) as int == -(spec_dot(a, b) as int),
{
    crate::fixed::lemma_spec_mul_neg_right(a.x as int, b.x as int);
    crate::fixed::lemma_spec_mul_neg_right(a.y as int, b.y as int);
    crate::fixed::lemma_spec_mul_neg_right(a.z as int, b.z as int);
    crate::fixed::lemma_spec_add_neg(
        spec_mul(a.x as int, b.x as int),
        spec_mul(a.y as int, b.y as int),
    );
    crate::fixed::lemma_spec_add_neg(
        spec_add(spec_mul(a.x as int, b.x as int), spec_mul(a.y as int, b.y as int)),
        spec_mul(a.z as int, b.z as int),
    );
}

/// A squared length is never negative.
pub proof fn lemma_lensq_nonneg(v: Vec3)
    ensures
        spec_lensq(v) >= 0,
{
    crate::fixed::lemma_spec_mul_self_nonneg(v.x as int);
    crate::fixed::lemma_spec_mul_self_nonneg(v.y as int);
    crate::fixed::lemma_spec_mul_self_nonneg(v.z as int);
}

/// One component of a normalization: what dividing `v_i` by the length
/// yields, characterized multiplicatively.
proof fn lemma_unit_component(vi: int, el: int) -> (a: int)
    requires
        iabs(vi) <= 0x400_0000,
        32768 <= el <= 0x800_0000,
    ensures
        a == iabs(spec_div(vi, el)),
        spec_div(vi, el) * spec_div(vi, el) == a * a,
        a * el <= iabs(vi) * (FX_ONE as int),
        iabs(vi) * (FX_ONE as int) < (a + 1) * el,
        0 <= a,
{
    let one = FX_ONE as int;
    let w = vi * one;
    assert(iabs(w) == iabs(vi) * one && iabs(w) <= 0x400_0000 * one) by (nonlinear_arith)
        requires
            iabs(vi) <= 0x400_0000,
            one == 65536,
            w == vi * one,
    ;
    lemma_tdiv_bound(w, el);
    assert(iabs(tdiv(w, el)) <= iabs(w));
    let u = spec_div(vi, el);
    assert(u == tdiv(w, el));
    let a = iabs(u);
    assert(u * u == a * a) by (nonlinear_arith)
        requires
            a == iabs(u),
    ;
    crate::fixed::lemma_tdiv_times_back(iabs(w), el);
    assert(a == iabs(w) / el);
    assert(a * el <= iabs(w));
    assert(iabs(w) < a * el + el);
    assert(a * el + el == (a + 1) * el) by (nonlinear_arith);
    a
}

/// Scaling a nonzero, in-scale vector to unit length really yields unit
/// length: the length of `unit(v)` is one to within sixteen fixed-point
/// steps, whenever `v` is at least half a unit long and its components
/// stay within the well-scaled range.
pub proof fn lemma_unit_has_unit_length(v: Vec3)
    requires
        iabs(v.x as int) <= 0x400_0000,
        iabs(v.y as int) <= 0x400_0000,
        iabs(v.z as int) <= 0x400_0000,
        spec_lensq(v) >= 16384,
    ensures
        FX_ONE - 16 <= spec_len(spec_unit(v)) <= FX_ONE + 16,
{
    let one = FX_ONE as int;
    let x = v.x as int;
    let y = v.y as int;
    let z = v.z as int;

    // The squared length, characterized: each summand is the scaled
    // square of a component, rounded down by less than one step.
    lemma_spec_mul_exact(x, x, 0x400_0000, 0x400_0000);
    lemma_spec_mul_exact(y, y, 0x400_0000, 0x400_0000);
    lemma_spec_mul_exact(z, z, 0x400_0000, 0x400_0000);
    assert(x * x >= 0 && y * y >= 0 && z * z >= 0) by (nonlinear_arith);
    crate::fixed::lemma_tdiv_times_back(x * x, one);
    crate::fixed::lemma_tdiv_times_back(y * y, one);
    crate::fixed::lemma_tdiv_times_back(z * z, one);
    let q1 = tdiv(x * x, one);
    let q2 = tdiv(y * y, one);
    let q3 = tdiv(z * z, one);
    let qq = spec_lensq(v) as int;
    assert(qq == q1 + q2 + q3);
    let sum_sq = x * x + y * y + z * z;
    assert(qq * one == q1 * one + q2 * one + q3 * one) by (nonlinear_arith)
        requires
            qq == q1 + q2 + q3,
    ;
    assert(qq * one <= sum_sq);
    assert(sum_sq < qq * one + 3 * one);

    // The length: the rounded-down square root of the scaled squared
    // length, between half a unit and a comfortable ceiling.
    let n = qq * one;
    crate::fixed::lemma_isqrt(n);
    let el = crate::fixed::isqrt(n);
    assert(n >= 16384 * one) by (nonlinear_arith)
        requires
            qq >= 16384,
            n == qq * one,
            one > 0,
    ;
    assert((32768int) * (32768int) <= n);
    crate::fixed::lemma_isqrt_unique(0x4000_0000, 32768);
    crate::fixed::lemma_isqrt_mono(0x4000_0000, n);
    assert(el >= 32768);
    assert(qq <= 3 * 0x10_0000_0000);
    assert(n < 0x40_0000_0000_0000) by (nonlinear_arith)
        requires
            qq <= 3 * 0x10_0000_0000,
            n == qq * one,
            one == 65536,
    ;
    assert((0x800_0000int) * (0x800_0000int) == 0x40_0000_0000_0000);
    if el > 0x800_0000 {
        assert((0x800_0000int) * (0x800_0000int) <= el * el) by (nonlinear_arith)
            requires
                el >= 0x800_0000,
        ;
    }
    assert(el <= 0x800_0000);
    assert(spec_len(v) == el);

    // Each normalized component, characterized multiplicatively.
    let a1 = lemma_unit_component(x, el);
    let a2 = lemma_unit_component(y, el);
    let a3 = lemma_unit_component(z, el);
    let u = spec_unit(v);
    assert(u.x as int == spec_div(x, el) && u.y as int == spec_div(y, el) && u.z as int
        == spec_div(z, el));

    // No component of v is much longer than the length itself.
    assert(x * x <= sum_sq && y * y <= sum_sq && z * z <= sum_sq) by (nonlinear_arith)
        requires
            x * x >= 0 && y * y >= 0 && z * z >= 0,
            sum_sq == x * x + y * y + z * z,
    ;
    assert(sum_sq < (el + 66) * (el + 66)) by (nonlinear_arith)
        requires
            sum_sq < n + 3 * one,
            n < (el + 1) * (el + 1),
            el >= 32768,
            one == 65536,
    ;
    assert(iabs(x) * iabs(x) == x * x && iabs(y) * iabs(y) == y * y && iabs(z) * iabs(z) == z * z)
        by (nonlinear_arith);
    if iabs(x) >= el + 66 {
        assert((el + 66) * (el + 66) <= iabs(x) * iabs(x)) by (nonlinear_arith)
            requires
                iabs(x) >= el + 66 > 0,
        ;
    }
    if iabs(y) >= el + 66 {
        assert((el + 66) * (el + 66) <= iabs(y) * iabs(y)) by (nonlinear_arith)
            requires
                iabs(y) >= el + 66 > 0,
        ;
    }
    if iabs(z) >= el + 66 {
        assert((el + 66) * (el + 66) <= iabs(z) * iabs(z)) by (nonlinear_arith)
            requires
                iabs(z) >= el + 66 > 0,
        ;
    }
    assert(iabs(x) < el + 66 && iabs(y) < el + 66 && iabs(z) < el + 66);

    // So each normalized component is at most a little over one unit.
    if a1 >= one + 131 {
        assert(false) by (nonlinear_arith)
            requires
                a1 >= one + 131,
                a1 * el <= iabs(x) * one,
                iabs(x) <= el + 65,
                32768 <= el,
                one == 65536,
        ;
    }
    if a2 >= one + 131 {
        assert(false) by (nonlinear_arith)
            requires
                a2 >= one + 131,
                a2 * el <= iabs(y) * one,
                iabs(y) <= el + 65,
                32768 <= el,
                one == 65536,
        ;
    }
    if a3 >= one + 131 {
        assert(false) by (nonlinear_arith)
            requires
                a3 >= one + 131,
                a3 * el <= iabs(z) * one,
                iabs(z) <= el + 65,
                32768 <= el,
                one == 65536,
        ;
    }
    assert(a1 <= one + 130 && a2 <= one + 130 && a3 <= one + 130);

    // The raw sum of squared normalized components.
    let tt = a1 * a1 + a2 * a2 + a3 * a3;
    assert(tt <= 3 * (one + 130) * (one + 130)) by (nonlinear_arith)
        requires
            0 <= a1 <= one + 130,
            0 <= a2 <= one + 130,
            0 <= a3 <= one + 130,
            tt == a1 * a1 + a2 * a2 + a3 * a3,
    ;
    assert(tt <= 4 * one * one) by (nonlinear_arith)
        requires
            tt <= 3 * (one + 130) * (one + 130),
            one == 65536,
    ;

    // Upper bound: the squares cannot exceed the scaled squares of v.
    assert(a1 * a1 * (el * el) <= (x * x) * (one * one)) by (nonlinear_arith)
        requires
            a1 >= 0,
            el > 0,
            a1 * el <= iabs(x) * one,
            iabs(x) >= 0,
            one > 0,
            iabs(x) * iabs(x) == x * x,
    ;
    assert(a2 * a2 * (el * el) <= (y * y) * (one * one)) by (nonlinear_arith)
        requires
            a2 >= 0,
            el > 0,
            a2 * el <= iabs(y) * one,
            iabs(y) >= 0,
            one > 0,
            iabs(y) * iabs(y) == y * y,
    ;
    assert(a3 * a3 * (el * el) <= (z * z) * (one * one)) by (nonlinear_arith)
        requires
            a3 >= 0,
            el > 0,
            a3 * el <= iabs(z) * one,
            iabs(z) >= 0,
            one > 0,
            iabs(z) * iabs(z) == z * z,
    ;
    assert(tt * (el * el) <= sum_sq * (one * one)) by (nonlinear_arith)
        requires
            tt == a1 * a1 + a2 * a2 + a3 * a3,
            a1 * a1 * (el * el) <= (x * x) * (one * one),
            a2 * a2 * (el * el) <= (y * y) * (one * one),
            a3 * a3 * (el * el) <= (z * z) * (one * one),
            sum_sq == x * x + y * y + z * z,
    ;
    assert(tt <= one * one + 30 * one) by (nonlinear_arith)
        requires
            tt * (el * el) <= sum_sq * (one * one),
            sum_sq < n + 3 * one,
            n < (el + 1) * (el + 1),
            el * el <= n,
            32768 <= el <= 0x800_0000,
            0 <= tt <= 4 * one * one,
            one == 65536,
            n >= 16384 * one,
    ;

    // Lower bound: the scaled squares of v cannot exceed the next squares.
    assert((x * x) * (one * one) < (a1 + 1) * (a1 + 1) * (el * el)) by (nonlinear_arith)
        requires
            iabs(x) * one < (a1 + 1) * el,
            iabs(x) >= 0,
            a1 >= 0,
            el > 0,
            one > 0,
            iabs(x) * iabs(x) == x * x,
    ;
    assert((y * y) * (one * one) < (a2 + 1) * (a2 + 1) * (el * el)) by (nonlinear_arith)
        requires
            iabs(y) * one < (a2 + 1) * el,
            iabs(y) >= 0,
            a2 >= 0,
            el > 0,
            one > 0,
            iabs(y) * iabs(y) == y * y,
    ;
    assert((z * z) * (one * one) < (a3 + 1) * (a3 + 1) * (el * el)) by (nonlinear_arith)
        requires
            iabs(z) * one < (a3 + 1) * el,
            iabs(z) >= 0,
            a3 >= 0,
            el > 0,
            one > 0,
            iabs(z) * iabs(z) == z * z,
    ;
    assert(sum_sq * (one * one) < (tt + 2 * (a1 + a2 + a3) + 3) * (el * el)) by (nonlinear_arith)
        requires
            (x * x) * (one * one) < (a1 + 1) * (a1 + 1) * (el * el),
            (y * y) * (one * one) < (a2 + 1) * (a2 + 1) * (el * el),
            (z * z) * (one * one) < (a3 + 1) * (a3 + 1) * (el * el),
            sum_sq == x * x + y * y + z * z,
            tt == a1 * a1 + a2 * a2 + a3 * a3,
    ;
    assert(tt >= one * one - 6 * one - 782) by (nonlinear_arith)
        requires
            sum_sq * (one * one) < (tt + 2 * (a1 + a2 + a3) + 3) * (el * el),
            qq * one <= sum_sq,
            n == qq * one,
            el * el <= n,
            0 <= a1 <= one + 130,
            0 <= a2 <= one + 130,
            0 <= a3 <= one + 130,
            one == 65536,
            n >= 16384 * one,
            tt >= 0,
    ;

    // The squared length of the normalized vector, characterized.
    assert(u.x as int * u.x as int == a1 * a1 && u.y as int * u.y as int == a2 * a2 && u.z as int
        * u.z as int == a3 * a3);
    lemma_spec_mul_exact(u.x as int, u.x as int, one + 131, one + 131);
    lemma_spec_mul_exact(u.y as int, u.y as int, one + 131, one + 131);
    lemma_spec_mul_exact(u.z as int, u.z as int, one + 131, one + 131);
    assert(a1 * a1 >= 0 && a2 * a2 >= 0 && a3 * a3 >= 0) by (nonlinear_arith)
        requires
            a1 >= 0 && a2 >= 0 && a3 >= 0,
    ;
    crate::fixed::lemma_tdiv_times_back(a1 * a1, one);
    crate::fixed::lemma_tdiv_times_back(a2 * a2, one);
    crate::fixed::lemma_tdiv_times_back(a3 * a3, one);
    let uu = spec_lensq(u) as int;
    assert(uu == tdiv(a1 * a1, one) + tdiv(a2 * a2, one) + tdiv(a3 * a3, one));
    assert(uu * one == tdiv(a1 * a1, one) * one + tdiv(a2 * a2, one) * one + tdiv(a3 * a3, one)
        * one) by (nonlinear_arith)
        requires
            uu == tdiv(a1 * a1, one) + tdiv(a2 * a2, one) + tdiv(a3 * a3, one),
    ;
    assert(uu * one <= tt);
    assert(tt < uu * one + 3 * one);

    // So the squared length sits within a few dozen steps of one.
    assert(uu <= one + 30) by (nonlinear_arith)
        requires
            uu * one <= tt,
            tt <= one * one + 30 * one,
            one == 65536,
    ;
    assert(uu >= one - 10) by (nonlinear_arith)
        requires
            tt < uu * one + 3 * one,
            tt >= one * one - 6 * one - 782,
            one == 65536,
    ;

    // And its root within sixteen steps of one.
    assert(uu > 0);
    crate::fixed::lemma_isqrt(uu * one);
    let root = crate::fixed::isqrt(uu * one);
    assert(uu * one <= (one + 30) * one && (one + 30) * one < (one + 16) * (one + 16))
        by (nonlinear_arith)
        requires
            one == 65536,
            uu <= one + 30,
    ;
    if root > one + 15 {
        assert((one + 16) * (one + 16) <= root * root) by (nonlinear_arith)
            requires
                root >= one + 16,
                one == 65536,
        ;
    }
    assert(root <= one + 15);
    assert(spec_len(u) == root);
    assert((one - 6) * (one - 6) <= (one - 10) * one && (one - 10) * one <= uu * one)
        by (nonlinear_arith)
        requires
            one == 65536,
            one - 10 <= uu,
    ;
    crate::fixed::lemma_isqrt_unique((one - 6) * (one - 6), one - 6);
    crate::fixed::lemma_isqrt_mono((one - 6) * (one - 6), uu * one);
    assert(spec_len(u) >= one - 6);
}

impl Vec3 {
    /// The vector with the given components.
    pub fn new(x: i64, y: i64, z: i64) -> (r: Vec3)
        ensures
            r == (Vec3 { x, y, z }),
    {
        Vec3 { x, y, z }
    }

    /// First component.
    pub fn x(self) -> (r: i64)
        ensures
            r == self.x,
    {
        self.x
    }

    /// Second component.
    pub fn y(self) -> (r: i64)
        ensures
            r == self.y,
    {
        self.y
    }

    /// Third component.
    pub fn z(self) -> (r: i64)
        ensures
            r == self.z,
    {
        self.z
    }

    /// Component by index: 0, 1 or 2.
    pub fn component(self, i: usize) -> (r: i64)
        requires
            i < 3,
        ensures
            i == 0 ==> r == self.x,
            i == 1 ==> r == self.y,
            i == 2 ==> r == self.z,
    {
        if i == 0 {
            self.x
        } else if i == 1 {
            self.y
        } else {
            self.z
        }
    }

    /// Componentwise sum.
    pub fn add(self, other: Vec3) -> (r: Vec3)
        ensures
            r == spec_vadd(self, other),
    {
        Vec3 {
            x: fx_add(self.x, other.x),
            y: fx_add(self.y, other.y),
            z: fx_add(self.z, other.z),
        }
    }

    /// Componentwise difference.
    pub fn sub(self, other: Vec3) -> (r: Vec3)
        ensures
            r == spec_vsub(self, other),
    {
        Vec3 {
            x: fx_sub(self.x, other.x),
            y: fx_sub(self.y, other.y),
            z: fx_sub(self.z, other.z),
        }
    }

    /// Componentwise product.
    pub fn mul(self, other: Vec3) -> (r: Vec3)
        ensures
            r == spec_vmul(self, other),
    {
        Vec3 {
            x: fx_mul(self.x, other.x),
            y: fx_mul(self.y, other.y),
            z: fx_mul(self.z, other.z),
        }
    }

    /// Componentwise quotient.
    pub fn div(self, other: Vec3) -> (r: Vec3)
        ensures
            r == spec_vdiv(self, other),
    {
        Vec3 {
            x: fx_div(self.x, other.x),
            y: fx_div(self.y, other.y),
            z: fx_div(self.z, other.z),
        }
    }

    /// Negation.
    pub fn neg(self) -> (r: Vec3)
        ensures
            r == spec_vneg(self),
    {
        Vec3 { x: fx_neg(self.x), y: fx_neg(self.y), z: fx_neg(self.z) }
    }

    /// Product with a scalar.
    pub fn scale(self, t: i64) -> (r: Vec3)
        ensures
            r == spec_vscale(self, t),
    {
        Vec3 { x: fx_mul(self.x, t), y: fx_mul(self.y, t), z: fx_mul(self.z, t) }
    }

    /// Quotient by a scalar.
    pub fn div_s(self, t: i64) -> (r: Vec3)
        ensures
            r == spec_vdiv_s(self, t),
    {
        Vec3 { x: fx_div(self.x, t), y: fx_div(self.y, t), z: fx_div(self.z, t) }
    }

    /// Sum with a scalar on each component.
    pub fn add_s(self, t: i64) -> (r: Vec3)
        ensures
            r == spec_vadd_s(self, t),
    {
        Vec3 { x: fx_add(self.x, t), y: fx_add(self.y, t), z: fx_add(self.z, t) }
    }

    /// Difference with a scalar on each component.
    pub fn sub_s(self, t: i64) -> (r: Vec3)
        ensures
            r == spec_vsub_s(self, t),
    {
        Vec3 { x: fx_sub(self.x, t), y: fx_sub(self.y, t), z: fx_sub(self.z, t) }
    }

    /// Inner product.
    pub fn dot(self, other: Vec3) -> (r: i64)
        ensures
            r == spec_dot(self, other),
    {
        fx_add(
            fx_add(fx_mul(self.x, other.x), fx_mul(self.y, other.y)),
            fx_mul(self.z, other.z),
        )
    }

    /// Squared length.
    pub fn length_squared(self) -> (r: i64)
        ensures
            r == spec_lensq(self),
    {
        self.dot(self)
    }

    /// Length.
    pub fn length(self) -> (r: i64)
        ensures
            r == spec_len(self),
            r >= 0,
    {
        fx_sqrt(self.length_squared())
    }

    /// The vector scaled to unit length.
    pub fn unit(self) -> (r: Vec3)
        ensures
            r == spec_unit(self),
    {
        let l: i64 = self.length();
        self.div_s(l)
    }

    /// Cross product.
    pub fn cross(self, other: Vec3) -> (r: Vec3)
        ensures
            r == spec_cross(self, other),
    {
        Vec3 {
            x: fx_sub(fx_mul(self.y, other.z), fx_mul(self.z, other.y)),
            y: fx_sub(fx_mul(self.z, other.x), fx_mul(self.x, other.z)),
            z: fx_sub(fx_mul(self.x, other.y), fx_mul(self.y, other.x)),
        }
    }

    /// Whether every component is a whole zero step.
    pub fn near_zero(self) -> (r: bool)
        ensures
            r == spec_near_zero(self),
    {
        self.x == 0 && self.y == 0 && self.z == 0
    }

    /// Mirror reflection about a normal.
    pub fn reflect(self, n: Vec3) -> (r: Vec3)
        ensures
            r == spec_reflect(self, n),
    {
        let d: i64 = self.dot(n);
        self.sub(n.scale(fx_add(d, d)))
    }

    /// Snell refraction of a unit direction about a normal.
    pub fn refract(self, n: Vec3, etai_over_etat: i64) -> (r: Vec3)
        ensures
            r == spec_refract(self, n, etai_over_etat),
    {
        let d: i64 = self.neg().dot(n);
        let cos_theta: i64 = if d <= FX_ONE {
            d
        } else {
            FX_ONE
        };
        let r_out_perp: Vec3 = self.add(n.scale(cos_theta)).scale(etai_over_etat);
        let k: i64 = fx_sub(FX_ONE, r_out_perp.length_squared());
        let r_out_parallel: Vec3 = n.scale(fx_neg(fx_sqrt(fx_abs(k))));
        r_out_perp.add(r_out_parallel)
    }

    /// A vector with each component uniform in `[0, 1)`.
    pub fn random(rng: &mut Prng) -> (r: Vec3)
        ensures
            r == spec_random_vec(old(rng).state).0,
            final (rng).state == spec_random_vec(old(rng).state).1,
    {
        let x: i64 = rng.random_fx();
        let y: i64 = rng.random_fx();
        let z: i64 = rng.random_fx();
        Vec3 { x, y, z }
    }

    /// A vector with each component uniform in `[min, max)`.
    pub fn random_bounded(min: i64, max: i64, rng: &mut Prng) -> (r: Vec3)
        ensures
            r == spec_random_vec_bounded(min, max, old(rng).state).0,
            final (rng).state == spec_random_vec_bounded(min, max, old(rng).state).1,
    {
        let x: i64 = rng.random_fx_bounded(min, max);
        let y: i64 = rng.random_fx_bounded(min, max);
        let z: i64 = rng.random_fx_bounded(min, max);
        Vec3 { x, y, z }
    }

    /// A vector of unit length, found by rejection sampling on the cube.
    #[verifier::rlimit(50)]
    pub fn random_unit(rng: &mut Prng) -> (r: Vec3)
        ensures
            r == spec_random_unit(old(rng).state, SAMPLE_FUEL as nat).0,
            final (rng).state == spec_random_unit(old(rng).state, SAMPLE_FUEL as nat).1,
    {
        let ghost target = spec_random_unit(old(rng).state, SAMPLE_FUEL as nat);
        let mut fuel: u32 = SAMPLE_FUEL;
        loop
            invariant
                target == spec_random_unit(old(rng).state, SAMPLE_FUEL as nat),
                spec_random_unit(rng.state, fuel as nat) == target,
            decreases fuel,
        {
            let ghost s0 = rng.state;
            let ghost f0 = fuel;
            if fuel == 0 {
                proof {
                    assert(spec_random_unit(s0, 0) == (Vec3 { x: FX_ONE, y: 0i64, z: 0i64 }, s0));
                }
                return Vec3 { x: FX_ONE, y: 0, z: 0 };
            }
            let p: Vec3 = Vec3::random_bounded(-FX_ONE, FX_ONE, rng);
            let q: i64 = p.length_squared();
            if FX_SQ_EPS < q && q <= FX_ONE {
                let l: i64 = fx_sqrt(q);
                proof {
                    assert(spec_random_unit(s0, f0 as nat) == (
                    spec_vdiv_s(p, spec_sqrt(q as int) as i64),
                    rng.state,
                    ));
                }
                return p.div_s(l);
            }
            proof {
                assert(spec_random_unit(s0, f0 as nat) == spec_random_unit(
                    rng.state,
                    (f0 - 1) as nat,
                ));
            }
            fuel = fuel - 1;
        }
    }

    /// A point in the unit disk at height zero, found by rejection sampling.
    #[verifier::rlimit(50)]
    pub fn random_in_unit_disk(rng: &mut Prng) -> (r: Vec3)
        ensures
            r == spec_random_in_unit_disk(old(rng).state, SAMPLE_FUEL as nat).0,
            final (rng).state == spec_random_in_unit_disk(old(rng).state, SAMPLE_FUEL as nat).1,
    {
        let ghost target = spec_random_in_unit_disk(old(rng).state, SAMPLE_FUEL as nat);
        let mut fuel: u32 = SAMPLE_FUEL;
        loop
            invariant
                target == spec_random_in_unit_disk(old(rng).state, SAMPLE_FUEL as nat),
                spec_random_in_unit_disk(rng.state, fuel as nat) == target,
            decreases fuel,
        {
            let ghost s0 = rng.state;
            let ghost f0 = fuel;
            if fuel == 0 {
                proof {
                    assert(spec_random_in_unit_disk(s0, 0) == (Vec3 { x: 0i64, y: 0i64, z: 0i64 }, s0));
                }
                return Vec3 { x: 0, y: 0, z: 0 };
            }
            let x: i64 = rng.random_fx_bounded(-FX_ONE, FX_ONE);
            let y: i64 = rng.random_fx_bounded(-FX_ONE, FX_ONE);
            let p: Vec3 = Vec3 { x, y, z: 0 };
            if p.length_squared() < FX_ONE {
                proof {
                    assert(spec_random_in_unit_disk(s0, f0 as nat) == (p, rng.state));
                }
                return p;
            }
            proof {
                assert(spec_random_in_unit_disk(s0, f0 as nat) == spec_random_in_unit_disk(
                    rng.state,
                    (f0 - 1) as nat,
                ));
            }
            fuel = fuel - 1;
        }
    }

    /// A unit vector lying in the hemisphere of the given normal.
    pub fn random_on_hemisphere(normal: Vec3, rng: &mut Prng) -> (r: Vec3)
        ensures
            r == spec_random_on_hemisphere(normal, old(rng).state).0,
            final (rng).state == spec_random_on_hemisphere(normal, old(rng).state).1,
    {
        let on_unit_sphere: Vec3 = Vec3::random_unit(rng);
        if on_unit_sphere.dot(normal) > 0 {
            on_unit_sphere
        } else {
            on_unit_sphere.neg()
        }
    }
}

} // verus!
