//! The sphere primitive and its ray intersection: the nearest valid root
//! of the ray-sphere quadratic.

use crate::fixed::{
    iabs, lemma_spec_mul_exact, lemma_tdiv_bound, lemma_tdiv_mono, spec_add, spec_div, spec_mul,
    spec_sqrt, spec_sub, tdiv, fx_add, fx_div, fx_mul, fx_sqrt, fx_sub, FX_ONE,
};
use crate::hittable::{lemma_face_normal_opposes, spec_face_normal, HitRecord};
use crate::interval::{spec_surrounds, Interval};
use crate::material::Material;
use crate::ray::{spec_at, Ray};
use crate::vec3::{spec_dot, spec_lensq, spec_vdiv_s, spec_vsub, Point3, Vec3};
use vstd::prelude::*;

verus! {

/// A sphere: center, nonnegative radius, and the material it carries.
#[derive(Clone, Copy, Debug, PartialEq, Eq, Structural)]
pub struct Sphere {
    pub center: Point3,
    pub radius: i64,
    pub mat: Material,
}

/// The vector from the ray origin to the sphere center.
pub open spec fn spec_sphere_oc(s: Sphere, r: Ray) -> Vec3 {
    spec_vsub(s.center, r.orig)
}

/// The quadratic's leading coefficient: the squared direction length.
pub open spec fn spec_sphere_a(s: Sphere, r: Ray) -> i64 {
    spec_lensq(r.dir)
}

/// The quadratic's half linear coefficient.
pub open spec fn spec_sphere_h(s: Sphere, r: Ray) -> i64 {
    spec_dot(r.dir, spec_sphere_oc(s, r))
}

/// The quadratic's constant coefficient: squared center distance less the
/// squared radius; negative exactly when the origin lies inside.
pub open spec fn spec_sphere_c(s: Sphere, r: Ray) -> i64 {
    spec_sub(spec_lensq(spec_sphere_oc(s, r)) as int, spec_mul(s.radius as int, s.radius as int))
        as i64
}

/// The discriminant of the half-coefficient form.
pub open spec fn spec_sphere_disc(s: Sphere, r: Ray) -> i64 {
    spec_sub(
        spec_mul(spec_sphere_h(s, r) as int, spec_sphere_h(s, r) as int),
        spec_mul(spec_sphere_a(s, r) as int, spec_sphere_c(s, r) as int),
    ) as i64
}

/// The nearer quadratic root.
pub open spec fn spec_sphere_root1(s: Sphere, r: Ray) -> i64 {
    spec_div(
        spec_sub(
            spec_sphere_h(s, r) as int,
            spec_sqrt(spec_sphere_disc(s, r) as int),
        ),
        spec_sphere_a(s, r) as int,
    ) as i64
}

/// The farther quadratic root.
pub open spec fn spec_sphere_root2(s: Sphere, r: Ray) -> i64 {
    spec_div(
        spec_add(
            spec_sphere_h(s, r) as int,
            spec_sqrt(spec_sphere_disc(s, r) as int),
        ),
        spec_sphere_a(s, r) as int,
    ) as i64
}

/// The record built for a hit at parameter `root`: surface point, outward
/// normal oriented by the front-face rule, and the sphere's material.
pub open spec fn spec_sphere_record(s: Sphere, r: Ray, root: i64) -> HitRecord {
    let p = spec_at(r, root);
    let outward_normal = spec_vdiv_s(spec_vsub(p, s.center), s.radius);
    let oriented = spec_face_normal(r, outward_normal);
    HitRecord { p, normal: oriented.1, t: root, front_face: oriented.0, material: s.mat }
}

/// What the intersection query returns: nothing when the discriminant is
/// negative; else the nearer root if it lies strictly inside the interval,
/// else the farther root if it does, else nothing.
#[verifier::opaque]
pub open spec fn spec_sphere_hit(s: Sphere, r: Ray, ray_t: Interval) -> Option<HitRecord> {
    if spec_sphere_disc(s, r) < 0 {
        None
    } else if spec_surrounds(ray_t, spec_sphere_root1(s, r)) {
        Some(spec_sphere_record(s, r, spec_sphere_root1(s, r)))
    } else if spec_surrounds(ray_t, spec_sphere_root2(s, r)) {
        Some(spec_sphere_record(s, r, spec_sphere_root2(s, r)))
    } else {
        None
    }
}

/// Component bound under which the intersection arithmetic provably never
/// saturates: 1024 whole units.
pub const SCENE_SCALE: i64 = 0x400_0000;

/// Whether a sphere and ray lie within the scale the saturation-freedom
/// arguments cover.
pub open spec fn spec_well_scaled(s: Sphere, r: Ray) -> bool {
    &&& iabs(s.center.x as int) <= SCENE_SCALE as int
    &&& iabs(s.center.y as int) <= SCENE_SCALE as int
    &&& iabs(s.center.z as int) <= SCENE_SCALE as int
    &&& 0 <= s.radius <= SCENE_SCALE
    &&& iabs(r.orig.x as int) <= SCENE_SCALE as int
    &&& iabs(r.orig.y as int) <= SCENE_SCALE as int
    &&& iabs(r.orig.z as int) <= SCENE_SCALE as int
    &&& iabs(r.dir.x as int) <= SCENE_SCALE as int
    &&& iabs(r.dir.y as int) <= SCENE_SCALE as int
    &&& iabs(r.dir.z as int) <= SCENE_SCALE as int
}

/// A ray starting inside the sphere leaves through the far root: when the
/// constant coefficient is negative (the origin lies strictly inside, by
/// at least two steps of squared distance), the direction is at least unit
/// length, and the query interval starts at or above zero, the near root
/// is never positive, so any hit the query reports is at the far root.
pub proof fn lemma_inside_origin_hits_far_root(s: Sphere, r: Ray, ray_t: Interval)
    requires
        spec_well_scaled(s, r),
        spec_sphere_a(s, r) >= FX_ONE,
        spec_sphere_c(s, r) <= -2,
        ray_t.min >= 0,
    ensures
        spec_sphere_root1(s, r) <= 0,
        spec_sphere_hit(s, r, ray_t) matches Some(hr) ==> hr.t == spec_sphere_root2(s, r),
{
    reveal(spec_sphere_hit);
    let one = FX_ONE as int;
    let oc = spec_sphere_oc(s, r);
    let a = spec_sphere_a(s, r) as int;
    let h = spec_sphere_h(s, r) as int;
    let c = spec_sphere_c(s, r) as int;

    // The difference of two in-scale components does not saturate.
    assert(iabs(oc.x as int) <= 0x800_0000 && iabs(oc.y as int) <= 0x800_0000 && iabs(
        oc.z as int,
    ) <= 0x800_0000);

    // Each product feeding h is bounded, so h itself is.
    lemma_spec_mul_exact(r.dir.x as int, oc.x as int, SCENE_SCALE as int, 0x800_0000);
    lemma_spec_mul_exact(r.dir.y as int, oc.y as int, SCENE_SCALE as int, 0x800_0000);
    lemma_spec_mul_exact(r.dir.z as int, oc.z as int, SCENE_SCALE as int, 0x800_0000);
    assert(iabs(h) <= 412316860416);

    // Each product feeding a is bounded, so a is.
    lemma_spec_mul_exact(r.dir.x as int, r.dir.x as int, SCENE_SCALE as int, SCENE_SCALE as int);
    lemma_spec_mul_exact(r.dir.y as int, r.dir.y as int, SCENE_SCALE as int, SCENE_SCALE as int);
    lemma_spec_mul_exact(r.dir.z as int, r.dir.z as int, SCENE_SCALE as int, SCENE_SCALE as int);
    assert(iabs(a) <= 206158430208);

    // Likewise for the constant coefficient.
    lemma_spec_mul_exact(oc.x as int, oc.x as int, 0x800_0000, 0x800_0000);
    lemma_spec_mul_exact(oc.y as int, oc.y as int, 0x800_0000, 0x800_0000);
    lemma_spec_mul_exact(oc.z as int, oc.z as int, 0x800_0000, 0x800_0000);
    lemma_spec_mul_exact(s.radius as int, s.radius as int, SCENE_SCALE as int, SCENE_SCALE as int);
    assert(iabs(c) <= 893353197568);

    // The two discriminant terms are exact and bounded.
    lemma_spec_mul_exact(h, h, 412316860416, 412316860416);
    lemma_spec_mul_exact(a, c, 206158430208, 893353197568);
    let hh = tdiv(h * h, one);
    let ac = tdiv(a * c, one);

    // The product a * c is at most -2 steps.
    assert(a * c <= (-2) * one) by (nonlinear_arith)
        requires
            a >= one,
            c <= -2,
            one > 0,
    ;
    lemma_tdiv_mono(a * c, (-2) * one, one);
    lemma_tdiv_bound((-2) * one, one);
    assert(tdiv((-2) * one, one) == -2);
    assert(ac <= -2);

    // h * h is nonnegative, so its scaled form is too.
    crate::fixed::lemma_spec_mul_self_nonneg(h);
    let disc = spec_sphere_disc(s, r) as int;
    assert(disc == hh - ac);
    assert(disc >= hh + 2);

    // disc, scaled back up, strictly exceeds h * h.
    assert(h * h >= 0) by (nonlinear_arith);
    crate::fixed::lemma_tdiv_times_back(h * h, one);
    assert(disc * one >= (hh + 2) * one) by (nonlinear_arith)
        requires
            disc >= hh + 2,
            one > 0,
    ;
    assert((hh + 2) * one == hh * one + 2 * one) by (nonlinear_arith);
    assert(disc * one >= h * h + 1);

    // So the root of the discriminant is at least the magnitude of h.
    let sq = crate::fixed::spec_sqrt(disc);
    assert(iabs(h) * iabs(h) == h * h && h * h < (iabs(h) + 1) * (iabs(h) + 1))
        by (nonlinear_arith);
    crate::fixed::lemma_isqrt_unique(h * h, iabs(h));
    crate::fixed::lemma_isqrt_mono(h * h, disc * one);
    assert(disc > 0);
    assert(sq == crate::fixed::isqrt(disc * one));
    assert(sq >= iabs(h));

    // The near root's numerator is nonpositive, hence so is the root.
    assert(spec_sub(h, sq) <= 0);
    let num = spec_sub(h, sq);
    assert(num * one <= 0) by (nonlinear_arith)
        requires
            num <= 0,
            one > 0,
    ;
    lemma_tdiv_mono(num * one, 0, a);
    lemma_tdiv_bound(0, a);
    assert(spec_sphere_root1(s, r) <= 0);

    // A nonpositive near root never lies strictly inside the interval.
    assert(!spec_surrounds(ray_t, spec_sphere_root1(s, r)));
}

/// Any record the intersection query returns opposes the incoming ray,
/// lies strictly inside the query interval, and carries the sphere's
/// material.
pub proof fn lemma_sphere_hit_record_opposes(s: Sphere, r: Ray, ray_t: Interval)
    ensures
        spec_sphere_hit(s, r, ray_t) matches Some(hr) ==> spec_dot(r.dir, hr.normal) <= 0
            && spec_surrounds(ray_t, hr.t) && hr.material == s.mat,
{
    reveal(spec_sphere_hit);
    if spec_sphere_hit(s, r, ray_t) is Some {
        let root = if spec_surrounds(ray_t, spec_sphere_root1(s, r)) && spec_sphere_disc(s, r)
            >= 0 {
            spec_sphere_root1(s, r)
        } else {
            spec_sphere_root2(s, r)
        };
        let outward_normal = spec_vdiv_s(spec_vsub(spec_at(r, root), s.center), s.radius);
        crate::fixed::lemma_spec_div_range(
            spec_vsub(spec_at(r, root), s.center).x as int,
            s.radius as int,
        );
        crate::fixed::lemma_spec_div_range(
            spec_vsub(spec_at(r, root), s.center).y as int,
            s.radius as int,
        );
        crate::fixed::lemma_spec_div_range(
            spec_vsub(spec_at(r, root), s.center).z as int,
            s.radius as int,
        );
        lemma_face_normal_opposes(r, outward_normal);
    }
}

impl Sphere {
    /// A sphere with the given center and material; a negative radius is
    /// clamped to zero.
    pub fn new(center: Point3, radius: i64, mat: Material) -> (r: Sphere)
        ensures
            r.center == center,
            r.mat == mat,
            r.radius == if radius >= 0 { radius } else { 0i64 },
    {
        let rad: i64 = if radius >= 0 {
            radius
        } else {
            0
        };
        Sphere { center, radius: rad, mat }
    }

    /// The nearest intersection of the ray with this sphere strictly
    /// inside `ray_t`, if any. The returned normal never runs with the
    /// incoming ray.
    pub fn hit(&self, r: Ray, ray_t: Interval) -> (res: Option<HitRecord>)
        ensures
            res == spec_sphere_hit(*self, r, ray_t),
            res matches Some(hr) ==> spec_dot(r.dir, hr.normal) <= 0 && spec_surrounds(
                ray_t,
                hr.t,
            ) && hr.material == self.mat,
    {
        proof {
            reveal(spec_sphere_hit);
        }
        let oc: Vec3 = self.center.sub(r.origin());
        let a: i64 = r.direction().length_squared();
        let h: i64 = r.direction().dot(oc);
        let c: i64 = fx_sub(oc.length_squared(), fx_mul(self.radius, self.radius));
        let discriminant: i64 = fx_sub(fx_mul(h, h), fx_mul(a, c));
        if discriminant < 0 {
            return None;
        }
        let sqrtd: i64 = fx_sqrt(discriminant);
        let mut root: i64 = fx_div(fx_sub(h, sqrtd), a);
        if !ray_t.surrounds(root) {
            root = fx_div(fx_add(h, sqrtd), a);
            if !ray_t.surrounds(root) {
                return None;
            }
        }
        let p: Point3 = r.at(root);
        let outward_normal: Vec3 = p.sub(self.center).div_s(self.radius);
        let mut rec: HitRecord = HitRecord {
            t: root,
            p,
            normal: Vec3::new(0, 0, 0),
            front_face: false,
            material: self.mat,
        };
        rec.set_face_normal(r, outward_normal);
        proof {
            lemma_sphere_hit_record_opposes(*self, r, ray_t);
        }
        Some(rec)
    }
}

} // verus!
