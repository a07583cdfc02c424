//! Hit records: what an intersection query yields on success.

use crate::fixed::FX_MAX;
use crate::material::Material;
use crate::ray::Ray;
use crate::vec3::{lemma_dot_neg, spec_dot, spec_vneg, Point3, Vec3};
use vstd::prelude::*;

verus! {

/// A recorded intersection: the surface point, the normal oriented against
/// the incoming ray, the ray parameter, which side was struck, and the
/// material at that point.
#[derive(Clone, Copy, Debug, PartialEq, Eq, Structural)]
pub struct HitRecord {
    pub p: Point3,
    pub normal: Vec3,
    pub t: i64,
    pub front_face: bool,
    pub material: Material,
}

/// The front-face rule: a hit is front-facing when the ray runs against the
/// outward normal, and the stored normal is the outward normal or its
/// negation accordingly.
pub open spec fn spec_face_normal(r: Ray, outward_normal: Vec3) -> (bool, Vec3) {
    let front_face = spec_dot(r.dir, outward_normal) < 0;
    (
        front_face,
        if front_face {
            outward_normal
        } else {
            spec_vneg(outward_normal)
        },
    )
}

/// With an outward normal whose negation does not saturate, the stored
/// normal of the front-face rule never runs with the incoming ray.
pub proof fn lemma_face_normal_opposes(r: Ray, outward_normal: Vec3)
    requires
        -FX_MAX <= outward_normal.x,
        -FX_MAX <= outward_normal.y,
        -FX_MAX <= outward_normal.z,
    ensures
        spec_dot(r.dir, spec_face_normal(r, outward_normal).1) <= 0,
{
    if !(spec_dot(r.dir, outward_normal) < 0) {
        lemma_dot_neg(r.dir, outward_normal);
    }
}

impl HitRecord {
    /// Store the outward normal oriented against the incoming ray, per the
    /// front-face rule.
    pub fn set_face_normal(&mut self, r: Ray, outward_normal: Vec3)
        ensures
            final (self).front_face == spec_face_normal(r, outward_normal).0,
            final (self).normal == spec_face_normal(r, outward_normal).1,
            final (self).p == old(self).p,
            final (self).t == old(self).t,
            final (self).material == old(self).material,
    {
        self.front_face = r.direction().dot(outward_normal) < 0;
        if self.front_face {
            self.normal = outward_normal;
        } else {
            self.normal = outward_normal.neg();
        }
    }
}

} // verus!
