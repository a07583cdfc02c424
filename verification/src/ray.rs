//! Rays: a half-line from an origin along a direction, parametrized by a
//! fixed-point scalar.

use crate::vec3::{spec_vadd, spec_vscale, Point3, Vec3};
use vstd::prelude::*;

verus! {

/// A ray `origin + t * direction`. The direction is not normalized by
/// convention.
#[derive(Clone, Copy, Debug, PartialEq, Eq, Structural)]
pub struct Ray {
    pub orig: Point3,
    pub dir: Vec3,
}

/// The point the ray reaches at parameter `t`.
pub open spec fn spec_at(r: Ray, t: i64) -> Point3 {
    spec_vadd(r.orig, spec_vscale(r.dir, t))
}

impl Ray {
    /// The ray with the given origin and direction.
    pub fn new(orig: Point3, dir: Vec3) -> (r: Ray)
        ensures
            r == (Ray { orig, dir }),
    {
        Ray { orig, dir }
    }

    /// The point the ray reaches at parameter `t`.
    pub fn at(self, t: i64) -> (r: Point3)
        ensures
            r == spec_at(self, t),
    {
        self.orig.add(self.dir.scale(t))
    }

    /// The ray's direction.
    pub fn direction(self) -> (r: Vec3)
        ensures
            r == self.dir,
    {
        self.dir
    }

    /// The ray's origin.
    pub fn origin(self) -> (r: Point3)
        ensures
            r == self.orig,
    {
        self.orig
    }
}

} // verus!
