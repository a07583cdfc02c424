//! The scene aggregate: an ordered collection of primitives whose
//! intersection query returns the closest valid hit across all members.

use crate::hittable::HitRecord;
use crate::interval::Interval;
use crate::ray::Ray;
use crate::sphere::{spec_sphere_hit, Sphere};
use crate::vec3::lemma_lensq_nonneg;
use vstd::prelude::*;

verus! {

/// The state of the shrinking scan after the first `i` members: each later
/// member is queried against an interval capped by the closest hit so far.
pub open spec fn spec_list_hit_loop(
    objs: Seq<Sphere>,
    i: int,
    r: Ray,
    t_min: i64,
    closest: i64,
    best: Option<HitRecord>,
) -> Option<HitRecord>
    decreases objs.len() - i,
{
    if i < 0 || i >= objs.len() {
        best
    } else {
        match spec_sphere_hit(objs[i], r, Interval { min: t_min, max: closest }) {
            Some(h) => spec_list_hit_loop(objs, i + 1, r, t_min, h.t, Some(h)),
            None => spec_list_hit_loop(objs, i + 1, r, t_min, closest, best),
        }
    }
}

/// What the aggregate query returns: the shrinking scan started on the
/// full interval.
pub open spec fn spec_list_hit(objs: Seq<Sphere>, r: Ray, ray_t: Interval) -> Option<HitRecord> {
    spec_list_hit_loop(objs, 0, r, ray_t.min, ray_t.max, None)
}

/// An ordered collection of primitives; append-only during construction,
/// read-only during rendering.
pub struct HittableList {
    pub objects: Vec<Sphere>,
}

impl HittableList {
    /// An empty scene.
    pub fn new() -> (r: HittableList)
        ensures
            r.objects@.len() == 0,
    {
        HittableList { objects: Vec::new() }
    }

    /// Append one primitive.
    pub fn add(&mut self, obj: Sphere)
        ensures
            final (self).objects@ == old(self).objects@.push(obj),
    {
        self.objects.push(obj);
    }

    /// Remove every primitive.
    pub fn clear(&mut self)
        ensures
            final (self).objects@.len() == 0,
    {
        self.objects.clear();
    }

    /// The closest valid hit across all members, if any. Any record it
    /// returns opposes the incoming ray and lies strictly inside the
    /// query interval.
    pub fn hit(&self, r: Ray, ray_t: Interval) -> (res: Option<HitRecord>)
        ensures
            res == spec_list_hit(self.objects@, r, ray_t),
            res matches Some(h) ==> crate::vec3::spec_dot(r.dir, h.normal) <= 0
                && crate::interval::spec_surrounds(ray_t, h.t),
    {
        let mut closest_so_far: i64 = ray_t.max;
        let mut ret: Option<HitRecord> = None;
        let n: usize = self.objects.len();
        let mut idx: usize = 0;
        while idx < n
            invariant
                n == self.objects@.len(),
                idx <= n,
                spec_list_hit(self.objects@, r, ray_t) == spec_list_hit_loop(
                    self.objects@,
                    idx as int,
                    r,
                    ray_t.min,
                    closest_so_far,
                    ret,
                ),
            decreases n - idx,
        {
            let obj: &Sphere = &self.objects[idx];
            if let Some(rec) = obj.hit(r, Interval::new(ray_t.min, closest_so_far)) {
                closest_so_far = rec.t;
                ret = Some(rec);
            }
            idx = idx + 1;
        }
        proof {
            if ret is Some {
                lemma_list_hit_is_nearest(self.objects@, r, ray_t);
                let h = ret->Some_0;
                let k = choose|k: int|
                    0 <= k < self.objects@.len() && spec_sphere_hit(self.objects@[k], r, ray_t)
                        == Some(h);
                crate::sphere::lemma_sphere_hit_record_opposes(self.objects@[k], r, ray_t);
            }
        }
        ret
    }
}

/// Narrowing the far end of the query interval keeps or discards the same
/// hit: the root selection itself does not move. A hit nearer than the new
/// cap survives unchanged; one at or past it disappears; a miss stays a
/// miss.
pub proof fn lemma_sphere_hit_narrow(s: Sphere, r: Ray, t_min: i64, b: i64, b2: i64)
    requires
        b2 <= b,
    ensures
        spec_sphere_hit(s, r, Interval { min: t_min, max: b }) is None ==> spec_sphere_hit(
            s,
            r,
            Interval { min: t_min, max: b2 },
        ) is None,
        spec_sphere_hit(s, r, Interval { min: t_min, max: b }) matches Some(h) ==> (if h.t < b2 {
            spec_sphere_hit(s, r, Interval { min: t_min, max: b2 }) == spec_sphere_hit(
                s,
                r,
                Interval { min: t_min, max: b },
            )
        } else {
            spec_sphere_hit(s, r, Interval { min: t_min, max: b2 }) is None
        }),
{
    reveal(spec_sphere_hit);
    let disc = crate::sphere::spec_sphere_disc(s, r);
    if disc >= 0 {
        let a = crate::sphere::spec_sphere_a(s, r);
        let h = crate::sphere::spec_sphere_h(s, r);
        let sq = crate::fixed::spec_sqrt(disc as int);
        lemma_lensq_nonneg(r.dir);
        crate::fixed::lemma_isqrt(disc * (crate::fixed::FX_ONE as int));
        crate::fixed::lemma_sat_mono((h as int) - sq, (h as int) + sq);
        crate::fixed::lemma_spec_div_mono_num(
            crate::fixed::spec_sub(h as int, sq),
            crate::fixed::spec_add(h as int, sq),
            a as int,
        );
    }
}

/// The aggregate query returns the nearest hit: when it misses, every
/// member misses on the same interval; when it returns a record, some
/// member's own query on the same interval returns that very record, and
/// no member's query returns a nearer one.
pub proof fn lemma_list_hit_is_nearest(objs: Seq<Sphere>, r: Ray, ray_t: Interval)
    ensures
        spec_list_hit(objs, r, ray_t) is None ==> forall|k: int|
            0 <= k < objs.len() ==> spec_sphere_hit(objs[k], r, ray_t) is None,
        spec_list_hit(objs, r, ray_t) matches Some(h) ==> ((exists|k: int|
            0 <= k < objs.len() && spec_sphere_hit(objs[k], r, ray_t) == Some(h)) && (forall|
            k: int,
        |
            0 <= k < objs.len() ==> (#[trigger] spec_sphere_hit(objs[k], r, ray_t) matches Some(g)
                ==> g.t >= h.t))),
{
    lemma_list_loop_nearest(objs, 0, r, ray_t, ray_t.max, None);
}

/// Induction step for the nearest-hit law: the stated scan-state facts are
/// kept by every further member.
proof fn lemma_list_loop_nearest(
    objs: Seq<Sphere>,
    i: int,
    r: Ray,
    orig: Interval,
    closest: i64,
    best: Option<HitRecord>,
)
    requires
        0 <= i <= objs.len(),
        closest <= orig.max,
        best is None ==> closest == orig.max,
        best is None ==> forall|k: int|
            0 <= k < i ==> spec_sphere_hit(objs[k], r, orig) is None,
        best matches Some(h) ==> h.t == closest && (exists|k: int|
            0 <= k < i && spec_sphere_hit(objs[k], r, orig) == Some(h)),
        forall|k: int|
            0 <= k < i ==> (#[trigger] spec_sphere_hit(objs[k], r, orig) matches Some(g) ==> g.t
                >= closest),
    ensures
        spec_list_hit_loop(objs, i, r, orig.min, closest, best) is None ==> forall|k: int|
            0 <= k < objs.len() ==> spec_sphere_hit(objs[k], r, orig) is None,
        spec_list_hit_loop(objs, i, r, orig.min, closest, best) matches Some(h) ==> ((exists|
            k: int,
        |
            0 <= k < objs.len() && spec_sphere_hit(objs[k], r, orig) == Some(h)) && (forall|
            k: int,
        |
            0 <= k < objs.len() ==> (#[trigger] spec_sphere_hit(objs[k], r, orig) matches Some(g)
                ==> g.t >= h.t))),
    decreases objs.len() - i,
{
    if i < objs.len() {
        let narrow = spec_sphere_hit(objs[i], r, Interval { min: orig.min, max: closest });
        let wide = spec_sphere_hit(objs[i], r, orig);
        lemma_sphere_hit_narrow(objs[i], r, orig.min, orig.max, closest);
        if best is None {
            assert(Interval { min: orig.min, max: closest } == orig);
        }
        match narrow {
            Some(g) => {
                assert(wide == Some(g));
                lemma_list_loop_nearest(objs, i + 1, r, orig, g.t, Some(g));
            },
            None => {
                lemma_list_loop_nearest(objs, i + 1, r, orig, closest, best);
            },
        }
    }
}

} // verus!
