//! The material scattering model: diffuse, metallic and refractive
//! surfaces, each producing a scattered ray and an attenuation color, or
//! signaling absorption.

use crate::color::Color;
use crate::fixed::{fx_min, fx_mul, fx_neg, fx_sqrt, fx_sub, spec_mul, spec_neg, spec_sqrt,
    spec_sub, FX_ONE};
use crate::hittable::HitRecord;
use crate::ray::Ray;
use crate::sampler::Prng;
use crate::vec3::{
    spec_dot, spec_near_zero, spec_random_unit, spec_reflect, spec_refract, spec_unit,
    spec_vadd, spec_vneg, spec_vscale, Vec3, SAMPLE_FUEL,
};
use vstd::prelude::*;

verus! {

/// A diffuse surface with the given albedo.
#[derive(Clone, Copy, Debug, PartialEq, Eq, Structural)]
pub struct Lambertian {
    pub albedo: Color,
}

/// A reflective surface with the given albedo and fuzz radius.
#[derive(Clone, Copy, Debug, PartialEq, Eq, Structural)]
pub struct Metal {
    pub albedo: Color,
    pub fuzz: i64,
}

/// A refractive surface with the given relative refraction index.
#[derive(Clone, Copy, Debug, PartialEq, Eq, Structural)]
pub struct Dielectric {
    pub refraction_index: i64,
}

/// Any of the materials a surface point can carry.
#[derive(Clone, Copy, Debug, PartialEq, Eq, Structural)]
pub enum Material {
    Lambertian(Lambertian),
    Metal(Metal),
    Dielectric(Dielectric),
}

/// What a diffuse surface scatters: the normal offset by a random unit
/// vector, or the normal alone when that sum degenerates; never absorbed.
pub open spec fn spec_scatter_lambertian(m: Lambertian, rec: HitRecord, s: u64) -> (
    Option<(Ray, Color)>,
    u64,
) {
    let (u, s1) = spec_random_unit(s, SAMPLE_FUEL as nat);
    let d0 = spec_vadd(rec.normal, u);
    let d = if spec_near_zero(d0) {
        rec.normal
    } else {
        d0
    };
    (Some((Ray { orig: rec.p, dir: d }, m.albedo)), s1)
}

/// What a metal surface scatters: the normalized mirror reflection offset
/// by a fuzzed random unit vector; absorbed when the result points into
/// the surface.
pub open spec fn spec_scatter_metal(m: Metal, r_in: Ray, rec: HitRecord, s: u64) -> (
    Option<(Ray, Color)>,
    u64,
) {
    let reflected = spec_reflect(r_in.dir, rec.normal);
    let (u, s1) = spec_random_unit(s, SAMPLE_FUEL as nat);
    let d = spec_vadd(spec_unit(reflected), spec_vscale(u, m.fuzz));
    if spec_dot(d, rec.normal) > 0 {
        (Some((Ray { orig: rec.p, dir: d }, m.albedo)), s1)
    } else {
        (None, s1)
    }
}

/// The effective relative refraction ratio at a hit: inverted when the ray
/// enters from outside.
pub open spec fn spec_dielectric_ratio(m: Dielectric, rec: HitRecord) -> i64 {
    if rec.front_face {
        crate::fixed::spec_div(FX_ONE as int, m.refraction_index as int) as i64
    } else {
        m.refraction_index
    }
}

/// The cosine a dielectric reads at a hit, capped at one.
pub open spec fn spec_dielectric_cos(r_in: Ray, rec: HitRecord) -> i64 {
    let c0 = spec_neg(spec_dot(spec_unit(r_in.dir), rec.normal) as int) as i64;
    if c0 <= FX_ONE {
        c0
    } else {
        FX_ONE
    }
}

/// The sine a dielectric reads at a hit: the root of one minus the squared
/// cosine.
pub open spec fn spec_dielectric_sin(r_in: Ray, rec: HitRecord) -> i64 {
    let cos_theta = spec_dielectric_cos(r_in, rec);
    spec_sqrt(spec_sub(FX_ONE as int, spec_mul(cos_theta as int, cos_theta as int)) as int) as i64
}

/// Whether refraction is impossible at this hit: total internal reflection,
/// declared when the ratio times the sine exceeds one.
pub open spec fn spec_cannot_refract(m: Dielectric, r_in: Ray, rec: HitRecord) -> bool {
    spec_mul(spec_dielectric_ratio(m, rec) as int, spec_dielectric_sin(r_in, rec) as int)
        > FX_ONE as int
}

/// What a dielectric scatters: a white attenuation and either the Snell
/// refraction or, under total internal reflection, the mirror reflection;
/// never absorbed.
pub open spec fn spec_scatter_dielectric(m: Dielectric, r_in: Ray, rec: HitRecord) -> Option<
    (Ray, Color),
> {
    let ri = spec_dielectric_ratio(m, rec);
    let unit_direction = spec_unit(r_in.dir);
    let direction = if spec_cannot_refract(m, r_in, rec) {
        spec_reflect(unit_direction, rec.normal)
    } else {
        spec_refract(unit_direction, rec.normal, ri)
    };
    Some(
        (
            Ray { orig: rec.p, dir: direction },
            Color { x: FX_ONE, y: FX_ONE, z: FX_ONE },
        ),
    )
}

/// What any material scatters, with the sampler state that follows.
pub open spec fn spec_scatter(m: Material, r_in: Ray, rec: HitRecord, s: u64) -> (
    Option<(Ray, Color)>,
    u64,
) {
    match m {
        Material::Lambertian(l) => spec_scatter_lambertian(l, rec, s),
        Material::Metal(mt) => spec_scatter_metal(mt, r_in, rec, s),
        Material::Dielectric(d) => (spec_scatter_dielectric(d, r_in, rec), s),
    }
}

impl Lambertian {
    /// A diffuse material with the given albedo.
    pub fn new(albedo: Color) -> (r: Lambertian)
        ensures
            r.albedo == albedo,
    {
        Lambertian { albedo }
    }

    /// Scatter per the diffuse rule; always succeeds, with the albedo as
    /// attenuation. The incoming ray plays no part in the diffuse rule;
    /// it is taken so every material scatters through one shape of call.
    #[allow(unused_variables)]
    pub fn scatter(&self, r_in: &Ray, rec: &HitRecord, rng: &mut Prng) -> (r: Option<(Ray, Color)>)
        ensures
            r == spec_scatter_lambertian(*self, *rec, old(rng).state).0,
            final (rng).state == spec_scatter_lambertian(*self, *rec, old(rng).state).1,
            r is Some,
            r matches Some(pair) ==> pair.1 == self.albedo && pair.0.orig == rec.p,
    {
        let mut scatter_direction: Vec3 = rec.normal.add(Vec3::random_unit(rng));
        if scatter_direction.near_zero() {
            scatter_direction = rec.normal;
        }
        let scattered: Ray = Ray::new(rec.p, scatter_direction);
        Some((scattered, self.albedo))
    }
}

impl Metal {
    /// A metal with the given albedo and fuzz radius.
    pub fn new(albedo: Color, fuzz: i64) -> (r: Metal)
        ensures
            r.albedo == albedo,
            r.fuzz == fuzz,
    {
        Metal { albedo, fuzz }
    }

    /// Scatter per the metal rule; succeeds exactly when the fuzzed
    /// reflection leaves the surface.
    pub fn scatter(&self, r_in: &Ray, rec: &HitRecord, rng: &mut Prng) -> (r: Option<(Ray, Color)>)
        ensures
            r == spec_scatter_metal(*self, *r_in, *rec, old(rng).state).0,
            final (rng).state == spec_scatter_metal(*self, *r_in, *rec, old(rng).state).1,
            r matches Some(pair) ==> pair.1 == self.albedo && pair.0.orig == rec.p
                && spec_dot(pair.0.dir, rec.normal) > 0,
    {
        let reflected: Vec3 = r_in.direction().reflect(rec.normal);
        let fuzzed: Vec3 = reflected.unit().add(Vec3::random_unit(rng).scale(self.fuzz));
        let scattered: Ray = Ray::new(rec.p, fuzzed);
        if scattered.direction().dot(rec.normal) > 0 {
            return Some((scattered, self.albedo));
        }
        None
    }
}

impl Dielectric {
    /// A refractive material with the given relative index.
    pub fn new(refraction_index: i64) -> (r: Dielectric)
        ensures
            r.refraction_index == refraction_index,
    {
        Dielectric { refraction_index }
    }

    /// Scatter per the refraction rule; always succeeds, with a white
    /// attenuation.
    pub fn scatter(&self, r_in: &Ray, rec: &HitRecord) -> (r: Option<(Ray, Color)>)
        ensures
            r == spec_scatter_dielectric(*self, *r_in, *rec),
            r is Some,
            r matches Some(pair) ==> pair.1 == (Color { x: FX_ONE, y: FX_ONE, z: FX_ONE })
                && pair.0.orig == rec.p,
    {
        let attenuation: Color = Vec3::new(FX_ONE, FX_ONE, FX_ONE);
        let ri: i64 = if rec.front_face {
            crate::fixed::fx_div(FX_ONE, self.refraction_index)
        } else {
            self.refraction_index
        };
        let unit_direction: Vec3 = r_in.direction().unit();
        let cos_theta: i64 = fx_min(fx_neg(unit_direction.dot(rec.normal)), FX_ONE);
        let sin_theta: i64 = fx_sqrt(fx_sub(FX_ONE, fx_mul(cos_theta, cos_theta)));
        let cannot_refract: bool = fx_mul(ri, sin_theta) > FX_ONE;
        let direction: Vec3 = if cannot_refract {
            unit_direction.reflect(rec.normal)
        } else {
            unit_direction.refract(rec.normal, ri)
        };
        let scattered: Ray = Ray::new(rec.p, direction);
        Some((scattered, attenuation))
    }
}

impl Material {
    /// Scatter with whichever rule this material carries.
    pub fn scatter(&self, r_in: &Ray, rec: &HitRecord, rng: &mut Prng) -> (r: Option<(Ray, Color)>)
        ensures
            r == spec_scatter(*self, *r_in, *rec, old(rng).state).0,
            final (rng).state == spec_scatter(*self, *r_in, *rec, old(rng).state).1,
    {
        match self {
            Material::Lambertian(l) => l.scatter(r_in, rec, rng),
            Material::Metal(m) => m.scatter(r_in, rec, rng),
            Material::Dielectric(d) => d.scatter(r_in, rec),
        }
    }
}

/// A metal with no fuzz is an exact mirror: whenever it scatters, the
/// scattered direction is precisely the normalized mirror reflection of
/// the incoming direction.
pub proof fn lemma_metal_zero_fuzz_is_mirror(m: Metal, r_in: Ray, rec: HitRecord, s: u64)
    requires
        m.fuzz == 0,
    ensures
        spec_scatter_metal(m, r_in, rec, s).0 matches Some(pair) ==> pair.0.dir == spec_unit(
            spec_reflect(r_in.dir, rec.normal),
        ),
{
    let reflected = spec_reflect(r_in.dir, rec.normal);
    let u = spec_random_unit(s, SAMPLE_FUEL as nat).0;
    let zero_off = spec_vscale(u, 0);
    assert((u.x as int) * 0 == 0) by (nonlinear_arith);
    assert((u.y as int) * 0 == 0) by (nonlinear_arith);
    assert((u.z as int) * 0 == 0) by (nonlinear_arith);
    crate::fixed::lemma_tdiv_bound(0, FX_ONE as int);
    assert(zero_off == (Vec3 { x: 0i64, y: 0i64, z: 0i64 }));
    crate::fixed::lemma_spec_div_range(reflected.x as int, crate::vec3::spec_len(reflected) as int);
    crate::fixed::lemma_spec_div_range(reflected.y as int, crate::vec3::spec_len(reflected) as int);
    crate::fixed::lemma_spec_div_range(reflected.z as int, crate::vec3::spec_len(reflected) as int);
    assert(spec_vadd(spec_unit(reflected), zero_off) == spec_unit(reflected));
}

/// Under total internal reflection a dielectric reflects: whenever the
/// ratio times the sine exceeds one, the scattered direction is the mirror
/// reflection of the normalized incoming direction.
pub proof fn lemma_dielectric_total_internal_reflection(m: Dielectric, r_in: Ray, rec: HitRecord)
    requires
        spec_cannot_refract(m, r_in, rec),
    ensures
        spec_scatter_dielectric(m, r_in, rec) matches Some(pair) ==> pair.0.dir == spec_reflect(
            spec_unit(r_in.dir),
            rec.normal,
        ),
{
}

} // verus!
