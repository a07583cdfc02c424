//! The camera: viewport geometry derived once from the lens model, jittered
//! per-pixel ray generation, the recursive color integrator, and the render
//! loop that emits a plain-text image.
//!
//! Every function here carries an exact functional contract, so the bytes
//! `render` emits are a function of the camera, the scene and the seed
//! alone: rendering is deterministic by contract.

use crate::color::{spec_color_line, spec_decimal, write_color, Color};
use crate::fixed::{
    spec_add, spec_div, spec_from_i32, spec_mul, spec_sub, tdiv, fx_add, fx_div, fx_from_i32,
    fx_mul, fx_sub, fx_trunc, FX_MAX, FX_ONE,
};
use crate::hittable_list::{spec_list_hit, HittableList};
use crate::interval::Interval;
use crate::ray::Ray;
use crate::sampler::{spec_fx01, spec_next_state, spec_stream_state, Prng};
use crate::sphere::Sphere;
use crate::vec3::{
    spec_random_in_unit_disk, spec_unit, spec_vadd, spec_vmul, spec_vscale, spec_vsub, Point3,
    Vec3, SAMPLE_FUEL,
};
use crate::material::spec_scatter;
use vstd::prelude::*;

verus! {

/// One half, in fixed point.
pub const FX_HALF: i64 = 32768;

/// Two, in fixed point.
pub const FX_TWO: i64 = 131072;

/// The sky gradient's green channel at the top: seven tenths.
pub const SKY_GREEN: i64 = 45875;

/// The lower bound of every shading query: about a thousandth, so a
/// scattered ray cannot re-hit the surface it left.
pub const T_MIN_EPS: i64 = 66;

/// A camera: immutable, purely derived state computed once from the lens
/// model.
#[derive(Clone, Copy, Debug, PartialEq, Eq, Structural)]
pub struct Camera {
    pub image_width: i32,
    pub samples_per_pixel: i32,
    pub image_height: i32,
    pub center: Point3,
    pub pixel00_loc: Point3,
    pub pixel_delta_u: Vec3,
    pub pixel_delta_v: Vec3,
    pub pixel_samples_scale: i64,
    pub max_depth: i32,
    pub tan_half_vfov: i64,
    pub lookfrom: Point3,
    pub lookat: Point3,
    pub vup: Vec3,
    pub defocus_tan: i64,
    pub defocus_disk_u: Vec3,
    pub defocus_disk_v: Vec3,
}

/// The image height an aspect ratio yields for a width: the quotient,
/// floored into the whole range and never below one.
pub open spec fn spec_image_height(image_width: i32, aspect_ratio: i64) -> i32 {
    let ih0 = tdiv(spec_div(spec_from_i32(image_width as int), aspect_ratio as int), FX_ONE as int);
    if ih0 < 1 {
        1
    } else if ih0 > 0x7fff_ffff {
        0x7fff_ffff
    } else {
        ih0 as i32
    }
}

/// Everything the camera derives from its declarative inputs.
pub open spec fn spec_camera_new(
    image_width: i32,
    aspect_ratio: i64,
    samples_per_pixel: i32,
    max_depth: i32,
    tan_half_vfov: i64,
    tan_half_defocus: i64,
    focus_dist: i64,
    lookfrom: Point3,
    lookat: Point3,
    vup: Vec3,
) -> Camera {
    let image_height = spec_image_height(image_width, aspect_ratio);
    let center = lookfrom;
    let focal_length = crate::vec3::spec_len(spec_vsub(lookfrom, lookat));
    let viewport_height = spec_mul(
        spec_mul(FX_TWO as int, tan_half_vfov as int),
        focus_dist as int,
    ) as i64;
    let viewport_width = spec_mul(
        viewport_height as int,
        spec_div(spec_from_i32(image_width as int), spec_from_i32(image_height as int)),
    ) as i64;
    let w = spec_unit(spec_vsub(lookfrom, lookat));
    let u = spec_unit(crate::vec3::spec_cross(vup, w));
    let v = crate::vec3::spec_cross(w, u);
    let viewport_u = spec_vscale(u, viewport_width);
    let viewport_v = spec_vscale(crate::vec3::spec_vneg(v), viewport_height);
    let pixel_delta_u = crate::vec3::spec_vdiv_s(
        viewport_u,
        spec_from_i32(image_width as int) as i64,
    );
    let pixel_delta_v = crate::vec3::spec_vdiv_s(
        viewport_v,
        spec_from_i32(image_height as int) as i64,
    );
    let viewport_upper_left = spec_vsub(
        spec_vsub(
            spec_vsub(center, spec_vscale(w, focal_length)),
            crate::vec3::spec_vdiv_s(viewport_u, FX_TWO),
        ),
        crate::vec3::spec_vdiv_s(viewport_v, FX_TWO),
    );
    let pixel00_loc = spec_vadd(
        viewport_upper_left,
        spec_vscale(spec_vadd(pixel_delta_u, pixel_delta_v), FX_HALF),
    );
    let defocus_radius = spec_mul(focus_dist as int, tan_half_defocus as int) as i64;
    Camera {
        image_width,
        samples_per_pixel,
        image_height,
        center,
        pixel00_loc,
        pixel_delta_u,
        pixel_delta_v,
        pixel_samples_scale: spec_div(
            FX_ONE as int,
            spec_from_i32(samples_per_pixel as int),
        ) as i64,
        max_depth,
        tan_half_vfov,
        lookfrom,
        lookat,
        vup,
        defocus_tan: tan_half_defocus,
        defocus_disk_u: spec_vscale(u, defocus_radius),
        defocus_disk_v: spec_vscale(v, defocus_radius),
    }
}

/// The jitter drawn for one sample: a point in the half-open unit square
/// centered on the pixel.
pub open spec fn spec_sample_square(s: u64) -> (Vec3, u64) {
    let s1 = spec_next_state(s);
    let s2 = spec_next_state(s1);
    (
        Vec3 {
            x: spec_sub(spec_fx01(s) as int, FX_HALF as int) as i64,
            y: spec_sub(spec_fx01(s1) as int, FX_HALF as int) as i64,
            z: 0,
        },
        s2,
    )
}

/// The origin drawn from the defocus disk.
pub open spec fn spec_defocus_disk_sample(cam: Camera, s: u64) -> (Point3, u64) {
    let (p, s1) = spec_random_in_unit_disk(s, SAMPLE_FUEL as nat);
    (
        spec_vadd(
            spec_vadd(cam.center, spec_vscale(cam.defocus_disk_u, p.x)),
            spec_vscale(cam.defocus_disk_v, p.y),
        ),
        s1,
    )
}

/// The jittered ray cast for pixel `(i, j)`: from the eye, or from the
/// defocus disk when the aperture is open, toward a sampled point in the
/// pixel's footprint.
#[verifier::opaque]
pub open spec fn spec_get_ray(cam: Camera, i: int, j: int, s: u64) -> (Ray, u64) {
    let (offset, s1) = spec_sample_square(s);
    let pixel_sample = spec_vadd(
        spec_vadd(
            cam.pixel00_loc,
            spec_vscale(cam.pixel_delta_u, spec_add(spec_from_i32(i), offset.x as int) as i64),
        ),
        spec_vscale(cam.pixel_delta_v, spec_add(spec_from_i32(j), offset.y as int) as i64),
    );
    let origin_pair = if cam.defocus_tan <= 0 {
        (cam.center, s1)
    } else {
        spec_defocus_disk_sample(cam, s1)
    };
    let ray_origin = origin_pair.0;
    let s2 = origin_pair.1;
    (Ray { orig: ray_origin, dir: spec_vsub(pixel_sample, ray_origin) }, s2)
}

/// The recursive color integral of one ray: black past the bounce limit;
/// on a hit, the scattered color attenuated, or black on absorption; on a
/// miss, the sky gradient.
#[verifier::opaque]
pub open spec fn spec_ray_color(r: Ray, objs: Seq<Sphere>, depth: int, s: u64) -> (Color, u64)
    decreases depth,
{
    if depth <= 0 {
        (Vec3 { x: 0, y: 0, z: 0 }, s)
    } else {
        match spec_list_hit(objs, r, Interval { min: T_MIN_EPS, max: FX_MAX }) {
            Some(rec) => {
                let scatter_pair = spec_scatter(rec.material, r, rec, s);
                let s1 = scatter_pair.1;
                match scatter_pair.0 {
                    Some(pair) => {
                        let (c, s2) = spec_ray_color(pair.0, objs, depth - 1, s1);
                        (spec_vmul(pair.1, c), s2)
                    },
                    None => (Vec3 { x: 0, y: 0, z: 0 }, s1),
                }
            },
            None => {
                let unit_direction = spec_unit(r.dir);
                let a = spec_mul(
                    FX_HALF as int,
                    spec_add(unit_direction.y as int, FX_ONE as int),
                ) as i64;
                (
                    spec_vadd(
                        spec_vscale(
                            Vec3 { x: FX_ONE, y: FX_ONE, z: FX_ONE },
                            spec_sub(FX_ONE as int, a as int) as i64,
                        ),
                        spec_vscale(Vec3 { x: FX_HALF, y: SKY_GREEN, z: FX_ONE }, a),
                    ),
                    s,
                )
            },
        }
    }
}

/// The linear color accumulated over the first `n` samples of pixel
/// `(i, j)`.
#[verifier::opaque]
pub open spec fn spec_pixel_sum(cam: Camera, objs: Seq<Sphere>, i: int, j: int, n: int, s: u64) -> (
    Color,
    u64,
)
    decreases n,
{
    if n <= 0 {
        (Vec3 { x: 0, y: 0, z: 0 }, s)
    } else {
        let (acc, s1) = spec_pixel_sum(cam, objs, i, j, n - 1, s);
        let (ray, s2) = spec_get_ray(cam, i, j, s1);
        let (col, s3) = spec_ray_color(ray, objs, cam.max_depth as int, s2);
        (spec_vadd(acc, col), s3)
    }
}

/// The bytes of the first `i_count` pixels of row `j`: each pixel's sample
/// mean, gamma-encoded as one text line.
#[verifier::opaque]
pub open spec fn spec_row_cells(cam: Camera, objs: Seq<Sphere>, j: int, i_count: int, s: u64) -> (
    Seq<u8>,
    u64,
)
    decreases i_count,
{
    if i_count <= 0 {
        (Seq::empty(), s)
    } else {
        let (bytes, s1) = spec_row_cells(cam, objs, j, i_count - 1, s);
        let (sum, s2) = spec_pixel_sum(
            cam,
            objs,
            i_count - 1,
            j,
            cam.samples_per_pixel as int,
            s1,
        );
        (bytes + spec_color_line(spec_vscale(sum, cam.pixel_samples_scale)), s2)
    }
}

/// The image header: the plain-text magic, the dimensions, and the
/// channel ceiling.
pub open spec fn spec_ppm_header(w: int, h: int) -> Seq<u8> {
    seq![80u8, 51u8, 10u8] + spec_decimal(w) + seq![32u8] + spec_decimal(h) + seq![
        10u8,
        50u8,
        53u8,
        53u8,
        10u8,
    ]
}

/// The bytes of the first `j_count` rows, each rendered from its own
/// sub-stream of the master seed.
#[verifier::opaque]
pub open spec fn spec_render_rows(cam: Camera, objs: Seq<Sphere>, j_count: int, seed: u64) -> Seq<
    u8,
>
    decreases j_count,
{
    if j_count <= 0 {
        Seq::empty()
    } else {
        spec_render_rows(cam, objs, j_count - 1, seed) + spec_row_cells(
            cam,
            objs,
            j_count - 1,
            cam.image_width as int,
            spec_stream_state(seed, (j_count - 1) as u64),
        ).0
    }
}

/// The whole image a camera renders of a scene from a seed: header, then
/// every row in scan order. Rendering is a function of these three values
/// alone.
pub open spec fn spec_render(cam: Camera, objs: Seq<Sphere>, seed: u64) -> Seq<u8> {
    spec_ppm_header(cam.image_width as int, cam.image_height as int) + spec_render_rows(
        cam,
        objs,
        cam.image_height as int,
        seed,
    )
}

impl Camera {
    /// Derive the camera's viewport and lens geometry from its declarative
    /// inputs. The field-of-view and aperture angles enter as tangents of
    /// their half-angles; an aperture tangent of zero or less disables
    /// depth of field.
    pub fn new(
        image_width: i32,
        aspect_ratio: i64,
        samples_per_pixel: i32,
        max_depth: i32,
        tan_half_vfov: i64,
        tan_half_defocus: i64,
        focus_dist: i64,
        lookfrom: Point3,
        lookat: Point3,
        vup: Vec3,
    ) -> (r: Camera)
        requires
            image_width >= 1,
            samples_per_pixel >= 1,
        ensures
            r == spec_camera_new(
                image_width,
                aspect_ratio,
                samples_per_pixel,
                max_depth,
                tan_half_vfov,
                tan_half_defocus,
                focus_dist,
                lookfrom,
                lookat,
                vup,
            ),
            r.image_height >= 1,
    {
        let ih0: i64 = fx_trunc(fx_div(fx_from_i32(image_width), aspect_ratio));
        let image_height: i32 = if ih0 < 1 {
            1
        } else if ih0 > 0x7fff_ffff {
            0x7fff_ffff
        } else {
            ih0 as i32
        };

        let center: Point3 = lookfrom;
        let focal_length: i64 = lookfrom.sub(lookat).length();
        let viewport_height: i64 = fx_mul(fx_mul(FX_TWO, tan_half_vfov), focus_dist);
        let viewport_width: i64 = fx_mul(
            viewport_height,
            fx_div(fx_from_i32(image_width), fx_from_i32(image_height)),
        );

        let w: Vec3 = lookfrom.sub(lookat).unit();
        let u: Vec3 = vup.cross(w).unit();
        let v: Vec3 = w.cross(u);

        let viewport_u: Vec3 = u.scale(viewport_width);
        let viewport_v: Vec3 = v.neg().scale(viewport_height);

        let pixel_delta_u: Vec3 = viewport_u.div_s(fx_from_i32(image_width));
        let pixel_delta_v: Vec3 = viewport_v.div_s(fx_from_i32(image_height));

        let viewport_upper_left: Point3 = center.sub(w.scale(focal_length)).sub(
            viewport_u.div_s(FX_TWO),
        ).sub(viewport_v.div_s(FX_TWO));
        let pixel00_loc: Point3 = viewport_upper_left.add(
            pixel_delta_u.add(pixel_delta_v).scale(FX_HALF),
        );

        let defocus_radius: i64 = fx_mul(focus_dist, tan_half_defocus);
        let defocus_disk_u: Vec3 = u.scale(defocus_radius);
        let defocus_disk_v: Vec3 = v.scale(defocus_radius);

        Camera {
            image_width,
            samples_per_pixel,
            image_height,
            center,
            pixel00_loc,
            pixel_delta_u,
            pixel_delta_v,
            pixel_samples_scale: fx_div(FX_ONE, fx_from_i32(samples_per_pixel)),
            max_depth,
            tan_half_vfov,
            lookfrom,
            lookat,
            vup,
            defocus_tan: tan_half_defocus,
            defocus_disk_u,
            defocus_disk_v,
        }
    }

    /// The jitter for one sample.
    fn sample_square(&self, rng: &mut Prng) -> (r: Vec3)
        ensures
            r == spec_sample_square(old(rng).state).0,
            final (rng).state == spec_sample_square(old(rng).state).1,
    {
        let x: i64 = fx_sub(rng.random_fx(), FX_HALF);
        let y: i64 = fx_sub(rng.random_fx(), FX_HALF);
        Vec3::new(x, y, 0)
    }

    /// A random origin on the defocus disk.
    fn defocus_disk_sample(&self, rng: &mut Prng) -> (r: Point3)
        ensures
            r == spec_defocus_disk_sample(*self, old(rng).state).0,
            final (rng).state == spec_defocus_disk_sample(*self, old(rng).state).1,
    {
        let p: Vec3 = Vec3::random_in_unit_disk(rng);
        self.center.add(self.defocus_disk_u.scale(p.x())).add(self.defocus_disk_v.scale(p.y()))
    }

    /// The jittered ray cast for pixel `(i, j)`.
    pub fn get_ray(&self, i: i32, j: i32, rng: &mut Prng) -> (r: Ray)
        ensures
            r == spec_get_ray(*self, i as int, j as int, old(rng).state).0,
            final (rng).state == spec_get_ray(*self, i as int, j as int, old(rng).state).1,
    {
        proof {
            reveal(spec_get_ray);
        }
        let offset: Vec3 = self.sample_square(rng);
        let pixel_sample: Point3 = self.pixel00_loc.add(
            self.pixel_delta_u.scale(fx_add(fx_from_i32(i), offset.x())),
        ).add(self.pixel_delta_v.scale(fx_add(fx_from_i32(j), offset.y())));

        let ray_origin: Point3 = if self.defocus_tan <= 0 {
            self.center
        } else {
            self.defocus_disk_sample(rng)
        };
        let ray_direction: Vec3 = pixel_sample.sub(ray_origin);
        Ray::new(ray_origin, ray_direction)
    }

    /// The color carried back along one ray, integrating up to `depth`
    /// bounces.
    pub fn ray_color(&self, r: Ray, world: &HittableList, depth: i32, rng: &mut Prng) -> (c: Color)
        ensures
            c == spec_ray_color(r, world.objects@, depth as int, old(rng).state).0,
            final (rng).state == spec_ray_color(r, world.objects@, depth as int, old(rng).state).1,
        decreases depth,
    {
        proof {
            reveal(spec_ray_color);
        }
        if depth <= 0 {
            return Vec3::new(0, 0, 0);
        }
        if let Some(rec) = world.hit(r, Interval::new(T_MIN_EPS, FX_MAX)) {
            if let Some(pair) = rec.material.scatter(&r, &rec, rng) {
                let (scattered, attenuation): (Ray, Color) = pair;
                return attenuation.mul(self.ray_color(scattered, world, depth - 1, rng));
            }
            return Vec3::new(0, 0, 0);
        }
        let unit_direction: Vec3 = r.direction().unit();
        let a: i64 = fx_mul(FX_HALF, fx_add(unit_direction.y(), FX_ONE));
        Vec3::new(FX_ONE, FX_ONE, FX_ONE).scale(fx_sub(FX_ONE, a)).add(
            Vec3::new(FX_HALF, SKY_GREEN, FX_ONE).scale(a),
        )
    }

    /// Render one row of the image into bytes, advancing the sampler
    /// through every sample of every pixel of the row.
    pub fn render_row(&self, world: &HittableList, j: i32, rng: &mut Prng) -> (out: Vec<u8>)
        ensures
            out@ == spec_row_cells(
                *self,
                world.objects@,
                j as int,
                self.image_width as int,
                old(rng).state,
            ).0,
            final (rng).state == spec_row_cells(
                *self,
                world.objects@,
                j as int,
                self.image_width as int,
                old(rng).state,
            ).1,
    {
        proof {
            reveal(spec_row_cells);
        }
        let ghost s0 = old(rng).state;
        let mut out: Vec<u8> = Vec::new();
        let mut i: i32 = 0;
        while i < self.image_width
            invariant
                0 <= i,
                self.image_width >= 0 ==> i <= self.image_width,
                self.image_width < 0 ==> i == 0,
                out@ == spec_row_cells(
                    *self,
                    world.objects@,
                    j as int,
                    i as int,
                    s0,
                ).0,
                rng.state == spec_row_cells(
                    *self,
                    world.objects@,
                    j as int,
                    i as int,
                    s0,
                ).1,
            decreases self.image_width - i,
        {
            proof {
                reveal(spec_row_cells);
                reveal(spec_pixel_sum);
            }
            let ghost s_pix = rng.state;
            let mut pixel_color: Color = Vec3::new(0, 0, 0);
            let mut sample: i32 = 0;
            while sample < self.samples_per_pixel
                invariant
                    0 <= sample,
                    self.samples_per_pixel >= 0 ==> sample <= self.samples_per_pixel,
                    self.samples_per_pixel < 0 ==> sample == 0,
                    pixel_color == spec_pixel_sum(
                        *self,
                        world.objects@,
                        i as int,
                        j as int,
                        sample as int,
                        s_pix,
                    ).0,
                    rng.state == spec_pixel_sum(
                        *self,
                        world.objects@,
                        i as int,
                        j as int,
                        sample as int,
                        s_pix,
                    ).1,
                decreases self.samples_per_pixel - sample,
            {
                proof {
                    reveal(spec_pixel_sum);
                }
                let ray: Ray = self.get_ray(i, j, rng);
                let col: Color = self.ray_color(ray, world, self.max_depth, rng);
                pixel_color = pixel_color.add(col);
                sample = sample + 1;
            }
            write_color(&mut out, pixel_color.scale(self.pixel_samples_scale));
            proof {
                reveal(spec_row_cells);
                reveal(spec_pixel_sum);
                if self.samples_per_pixel < 0 {
                    assert(spec_pixel_sum(
                        *self,
                        world.objects@,
                        i as int,
                        j as int,
                        self.samples_per_pixel as int,
                        s_pix,
                    ) == spec_pixel_sum(*self, world.objects@, i as int, j as int, 0, s_pix));
                }
                assert(out@ =~= spec_row_cells(
                    *self,
                    world.objects@,
                    j as int,
                    i as int + 1,
                    s0,
                ).0);
            }
            i = i + 1;
        }
        out
    }

    /// Render the whole image: the plain-text header, then every row in
    /// scan order, each row sampled from its own sub-stream of the seed.
    /// The emitted bytes are a function of the camera, the scene and the
    /// seed alone, so equal inputs give byte-identical images.
    pub fn render(&self, world: &HittableList, seed: u64) -> (out: Vec<u8>)
        requires
            self.image_width >= 0,
            self.image_height >= 0,
        ensures
            out@ == spec_render(*self, world.objects@, seed),
    {
        let mut out: Vec<u8> = Vec::new();
        out.push(80);
        out.push(51);
        out.push(10);
        crate::color::push_decimal(&mut out, self.image_width as u32);
        out.push(32);
        crate::color::push_decimal(&mut out, self.image_height as u32);
        out.push(10);
        out.push(50);
        out.push(53);
        out.push(53);
        out.push(10);
        proof {
            assert(out@ =~= spec_ppm_header(
                self.image_width as int,
                self.image_height as int,
            ));
        }
        proof {
            reveal(spec_render_rows);
        }
        let ghost header = spec_ppm_header(self.image_width as int, self.image_height as int);
        let mut j: i32 = 0;
        while j < self.image_height
            invariant
                0 <= j <= self.image_height,
                header == spec_ppm_header(self.image_width as int, self.image_height as int),
                out@ == header + spec_render_rows(*self, world.objects@, j as int, seed),
            decreases self.image_height - j,
        {
            let mut rng: Prng = Prng::stream(seed, j as u64);
            let mut row: Vec<u8> = self.render_row(world, j, &mut rng);
            out.append(&mut row);
            proof {
                reveal(spec_render_rows);
                assert(out@ =~= header + spec_render_rows(
                    *self,
                    world.objects@,
                    j as int + 1,
                    seed,
                ));
            }
            j = j + 1;
        }
        out
    }
}

} // verus!
