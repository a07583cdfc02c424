use ray_tracer::camera::Camera;
use ray_tracer::color::{channel_byte, write_color};
use ray_tracer::fixed::{degrees_to_radians, fx_sqrt, FX_MAX, FX_ONE, FX_PI};
use ray_tracer::hittable::HitRecord;
use ray_tracer::hittable_list::HittableList;
use ray_tracer::interval::Interval;
use ray_tracer::material::{Dielectric, Lambertian, Material, Metal};
use ray_tracer::ray::Ray;
use ray_tracer::sampler::Prng;
use ray_tracer::sphere::Sphere;
use ray_tracer::vec3::Vec3;

fn gray(level: i64) -> Material {
    Material::Lambertian(Lambertian::new(Vec3::new(level, level, level)))
}

#[test]
fn sphere_hit_from_inside_picks_far_root() {
    // Ray origin at the sphere's center: the near root is behind the
    // origin, so the far root is reported, approached from the back side.
    let s = Sphere::new(Vec3::new(0, 0, 0), 2 * FX_ONE, gray(FX_ONE / 2));
    let r = Ray::new(Vec3::new(0, 0, 0), Vec3::new(0, 0, -FX_ONE));
    let hit = s.hit(r, Interval::new(66, FX_MAX)).unwrap();
    assert_eq!(hit.t, 2 * FX_ONE);
    assert_eq!(hit.front_face, false);
    assert_eq!(hit.normal, Vec3::new(0, 0, FX_ONE));
}

#[test]
fn sphere_hit_normal_is_unit_and_opposes_ray() {
    let s = Sphere::new(Vec3::new(0, 0, -3 * FX_ONE), FX_ONE, gray(FX_ONE / 2));
    let r = Ray::new(Vec3::new(0, 0, 0), Vec3::new(0, 0, -FX_ONE));
    let hit = s.hit(r, Interval::new(66, FX_MAX)).unwrap();
    assert_eq!(hit.t, 2 * FX_ONE);
    assert_eq!(hit.normal, Vec3::new(0, 0, FX_ONE));
    assert!(hit.front_face);
    assert!(r.direction().dot(hit.normal) <= 0);

    // An off-axis ray: the normal is unit length within quantization and
    // still opposes the ray.
    let r2 = Ray::new(
        Vec3::new(FX_ONE / 4, FX_ONE / 5, 0),
        Vec3::new(-FX_ONE / 16, FX_ONE / 17, -FX_ONE),
    );
    let hit2 = s.hit(r2, Interval::new(66, FX_MAX)).unwrap();
    let nlen = hit2.normal.length();
    assert!((nlen - FX_ONE).abs() <= 64, "normal length {}", nlen);
    assert!(r2.direction().dot(hit2.normal) <= 0);
}

#[test]
fn sphere_miss_reports_none() {
    let s = Sphere::new(Vec3::new(0, 0, -3 * FX_ONE), FX_ONE, gray(FX_ONE / 2));
    let r = Ray::new(Vec3::new(0, 0, 0), Vec3::new(0, 0, FX_ONE));
    assert!(s.hit(r, Interval::new(66, FX_MAX)).is_none());
}

#[test]
fn sphere_new_clamps_negative_radius() {
    let s = Sphere::new(Vec3::new(0, 0, 0), -5 * FX_ONE, gray(FX_ONE / 2));
    assert_eq!(s.radius, 0);
}

#[test]
fn world_hit_returns_minimum_t() {
    // Two spheres along the same ray: the aggregate reports the t of the
    // nearer one, whichever order they were added in.
    let near = Sphere::new(Vec3::new(0, 0, -2 * FX_ONE), FX_ONE / 2, gray(FX_ONE / 2));
    let far = Sphere::new(Vec3::new(0, 0, -6 * FX_ONE), FX_ONE / 2, gray(FX_ONE / 2));
    let r = Ray::new(Vec3::new(0, 0, 0), Vec3::new(0, 0, -FX_ONE));
    let window = Interval::new(66, FX_MAX);

    let t_near = near.hit(r, window).unwrap().t;
    let t_far = far.hit(r, window).unwrap().t;
    assert!(t_near < t_far);

    let mut world = HittableList::new();
    world.add(far);
    world.add(near);
    let agg = world.hit(r, window).unwrap();
    assert_eq!(agg.t, t_near.min(t_far));

    let mut world2 = HittableList::new();
    world2.add(near);
    world2.add(far);
    assert_eq!(world2.hit(r, window).unwrap().t, agg.t);
}

#[test]
fn world_clear_empties_the_scene() {
    let mut world = HittableList::new();
    world.add(Sphere::new(Vec3::new(0, 0, -2 * FX_ONE), FX_ONE, gray(FX_ONE / 2)));
    world.clear();
    let r = Ray::new(Vec3::new(0, 0, 0), Vec3::new(0, 0, -FX_ONE));
    assert!(world.hit(r, Interval::new(66, FX_MAX)).is_none());
}

#[test]
fn lambertian_always_scatters_with_albedo() {
    let albedo = Vec3::new(FX_ONE / 2, FX_ONE / 4, FX_ONE / 8);
    let mat = Lambertian::new(albedo);
    let rec = HitRecord {
        p: Vec3::new(0, 0, -FX_ONE),
        normal: Vec3::new(0, FX_ONE, 0),
        t: FX_ONE,
        front_face: true,
        material: Material::Lambertian(mat),
    };
    let r_in = Ray::new(Vec3::new(0, FX_ONE, -FX_ONE), Vec3::new(0, -FX_ONE, 0));
    let mut rng = Prng::new(7);
    let (scattered, attenuation) = mat.scatter(&r_in, &rec, &mut rng).unwrap();
    assert_eq!(attenuation, albedo);
    assert_eq!(scattered.origin(), rec.p);
    // The scattered direction leans along the normal and is never zero.
    assert!(!scattered.direction().near_zero());
}

#[test]
fn metal_zero_fuzz_reflects_exactly() {
    // A fuzzless metal hit head-on: the scattered ray is exactly the
    // mirror reflection of the incoming direction.
    let mat = Metal::new(Vec3::new(FX_ONE, FX_ONE, FX_ONE), 0);
    let rec = HitRecord {
        p: Vec3::new(0, 0, 0),
        normal: Vec3::new(0, FX_ONE, 0),
        t: FX_ONE,
        front_face: true,
        material: Material::Metal(mat),
    };
    let r_in = Ray::new(Vec3::new(0, FX_ONE, 0), Vec3::new(0, -FX_ONE, 0));
    let mut rng = Prng::new(99);
    let (scattered, _) = mat.scatter(&r_in, &rec, &mut rng).unwrap();
    let mirror = r_in.direction().reflect(rec.normal).unit();
    assert_eq!(scattered.direction(), mirror);
    assert_eq!(scattered.direction(), Vec3::new(0, FX_ONE, 0));
}

#[test]
fn metal_grazing_reflection_is_absorbed() {
    // The reflection of a grazing ray lies in the surface plane, so the
    // scatter is discarded whatever the fuzz draw was.
    let mat = Metal::new(Vec3::new(FX_ONE, FX_ONE, FX_ONE), 0);
    let rec = HitRecord {
        p: Vec3::new(0, 0, 0),
        normal: Vec3::new(0, FX_ONE, 0),
        t: FX_ONE,
        front_face: true,
        material: Material::Metal(mat),
    };
    let r_in = Ray::new(Vec3::new(-FX_ONE, 0, 0), Vec3::new(FX_ONE, 0, 0));
    let mut rng = Prng::new(3);
    assert!(mat.scatter(&r_in, &rec, &mut rng).is_none());
}

#[test]
fn dielectric_grazing_exit_reflects_totally() {
    // Leaving glass at near-grazing incidence: the ratio times the sine
    // exceeds one, so the ray reflects instead of refracting.
    let mat = Dielectric::new(98304);  // index 1.5
    let rec = HitRecord {
        p: Vec3::new(0, 0, 0),
        normal: Vec3::new(0, FX_ONE, 0),
        t: FX_ONE,
        front_face: false,
        material: Material::Dielectric(mat),
    };
    let r_in = Ray::new(Vec3::new(-FX_ONE, 0, 0), Vec3::new(FX_ONE, -655, 0));
    let (scattered, attenuation) = mat.scatter(&r_in, &rec).unwrap();
    assert_eq!(attenuation, Vec3::new(FX_ONE, FX_ONE, FX_ONE));
    let mirror = r_in.direction().unit().reflect(rec.normal);
    assert_eq!(scattered.direction(), mirror);
}

#[test]
fn random_unit_vectors_have_unit_length_and_no_bias() {
    // Ten thousand draws: each length is one within quantization, the mean
    // length is one, and the mean vector is near zero.
    let mut rng = Prng::new(42);
    let n = 10000;
    let mut sum_len = 0.0f64;
    let mut sum = [0.0f64; 3];
    for _ in 0..n {
        let v = Vec3::random_unit(&mut rng);
        let len = (v.length() as f64) / (FX_ONE as f64);
        assert!((len - 1.0).abs() < 0.01, "length {}", len);
        sum_len += len;
        sum[0] += (v.x as f64) / (FX_ONE as f64);
        sum[1] += (v.y as f64) / (FX_ONE as f64);
        sum[2] += (v.z as f64) / (FX_ONE as f64);
    }
    let mean_len = sum_len / (n as f64);
    assert!((mean_len - 1.0).abs() < 0.005, "mean length {}", mean_len);
    for c in sum.iter() {
        let mean = c / (n as f64);
        assert!(mean.abs() < 0.03, "mean component {}", mean);
    }
}

#[test]
fn hemisphere_samples_lean_along_the_normal() {
    let normal = ray_tracer::vec3::Vec3::new(0, FX_ONE, 0);
    let mut rng = Prng::new(11);
    for _ in 0..200 {
        let v = Vec3::random_on_hemisphere(normal, &mut rng);
        assert!(v.dot(normal) >= 0);
    }
}

#[test]
fn prng_is_deterministic_and_in_range() {
    let mut a = Prng::new(123);
    let mut b = Prng::new(123);
    for _ in 0..100 {
        let x = a.random_fx();
        assert_eq!(x, b.random_fx());
        assert!(0 <= x && x < FX_ONE);
    }
    let mut c = Prng::new(124);
    let mut d = Prng::new(123);
    let mut same = true;
    for _ in 0..10 {
        if c.next_u64() != d.next_u64() {
            same = false;
        }
    }
    assert!(!same);
}

#[test]
fn channel_bytes_are_gamma_encoded() {
    assert_eq!(channel_byte(0), 0);
    assert_eq!(channel_byte(-FX_ONE), 0);
    assert_eq!(channel_byte(FX_ONE), 255);
    assert_eq!(channel_byte(2 * FX_ONE), 255);
    // A quarter of full brightness: the square root is one half, which
    // maps to byte 128.
    assert_eq!(channel_byte(FX_ONE / 4), 128);
}

#[test]
fn write_color_emits_one_decimal_line() {
    let mut out: Vec<u8> = Vec::new();
    write_color(&mut out, Vec3::new(0, FX_ONE / 4, FX_ONE));
    assert_eq!(out, b"0 128 255\n".to_vec());
}

#[test]
fn gamma_of_nonpositive_is_zero() {
    assert_eq!(ray_tracer::color::linear_to_gamma(-5), 0);
    assert_eq!(ray_tracer::color::linear_to_gamma(0), 0);
    assert_eq!(ray_tracer::color::linear_to_gamma(FX_ONE), FX_ONE);
}

#[test]
fn sqrt_is_exact_on_squares() {
    assert_eq!(fx_sqrt(4 * FX_ONE), 2 * FX_ONE);
    assert_eq!(fx_sqrt(FX_ONE / 4), FX_ONE / 2);
    assert_eq!(fx_sqrt(0), 0);
    assert_eq!(fx_sqrt(-FX_ONE), 0);
}

#[test]
fn degrees_to_radians_of_half_turn_is_pi() {
    assert_eq!(degrees_to_radians(180 * FX_ONE), FX_PI);
    assert_eq!(degrees_to_radians(0), 0);
}

#[test]
fn ray_at_walks_the_parametrization() {
    let r = Ray::new(Vec3::new(FX_ONE, 0, 0), Vec3::new(0, 2 * FX_ONE, 0));
    assert_eq!(r.at(0), Vec3::new(FX_ONE, 0, 0));
    assert_eq!(r.at(FX_ONE / 2), Vec3::new(FX_ONE, FX_ONE, 0));
    assert_eq!(r.at(-FX_ONE), Vec3::new(FX_ONE, -2 * FX_ONE, 0));
}

#[test]
fn camera_derives_height_and_basis_from_inputs() {
    let camera = Camera::new(
        200,
        2 * FX_ONE,
        1,
        5,
        FX_ONE,
        0,
        FX_ONE,
        Vec3::new(0, 0, 0),
        Vec3::new(0, 0, -FX_ONE),
        Vec3::new(0, FX_ONE, 0),
    );
    assert_eq!(camera.image_height, 100);
    assert_eq!(camera.center, Vec3::new(0, 0, 0));
    // Width twice the height and a ninety-degree field of view: the pixel
    // steps run right and down.
    assert!(camera.pixel_delta_u.x > 0);
    assert!(camera.pixel_delta_v.y < 0);
    assert_eq!(camera.pixel_samples_scale, FX_ONE);
}

fn center_sphere_scene() -> (Camera, HittableList) {
    let mut world = HittableList::new();
    world.add(Sphere::new(
        Vec3::new(0, 0, -FX_ONE),
        FX_ONE / 2,
        gray(FX_ONE / 2),
    ));
    // Camera at the origin looking down the negative z axis, with a
    // ninety-degree vertical field of view.
    let camera = Camera::new(
        11,
        FX_ONE,
        20,
        10,
        FX_ONE,
        0,
        FX_ONE,
        Vec3::new(0, 0, 0),
        Vec3::new(0, 0, -FX_ONE),
        Vec3::new(0, FX_ONE, 0),
    );
    (camera, world)
}

fn pixel_brightness(ppm: &str, width: usize, x: usize, y: usize) -> u32 {
    let mut lines = ppm.lines();
    // Skip the three header lines.
    assert_eq!(lines.next().unwrap(), "P3");
    lines.next().unwrap();
    assert_eq!(lines.next().unwrap(), "255");
    let body: Vec<&str> = lines.collect();
    let line = body[y * width + x];
    let mut total: u32 = 0;
    for part in line.split(' ') {
        total += part.parse::<u32>().unwrap();
    }
    total
}

#[test]
fn center_pixel_is_darker_than_sky_edges() {
    // One gray sphere dead ahead: the pixel that sees it converges to a
    // color strictly darker than the sky at the image corners.
    let (camera, world) = center_sphere_scene();
    let out = camera.render(&world, 2024);
    let ppm = String::from_utf8(out).unwrap();
    let center = pixel_brightness(&ppm, 11, 5, 5);
    let corner_a = pixel_brightness(&ppm, 11, 0, 0);
    let corner_b = pixel_brightness(&ppm, 11, 10, 0);
    assert!(center < corner_a, "center {} corner {}", center, corner_a);
    assert!(center < corner_b, "center {} corner {}", center, corner_b);
}

#[test]
fn render_is_byte_identical_for_equal_seeds() {
    let (camera, world) = center_sphere_scene();
    let first = camera.render(&world, 7);
    let second = camera.render(&world, 7);
    assert_eq!(first, second);
    let header = b"P3\n11 11\n255\n";
    assert_eq!(&first[..header.len()], &header[..]);
}

#[test]
fn render_row_matches_whole_image_rows() {
    // A row rendered alone, from its own sub-stream, is byte-identical to
    // the same row inside the full image.
    let (camera, world) = center_sphere_scene();
    let full = camera.render(&world, 7);
    let ppm = String::from_utf8(full).unwrap();
    let body: Vec<&str> = ppm.lines().skip(3).collect();

    let mut rng = Prng::stream(7, 3);
    let row = camera.render_row(&world, 3, &mut rng);
    let row_text = String::from_utf8(row).unwrap();
    let row_lines: Vec<&str> = row_text.lines().collect();
    assert_eq!(row_lines.len(), 11);
    for i in 0..11 {
        assert_eq!(row_lines[i], body[3 * 11 + i]);
    }
}

#[test]
fn empty_scene_renders_pure_sky() {
    let world = HittableList::new();
    let camera = Camera::new(
        3,
        FX_ONE,
        4,
        5,
        FX_ONE,
        0,
        FX_ONE,
        Vec3::new(0, 0, 0),
        Vec3::new(0, 0, -FX_ONE),
        Vec3::new(0, FX_ONE, 0),
    );
    let out = camera.render(&world, 1);
    let ppm = String::from_utf8(out).unwrap();
    // Sky colors only: the blue channel is full everywhere.
    for line in ppm.lines().skip(3) {
        let parts: Vec<&str> = line.split(' ').collect();
        assert_eq!(parts.len(), 3);
        assert_eq!(parts[2], "255");
    }
}
