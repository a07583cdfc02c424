use ray_tracer::fixed::FX_ONE;
use ray_tracer::vec3::Vec3;

const ONE: i64 = FX_ONE;
const TWO: i64 = 2 * FX_ONE;
const THREE: i64 = 3 * FX_ONE;

#[test]
fn test_new() {
    let v1 = Vec3::new(ONE, TWO, THREE);

    assert_eq!(v1.x, ONE);
    assert_eq!(v1.y, TWO);
    assert_eq!(v1.z, THREE);

    assert_eq!(v1.x(), ONE);
    assert_eq!(v1.y(), TWO);
    assert_eq!(v1.z(), THREE);
}

#[test]
fn test_add() {
    let v1 = Vec3::new(ONE, TWO, THREE);
    let v2 = Vec3::new(ONE, TWO, THREE);

    let result = v1.add(v2);

    assert_eq!(result.x, 2 * FX_ONE);
    assert_eq!(result.y, 4 * FX_ONE);
    assert_eq!(result.z, 6 * FX_ONE);
}

#[test]
fn test_index() {
    let v1 = Vec3::new(ONE, TWO, THREE);

    assert_eq!(v1.component(0), ONE);
    assert_eq!(v1.component(1), TWO);
    assert_eq!(v1.component(2), THREE);
}

#[test]
fn test_add_assign() {
    let mut v1 = Vec3::new(ONE, TWO, THREE);
    let v2 = Vec3::new(ONE, TWO, THREE);

    v1 = v1.add(v2);

    assert_eq!(v1.x, 2 * FX_ONE);
    assert_eq!(v1.y, 4 * FX_ONE);
    assert_eq!(v1.z, 6 * FX_ONE);
}

#[test]
fn test_sub() {
    let v1 = Vec3::new(ONE, TWO, THREE);
    let v2 = Vec3::new(ONE, TWO, THREE);

    let result = v1.sub(v2);

    assert_eq!(result.x, 0);
    assert_eq!(result.y, 0);
    assert_eq!(result.z, 0);
}

#[test]
fn test_sub_assign() {
    let mut v1 = Vec3::new(ONE, TWO, THREE);
    let v2 = Vec3::new(ONE, TWO, THREE);

    v1 = v1.sub(v2);

    assert_eq!(v1.x, 0);
    assert_eq!(v1.y, 0);
    assert_eq!(v1.z, 0);
}

#[test]
fn test_mul() {
    let v1 = Vec3::new(ONE, TWO, THREE);
    let v2 = Vec3::new(ONE, TWO, THREE);

    let result = v1.mul(v2);

    assert_eq!(result.x, FX_ONE);
    assert_eq!(result.y, 4 * FX_ONE);
    assert_eq!(result.z, 9 * FX_ONE);
}

#[test]
fn test_mul_assign() {
    let mut v1 = Vec3::new(ONE, TWO, THREE);
    let v2 = Vec3::new(ONE, TWO, THREE);

    v1 = v1.mul(v2);

    assert_eq!(v1.x, FX_ONE);
    assert_eq!(v1.y, 4 * FX_ONE);
    assert_eq!(v1.z, 9 * FX_ONE);
}

#[test]
fn test_div() {
    let v1 = Vec3::new(ONE, TWO, THREE);
    let v2 = Vec3::new(ONE, TWO, THREE);

    let result = v1.div(v2);

    assert_eq!(result.x, FX_ONE);
    assert_eq!(result.y, FX_ONE);
    assert_eq!(result.z, FX_ONE);
}

#[test]
fn test_div_assign() {
    let mut v1 = Vec3::new(ONE, TWO, THREE);
    let v2 = Vec3::new(ONE, TWO, THREE);

    v1 = v1.div(v2);

    assert_eq!(v1.x, FX_ONE);
    assert_eq!(v1.y, FX_ONE);
    assert_eq!(v1.z, FX_ONE);
}

#[test]
fn test_len() {
    let v1 = Vec3::new(ONE, TWO, THREE);
    assert_eq!(v1.length_squared(), 14 * FX_ONE);
    assert_eq!(v1.length(), 245213);
}

#[test]
fn test_operators() {
    let v1 = Vec3::new(ONE, TWO, THREE);

    let result = v1.add_s(FX_ONE);

    assert_eq!(result.x, 2 * FX_ONE);
    assert_eq!(result.y, 3 * FX_ONE);
    assert_eq!(result.z, 4 * FX_ONE);

    let result = v1.add_s(FX_ONE);

    assert_eq!(result.x, 2 * FX_ONE);
    assert_eq!(result.y, 3 * FX_ONE);
    assert_eq!(result.z, 4 * FX_ONE);

    let result = v1.neg();
    assert_eq!(result.x, -ONE);
    assert_eq!(result.y, -TWO);
    assert_eq!(result.z, -THREE);
}

#[test]
fn test_cross_and_dot() {
    let x = Vec3::new(FX_ONE, 0, 0);
    let y = Vec3::new(0, FX_ONE, 0);
    let z = Vec3::new(0, 0, FX_ONE);

    assert_eq!(x.cross(y), z);
    assert_eq!(y.cross(z), x);
    assert_eq!(z.cross(x), y);
    assert_eq!(x.dot(y), 0);
    assert_eq!(x.dot(x), FX_ONE);
}

#[test]
fn test_reflect_exact() {
    let incoming = Vec3::new(0, -FX_ONE, 0);
    let normal = Vec3::new(0, FX_ONE, 0);
    let reflected = incoming.reflect(normal);
    assert_eq!(reflected, Vec3::new(0, FX_ONE, 0));
}

#[test]
fn test_unit_round_trip_length() {
    // unit(v).length() is one, up to fixed-point quantization.
    let cases = [
        Vec3::new(ONE, TWO, THREE),
        Vec3::new(-5 * FX_ONE, FX_ONE / 2, 7 * FX_ONE),
        Vec3::new(3 * FX_ONE, -4 * FX_ONE, 12 * FX_ONE),
        Vec3::new(FX_ONE / 3, FX_ONE / 3, -FX_ONE / 3),
        Vec3::new(0, 0, 200 * FX_ONE),
    ];
    for v in cases.iter() {
        let u = v.unit();
        let len = u.length();
        assert!((len - FX_ONE).abs() <= 16, "unit length was {}", len);
    }
}

#[test]
fn test_near_zero() {
    assert!(Vec3::new(0, 0, 0).near_zero());
    assert!(!Vec3::new(1, 0, 0).near_zero());
}
