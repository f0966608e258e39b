use raytracer::fixed::Fixed;
use raytracer::vec3::Vec3;

fn v(x: i64, y: i64, z: i64) -> Vec3 {
    Vec3::from_raw(x, y, z)
}

#[test]
fn constructors_agree() {
    let a = Vec3::new(Fixed::from_raw(1), Fixed::from_raw(2), Fixed::from_raw(3));
    assert_eq!(a, v(1, 2, 3));
    assert_eq!(a.x.raw, 1);
    assert_eq!(a.y.raw, 2);
    assert_eq!(a.z.raw, 3);
    assert_eq!(Vec3::zeros(), v(0, 0, 0));
    assert_eq!(Vec3::ones(), v(1_000_000, 1_000_000, 1_000_000));
}

#[test]
fn sums_and_differences_go_by_component() {
    let a = v(1_000_000, -2_000_000, 3_500_000);
    let b = v(500_000, 500_000, -500_000);
    assert_eq!(a.add(b), v(1_500_000, -1_500_000, 3_000_000));
    assert_eq!(a.sub(b), v(500_000, -2_500_000, 4_000_000));
    assert_eq!(a.neg(), v(-1_000_000, 2_000_000, -3_500_000));
    assert_eq!(a.add(Vec3::zeros()), a);
}

#[test]
fn scale_and_unscale() {
    let a = v(1_000_000, -2_000_000, 3_500_000);
    assert_eq!(a.scale(Fixed::from_raw(500_000)), v(500_000, -1_000_000, 1_750_000));
    assert_eq!(a.scale(Fixed::zero()), Vec3::zeros());
    assert_eq!(a.unscale(Fixed::from_raw(500_000)), v(2_000_000, -4_000_000, 7_000_000));
    assert_eq!(a.unscale(Fixed::zero()), v(i64::MAX, i64::MIN, i64::MAX));
}

#[test]
fn component_mul_tints() {
    let albedo = v(500_000, 250_000, 125_000);
    let light = v(750_000, 850_000, 1_000_000);
    assert_eq!(albedo.component_mul(light), v(375_000, 212_500, 125_000));
    assert_eq!(Vec3::ones().component_mul(light), light);
}

#[test]
fn dot_product() {
    assert_eq!(v(1_000_000, 2_000_000, 3_000_000).dot(v(4_000_000, -5_000_000, 6_000_000)).raw, 12_000_000);
    assert_eq!(v(1_000_000, 0, 0).dot(v(0, 1_000_000, 0)).raw, 0);
    // each product is rounded before the sum
    assert_eq!(v(1_500, 1_500, 1_500).dot(v(500, 500, 500)).raw, 0);
}

#[test]
fn cross_product_of_the_axes() {
    let x = v(1_000_000, 0, 0);
    let y = v(0, 1_000_000, 0);
    let z = v(0, 0, 1_000_000);
    assert_eq!(x.cross(y), z);
    assert_eq!(y.cross(z), x);
    assert_eq!(z.cross(x), y);
    assert_eq!(y.cross(x), z.neg());
    assert_eq!(x.cross(x), Vec3::zeros());
    assert_eq!(
        v(1_000_000, 2_000_000, 3_000_000).cross(v(4_000_000, 5_000_000, 6_000_000)),
        v(-3_000_000, 6_000_000, -3_000_000)
    );
}

#[test]
fn magnitude_comes_from_the_exact_sum_of_squares() {
    assert_eq!(v(3_000_000, 4_000_000, 0).magnitude().raw, 5_000_000);
    assert_eq!(v(1_000_000, 1_000_000, 1_000_000).magnitude().raw, 1_732_050);
    assert_eq!(v(0, 0, 0).magnitude().raw, 0);
    assert_eq!(v(0, -7, 0).magnitude().raw, 7);
    assert_eq!(v(1, 1, 0).magnitude().raw, 1);
    assert_eq!(v(i64::MIN, i64::MIN, i64::MIN).magnitude().raw, i64::MAX);
    assert_eq!(v(i64::MAX, 0, 0).magnitude().raw, i64::MAX);
}

#[test]
fn magnitude_squared_is_the_dot_with_itself() {
    let a = v(3_000_000, 4_000_000, 0);
    assert_eq!(a.magnitude_squared().raw, 25_000_000);
    assert_eq!(a.magnitude_squared(), a.dot(a));
    assert_eq!(v(999, 999, 999).magnitude_squared().raw, 0);
}

#[test]
fn normalize_gives_unit_vectors() {
    assert_eq!(v(3_000_000, 4_000_000, 0).normalize(), v(600_000, 800_000, 0));
    assert_eq!(v(0, 0, -2_000_000).normalize(), v(0, 0, -1_000_000));
    assert_eq!(v(1_000_000, 1_000_000, 1_000_000).normalize(), v(577_350, 577_350, 577_350));
    assert_eq!(v(1_000_000, -1_000_000, 0).normalize(), v(707_107, -707_107, 0));
}

#[test]
fn normalize_keeps_zero_and_stays_within_the_unit_cube() {
    assert_eq!(Vec3::zeros().normalize(), Vec3::zeros());
    assert_eq!(v(1_500, 0, 0).normalize(), v(1_000_000, 0, 0));
    assert_eq!(v(0, -1, 0).normalize(), v(0, -1_000_000, 0));
    for a in [
        v(1, 1, 1),
        v(-1, 2, -3),
        v(i64::MIN, 0, 0),
        v(i64::MIN, i64::MAX, i64::MIN),
        v(i64::MAX, 1, -1),
        v(123, -456_789, 1_000_000_007),
    ] {
        let n = a.normalize();
        for c in [n.x.raw, n.y.raw, n.z.raw] {
            assert!(-1_000_000 <= c && c <= 1_000_000);
        }
    }
}
