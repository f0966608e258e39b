use rand::rngs::StdRng;
use rand::SeedableRng;
use raytracer::camera::Camera;
use raytracer::fixed::Fixed;
use raytracer::hittable::HittableList;
use raytracer::material::{Dielectric, Lambertian, MaterialKind, Metal, ScatterSample};
use raytracer::ray::Ray;
use raytracer::render::{
    background, pixel_coordinate, quantize, radiance_along, ray_colour, ray_colour_non_manip,
    render_pixel, sample_pixel, SHADOW_EPSILON,
};
use raytracer::sphere::Sphere;
use raytracer::vec3::Vec3;

fn v(x: i64, y: i64, z: i64) -> Vec3 {
    Vec3::from_raw(x, y, z)
}

fn raw(x: i64) -> Fixed {
    Fixed::from_raw(x)
}

fn sample(x: i64, y: i64, z: i64, coin: i64) -> ScatterSample {
    ScatterSample { sphere: v(x, y, z), coin: raw(coin) }
}

fn from_eye(x: i64, y: i64, z: i64) -> Ray {
    Ray::new(Vec3::zeros(), v(x, y, z))
}

fn empty() -> HittableList<Sphere<MaterialKind>> {
    HittableList::default()
}

fn matte_ball() -> Sphere<MaterialKind> {
    Sphere::new(
        v(0, 0, -1_000_000),
        raw(500_000),
        MaterialKind::Lambertian(Lambertian::new(v(500_000, 250_000, 125_000))),
    )
}

/// A matte ball on matte ground between a mirror and a ball of glass.
fn four_spheres() -> HittableList<Sphere<MaterialKind>> {
    let mut world = HittableList::default();
    world.push(matte_ball());
    world.push(Sphere::new(
        v(0, -100_500_000, -1_000_000),
        raw(100_000_000),
        MaterialKind::Lambertian(Lambertian::new(v(800_000, 800_000, 0))),
    ));
    world.push(Sphere::new(
        v(1_000_000, 0, -1_000_000),
        raw(500_000),
        MaterialKind::Metal(Metal::new(v(800_000, 600_000, 200_000), Fixed::zero())),
    ));
    world.push(Sphere::new(
        v(-1_000_000, 0, -1_000_000),
        raw(500_000),
        MaterialKind::Dielectric(Dielectric::new(raw(1_500_000))),
    ));
    world
}

fn tape() -> Vec<ScatterSample> {
    vec![
        sample(100_000, 200_000, 300_000, 500_000),
        sample(-300_000, 100_000, 200_000, 10_000),
        sample(0, 0, 500_000, 900_000),
        sample(200_000, -200_000, 200_000, 300_000),
    ]
}

#[test]
fn the_shadow_epsilon_is_a_thousandth() {
    assert_eq!(SHADOW_EPSILON, 1_000);
}

#[test]
fn the_sky_is_blue_above_and_white_below() {
    assert_eq!(background(from_eye(0, 1_000_000, 0)), v(500_000, 700_000, 1_000_000));
    assert_eq!(background(from_eye(0, -1_000_000, 0)), v(1_000_000, 1_000_000, 1_000_000));
    assert_eq!(background(from_eye(1_000_000, 0, 0)), v(750_000, 850_000, 1_000_000));
    assert_eq!(background(from_eye(0, 3_000_000, 0)), v(500_000, 700_000, 1_000_000));
    assert_eq!(background(from_eye(1_000_000, 1_000_000, 0)), v(573_223, 743_934, 1_000_000));
    assert_eq!(background(from_eye(0, 0, 0)), v(750_000, 850_000, 1_000_000));
}

#[test]
fn an_empty_scene_shows_the_sky() {
    let world = empty();
    let no_tape = Vec::new();
    assert_eq!(radiance_along(&from_eye(0, 1_000_000, 0), &world, 50, &no_tape), v(500_000, 700_000, 1_000_000));
    assert_eq!(radiance_along(&from_eye(0, -1_000_000, 0), &world, 50, &no_tape), v(1_000_000, 1_000_000, 1_000_000));
    let mut rng = StdRng::seed_from_u64(21);
    assert_eq!(ray_colour_non_manip(&from_eye(0, 1_000_000, 0), &world, 1, &mut rng), v(500_000, 700_000, 1_000_000));
    assert_eq!(
        ray_colour_non_manip(&from_eye(0, -1_000_000, 0), &world, 50, &mut rng),
        v(1_000_000, 1_000_000, 1_000_000)
    );
}

#[test]
fn nothing_arrives_at_depth_zero() {
    let mut rng = StdRng::seed_from_u64(22);
    let worlds = [empty(), four_spheres()];
    let rays = [
        from_eye(0, 1_000_000, 0),
        from_eye(0, 0, -1_000_000),
        from_eye(1_000_000, 0, -1_000_000),
        from_eye(0, 0, 0),
        Ray::new(v(i64::MAX, i64::MIN, 7), v(i64::MIN, i64::MAX, -7)),
    ];
    for world in &worlds {
        for ray in &rays {
            assert_eq!(radiance_along(ray, world, 0, &tape()), Vec3::zeros());
            assert_eq!(radiance_along(ray, world, 0, &Vec::new()), Vec3::zeros());
            assert_eq!(ray_colour_non_manip(ray, world, 0, &mut rng), Vec3::zeros());
        }
    }
}

#[test]
fn a_matte_ball_tints_the_sky() {
    let mut world = HittableList::default();
    world.push(matte_ball());
    let ray = from_eye(0, 0, -1_000_000);
    let still = Vec::new();
    assert_eq!(radiance_along(&ray, &world, 1, &still), Vec3::zeros());
    assert_eq!(radiance_along(&ray, &world, 2, &still), v(375_000, 212_500, 125_000));
    assert_eq!(radiance_along(&ray, &world, 3, &still), v(375_000, 212_500, 125_000));
    let moved = vec![sample(300_000, 200_000, 0, 0)];
    assert_eq!(radiance_along(&ray, &world, 2, &moved), v(351_482, 205_444, 125_000));
}

#[test]
fn light_follows_the_tape_through_four_spheres() {
    let world = four_spheres();
    let tape = tape();
    let cases = [
        (from_eye(0, 0, -1_000_000), [(0, 0, 0), (356_047, 206_814, 125_000), (356_047, 206_814, 125_000)]),
        (from_eye(1_000_000, 0, -1_000_000), [(0, 0, 0), (600_000, 510_000, 200_000), (600_000, 510_000, 200_000)]),
        (from_eye(-1_000_000, 0, -1_000_000), [(0, 0, 0), (0, 0, 0), (750_000, 850_000, 1_000_000)]),
        (from_eye(0, -1_000_000, -1_000_000), [(0, 0, 0), (406_792, 564_075, 0), (406_792, 564_075, 0)]),
        (from_eye(-900_000, 100_000, -1_000_000), [(0, 0, 0), (0, 0, 0), (412_323, 567_393, 0)]),
        (from_eye(800_000, -200_000, -1_000_000), [(0, 0, 0), (0, 0, 0), (131_800, 68_054, 0)]),
    ];
    for (ray, expected) in cases {
        for (depth, (r, g, b)) in [1, 2, 50].into_iter().zip(expected) {
            assert_eq!(radiance_along(&ray, &world, depth, &tape), v(r, g, b));
        }
    }
}

#[test]
fn the_same_tape_gives_the_same_light() {
    let world = four_spheres();
    let ray = from_eye(-900_000, 100_000, -1_000_000);
    let first = radiance_along(&ray, &world, 50, &tape());
    let second = radiance_along(&ray, &world, 50, &tape());
    assert_eq!(first, second);
}

#[test]
fn only_as_much_of_the_tape_is_read_as_the_path_is_deep() {
    let world = four_spheres();
    let mut longer = tape();
    longer.truncate(2);
    longer.push(sample(-900_000, 0, 0, 1));
    longer.push(sample(0, 0, -900_000, 999_999));
    for ray in [from_eye(0, -1_000_000, -1_000_000), from_eye(-900_000, 100_000, -1_000_000)] {
        assert_eq!(radiance_along(&ray, &world, 2, &tape()), radiance_along(&ray, &world, 2, &longer));
    }
}

#[test]
fn the_same_seed_gives_the_same_light() {
    let world = four_spheres();
    let rays = [
        from_eye(0, 0, -1_000_000),
        from_eye(1_000_000, 0, -1_000_000),
        from_eye(-1_000_000, 0, -1_000_000),
        from_eye(0, -1_000_000, -1_000_000),
        from_eye(300_000, -500_000, -1_000_000),
    ];
    for seed in [0, 1, 2, 3] {
        let mut first = StdRng::seed_from_u64(seed);
        let mut second = StdRng::seed_from_u64(seed);
        for ray in &rays {
            for depth in [1, 2, 5, 50] {
                assert_eq!(
                    ray_colour_non_manip(ray, &world, depth, &mut first),
                    ray_colour_non_manip(ray, &world, depth, &mut second)
                );
            }
        }
    }
}

#[test]
fn light_is_never_amplified() {
    let world = four_spheres();
    let mut rng = StdRng::seed_from_u64(23);
    for k in 0..200i64 {
        let ray = from_eye((k % 21 - 10) * 100_000, (k % 13 - 6) * 100_000, -1_000_000);
        for depth in [0, 1, 2, 3, 10, 50] {
            let colour = ray_colour_non_manip(&ray, &world, depth, &mut rng);
            for c in [colour.x.raw, colour.y.raw, colour.z.raw] {
                assert!(0 <= c && c <= 1_000_000);
            }
        }
    }
}

#[test]
fn a_bright_albedo_can_amplify() {
    let mut world = HittableList::default();
    world.push(Sphere::new(
        v(0, 0, -1_000_000),
        raw(500_000),
        MaterialKind::Lambertian(Lambertian::new(v(2_000_000, 1_000_000, 0))),
    ));
    let colour = radiance_along(&from_eye(0, 0, -1_000_000), &world, 2, &Vec::new());
    assert_eq!(colour, v(1_500_000, 850_000, 0));
}

#[test]
fn quantize_corrects_for_gamma_and_rounds_down() {
    assert_eq!(quantize(raw(0)), 0);
    assert_eq!(quantize(raw(15)), 0);
    assert_eq!(quantize(raw(16)), 1);
    assert_eq!(quantize(raw(250_000)), 128);
    assert_eq!(quantize(raw(500_000)), 181);
    assert_eq!(quantize(raw(998_000)), 255);
    assert_eq!(quantize(raw(1_000_000)), 255);
    assert_eq!(quantize(raw(2_000_000)), 255);
    assert_eq!(quantize(raw(i64::MAX)), 255);
    assert_eq!(quantize(raw(-5)), 0);
    assert_eq!(quantize(raw(i64::MIN)), 0);
}

#[test]
fn ray_colour_maps_each_channel() {
    assert_eq!(ray_colour(v(250_000, 500_000, 1_000_000)), [128, 181, 255]);
    assert_eq!(ray_colour(Vec3::zeros()), [0, 0, 0]);
    assert_eq!(ray_colour(v(-1, 16, 9_000_000)), [0, 1, 255]);
    assert_eq!(ray_colour(v(500_000, 700_000, 1_000_000)), [181, 214, 255]);
}

#[test]
fn pixel_coordinate_is_a_share_of_the_edge() {
    assert_eq!(pixel_coordinate(3, raw(500_000), 7), raw(500_000));
    assert_eq!(pixel_coordinate(0, raw(0), 400), raw(0));
    assert_eq!(pixel_coordinate(399, raw(999_999), 400), raw(999_999));
    assert_eq!(pixel_coordinate(100, raw(0), 400), raw(250_000));
    assert_eq!(pixel_coordinate(5, raw(250_000), 0), raw(i64::MAX));
    assert_eq!(pixel_coordinate(u32::MAX, raw(0), u32::MAX), raw(1_000_000));
}

fn pinhole() -> Camera {
    Camera::new(
        Vec3::zeros(),
        v(0, 0, -1_000_000),
        v(0, 1_000_000, 0),
        Fixed::one(),
        raw(2_000_000),
        Fixed::zero(),
        Fixed::one(),
    )
}

#[test]
fn a_pixel_of_an_empty_scene_shows_the_sky() {
    let world = empty();
    let cam = pinhole();
    let mut rng = StdRng::seed_from_u64(24);
    for (i, j) in [(0, 0), (399, 199), (200, 100), (17, 180)] {
        let colour = sample_pixel(&cam, &world, i, j, 400, 200, 50, &mut rng);
        assert_eq!(colour.z.raw, 1_000_000);
        assert!(500_000 <= colour.x.raw && colour.x.raw <= 1_000_000);
        assert!(700_000 <= colour.y.raw && colour.y.raw <= 1_000_000);
        let pixel = render_pixel(&cam, &world, i, j, 400, 200, 10, 50, &mut rng);
        assert_eq!(pixel[2], 255);
        assert!(181 <= pixel[0] && 214 <= pixel[1]);
    }
}

#[test]
fn a_pixel_without_samples_or_depth_is_black() {
    let world = four_spheres();
    let cam = pinhole();
    let mut rng = StdRng::seed_from_u64(25);
    assert_eq!(render_pixel(&cam, &world, 200, 100, 400, 200, 0, 50, &mut rng), [0, 0, 0]);
    assert_eq!(render_pixel(&cam, &world, 200, 100, 400, 200, 10, 0, &mut rng), [0, 0, 0]);
    assert_eq!(sample_pixel(&cam, &world, 200, 100, 400, 200, 0, &mut rng), Vec3::zeros());
}

#[test]
fn the_same_seed_gives_the_same_pixel() {
    let world = four_spheres();
    let cam = Camera::new(
        v(0, 500_000, 1_000_000),
        v(0, 0, -1_000_000),
        v(0, 1_000_000, 0),
        raw(700_000),
        raw(2_000_000),
        raw(100_000),
        raw(2_000_000),
    );
    let mut first = StdRng::seed_from_u64(26);
    let mut second = StdRng::seed_from_u64(26);
    let mut seen = Vec::new();
    for (i, j) in [(0, 0), (50, 20), (100, 50), (150, 30), (199, 99)] {
        let a = render_pixel(&cam, &world, i, j, 200, 100, 8, 20, &mut first);
        let b = render_pixel(&cam, &world, i, j, 200, 100, 8, 20, &mut second);
        assert_eq!(a, b);
        seen.push(a);
    }
    assert!(seen.iter().any(|p| *p != seen[0]));
}
