use raytracer::fixed::Fixed;
use raytracer::hittable::HitRecord;
use raytracer::material::{
    reflect, refract, schlick, Dielectric, Lambertian, Material, MaterialKind, Metal, ScatterSample,
};
use raytracer::ray::Ray;
use raytracer::vec3::Vec3;

fn v(x: i64, y: i64, z: i64) -> Vec3 {
    Vec3::from_raw(x, y, z)
}

fn raw(x: i64) -> Fixed {
    Fixed::from_raw(x)
}

fn sample(x: i64, y: i64, z: i64, coin: i64) -> ScatterSample {
    ScatterSample { sphere: v(x, y, z), coin: raw(coin) }
}

fn at_origin<'a, M>(normal: Vec3, material: &'a M) -> HitRecord<'a, M> {
    HitRecord { t: Fixed::one(), normal, point: Vec3::zeros(), material }
}

#[test]
fn the_still_sample_has_no_randomness() {
    let s = ScatterSample::still();
    assert_eq!(s.sphere, Vec3::zeros());
    assert_eq!(s.coin, Fixed::zero());
}

#[test]
fn reflect_mirrors_about_the_normal() {
    assert_eq!(reflect(v(1_000_000, -1_000_000, 0), v(0, 1_000_000, 0)), v(1_000_000, 1_000_000, 0));
    assert_eq!(reflect(v(0, 0, -1_000_000), v(0, 0, 1_000_000)), v(0, 0, 1_000_000));
    assert_eq!(reflect(v(1_000_000, 0, 0), v(0, 1_000_000, 0)), v(1_000_000, 0, 0));
    assert_eq!(reflect(v(300_000, -400_000, 500_000), v(0, 1_000_000, 0)), v(300_000, 400_000, 500_000));
}

#[test]
fn lambertian_scatters_about_the_normal() {
    let matte = Lambertian::new(v(500_000, 250_000, 125_000));
    let rec = HitRecord { t: raw(500_000), normal: v(0, 0, 1_000_000), point: v(0, 0, -500_000), material: &matte };
    let ray = Ray::new(Vec3::zeros(), v(0, 0, -1_000_000));
    let (scattered, attenuation) = matte.scatter(ray, rec, sample(100_000, 200_000, 300_000, 0)).unwrap();
    assert_eq!(scattered.origin(), v(0, 0, -500_000));
    assert_eq!(scattered.direction(), v(100_000, 200_000, 1_300_000));
    assert_eq!(attenuation, v(500_000, 250_000, 125_000));
}

#[test]
fn lambertian_always_scatters() {
    let matte = Lambertian::new(v(900_000, 0, 2_000_000));
    let ray = Ray::new(v(0, 1_000_000, 0), v(0, 1_000_000, 0));
    for s in [sample(0, 0, 0, 0), sample(0, -999_999, 0, 999_999), sample(-500_000, -500_000, -500_000, 5)] {
        let rec = at_origin(v(0, 1_000_000, 0), &matte);
        let (scattered, attenuation) = matte.scatter(ray, rec, s).unwrap();
        assert_eq!(scattered.direction(), v(0, 1_000_000, 0).add(s.sphere));
        assert_eq!(attenuation, v(900_000, 0, 2_000_000));
    }
}

#[test]
fn metal_roughness_is_kept_within_zero_and_one() {
    let albedo = v(800_000, 800_000, 800_000);
    assert_eq!(Metal::new(albedo, raw(300_000)).fuzz, raw(300_000));
    assert_eq!(Metal::new(albedo, raw(1_500_000)).fuzz, raw(1_000_000));
    assert_eq!(Metal::new(albedo, raw(1_000_000)).fuzz, raw(1_000_000));
    assert_eq!(Metal::new(albedo, raw(-500_000)).fuzz, raw(0));
    assert_eq!(Metal::new(albedo, raw(0)).fuzz, raw(0));
    assert_eq!(Metal::new(albedo, raw(0)).albedo, albedo);
}

#[test]
fn a_smooth_mirror_follows_the_mirror_law() {
    let mirror = Metal::new(v(800_000, 800_000, 800_000), Fixed::zero());
    let ray = Ray::new(v(-1_000_000, 1_000_000, 0), v(1_000_000, -1_000_000, 0));
    let normal = v(0, 1_000_000, 0);
    let ideal = reflect(ray.direction().normalize(), normal);
    assert_eq!(ideal, v(707_107, 707_107, 0));
    for s in [sample(0, 0, 0, 0), sample(300_000, 300_000, 300_000, 1), sample(0, -999_999, 0, 999_999)] {
        let (scattered, attenuation) = mirror.scatter(ray, at_origin(normal, &mirror), s).unwrap();
        assert_eq!(scattered.origin(), Vec3::zeros());
        assert_eq!(scattered.direction(), ideal);
        assert_eq!(scattered.direction().dot(normal), ideal.dot(normal));
        assert_eq!(attenuation, v(800_000, 800_000, 800_000));
    }
}

#[test]
fn a_rough_mirror_is_moved_by_the_sample() {
    let mirror = Metal::new(v(800_000, 800_000, 800_000), raw(500_000));
    let ray = Ray::new(v(-1_000_000, 1_000_000, 0), v(1_000_000, -1_000_000, 0));
    let rec = at_origin(v(0, 1_000_000, 0), &mirror);
    let (scattered, _) = mirror.scatter(ray, rec, sample(200_000, 400_000, -600_000, 0)).unwrap();
    assert_eq!(scattered.direction(), v(807_107, 907_107, -300_000));
}

#[test]
fn a_mirror_absorbs_what_would_go_into_the_surface() {
    let normal = v(0, 1_000_000, 0);
    let rough = Metal::new(v(800_000, 800_000, 800_000), Fixed::one());
    let ray = Ray::new(v(-1_000_000, 1_000_000, 0), v(1_000_000, -1_000_000, 0));
    assert!(rough.scatter(ray, at_origin(normal, &rough), sample(0, -900_000, 0, 0)).is_none());
    assert!(rough.scatter(ray, at_origin(normal, &rough), sample(0, -707_107, 0, 0)).is_none());
    assert!(rough.scatter(ray, at_origin(normal, &rough), sample(0, -707_106, 0, 0)).is_some());
    let smooth = Metal::new(v(800_000, 800_000, 800_000), Fixed::zero());
    let from_behind = Ray::new(v(0, -1_000_000, 0), v(0, 1_000_000, 0));
    assert!(smooth.scatter(from_behind, at_origin(normal, &smooth), sample(0, 0, 0, 0)).is_none());
}

#[test]
fn schlick_at_normal_incidence_is_the_base_reflectance() {
    assert_eq!(schlick(Fixed::one(), raw(1_500_000)), raw(40_000));
    for ir in [1, 500_000, 1_000_000, 1_300_000, 1_500_000, 2_400_000, 100_000_000] {
        let q = Fixed::one().sub(raw(ir)).div(Fixed::one().add(raw(ir)));
        assert_eq!(schlick(Fixed::one(), raw(ir)), q.mul(q));
    }
}

#[test]
fn schlick_grows_towards_grazing_angles() {
    assert_eq!(schlick(Fixed::zero(), raw(1_500_000)), raw(1_000_000));
    assert_eq!(schlick(raw(500_000), raw(1_500_000)), raw(70_000));
    assert_eq!(schlick(raw(707_106), raw(1_500_000)), raw(42_068));
}

#[test]
fn refract_bends_towards_the_normal_on_entering() {
    let n = v(0, 0, 1_000_000);
    assert_eq!(refract(v(0, 0, -1_000_000), n, raw(666_666)), Some(v(0, 0, -1_000_000)));
    assert_eq!(refract(v(1_000_000, 0, -1_000_000), n, raw(666_666)), Some(v(471_404, 0, -881_917)));
}

#[test]
fn refract_fails_under_total_internal_reflection() {
    assert_eq!(refract(v(1_000_000, 100_000, 0), v(0, -1_000_000, 0), raw(1_500_000)), None);
    assert!(refract(v(100_000, 1_000_000, 0), v(0, -1_000_000, 0), raw(1_500_000)).is_some());
}

#[test]
fn a_dielectric_refracts_or_reflects_by_the_coin() {
    let glass = Dielectric::new(raw(1_500_000));
    let ray = Ray::new(v(0, 0, 1_000_000), v(0, 0, -1_000_000));
    let normal = v(0, 0, 1_000_000);
    // the reflectance head-on is 0.04
    let (through, tint) = glass.scatter(ray, at_origin(normal, &glass), sample(0, 0, 0, 40_000)).unwrap();
    assert_eq!(through.origin(), Vec3::zeros());
    assert_eq!(through.direction(), v(0, 0, -1_000_000));
    assert_eq!(tint, Vec3::ones());
    let (back, tint) = glass.scatter(ray, at_origin(normal, &glass), sample(0, 0, 0, 39_999)).unwrap();
    assert_eq!(back.direction(), v(0, 0, 1_000_000));
    assert_eq!(tint, Vec3::ones());
}

#[test]
fn a_dielectric_bends_an_oblique_ray() {
    let glass = Dielectric::new(raw(1_500_000));
    let ray = Ray::new(v(-1_000_000, 0, 1_000_000), v(1_000_000, 0, -1_000_000));
    let normal = v(0, 0, 1_000_000);
    let (through, _) = glass.scatter(ray, at_origin(normal, &glass), sample(0, 0, 0, 500_000)).unwrap();
    assert_eq!(through.direction(), v(471_404, 0, -881_917));
    let (back, _) = glass.scatter(ray, at_origin(normal, &glass), sample(0, 0, 0, 42_067)).unwrap();
    assert_eq!(back.direction(), v(1_000_000, 0, 1_000_000));
    let (edge, _) = glass.scatter(ray, at_origin(normal, &glass), sample(0, 0, 0, 42_068)).unwrap();
    assert_eq!(edge.direction(), v(471_404, 0, -881_917));
}

#[test]
fn total_internal_reflection_ignores_the_coin() {
    let glass = Dielectric::new(raw(1_500_000));
    let ray = Ray::new(v(-1_000_000, -100_000, 0), v(1_000_000, 100_000, 0));
    let normal = v(0, 1_000_000, 0);
    for coin in [0, 1, 500_000, 999_999] {
        let (out, tint) = glass.scatter(ray, at_origin(normal, &glass), sample(0, 0, 0, coin)).unwrap();
        assert_eq!(out.origin(), Vec3::zeros());
        assert_eq!(out.direction(), v(1_000_000, -100_000, 0));
        assert_eq!(tint, Vec3::ones());
    }
}

#[test]
fn a_dielectric_lets_a_steep_ray_out() {
    let glass = Dielectric::new(raw(1_500_000));
    let ray = Ray::new(v(0, -1_000_000, 0), v(100_000, 1_000_000, 0));
    let normal = v(0, 1_000_000, 0);
    let (out, _) = glass.scatter(ray, at_origin(normal, &glass), sample(0, 0, 0, 999_999)).unwrap();
    assert_eq!(out.direction(), v(149_254, 988_797, 0));
    let (back, _) = glass.scatter(ray, at_origin(normal, &glass), sample(0, 0, 0, 0)).unwrap();
    assert_eq!(back.direction(), v(100_000, -1_000_000, 0));
}

#[test]
fn a_material_kind_does_what_its_material_does() {
    let ray = Ray::new(v(-1_000_000, 1_000_000, 0), v(1_000_000, -1_000_000, 0));
    let normal = v(0, 1_000_000, 0);
    let s = sample(100_000, 200_000, -300_000, 30_000);

    let matte = Lambertian::new(v(500_000, 250_000, 125_000));
    let kind = MaterialKind::Lambertian(matte);
    assert_eq!(kind.scatter(ray, at_origin(normal, &kind), s), matte.scatter(ray, at_origin(normal, &matte), s));

    let mirror = Metal::new(v(700_000, 600_000, 500_000), raw(250_000));
    let kind = MaterialKind::Metal(mirror);
    assert_eq!(kind.scatter(ray, at_origin(normal, &kind), s), mirror.scatter(ray, at_origin(normal, &mirror), s));

    let glass = Dielectric::new(raw(1_500_000));
    let kind = MaterialKind::Dielectric(glass);
    assert_eq!(kind.scatter(ray, at_origin(normal, &kind), s), glass.scatter(ray, at_origin(normal, &glass), s));
    assert!(kind.scatter(ray, at_origin(normal, &kind), s).is_some());
}

#[test]
fn scattering_twice_gives_the_same_twice() {
    let ray = Ray::new(v(-1_000_000, 1_000_000, 0), v(1_000_000, -1_000_000, 300_000));
    let normal = v(0, 1_000_000, 0);
    let s = sample(100_000, 200_000, -300_000, 30_000);
    let kinds = [
        MaterialKind::Lambertian(Lambertian::new(v(500_000, 250_000, 125_000))),
        MaterialKind::Metal(Metal::new(v(700_000, 600_000, 500_000), raw(250_000))),
        MaterialKind::Dielectric(Dielectric::new(raw(1_500_000))),
    ];
    for kind in kinds {
        let first = kind.scatter(ray, at_origin(normal, &kind), s);
        let second = kind.scatter(ray, at_origin(normal, &kind), s);
        assert_eq!(first, second);
    }
}
