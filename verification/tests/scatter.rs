use pathtracer::materials::{Dielectric, Lambertian, Material, Metal, Refraction};
use pathtracer::ray::{HitRecord, Ray};
use pathtracer::scalar::Scalar;
use pathtracer::vec3::Vec3;
use rand::rngs::StdRng;
use rand::{Rng, SeedableRng};

type V = (f32, f32, f32);

fn s(x: f32) -> Scalar {
    Scalar::from_bits(x.to_bits())
}

fn v(a: V) -> Vec3 {
    Vec3::new(s(a.0), s(a.1), s(a.2))
}

fn back(a: Vec3) -> V {
    (f32::from_bits(a.x.to_bits()), f32::from_bits(a.y.to_bits()), f32::from_bits(a.z.to_bits()))
}

fn add(a: V, b: V) -> V {
    (a.0 + b.0, a.1 + b.1, a.2 + b.2)
}

fn scale(k: f32, a: V) -> V {
    (k * a.0, k * a.1, k * a.2)
}

fn dot(a: V, b: V) -> f32 {
    a.0 * b.0 + a.1 * b.1 + a.2 * b.2
}

fn unit(a: V) -> V {
    let len = dot(a, a).sqrt();
    (a.0 / len, a.1 / len, a.2 / len)
}

fn reflect(a: V, n: V) -> V {
    add(a, scale(-2.0 * dot(a, n), n))
}

fn in_unit_sphere(rng: &mut StdRng) -> V {
    loop {
        let p: V = (rng.gen_range(-1.0..1.0), rng.gen_range(-1.0..1.0), rng.gen_range(-1.0..1.0));
        if Vec3::in_unit_sphere(s(dot(p, p).sqrt())) {
            return p;
        }
    }
}

fn record(normal: V, outward_facing: bool, mtrl: Material) -> HitRecord {
    HitRecord { point: v((1.0, 2.0, 3.0)), normal: v(normal), outward_facing, t: s(4.0), mtrl }
}

fn optics(sine: f32, reflectance: f32, draw: f32) -> Refraction {
    Refraction {
        sine: s(sine),
        reflectance: s(reflectance),
        draw: s(draw),
        reflected: v((0.0, 1.0, 0.0)),
        refracted: v((0.0, -1.0, 0.0)),
    }
}

#[test]
fn constructors_keep_their_arguments() {
    assert_eq!(Lambertian::new(v((0.1, 0.2, 0.3))).albedo, v((0.1, 0.2, 0.3)));
    let metal = Metal::new(v((0.8, 0.6, 0.2)), s(0.3));
    assert_eq!(metal.albedo, v((0.8, 0.6, 0.2)));
    assert_eq!(metal.fuzz, s(0.3));
    assert_eq!(Dielectric::new(s(1.5)).ref_idx, s(1.5));
}

#[test]
fn a_matte_surface_scatters_along_the_candidate() {
    let matte = Lambertian::new(v((0.7, 0.3, 0.3)));
    let rec = record((0.0, 1.0, 0.0), true, Material::Lambertian(matte));
    let out = matte.scatter(&rec, v((0.3, 1.2, -0.4)));
    assert_eq!(out, Some((v((0.7, 0.3, 0.3)), Ray::new(v((1.0, 2.0, 3.0)), v((0.3, 1.2, -0.4))))));
}

#[test]
fn a_matte_surface_falls_back_to_the_normal() {
    let matte = Lambertian::new(v((0.7, 0.3, 0.3)));
    let rec = record((0.0, 1.0, 0.0), true, Material::Lambertian(matte));
    for candidate in [(0.0, 0.0, 0.0), (-0.0, 0.0, 0.0), (5.0e-9, -5.0e-9, 0.0)] {
        let out = matte.scatter(&rec, v(candidate));
        assert_eq!(out, Some((v((0.7, 0.3, 0.3)), Ray::new(v((1.0, 2.0, 3.0)), v((0.0, 1.0, 0.0))))));
    }
}

#[test]
fn a_matte_surface_never_scatters_along_the_zero_vector() {
    let mut rng = StdRng::seed_from_u64(2024);
    let matte = Lambertian::new(v((0.5, 0.5, 0.5)));
    for k in 0..20_000 {
        let normal = unit(in_unit_sphere(&mut rng));
        let random_unit = if k % 4 == 0 { scale(-1.0, normal) } else { unit(in_unit_sphere(&mut rng)) };
        let rec = record(normal, true, Material::Lambertian(matte));
        let (attenuation, scattered) = matte.scatter(&rec, v(add(normal, random_unit))).unwrap();
        let d = back(scattered.direction);
        assert!(d.0 != 0.0 || d.1 != 0.0 || d.2 != 0.0);
        assert!(dot(d, d) > 0.0);
        assert_eq!(attenuation, v((0.5, 0.5, 0.5)));
        assert_eq!(scattered.origin, rec.point);
    }
}

#[test]
fn a_metal_reflects_what_leaves_the_surface() {
    let metal = Metal::new(v((0.8, 0.6, 0.2)), s(0.0));
    let rec = record((0.0, 1.0, 0.0), true, Material::Metal(metal));
    let out = metal.scatter(&rec, v((0.6, 0.8, 0.0)), s(0.8));
    assert_eq!(out, Some((v((0.8, 0.6, 0.2)), Ray::new(v((1.0, 2.0, 3.0)), v((0.6, 0.8, 0.0))))));
    let out = metal.scatter(&rec, v((0.6, 0.8, 0.0)), s(f32::MIN_POSITIVE));
    assert!(out.is_some());
}

#[test]
fn a_metal_absorbs_what_enters_the_surface() {
    let metal = Metal::new(v((0.8, 0.6, 0.2)), s(1.0));
    let rec = record((0.0, 1.0, 0.0), true, Material::Metal(metal));
    assert_eq!(metal.scatter(&rec, v((0.6, -0.8, 0.0)), s(-0.8)), None);
    assert_eq!(metal.scatter(&rec, v((1.0, 0.0, 0.0)), s(0.0)), None);
    assert_eq!(metal.scatter(&rec, v((1.0, 0.0, 0.0)), s(-0.0)), None);
    assert_eq!(metal.scatter(&rec, v((1.0, 0.0, 0.0)), s(f32::NAN)), None);
}

#[test]
fn a_metal_without_fuzz_is_an_exact_mirror() {
    let mut rng = StdRng::seed_from_u64(17);
    let fuzz = 0.0f32;
    let metal = Metal::new(v((0.9, 0.9, 0.9)), s(fuzz));
    let mut scattered_some = 0;
    for _ in 0..5_000 {
        let normal = unit(in_unit_sphere(&mut rng));
        let incoming = in_unit_sphere(&mut rng);
        let mirrored = reflect(unit(incoming), normal);
        let outgoing = add(mirrored, scale(fuzz, in_unit_sphere(&mut rng)));
        let rec = record(normal, true, Material::Metal(metal));
        if let Some((_, ray)) = metal.scatter(&rec, v(outgoing), s(dot(outgoing, normal))) {
            scattered_some += 1;
            assert_eq!(back(ray.direction), mirrored);
        }
    }
    assert!(scattered_some > 1_000);
}

#[test]
fn glass_takes_nothing_away() {
    let glass = Dielectric::new(s(1.5));
    let rec = record((0.0, 1.0, 0.0), true, Material::Dielectric(glass));
    let mut rng = StdRng::seed_from_u64(3);
    for _ in 0..10_000 {
        let o = Refraction {
            sine: s(f32::from_bits(rng.gen::<u32>())),
            reflectance: s(f32::from_bits(rng.gen::<u32>())),
            draw: s(rng.gen::<f32>()),
            reflected: v(in_unit_sphere(&mut rng)),
            refracted: v(in_unit_sphere(&mut rng)),
        };
        let (attenuation, ray) = glass.scatter(&rec, &o).unwrap();
        assert_eq!(back(attenuation), (1.0, 1.0, 1.0));
        assert_eq!(ray.origin, rec.point);
        assert!(ray.direction == o.reflected || ray.direction == o.refracted);
    }
}

#[test]
fn glass_mirrors_where_nothing_can_be_refracted() {
    let glass = Dielectric::new(s(1.5));
    let rec = record((0.0, 1.0, 0.0), false, Material::Dielectric(glass));
    let (_, ray) = glass.scatter(&rec, &optics(1.2, 0.0, 0.9)).unwrap();
    assert_eq!(ray, Ray::new(v((1.0, 2.0, 3.0)), v((0.0, 1.0, 0.0))));
    let (_, ray) = glass.scatter(&rec, &optics(1.000_000_1, 0.0, 0.9)).unwrap();
    assert_eq!(ray.direction, v((0.0, 1.0, 0.0)));
}

#[test]
fn glass_mirrors_with_the_probability_of_its_reflectance() {
    let glass = Dielectric::new(s(1.5));
    let rec = record((0.0, 1.0, 0.0), true, Material::Dielectric(glass));
    let (_, ray) = glass.scatter(&rec, &optics(0.5, 0.04, 0.039)).unwrap();
    assert_eq!(ray.direction, v((0.0, 1.0, 0.0)));
    let (_, ray) = glass.scatter(&rec, &optics(0.5, 0.04, 0.04)).unwrap();
    assert_eq!(ray.direction, v((0.0, -1.0, 0.0)));
    let (_, ray) = glass.scatter(&rec, &optics(1.0, 0.04, 0.5)).unwrap();
    assert_eq!(ray.direction, v((0.0, -1.0, 0.0)));
    let (_, ray) = glass.scatter(&rec, &optics(f32::NAN, f32::NAN, 0.5)).unwrap();
    assert_eq!(ray.direction, v((0.0, -1.0, 0.0)));
}

#[test]
fn the_refraction_ratio_depends_on_the_side() {
    let glass = Dielectric::new(s(1.5));
    let inverse = 1.0f32 / 1.5;
    assert_eq!(glass.refraction_ratio(true, s(inverse)), s(inverse));
    assert_eq!(glass.refraction_ratio(false, s(inverse)), s(1.5));
}

#[test]
fn samples_are_kept_inside_the_unit_ball() {
    assert!(Vec3::in_unit_sphere(s(0.0)));
    assert!(Vec3::in_unit_sphere(s(0.999_999_94)));
    assert!(!Vec3::in_unit_sphere(s(1.0)));
    assert!(!Vec3::in_unit_sphere(s(1.7)));
    assert!(!Vec3::in_unit_sphere(s(f32::NAN)));
}

#[test]
fn a_sample_is_turned_into_the_hemisphere_of_the_normal() {
    let sample = v((0.3, -0.2, 0.1));
    assert_eq!(Vec3::random_in_hemisphere(sample, s(0.25)), sample);
    assert_eq!(Vec3::random_in_hemisphere(sample, s(-0.25)), v((-0.3, 0.2, -0.1)));
    assert_eq!(Vec3::random_in_hemisphere(sample, s(0.0)), v((-0.3, 0.2, -0.1)));
    let mut rng = StdRng::seed_from_u64(8);
    for _ in 0..5_000 {
        let normal = unit(in_unit_sphere(&mut rng));
        let p = in_unit_sphere(&mut rng);
        let turned = back(Vec3::random_in_hemisphere(v(p), s(dot(p, normal))));
        assert!(dot(turned, normal) >= 0.0);
        let expected = if dot(p, normal) > 0.0 { p } else { scale(-1.0, p) };
        assert_eq!(turned, expected);
    }
}
