//! Scattering behavior of the three material models.

use ray_tracer::hittable::HitRecord;
use ray_tracer::material::Material;
use ray_tracer::ray::Ray;
use ray_tracer::rng::RandSrc;
use ray_tracer::vec3::Vec3;

fn floor_record(material: Material) -> HitRecord {
    HitRecord {
        point: Vec3::new(0, 0, 0),
        normal: Vec3::new(0, 1_000_000, 0),
        t: 1_000_000,
        front_face: true,
        material,
    }
}

#[test]
fn lambertian_never_scatters_near_zero() {
    let albedo = Vec3::new(800_000, 400_000, 200_000);
    let material = Material::Lambertian { albedo };
    let rec = floor_record(material);
    let ray = Ray::new(Vec3::new(0, 1_000_000, 0), Vec3::new(0, -1_000_000, 0));
    let mut rng = RandSrc::from_seed(7);
    for _ in 0..200 {
        let (attenuation, scattered) = material.scatter(&ray, &rec, &mut rng).unwrap();
        assert_eq!(attenuation, albedo);
        assert_eq!(scattered.origin, rec.point);
        assert!(!scattered.direction.near_zero());
    }
}

#[test]
fn metal_with_zero_fuzz_is_exact_mirror() {
    let albedo = Vec3::new(1_000_000, 1_000_000, 1_000_000);
    let material = Material::Metal { albedo, fuzziness: 0 };
    let rec = floor_record(material);
    let incoming = Vec3::new(1_000_000, -1_000_000, 0);
    let ray = Ray::new(Vec3::new(-1_000_000, 1_000_000, 0), incoming);
    let mut rng = RandSrc::from_seed(7);
    let (_, scattered) = material.scatter(&ray, &rec, &mut rng).unwrap();
    let expected = incoming.reflect(&rec.normal).normalize();
    assert_eq!(scattered.direction, expected);
    // and the mirrored direction is the normalized (1,1,0)
    assert_eq!(scattered.direction, Vec3::new(707_107, 707_107, 0));
}

#[test]
fn metal_absorbs_rays_scattered_into_surface() {
    // An incoming ray along the surface normal reflects straight back
    // into the surface and is absorbed.
    let material = Material::Metal {
        albedo: Vec3::new(1_000_000, 1_000_000, 1_000_000),
        fuzziness: 0,
    };
    let rec = floor_record(material);
    let ray = Ray::new(Vec3::new(0, -1_000_000, 0), Vec3::new(0, 1_000_000, 0));
    let mut rng = RandSrc::from_seed(7);
    assert!(material.scatter(&ray, &rec, &mut rng).is_none());
}

#[test]
fn dielectric_always_scatters_at_normal_incidence() {
    // Head-on against a glass-like interface the ray either passes
    // straight through or reflects straight back, and is never absorbed.
    let albedo = Vec3::new(1_000_000, 1_000_000, 1_000_000);
    let material = Material::Dielectric { albedo, refraction_index: 1_330_000 };
    let rec = HitRecord {
        point: Vec3::new(0, 0, -1_000_000),
        normal: Vec3::new(0, 0, 1_000_000),
        t: 1_000_000,
        front_face: true,
        material,
    };
    let ray = Ray::new(Vec3::new(0, 0, 0), Vec3::new(0, 0, -1_000_000));
    let mut rng = RandSrc::from_seed(7);
    let mut refracted: u32 = 0;
    let mut reflected: u32 = 0;
    for _ in 0..500 {
        let (attenuation, scattered) = material.scatter(&ray, &rec, &mut rng).unwrap();
        assert_eq!(attenuation, albedo);
        assert_eq!(scattered.direction.x, 0);
        assert_eq!(scattered.direction.y, 0);
        if scattered.direction.z == -1_000_000 {
            refracted += 1;
        } else {
            assert_eq!(scattered.direction.z, 1_000_000);
            reflected += 1;
        }
    }
    // Schlick reflectance at normal incidence for 1.33 is about 2%.
    assert!(refracted > 400);
    assert!(reflected < 100);
}

#[test]
fn reflectance_at_normal_incidence_matches_schlick() {
    // r0 = ((1 - 1.33) / (1 + 1.33))^2, about 0.020059 in millionths.
    assert_eq!(Material::reflectance(1_000_000, 1_330_000), 20_059);
    // At grazing incidence (cos = 0) the fifth-power term is exactly one,
    // so the reflectance is exactly one.
    assert_eq!(Material::reflectance(0, 1_330_000), 1_000_000);
}
