//! Sphere intersection and scene-list behavior.

use ray_tracer::hittable::{HitRecord, HittableList, Sphere};
use ray_tracer::material::Material;
use ray_tracer::ray::Ray;
use ray_tracer::vec3::Vec3;

fn gray() -> Material {
    Material::Lambertian { albedo: Vec3::new(500_000, 500_000, 500_000) }
}

#[test]
fn sphere_hit_from_outside_uses_near_root() {
    // Unit sphere two units down the -z axis, hit head-on: the quadratic
    // roots are t = 1 and t = 3 and the nearer one is reported.
    let sphere = Sphere::new(Vec3::new(0, 0, -2_000_000), 1_000_000, gray());
    let ray = Ray::new(Vec3::new(0, 0, 0), Vec3::new(0, 0, -1_000_000));
    let rec = sphere.hit(&ray, 1_000, 1_000_000_000_000).unwrap();
    assert_eq!(rec.t, 1_000_000);
    assert_eq!(rec.point, Vec3::new(0, 0, -1_000_000));
    assert_eq!(rec.normal, Vec3::new(0, 0, 1_000_000));
    assert!(rec.front_face);
}

#[test]
fn sphere_hit_from_inside_uses_exit_root() {
    // From the sphere's center the near root is behind the origin, so the
    // exit root is reported and the stored normal faces the ray.
    let sphere = Sphere::new(Vec3::new(0, 0, -2_000_000), 1_000_000, gray());
    let ray = Ray::new(Vec3::new(0, 0, -2_000_000), Vec3::new(0, 0, -1_000_000));
    let rec = sphere.hit(&ray, 1_000, 1_000_000_000_000).unwrap();
    assert_eq!(rec.t, 1_000_000);
    assert_eq!(rec.point, Vec3::new(0, 0, -3_000_000));
    assert!(!rec.front_face);
    assert_eq!(rec.normal, Vec3::new(0, 0, 1_000_000));
}

#[test]
fn sphere_miss_returns_none() {
    let sphere = Sphere::new(Vec3::new(0, 0, -2_000_000), 1_000_000, gray());
    let ray = Ray::new(Vec3::new(0, 0, 0), Vec3::new(0, 1_000_000, 0));
    assert!(sphere.hit(&ray, 1_000, 1_000_000_000_000).is_none());
}

#[test]
fn sphere_hit_respects_interval() {
    // Both roots (t = 1 and t = 3) lie beyond a tight far bound.
    let sphere = Sphere::new(Vec3::new(0, 0, -2_000_000), 1_000_000, gray());
    let ray = Ray::new(Vec3::new(0, 0, 0), Vec3::new(0, 0, -1_000_000));
    assert!(sphere.hit(&ray, 1_000, 500_000).is_none());
    // With the near root excluded, the far root qualifies.
    let rec = sphere.hit(&ray, 1_500_000, 1_000_000_000_000).unwrap();
    assert_eq!(rec.t, 3_000_000);
    assert!(!rec.front_face);
}

#[test]
fn set_face_normal_orients_against_ray() {
    let ray = Ray::new(Vec3::new(0, 0, 0), Vec3::new(0, 0, -1_000_000));
    let mut rec = HitRecord::empty();
    // Outward normal opposing the ray: front face, stored as is.
    rec.set_face_normal(&ray, Vec3::new(0, 0, 1_000_000));
    assert!(rec.front_face);
    assert_eq!(rec.normal, Vec3::new(0, 0, 1_000_000));
    // Outward normal along the ray: back face, stored flipped.
    rec.set_face_normal(&ray, Vec3::new(0, 0, -1_000_000));
    assert!(!rec.front_face);
    assert_eq!(rec.normal, Vec3::new(0, 0, 1_000_000));
}

#[test]
fn list_reports_closest_hit_regardless_of_order() {
    let near = Sphere::new(Vec3::new(0, 0, -3_000_000), 1_000_000, gray());
    let far = Sphere::new(Vec3::new(0, 0, -6_000_000), 1_000_000, gray());
    let ray = Ray::new(Vec3::new(0, 0, 0), Vec3::new(0, 0, -1_000_000));
    let world_a = HittableList { vec: vec![near, far] };
    let world_b = HittableList { vec: vec![far, near] };
    let rec_a = world_a.hit(&ray, 1_000, 1_000_000_000_000).unwrap();
    let rec_b = world_b.hit(&ray, 1_000, 1_000_000_000_000).unwrap();
    assert_eq!(rec_a.t, 2_000_000);
    assert_eq!(rec_b.t, 2_000_000);
    assert_eq!(rec_a.point, rec_b.point);
}

#[test]
fn empty_list_never_hits() {
    let world = HittableList { vec: vec![] };
    let ray = Ray::new(Vec3::new(0, 0, 0), Vec3::new(0, 0, -1_000_000));
    assert!(world.hit(&ray, 1_000, 1_000_000_000_000).is_none());
}
