//! The seeded random source and the direction samplers built on it.

use ray_tracer::libs::{
    random_in_unit_sphere, random_on_hemisphere, random_unit_vector, random_vector,
    random_vector_range,
};
use ray_tracer::rng::RandSrc;
use ray_tracer::vec3::Vec3;

#[test]
fn vector_range_draws_stay_inside() {
    let mut rng = RandSrc::from_seed(11);
    for _ in 0..200 {
        let v = random_vector_range(&mut rng, -250_000, 750_000);
        assert!(-250_000 <= v.x && v.x < 750_000);
        assert!(-250_000 <= v.y && v.y < 750_000);
        assert!(-250_000 <= v.z && v.z < 750_000);
    }
}

#[test]
fn unit_interval_draws_stay_inside() {
    let mut rng = RandSrc::from_seed(11);
    for _ in 0..200 {
        let v = random_vector(&mut rng);
        assert!(0 <= v.x && v.x < 1_000_000);
        assert!(0 <= v.y && v.y < 1_000_000);
        assert!(0 <= v.z && v.z < 1_000_000);
    }
}

#[test]
fn unit_sphere_samples_are_interior_and_nonzero() {
    let mut rng = RandSrc::from_seed(11);
    for _ in 0..200 {
        let p = random_in_unit_sphere(&mut rng);
        let lsq = p.length_squared();
        assert!(0 < lsq && lsq < 1_000_000);
    }
}

#[test]
fn unit_vectors_have_unit_length() {
    let mut rng = RandSrc::from_seed(11);
    for _ in 0..200 {
        let u = random_unit_vector(&mut rng);
        let lsq = u.length_squared();
        // normalization is exact up to quantum-scale rounding
        assert!((lsq - 1_000_000).abs() < 10_000, "length squared {lsq}");
    }
}

#[test]
fn hemisphere_samples_face_the_normal() {
    let mut rng = RandSrc::from_seed(11);
    let normal = Vec3::new(0, 1_000_000, 0);
    for _ in 0..200 {
        let u = random_on_hemisphere(&mut rng, &normal);
        assert!(u.dot(&normal) >= 0);
    }
}

#[test]
fn seeded_draws_replay_identically() {
    let mut a = RandSrc::from_seed(99);
    let mut b = RandSrc::from_seed(99);
    for _ in 0..50 {
        assert_eq!(a.below(1_000_000), b.below(1_000_000));
    }
}
