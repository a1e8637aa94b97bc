//! Exact behavior of the vector operations, including reflection,
//! refraction and rotation.

use ray_tracer::vec3::Vec3;

#[test]
fn add_sub_neg_componentwise() {
    let a = Vec3::new(1_500_000, -2_000_000, 250_000);
    let b = Vec3::new(500_000, 1_000_000, -250_000);
    assert_eq!(a.add(&b), Vec3::new(2_000_000, -1_000_000, 0));
    assert_eq!(a.sub(&b), Vec3::new(1_000_000, -3_000_000, 500_000));
    assert_eq!(a.neg(), Vec3::new(-1_500_000, 2_000_000, -250_000));
}

#[test]
fn scale_mul_div() {
    let a = Vec3::new(1_000_000, -2_000_000, 500_000);
    assert_eq!(a.scale(2_000_000), Vec3::new(2_000_000, -4_000_000, 1_000_000));
    let b = Vec3::new(500_000, 500_000, 2_000_000);
    assert_eq!(a.mul(&b), Vec3::new(500_000, -1_000_000, 1_000_000));
    assert_eq!(a.div(2_000_000), Vec3::new(500_000, -1_000_000, 250_000));
}

#[test]
fn dot_and_cross() {
    // (1,2,3) . (4,5,6) == 32
    let a = Vec3::new(1_000_000, 2_000_000, 3_000_000);
    let b = Vec3::new(4_000_000, 5_000_000, 6_000_000);
    assert_eq!(a.dot(&b), 32_000_000);
    // x cross y == z
    let x = Vec3::new(1_000_000, 0, 0);
    let y = Vec3::new(0, 1_000_000, 0);
    assert_eq!(x.cross(&y), Vec3::new(0, 0, 1_000_000));
    assert_eq!(y.cross(&x), Vec3::new(0, 0, -1_000_000));
}

#[test]
fn length_and_normalize() {
    // |(3,4,0)| == 5, normalized to (0.6, 0.8, 0)
    let a = Vec3::new(3_000_000, 4_000_000, 0);
    assert_eq!(a.length_squared(), 25_000_000);
    assert_eq!(a.length(), 5_000_000);
    assert_eq!(a.normalize(), Vec3::new(600_000, 800_000, 0));
}

#[test]
fn near_zero_means_below_one_quantum() {
    assert!(Vec3::new(0, 0, 0).near_zero());
    assert!(!Vec3::new(1, 0, 0).near_zero());
    assert!(!Vec3::new(0, 0, -1).near_zero());
}

#[test]
fn reflect_mirrors_about_normal() {
    // (1,-1,0) off the floor normal (0,1,0) reflects to (1,1,0)
    let v = Vec3::new(1_000_000, -1_000_000, 0);
    let n = Vec3::new(0, 1_000_000, 0);
    assert_eq!(v.reflect(&n), Vec3::new(1_000_000, 1_000_000, 0));
}

#[test]
fn refract_normal_incidence_round_trip() {
    // Entering water head-on and exiting through a parallel interface
    // both leave the direction exactly unchanged.
    let n = Vec3::new(0, 0, 1_000_000);
    let incoming = Vec3::new(0, 0, -1_000_000);
    let entering = incoming.refract(&n, 751_879);
    assert_eq!(entering, incoming);
    let exiting = entering.refract(&n, 1_330_000);
    assert_eq!(exiting, incoming);
}

#[test]
fn rotate_quarter_turns() {
    // 90 degrees about y: sin = 1, cos = 0 maps +x to -z.
    let x = Vec3::new(1_000_000, 0, 0);
    assert_eq!(x.rotate_y(1_000_000, 0), Vec3::new(0, 0, -1_000_000));
    // 90 degrees about x maps +y to +z.
    let y = Vec3::new(0, 1_000_000, 0);
    assert_eq!(y.rotate_x(1_000_000, 0), Vec3::new(0, 0, 1_000_000));
    // The combined rotation with zero angles is the identity.
    let v = Vec3::new(123_456, -654_321, 999_999);
    assert_eq!(v.rotate(0, 1_000_000, 0, 1_000_000), v);
}
