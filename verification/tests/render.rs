//! Camera derivation, the radiance estimate and full-frame rendering.

use ray_tracer::camera::{Camera, CameraCommand};
use ray_tracer::fixed::fmul;
use ray_tracer::hittable::{HittableList, Sphere};
use ray_tracer::material::Material;
use ray_tracer::ray::Ray;
use ray_tracer::rng::RandSrc;
use ray_tracer::vec3::Vec3;

fn test_camera(width: usize, height: usize, samples: u8, bounces: u8) -> Camera {
    Camera::new(
        Vec3::new(0, 0, 0),
        Vec3::new(0, 0, 1_000_000),
        Vec3::new(0, 1_000_000, 0),
        1_000_000,
        1_000_000,
        width,
        height,
        samples,
        bounces,
    )
    .unwrap()
}

fn demo_world() -> HittableList {
    let ground = Sphere::new(
        Vec3::new(0, -100_500_000, -1_000_000),
        100_000_000,
        Material::Lambertian { albedo: Vec3::new(1_000_000, 100_000, 100_000) },
    );
    let ball = Sphere::new(
        Vec3::new(0, 0, -1_500_000),
        500_000,
        Material::Lambertian { albedo: Vec3::new(500_000, 1_000_000, 0) },
    );
    HittableList { vec: vec![ground, ball] }
}

#[test]
fn camera_derives_viewport_exactly() {
    let camera = test_camera(128, 128, 1, 8);
    assert_eq!(camera.pixel_delta_u, Vec3::new(15_625, 0, 0));
    assert_eq!(camera.pixel_delta_v, Vec3::new(0, -15_625, 0));
    assert_eq!(camera.pixel00_loc, Vec3::new(-992_188, 992_188, -1_000_000));
    assert_eq!(camera.camera_center, Vec3::new(0, 0, 0));
    assert_eq!(camera.pixel_sample_scale, 1_000_000);
}

#[test]
fn camera_rejects_degenerate_orientation() {
    // Forward parallel to world up: no usable basis.
    let r = Camera::new(
        Vec3::new(0, 0, 0),
        Vec3::new(0, 1_000_000, 0),
        Vec3::new(0, 1_000_000, 0),
        1_000_000,
        1_000_000,
        64,
        64,
        1,
        1,
    );
    assert!(r.is_none());
    // A zero forward vector has no direction at all.
    let z = Camera::new(
        Vec3::new(0, 0, 0),
        Vec3::new(0, 0, 0),
        Vec3::new(0, 1_000_000, 0),
        1_000_000,
        1_000_000,
        64,
        64,
        1,
        1,
    );
    assert!(z.is_none());
}

#[test]
fn ray_color_miss_is_exact_background() {
    let world = HittableList { vec: vec![] };
    let mut rng = RandSrc::from_seed(3);
    // Straight up: the gradient blends fully to sky blue.
    let up = Ray::new(Vec3::new(0, 0, 0), Vec3::new(0, 1_000_000, 0));
    let color = Camera::ray_color(&up, &world, 5, &mut rng);
    assert_eq!(color, Vec3::new(500_000, 700_000, 1_000_000));
    // Straight down: the gradient blends fully to white.
    let down = Ray::new(Vec3::new(0, 0, 0), Vec3::new(0, -1_000_000, 0));
    let color = Camera::ray_color(&down, &world, 5, &mut rng);
    assert_eq!(color, Vec3::new(1_000_000, 1_000_000, 1_000_000));
}

#[test]
fn ray_color_exhausted_budget_is_black() {
    let world = demo_world();
    let mut rng = RandSrc::from_seed(3);
    let ray = Ray::new(Vec3::new(0, 0, 0), Vec3::new(0, 0, -1_000_000));
    let color = Camera::ray_color(&ray, &world, 0, &mut rng);
    assert_eq!(color, Vec3::new(0, 0, 0));
}

#[test]
fn render_produces_row_major_frame() {
    let camera = test_camera(8, 4, 1, 2);
    let world = HittableList { vec: vec![] };
    let mut rng = RandSrc::from_seed(17);
    let pixels = camera.render(&world, &mut rng);
    assert_eq!(pixels.len(), 32);
    for p in &pixels {
        // Background colors stay within a whisker of [0, 1].
        assert!(0 <= p.x && p.x <= 1_100_000);
        assert!(0 <= p.y && p.y <= 1_100_000);
        assert!(0 <= p.z && p.z <= 1_100_000);
    }
}

#[test]
fn render_center_hits_sphere_and_corner_sees_sky() {
    let camera = test_camera(128, 128, 1, 1);
    let world = demo_world();
    let mut rng = RandSrc::from_seed(23);
    let pixels = camera.render(&world, &mut rng);
    assert_eq!(pixels.len(), 128 * 128);

    // The image center lands on the small sphere; with a single bounce
    // the scattered ray's budget is spent, so the pixel is black — in any
    // case not the background gradient.
    let center = pixels[64 * 128 + 64];
    assert_eq!(center, Vec3::new(0, 0, 0));

    // The top-left corner misses everything and shows the background
    // gradient for its ray, up to the sub-pixel jitter.
    let corner = pixels[0];
    let dir0 = Vec3::new(-992_188, 992_188, -1_000_000);
    let u = dir0.normalize();
    let a = fmul(u.y + 1_000_000, 500_000);
    let white = Vec3::new(1_000_000, 1_000_000, 1_000_000);
    let sky = Vec3::new(500_000, 700_000, 1_000_000);
    let expected = white.scale(1_000_000 - a).add(&sky.scale(a));
    assert!((corner.x - expected.x).abs() <= 10_000);
    assert!((corner.y - expected.y).abs() <= 10_000);
    assert!((corner.z - expected.z).abs() <= 10_000);
}

#[test]
fn render_is_deterministic_under_a_fixed_seed() {
    let camera = test_camera(32, 32, 2, 3);
    let mut world = demo_world();
    world.vec.push(Sphere::new(
        Vec3::new(-2_000_000, 0, -1_500_000),
        1_000_000,
        Material::Metal { albedo: Vec3::new(900_000, 900_000, 900_000), fuzziness: 300_000 },
    ));
    world.vec.push(Sphere::new(
        Vec3::new(1_000_000, 500_000, -1_500_000),
        500_000,
        Material::Dielectric {
            albedo: Vec3::new(1_000_000, 1_000_000, 1_000_000),
            refraction_index: 1_330_000,
        },
    ));
    let mut rng_a = RandSrc::from_seed(5);
    let frame_a = camera.render(&world, &mut rng_a);
    let mut rng_b = RandSrc::from_seed(5);
    let frame_b = camera.render(&world, &mut rng_b);
    assert_eq!(frame_a, frame_b);
}

#[test]
fn move_command_shifts_the_viewport() {
    let camera = test_camera(128, 128, 1, 8);
    let moved = camera
        .apply_command(&CameraCommand::Move { delta: Vec3::new(100_000, 0, 0) })
        .unwrap();
    assert_eq!(moved.position, Vec3::new(100_000, 0, 0));
    assert_eq!(moved.camera_center, Vec3::new(100_000, 0, 0));
    assert_eq!(moved.pixel00_loc, Vec3::new(-892_188, 992_188, -1_000_000));
}

#[test]
fn zero_rotation_command_keeps_the_viewport() {
    let camera = test_camera(128, 128, 1, 8);
    let turned = camera
        .apply_command(
            &CameraCommand::Rotate {
                sin_theta: 0,
                cos_theta: 1_000_000,
                sin_phi: 0,
                cos_phi: 1_000_000,
            },
        )
        .unwrap();
    assert_eq!(turned.forward, Vec3::new(0, 0, 1_000_000));
    assert_eq!(turned.pixel00_loc, Vec3::new(-992_188, 992_188, -1_000_000));
}
