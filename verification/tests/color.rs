//! Output quantization and angle conversion.

use ray_tracer::libs::{degrees_to_radians, write_color};
use ray_tracer::vec3::Vec3;

#[test]
fn full_white_quantizes_to_255() {
    assert_eq!(write_color(&Vec3::new(1_000_000, 1_000_000, 1_000_000)), (255, 255, 255));
}

#[test]
fn black_quantizes_to_0() {
    assert_eq!(write_color(&Vec3::new(0, 0, 0)), (0, 0, 0));
}

#[test]
fn half_gray_quantizes_to_127() {
    assert_eq!(write_color(&Vec3::new(500_000, 500_000, 500_000)), (127, 127, 127));
}

#[test]
fn out_of_range_channels_clamp() {
    assert_eq!(write_color(&Vec3::new(2_000_000, -300_000, 999_999)), (255, 0, 255));
}

#[test]
fn degrees_convert_through_pi() {
    // 180 degrees is pi radians.
    assert_eq!(degrees_to_radians(180_000_000), 3_141_593);
    // 90 degrees is pi/2, truncated at the last millionth.
    assert_eq!(degrees_to_radians(90_000_000), 1_570_796);
    assert_eq!(degrees_to_radians(0), 0);
}
