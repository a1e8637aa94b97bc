//! Exact behavior of the fixed-point scalar operations.

use ray_tracer::fixed::{fclamp, fdiv, fmax, fmin, fmul, fsqrt};

#[test]
fn fmul_exact_products() {
    // 1.5 * 2.0 == 3.0
    assert_eq!(fmul(1_500_000, 2_000_000), 3_000_000);
    assert_eq!(fmul(-1_500_000, 2_000_000), -3_000_000);
    assert_eq!(fmul(-1_500_000, -2_000_000), 3_000_000);
    // products round toward zero
    assert_eq!(fmul(1, 1), 0);
    assert_eq!(fmul(-1, 1), 0);
    assert_eq!(fmul(999_999, 999_999), 999_998);
}

#[test]
fn fdiv_truncates_toward_zero() {
    assert_eq!(fdiv(1_000_000, 3_000_000), 333_333);
    assert_eq!(fdiv(-1_000_000, 3_000_000), -333_333);
    assert_eq!(fdiv(1_000_000, -3_000_000), -333_333);
    assert_eq!(fdiv(-1_000_000, -3_000_000), 333_333);
    assert_eq!(fdiv(6_000_000, 2_000_000), 3_000_000);
}

#[test]
fn fsqrt_exact_and_floor() {
    assert_eq!(fsqrt(4_000_000), 2_000_000);
    assert_eq!(fsqrt(1_000_000), 1_000_000);
    assert_eq!(fsqrt(0), 0);
    // sqrt(2) floors to 1.414213
    assert_eq!(fsqrt(2_000_000), 1_414_213);
}

#[test]
fn min_max_clamp() {
    assert_eq!(fmin(3, -4), -4);
    assert_eq!(fmax(3, -4), 3);
    assert_eq!(fclamp(7, 0, 5), 5);
    assert_eq!(fclamp(-7, 0, 5), 0);
    assert_eq!(fclamp(3, 0, 5), 3);
}
