//! Vector arithmetic at fixed-point resolution: one world unit is 1_000_000
//! subunits, so the original unit-valued expectations scale by 10^6 (and
//! squared quantities by 10^12).

use shape_sandbox::vec2::{Vec2, div_i64, clamp_i64, isqrt_u128};

#[test]
fn len_squared() {
    assert_eq!(Vec2::new(5_400_000, 6_300_000).len_squared(), 68_850_000_000_000);
}

#[test]
fn len() {
    assert_eq!(Vec2::new(3_000_000, 4_000_000).len(), 5_000_000);
}

#[test]
fn dot() {
    assert_eq!(
        Vec2::dot(&Vec2::new(1_000_000, 2_000_000), &Vec2::new(3_000_000, 4_000_000)),
        11_000_000_000_000
    );
}

#[test]
fn ops() {
    let vec_a = Vec2::new(3_000_000, 4_000_000);
    let vec_b = Vec2::new(4_000_000, 1_500_000);
    assert_eq!(vec_a.add(&vec_b), Vec2::new(7_000_000, 5_500_000));
    assert_eq!(vec_a.sub(&vec_b), Vec2::new(-1_000_000, 2_500_000));
    assert_eq!(vec_a.perpendicular(), Vec2::new(-4_000_000, 3_000_000));
    assert_eq!(Vec2::zero(), Vec2::new(0, 0));
    assert_eq!(vec_a.x(), 3_000_000);
    assert_eq!(vec_a.y(), 4_000_000);
    assert_eq!(vec_a.scale(2), Vec2::new(6_000_000, 8_000_000));
    assert_eq!(vec_a.scale_div(2), Vec2::new(1_500_000, 2_000_000));
    assert_eq!(Vec2::new(-3_000_000, 5_000_000).scale_div(2), Vec2::new(-1_500_000, 2_500_000));
}

#[test]
fn length_rounds_down() {
    assert_eq!(Vec2::new(0, 0).len(), 0);
    assert_eq!(Vec2::new(1, 0).len(), 1);
    assert_eq!(Vec2::new(1, 1).len(), 1);
    assert_eq!(Vec2::new(2, 2).len(), 2);
    assert_eq!(Vec2::new(-3, 4).len(), 5);
}

#[test]
fn integer_square_root() {
    assert_eq!(isqrt_u128(0), 0);
    assert_eq!(isqrt_u128(1), 1);
    assert_eq!(isqrt_u128(3), 1);
    assert_eq!(isqrt_u128(4), 2);
    assert_eq!(isqrt_u128(99), 9);
    assert_eq!(isqrt_u128(100), 10);
    assert_eq!(isqrt_u128(u64::MAX as u128 * u64::MAX as u128), u64::MAX as u128);
}

#[test]
fn truncating_division() {
    assert_eq!(div_i64(7, 2), 3);
    assert_eq!(div_i64(-7, 2), -3);
    assert_eq!(div_i64(-5_000_000, 60), -83_333);
    assert_eq!(div_i64(5_000_000, 60), 83_333);
}

#[test]
fn clamping() {
    assert_eq!(clamp_i64(5, 10), 5);
    assert_eq!(clamp_i64(15, 10), 10);
    assert_eq!(clamp_i64(-15, 10), -10);
}
