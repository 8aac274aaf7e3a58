use tactics_core::units::{isqrt, mul_div, negate, saturate, UNIT};
use tactics_core::{calc_tile_center, ARENA_HEIGHT, ARENA_WIDTH, TILE_WIDTH};

#[test]
fn isqrt_rounds_down() {
    assert_eq!(isqrt(0), 0);
    assert_eq!(isqrt(1), 1);
    assert_eq!(isqrt(2), 1);
    assert_eq!(isqrt(3), 1);
    assert_eq!(isqrt(4), 2);
    assert_eq!(isqrt(24), 4);
    assert_eq!(isqrt(25), 5);
    assert_eq!(isqrt(26), 5);
    assert_eq!(isqrt(1_000_000_000_000), 1_000_000);
    assert_eq!(isqrt(999_999_999_999), 999_999);
}

#[test]
fn isqrt_of_the_largest_number() {
    assert_eq!(isqrt(u128::MAX), u64::MAX);
    let r = u64::MAX as u128;
    assert_eq!(isqrt(r * r), u64::MAX);
    assert_eq!(isqrt(r * r - 1), u64::MAX - 1);
}

#[test]
fn mul_div_rounds_toward_zero() {
    assert_eq!(mul_div(7, 1, 2), 3);
    assert_eq!(mul_div(-7, 1, 2), -3);
    assert_eq!(mul_div(7, -1, 2), -3);
    assert_eq!(mul_div(-7, -1, 2), 3);
    assert_eq!(mul_div(10_000, 16, 1000), 160);
    assert_eq!(mul_div(0, 5, 3), 0);
}

#[test]
fn mul_div_saturates() {
    assert_eq!(mul_div(i64::MAX, i64::MAX, 1), i32::MAX);
    assert_eq!(mul_div(i64::MIN, i64::MAX, 1), i32::MIN);
    assert_eq!(mul_div(i64::MIN, i64::MIN, 1), i32::MAX);
    assert_eq!(mul_div(i32::MAX as i64, 2, 1), i32::MAX);
    assert_eq!(mul_div(i32::MAX as i64, 2, 2), i32::MAX);
    assert_eq!(mul_div(i32::MIN as i64, 2, 2), i32::MIN);
}

#[test]
fn saturate_keeps_what_fits() {
    assert_eq!(saturate(0), 0);
    assert_eq!(saturate(-5), -5);
    assert_eq!(saturate(i32::MAX as i64), i32::MAX);
    assert_eq!(saturate(i32::MAX as i64 + 1), i32::MAX);
    assert_eq!(saturate(i32::MIN as i64), i32::MIN);
    assert_eq!(saturate(i32::MIN as i64 - 1), i32::MIN);
    assert_eq!(saturate(i64::MAX), i32::MAX);
    assert_eq!(saturate(i64::MIN), i32::MIN);
}

#[test]
fn negate_has_no_overflow() {
    assert_eq!(negate(5), -5);
    assert_eq!(negate(-5), 5);
    assert_eq!(negate(0), 0);
    assert_eq!(negate(i32::MAX), -i32::MAX);
    assert_eq!(negate(i32::MIN), i32::MAX);
}

#[test]
fn tile_centres() {
    assert_eq!(calc_tile_center(0), 8_000);
    assert_eq!(calc_tile_center(1), 24_000);
    assert_eq!(calc_tile_center(3), 56_000);
    assert_eq!(calc_tile_center(79), 1_272_000);
    assert_eq!(calc_tile_center(134_217), 2_147_480_000);
    assert_eq!(calc_tile_center(134_218), i32::MAX);
    assert_eq!(calc_tile_center(usize::MAX), i32::MAX);
}

#[test]
fn arena_constants() {
    assert_eq!(UNIT, 1000);
    assert_eq!(ARENA_WIDTH, 1280);
    assert_eq!(ARENA_HEIGHT, 640);
    assert_eq!(TILE_WIDTH, 16);
}
