use fps_controller::arith::{clamp, isqrt, lerp, wrap_angle, FULL_TURN, HALF_TURN};

#[test]
fn isqrt_of_small_numbers() {
    assert_eq!(isqrt(0), 0);
    assert_eq!(isqrt(1), 1);
    assert_eq!(isqrt(2), 1);
    assert_eq!(isqrt(3), 1);
    assert_eq!(isqrt(4), 2);
    assert_eq!(isqrt(99), 9);
    assert_eq!(isqrt(100), 10);
}

#[test]
fn isqrt_rounds_down() {
    assert_eq!(isqrt(2_000_000_000_000), 1_414_213);
    assert_eq!(isqrt(1_000_000_000_000_000_000_000_000), 1_000_000_000_000);
    assert_eq!(isqrt(1_000_000_000_000_000_000_000_000 - 1), 999_999_999_999);
}

#[test]
fn isqrt_of_the_largest_number() {
    assert_eq!(isqrt(u128::MAX), u64::MAX);
}

#[test]
fn isqrt_brackets_its_argument() {
    for n in 0u128..2_000 {
        let r = isqrt(n) as u128;
        assert!(r * r <= n);
        assert!(n < (r + 1) * (r + 1));
    }
}

#[test]
fn lerp_end_points() {
    assert_eq!(lerp(100, 200, 0), 100);
    assert_eq!(lerp(-10, 10, 1000), 10);
    assert_eq!(lerp(5, 5, 700), 5);
}

#[test]
fn lerp_rounds_the_step_away_from_zero() {
    assert_eq!(lerp(0, 10, 500), 5);
    assert_eq!(lerp(0, 10, 250), 3);
    assert_eq!(lerp(10, 0, 250), 7);
    assert_eq!(lerp(0, 1, 1), 1);
    assert_eq!(lerp(0, -1, 1), -1);
}

#[test]
fn lerp_across_the_whole_range() {
    assert_eq!(lerp(i32::MIN, i32::MAX, 1000), i32::MAX);
    assert_eq!(lerp(i32::MAX, i32::MIN, 999), -2_143_188_681);
}

#[test]
fn clamp_holds_to_the_interval() {
    assert_eq!(clamp(5, -10, 10), 5);
    assert_eq!(clamp(11, -10, 10), 10);
    assert_eq!(clamp(-11, -10, 10), -10);
    assert_eq!(clamp(i64::MAX, -10, 10), 10);
    assert_eq!(clamp(i64::MIN, -10, 10), -10);
    assert_eq!(clamp(7, 7, 7), 7);
}

#[test]
fn wrap_angle_keeps_angles_in_range() {
    assert_eq!(wrap_angle(0), 0);
    assert_eq!(wrap_angle(HALF_TURN as i64), HALF_TURN);
    assert_eq!(wrap_angle(-(HALF_TURN as i64) + 1), -HALF_TURN + 1);
    assert_eq!(wrap_angle(1_234_567), 1_234_567);
}

#[test]
fn wrap_angle_wraps_by_whole_turns() {
    assert_eq!(wrap_angle(-(HALF_TURN as i64)), HALF_TURN);
    assert_eq!(wrap_angle(HALF_TURN as i64 + 1), -HALF_TURN + 1);
    assert_eq!(wrap_angle(FULL_TURN as i64), 0);
    assert_eq!(wrap_angle(-(FULL_TURN as i64)), 0);
    assert_eq!(wrap_angle(10 * FULL_TURN as i64 + 5), 5);
    assert_eq!(wrap_angle(253_186 - FULL_TURN as i64), 253_186);
}

#[test]
fn wrap_angle_at_the_ends_of_the_range() {
    assert_eq!(wrap_angle(i64::MIN), 813_714);
    assert_eq!(wrap_angle(i64::MAX), -813_715);
}

#[test]
fn full_turn_is_two_half_turns() {
    assert_eq!(FULL_TURN, 2 * HALF_TURN);
}
