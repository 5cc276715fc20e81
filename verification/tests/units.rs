use staws::units::{
    clamp_to_limit, integer_sqrt, GRAVITATIONAL_CONSTANT, HEADING_ONE, LIMIT, MAX_BODIES, MAX_MASS,
    SOFTENING, SOFTENING_SQUARED, THROTTLE_ONE, TICKS_PER_UNIT,
};

#[test]
fn the_square_root_is_rounded_down() {
    assert_eq!(integer_sqrt(0), 0);
    assert_eq!(integer_sqrt(1), 1);
    assert_eq!(integer_sqrt(2), 1);
    assert_eq!(integer_sqrt(3), 1);
    assert_eq!(integer_sqrt(4), 2);
    assert_eq!(integer_sqrt(8), 2);
    assert_eq!(integer_sqrt(9), 3);
    assert_eq!(integer_sqrt(400_000_000_000_000), 20_000_000);
    assert_eq!(integer_sqrt(399_999_999_999_999), 19_999_999);
    assert_eq!(integer_sqrt(400_000_000_000_001), 20_000_000);
}

#[test]
fn the_square_root_of_the_largest_number_fits() {
    assert_eq!(integer_sqrt(u128::MAX), u64::MAX);
    let root = u64::MAX as u128;
    assert_eq!(integer_sqrt(root * root), u64::MAX);
    assert_eq!(integer_sqrt(root * root - 1), u64::MAX - 1);
    assert_eq!(integer_sqrt(1 << 126), 1 << 63);
}

#[test]
fn clamping_holds_a_number_within_the_limit() {
    assert_eq!(clamp_to_limit(0), 0);
    assert_eq!(clamp_to_limit(-17), -17);
    assert_eq!(clamp_to_limit(LIMIT as i128), LIMIT);
    assert_eq!(clamp_to_limit(LIMIT as i128 + 1), LIMIT);
    assert_eq!(clamp_to_limit(-(LIMIT as i128) - 1), -LIMIT);
    assert_eq!(clamp_to_limit(i128::MAX), LIMIT);
    assert_eq!(clamp_to_limit(i128::MIN), -LIMIT);
}

#[test]
fn the_constants_agree_with_one_another() {
    assert_eq!(SOFTENING * SOFTENING, SOFTENING_SQUARED);
    assert_eq!(SOFTENING, TICKS_PER_UNIT as i128);
    assert_eq!(THROTTLE_ONE, 1_000_000);
    assert_eq!(HEADING_ONE, 1_000_000);
    assert!(MAX_BODIES >= 1_000_000);
    let ticks = TICKS_PER_UNIT as f64;
    let constant = GRAVITATIONAL_CONSTANT as f64 / (ticks * ticks * ticks);
    assert!((constant - 6.67430e-11).abs() < 1e-20);
    let largest = GRAVITATIONAL_CONSTANT
        .checked_mul(MAX_MASS as i128)
        .and_then(|p| p.checked_mul(MAX_MASS as i128));
    assert!(largest.is_some());
}
