use lending_anchor::errors::LendingError;
use lending_anchor::math::{try_ceil_u64, try_floor_u64, try_pow10_u64, try_round_u64, PERCENT_SCALER, WAD};

const W: u128 = WAD as u128;

#[test]
fn constants_are_wad_scaled() {
    assert_eq!(WAD, 1_000_000_000_000_000_000);
    assert_eq!(PERCENT_SCALER, 10_000_000_000_000_000);
    assert_eq!(PERCENT_SCALER as u128 * 100, W);
}

#[test]
fn floor_divides_rounding_down() {
    assert_eq!(try_floor_u64(0), Ok(0));
    assert_eq!(try_floor_u64(W - 1), Ok(0));
    assert_eq!(try_floor_u64(W), Ok(1));
    assert_eq!(try_floor_u64(5 * W + 999), Ok(5));
}

#[test]
fn ceil_divides_rounding_up() {
    assert_eq!(try_ceil_u64(0), Ok(0));
    assert_eq!(try_ceil_u64(1), Ok(1));
    assert_eq!(try_ceil_u64(W), Ok(1));
    assert_eq!(try_ceil_u64(W + 1), Ok(2));
    assert_eq!(try_ceil_u64(5 * W + 999), Ok(6));
}

#[test]
fn round_is_half_up() {
    assert_eq!(try_round_u64(W / 2 - 1), Ok(0));
    assert_eq!(try_round_u64(W / 2), Ok(1));
    assert_eq!(try_round_u64(3 * W + W / 2), Ok(4));
    assert_eq!(try_round_u64(3 * W + W / 2 - 1), Ok(3));
}

#[test]
fn floor_of_x_brackets_the_quotient() {
    for x in [0u128, 1, W - 1, W, 7 * W + 123, 12345678901234567890] {
        let f = try_floor_u64(x).unwrap() as u128;
        let c = try_ceil_u64(x).unwrap() as u128;
        assert!(f * W <= x);
        assert!(x <= c * W);
        assert!(c - f <= 1);
    }
}

#[test]
fn conversions_fail_past_u64() {
    let too_big = (u64::MAX as u128 + 1) * W;
    assert_eq!(try_floor_u64(too_big), Err(LendingError::MathOverflow));
    assert_eq!(try_ceil_u64(too_big + 1), Err(LendingError::MathOverflow));
    assert_eq!(try_round_u64(too_big + W / 2), Err(LendingError::MathOverflow));
    assert_eq!(try_ceil_u64(u128::MAX), Err(LendingError::MathOverflow));
    assert_eq!(try_round_u64(u128::MAX), Err(LendingError::MathOverflow));
}

#[test]
fn pow10_counts_zeros() {
    assert_eq!(try_pow10_u64(0), Ok(1));
    assert_eq!(try_pow10_u64(6), Ok(1_000_000));
    assert_eq!(try_pow10_u64(19), Ok(10_000_000_000_000_000_000));
    assert_eq!(try_pow10_u64(20), Err(LendingError::MathOverflow));
    assert_eq!(try_pow10_u64(255), Err(LendingError::MathOverflow));
}
