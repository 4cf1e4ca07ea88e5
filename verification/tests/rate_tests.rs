use lending_anchor::math::{PERCENT_SCALER, WAD};
use lending_anchor::rate::Rate;

#[test]
fn from_percent_scales_to_wad_hundredths() {
    assert_eq!(Rate::from_percent(0).to_scaled_val(), 0);
    assert_eq!(Rate::from_percent(1).to_scaled_val(), PERCENT_SCALER as u128);
    assert_eq!(Rate::from_percent(100).to_scaled_val(), WAD as u128);
    assert_eq!(Rate::from_percent(255).to_scaled_val(), 255 * PERCENT_SCALER as u128);
}

#[test]
fn zero_and_one_are_the_ends_of_the_scale() {
    assert_eq!(Rate::zero().to_scaled_val(), 0);
    assert_eq!(Rate::one().to_scaled_val(), WAD as u128);
    assert_eq!(Rate::wad(), WAD as u128);
}

#[test]
fn scaled_value_round_trips() {
    assert_eq!(Rate::from_scaled_val(42).to_scaled_val(), 42);
    assert_eq!(Rate::from_scaled_val(u64::MAX).to_scaled_val(), u64::MAX as u128);
    assert_eq!(Rate::from_scaled_val(7), Rate::from_scaled_val(7));
}
