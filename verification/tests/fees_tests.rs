use lending_anchor::errors::LendingError;
use lending_anchor::math::WAD;
use lending_anchor::reserve_fees::{FeeCalculation, ReserveFees};

fn one_percent_with_host() -> ReserveFees {
    ReserveFees {
        borrow_fee_wad: 10_000_000_000_000_000,
        flash_loan_fee_wad: 0,
        host_fee_percentage: 20,
    }
}

#[test]
fn one_percent_fee_on_a_million_with_host_share() {
    let fees = one_percent_with_host();
    let (borrow_fee, host_fee) =
        fees.calculate_borrow_fees(1_000_000, FeeCalculation::Exclusive).unwrap();
    assert_eq!(borrow_fee, 10_000);
    assert_eq!(host_fee, 2_000);
}

#[test]
fn zero_rate_or_amount_charges_nothing() {
    let no_fee = ReserveFees { borrow_fee_wad: 0, flash_loan_fee_wad: 0, host_fee_percentage: 20 };
    assert_eq!(no_fee.calculate_borrow_fees(1_000_000, FeeCalculation::Exclusive), Ok((0, 0)));
    let fees = one_percent_with_host();
    assert_eq!(fees.calculate_borrow_fees(0, FeeCalculation::Exclusive), Ok((0, 0)));
}

#[test]
fn minimum_fee_is_two_units_with_host_else_one() {
    let fees = one_percent_with_host();
    // 1% of 100 rounds below the minimum of two units
    let (borrow_fee, host_fee) =
        fees.calculate_borrow_fees(100, FeeCalculation::Exclusive).unwrap();
    assert_eq!(borrow_fee, 2);
    assert_eq!(host_fee, 1);
    let no_host = ReserveFees {
        borrow_fee_wad: 10_000_000_000_000_000,
        flash_loan_fee_wad: 0,
        host_fee_percentage: 0,
    };
    let (borrow_fee, host_fee) = no_host.calculate_borrow_fees(100, FeeCalculation::Exclusive).unwrap();
    assert_eq!(borrow_fee, 1);
    assert_eq!(host_fee, 0);
}

#[test]
fn a_fee_never_swallows_the_amount() {
    let fees = one_percent_with_host();
    // the minimum fee of two units meets a request of two units
    assert_eq!(
        fees.calculate_borrow_fees(2, FeeCalculation::Exclusive),
        Err(LendingError::BorrowTooSmall)
    );
    assert_eq!(
        fees.calculate_borrow_fees(1, FeeCalculation::Exclusive),
        Err(LendingError::BorrowTooSmall)
    );
    // three units leave room for the fee
    let (borrow_fee, _) = fees.calculate_borrow_fees(3, FeeCalculation::Exclusive).unwrap();
    assert!(borrow_fee <= 3);
}

#[test]
fn inclusive_fee_is_carved_out_of_the_amount() {
    let fees = one_percent_with_host();
    // inclusive rate: 1% / 101% of the gross amount
    let (borrow_fee, host_fee) =
        fees.calculate_borrow_fees(1_000_000, FeeCalculation::Inclusive).unwrap();
    // floor(10^16 * WAD / (10^16 + WAD)) = 9900990099009900
    let inclusive_rate: u128 = (10_000_000_000_000_000u128 * WAD as u128)
        / (10_000_000_000_000_000u128 + WAD as u128);
    let fee_wads = 1_000_000u128 * inclusive_rate;
    let expected = ((fee_wads + WAD as u128 / 2) / WAD as u128) as u64;
    assert_eq!(borrow_fee, expected);
    assert_eq!(borrow_fee, 9_901);
    assert_eq!(host_fee, 1_980);
}

#[test]
fn fee_grows_with_the_amount() {
    let fees = one_percent_with_host();
    let mut last = 0u64;
    for amount in [100u128, 1_000, 10_000, 1_000_000, 5_000_000] {
        let (borrow_fee, _) = fees.calculate_borrow_fees(amount, FeeCalculation::Exclusive).unwrap();
        assert!(borrow_fee >= last);
        last = borrow_fee;
    }
}
