use lending_anchor::errors::LendingError;
use lending_anchor::ids::AccountId;
use lending_anchor::math::WAD;
use lending_anchor::rate::Rate;
use lending_anchor::collateral_exchange_rate::CollateralExchangeRate;
use lending_anchor::last_update::LastUpdate;
use lending_anchor::reserve::Reserve;
use lending_anchor::reserve_collateral::ReserveCollateral;
use lending_anchor::reserve_config::ReserveConfig;
use lending_anchor::reserve_fees::ReserveFees;
use lending_anchor::reserve_liquidity::{NewReserveLiquidityParams, ReserveLiquidity};

const W: u128 = WAD as u128;

fn id(n: u128) -> AccountId {
    AccountId::new(0, n)
}

fn test_config(borrow_fee_wad: u64, host_fee_percentage: u8) -> ReserveConfig {
    ReserveConfig {
        optimal_utilization_rate: 80,
        loan_to_value_ratio: 50,
        liquidation_bonus: 5,
        liquidation_threshold: 55,
        min_borrow_rate: 0,
        optimal_borrow_rate: 4,
        max_borrow_rate: 30,
        fees: ReserveFees { borrow_fee_wad, flash_loan_fee_wad: 0, host_fee_percentage },
    }
}

fn fresh_reserve(market_price: u128, mint_decimals: u8) -> Reserve {
    Reserve {
        version: 1,
        last_update: LastUpdate::new(0),
        lending_market: id(1),
        liquidity: ReserveLiquidity::new(NewReserveLiquidityParams {
            mint_pubkey: id(2),
            mint_decimals,
            supply_pubkey: id(3),
            fee_receiver: id(4),
            oracle_pubkey: id(5),
            market_price,
        }),
        collateral: ReserveCollateral::new(id(6), 0, id(7)),
        config: test_config(0, 0),
    }
}

#[test]
fn first_deposit_mints_one_for_one() {
    let mut reserve = fresh_reserve(W, 6);
    let rate = reserve.collateral_exchange_rate().unwrap();
    assert_eq!(rate.0.to_scaled_val(), W);
    let minted = reserve.deposit_liquidity(1_000_000).unwrap();
    assert_eq!(minted, 1_000_000);
    assert_eq!(reserve.liquidity.available_amount, 1_000_000);
    assert_eq!(reserve.collateral.mint_total_supply, 1_000_000);
}

#[test]
fn deposit_then_redeem_returns_the_original_amount() {
    let mut reserve = fresh_reserve(W, 6);
    let minted = reserve.deposit_liquidity(1_000_000).unwrap();
    let redeemed = reserve.redeem_collateral(minted).unwrap();
    assert_eq!(redeemed, 1_000_000);
    assert_eq!(reserve.liquidity.available_amount, 0);
    assert_eq!(reserve.collateral.mint_total_supply, 0);
}

#[test]
fn conversions_lose_at_most_one_unit() {
    // a rate above one: 3 collateral per 2 liquidity
    let rate = CollateralExchangeRate(Rate::from_scaled_val(1_500_000_000_000_000_000));
    for liquidity in [0u64, 1, 2, 3, 999, 1_000_000] {
        let collateral = rate.liquidity_to_collateral(liquidity).unwrap();
        let back = rate.collateral_to_liquidity(collateral).unwrap();
        assert!(back <= liquidity);
        assert!(liquidity - back <= 1);
    }
}

#[test]
fn covered_reserve_round_trips_within_one_unit() {
    // collateral shares cover the pool: rate 1000 / 800 = 1.25
    let mut reserve = fresh_reserve(W, 6);
    reserve.collateral.mint_total_supply = 1_000;
    reserve.liquidity.available_amount = 600;
    reserve.liquidity.borrowed_amount_wads = 200;
    let minted = reserve.deposit_liquidity(100).unwrap();
    assert_eq!(minted, 125);
    let redeemed = reserve.redeem_collateral(minted).unwrap();
    assert!(redeemed <= 100 && 100 - redeemed <= 1);
    assert_eq!(redeemed, 100);
}

#[test]
fn redeeming_more_than_the_pool_holds_is_refused() {
    let mut reserve = fresh_reserve(W, 6);
    reserve.deposit_liquidity(1_000).unwrap();
    // pretend most of the pool is lent out
    reserve.liquidity.available_amount = 10;
    reserve.liquidity.borrowed_amount_wads = 990;
    assert_eq!(reserve.redeem_collateral(1_000), Err(LendingError::InsufficientLiquidity));
}

#[test]
fn repay_settles_the_whole_debt_for_the_sentinel_request() {
    let reserve = fresh_reserve(W, 6);
    let result = reserve.calculate_repay(u64::MAX, 123_456).unwrap();
    assert_eq!(result.settle_amount, 123_456);
    // 123_456 WAD-scaled units round up to one whole unit
    assert_eq!(result.repay_amount, 1);
}

#[test]
fn repay_caps_the_request_by_the_debt() {
    let reserve = fresh_reserve(W, 6);
    // a partial request settles exactly the requested WAD-scaled amount
    let result = reserve.calculate_repay(2, 5 * W).unwrap();
    assert_eq!(result.settle_amount, 2);
    assert_eq!(result.repay_amount, 1);
    // a request past the debt settles only the debt
    let result = reserve.calculate_repay(7, 3).unwrap();
    assert_eq!(result.settle_amount, 3);
    assert_eq!(result.repay_amount, 1);
    let result = reserve.calculate_repay(u64::MAX, 5 * W).unwrap();
    assert_eq!(result.settle_amount, 5 * W);
    assert_eq!(result.repay_amount, 5);
}

#[test]
fn requested_borrow_adds_the_fee_on_top() {
    let mut reserve = fresh_reserve(W, 0);
    reserve.config = test_config(10_000_000_000_000_000, 20);
    reserve.liquidity.available_amount = 10_000;
    let result = reserve.calculate_borrow(1_000_000, 2_000_000 * W).unwrap();
    assert_eq!(result.receive_amount, 1_000_000);
    assert_eq!(result.borrow_fee, 10_000);
    assert_eq!(result.host_fee, 2_000);
    assert_eq!(result.borrow_amount, 1_010_000 * W);
}

#[test]
fn requested_borrow_past_the_allowed_value_is_refused() {
    let mut reserve = fresh_reserve(W, 0);
    reserve.config = test_config(10_000_000_000_000_000, 20);
    assert_eq!(
        reserve.calculate_borrow(1_000_000, 1_000_000 * W),
        Err(LendingError::BorrowTooLarge)
    );
}

#[test]
fn sentinel_borrow_takes_the_allowed_value_and_carves_the_fee_out() {
    let mut reserve = fresh_reserve(W, 0);
    reserve.config = test_config(10_000_000_000_000_000, 20);
    reserve.liquidity.available_amount = 1_000;
    let result = reserve.calculate_borrow(u64::MAX, 500 * W).unwrap();
    assert_eq!(result.borrow_amount, 500 * W);
    assert_eq!(result.borrow_fee, 5);
    assert_eq!(result.host_fee, 1);
    assert_eq!(result.receive_amount, 495);
}

#[test]
fn sentinel_borrow_is_capped_by_the_pool() {
    let mut reserve = fresh_reserve(W, 0);
    reserve.config = test_config(0, 0);
    reserve.liquidity.available_amount = 300;
    let result = reserve.calculate_borrow(u64::MAX, 500 * W).unwrap();
    assert_eq!(result.borrow_amount, 300 * W);
    assert_eq!(result.receive_amount, 300);
}

#[test]
fn config_validation_checks_every_bound() {
    assert_eq!(test_config(0, 0).validate(), Ok(()));
    let mut config = test_config(0, 0);
    config.loan_to_value_ratio = 60;
    config.liquidation_threshold = 55;
    assert_eq!(config.validate(), Err(LendingError::InvalidConfig));
    let mut config = test_config(0, 0);
    config.optimal_utilization_rate = 100;
    assert_eq!(config.validate(), Err(LendingError::InvalidConfig));
    let mut config = test_config(0, 0);
    config.fees.borrow_fee_wad = WAD;
    assert_eq!(config.validate(), Err(LendingError::InvalidConfig));
    let mut config = test_config(0, 0);
    config.min_borrow_rate = 10;
    config.optimal_borrow_rate = 5;
    assert_eq!(config.validate(), Err(LendingError::InvalidConfig));
}
