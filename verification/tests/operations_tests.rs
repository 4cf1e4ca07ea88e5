use lending_anchor::errors::LendingError;
use lending_anchor::ids::AccountId;
use lending_anchor::last_update::LastUpdate;
use lending_anchor::lending_market::{InitLendingMarketParams, LendingMarket};
use lending_anchor::math::WAD;
use lending_anchor::obligation::Obligation;
use lending_anchor::obligation_collateral::ObligationCollateral;
use lending_anchor::operations::{
    process_borrow_obligation_liquidity, process_deposit_obligation_collateral,
    process_deposit_reserve_liquidity, process_init_obligation, process_init_reserve,
    process_redeem_reserve_collateral, process_repay_obligation_liquidity,
    process_set_lending_market_owner, process_withdraw_obligation_collateral,
};
use lending_anchor::reserve::Reserve;
use lending_anchor::reserve_collateral::ReserveCollateral;
use lending_anchor::reserve_config::ReserveConfig;
use lending_anchor::reserve_fees::ReserveFees;
use lending_anchor::reserve_liquidity::{NewReserveLiquidityParams, ReserveLiquidity};

const W: u128 = WAD as u128;

fn id(n: u128) -> AccountId {
    AccountId::new(0, n)
}

fn test_config(borrow_fee_wad: u64, host_fee_percentage: u8) -> ReserveConfig {
    ReserveConfig {
        optimal_utilization_rate: 80,
        loan_to_value_ratio: 50,
        liquidation_bonus: 5,
        liquidation_threshold: 55,
        min_borrow_rate: 0,
        optimal_borrow_rate: 4,
        max_borrow_rate: 30,
        fees: ReserveFees { borrow_fee_wad, flash_loan_fee_wad: 0, host_fee_percentage },
    }
}

fn liquidity_params(market_price: u128, mint_decimals: u8) -> NewReserveLiquidityParams {
    NewReserveLiquidityParams {
        mint_pubkey: id(2),
        mint_decimals,
        supply_pubkey: id(3),
        fee_receiver: id(4),
        oracle_pubkey: id(5),
        market_price,
    }
}

fn fresh_reserve(market_price: u128, mint_decimals: u8, slot: u64) -> Reserve {
    let mut last_update = LastUpdate::new(slot);
    last_update.update_slot(slot);
    Reserve {
        version: 1,
        last_update,
        lending_market: id(1),
        liquidity: ReserveLiquidity::new(liquidity_params(market_price, mint_decimals)),
        collateral: ReserveCollateral::new(id(6), 0, id(7)),
        config: test_config(0, 0),
    }
}

fn fresh_obligation(slot: u64) -> Obligation {
    let mut obligation = Obligation {
        version: 0,
        last_update: LastUpdate::new(0),
        lending_market: id(1),
        owner: id(2),
        deposits: Vec::new(),
        borrows: Vec::new(),
        deposited_value: 0,
        borrowed_value: 0,
        allowed_borrow_value: 0,
        unhealthy_borrow_value: 0,
    };
    process_init_obligation(&mut obligation, slot, id(1), id(2));
    obligation.last_update.update_slot(slot);
    obligation
}

#[test]
fn market_owner_changes_hands() {
    let mut market = LendingMarket {
        version: 0,
        bump_seed: 0,
        owner: id(1),
        quote_currency: vec![0; 32],
        token_program_id: id(2),
        oracle_program_id: id(3),
    };
    market.init(InitLendingMarketParams {
        bump_seed: 7,
        owner: id(1),
        quote_currency: vec![1; 32],
        token_program_id: id(2),
        oracle_program_id: id(3),
    });
    assert_eq!(market.bump_seed, 7);
    process_set_lending_market_owner(&mut market, id(9));
    assert_eq!(market.owner, id(9));
}

#[test]
fn init_reserve_deposits_the_first_liquidity() {
    let mut reserve = fresh_reserve(W, 6, 0);
    let quote = vec![3u8; 32];
    let minted = process_init_reserve(
        &mut reserve,
        1_000_000,
        test_config(0, 0),
        &quote,
        &quote.clone(),
        42,
        id(1),
        liquidity_params(W, 6),
        id(6),
        id(7),
    )
    .unwrap();
    assert_eq!(minted, 1_000_000);
    assert_eq!(reserve.liquidity.available_amount, 1_000_000);
    assert_eq!(reserve.collateral.mint_total_supply, 1_000_000);
    assert!(reserve.last_update.stale);
    assert_eq!(reserve.last_update.slot, 42);
}

#[test]
fn init_reserve_rejects_bad_input() {
    let quote = vec![3u8; 32];
    let other_quote = vec![4u8; 32];
    let mut reserve = fresh_reserve(W, 6, 0);
    assert_eq!(
        process_init_reserve(
            &mut reserve, 0, test_config(0, 0), &quote, &quote.clone(), 42, id(1),
            liquidity_params(W, 6), id(6), id(7),
        ),
        Err(LendingError::InvalidAmount)
    );
    let mut bad = test_config(0, 0);
    bad.liquidation_threshold = 40;
    assert_eq!(
        process_init_reserve(
            &mut reserve, 10, bad, &quote, &quote.clone(), 42, id(1),
            liquidity_params(W, 6), id(6), id(7),
        ),
        Err(LendingError::InvalidConfig)
    );
    assert_eq!(
        process_init_reserve(
            &mut reserve, 10, test_config(0, 0), &quote, &other_quote, 42, id(1),
            liquidity_params(W, 6), id(6), id(7),
        ),
        Err(LendingError::InvalidOracleConfig)
    );
}

#[test]
fn deposits_need_a_fresh_reserve() {
    let mut reserve = fresh_reserve(W, 6, 10);
    assert_eq!(
        process_deposit_reserve_liquidity(&mut reserve, 100, 11),
        Err(LendingError::ReserveStale)
    );
    let minted = process_deposit_reserve_liquidity(&mut reserve, 100, 10).unwrap();
    assert_eq!(minted, 100);
    assert!(reserve.last_update.stale);
    // the deposit itself marked the reserve stale again
    assert_eq!(
        process_deposit_reserve_liquidity(&mut reserve, 100, 10),
        Err(LendingError::ReserveStale)
    );
}

#[test]
fn redeem_round_trips_a_deposit() {
    let mut reserve = fresh_reserve(W, 6, 10);
    process_deposit_reserve_liquidity(&mut reserve, 1_000, 10).unwrap();
    reserve.last_update.update_slot(10);
    assert_eq!(
        process_redeem_reserve_collateral(&mut reserve, 0, 10),
        Err(LendingError::InvalidAmount)
    );
    let redeemed = process_redeem_reserve_collateral(&mut reserve, 1_000, 10).unwrap();
    assert_eq!(redeemed, 1_000);
}

#[test]
fn collateral_deposits_accumulate_per_reserve() {
    let reserve = fresh_reserve(W, 6, 10);
    let mut obligation = fresh_obligation(10);
    process_deposit_obligation_collateral(&mut obligation, &reserve, 300, 10, id(77)).unwrap();
    process_deposit_obligation_collateral(&mut obligation, &reserve, 200, 10, id(77)).unwrap();
    assert_eq!(obligation.deposits.len(), 1);
    assert_eq!(obligation.deposits[0].deposited_amount, 500);
    assert!(obligation.last_update.stale);
}

#[test]
fn collateral_deposits_check_their_preconditions() {
    let mut reserve = fresh_reserve(W, 6, 10);
    let mut obligation = fresh_obligation(10);
    assert_eq!(
        process_deposit_obligation_collateral(&mut obligation, &reserve, 0, 10, id(77)),
        Err(LendingError::InvalidAmount)
    );
    assert_eq!(
        process_deposit_obligation_collateral(&mut obligation, &reserve, 10, 11, id(77)),
        Err(LendingError::ReserveStale)
    );
    reserve.config.loan_to_value_ratio = 0;
    assert_eq!(
        process_deposit_obligation_collateral(&mut obligation, &reserve, 10, 10, id(77)),
        Err(LendingError::InvalidConfig)
    );
}

#[test]
fn withdraw_without_borrows_closes_the_position() {
    let reserve = fresh_reserve(W, 6, 10);
    let mut obligation = fresh_obligation(10);
    process_deposit_obligation_collateral(&mut obligation, &reserve, 500, 10, id(77)).unwrap();
    obligation.last_update.update_slot(10);
    let amount =
        process_withdraw_obligation_collateral(&mut obligation, &reserve, u64::MAX, 10, id(77))
            .unwrap();
    assert_eq!(amount, 500);
    assert_eq!(obligation.deposits.len(), 0);
}

#[test]
fn withdraw_with_borrows_is_capped_by_position_health() {
    let reserve = fresh_reserve(W, 6, 10);
    let mut obligation = fresh_obligation(10);
    obligation.deposits.push(ObligationCollateral {
        deposit_reserve: id(77),
        deposited_amount: 800,
        market_value: 80 * W,
    });
    obligation.find_or_add_liquidity_to_borrows(id(88)).unwrap();
    obligation.deposited_value = 80 * W;
    obligation.borrowed_value = 25 * W;
    obligation.allowed_borrow_value = 50 * W;
    obligation.last_update.update_slot(10);
    // loan-to-value one half: spare capacity of 25 allows 50 of value out
    let amount =
        process_withdraw_obligation_collateral(&mut obligation, &reserve, 400, 10, id(77))
            .unwrap();
    assert_eq!(amount, 400);
    assert_eq!(obligation.deposits[0].deposited_amount, 400);
    // more than the cap is refused
    obligation.last_update.update_slot(10);
    assert_eq!(
        process_withdraw_obligation_collateral(&mut obligation, &reserve, u64::MAX, 10, id(99)),
        Err(LendingError::InvalidObligationCollateral)
    );
    obligation.borrowed_value = 50 * W;
    assert_eq!(
        process_withdraw_obligation_collateral(&mut obligation, &reserve, 400, 10, id(77)),
        Err(LendingError::WithdrawTooLarge)
    );
}

#[test]
fn withdraw_needs_a_fresh_obligation_and_a_live_entry() {
    let reserve = fresh_reserve(W, 6, 10);
    let mut obligation = fresh_obligation(10);
    process_deposit_obligation_collateral(&mut obligation, &reserve, 500, 10, id(77)).unwrap();
    // the deposit marked the obligation stale; a withdraw must refuse it
    assert_eq!(
        process_withdraw_obligation_collateral(&mut obligation, &reserve, 100, 10, id(77)),
        Err(LendingError::ObligationStale)
    );
    obligation.last_update.update_slot(10);
    // an entry whose deposit was zeroed cannot be withdrawn from
    obligation.deposits[0].deposited_amount = 0;
    assert_eq!(
        process_withdraw_obligation_collateral(&mut obligation, &reserve, 100, 10, id(77)),
        Err(LendingError::ObligationCollateralEmpty)
    );
}

#[test]
fn withdraw_of_nothing_is_too_small() {
    let reserve = fresh_reserve(W, 6, 10);
    let mut obligation = fresh_obligation(10);
    obligation.deposits.push(ObligationCollateral {
        deposit_reserve: id(77),
        deposited_amount: 800,
        market_value: 80 * W,
    });
    obligation.find_or_add_liquidity_to_borrows(id(88)).unwrap();
    obligation.deposited_value = 80 * W;
    obligation.borrowed_value = 25 * W;
    obligation.allowed_borrow_value = 50 * W;
    obligation.last_update.update_slot(10);
    assert_eq!(
        process_withdraw_obligation_collateral(&mut obligation, &reserve, 0, 10, id(77)),
        Err(LendingError::WithdrawTooSmall)
    );
}

#[test]
fn borrow_moves_liquidity_and_records_the_debt() {
    let mut reserve = fresh_reserve(W, 0, 10);
    reserve.config = test_config(10_000_000_000_000_000, 20);
    reserve.liquidity.available_amount = 1_000;
    let mut obligation = fresh_obligation(10);
    process_deposit_obligation_collateral(&mut obligation, &reserve, 500, 10, id(77)).unwrap();
    obligation.deposited_value = 1_000 * W;
    obligation.allowed_borrow_value = 500 * W;
    obligation.last_update.update_slot(10);
    let result =
        process_borrow_obligation_liquidity(&mut reserve, &mut obligation, u64::MAX, 10, id(88))
            .unwrap();
    assert_eq!(result.borrow_amount, 500 * W);
    assert_eq!(result.receive_amount, 495);
    assert_eq!(result.borrow_fee, 5);
    assert_eq!(result.host_fee, 1);
    assert_eq!(result.owner_fee, 4);
    assert_eq!(reserve.liquidity.available_amount, 500);
    assert_eq!(reserve.liquidity.borrowed_amount_wads, 500 * W);
    assert_eq!(obligation.borrows.len(), 1);
    assert_eq!(obligation.borrows[0].borrowed_amount_wads, 500 * W);
    assert!(reserve.last_update.stale);
    assert!(obligation.last_update.stale);
}

#[test]
fn borrow_checks_its_preconditions() {
    let mut reserve = fresh_reserve(W, 0, 10);
    reserve.liquidity.available_amount = 1_000;
    let mut obligation = fresh_obligation(10);
    assert_eq!(
        process_borrow_obligation_liquidity(&mut reserve, &mut obligation, 0, 10, id(88)),
        Err(LendingError::InvalidAmount)
    );
    assert_eq!(
        process_borrow_obligation_liquidity(&mut reserve, &mut obligation, 10, 10, id(88)),
        Err(LendingError::ObligatinoDepositsEmpty)
    );
    process_deposit_obligation_collateral(&mut obligation, &reserve, 500, 10, id(77)).unwrap();
    obligation.last_update.update_slot(10);
    assert_eq!(
        process_borrow_obligation_liquidity(&mut reserve, &mut obligation, 10, 10, id(88)),
        Err(LendingError::ObligationDepositsZero)
    );
    obligation.deposited_value = 1_000 * W;
    assert_eq!(
        process_borrow_obligation_liquidity(&mut reserve, &mut obligation, 10, 10, id(88)),
        Err(LendingError::BorrowTooLarge)
    );
}

#[test]
fn repay_returns_liquidity_and_settles_the_debt() {
    let mut reserve = fresh_reserve(W, 0, 10);
    reserve.liquidity.available_amount = 500;
    reserve.liquidity.borrowed_amount_wads = 500 * W;
    let mut obligation = fresh_obligation(10);
    obligation.find_or_add_liquidity_to_borrows(id(88)).unwrap();
    let entry = obligation.borrows[0];
    obligation.borrows[0] = lending_anchor::obligation_liquidity::ObligationLiquidity {
        borrowed_amount_wads: 500 * W,
        ..entry
    };
    obligation.last_update.update_slot(10);
    // a partial request settles its WAD-scaled amount, rounded up to one
    // whole unit for the transfer
    let repay_amount =
        process_repay_obligation_liquidity(&mut reserve, &mut obligation, 200, 10, id(88))
            .unwrap();
    assert_eq!(repay_amount, 1);
    assert_eq!(reserve.liquidity.available_amount, 501);
    assert_eq!(reserve.liquidity.borrowed_amount_wads, 500 * W - 200);
    assert_eq!(obligation.borrows[0].borrowed_amount_wads, 500 * W - 200);
    // the sentinel settles everything and removes the entry
    reserve.last_update.update_slot(10);
    obligation.last_update.update_slot(10);
    let repay_amount =
        process_repay_obligation_liquidity(&mut reserve, &mut obligation, u64::MAX, 10, id(88))
            .unwrap();
    assert_eq!(repay_amount, 500);
    assert_eq!(obligation.borrows.len(), 0);
    assert_eq!(reserve.liquidity.borrowed_amount_wads, 0);
}

#[test]
fn repay_checks_its_preconditions() {
    let mut reserve = fresh_reserve(W, 0, 10);
    let mut obligation = fresh_obligation(10);
    assert_eq!(
        process_repay_obligation_liquidity(&mut reserve, &mut obligation, 0, 10, id(88)),
        Err(LendingError::InvalidAmount)
    );
    assert_eq!(
        process_repay_obligation_liquidity(&mut reserve, &mut obligation, 10, 10, id(88)),
        Err(LendingError::ObligationLiquidityEmpty)
    );
    assert_eq!(
        process_repay_obligation_liquidity(&mut reserve, &mut obligation, 10, 11, id(88)),
        Err(LendingError::ReserveStale)
    );
}

#[test]
fn obligations_start_out_stale_and_empty() {
    let mut obligation = fresh_obligation(10);
    process_init_obligation(&mut obligation, 33, id(5), id(6));
    assert!(obligation.last_update.stale);
    assert_eq!(obligation.last_update.slot, 33);
    assert_eq!(obligation.owner, id(6));
    assert_eq!(obligation.deposits.len(), 0);
    assert_eq!(obligation.borrows.len(), 0);
}
