use lending_anchor::errors::LendingError;
use lending_anchor::ids::AccountId;
use lending_anchor::last_update::LastUpdate;
use lending_anchor::math::WAD;
use lending_anchor::obligation::Obligation;
use lending_anchor::obligation_collateral::ObligationCollateral;
use lending_anchor::obligation_liquidity::ObligationLiquidity;
use lending_anchor::rate::Rate;

const W: u128 = WAD as u128;

fn id(n: u128) -> AccountId {
    AccountId::new(0, n)
}

fn empty_obligation() -> Obligation {
    Obligation {
        version: 1,
        last_update: LastUpdate::new(0),
        lending_market: id(1),
        owner: id(2),
        deposits: Vec::new(),
        borrows: Vec::new(),
        deposited_value: 0,
        borrowed_value: 0,
        allowed_borrow_value: 0,
        unhealthy_borrow_value: 0,
    }
}

#[test]
fn withdrawing_the_whole_deposit_removes_the_entry() {
    let mut obligation = empty_obligation();
    obligation.deposits.push(ObligationCollateral {
        deposit_reserve: id(10),
        deposited_amount: 500,
        market_value: 0,
    });
    obligation.withdraw(500, 0).unwrap();
    assert_eq!(obligation.deposits.len(), 0);
}

#[test]
fn withdrawing_less_leaves_a_reduced_entry() {
    let mut obligation = empty_obligation();
    obligation.deposits.push(ObligationCollateral {
        deposit_reserve: id(10),
        deposited_amount: 500,
        market_value: 0,
    });
    obligation.withdraw(499, 0).unwrap();
    assert_eq!(obligation.deposits.len(), 1);
    assert_eq!(obligation.deposits[0].deposited_amount, 1);
    assert_eq!(
        obligation.withdraw(2, 0),
        Err(LendingError::MathOverflow)
    );
    assert_eq!(obligation.deposits[0].deposited_amount, 1);
}

#[test]
fn repaying_the_whole_debt_removes_the_entry() {
    let mut obligation = empty_obligation();
    obligation.borrows.push(ObligationLiquidity {
        borrow_reserve: id(10),
        cumulative_borrow_rate_wads: 1,
        borrowed_amount_wads: 7 * W,
        market_value: 0,
    });
    obligation.repay(3 * W, 0).unwrap();
    assert_eq!(obligation.borrows[0].borrowed_amount_wads, 4 * W);
    obligation.repay(4 * W, 0).unwrap();
    assert_eq!(obligation.borrows.len(), 0);
}

#[test]
fn find_or_add_reuses_the_entry_for_a_reserve() {
    let mut obligation = empty_obligation();
    let first = obligation.find_or_add_collateral_to_deposits(id(10)).unwrap();
    let again = obligation.find_or_add_collateral_to_deposits(id(10)).unwrap();
    assert_eq!(first, 0);
    assert_eq!(again, 0);
    assert_eq!(obligation.deposits.len(), 1);
    let other = obligation.find_or_add_collateral_to_deposits(id(11)).unwrap();
    assert_eq!(other, 1);
}

#[test]
fn ten_reserve_slots_is_the_limit() {
    let mut obligation = empty_obligation();
    for n in 0..6 {
        obligation.find_or_add_collateral_to_deposits(id(100 + n)).unwrap();
    }
    for n in 0..4 {
        obligation.find_or_add_liquidity_to_borrows(id(200 + n)).unwrap();
    }
    assert_eq!(
        obligation.find_or_add_collateral_to_deposits(id(300)),
        Err(LendingError::ObligationReserveLimit)
    );
    assert_eq!(
        obligation.find_or_add_liquidity_to_borrows(id(301)),
        Err(LendingError::ObligationReserveLimit)
    );
    // a reserve already present is still found
    assert_eq!(obligation.find_or_add_collateral_to_deposits(id(100)), Ok(0));
}

#[test]
fn lookup_errors_name_the_missing_piece() {
    let mut obligation = empty_obligation();
    assert_eq!(
        obligation.find_collateral_index_in_deposits(id(10)),
        Err(LendingError::ObligatinoDepositsEmpty)
    );
    obligation.find_or_add_collateral_to_deposits(id(10)).unwrap();
    assert_eq!(
        obligation.find_collateral_index_in_deposits(id(11)),
        Err(LendingError::InvalidObligationCollateral)
    );
    assert_eq!(obligation.find_collateral_index_in_deposits(id(10)), Ok(0));
    assert_eq!(
        obligation.find_liquidity_index_in_borrows(id(10)),
        Err(LendingError::ObligationLiquidityEmpty)
    );
}

#[test]
fn max_withdraw_value_follows_the_spare_capacity() {
    let mut obligation = empty_obligation();
    obligation.deposited_value = 100 * W;
    obligation.allowed_borrow_value = 50 * W;
    obligation.borrowed_value = 50 * W;
    // at capacity: nothing may leave
    assert_eq!(obligation.max_withdraw_value(Rate::from_percent(50)), Ok(0));
    obligation.borrowed_value = 25 * W;
    // spare 25 at a loan-to-value of one half: 50 of value may leave
    assert_eq!(obligation.max_withdraw_value(Rate::from_percent(50)), Ok(50 * W));
    // collateral that cannot back a loan may leave entirely
    assert_eq!(obligation.max_withdraw_value(Rate::zero()), Ok(100 * W));
}

#[test]
fn remaining_borrow_value_is_the_spare_capacity() {
    let mut obligation = empty_obligation();
    obligation.allowed_borrow_value = 50 * W;
    obligation.borrowed_value = 20 * W;
    assert_eq!(obligation.remaining_borrow_value(), Ok(30 * W));
    obligation.borrowed_value = 51 * W;
    assert_eq!(obligation.remaining_borrow_value(), Err(LendingError::MathOverflow));
}
