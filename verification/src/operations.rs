use vstd::prelude::*;
use vstd::arithmetic::div_mod::lemma_div_by_multiple;
use vstd::arithmetic::mul::lemma_mul_is_commutative;
use crate::collateral_exchange_rate::spec_liquidity_to_collateral;
use crate::errors::LendingError;
use crate::ids::AccountId;
use crate::lending_market::{bytes_equal, LendingMarket};
use crate::math::WAD;
use crate::obligation::{InitObligationParams, Obligation};
use crate::rate::Rate;
use crate::reserve::{InitReserveParams, Reserve};
use crate::reserve_collateral::ReserveCollateral;
use crate::reserve_config::{spec_config_valid, ReserveConfig};
use crate::reserve_liquidity::{NewReserveLiquidityParams, ReserveLiquidity};

verus! {

/// Hands the lending market to a new owner. The identity checks guarding
/// this operation run in the surrounding layer.
pub fn process_set_lending_market_owner(lending_market: &mut LendingMarket, new_owner: AccountId)
    ensures
        final(lending_market).owner == new_owner,
        final(lending_market).version == old(lending_market).version,
        final(lending_market).bump_seed == old(lending_market).bump_seed,
        final(lending_market).quote_currency@ == old(lending_market).quote_currency@,
        final(lending_market).token_program_id == old(lending_market).token_program_id,
        final(lending_market).oracle_program_id == old(lending_market).oracle_program_id,
{
    lending_market.owner = new_owner;
}

/// Initializes an empty obligation for `owner` in `lending_market`; it
/// starts out stale and holds no positions.
pub fn process_init_obligation(
    obligation: &mut Obligation,
    current_slot: u64,
    lending_market: AccountId,
    owner: AccountId,
)
    ensures
        final(obligation).version == crate::constants::PROGRAM_VERSION,
        final(obligation).last_update.slot == current_slot,
        final(obligation).last_update.stale,
        final(obligation).lending_market == lending_market,
        final(obligation).owner == owner,
        final(obligation).deposits@.len() == 0,
        final(obligation).borrows@.len() == 0,
        final(obligation).deposited_value == old(obligation).deposited_value,
        final(obligation).borrowed_value == old(obligation).borrowed_value,
        final(obligation).allowed_borrow_value == old(obligation).allowed_borrow_value,
        final(obligation).unhealthy_borrow_value == old(obligation).unhealthy_borrow_value,
{
    let deposits: Vec<crate::obligation_collateral::ObligationCollateral> = Vec::new();
    let borrows: Vec<crate::obligation_liquidity::ObligationLiquidity> = Vec::new();
    obligation.init(InitObligationParams { current_slot, lending_market, owner, deposits, borrows });
}

/// Deposits liquidity into a reserve and reports the collateral to mint in
/// exchange. Succeeds exactly when the reserve is fresh and the deposit
/// arithmetic fits; on success the reserve is marked stale again. Fails,
/// changing nothing, with `ReserveStale` when the reserve is stale, and
/// with `MathOverflow` when the staleness check or the deposit arithmetic
/// overflows.
pub fn process_deposit_reserve_liquidity(
    reserve: &mut Reserve,
    liquidity_amount: u64,
    current_slot: u64,
) -> (r: Result<u64, LendingError>)
    ensures
        r is Ok <==> !old(reserve).last_update.spec_is_stale(current_slot) && old(
            reserve,
        ).spec_deposit_ok(liquidity_amount),
        match r {
            Ok(collateral_amount) => {
                &&& !old(reserve).last_update.spec_is_stale(current_slot)
                &&& old(reserve).spec_deposit_ok(liquidity_amount)
                &&& collateral_amount == spec_liquidity_to_collateral(
                    old(reserve).spec_rate_raw(),
                    liquidity_amount as int,
                )
                &&& *final(reserve) == (Reserve {
                    liquidity: (crate::reserve_liquidity::ReserveLiquidity {
                        available_amount: (old(reserve).liquidity.available_amount
                            + liquidity_amount) as u64,
                        ..old(reserve).liquidity
                    }),
                    collateral: (ReserveCollateral {
                        mint_total_supply: (old(reserve).collateral.mint_total_supply
                            + collateral_amount) as u64,
                        ..old(reserve).collateral
                    }),
                    last_update: (crate::last_update::LastUpdate {
                        stale: true,
                        ..old(reserve).last_update
                    }),
                    ..*old(reserve)
                })
            },
            Err(e) => {
                &&& *final(reserve) == *old(reserve)
                &&& e == (if !old(reserve).last_update.stale && current_slot < old(reserve).last_update.slot {
                    LendingError::MathOverflow
                } else if old(reserve).last_update.spec_is_stale(current_slot) {
                    LendingError::ReserveStale
                } else {
                    LendingError::MathOverflow
                })
            },
        },
{
    match reserve.last_update.is_stale(current_slot) {
        Ok(stale) => {
            if stale {
                return Err(LendingError::ReserveStale);
            }
        },
        Err(e) => {
            return Err(e);
        },
    }
    let collateral_amount = match reserve.deposit_liquidity(liquidity_amount) {
        Ok(c) => c,
        Err(e) => {
            return Err(e);
        },
    };
    reserve.last_update.mark_stale();
    Ok(collateral_amount)
}

/// Redeems collateral from a reserve and reports the liquidity to release.
/// Succeeds exactly when the request is non-zero, the reserve is fresh and
/// the redemption arithmetic fits; on success the reserve is marked stale
/// again. Fails, changing nothing, with `InvalidAmount` on a zero request,
/// `ReserveStale` on a stale reserve, `InsufficientLiquidity` when the pool
/// cannot cover the redemption, and `MathOverflow` on arithmetic overflow.
pub fn process_redeem_reserve_collateral(
    reserve: &mut Reserve,
    collateral_amount: u64,
    current_slot: u64,
) -> (r: Result<u64, LendingError>)
    ensures
        r is Ok <==> collateral_amount != 0 && !old(reserve).last_update.spec_is_stale(
            current_slot,
        ) && old(reserve).spec_redeem_ok(collateral_amount),
        match r {
            Ok(liquidity_amount) => {
                &&& collateral_amount != 0
                &&& !old(reserve).last_update.spec_is_stale(current_slot)
                &&& old(reserve).spec_redeem_ok(collateral_amount)
                &&& liquidity_amount == crate::collateral_exchange_rate::spec_collateral_to_liquidity(
                    old(reserve).spec_rate_raw(),
                    collateral_amount as int,
                )
                &&& *final(reserve) == (Reserve {
                    liquidity: (crate::reserve_liquidity::ReserveLiquidity {
                        available_amount: (old(reserve).liquidity.available_amount
                            - liquidity_amount) as u64,
                        ..old(reserve).liquidity
                    }),
                    collateral: (ReserveCollateral {
                        mint_total_supply: (old(reserve).collateral.mint_total_supply
                            - collateral_amount) as u64,
                        ..old(reserve).collateral
                    }),
                    last_update: (crate::last_update::LastUpdate {
                        stale: true,
                        ..old(reserve).last_update
                    }),
                    ..*old(reserve)
                })
            },
            Err(e) => {
                &&& *final(reserve) == *old(reserve)
                &&& e == (if collateral_amount == 0 {
                    LendingError::InvalidAmount
                } else if !old(reserve).last_update.stale && current_slot < old(reserve).last_update.slot {
                    LendingError::MathOverflow
                } else if old(reserve).last_update.spec_is_stale(current_slot) {
                    LendingError::ReserveStale
                } else if old(reserve).spec_rate_ok() && old(reserve).spec_rate_raw() > 0
                    && crate::collateral_exchange_rate::spec_collateral_to_liquidity(
                    old(reserve).spec_rate_raw(),
                    collateral_amount as int,
                ) <= u64::MAX && collateral_amount <= old(reserve).collateral.mint_total_supply {
                    LendingError::InsufficientLiquidity
                } else {
                    LendingError::MathOverflow
                })
            },
        },
{
    if collateral_amount == 0 {
        return Err(LendingError::InvalidAmount);
    }
    match reserve.last_update.is_stale(current_slot) {
        Ok(stale) => {
            if stale {
                return Err(LendingError::ReserveStale);
            }
        },
        Err(e) => {
            return Err(e);
        },
    }
    let liquidity_amount = match reserve.redeem_collateral(collateral_amount) {
        Ok(l) => l,
        Err(e) => {
            return Err(e);
        },
    };
    reserve.last_update.mark_stale();
    Ok(liquidity_amount)
}

/// Initializes a reserve and deposits its first liquidity. The
/// configuration must be valid and the oracle's quote currency must match
/// the market's; the initial deposit mints collateral one to one. Fails,
/// changing nothing, with `InvalidAmount` on a zero deposit,
/// `InvalidConfig` on a bad configuration, and `InvalidOracleConfig` on a
/// quote currency mismatch.
pub fn process_init_reserve(
    reserve: &mut Reserve,
    liquidity_amount: u64,
    config: ReserveConfig,
    market_quote_currency: &Vec<u8>,
    product_quote_currency: &Vec<u8>,
    current_slot: u64,
    lending_market: AccountId,
    liquidity_params: NewReserveLiquidityParams,
    collateral_mint_pubkey: AccountId,
    collateral_supply_pubkey: AccountId,
) -> (r: Result<u64, LendingError>)
    ensures
        r is Ok <==> liquidity_amount != 0 && spec_config_valid(config) && market_quote_currency@
            == product_quote_currency@,
        match r {
            Ok(collateral_amount) => {
                &&& collateral_amount == liquidity_amount
                &&& final(reserve).version == crate::constants::PROGRAM_VERSION
                &&& final(reserve).last_update.slot == current_slot
                &&& final(reserve).last_update.stale
                &&& final(reserve).lending_market == lending_market
                &&& final(reserve).liquidity.available_amount == liquidity_amount
                &&& final(reserve).liquidity.borrowed_amount_wads == 0
                &&& final(reserve).liquidity.cumulative_borrow_rate_wads == WAD
                &&& final(reserve).liquidity.market_price == liquidity_params.market_price
                &&& final(reserve).liquidity.mint_decimals == liquidity_params.mint_decimals
                &&& final(reserve).liquidity.mint_pubkey == liquidity_params.mint_pubkey
                &&& final(reserve).liquidity.supply_pubkey == liquidity_params.supply_pubkey
                &&& final(reserve).liquidity.fee_receiver == liquidity_params.fee_receiver
                &&& final(reserve).liquidity.oracle_pubkey == liquidity_params.oracle_pubkey
                &&& final(reserve).collateral.mint_total_supply == liquidity_amount
                &&& final(reserve).collateral.mint_pubkey == collateral_mint_pubkey
                &&& final(reserve).collateral.supply_pubkey == collateral_supply_pubkey
                &&& final(reserve).config == config
            },
            Err(e) => {
                &&& *final(reserve) == *old(reserve)
                &&& e == (if liquidity_amount == 0 {
                    LendingError::InvalidAmount
                } else if !spec_config_valid(config) {
                    LendingError::InvalidConfig
                } else {
                    LendingError::InvalidOracleConfig
                })
            },
        },
{
    if liquidity_amount == 0 {
        return Err(LendingError::InvalidAmount);
    }
    match config.validate() {
        Ok(()) => (),
        Err(e) => {
            return Err(e);
        },
    }
    if !bytes_equal(market_quote_currency, product_quote_currency) {
        return Err(LendingError::InvalidOracleConfig);
    }
    let liquidity = ReserveLiquidity::new(liquidity_params);
    let collateral = ReserveCollateral::new(collateral_mint_pubkey, 0, collateral_supply_pubkey);
    reserve.init(InitReserveParams { current_slot, lending_market, liquidity, collateral, config });
    let collateral_amount = match reserve.deposit_liquidity(liquidity_amount) {
        Ok(c) => c,
        Err(e) => {
            return Err(e);
        },
    };
    proof {
        lemma_div_by_multiple(liquidity_amount as int, WAD as int);
        lemma_mul_is_commutative(liquidity_amount as int, WAD as int);
    }
    Ok(collateral_amount)
}

/// Whether a collateral deposit on an obligation succeeds: the deposit
/// reserve is fresh and usable as collateral, the amount is non-zero, and
/// either the entry already held against the reserve can absorb the amount
/// or a reserve slot is free for a new entry.
pub open spec fn spec_deposit_collateral_ok(
    prev: Obligation,
    reserve: Reserve,
    amount: u64,
    slot: u64,
    id: AccountId,
) -> bool {
    &&& !reserve.last_update.spec_is_stale(slot)
    &&& reserve.config.loan_to_value_ratio != 0
    &&& amount != 0
    &&& if prev.spec_has_collateral_for(id) {
        exists|i: int|
            #[trigger] prev.spec_is_first_collateral_match(id, i)
                && prev.deposits@[i].deposited_amount + amount <= u64::MAX
    } else {
        prev.deposits@.len() + prev.borrows@.len() < crate::constants::MAX_OBLIGATION_RESERVE
    }
}

/// Records a collateral deposit on an obligation: the entry for the reserve
/// is found or created and the deposited amount added to it, and the
/// obligation is marked stale. Succeeds exactly when
/// `spec_deposit_collateral_ok` holds. Fails, changing nothing, with
/// `ReserveStale`, `InvalidConfig` on an unusable reserve, `InvalidAmount`
/// on a zero deposit, `ObligationReserveLimit` when a new entry is needed
/// but no slot is free, and `MathOverflow` on arithmetic overflow.
pub fn process_deposit_obligation_collateral(
    obligation: &mut Obligation,
    deposit_reserve: &Reserve,
    collateral_amount: u64,
    current_slot: u64,
    deposit_reserve_id: AccountId,
) -> (r: Result<(), LendingError>)
    ensures
        r is Ok <==> spec_deposit_collateral_ok(
            *old(obligation),
            *deposit_reserve,
            collateral_amount,
            current_slot,
            deposit_reserve_id,
        ),
        match r {
            Ok(()) => {
                &&& !deposit_reserve.last_update.spec_is_stale(current_slot)
                &&& deposit_reserve.config.loan_to_value_ratio != 0
                &&& collateral_amount != 0
                &&& final(obligation).last_update.stale
                &&& final(obligation).last_update.slot == old(obligation).last_update.slot
                &&& final(obligation).borrows@ == old(obligation).borrows@
                &&& final(obligation).version == old(obligation).version
                &&& final(obligation).lending_market == old(obligation).lending_market
                &&& final(obligation).owner == old(obligation).owner
                &&& final(obligation).deposited_value == old(obligation).deposited_value
                &&& final(obligation).borrowed_value == old(obligation).borrowed_value
                &&& final(obligation).allowed_borrow_value == old(obligation).allowed_borrow_value
                &&& final(obligation).unhealthy_borrow_value == old(obligation).unhealthy_borrow_value
                &&& if old(obligation).spec_has_collateral_for(deposit_reserve_id) {
                    exists|i: int|
                        old(obligation).spec_is_first_collateral_match(deposit_reserve_id, i) && old(obligation).deposits@[i].deposited_amount + collateral_amount <= u64::MAX && final(obligation).deposits@ == old(obligation).deposits@.update(
                            i,
                            (crate::obligation_collateral::ObligationCollateral {
                                deposited_amount: (old(obligation).deposits@[i].deposited_amount
                                    + collateral_amount) as u64,
                                ..old(obligation).deposits@[i]
                            }),
                        )
                } else {
                    old(obligation).deposits@.len() + old(obligation).borrows@.len()
                        < crate::constants::MAX_OBLIGATION_RESERVE && final(obligation).deposits@
                        == old(obligation).deposits@.push(
                        (crate::obligation_collateral::ObligationCollateral {
                            deposit_reserve: deposit_reserve_id,
                            deposited_amount: collateral_amount,
                            market_value: 0,
                        }),
                    )
                }
            },
            Err(e) => {
                &&& final(obligation).spec_same_state(old(obligation))
                &&& e == (if !deposit_reserve.last_update.stale && current_slot < deposit_reserve.last_update.slot {
                    LendingError::MathOverflow
                } else if deposit_reserve.last_update.spec_is_stale(current_slot) {
                    LendingError::ReserveStale
                } else if deposit_reserve.config.loan_to_value_ratio == 0 {
                    LendingError::InvalidConfig
                } else if collateral_amount == 0 {
                    LendingError::InvalidAmount
                } else if !old(obligation).spec_has_collateral_for(deposit_reserve_id) && old(obligation).deposits@.len() + old(obligation).borrows@.len()
                    >= crate::constants::MAX_OBLIGATION_RESERVE {
                    LendingError::ObligationReserveLimit
                } else {
                    LendingError::MathOverflow
                })
            },
        },
{
    match deposit_reserve.last_update.is_stale(current_slot) {
        Ok(stale) => {
            if stale {
                return Err(LendingError::ReserveStale);
            }
        },
        Err(e) => {
            return Err(e);
        },
    }
    if deposit_reserve.config.loan_to_value_ratio == 0 {
        return Err(LendingError::InvalidConfig);
    }
    if collateral_amount == 0 {
        return Err(LendingError::InvalidAmount);
    }
    let index = match obligation.find_or_add_collateral_to_deposits(deposit_reserve_id) {
        Ok(i) => i,
        Err(e) => {
            return Err(e);
        },
    };
    let entry = obligation.deposits[index];
    let new_amount = match entry.deposited_amount.checked_add(collateral_amount) {
        Some(n) => n,
        None => {
            proof {
                assert forall|i: int|
                    old(obligation).spec_is_first_collateral_match(
                        deposit_reserve_id,
                        i,
                    ) implies old(obligation).deposits@[i].deposited_amount + collateral_amount
                    > u64::MAX by {
                    if i < index as int {
                        assert(old(obligation).deposits@[i].deposit_reserve != deposit_reserve_id);
                    }
                    if i > index as int {
                        assert(old(obligation).deposits@[index as int].deposit_reserve
                            != deposit_reserve_id);
                    }
                }
            }
            return Err(LendingError::MathOverflow);
        },
    };
    let updated = crate::obligation_collateral::ObligationCollateral {
        deposited_amount: new_amount,
        ..entry
    };
    obligation.deposits.set(index, updated);
    obligation.last_update.mark_stale();
    proof {
        if !old(obligation).spec_has_collateral_for(deposit_reserve_id) {
            assert(obligation.deposits@ =~= old(obligation).deposits@.push(
                crate::obligation_collateral::ObligationCollateral {
                    deposit_reserve: deposit_reserve_id,
                    deposited_amount: collateral_amount,
                    market_value: 0,
                },
            ));
        }
    }
    Ok(())
}

/// The withdraw amount an obligation-collateral withdrawal derives, or the
/// error it reports, given the first matching entry at `i` (which must hold
/// a non-zero deposit) and the withdraw reserve's WAD-scaled loan-to-value
/// rate. With no borrows outstanding the request is served outright, capped
/// by the deposit (the sentinel u64::MAX requests all of it). Otherwise the
/// request is capped by the position's maximum withdraw value, pro-rata to
/// the entry's market value, re-checking the computed value against the cap:
/// a zero result is `WithdrawTooSmall`, exceeding the cap is
/// `WithdrawTooLarge`, and overflow is `MathOverflow`.
pub open spec fn spec_withdraw_amount(
    ob: Obligation,
    i: int,
    requested: u64,
    ltv_raw: int,
) -> Result<int, LendingError> {
    let dep = ob.deposits@[i].deposited_amount as int;
    let mv = ob.deposits@[i].market_value as int;
    if ob.borrows@.len() == 0 {
        Ok(
            if requested == u64::MAX {
                dep
            } else if requested <= dep {
                requested as int
            } else {
                dep
            },
        )
    } else if ob.deposited_value == 0 {
        Err(LendingError::ObligationDepositsZero)
    } else if ob.borrowed_value < ob.allowed_borrow_value && ltv_raw != 0 && (
    ob.allowed_borrow_value - ob.borrowed_value) * (WAD as int) > u128::MAX {
        Err(LendingError::MathOverflow)
    } else {
        let mwv = ob.spec_max_withdraw_value(ltv_raw);
        if mwv == 0 {
            Err(LendingError::WithdrawTooLarge)
        } else if requested == u64::MAX {
            let wv = if mwv <= mv {
                mwv
            } else {
                mv
            };
            if mv == 0 {
                Err(LendingError::MathOverflow)
            } else if wv * (WAD as int) > u128::MAX {
                Err(LendingError::MathOverflow)
            } else if (wv * (WAD as int) / mv) * dep > u128::MAX {
                Err(LendingError::MathOverflow)
            } else {
                let amt = if crate::math::floor_wad((wv * (WAD as int) / mv) * dep) <= dep {
                    crate::math::floor_wad((wv * (WAD as int) / mv) * dep)
                } else {
                    dep
                };
                if amt == 0 {
                    Err(LendingError::WithdrawTooSmall)
                } else {
                    Ok(amt)
                }
            }
        } else {
            let wa = if requested <= dep {
                requested as int
            } else {
                dep
            };
            let pct = wa * (WAD as int) / dep;
            if mv * pct > u128::MAX {
                Err(LendingError::MathOverflow)
            } else if mv * pct / (WAD as int) > mwv {
                Err(LendingError::WithdrawTooLarge)
            } else if wa == 0 {
                Err(LendingError::WithdrawTooSmall)
            } else {
                Ok(wa)
            }
        }
    }
}

/// That a withdrawal of `wa` was applied at the first matching entry `i`:
/// the derivation returned `wa`, and the entry was removed when emptied,
/// else reduced by `wa`.
pub open spec fn spec_withdraw_applied(
    prev: Obligation,
    post: Obligation,
    i: int,
    requested: u64,
    ltv_raw: int,
    id: AccountId,
    wa: u64,
) -> bool {
    &&& prev.spec_is_first_collateral_match(id, i)
    &&& prev.deposits@[i].deposited_amount != 0
    &&& spec_withdraw_amount(prev, i, requested, ltv_raw) == Ok::<int, LendingError>(wa as int)
    &&& if wa == prev.deposits@[i].deposited_amount {
        post.deposits@ == prev.deposits@.remove(i)
    } else {
        post.deposits@ == prev.deposits@.update(
            i,
            (crate::obligation_collateral::ObligationCollateral {
                deposited_amount: (prev.deposits@[i].deposited_amount - wa) as u64,
                ..prev.deposits@[i]
            }),
        )
    }
}

/// The withdrawal error at the first entry matching the given reserve.
pub open spec fn spec_withdraw_error_at_first(
    ob: Obligation,
    requested: u64,
    ltv_raw: int,
    id: AccountId,
) -> LendingError {
    let i = choose|i: int| ob.spec_is_first_collateral_match(id, i);
    spec_withdraw_error_at(ob, i, requested, ltv_raw)
}

/// The error a withdrawal reports once the first matching entry at `i` is
/// known: an empty entry, else whatever the amount derivation reports.
pub open spec fn spec_withdraw_error_at(
    ob: Obligation,
    i: int,
    requested: u64,
    ltv_raw: int,
) -> LendingError {
    if ob.deposits@[i].deposited_amount == 0 {
        LendingError::ObligationCollateralEmpty
    } else {
        match spec_withdraw_amount(ob, i, requested, ltv_raw) {
            Ok(_) => LendingError::MathOverflow,
            Err(e) => e,
        }
    }
}

/// The full successful outcome of a collateral withdrawal: both records
/// were fresh, the derived amount was applied at the first matching entry,
/// the obligation was marked stale, and nothing else changed.
pub open spec fn spec_withdraw_outcome_ok(
    prev: Obligation,
    post: Obligation,
    reserve: Reserve,
    requested: u64,
    slot: u64,
    id: AccountId,
    wa: u64,
) -> bool {
    &&& !reserve.last_update.spec_is_stale(slot)
    &&& !prev.last_update.spec_is_stale(slot)
    &&& (exists|i: int|
        #[trigger] spec_withdraw_applied(
            prev,
            post,
            i,
            requested,
            reserve.config.loan_to_value_ratio * crate::math::PERCENT_SCALER,
            id,
            wa,
        ))
    &&& post.borrows@ == prev.borrows@
    &&& post.last_update.stale
    &&& post.last_update.slot == prev.last_update.slot
    &&& post.version == prev.version
    &&& post.lending_market == prev.lending_market
    &&& post.owner == prev.owner
    &&& post.deposited_value == prev.deposited_value
    &&& post.borrowed_value == prev.borrowed_value
    &&& post.allowed_borrow_value == prev.allowed_borrow_value
    &&& post.unhealthy_borrow_value == prev.unhealthy_borrow_value
}

/// Whether a collateral withdrawal succeeds: both records are fresh, the
/// obligation holds a non-empty collateral entry against the withdraw
/// reserve, and the amount derivation returns an amount.
pub open spec fn spec_withdraw_ok(
    prev: Obligation,
    reserve: Reserve,
    requested: u64,
    slot: u64,
    id: AccountId,
) -> bool {
    let i = choose|i: int| prev.spec_is_first_collateral_match(id, i);
    &&& !reserve.last_update.spec_is_stale(slot)
    &&& !prev.last_update.spec_is_stale(slot)
    &&& prev.spec_is_first_collateral_match(id, i)
    &&& prev.deposits@[i].deposited_amount != 0
    &&& spec_withdraw_amount(
        prev,
        i,
        requested,
        reserve.config.loan_to_value_ratio * crate::math::PERCENT_SCALER,
    ) is Ok
}

/// The error a collateral withdrawal reports, in check order: staleness of
/// the reserve and the obligation, entry lookup, then the amount derivation.
pub open spec fn spec_withdraw_full_error(
    prev: Obligation,
    reserve: Reserve,
    requested: u64,
    slot: u64,
    id: AccountId,
) -> LendingError {
    if !reserve.last_update.stale && slot < reserve.last_update.slot {
        LendingError::MathOverflow
    } else if reserve.last_update.spec_is_stale(slot) {
        LendingError::ReserveStale
    } else if !prev.last_update.stale && slot < prev.last_update.slot {
        LendingError::MathOverflow
    } else if prev.last_update.spec_is_stale(slot) {
        LendingError::ObligationStale
    } else if prev.deposits@.len() == 0 {
        LendingError::ObligatinoDepositsEmpty
    } else if !prev.spec_has_collateral_for(id) {
        LendingError::InvalidObligationCollateral
    } else {
        spec_withdraw_error_at_first(
            prev,
            requested,
            reserve.config.loan_to_value_ratio * crate::math::PERCENT_SCALER,
            id,
        )
    }
}

/// Withdraws collateral from an obligation against a reserve: derives the
/// withdrawable amount per `spec_withdraw_amount` and takes it out of the
/// matching entry, which is removed outright when the whole deposited
/// amount is withdrawn. The obligation is marked stale. Succeeds exactly
/// when `spec_withdraw_ok` holds. Fails, changing nothing, with the
/// staleness, lookup and derivation errors of `spec_withdraw_full_error`.
#[verifier::rlimit(100)]
pub fn process_withdraw_obligation_collateral(
    obligation: &mut Obligation,
    withdraw_reserve: &Reserve,
    collateral_amount: u64,
    current_slot: u64,
    withdraw_reserve_id: AccountId,
) -> (r: Result<u64, LendingError>)
    ensures
        r is Ok <==> spec_withdraw_ok(
            *old(obligation),
            *withdraw_reserve,
            collateral_amount,
            current_slot,
            withdraw_reserve_id,
        ),
        match r {
            Ok(withdraw_amount) => spec_withdraw_outcome_ok(
                *old(obligation),
                *final(obligation),
                *withdraw_reserve,
                collateral_amount,
                current_slot,
                withdraw_reserve_id,
                withdraw_amount,
            ),
            Err(e) => final(obligation).spec_same_state(old(obligation)) && e
                == spec_withdraw_full_error(
                *old(obligation),
                *withdraw_reserve,
                collateral_amount,
                current_slot,
                withdraw_reserve_id,
            ),
        },
{
    match withdraw_reserve.last_update.is_stale(current_slot) {
        Ok(stale) => {
            if stale {
                return Err(LendingError::ReserveStale);
            }
        },
        Err(e) => {
            return Err(e);
        },
    }
    match obligation.last_update.is_stale(current_slot) {
        Ok(stale) => {
            if stale {
                return Err(LendingError::ObligationStale);
            }
        },
        Err(e) => {
            return Err(e);
        },
    }
    let index = match obligation.find_collateral_index_in_deposits(withdraw_reserve_id) {
        Ok(i) => i,
        Err(e) => {
            return Err(e);
        },
    };
    let entry = obligation.deposits[index];
    proof {
        assert(obligation.spec_is_first_collateral_match(withdraw_reserve_id, index as int));
        let i0 = choose|i: int|
            old(obligation).spec_is_first_collateral_match(withdraw_reserve_id, i);
        assert(old(obligation).spec_is_first_collateral_match(withdraw_reserve_id, i0));
        if i0 < index as int {
            assert(old(obligation).deposits@[i0].deposit_reserve != withdraw_reserve_id);
        }
        if i0 > index as int {
            assert(old(obligation).deposits@[index as int].deposit_reserve != withdraw_reserve_id);
        }
        assert(i0 == index as int);
    }
    if entry.deposited_amount == 0 {
        return Err(LendingError::ObligationCollateralEmpty);
    }
    let ghost ltvr = withdraw_reserve.config.loan_to_value_ratio * crate::math::PERCENT_SCALER;
    let withdraw_amount: u64;
    if obligation.borrows.len() == 0 {
        withdraw_amount = if collateral_amount == u64::MAX {
            entry.deposited_amount
        } else if collateral_amount <= entry.deposited_amount {
            collateral_amount
        } else {
            entry.deposited_amount
        };
        proof {
            assert(spec_withdraw_amount(*old(obligation), index as int, collateral_amount, ltvr)
                == Ok::<int, LendingError>(withdraw_amount as int));
        }
    } else if obligation.deposited_value == 0 {
        return Err(LendingError::ObligationDepositsZero);
    } else {
        let ltv = Rate::from_percent(withdraw_reserve.config.loan_to_value_ratio);
        let max_withdraw_value = match obligation.max_withdraw_value(ltv) {
            Ok(v) => v,
            Err(e) => {
                return Err(e);
            },
        };
        if max_withdraw_value == 0 {
            return Err(LendingError::WithdrawTooLarge);
        }
        if collateral_amount == u64::MAX {
            let withdraw_value = if max_withdraw_value <= entry.market_value {
                max_withdraw_value
            } else {
                entry.market_value
            };
            if entry.market_value == 0 {
                return Err(LendingError::MathOverflow);
            }
            let scaled = match withdraw_value.checked_mul(WAD as u128) {
                Some(s) => s,
                None => {
                    return Err(LendingError::MathOverflow);
                },
            };
            let pct = scaled / entry.market_value;
            let prod = match pct.checked_mul(entry.deposited_amount as u128) {
                Some(p) => p,
                None => {
                    return Err(LendingError::MathOverflow);
                },
            };
            let amt = prod / (WAD as u128);
            withdraw_amount = if amt <= entry.deposited_amount as u128 {
                amt as u64
            } else {
                entry.deposited_amount
            };
            proof {
                let prev = *old(obligation);
                let dep = prev.deposits@[index as int].deposited_amount as int;
                let mv = prev.deposits@[index as int].market_value as int;
                let mwv = prev.spec_max_withdraw_value(ltvr);
                assert(mwv == max_withdraw_value as int);
                let wv = if mwv <= mv { mwv } else { mv };
                assert(wv == withdraw_value as int);
                assert(wv * (WAD as int) == scaled as int);
                assert(wv * (WAD as int) / mv == pct as int);
                assert((wv * (WAD as int) / mv) * dep == prod as int);
                assert(crate::math::floor_wad((wv * (WAD as int) / mv) * dep) == amt as int);
                if withdraw_amount != 0 {
                    assert(spec_withdraw_amount(prev, index as int, collateral_amount, ltvr)
                        == Ok::<int, LendingError>(withdraw_amount as int));
                }
            }
        } else {
            let capped = if collateral_amount <= entry.deposited_amount {
                collateral_amount
            } else {
                entry.deposited_amount
            };
            proof {
                crate::math::lemma_u64_times_wad_fits(capped as int);
            }
            let scaled = (capped as u128) * (WAD as u128);
            let pct = scaled / (entry.deposited_amount as u128);
            let prod = match entry.market_value.checked_mul(pct) {
                Some(p) => p,
                None => {
                    return Err(LendingError::MathOverflow);
                },
            };
            let withdraw_value = prod / (WAD as u128);
            if withdraw_value > max_withdraw_value {
                return Err(LendingError::WithdrawTooLarge);
            }
            withdraw_amount = capped;
            proof {
                let prev = *old(obligation);
                let dep = prev.deposits@[index as int].deposited_amount as int;
                let mv = prev.deposits@[index as int].market_value as int;
                let mwv = prev.spec_max_withdraw_value(ltvr);
                assert(mwv == max_withdraw_value as int);
                let wa = if collateral_amount as int <= dep { collateral_amount as int } else { dep };
                assert(wa == capped as int);
                assert(wa * (WAD as int) == scaled as int);
                assert(wa * (WAD as int) / dep == pct as int);
                assert(mv * (wa * (WAD as int) / dep) == prod as int);
                assert(mv * (wa * (WAD as int) / dep) / (WAD as int) == withdraw_value as int);
                if withdraw_amount != 0 {
                    assert(spec_withdraw_amount(prev, index as int, collateral_amount, ltvr)
                        == Ok::<int, LendingError>(withdraw_amount as int));
                }
            }
        }
        if withdraw_amount == 0 {
            return Err(LendingError::WithdrawTooSmall);
        }
    }
    match obligation.withdraw(withdraw_amount, index) {
        Ok(()) => (),
        Err(e) => {
            return Err(e);
        },
    }
    obligation.last_update.mark_stale();
    proof {
        assert(spec_withdraw_applied(
            *old(obligation),
            *obligation,
            index as int,
            collateral_amount,
            ltvr,
            withdraw_reserve_id,
            withdraw_amount,
        ));
        assert(spec_withdraw_outcome_ok(
            *old(obligation),
            *obligation,
            *withdraw_reserve,
            collateral_amount,
            current_slot,
            withdraw_reserve_id,
            withdraw_amount,
        ));
    }
    Ok(withdraw_amount)
}

/// What a successful borrow hands back for the surrounding transfers: the
/// units the borrower receives, the total fee, the host's share of it, and
/// the owner's share (the rest of the total).
#[derive(Clone, Copy, Debug, PartialEq, Eq, Structural)]
pub struct BorrowLiquidityResult {
    /// Total borrow added to the obligation, WAD-scaled, fees included.
    pub borrow_amount: u128,
    /// Liquidity units handed to the borrower.
    pub receive_amount: u64,
    /// Total fee in liquidity units.
    pub borrow_fee: u64,
    /// The host's share of the fee.
    pub host_fee: u64,
    /// The protocol owner's share of the fee: the total less the host's.
    pub owner_fee: u64,
}

/// That a borrow of `b` WAD-scaled units was recorded on the obligation: the
/// first matching borrow entry grew by `b`, or a fresh entry holding `b` was
/// appended.
pub open spec fn spec_borrow_recorded(prev: Obligation, post: Obligation, id: AccountId, b: u128) -> bool {
    if prev.spec_has_borrow_for(id) {
        exists|i: int|
            #[trigger] prev.spec_is_first_borrow_match(id, i) && prev.borrows@[i].borrowed_amount_wads
                + b <= u128::MAX && post.borrows@ == prev.borrows@.update(
                i,
                (crate::obligation_liquidity::ObligationLiquidity {
                    borrowed_amount_wads: (prev.borrows@[i].borrowed_amount_wads + b) as u128,
                    ..prev.borrows@[i]
                }),
            )
    } else {
        prev.deposits@.len() + prev.borrows@.len() < crate::constants::MAX_OBLIGATION_RESERVE
            && post.borrows@ == prev.borrows@.push(
            (crate::obligation_liquidity::ObligationLiquidity {
                borrow_reserve: id,
                cumulative_borrow_rate_wads: 1,
                borrowed_amount_wads: b,
                market_value: 0,
            }),
        )
    }
}

/// The full successful outcome of a borrow: everything was fresh and backed
/// by collateral, the computed borrow left the reserve's pool and was
/// recorded on the obligation, both records were marked stale, the fee split
/// adds up, and the borrower receives a non-zero amount.
pub open spec fn spec_borrow_outcome_ok(
    prev_r: Reserve,
    post_r: Reserve,
    prev_o: Obligation,
    post_o: Obligation,
    amount: u64,
    slot: u64,
    id: AccountId,
    res: BorrowLiquidityResult,
) -> bool {
    let remaining = prev_o.allowed_borrow_value - prev_o.borrowed_value;
    let fw = prev_r.config.fees.borrow_fee_wad as int;
    let pct = prev_r.config.fees.host_fee_percentage;
    &&& amount != 0
    &&& !prev_r.last_update.spec_is_stale(slot)
    &&& !prev_o.last_update.spec_is_stale(slot)
    &&& prev_o.deposits@.len() > 0
    &&& prev_o.deposited_value != 0
    &&& prev_o.borrowed_value <= prev_o.allowed_borrow_value
    &&& remaining != 0
    &&& if amount == u64::MAX {
        let units = crate::math::floor_wad(prev_r.spec_max_borrow_wads(remaining));
        &&& prev_r.spec_borrow_max_ok(remaining)
        &&& res.borrow_amount == prev_r.spec_max_borrow_wads(remaining)
        &&& res.borrow_fee == crate::reserve_fees::spec_borrow_fee(
            units,
            fw,
            pct,
            crate::reserve_fees::FeeCalculation::Inclusive,
        )
        &&& res.host_fee == crate::reserve_fees::spec_host_fee(
            units,
            fw,
            pct,
            crate::reserve_fees::FeeCalculation::Inclusive,
        )
        &&& res.receive_amount == units - res.borrow_fee
    } else {
        &&& prev_r.spec_borrow_requested_ok(amount, remaining)
        &&& res.borrow_amount == prev_r.spec_requested_total(amount) * (WAD as int)
        &&& res.borrow_fee == crate::reserve_fees::spec_borrow_fee(
            amount as int,
            fw,
            pct,
            crate::reserve_fees::FeeCalculation::Exclusive,
        )
        &&& res.host_fee == crate::reserve_fees::spec_host_fee(
            amount as int,
            fw,
            pct,
            crate::reserve_fees::FeeCalculation::Exclusive,
        )
        &&& res.receive_amount == amount
    }
    &&& res.receive_amount != 0
    &&& res.host_fee <= res.borrow_fee
    &&& res.owner_fee == res.borrow_fee - res.host_fee
    &&& prev_r.liquidity.borrowed_amount_wads + res.borrow_amount <= u128::MAX
    &&& post_r == (Reserve {
        liquidity: (crate::reserve_liquidity::ReserveLiquidity {
            available_amount: (prev_r.liquidity.available_amount - crate::math::floor_wad(
                res.borrow_amount as int,
            )) as u64,
            borrowed_amount_wads: (prev_r.liquidity.borrowed_amount_wads
                + res.borrow_amount) as u128,
            ..prev_r.liquidity
        }),
        last_update: (crate::last_update::LastUpdate { stale: true, ..prev_r.last_update }),
        ..prev_r
    })
    &&& spec_borrow_recorded(prev_o, post_o, id, res.borrow_amount)
    &&& post_o.deposits@ == prev_o.deposits@
    &&& post_o.last_update.stale
    &&& post_o.last_update.slot == prev_o.last_update.slot
    &&& post_o.version == prev_o.version
    &&& post_o.lending_market == prev_o.lending_market
    &&& post_o.owner == prev_o.owner
    &&& post_o.deposited_value == prev_o.deposited_value
    &&& post_o.borrowed_value == prev_o.borrowed_value
    &&& post_o.allowed_borrow_value == prev_o.allowed_borrow_value
    &&& post_o.unhealthy_borrow_value == prev_o.unhealthy_borrow_value
}

/// Whether a borrow succeeds: the request is non-zero, both records are
/// fresh, the obligation is backed by valued deposits with borrow capacity
/// left, the borrow computation succeeds with a non-zero payout and a
/// consistent fee split, the pool holds the borrowed units, and both the
/// pool's lent-out total and the obligation's borrow entry can absorb the
/// borrow.
pub open spec fn spec_borrow_ok(
    prev_r: Reserve,
    prev_o: Obligation,
    amount: u64,
    slot: u64,
    id: AccountId,
) -> bool {
    let remaining = prev_o.allowed_borrow_value - prev_o.borrowed_value;
    let fw = prev_r.config.fees.borrow_fee_wad as int;
    let pct = prev_r.config.fees.host_fee_percentage;
    let b = if amount == u64::MAX {
        prev_r.spec_max_borrow_wads(remaining)
    } else {
        prev_r.spec_requested_total(amount) * (WAD as int)
    };
    let units = crate::math::floor_wad(b);
    let mode = if amount == u64::MAX {
        crate::reserve_fees::FeeCalculation::Inclusive
    } else {
        crate::reserve_fees::FeeCalculation::Exclusive
    };
    let fee_base = if amount == u64::MAX {
        units
    } else {
        amount as int
    };
    let borrow_fee = crate::reserve_fees::spec_borrow_fee(fee_base, fw, pct, mode);
    let host_fee = crate::reserve_fees::spec_host_fee(fee_base, fw, pct, mode);
    let receive = if amount == u64::MAX {
        units - borrow_fee
    } else {
        amount as int
    };
    &&& amount != 0
    &&& !prev_r.last_update.spec_is_stale(slot)
    &&& !prev_o.last_update.spec_is_stale(slot)
    &&& prev_o.deposits@.len() > 0
    &&& prev_o.deposited_value != 0
    &&& prev_o.borrowed_value <= prev_o.allowed_borrow_value
    &&& remaining != 0
    &&& if amount == u64::MAX {
        prev_r.spec_borrow_max_ok(remaining)
    } else {
        prev_r.spec_borrow_requested_ok(amount, remaining)
    }
    &&& receive != 0
    &&& host_fee <= borrow_fee
    &&& units <= u64::MAX
    &&& units <= prev_r.liquidity.available_amount
    &&& prev_r.liquidity.borrowed_amount_wads + b <= u128::MAX
    &&& if prev_o.spec_has_borrow_for(id) {
        let i = choose|i: int| prev_o.spec_is_first_borrow_match(id, i);
        prev_o.borrows@[i].borrowed_amount_wads + b <= u128::MAX
    } else {
        prev_o.deposits@.len() + prev_o.borrows@.len() < crate::constants::MAX_OBLIGATION_RESERVE
    }
}

/// The error a borrow reports, in check order: a zero request, staleness,
/// missing collateral backing, the borrow computation's own errors, a zero
/// payout, the fee split, and finally room in the pool and the records.
pub open spec fn spec_borrow_full_error(
    prev_r: Reserve,
    prev_o: Obligation,
    amount: u64,
    slot: u64,
    id: AccountId,
) -> LendingError {
    let remaining = prev_o.allowed_borrow_value - prev_o.borrowed_value;
    let fw = prev_r.config.fees.borrow_fee_wad as int;
    let pct = prev_r.config.fees.host_fee_percentage;
    if amount == 0 {
        LendingError::InvalidAmount
    } else if !prev_r.last_update.stale && slot < prev_r.last_update.slot {
        LendingError::MathOverflow
    } else if prev_r.last_update.spec_is_stale(slot) {
        LendingError::ReserveStale
    } else if !prev_o.last_update.stale && slot < prev_o.last_update.slot {
        LendingError::MathOverflow
    } else if prev_o.last_update.spec_is_stale(slot) {
        LendingError::ObligationStale
    } else if prev_o.deposits@.len() == 0 {
        LendingError::ObligatinoDepositsEmpty
    } else if prev_o.deposited_value == 0 {
        LendingError::ObligationDepositsZero
    } else if prev_o.borrowed_value > prev_o.allowed_borrow_value {
        LendingError::MathOverflow
    } else if remaining == 0 {
        LendingError::BorrowTooLarge
    } else if amount == u64::MAX && !prev_r.spec_borrow_max_ok(remaining) {
        prev_r.spec_borrow_max_err(remaining)
    } else if amount != u64::MAX && !prev_r.spec_borrow_requested_ok(amount, remaining) {
        prev_r.spec_borrow_requested_err(amount, remaining)
    } else {
        let b = if amount == u64::MAX {
            prev_r.spec_max_borrow_wads(remaining)
        } else {
            prev_r.spec_requested_total(amount) * (WAD as int)
        };
        let units = crate::math::floor_wad(b);
        let mode = if amount == u64::MAX {
            crate::reserve_fees::FeeCalculation::Inclusive
        } else {
            crate::reserve_fees::FeeCalculation::Exclusive
        };
        let fee_base = if amount == u64::MAX {
            units
        } else {
            amount as int
        };
        let borrow_fee = crate::reserve_fees::spec_borrow_fee(fee_base, fw, pct, mode);
        let host_fee = crate::reserve_fees::spec_host_fee(fee_base, fw, pct, mode);
        let receive = if amount == u64::MAX {
            units - borrow_fee
        } else {
            amount as int
        };
        if receive == 0 {
            LendingError::BorrowTooSmall
        } else if host_fee > borrow_fee {
            LendingError::MathOverflow
        } else if units > u64::MAX || units > prev_r.liquidity.available_amount {
            LendingError::InsufficientLiquidity
        } else if prev_r.liquidity.borrowed_amount_wads + b > u128::MAX {
            LendingError::MathOverflow
        } else if prev_o.spec_has_borrow_for(id) {
            LendingError::MathOverflow
        } else if prev_o.deposits@.len() + prev_o.borrows@.len()
            >= crate::constants::MAX_OBLIGATION_RESERVE {
            LendingError::ObligationReserveLimit
        } else {
            LendingError::MathOverflow
        }
    }
}

/// Borrows liquidity from a reserve against an obligation: computes the
/// borrow and its fees, moves the amount out of the pool, records the debt
/// on the obligation, and marks both records stale. Succeeds exactly when
/// `spec_borrow_ok` holds. Fails, changing nothing, with the staleness,
/// health, computation, pool and record-slot errors of
/// `spec_borrow_full_error`.
#[verifier::rlimit(100)]
pub fn process_borrow_obligation_liquidity(
    borrow_reserve: &mut Reserve,
    obligation: &mut Obligation,
    liquidity_amount: u64,
    current_slot: u64,
    borrow_reserve_id: AccountId,
) -> (r: Result<BorrowLiquidityResult, LendingError>)
    ensures
        r is Ok <==> spec_borrow_ok(
            *old(borrow_reserve),
            *old(obligation),
            liquidity_amount,
            current_slot,
            borrow_reserve_id,
        ),
        match r {
            Ok(res) => spec_borrow_outcome_ok(
                *old(borrow_reserve),
                *final(borrow_reserve),
                *old(obligation),
                *final(obligation),
                liquidity_amount,
                current_slot,
                borrow_reserve_id,
                res,
            ),
            Err(e) => {
                &&& *final(borrow_reserve) == *old(borrow_reserve)
                &&& final(obligation).spec_same_state(old(obligation))
                &&& e == spec_borrow_full_error(
                    *old(borrow_reserve),
                    *old(obligation),
                    liquidity_amount,
                    current_slot,
                    borrow_reserve_id,
                )
            },
        },
{
    if liquidity_amount == 0 {
        return Err(LendingError::InvalidAmount);
    }
    match borrow_reserve.last_update.is_stale(current_slot) {
        Ok(stale) => {
            if stale {
                return Err(LendingError::ReserveStale);
            }
        },
        Err(e) => {
            return Err(e);
        },
    }
    match obligation.last_update.is_stale(current_slot) {
        Ok(stale) => {
            if stale {
                return Err(LendingError::ObligationStale);
            }
        },
        Err(e) => {
            return Err(e);
        },
    }
    if obligation.deposits.len() == 0 {
        return Err(LendingError::ObligatinoDepositsEmpty);
    }
    if obligation.deposited_value == 0 {
        return Err(LendingError::ObligationDepositsZero);
    }
    let remaining_borrow_value = match obligation.remaining_borrow_value() {
        Ok(v) => v,
        Err(e) => {
            return Err(e);
        },
    };
    if remaining_borrow_value == 0 {
        return Err(LendingError::BorrowTooLarge);
    }
    let result = match borrow_reserve.calculate_borrow(liquidity_amount, remaining_borrow_value) {
        Ok(res) => res,
        Err(e) => {
            return Err(e);
        },
    };
    if result.receive_amount == 0 {
        return Err(LendingError::BorrowTooSmall);
    }
    let owner_fee = match result.borrow_fee.checked_sub(result.host_fee) {
        Some(f) => f,
        None => {
            return Err(LendingError::MathOverflow);
        },
    };
    // room in the pool and in both records is checked before any mutation
    let units = match crate::math::try_floor_u64(result.borrow_amount) {
        Ok(u) => u,
        Err(_) => {
            return Err(LendingError::InsufficientLiquidity);
        },
    };
    if units > borrow_reserve.liquidity.available_amount {
        return Err(LendingError::InsufficientLiquidity);
    }
    if borrow_reserve.liquidity.borrowed_amount_wads.checked_add(result.borrow_amount).is_none() {
        return Err(LendingError::MathOverflow);
    }
    match obligation._find_liquidity_index_in_borrows(borrow_reserve_id) {
        Some(i) => {
            proof {
                assert(obligation.spec_is_first_borrow_match(borrow_reserve_id, i as int));
                let i0 = choose|j: int|
                    old(obligation).spec_is_first_borrow_match(borrow_reserve_id, j);
                assert(old(obligation).spec_is_first_borrow_match(borrow_reserve_id, i0));
                if i0 < i as int {
                    assert(old(obligation).borrows@[i0].borrow_reserve != borrow_reserve_id);
                }
                if i0 > i as int {
                    assert(old(obligation).borrows@[i as int].borrow_reserve != borrow_reserve_id);
                }
                assert(i0 == i as int);
            }
            if obligation.borrows[i].borrowed_amount_wads.checked_add(
                result.borrow_amount,
            ).is_none() {
                return Err(LendingError::MathOverflow);
            }
        },
        None => {
            if obligation.deposits.len() >= crate::constants::MAX_OBLIGATION_RESERVE
                || obligation.borrows.len() >= crate::constants::MAX_OBLIGATION_RESERVE
                || obligation.deposits.len() + obligation.borrows.len()
                >= crate::constants::MAX_OBLIGATION_RESERVE {
                return Err(LendingError::ObligationReserveLimit);
            }
        },
    }
    match borrow_reserve.liquidity.borrow(result.borrow_amount) {
        Ok(()) => (),
        Err(e) => {
            return Err(e);
        },
    }
    borrow_reserve.last_update.mark_stale();
    let index = match obligation.find_or_add_liquidity_to_borrows(borrow_reserve_id) {
        Ok(i) => i,
        Err(e) => {
            return Err(e);
        },
    };
    let entry = obligation.borrows[index];
    let new_borrowed = match entry.borrowed_amount_wads.checked_add(result.borrow_amount) {
        Some(n) => n,
        None => {
            return Err(LendingError::MathOverflow);
        },
    };
    let updated = crate::obligation_liquidity::ObligationLiquidity {
        borrowed_amount_wads: new_borrowed,
        ..entry
    };
    obligation.borrows.set(index, updated);
    obligation.last_update.mark_stale();
    proof {
        if !old(obligation).spec_has_borrow_for(borrow_reserve_id) {
            assert(obligation.borrows@ =~= old(obligation).borrows@.push(
                crate::obligation_liquidity::ObligationLiquidity {
                    borrow_reserve: borrow_reserve_id,
                    cumulative_borrow_rate_wads: 1,
                    borrowed_amount_wads: result.borrow_amount,
                    market_value: 0,
                },
            ));
        }
        assert(spec_borrow_recorded(
            *old(obligation),
            *obligation,
            borrow_reserve_id,
            result.borrow_amount,
        ));
    }
    Ok(
        BorrowLiquidityResult {
            borrow_amount: result.borrow_amount,
            receive_amount: result.receive_amount,
            borrow_fee: result.borrow_fee,
            host_fee: result.host_fee,
            owner_fee,
        },
    )
}

/// The full successful outcome of a repayment: everything was fresh, the
/// settled amount was taken off the first matching borrow entry (removing it
/// when fully settled), the repaid units re-entered the pool, and both
/// records were marked stale.
pub open spec fn spec_repay_outcome_ok(
    prev_r: Reserve,
    post_r: Reserve,
    prev_o: Obligation,
    post_o: Obligation,
    amount: u64,
    slot: u64,
    id: AccountId,
    repay_amount: u64,
) -> bool {
    &&& amount != 0
    &&& !prev_r.last_update.spec_is_stale(slot)
    &&& !prev_o.last_update.spec_is_stale(slot)
    &&& exists|i: int|
        #[trigger] prev_o.spec_is_first_borrow_match(id, i) && {
            let borrowed = prev_o.borrows@[i].borrowed_amount_wads as int;
            let settle = crate::reserve::spec_settle_amount(amount, borrowed);
            &&& borrowed != 0
            &&& repay_amount == crate::math::ceil_wad(settle)
            &&& settle <= prev_r.liquidity.borrowed_amount_wads
            &&& prev_r.liquidity.available_amount + repay_amount <= u64::MAX
            &&& post_r == (Reserve {
                liquidity: (crate::reserve_liquidity::ReserveLiquidity {
                    available_amount: (prev_r.liquidity.available_amount + repay_amount) as u64,
                    borrowed_amount_wads: (prev_r.liquidity.borrowed_amount_wads
                        - settle) as u128,
                    ..prev_r.liquidity
                }),
                last_update: (crate::last_update::LastUpdate {
                    stale: true,
                    ..prev_r.last_update
                }),
                ..prev_r
            })
            &&& if settle == borrowed {
                post_o.borrows@ == prev_o.borrows@.remove(i)
            } else {
                post_o.borrows@ == prev_o.borrows@.update(
                    i,
                    (crate::obligation_liquidity::ObligationLiquidity {
                        borrowed_amount_wads: (borrowed - settle) as u128,
                        ..prev_o.borrows@[i]
                    }),
                )
            }
        }
    &&& post_o.deposits@ == prev_o.deposits@
    &&& post_o.last_update.stale
    &&& post_o.last_update.slot == prev_o.last_update.slot
    &&& post_o.version == prev_o.version
    &&& post_o.lending_market == prev_o.lending_market
    &&& post_o.owner == prev_o.owner
    &&& post_o.deposited_value == prev_o.deposited_value
    &&& post_o.borrowed_value == prev_o.borrowed_value
    &&& post_o.allowed_borrow_value == prev_o.allowed_borrow_value
    &&& post_o.unhealthy_borrow_value == prev_o.unhealthy_borrow_value
}

/// Whether a repayment succeeds: the request is non-zero, both records are
/// fresh, the obligation holds a non-empty borrow entry against the repay
/// reserve, the rounded-up transfer is non-zero and fits a u64, and the
/// pool can absorb the repayment.
pub open spec fn spec_repay_ok(
    prev_r: Reserve,
    prev_o: Obligation,
    amount: u64,
    slot: u64,
    id: AccountId,
) -> bool {
    let i = choose|i: int| prev_o.spec_is_first_borrow_match(id, i);
    let borrowed = prev_o.borrows@[i].borrowed_amount_wads as int;
    let settle = crate::reserve::spec_settle_amount(amount, borrowed);
    let repay = crate::math::ceil_wad(settle);
    &&& amount != 0
    &&& !prev_r.last_update.spec_is_stale(slot)
    &&& !prev_o.last_update.spec_is_stale(slot)
    &&& prev_o.spec_is_first_borrow_match(id, i)
    &&& borrowed != 0
    &&& repay <= u64::MAX
    &&& repay != 0
    &&& prev_r.liquidity.available_amount + repay <= u64::MAX
    &&& settle <= prev_r.liquidity.borrowed_amount_wads
}

/// The error a repayment reports, in check order: a zero request, staleness,
/// the borrow entry lookup, then the settle arithmetic and the pool update.
pub open spec fn spec_repay_full_error(
    prev_r: Reserve,
    prev_o: Obligation,
    amount: u64,
    slot: u64,
    id: AccountId,
) -> LendingError {
    if amount == 0 {
        LendingError::InvalidAmount
    } else if !prev_r.last_update.stale && slot < prev_r.last_update.slot {
        LendingError::MathOverflow
    } else if prev_r.last_update.spec_is_stale(slot) {
        LendingError::ReserveStale
    } else if !prev_o.last_update.stale && slot < prev_o.last_update.slot {
        LendingError::MathOverflow
    } else if prev_o.last_update.spec_is_stale(slot) {
        LendingError::ObligationStale
    } else if !prev_o.spec_has_borrow_for(id) {
        LendingError::ObligationLiquidityEmpty
    } else {
        let i = choose|i: int| prev_o.spec_is_first_borrow_match(id, i);
        let borrowed = prev_o.borrows@[i].borrowed_amount_wads as int;
        let settle = crate::reserve::spec_settle_amount(amount, borrowed);
        if borrowed == 0 {
            LendingError::ObligationLiquidityEmpty
        } else if crate::math::ceil_wad(settle) > u64::MAX {
            LendingError::MathOverflow
        } else if crate::math::ceil_wad(settle) == 0 {
            LendingError::RepayTooSmall
        } else {
            LendingError::MathOverflow
        }
    }
}

/// Repays borrowed liquidity into a reserve against an obligation: settles
/// the request against the matching borrow entry, returns the repaid units
/// to the pool, and marks both records stale. Returns the whole units the
/// borrower must transfer. Succeeds exactly when `spec_repay_ok` holds.
/// Fails, changing nothing, with the staleness, lookup and arithmetic
/// errors of `spec_repay_full_error`.
pub fn process_repay_obligation_liquidity(
    repay_reserve: &mut Reserve,
    obligation: &mut Obligation,
    liquidity_amount: u64,
    current_slot: u64,
    repay_reserve_id: AccountId,
) -> (r: Result<u64, LendingError>)
    ensures
        r is Ok <==> spec_repay_ok(
            *old(repay_reserve),
            *old(obligation),
            liquidity_amount,
            current_slot,
            repay_reserve_id,
        ),
        match r {
            Ok(repay_amount) => spec_repay_outcome_ok(
                *old(repay_reserve),
                *final(repay_reserve),
                *old(obligation),
                *final(obligation),
                liquidity_amount,
                current_slot,
                repay_reserve_id,
                repay_amount,
            ),
            Err(e) => {
                &&& *final(repay_reserve) == *old(repay_reserve)
                &&& final(obligation).spec_same_state(old(obligation))
                &&& e == spec_repay_full_error(
                    *old(repay_reserve),
                    *old(obligation),
                    liquidity_amount,
                    current_slot,
                    repay_reserve_id,
                )
            },
        },
{
    if liquidity_amount == 0 {
        return Err(LendingError::InvalidAmount);
    }
    match repay_reserve.last_update.is_stale(current_slot) {
        Ok(stale) => {
            if stale {
                return Err(LendingError::ReserveStale);
            }
        },
        Err(e) => {
            return Err(e);
        },
    }
    match obligation.last_update.is_stale(current_slot) {
        Ok(stale) => {
            if stale {
                return Err(LendingError::ObligationStale);
            }
        },
        Err(e) => {
            return Err(e);
        },
    }
    let index = match obligation.find_liquidity_index_in_borrows(repay_reserve_id) {
        Ok(i) => i,
        Err(e) => {
            return Err(e);
        },
    };
    proof {
        assert(obligation.spec_is_first_borrow_match(repay_reserve_id, index as int));
        let i0 = choose|j: int| old(obligation).spec_is_first_borrow_match(repay_reserve_id, j);
        assert(old(obligation).spec_is_first_borrow_match(repay_reserve_id, i0));
        if i0 < index as int {
            assert(old(obligation).borrows@[i0].borrow_reserve != repay_reserve_id);
        }
        if i0 > index as int {
            assert(old(obligation).borrows@[index as int].borrow_reserve != repay_reserve_id);
        }
        assert(i0 == index as int);
    }
    let entry = obligation.borrows[index];
    if entry.borrowed_amount_wads == 0 {
        return Err(LendingError::ObligationLiquidityEmpty);
    }
    let result = match repay_reserve.calculate_repay(
        liquidity_amount,
        entry.borrowed_amount_wads,
    ) {
        Ok(res) => res,
        Err(e) => {
            return Err(e);
        },
    };
    if result.repay_amount == 0 {
        return Err(LendingError::RepayTooSmall);
    }
    match repay_reserve.liquidity.repay(result.repay_amount, result.settle_amount) {
        Ok(()) => (),
        Err(e) => {
            return Err(e);
        },
    }
    repay_reserve.last_update.mark_stale();
    match obligation.repay(result.settle_amount, index) {
        Ok(()) => (),
        Err(e) => {
            return Err(e);
        },
    }
    obligation.last_update.mark_stale();
    Ok(result.repay_amount)
}

} // verus!
