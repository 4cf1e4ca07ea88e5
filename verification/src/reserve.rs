use vstd::prelude::*;
use vstd::arithmetic::div_mod::{lemma_div_by_multiple, lemma_div_is_ordered};
use vstd::arithmetic::mul::{lemma_mul_inequality, lemma_mul_is_commutative};
use crate::collateral_exchange_rate::{
    spec_collateral_to_liquidity, spec_liquidity_to_collateral, CollateralExchangeRate,
};
use crate::constants::PROGRAM_VERSION;
use crate::errors::LendingError;
use crate::ids::AccountId;
use crate::last_update::LastUpdate;
use crate::math::{
    ceil_wad, floor_wad, lemma_u64_times_wad_fits, pow10, try_ceil_u64, WAD,
};
use crate::reserve_collateral::{spec_exchange_rate_raw, ReserveCollateral};
use crate::reserve_config::ReserveConfig;
use crate::reserve_fees::{
    spec_borrow_fee, spec_fees_ok, spec_fees_too_small, spec_host_fee, FeeCalculation,
};
use crate::reserve_liquidity::ReserveLiquidity;

verus! {

/// A pooled-liquidity market for one asset, paired with a derivative
/// collateral-share mint.
#[derive(Clone, Copy, Debug)]
pub struct Reserve {
    /// Record layout version.
    pub version: u8,
    /// Staleness tracker for this reserve.
    pub last_update: LastUpdate,
    /// The market this reserve belongs to.
    pub lending_market: AccountId,
    /// The pooled liquidity asset.
    pub liquidity: ReserveLiquidity,
    /// The derivative collateral-share asset.
    pub collateral: ReserveCollateral,
    /// Risk parameters.
    pub config: ReserveConfig,
}

/// Everything a fresh reserve is initialized with.
pub struct InitReserveParams {
    /// Slot at which the reserve is created.
    pub current_slot: u64,
    /// The market this reserve belongs to.
    pub lending_market: AccountId,
    /// The pooled liquidity asset.
    pub liquidity: ReserveLiquidity,
    /// The derivative collateral-share asset.
    pub collateral: ReserveCollateral,
    /// Risk parameters.
    pub config: ReserveConfig,
}

/// What a borrow computation hands back to the caller.
#[derive(Clone, Copy, Debug, PartialEq, Eq, Structural)]
pub struct CalculateBorrowResult {
    /// Total borrow added to the obligation, WAD-scaled, fees included.
    pub borrow_amount: u128,
    /// Liquidity units handed to the borrower.
    pub receive_amount: u64,
    /// Total fee in liquidity units; the host's share is part of it.
    pub borrow_fee: u64,
    /// The host's share of the fee, in liquidity units.
    pub host_fee: u64,
}

/// What a repay computation hands back to the caller.
#[derive(Clone, Copy, Debug, PartialEq, Eq, Structural)]
pub struct CalculateRepayResult {
    /// WAD-scaled amount settled against the obligation entry.
    pub settle_amount: u128,
    /// Liquidity units the borrower must transfer, the settled amount
    /// rounded up.
    pub repay_amount: u64,
}

/// The WAD-scaled amount a repay request settles: the whole debt for the
/// sentinel maximum request, else the request capped by the debt.
pub open spec fn spec_settle_amount(amount_to_repay: u64, borrowed_amount: int) -> int {
    if amount_to_repay == u64::MAX {
        borrowed_amount
    } else if amount_to_repay <= borrowed_amount {
        amount_to_repay as int
    } else {
        borrowed_amount
    }
}

impl Reserve {
    /// The pool's total supply: available plus lent out.
    pub open spec fn spec_total_supply(self) -> int {
        self.liquidity.spec_total_supply()
    }

    /// The WAD-scaled collateral exchange rate this reserve quotes.
    pub open spec fn spec_rate_raw(self) -> int {
        spec_exchange_rate_raw(self.collateral.mint_total_supply as int, self.spec_total_supply())
    }

    /// Whether the exchange rate can be computed: the total supply must fit
    /// a u128, and a u64 once both sides are non-empty.
    pub open spec fn spec_rate_ok(self) -> bool {
        &&& self.spec_total_supply() <= u128::MAX
        &&& (self.collateral.mint_total_supply == 0 || self.spec_total_supply() == 0
            || self.spec_total_supply() <= u64::MAX)
    }

    /// Whether a liquidity deposit succeeds: the exchange rate computes, the
    /// minted collateral fits, and neither side's supply overflows.
    pub open spec fn spec_deposit_ok(self, liquidity_amount: u64) -> bool {
        let minted = spec_liquidity_to_collateral(self.spec_rate_raw(), liquidity_amount as int);
        &&& self.spec_rate_ok()
        &&& liquidity_amount * self.spec_rate_raw() <= u128::MAX
        &&& minted <= u64::MAX
        &&& self.liquidity.available_amount + liquidity_amount <= u64::MAX
        &&& self.collateral.mint_total_supply + minted <= u64::MAX
    }

    /// Whether a collateral redemption succeeds: the exchange rate computes
    /// and is positive, the returned liquidity fits, no more shares are
    /// burned than exist, and the pool holds the returned liquidity.
    pub open spec fn spec_redeem_ok(self, collateral_amount: u64) -> bool {
        let redeemed = spec_collateral_to_liquidity(self.spec_rate_raw(), collateral_amount as int);
        &&& self.spec_rate_ok()
        &&& self.spec_rate_raw() > 0
        &&& redeemed <= u64::MAX
        &&& collateral_amount <= self.collateral.mint_total_supply
        &&& redeemed <= self.liquidity.available_amount
    }

    /// Overwrites this record with a freshly initialized reserve; its
    /// staleness tracker starts out stale.
    pub fn init(&mut self, params: InitReserveParams)
        ensures
            final(self).version == PROGRAM_VERSION,
            final(self).last_update.slot == params.current_slot,
            final(self).last_update.stale,
            final(self).lending_market == params.lending_market,
            final(self).liquidity == params.liquidity,
            final(self).collateral == params.collateral,
            final(self).config == params.config,
    {
        self.version = PROGRAM_VERSION;
        self.last_update = LastUpdate::new(params.current_slot);
        self.lending_market = params.lending_market;
        self.liquidity = params.liquidity;
        self.collateral = params.collateral;
        self.config = params.config;
    }

    /// The current collateral exchange rate. Fails with `MathOverflow`
    /// exactly when the total supply overflows the backing integers.
    pub fn collateral_exchange_rate(&self) -> (r: Result<CollateralExchangeRate, LendingError>)
        ensures
            r is Ok <==> self.spec_rate_ok(),
            match r {
                Ok(x) => x.spec_raw() == self.spec_rate_raw(),
                Err(e) => e == LendingError::MathOverflow,
            },
    {
        let total_liquidity = match self.liquidity.total_supply() {
            Ok(t) => t,
            Err(e) => {
                return Err(e);
            },
        };
        self.collateral.exchange_rate(total_liquidity)
    }

    /// Converts a liquidity deposit into minted collateral at the current
    /// exchange rate, moves the liquidity into the pool and records the
    /// minted shares. Fails with `MathOverflow`, changing nothing, exactly
    /// when a conversion or a supply would overflow.
    pub fn deposit_liquidity(&mut self, liquidity_amount: u64) -> (r: Result<u64, LendingError>)
        ensures
            r is Ok <==> old(self).spec_deposit_ok(liquidity_amount),
            match r {
                Ok(collateral_amount) => {
                    &&& collateral_amount == spec_liquidity_to_collateral(
                        old(self).spec_rate_raw(),
                        liquidity_amount as int,
                    )
                    &&& *final(self) == (Reserve {
                        liquidity: (ReserveLiquidity {
                            available_amount: (old(self).liquidity.available_amount
                                + liquidity_amount) as u64,
                            ..old(self).liquidity
                        }),
                        collateral: (ReserveCollateral {
                            mint_total_supply: (old(self).collateral.mint_total_supply
                                + collateral_amount) as u64,
                            ..old(self).collateral
                        }),
                        ..*old(self)
                    })
                },
                Err(e) => e == LendingError::MathOverflow && *final(self) == *old(self),
            },
    {
        let rate = match self.collateral_exchange_rate() {
            Ok(x) => x,
            Err(e) => {
                return Err(e);
            },
        };
        let collateral_amount = match rate.liquidity_to_collateral(liquidity_amount) {
            Ok(c) => c,
            Err(e) => {
                return Err(e);
            },
        };
        if self.collateral.mint_total_supply.checked_add(collateral_amount).is_none() {
            return Err(LendingError::MathOverflow);
        }
        match self.liquidity.deposit(liquidity_amount) {
            Ok(()) => (),
            Err(e) => {
                return Err(e);
            },
        }
        match self.collateral.mint(collateral_amount) {
            Ok(()) => (),
            Err(e) => {
                return Err(e);
            },
        }
        Ok(collateral_amount)
    }

    /// Converts burned collateral back into liquidity at the current
    /// exchange rate, records the burn and releases the liquidity. Fails,
    /// changing nothing, with `InsufficientLiquidity` when the pool holds
    /// less than the redeemed amount, and with `MathOverflow` on any other
    /// overflow.
    pub fn redeem_collateral(&mut self, collateral_amount: u64) -> (r: Result<u64, LendingError>)
        ensures
            r is Ok <==> old(self).spec_redeem_ok(collateral_amount),
            match r {
                Ok(liquidity_amount) => {
                    &&& liquidity_amount == spec_collateral_to_liquidity(
                        old(self).spec_rate_raw(),
                        collateral_amount as int,
                    )
                    &&& *final(self) == (Reserve {
                        liquidity: (ReserveLiquidity {
                            available_amount: (old(self).liquidity.available_amount
                                - liquidity_amount) as u64,
                            ..old(self).liquidity
                        }),
                        collateral: (ReserveCollateral {
                            mint_total_supply: (old(self).collateral.mint_total_supply
                                - collateral_amount) as u64,
                            ..old(self).collateral
                        }),
                        ..*old(self)
                    })
                },
                Err(e) => {
                    &&& *final(self) == *old(self)
                    &&& e == (if old(self).spec_rate_ok() && old(self).spec_rate_raw() > 0
                        && spec_collateral_to_liquidity(
                        old(self).spec_rate_raw(),
                        collateral_amount as int,
                    ) <= u64::MAX && collateral_amount <= old(self).collateral.mint_total_supply {
                        LendingError::InsufficientLiquidity
                    } else {
                        LendingError::MathOverflow
                    })
                },
            },
    {
        let rate = match self.collateral_exchange_rate() {
            Ok(x) => x,
            Err(e) => {
                return Err(e);
            },
        };
        let liquidity_amount = match rate.collateral_to_liquidity(collateral_amount) {
            Ok(l) => l,
            Err(e) => {
                return Err(e);
            },
        };
        if collateral_amount > self.collateral.mint_total_supply {
            return Err(LendingError::MathOverflow);
        }
        if liquidity_amount > self.liquidity.available_amount {
            return Err(LendingError::InsufficientLiquidity);
        }
        match self.collateral.burn(collateral_amount) {
            Ok(()) => (),
            Err(e) => {
                return Err(e);
            },
        }
        match self.liquidity.withdraw(liquidity_amount) {
            Ok(()) => (),
            Err(e) => {
                return Err(e);
            },
        }
        Ok(liquidity_amount)
    }

    /// The WAD-scaled borrow a sentinel "borrow max" request computes before
    /// the pool cap: the allowed borrow value turned back into whole token
    /// units at the market price, then WAD-scaled.
    pub open spec fn spec_max_borrow_uncapped(self, max_borrow_value: int) -> int {
        max_borrow_value * pow10(self.liquidity.mint_decimals as nat) / (
        self.liquidity.market_price as int) * WAD
    }

    /// The WAD-scaled borrow a sentinel "borrow max" request yields: the
    /// value-derived amount, capped by the pool's available liquidity.
    pub open spec fn spec_max_borrow_wads(self, max_borrow_value: int) -> int {
        let uncapped = self.spec_max_borrow_uncapped(max_borrow_value);
        let cap = self.liquidity.available_amount * (WAD as int);
        if uncapped <= cap {
            uncapped
        } else {
            cap
        }
    }

    /// Whether a sentinel "borrow max" computation succeeds: the decimals
    /// and every product fit, the price is non-zero, and the fee calculation
    /// on the capped amount's whole units succeeds.
    pub open spec fn spec_borrow_max_ok(self, max_borrow_value: int) -> bool {
        &&& pow10(self.liquidity.mint_decimals as nat) <= u64::MAX
        &&& max_borrow_value * pow10(self.liquidity.mint_decimals as nat) <= u128::MAX
        &&& self.liquidity.market_price > 0
        &&& self.spec_max_borrow_uncapped(max_borrow_value) <= u128::MAX
        &&& spec_fees_ok(
            floor_wad(self.spec_max_borrow_wads(max_borrow_value)),
            self.config.fees.borrow_fee_wad as int,
            self.config.fees.host_fee_percentage,
            FeeCalculation::Inclusive,
        )
    }

    /// The error a failed sentinel "borrow max" computation reports:
    /// `BorrowTooSmall` when only the fee check failed because the fee would
    /// swallow the amount, else `MathOverflow`.
    pub open spec fn spec_borrow_max_err(self, max_borrow_value: int) -> LendingError {
        if pow10(self.liquidity.mint_decimals as nat) <= u64::MAX && max_borrow_value * pow10(
            self.liquidity.mint_decimals as nat,
        ) <= u128::MAX && self.liquidity.market_price > 0 && self.spec_max_borrow_uncapped(
            max_borrow_value,
        ) <= u128::MAX && spec_fees_too_small(
            floor_wad(self.spec_max_borrow_wads(max_borrow_value)),
            self.config.fees.borrow_fee_wad as int,
            self.config.fees.host_fee_percentage,
            FeeCalculation::Inclusive,
        ) {
            LendingError::BorrowTooSmall
        } else {
            LendingError::MathOverflow
        }
    }

    /// The total owed for an explicit borrow request: the request plus the
    /// exclusive fee on it.
    pub open spec fn spec_requested_total(self, amount_to_borrow: u64) -> int {
        amount_to_borrow + spec_borrow_fee(
            amount_to_borrow as int,
            self.config.fees.borrow_fee_wad as int,
            self.config.fees.host_fee_percentage,
            FeeCalculation::Exclusive,
        )
    }

    /// The WAD-scaled market value of the total owed for an explicit borrow
    /// request.
    pub open spec fn spec_requested_value(self, amount_to_borrow: u64) -> int {
        self.spec_requested_total(amount_to_borrow) * (self.liquidity.market_price as int) / pow10(
            self.liquidity.mint_decimals as nat,
        )
    }

    /// Whether an explicit borrow request succeeds: the decimals fit, the
    /// fee calculation succeeds, the value product fits, and the resulting
    /// borrow value stays within what is allowed.
    pub open spec fn spec_borrow_requested_ok(self, amount_to_borrow: u64, max_borrow_value: int) -> bool {
        &&& pow10(self.liquidity.mint_decimals as nat) <= u64::MAX
        &&& spec_fees_ok(
            amount_to_borrow as int,
            self.config.fees.borrow_fee_wad as int,
            self.config.fees.host_fee_percentage,
            FeeCalculation::Exclusive,
        )
        &&& self.spec_requested_total(amount_to_borrow) * (self.liquidity.market_price as int)
            <= u128::MAX
        &&& self.spec_requested_value(amount_to_borrow) <= max_borrow_value
    }

    /// The error a failed explicit borrow request reports: the fee
    /// calculation's own error when it failed, `BorrowTooLarge` when only
    /// the allowed borrow value is exceeded, else `MathOverflow`.
    pub open spec fn spec_borrow_requested_err(self, amount_to_borrow: u64, max_borrow_value: int) -> LendingError {
        let fees_ok = spec_fees_ok(
            amount_to_borrow as int,
            self.config.fees.borrow_fee_wad as int,
            self.config.fees.host_fee_percentage,
            FeeCalculation::Exclusive,
        );
        let fees_small = spec_fees_too_small(
            amount_to_borrow as int,
            self.config.fees.borrow_fee_wad as int,
            self.config.fees.host_fee_percentage,
            FeeCalculation::Exclusive,
        );
        if pow10(self.liquidity.mint_decimals as nat) > u64::MAX {
            LendingError::MathOverflow
        } else if !fees_ok {
            if fees_small {
                LendingError::BorrowTooSmall
            } else {
                LendingError::MathOverflow
            }
        } else if self.spec_requested_total(amount_to_borrow) * (
        self.liquidity.market_price as int) > u128::MAX {
            LendingError::MathOverflow
        } else {
            LendingError::BorrowTooLarge
        }
    }

    /// How much a borrow request yields: the WAD-scaled total added to the
    /// obligation, the units handed out, and the fees. A sentinel request of
    /// u64::MAX borrows the most the allowed value and the pool support,
    /// with the fee carved out of it; any other request receives exactly the
    /// requested units, with the fee added on top, provided the total's
    /// value stays within what is allowed.
    pub fn calculate_borrow(&self, amount_to_borrow: u64, max_borrow_value: u128) -> (r: Result<
        CalculateBorrowResult,
        LendingError,
    >)
        ensures
            amount_to_borrow == u64::MAX ==> (r is Ok <==> self.spec_borrow_max_ok(
                max_borrow_value as int,
            )),
            amount_to_borrow != u64::MAX ==> (r is Ok <==> self.spec_borrow_requested_ok(
                amount_to_borrow,
                max_borrow_value as int,
            )),
            match r {
                Ok(res) => if amount_to_borrow == u64::MAX {
                    let units = floor_wad(self.spec_max_borrow_wads(max_borrow_value as int));
                    &&& res.borrow_amount == self.spec_max_borrow_wads(max_borrow_value as int)
                    &&& res.borrow_fee == spec_borrow_fee(
                        units,
                        self.config.fees.borrow_fee_wad as int,
                        self.config.fees.host_fee_percentage,
                        FeeCalculation::Inclusive,
                    )
                    &&& res.host_fee == spec_host_fee(
                        units,
                        self.config.fees.borrow_fee_wad as int,
                        self.config.fees.host_fee_percentage,
                        FeeCalculation::Inclusive,
                    )
                    &&& res.receive_amount == units - res.borrow_fee
                } else {
                    &&& res.receive_amount == amount_to_borrow
                    &&& res.borrow_fee == spec_borrow_fee(
                        amount_to_borrow as int,
                        self.config.fees.borrow_fee_wad as int,
                        self.config.fees.host_fee_percentage,
                        FeeCalculation::Exclusive,
                    )
                    &&& res.host_fee == spec_host_fee(
                        amount_to_borrow as int,
                        self.config.fees.borrow_fee_wad as int,
                        self.config.fees.host_fee_percentage,
                        FeeCalculation::Exclusive,
                    )
                    &&& res.borrow_amount == self.spec_requested_total(amount_to_borrow) * WAD
                },
                Err(e) => e == (if amount_to_borrow == u64::MAX {
                    self.spec_borrow_max_err(max_borrow_value as int)
                } else {
                    self.spec_borrow_requested_err(amount_to_borrow, max_borrow_value as int)
                }),
            },
    {
        let decimals = match crate::math::try_pow10_u64(self.liquidity.mint_decimals) {
            Ok(d) => d,
            Err(e) => {
                return Err(e);
            },
        };
        proof {
            crate::math::lemma_pow10_pos(self.liquidity.mint_decimals as nat);
        }
        if amount_to_borrow == u64::MAX {
            let in_units = match max_borrow_value.checked_mul(decimals as u128) {
                Some(v) => v,
                None => {
                    return Err(LendingError::MathOverflow);
                },
            };
            if self.liquidity.market_price == 0 {
                return Err(LendingError::MathOverflow);
            }
            let whole_units = in_units / self.liquidity.market_price;
            let uncapped = match whole_units.checked_mul(WAD as u128) {
                Some(v) => v,
                None => {
                    return Err(LendingError::MathOverflow);
                },
            };
            proof {
                lemma_u64_times_wad_fits(self.liquidity.available_amount as int);
            }
            let cap = (self.liquidity.available_amount as u128) * (WAD as u128);
            let borrow_amount = if uncapped <= cap {
                uncapped
            } else {
                cap
            };
            proof {
                lemma_div_is_ordered(borrow_amount as int, cap as int, WAD as int);
                lemma_div_by_multiple(self.liquidity.available_amount as int, WAD as int);
                lemma_mul_is_commutative(self.liquidity.available_amount as int, WAD as int);
            }
            let units = (borrow_amount / (WAD as u128)) as u64;
            let (borrow_fee, host_fee) = match self.config.fees.calculate_borrow_fees(
                units as u128,
                FeeCalculation::Inclusive,
            ) {
                Ok(f) => f,
                Err(e) => {
                    return Err(e);
                },
            };
            let receive_amount = units - borrow_fee;
            Ok(CalculateBorrowResult { borrow_amount, receive_amount, borrow_fee, host_fee })
        } else {
            let receive_amount = amount_to_borrow;
            let (borrow_fee, host_fee) = match self.config.fees.calculate_borrow_fees(
                receive_amount as u128,
                FeeCalculation::Exclusive,
            ) {
                Ok(f) => f,
                Err(e) => {
                    return Err(e);
                },
            };
            let total = receive_amount as u128 + borrow_fee as u128;
            proof {
                lemma_mul_inequality(total as int, 2 * (u64::MAX as int), WAD as int);
                assert(2 * (u64::MAX as int) * WAD <= u128::MAX) by (nonlinear_arith);
            }
            let borrow_amount = total * (WAD as u128);
            let value_scaled = match total.checked_mul(self.liquidity.market_price) {
                Some(v) => v,
                None => {
                    return Err(LendingError::MathOverflow);
                },
            };
            let borrow_value = value_scaled / (decimals as u128);
            if borrow_value > max_borrow_value {
                return Err(LendingError::BorrowTooLarge);
            }
            Ok(CalculateBorrowResult { borrow_amount, receive_amount, borrow_fee, host_fee })
        }
    }

    /// How a repay request splits into the WAD-scaled amount settled against
    /// the obligation and the whole liquidity units the borrower transfers.
    /// Fails with `MathOverflow` exactly when the rounded-up transfer does
    /// not fit a u64.
    pub fn calculate_repay(&self, amount_to_repay: u64, borrowed_amount: u128) -> (r: Result<
        CalculateRepayResult,
        LendingError,
    >)
        ensures
            match r {
                Ok(res) => {
                    &&& res.settle_amount == spec_settle_amount(
                        amount_to_repay,
                        borrowed_amount as int,
                    )
                    &&& res.repay_amount == ceil_wad(res.settle_amount as int)
                    &&& ceil_wad(res.settle_amount as int) <= u64::MAX
                },
                Err(e) => e == LendingError::MathOverflow && ceil_wad(
                    spec_settle_amount(amount_to_repay, borrowed_amount as int),
                ) > u64::MAX,
            },
    {
        let settle_amount: u128 = if amount_to_repay == u64::MAX {
            borrowed_amount
        } else if (amount_to_repay as u128) <= borrowed_amount {
            amount_to_repay as u128
        } else {
            borrowed_amount
        };
        let repay_amount = match try_ceil_u64(settle_amount) {
            Ok(n) => n,
            Err(e) => {
                return Err(e);
            },
        };
        Ok(CalculateRepayResult { settle_amount, repay_amount })
    }
}

/// Law: depositing liquidity into a balanced reserve (one whose collateral
/// share supply equals its total liquidity supply, a fresh reserve included)
/// mints exactly the deposited amount, and redeeming those shares from the
/// resulting reserve returns exactly the original liquidity.
pub proof fn lemma_deposit_redeem_round_trip(mint_total_supply: int, total_supply: int, amount: int)
    requires
        0 <= mint_total_supply,
        0 <= amount,
        mint_total_supply == total_supply,
    ensures
        spec_liquidity_to_collateral(spec_exchange_rate_raw(mint_total_supply, total_supply), amount)
            == amount,
        spec_collateral_to_liquidity(
            spec_exchange_rate_raw(mint_total_supply + amount, total_supply + amount),
            amount,
        ) == amount,
{
    let w = WAD as int;
    lemma_rate_of_balanced(mint_total_supply, total_supply);
    lemma_rate_of_balanced(mint_total_supply + amount, total_supply + amount);
    lemma_div_by_multiple(amount, w);
    lemma_mul_is_commutative(amount, w);
}

/// Law: depositing liquidity into a reserve whose collateral share supply
/// covers its total liquidity supply, and then redeeming the minted shares
/// from the resulting reserve, returns the original amount less at most one
/// unit of rounding loss, and never more than the original. This holds for
/// any deposit below one WAD of units; a reserve with shares outstanding
/// but no liquidity at all is excluded, as is a rate below one, where the
/// rounding loss of the conversion itself can exceed one unit.
pub proof fn lemma_deposit_redeem_bounded(mint_total_supply: int, total_supply: int, amount: int)
    requires
        1 <= total_supply <= mint_total_supply,
        0 <= amount < WAD,
    ensures
        ({
            let raw1 = spec_exchange_rate_raw(mint_total_supply, total_supply);
            let minted = spec_liquidity_to_collateral(raw1, amount);
            let raw2 = spec_exchange_rate_raw(
                mint_total_supply + minted,
                total_supply + amount,
            );
            let redeemed = spec_collateral_to_liquidity(raw2, minted);
            amount <= minted && amount - 1 <= redeemed <= amount
        }),
{
    let w = WAD as int;
    let m = mint_total_supply;
    let t = total_supply;
    let r1 = m * w / t;
    // the rate of a covered reserve is at least one
    lemma_mul_inequality(t, m, w);
    lemma_div_is_ordered(t * w, m * w, t);
    lemma_div_by_multiple(w, t);
    lemma_mul_is_commutative(t, w);
    assert(r1 >= w);
    let c = amount * r1 / w;
    // at a rate of at least one, at least the deposited amount is minted
    lemma_mul_inequality(w, r1, amount);
    vstd::arithmetic::mul::lemma_mul_is_commutative(amount, r1);
    vstd::arithmetic::mul::lemma_mul_is_commutative(amount, w);
    lemma_div_is_ordered(amount * w, amount * r1, w);
    lemma_div_by_multiple(amount, w);
    assert(c >= amount);
    let m1 = m + c;
    let t1 = t + amount;
    let r2 = m1 * w / t1;
    // the resulting reserve is covered again, so its rate is at least one
    lemma_mul_inequality(t1, m1, w);
    lemma_div_is_ordered(t1 * w, m1 * w, t1);
    lemma_div_by_multiple(w, t1);
    lemma_mul_is_commutative(t1, w);
    assert(r2 >= w);
    assert(spec_exchange_rate_raw(m1, t1) == r2);
    let redeemed = c * w / r2;
    vstd::arithmetic::div_mod::lemma_fundamental_div_mod(m * w, t);
    vstd::arithmetic::div_mod::lemma_fundamental_div_mod(amount * r1, w);
    vstd::arithmetic::div_mod::lemma_fundamental_div_mod(m1 * w, t1);
    vstd::arithmetic::div_mod::lemma_fundamental_div_mod(c * w, r2);
    // upper bound: c * w * t1 stays below (amount + 1) * (r2 * t1 + t1)
    assert(c * w <= amount * r1) by (nonlinear_arith)
        requires
            c == amount * r1 / w,
            w > 0,
            amount >= 0,
            r1 >= 0,
    ;
    assert(r1 * t <= m * w) by (nonlinear_arith)
        requires
            r1 == m * w / t,
            t > 0,
            m >= 0,
            w > 0,
    ;
    assert(r2 * t1 > m1 * w - t1) by (nonlinear_arith)
        requires
            r2 == m1 * w / t1,
            t1 > 0,
            m1 >= 0,
            w > 0,
    ;
    assert(c * w * t1 < (amount + 1) * (r2 * t1)) by (nonlinear_arith)
        requires
            c * w <= amount * r1,
            r1 * t <= m * w,
            r2 * t1 > m1 * w - t1,
            m1 == m + c,
            t1 == t + amount,
            m1 >= t1,
            1 <= t,
            0 <= amount,
            amount + 1 <= w,
            c >= 0,
            w > 1,
    ;
    assert(c * w < (amount + 1) * r2) by (nonlinear_arith)
        requires
            c * w * t1 < (amount + 1) * (r2 * t1),
            t1 > 0,
    ;
    assert(redeemed <= amount) by (nonlinear_arith)
        requires
            redeemed == c * w / r2,
            c * w < (amount + 1) * r2,
            r2 > 0,
            c >= 0,
            w > 0,
            amount >= 0,
    ;
    // the new rate never exceeds the old one
    assert(m * w < (r1 + 1) * t) by (nonlinear_arith)
        requires
            r1 == m * w / t,
            t > 0,
            m >= 0,
            w > 0,
    ;
    assert(m1 * w < (r1 + 1) * t1) by (nonlinear_arith)
        requires
            m1 == m + c,
            t1 == t + amount,
            m * w < (r1 + 1) * t,
            c * w <= amount * r1,
            w > 0,
            t > 0,
            amount >= 0,
            r1 >= 0,
    ;
    assert(r2 <= r1) by (nonlinear_arith)
        requires
            r2 == m1 * w / t1,
            m1 * w < (r1 + 1) * t1,
            t1 > 0,
            m1 >= 0,
            r1 >= 0,
    ;
    // lower bound: dividing by the smaller new rate returns no less
    vstd::arithmetic::div_mod::lemma_div_is_ordered_by_denominator(c * w, r2, r1);
    if amount >= 1 {
        assert(c * w > (amount - 1) * r1) by (nonlinear_arith)
            requires
                c * w > amount * r1 - w,
                r1 >= w,
                amount >= 1,
        ;
        assert(c * w / r1 >= amount - 1) by (nonlinear_arith)
            requires
                c * w > (amount - 1) * r1,
                r1 > 0,
                amount >= 1,
        ;
    } else {
        vstd::arithmetic::div_mod::lemma_div_pos_is_pos(c * w, r2);
        lemma_mul_inequality(0, c, w);
    }
}

/// The exchange rate of a balanced reserve is exactly one.
proof fn lemma_rate_of_balanced(mint_total_supply: int, total_supply: int)
    requires
        0 <= mint_total_supply,
        mint_total_supply == total_supply,
    ensures
        spec_exchange_rate_raw(mint_total_supply, total_supply) == WAD,
{
    let w = WAD as int;
    if mint_total_supply != 0 {
        lemma_div_by_multiple(w, total_supply);
        lemma_mul_is_commutative(mint_total_supply, w);
    }
}

} // verus!
