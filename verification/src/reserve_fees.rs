use vstd::prelude::*;
use vstd::arithmetic::div_mod::lemma_div_is_ordered;
use vstd::arithmetic::mul::lemma_mul_inequality;
use crate::errors::LendingError;
use crate::math::{round_wad, try_round_u64, lemma_u64_times_wad_fits, WAD};

verus! {

/// Whether a fee is added on top of the requested amount or carved out of
/// it.
#[derive(Clone, Copy, Debug, PartialEq, Eq, Structural)]
pub enum FeeCalculation {
    /// The fee is added to the borrow: the borrower owes amount plus fee.
    Exclusive,
    /// The fee is subtracted from the borrow: the borrower receives amount
    /// minus fee.
    Inclusive,
}

/// Fee rates assessed on a reserve's borrows.
#[derive(Clone, Copy, Debug, PartialEq, Eq, Structural)]
pub struct ReserveFees {
    /// Fee rate on borrows, as a WAD-scaled fraction.
    pub borrow_fee_wad: u64,
    /// Fee rate on flash loans, as a WAD-scaled fraction.
    pub flash_loan_fee_wad: u64,
    /// Share of the fee owed to the host, as a percentage; zero when no
    /// host fee is assessed.
    pub host_fee_percentage: u8,
}

/// The effective WAD-scaled rate of an inclusive fee: the configured rate
/// taken as a portion of the gross amount.
pub open spec fn spec_inclusive_rate_raw(fee_wad: int) -> int {
    fee_wad * WAD / (fee_wad + WAD)
}

/// The WAD-scaled fee before the minimum is applied: the amount times the
/// effective rate.
pub open spec fn spec_raw_fee_wads(amount: int, fee_wad: int, mode: FeeCalculation) -> int {
    match mode {
        FeeCalculation::Exclusive => amount * fee_wad,
        FeeCalculation::Inclusive => amount * spec_inclusive_rate_raw(fee_wad),
    }
}

/// The minimum WAD-scaled total fee: two units when a host fee is assessed,
/// else one, so that a non-zero fee is never rounded away.
pub open spec fn spec_minimum_fee_wads(host_fee_percentage: u8) -> int {
    if host_fee_percentage > 0 {
        2 * (WAD as int)
    } else {
        WAD as int
    }
}

/// The WAD-scaled total fee: the raw fee, but no less than the minimum.
pub open spec fn spec_fee_wads(
    amount: int,
    fee_wad: int,
    host_fee_percentage: u8,
    mode: FeeCalculation,
) -> int {
    let raw = spec_raw_fee_wads(amount, fee_wad, mode);
    let min = spec_minimum_fee_wads(host_fee_percentage);
    if raw > min {
        raw
    } else {
        min
    }
}

/// The WAD-scaled host share of a total fee.
pub open spec fn spec_host_fee_wads(fee_wads: int, host_fee_percentage: u8) -> int {
    fee_wads * host_fee_percentage / 100
}

/// Whether a fee calculation succeeds: a zero rate or amount always does;
/// otherwise every intermediate product must fit a u128, the fee must stay
/// below the whole amount, and both rounded fees must fit a u64.
pub open spec fn spec_fees_ok(
    amount: int,
    fee_wad: int,
    host_fee_percentage: u8,
    mode: FeeCalculation,
) -> bool {
    let fee = spec_fee_wads(amount, fee_wad, host_fee_percentage, mode);
    ||| fee_wad == 0
    ||| amount == 0
    ||| {
        &&& spec_raw_fee_wads(amount, fee_wad, mode) <= u128::MAX
        &&& amount * WAD <= u128::MAX
        &&& fee < amount * WAD
        &&& round_wad(fee) <= u64::MAX
        &&& (host_fee_percentage > 0 ==> fee * host_fee_percentage <= u128::MAX && round_wad(
            spec_host_fee_wads(fee, host_fee_percentage),
        ) <= u64::MAX)
    }
}

/// The rounded total fee a successful calculation returns.
pub open spec fn spec_borrow_fee(
    amount: int,
    fee_wad: int,
    host_fee_percentage: u8,
    mode: FeeCalculation,
) -> int {
    if fee_wad == 0 || amount == 0 {
        0
    } else {
        round_wad(spec_fee_wads(amount, fee_wad, host_fee_percentage, mode))
    }
}

/// The rounded host fee a successful calculation returns: at least one unit
/// whenever a host fee is assessed.
pub open spec fn spec_host_fee(
    amount: int,
    fee_wad: int,
    host_fee_percentage: u8,
    mode: FeeCalculation,
) -> int {
    if fee_wad == 0 || amount == 0 || host_fee_percentage == 0 {
        0
    } else {
        let h = round_wad(
            spec_host_fee_wads(
                spec_fee_wads(amount, fee_wad, host_fee_percentage, mode),
                host_fee_percentage,
            ),
        );
        if h > 1 {
            h
        } else {
            1
        }
    }
}

/// Whether a failed fee calculation reports `BorrowTooSmall`: the products
/// fit but the fee would consume the entire amount. Every other failure is
/// `MathOverflow`.
pub open spec fn spec_fees_too_small(
    amount: int,
    fee_wad: int,
    host_fee_percentage: u8,
    mode: FeeCalculation,
) -> bool {
    &&& fee_wad != 0
    &&& amount != 0
    &&& spec_raw_fee_wads(amount, fee_wad, mode) <= u128::MAX
    &&& amount * WAD <= u128::MAX
    &&& spec_fee_wads(amount, fee_wad, host_fee_percentage, mode) >= amount * WAD
}

/// A rounded WAD-scaled value strictly below a whole multiple of WAD stays
/// at or below that multiple.
proof fn lemma_round_below_multiple(fee: int, amount: int)
    requires
        0 <= fee,
        0 < amount,
        fee < amount * (WAD as int),
    ensures
        round_wad(fee) <= amount,
{
    let w = WAD as int;
    let q = (fee + w / 2) / w;
    if q > amount {
        lemma_mul_inequality(amount + 1, q, w);
        vstd::arithmetic::div_mod::lemma_fundamental_div_mod(fee + w / 2, w);
    }
}

/// Law: a fee that would consume the whole amount is never returned: once
/// the raw fee, or the minimum fee, reaches the WAD-scaled amount itself,
/// the calculation cannot succeed, and by the calculation's contract the
/// failure is then reported as `BorrowTooSmall`.
pub proof fn lemma_fee_consuming_amount_rejected(
    amount: int,
    fee_wad: int,
    host_fee_percentage: u8,
    mode: FeeCalculation,
)
    requires
        spec_fees_too_small(amount, fee_wad, host_fee_percentage, mode),
    ensures
        !spec_fees_ok(amount, fee_wad, host_fee_percentage, mode),
{
}

/// Law: the total borrow fee is monotonic in the amount: of two successful
/// calculations under one fee schedule and mode, the larger amount never
/// pays the smaller fee. The fee is also never negative.
pub proof fn lemma_borrow_fee_monotonic(
    amount1: int,
    amount2: int,
    fee_wad: int,
    host_fee_percentage: u8,
    mode: FeeCalculation,
)
    requires
        0 <= amount1 <= amount2,
        0 <= fee_wad,
    ensures
        0 <= spec_borrow_fee(amount1, fee_wad, host_fee_percentage, mode),
        spec_borrow_fee(amount1, fee_wad, host_fee_percentage, mode) <= spec_borrow_fee(
            amount2,
            fee_wad,
            host_fee_percentage,
            mode,
        ),
{
    let w = WAD as int;
    let rate = match mode {
        FeeCalculation::Exclusive => fee_wad,
        FeeCalculation::Inclusive => spec_inclusive_rate_raw(fee_wad),
    };
    vstd::arithmetic::div_mod::lemma_div_pos_is_pos(fee_wad * w, fee_wad + w);
    lemma_mul_inequality(0, fee_wad, w);
    assert(rate >= 0);
    vstd::arithmetic::mul::lemma_mul_nonnegative(amount1, rate);
    lemma_mul_inequality(amount1, amount2, rate);
    let fee1 = spec_fee_wads(amount1, fee_wad, host_fee_percentage, mode);
    let fee2 = spec_fee_wads(amount2, fee_wad, host_fee_percentage, mode);
    assert(0 <= fee1 <= fee2);
    lemma_div_is_ordered(fee1 + w / 2, fee2 + w / 2, w);
    vstd::arithmetic::div_mod::lemma_div_pos_is_pos(fee1 + w / 2, w);
}

impl ReserveFees {
    /// Total and host fee on a borrow of `amount` liquidity units under this
    /// fee schedule. Succeeds exactly when `spec_fees_ok` holds of the
    /// borrow fee rate; the total fee then never exceeds the amount, and the
    /// failure is `BorrowTooSmall` exactly when the fee would swallow the
    /// whole amount.
    pub fn calculate_borrow_fees(&self, borrow_amount: u128, fee_calculation: FeeCalculation) -> (r:
        Result<(u64, u64), LendingError>)
        ensures
            r is Ok <==> spec_fees_ok(
                borrow_amount as int,
                self.borrow_fee_wad as int,
                self.host_fee_percentage,
                fee_calculation,
            ),
            match r {
                Ok((borrow_fee, host_fee)) => {
                    &&& borrow_fee == spec_borrow_fee(
                        borrow_amount as int,
                        self.borrow_fee_wad as int,
                        self.host_fee_percentage,
                        fee_calculation,
                    )
                    &&& host_fee == spec_host_fee(
                        borrow_amount as int,
                        self.borrow_fee_wad as int,
                        self.host_fee_percentage,
                        fee_calculation,
                    )
                    &&& borrow_fee <= borrow_amount
                },
                Err(e) => e == (if spec_fees_too_small(
                    borrow_amount as int,
                    self.borrow_fee_wad as int,
                    self.host_fee_percentage,
                    fee_calculation,
                ) {
                    LendingError::BorrowTooSmall
                } else {
                    LendingError::MathOverflow
                }),
            },
    {
        self.calculate_fees(borrow_amount, self.borrow_fee_wad, fee_calculation)
    }

    /// The shared fee computation behind `calculate_borrow_fees`, for an
    /// arbitrary WAD-scaled fee rate.
    fn calculate_fees(&self, amount: u128, fee_wad: u64, fee_calculation: FeeCalculation) -> (r:
        Result<(u64, u64), LendingError>)
        ensures
            r is Ok <==> spec_fees_ok(
                amount as int,
                fee_wad as int,
                self.host_fee_percentage,
                fee_calculation,
            ),
            match r {
                Ok((borrow_fee, host_fee)) => {
                    &&& borrow_fee == spec_borrow_fee(
                        amount as int,
                        fee_wad as int,
                        self.host_fee_percentage,
                        fee_calculation,
                    )
                    &&& host_fee == spec_host_fee(
                        amount as int,
                        fee_wad as int,
                        self.host_fee_percentage,
                        fee_calculation,
                    )
                    &&& borrow_fee <= amount
                },
                Err(e) => e == (if spec_fees_too_small(
                    amount as int,
                    fee_wad as int,
                    self.host_fee_percentage,
                    fee_calculation,
                ) {
                    LendingError::BorrowTooSmall
                } else {
                    LendingError::MathOverflow
                }),
            },
    {
        if fee_wad == 0 || amount == 0 {
            return Ok((0, 0));
        }
        let need_to_assess_host_fee = self.host_fee_percentage > 0;
        let minimum_fee_wads: u128 = if need_to_assess_host_fee {
            2 * (WAD as u128)
        } else {
            WAD as u128
        };
        let raw_fee_wads = match fee_calculation {
            FeeCalculation::Exclusive => match amount.checked_mul(fee_wad as u128) {
                Some(f) => f,
                None => {
                    return Err(LendingError::MathOverflow);
                },
            },
            FeeCalculation::Inclusive => {
                proof {
                    lemma_u64_times_wad_fits(fee_wad as int);
                }
                let inclusive_rate = (fee_wad as u128) * (WAD as u128) / (fee_wad as u128 + WAD
                    as u128);
                match amount.checked_mul(inclusive_rate) {
                    Some(f) => f,
                    None => {
                        return Err(LendingError::MathOverflow);
                    },
                }
            },
        };
        let fee_wads: u128 = if raw_fee_wads > minimum_fee_wads {
            raw_fee_wads
        } else {
            minimum_fee_wads
        };
        let amount_wads = match amount.checked_mul(WAD as u128) {
            Some(a) => a,
            None => {
                return Err(LendingError::MathOverflow);
            },
        };
        if fee_wads >= amount_wads {
            return Err(LendingError::BorrowTooSmall);
        }
        let borrow_fee = match try_round_u64(fee_wads) {
            Ok(f) => f,
            Err(e) => {
                return Err(e);
            },
        };
        proof {
            lemma_round_below_multiple(fee_wads as int, amount as int);
        }
        let host_fee: u64 = if need_to_assess_host_fee {
            let scaled = match fee_wads.checked_mul(self.host_fee_percentage as u128) {
                Some(s) => s,
                None => {
                    return Err(LendingError::MathOverflow);
                },
            };
            let rounded = match try_round_u64(scaled / 100) {
                Ok(h) => h,
                Err(e) => {
                    return Err(e);
                },
            };
            if rounded > 1 {
                rounded
            } else {
                1
            }
        } else {
            0
        };
        Ok((borrow_fee, host_fee))
    }
}

} // verus!
