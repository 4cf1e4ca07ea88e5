use vstd::prelude::*;
use crate::errors::LendingError;
use crate::math::WAD;
use crate::reserve_fees::ReserveFees;

verus! {

/// Risk parameters of a reserve. Percentages are whole numbers out of 100;
/// fee rates are WAD-scaled fractions below one.
#[derive(Clone, Copy, Debug, PartialEq, Eq, Structural)]
pub struct ReserveConfig {
    /// Optimal utilization rate, as a percentage.
    pub optimal_utilization_rate: u8,
    /// Target ratio of the value of borrows to deposits, as a percentage;
    /// zero if use as collateral is disabled.
    pub loan_to_value_ratio: u8,
    /// Bonus a liquidator gets when repaying part of an unhealthy
    /// obligation, as a percentage.
    pub liquidation_bonus: u8,
    /// Loan-to-value ratio at which an obligation can be liquidated, as a
    /// percentage.
    pub liquidation_threshold: u8,
    /// Minimum borrow APY, as a percentage.
    pub min_borrow_rate: u8,
    /// Borrow APY at optimal utilization, as a percentage.
    pub optimal_borrow_rate: u8,
    /// Maximum borrow APY, as a percentage.
    pub max_borrow_rate: u8,
    /// Program owner fees, separate from gains due to interest accrual.
    pub fees: ReserveFees,
}

/// The ordering and bound invariants a reserve configuration must satisfy
/// before a reserve may be initialized with it.
pub open spec fn spec_config_valid(c: ReserveConfig) -> bool {
    &&& c.optimal_utilization_rate < 100
    &&& c.loan_to_value_ratio < 100
    &&& c.liquidation_threshold > c.loan_to_value_ratio
    &&& c.liquidation_threshold <= 100
    &&& c.min_borrow_rate <= c.optimal_borrow_rate
    &&& c.optimal_borrow_rate <= c.max_borrow_rate
    &&& c.fees.borrow_fee_wad < WAD
    &&& c.fees.flash_loan_fee_wad < WAD
}

impl ReserveConfig {
    /// Checks every configuration invariant. Fails with `InvalidConfig`
    /// exactly when one of them is violated.
    pub fn validate(&self) -> (r: Result<(), LendingError>)
        ensures
            match r {
                Ok(()) => spec_config_valid(*self),
                Err(e) => e == LendingError::InvalidConfig && !spec_config_valid(*self),
            },
    {
        if self.optimal_utilization_rate >= 100 {
            return Err(LendingError::InvalidConfig);
        }
        if self.loan_to_value_ratio >= 100 {
            return Err(LendingError::InvalidConfig);
        }
        if self.liquidation_threshold <= self.loan_to_value_ratio {
            return Err(LendingError::InvalidConfig);
        }
        if self.liquidation_threshold > 100 {
            return Err(LendingError::InvalidConfig);
        }
        if self.min_borrow_rate > self.optimal_borrow_rate {
            return Err(LendingError::InvalidConfig);
        }
        if self.optimal_borrow_rate > self.max_borrow_rate {
            return Err(LendingError::InvalidConfig);
        }
        if self.fees.borrow_fee_wad >= WAD {
            return Err(LendingError::InvalidConfig);
        }
        if self.fees.flash_loan_fee_wad >= WAD {
            return Err(LendingError::InvalidConfig);
        }
        Ok(())
    }
}

} // verus!
