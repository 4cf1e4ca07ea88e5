use vstd::prelude::*;
use crate::errors::LendingError;
use crate::ids::AccountId;

verus! {

/// One collateral position of an obligation: shares of one reserve's
/// collateral mint and their cached market value.
#[derive(Clone, Copy, Debug, PartialEq, Eq, Structural)]
pub struct ObligationCollateral {
    /// The reserve whose collateral is deposited.
    pub deposit_reserve: AccountId,
    /// Deposited collateral shares.
    pub deposited_amount: u64,
    /// Cached market value in quote currency, WAD-scaled; written by the
    /// external valuation refresh.
    pub market_value: u128,
}

impl ObligationCollateral {
    /// A fresh, empty position against the given reserve.
    pub fn new(deposit_reserve: AccountId) -> (r: Self)
        ensures
            r == (ObligationCollateral { deposit_reserve, deposited_amount: 0, market_value: 0 }),
    {
        Self { deposit_reserve, deposited_amount: 0, market_value: 0 }
    }

    /// Adds deposited shares. Fails with `MathOverflow`, changing nothing,
    /// exactly when the position would exceed u64::MAX shares.
    pub fn deposit(&mut self, collateral_amount: u64) -> (r: Result<(), LendingError>)
        ensures
            match r {
                Ok(()) => old(self).deposited_amount + collateral_amount <= u64::MAX && *final(self)
                    == (ObligationCollateral {
                    deposited_amount: (old(self).deposited_amount + collateral_amount) as u64,
                    ..*old(self)
                }),
                Err(e) => e == LendingError::MathOverflow && old(self).deposited_amount
                    + collateral_amount > u64::MAX && *final(self) == *old(self),
            },
    {
        match self.deposited_amount.checked_add(collateral_amount) {
            Some(n) => {
                self.deposited_amount = n;
                Ok(())
            },
            None => Err(LendingError::MathOverflow),
        }
    }

    /// Removes withdrawn shares. Fails with `MathOverflow`, changing
    /// nothing, exactly when more is withdrawn than the position holds.
    pub fn withdraw(&mut self, collateral_amount: u64) -> (r: Result<(), LendingError>)
        ensures
            match r {
                Ok(()) => collateral_amount <= old(self).deposited_amount && *final(self)
                    == (ObligationCollateral {
                    deposited_amount: (old(self).deposited_amount - collateral_amount) as u64,
                    ..*old(self)
                }),
                Err(e) => e == LendingError::MathOverflow && collateral_amount > old(self).deposited_amount && *final(self) == *old(self),
            },
    {
        match self.deposited_amount.checked_sub(collateral_amount) {
            Some(n) => {
                self.deposited_amount = n;
                Ok(())
            },
            None => Err(LendingError::MathOverflow),
        }
    }
}

} // verus!
