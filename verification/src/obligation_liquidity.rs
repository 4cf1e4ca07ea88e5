use vstd::prelude::*;
use crate::errors::LendingError;
use crate::ids::AccountId;

verus! {

/// One borrow position of an obligation: WAD-scaled debt against one
/// reserve and its cached market value.
#[derive(Clone, Copy, Debug, PartialEq, Eq, Structural)]
pub struct ObligationLiquidity {
    /// The reserve the liquidity is borrowed from.
    pub borrow_reserve: AccountId,
    /// Cumulative borrow rate of the reserve when this position was last
    /// touched, WAD-scaled.
    pub cumulative_borrow_rate_wads: u128,
    /// Borrowed liquidity, WAD-scaled.
    pub borrowed_amount_wads: u128,
    /// Cached market value in quote currency, WAD-scaled; written by the
    /// external valuation refresh.
    pub market_value: u128,
}

impl ObligationLiquidity {
    /// A fresh, empty position against the given reserve.
    pub fn new(borrow_reserve: AccountId) -> (r: Self)
        ensures
            r == (ObligationLiquidity {
                borrow_reserve,
                cumulative_borrow_rate_wads: 1,
                borrowed_amount_wads: 0,
                market_value: 0,
            }),
    {
        Self {
            borrow_reserve,
            cumulative_borrow_rate_wads: 1,
            borrowed_amount_wads: 0,
            market_value: 0,
        }
    }

    /// Settles repaid debt. Fails with `MathOverflow`, changing nothing,
    /// exactly when more is settled than is owed.
    pub fn repay(&mut self, settle_amount: u128) -> (r: Result<(), LendingError>)
        ensures
            match r {
                Ok(()) => settle_amount <= old(self).borrowed_amount_wads && *final(self)
                    == (ObligationLiquidity {
                    borrowed_amount_wads: (old(self).borrowed_amount_wads - settle_amount) as u128,
                    ..*old(self)
                }),
                Err(e) => e == LendingError::MathOverflow && settle_amount > old(self).borrowed_amount_wads && *final(self) == *old(self),
            },
    {
        match self.borrowed_amount_wads.checked_sub(settle_amount) {
            Some(n) => {
                self.borrowed_amount_wads = n;
                Ok(())
            },
            None => Err(LendingError::MathOverflow),
        }
    }

    /// Adds new debt. Fails with `MathOverflow`, changing nothing, exactly
    /// when the debt would exceed u128::MAX.
    pub fn borrow(&mut self, borrow_amount: u128) -> (r: Result<(), LendingError>)
        ensures
            match r {
                Ok(()) => old(self).borrowed_amount_wads + borrow_amount <= u128::MAX && *final(self) == (ObligationLiquidity {
                    borrowed_amount_wads: (old(self).borrowed_amount_wads + borrow_amount) as u128,
                    ..*old(self)
                }),
                Err(e) => e == LendingError::MathOverflow && old(self).borrowed_amount_wads
                    + borrow_amount > u128::MAX && *final(self) == *old(self),
            },
    {
        match self.borrowed_amount_wads.checked_add(borrow_amount) {
            Some(n) => {
                self.borrowed_amount_wads = n;
                Ok(())
            },
            None => Err(LendingError::MathOverflow),
        }
    }
}

} // verus!
