use vstd::prelude::*;
use crate::errors::LendingError;
use crate::ids::AccountId;
use crate::math::{floor_wad, try_floor_u64, WAD};

verus! {

/// The liquidity side of a reserve: the pooled asset, how much of it sits in
/// the pool and how much is lent out, and its current market price.
#[derive(Clone, Copy, Debug)]
pub struct ReserveLiquidity {
    /// Mint address of the liquidity asset.
    pub mint_pubkey: AccountId,
    /// Decimals of the liquidity asset's mint.
    pub mint_decimals: u8,
    /// Address of the pool's liquidity supply account.
    pub supply_pubkey: AccountId,
    /// Address of the account receiving protocol fees.
    pub fee_receiver: AccountId,
    /// Address of the price oracle for this asset.
    pub oracle_pubkey: AccountId,
    /// Liquidity units available in the pool.
    pub available_amount: u64,
    /// Liquidity lent out, WAD-scaled.
    pub borrowed_amount_wads: u128,
    /// Cumulative borrow rate, WAD-scaled.
    pub cumulative_borrow_rate_wads: u128,
    /// Market price of one unit in quote currency, WAD-scaled.
    pub market_price: u128,
}

/// The caller-supplied part of a fresh `ReserveLiquidity`.
pub struct NewReserveLiquidityParams {
    /// Mint address of the liquidity asset.
    pub mint_pubkey: AccountId,
    /// Decimals of the liquidity asset's mint.
    pub mint_decimals: u8,
    /// Address of the pool's liquidity supply account.
    pub supply_pubkey: AccountId,
    /// Address of the account receiving protocol fees.
    pub fee_receiver: AccountId,
    /// Address of the price oracle for this asset.
    pub oracle_pubkey: AccountId,
    /// Market price of one unit in quote currency, WAD-scaled.
    pub market_price: u128,
}

impl ReserveLiquidity {
    /// The pool's total supply: what is available plus what is lent out.
    pub open spec fn spec_total_supply(self) -> int {
        self.available_amount + self.borrowed_amount_wads
    }

    /// A fresh pool holds nothing and has lent nothing.
    pub fn new(params: NewReserveLiquidityParams) -> (r: Self)
        ensures
            r.mint_pubkey == params.mint_pubkey,
            r.mint_decimals == params.mint_decimals,
            r.supply_pubkey == params.supply_pubkey,
            r.fee_receiver == params.fee_receiver,
            r.oracle_pubkey == params.oracle_pubkey,
            r.available_amount == 0,
            r.borrowed_amount_wads == 0,
            r.cumulative_borrow_rate_wads == WAD,
            r.market_price == params.market_price,
    {
        Self {
            mint_pubkey: params.mint_pubkey,
            mint_decimals: params.mint_decimals,
            supply_pubkey: params.supply_pubkey,
            fee_receiver: params.fee_receiver,
            oracle_pubkey: params.oracle_pubkey,
            available_amount: 0,
            borrowed_amount_wads: 0,
            cumulative_borrow_rate_wads: WAD as u128,
            market_price: params.market_price,
        }
    }

    /// The pool's total supply, available plus lent out. Fails with
    /// `MathOverflow` exactly when the sum does not fit a u128.
    pub fn total_supply(&self) -> (r: Result<u128, LendingError>)
        ensures
            match r {
                Ok(t) => self.spec_total_supply() <= u128::MAX && t == self.spec_total_supply(),
                Err(e) => e == LendingError::MathOverflow && self.spec_total_supply() > u128::MAX,
            },
    {
        match (self.available_amount as u128).checked_add(self.borrowed_amount_wads) {
            Some(t) => Ok(t),
            None => Err(LendingError::MathOverflow),
        }
    }

    /// Adds deposited liquidity to the pool. Fails with `MathOverflow`, and
    /// changes nothing, exactly when the pool would exceed u64::MAX units.
    pub fn deposit(&mut self, liquidity_amount: u64) -> (r: Result<(), LendingError>)
        ensures
            match r {
                Ok(()) => old(self).available_amount + liquidity_amount <= u64::MAX && *final(self)
                    == (ReserveLiquidity {
                    available_amount: (old(self).available_amount + liquidity_amount) as u64,
                    ..*old(self)
                }),
                Err(e) => e == LendingError::MathOverflow && old(self).available_amount
                    + liquidity_amount > u64::MAX && *final(self) == *old(self),
            },
    {
        match self.available_amount.checked_add(liquidity_amount) {
            Some(n) => {
                self.available_amount = n;
                Ok(())
            },
            None => Err(LendingError::MathOverflow),
        }
    }

    /// Removes withdrawn liquidity from the pool. Fails with
    /// `InsufficientLiquidity`, and changes nothing, exactly when the pool
    /// holds less than the requested amount.
    pub fn withdraw(&mut self, liquidity_amount: u64) -> (r: Result<(), LendingError>)
        ensures
            match r {
                Ok(()) => liquidity_amount <= old(self).available_amount && *final(self)
                    == (ReserveLiquidity {
                    available_amount: (old(self).available_amount - liquidity_amount) as u64,
                    ..*old(self)
                }),
                Err(e) => e == LendingError::InsufficientLiquidity && liquidity_amount > old(self).available_amount && *final(self) == *old(self),
            },
    {
        if self.available_amount < liquidity_amount {
            return Err(LendingError::InsufficientLiquidity);
        }
        self.available_amount = self.available_amount - liquidity_amount;
        Ok(())
    }

    /// Moves a borrow out of the pool: the whole units leave
    /// `available_amount` and the WAD-scaled amount is added to what is lent
    /// out. Fails, changing nothing, with `MathOverflow` when the borrow's
    /// whole units do not fit a u64 or the lent-out total would overflow,
    /// and with `InsufficientLiquidity` when the pool holds less than the
    /// borrow's whole units.
    pub fn borrow(&mut self, borrow_amount_wads: u128) -> (r: Result<(), LendingError>)
        ensures
            match r {
                Ok(()) => {
                    &&& floor_wad(borrow_amount_wads as int) <= old(self).available_amount
                    &&& old(self).borrowed_amount_wads + borrow_amount_wads <= u128::MAX
                    &&& *final(self) == (ReserveLiquidity {
                        available_amount: (old(self).available_amount - floor_wad(
                            borrow_amount_wads as int,
                        )) as u64,
                        borrowed_amount_wads: (old(self).borrowed_amount_wads
                            + borrow_amount_wads) as u128,
                        ..*old(self)
                    })
                },
                Err(e) => *final(self) == *old(self) && (if floor_wad(borrow_amount_wads as int)
                    > old(self).available_amount {
                    e == LendingError::InsufficientLiquidity
                } else {
                    e == LendingError::MathOverflow && old(self).borrowed_amount_wads
                        + borrow_amount_wads > u128::MAX
                }),
            },
    {
        let whole_units = match try_floor_u64(borrow_amount_wads) {
            Ok(n) => n,
            Err(_) => {
                return Err(LendingError::InsufficientLiquidity);
            },
        };
        if whole_units > self.available_amount {
            return Err(LendingError::InsufficientLiquidity);
        }
        let new_borrowed = match self.borrowed_amount_wads.checked_add(borrow_amount_wads) {
            Some(n) => n,
            None => {
                return Err(LendingError::MathOverflow);
            },
        };
        self.available_amount = self.available_amount - whole_units;
        self.borrowed_amount_wads = new_borrowed;
        Ok(())
    }

    /// Moves a repayment back into the pool: the repaid whole units re-enter
    /// `available_amount` and the WAD-scaled settled amount is taken off
    /// what is lent out. Fails with `MathOverflow`, and changes nothing,
    /// exactly when the pool would exceed u64::MAX units or more is settled
    /// than is lent out.
    pub fn repay(&mut self, repay_amount: u64, settle_amount_wads: u128) -> (r: Result<
        (),
        LendingError,
    >)
        ensures
            match r {
                Ok(()) => {
                    &&& old(self).available_amount + repay_amount <= u64::MAX
                    &&& settle_amount_wads <= old(self).borrowed_amount_wads
                    &&& *final(self) == (ReserveLiquidity {
                        available_amount: (old(self).available_amount + repay_amount) as u64,
                        borrowed_amount_wads: (old(self).borrowed_amount_wads
                            - settle_amount_wads) as u128,
                        ..*old(self)
                    })
                },
                Err(e) => e == LendingError::MathOverflow && *final(self) == *old(self) && (old(self).available_amount + repay_amount > u64::MAX || settle_amount_wads > old(self).borrowed_amount_wads),
            },
    {
        let new_available = match self.available_amount.checked_add(repay_amount) {
            Some(n) => n,
            None => {
                return Err(LendingError::MathOverflow);
            },
        };
        let new_borrowed = match self.borrowed_amount_wads.checked_sub(settle_amount_wads) {
            Some(n) => n,
            None => {
                return Err(LendingError::MathOverflow);
            },
        };
        self.available_amount = new_available;
        self.borrowed_amount_wads = new_borrowed;
        Ok(())
    }
}

} // verus!
