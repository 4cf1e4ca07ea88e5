use vstd::prelude::*;
use crate::collateral_exchange_rate::CollateralExchangeRate;
use crate::constants::INITIAL_COLLATERAL_RATE;
use crate::errors::LendingError;
use crate::ids::AccountId;
use crate::math::{lemma_u64_times_wad_fits, WAD};
use crate::rate::Rate;

verus! {

/// The WAD-scaled exchange rate a reserve quotes for the given collateral
/// mint supply and total liquidity: the fixed initial rate while either side
/// is empty, else the ratio of collateral supply to total liquidity.
pub open spec fn spec_exchange_rate_raw(mint_total_supply: int, total_liquidity: int) -> int {
    if mint_total_supply == 0 || total_liquidity == 0 {
        INITIAL_COLLATERAL_RATE as int
    } else {
        mint_total_supply * WAD / total_liquidity
    }
}

/// The collateral side of a reserve: the derivative share mint and how many
/// shares of it exist.
#[derive(Clone, Copy, Debug)]
pub struct ReserveCollateral {
    /// Mint address of the collateral share asset.
    pub mint_pubkey: AccountId,
    /// Total number of collateral shares in existence; drives the exchange
    /// rate.
    pub mint_total_supply: u64,
    /// Address of the pool's collateral supply account.
    pub supply_pubkey: AccountId,
}

impl ReserveCollateral {
    /// Bundles the collateral mint, its starting supply and the supply
    /// account.
    pub fn new(mint_pubkey: AccountId, mint_total_supply: u64, supply_pubkey: AccountId) -> (r:
        Self)
        ensures
            r.mint_pubkey == mint_pubkey,
            r.mint_total_supply == mint_total_supply,
            r.supply_pubkey == supply_pubkey,
    {
        Self { mint_pubkey, mint_total_supply, supply_pubkey }
    }

    /// The current exchange rate against the given total liquidity. Fails
    /// with `MathOverflow` exactly when both sides are non-empty but the
    /// total liquidity does not fit a u64.
    pub fn exchange_rate(&self, total_liquidity: u128) -> (r: Result<
        CollateralExchangeRate,
        LendingError,
    >)
        ensures
            match r {
                Ok(x) => x.spec_raw() == spec_exchange_rate_raw(
                    self.mint_total_supply as int,
                    total_liquidity as int,
                ) && (self.mint_total_supply == 0 || total_liquidity == 0 || total_liquidity
                    <= u64::MAX),
                Err(e) => e == LendingError::MathOverflow && self.mint_total_supply != 0
                    && total_liquidity != 0 && total_liquidity > u64::MAX,
            },
    {
        if self.mint_total_supply == 0 || total_liquidity == 0 {
            return Ok(CollateralExchangeRate(Rate(INITIAL_COLLATERAL_RATE as u128)));
        }
        if total_liquidity > u64::MAX as u128 {
            return Err(LendingError::MathOverflow);
        }
        proof {
            lemma_u64_times_wad_fits(self.mint_total_supply as int);
        }
        let raw = (self.mint_total_supply as u128) * (WAD as u128) / total_liquidity;
        Ok(CollateralExchangeRate(Rate(raw)))
    }

    /// Records newly minted collateral shares. Fails with `MathOverflow`,
    /// and changes nothing, exactly when the supply would exceed u64::MAX.
    pub fn mint(&mut self, collateral_amount: u64) -> (r: Result<(), LendingError>)
        ensures
            match r {
                Ok(()) => old(self).mint_total_supply + collateral_amount <= u64::MAX
                    && *final(self) == (ReserveCollateral {
                    mint_total_supply: (old(self).mint_total_supply + collateral_amount) as u64,
                    ..*old(self)
                }),
                Err(e) => e == LendingError::MathOverflow && old(self).mint_total_supply
                    + collateral_amount > u64::MAX && *final(self) == *old(self),
            },
    {
        match self.mint_total_supply.checked_add(collateral_amount) {
            Some(n) => {
                self.mint_total_supply = n;
                Ok(())
            },
            None => Err(LendingError::MathOverflow),
        }
    }

    /// Records burned collateral shares. Fails with `MathOverflow`, and
    /// changes nothing, exactly when more is burned than exists.
    pub fn burn(&mut self, collateral_amount: u64) -> (r: Result<(), LendingError>)
        ensures
            match r {
                Ok(()) => collateral_amount <= old(self).mint_total_supply && *final(self)
                    == (ReserveCollateral {
                    mint_total_supply: (old(self).mint_total_supply - collateral_amount) as u64,
                    ..*old(self)
                }),
                Err(e) => e == LendingError::MathOverflow
                    && collateral_amount > old(self).mint_total_supply
                    && *final(self) == *old(self),
            },
    {
        match self.mint_total_supply.checked_sub(collateral_amount) {
            Some(n) => {
                self.mint_total_supply = n;
                Ok(())
            },
            None => Err(LendingError::MathOverflow),
        }
    }
}

} // verus!
