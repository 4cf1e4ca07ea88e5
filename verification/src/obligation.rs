use vstd::prelude::*;
use crate::constants::{MAX_OBLIGATION_RESERVE, PROGRAM_VERSION};
use crate::errors::LendingError;
use crate::ids::AccountId;
use crate::last_update::LastUpdate;
use crate::math::WAD;
use crate::obligation_collateral::ObligationCollateral;
use crate::obligation_liquidity::ObligationLiquidity;
use crate::rate::Rate;

verus! {

/// A borrower's position in one market: deposited collateral entries,
/// borrowed liquidity entries, and cached aggregate valuations written by
/// the external valuation refresh.
#[derive(Clone, Debug)]
pub struct Obligation {
    /// Record layout version.
    pub version: u8,
    /// Staleness tracker for this obligation.
    pub last_update: LastUpdate,
    /// The market this obligation belongs to.
    pub lending_market: AccountId,
    /// The borrower who owns this obligation.
    pub owner: AccountId,
    /// Collateral positions, at most one per reserve.
    pub deposits: Vec<ObligationCollateral>,
    /// Borrow positions, at most one per reserve.
    pub borrows: Vec<ObligationLiquidity>,
    /// Cached total value of the deposits, quote currency, WAD-scaled.
    pub deposited_value: u128,
    /// Cached total value of the borrows, quote currency, WAD-scaled.
    pub borrowed_value: u128,
    /// Cached borrow capacity, quote currency, WAD-scaled.
    pub allowed_borrow_value: u128,
    /// Cached liquidation threshold value, quote currency, WAD-scaled.
    pub unhealthy_borrow_value: u128,
}

/// Everything a fresh obligation is initialized with.
pub struct InitObligationParams {
    /// Slot at which the obligation is created.
    pub current_slot: u64,
    /// The market this obligation belongs to.
    pub lending_market: AccountId,
    /// The borrower who owns this obligation.
    pub owner: AccountId,
    /// Starting collateral positions.
    pub deposits: Vec<ObligationCollateral>,
    /// Starting borrow positions.
    pub borrows: Vec<ObligationLiquidity>,
}

impl Obligation {
    /// Whether some collateral entry is held against the given reserve.
    pub open spec fn spec_has_collateral_for(self, id: AccountId) -> bool {
        exists|j: int| 0 <= j < self.deposits@.len() && self.deposits@[j].deposit_reserve == id
    }

    /// Whether some borrow entry is held against the given reserve.
    pub open spec fn spec_has_borrow_for(self, id: AccountId) -> bool {
        exists|j: int| 0 <= j < self.borrows@.len() && self.borrows@[j].borrow_reserve == id
    }

    /// Whether `i` is the position of the first collateral entry against the
    /// given reserve.
    pub open spec fn spec_is_first_collateral_match(self, id: AccountId, i: int) -> bool {
        &&& 0 <= i < self.deposits@.len()
        &&& self.deposits@[i].deposit_reserve == id
        &&& forall|j: int| 0 <= j < i ==> self.deposits@[j].deposit_reserve != id
    }

    /// Whether `i` is the position of the first borrow entry against the
    /// given reserve.
    pub open spec fn spec_is_first_borrow_match(self, id: AccountId, i: int) -> bool {
        &&& 0 <= i < self.borrows@.len()
        &&& self.borrows@[i].borrow_reserve == id
        &&& forall|j: int| 0 <= j < i ==> self.borrows@[j].borrow_reserve != id
    }

    /// Both entry lists and every scalar field agree between `prev` and this
    /// obligation.
    pub open spec fn spec_same_state(self, prev: &Obligation) -> bool {
        &&& self.unchanged_but_deposits(prev)
        &&& self.deposits@ == prev.deposits@
        &&& self.borrows@ == prev.borrows@
    }

    /// The greatest value the position may withdraw without pushing its
    /// borrows past capacity: nothing once the borrows reach the allowed
    /// value, everything while the withdrawn collateral cannot back a loan,
    /// else the spare capacity divided by the loan-to-value rate.
    pub open spec fn spec_max_withdraw_value(self, ltv_raw: int) -> int {
        if self.allowed_borrow_value <= self.borrowed_value {
            0
        } else if ltv_raw == 0 {
            self.deposited_value as int
        } else {
            (self.allowed_borrow_value - self.borrowed_value) * WAD / ltv_raw
        }
    }

    /// Overwrites this record with a freshly initialized obligation; its
    /// staleness tracker starts out stale and the cached aggregates are left
    /// as they are.
    pub fn init(&mut self, params: InitObligationParams)
        ensures
            final(self).version == PROGRAM_VERSION,
            final(self).last_update.slot == params.current_slot,
            final(self).last_update.stale,
            final(self).lending_market == params.lending_market,
            final(self).owner == params.owner,
            final(self).deposits@ == params.deposits@,
            final(self).borrows@ == params.borrows@,
            final(self).deposited_value == old(self).deposited_value,
            final(self).borrowed_value == old(self).borrowed_value,
            final(self).allowed_borrow_value == old(self).allowed_borrow_value,
            final(self).unhealthy_borrow_value == old(self).unhealthy_borrow_value,
    {
        self.version = PROGRAM_VERSION;
        self.last_update = LastUpdate::new(params.current_slot);
        self.lending_market = params.lending_market;
        self.owner = params.owner;
        self.deposits = params.deposits;
        self.borrows = params.borrows;
    }

    /// Takes collateral out of the entry at `collateral_index`: the entry is
    /// removed entirely when exactly its deposited amount is withdrawn, and
    /// reduced otherwise. Fails with `MathOverflow`, changing nothing,
    /// exactly when more than the deposited amount is withdrawn.
    pub fn withdraw(&mut self, withdraw_amount: u64, collateral_index: usize) -> (r: Result<
        (),
        LendingError,
    >)
        requires
            collateral_index < old(self).deposits@.len(),
        ensures
            match r {
                Ok(()) => {
                    &&& withdraw_amount <= old(self).deposits@[collateral_index as int].deposited_amount
                    &&& if withdraw_amount == old(self).deposits@[collateral_index as int].deposited_amount {
                        final(self).deposits@ == old(self).deposits@.remove(collateral_index as int)
                    } else {
                        final(self).deposits@ == old(self).deposits@.update(
                            collateral_index as int,
                            (ObligationCollateral {
                                deposited_amount: (old(self).deposits@[collateral_index as int].deposited_amount
                                    - withdraw_amount) as u64,
                                ..old(self).deposits@[collateral_index as int]
                            }),
                        )
                    }
                    &&& final(self).borrows@ == old(self).borrows@
                    &&& final(self).unchanged_but_deposits(old(self))
                },
                Err(e) => {
                    &&& e == LendingError::MathOverflow
                    &&& withdraw_amount > old(self).deposits@[collateral_index as int].deposited_amount
                    &&& *final(self) == *old(self)
                },
            },
    {
        if withdraw_amount == self.deposits[collateral_index].deposited_amount {
            self.deposits.remove(collateral_index);
            Ok(())
        } else {
            let entry = &self.deposits[collateral_index];
            match entry.deposited_amount.checked_sub(withdraw_amount) {
                Some(n) => {
                    let updated = ObligationCollateral { deposited_amount: n, ..*entry };
                    self.deposits.set(collateral_index, updated);
                    Ok(())
                },
                None => Err(LendingError::MathOverflow),
            }
        }
    }

    /// Settles debt against the entry at `liquidity_index`: the entry is
    /// removed entirely when exactly its borrowed amount is settled, and
    /// reduced otherwise. Fails with `MathOverflow`, changing nothing,
    /// exactly when more than the borrowed amount is settled.
    pub fn repay(&mut self, settle_amount: u128, liquidity_index: usize) -> (r: Result<
        (),
        LendingError,
    >)
        requires
            liquidity_index < old(self).borrows@.len(),
        ensures
            match r {
                Ok(()) => {
                    &&& settle_amount <= old(self).borrows@[liquidity_index as int].borrowed_amount_wads
                    &&& if settle_amount == old(self).borrows@[liquidity_index as int].borrowed_amount_wads {
                        final(self).borrows@ == old(self).borrows@.remove(liquidity_index as int)
                    } else {
                        final(self).borrows@ == old(self).borrows@.update(
                            liquidity_index as int,
                            (ObligationLiquidity {
                                borrowed_amount_wads: (old(self).borrows@[liquidity_index as int].borrowed_amount_wads
                                    - settle_amount) as u128,
                                ..old(self).borrows@[liquidity_index as int]
                            }),
                        )
                    }
                    &&& final(self).deposits@ == old(self).deposits@
                    &&& final(self).unchanged_but_deposits(old(self))
                },
                Err(e) => {
                    &&& e == LendingError::MathOverflow
                    &&& settle_amount > old(self).borrows@[liquidity_index as int].borrowed_amount_wads
                    &&& *final(self) == *old(self)
                },
            },
    {
        if settle_amount == self.borrows[liquidity_index].borrowed_amount_wads {
            self.borrows.remove(liquidity_index);
            Ok(())
        } else {
            let entry = &self.borrows[liquidity_index];
            match entry.borrowed_amount_wads.checked_sub(settle_amount) {
                Some(n) => {
                    let updated = ObligationLiquidity { borrowed_amount_wads: n, ..*entry };
                    self.borrows.set(liquidity_index, updated);
                    Ok(())
                },
                None => Err(LendingError::MathOverflow),
            }
        }
    }

    /// Everything but the two entry lists is unchanged between `prev` and
    /// this obligation.
    pub open spec fn unchanged_but_deposits(self, prev: &Obligation) -> bool {
        &&& self.version == prev.version
        &&& self.last_update == prev.last_update
        &&& self.lending_market == prev.lending_market
        &&& self.owner == prev.owner
        &&& self.deposited_value == prev.deposited_value
        &&& self.borrowed_value == prev.borrowed_value
        &&& self.allowed_borrow_value == prev.allowed_borrow_value
        &&& self.unhealthy_borrow_value == prev.unhealthy_borrow_value
    }

    /// Index of the first collateral entry against the given reserve, if
    /// one exists.
    fn _find_collateral_index_in_deposits(&self, deposit_reserve: AccountId) -> (r: Option<usize>)
        ensures
            match r {
                Some(i) => i < self.deposits@.len()
                    && self.deposits@[i as int].deposit_reserve == deposit_reserve && (forall|j: int|
                    0 <= j < i ==> self.deposits@[j].deposit_reserve != deposit_reserve),
                None => forall|j: int|
                    0 <= j < self.deposits@.len() ==> self.deposits@[j].deposit_reserve
                        != deposit_reserve,
            },
    {
        let mut i: usize = 0;
        while i < self.deposits.len()
            invariant
                i <= self.deposits@.len(),
                forall|j: int| 0 <= j < i ==> self.deposits@[j].deposit_reserve != deposit_reserve,
            decreases self.deposits@.len() - i,
        {
            if self.deposits[i].deposit_reserve == deposit_reserve {
                return Some(i);
            }
            i = i + 1;
        }
        None
    }

    /// Index of the first borrow entry against the given reserve, if one
    /// exists.
    pub fn _find_liquidity_index_in_borrows(&self, borrow_reserve: AccountId) -> (r: Option<usize>)
        ensures
            match r {
                Some(i) => i < self.borrows@.len() && self.borrows@[i as int].borrow_reserve
                    == borrow_reserve && (forall|j: int|
                    0 <= j < i ==> self.borrows@[j].borrow_reserve != borrow_reserve),
                None => forall|j: int|
                    0 <= j < self.borrows@.len() ==> self.borrows@[j].borrow_reserve
                        != borrow_reserve,
            },
    {
        let mut i: usize = 0;
        while i < self.borrows.len()
            invariant
                i <= self.borrows@.len(),
                forall|j: int| 0 <= j < i ==> self.borrows@[j].borrow_reserve != borrow_reserve,
            decreases self.borrows@.len() - i,
        {
            if self.borrows[i].borrow_reserve == borrow_reserve {
                return Some(i);
            }
            i = i + 1;
        }
        None
    }

    /// Index of the collateral entry against the given reserve. Fails,
    /// exactly in these cases, with `ObligatinoDepositsEmpty` when there are
    /// no deposits at all, and with `InvalidObligationCollateral` when none
    /// matches.
    pub fn find_collateral_index_in_deposits(&self, deposit_reserve: AccountId) -> (r: Result<
        usize,
        LendingError,
    >)
        ensures
            match r {
                Ok(i) => i < self.deposits@.len() && self.deposits@[i as int].deposit_reserve
                    == deposit_reserve && (forall|j: int|
                    0 <= j < i ==> self.deposits@[j].deposit_reserve != deposit_reserve),
                Err(e) => if self.deposits@.len() == 0 {
                    e == LendingError::ObligatinoDepositsEmpty
                } else {
                    e == LendingError::InvalidObligationCollateral && (forall|j: int|
                        0 <= j < self.deposits@.len() ==> self.deposits@[j].deposit_reserve
                            != deposit_reserve)
                },
            },
    {
        if self.deposits.len() == 0 {
            return Err(LendingError::ObligatinoDepositsEmpty);
        }
        match self._find_collateral_index_in_deposits(deposit_reserve) {
            Some(i) => Ok(i),
            None => Err(LendingError::InvalidObligationCollateral),
        }
    }

    /// Index of the borrow entry against the given reserve. Fails with
    /// `ObligationLiquidityEmpty` exactly when no entry matches.
    pub fn find_liquidity_index_in_borrows(&self, borrow_reserve: AccountId) -> (r: Result<
        usize,
        LendingError,
    >)
        ensures
            match r {
                Ok(i) => i < self.borrows@.len() && self.borrows@[i as int].borrow_reserve
                    == borrow_reserve && (forall|j: int|
                    0 <= j < i ==> self.borrows@[j].borrow_reserve != borrow_reserve),
                Err(e) => e == LendingError::ObligationLiquidityEmpty && (forall|j: int|
                    0 <= j < self.borrows@.len() ==> self.borrows@[j].borrow_reserve
                        != borrow_reserve),
            },
    {
        match self._find_liquidity_index_in_borrows(borrow_reserve) {
            Some(i) => Ok(i),
            None => Err(LendingError::ObligationLiquidityEmpty),
        }
    }

    /// Index of the collateral entry against the given reserve, appending a
    /// fresh empty entry when none exists. Fails with
    /// `ObligationReserveLimit`, changing nothing, exactly when a new entry
    /// is needed but all reserve slots are taken.
    pub fn find_or_add_collateral_to_deposits(&mut self, deposit_reserve: AccountId) -> (r: Result<
        usize,
        LendingError,
    >)
        ensures
            match r {
                Ok(i) => {
                    &&& i < final(self).deposits@.len()
                    &&& final(self).deposits@[i as int].deposit_reserve == deposit_reserve
                    &&& final(self).borrows@ == old(self).borrows@
                    &&& final(self).unchanged_but_deposits(old(self))
                    &&& if exists|j: int|
                        0 <= j < old(self).deposits@.len() && old(self).deposits@[j].deposit_reserve == deposit_reserve {
                        final(self).deposits@ == old(self).deposits@ && old(self).spec_is_first_collateral_match(deposit_reserve, i as int)
                    } else {
                        old(self).deposits@.len() + old(self).borrows@.len()
                            < MAX_OBLIGATION_RESERVE && i == old(self).deposits@.len() && final(self).deposits@ == old(self).deposits@.push(
                            (ObligationCollateral {
                                deposit_reserve,
                                deposited_amount: 0,
                                market_value: 0,
                            }),
                        )
                    }
                },
                Err(e) => {
                    &&& e == LendingError::ObligationReserveLimit
                    &&& *final(self) == *old(self)
                    &&& (forall|j: int|
                        0 <= j < old(self).deposits@.len() ==> old(self).deposits@[j].deposit_reserve != deposit_reserve)
                    &&& old(self).deposits@.len() + old(self).borrows@.len()
                        >= MAX_OBLIGATION_RESERVE
                },
            },
    {
        match self._find_collateral_index_in_deposits(deposit_reserve) {
            Some(i) => Ok(i),
            None => {
                if self.deposits.len() >= MAX_OBLIGATION_RESERVE || self.borrows.len()
                    >= MAX_OBLIGATION_RESERVE || self.deposits.len() + self.borrows.len()
                    >= MAX_OBLIGATION_RESERVE {
                    return Err(LendingError::ObligationReserveLimit);
                }
                let i = self.deposits.len();
                self.deposits.push(ObligationCollateral::new(deposit_reserve));
                Ok(i)
            },
        }
    }

    /// Index of the borrow entry against the given reserve, appending a
    /// fresh empty entry when none exists. Fails with
    /// `ObligationReserveLimit`, changing nothing, exactly when a new entry
    /// is needed but all reserve slots are taken.
    pub fn find_or_add_liquidity_to_borrows(&mut self, borrow_reserve: AccountId) -> (r: Result<
        usize,
        LendingError,
    >)
        ensures
            match r {
                Ok(i) => {
                    &&& i < final(self).borrows@.len()
                    &&& final(self).borrows@[i as int].borrow_reserve == borrow_reserve
                    &&& final(self).deposits@ == old(self).deposits@
                    &&& final(self).unchanged_but_deposits(old(self))
                    &&& if exists|j: int|
                        0 <= j < old(self).borrows@.len() && old(self).borrows@[j].borrow_reserve
                            == borrow_reserve {
                        final(self).borrows@ == old(self).borrows@ && old(self).spec_is_first_borrow_match(borrow_reserve, i as int)
                    } else {
                        old(self).deposits@.len() + old(self).borrows@.len()
                            < MAX_OBLIGATION_RESERVE && i == old(self).borrows@.len() && final(self).borrows@ == old(self).borrows@.push(
                            (ObligationLiquidity {
                                borrow_reserve,
                                cumulative_borrow_rate_wads: 1,
                                borrowed_amount_wads: 0,
                                market_value: 0,
                            }),
                        )
                    }
                },
                Err(e) => {
                    &&& e == LendingError::ObligationReserveLimit
                    &&& *final(self) == *old(self)
                    &&& (forall|j: int|
                        0 <= j < old(self).borrows@.len() ==> old(self).borrows@[j].borrow_reserve
                            != borrow_reserve)
                    &&& old(self).deposits@.len() + old(self).borrows@.len()
                        >= MAX_OBLIGATION_RESERVE
                },
            },
    {
        match self._find_liquidity_index_in_borrows(borrow_reserve) {
            Some(i) => Ok(i),
            None => {
                if self.deposits.len() >= MAX_OBLIGATION_RESERVE || self.borrows.len()
                    >= MAX_OBLIGATION_RESERVE || self.deposits.len() + self.borrows.len()
                    >= MAX_OBLIGATION_RESERVE {
                    return Err(LendingError::ObligationReserveLimit);
                }
                let i = self.borrows.len();
                self.borrows.push(ObligationLiquidity::new(borrow_reserve));
                Ok(i)
            },
        }
    }

    /// The greatest market value the position may withdraw, per
    /// `spec_max_withdraw_value`. Fails with `MathOverflow` exactly when
    /// scaling the spare borrow capacity overflows.
    pub fn max_withdraw_value(&self, withdraw_collateral_ltv: Rate) -> (r: Result<
        u128,
        LendingError,
    >)
        ensures
            r is Ok <==> (self.allowed_borrow_value <= self.borrowed_value
                || withdraw_collateral_ltv.spec_val() == 0 || (self.allowed_borrow_value
                - self.borrowed_value) * WAD <= u128::MAX),
            match r {
                Ok(v) => v == self.spec_max_withdraw_value(withdraw_collateral_ltv.spec_val()),
                Err(e) => {
                    &&& e == LendingError::MathOverflow
                    &&& self.borrowed_value < self.allowed_borrow_value
                    &&& withdraw_collateral_ltv.spec_val() != 0
                    &&& (self.allowed_borrow_value - self.borrowed_value) * WAD > u128::MAX
                },
            },
    {
        if self.allowed_borrow_value <= self.borrowed_value {
            return Ok(0);
        }
        if withdraw_collateral_ltv.0 == 0 {
            return Ok(self.deposited_value);
        }
        let spare = self.allowed_borrow_value - self.borrowed_value;
        match spare.checked_mul(WAD as u128) {
            Some(scaled) => Ok(scaled / withdraw_collateral_ltv.0),
            None => Err(LendingError::MathOverflow),
        }
    }

    /// The borrow value the position still has room for. Fails with
    /// `MathOverflow` exactly when the cached borrows already exceed the
    /// allowed value.
    pub fn remaining_borrow_value(&self) -> (r: Result<u128, LendingError>)
        ensures
            match r {
                Ok(v) => self.borrowed_value <= self.allowed_borrow_value && v
                    == self.allowed_borrow_value - self.borrowed_value,
                Err(e) => e == LendingError::MathOverflow && self.borrowed_value
                    > self.allowed_borrow_value,
            },
    {
        match self.allowed_borrow_value.checked_sub(self.borrowed_value) {
            Some(v) => Ok(v),
            None => Err(LendingError::MathOverflow),
        }
    }
}

} // verus!
