use vstd::prelude::*;
use crate::errors::LendingError;

verus! {

/// How far behind the current tick a record's refresh may lie before the
/// record counts as stale.
pub const STALE_AFTER_SLOTS_ELAPSED: u64 = 1;

/// Staleness tracker attached to every refreshable record: the slot of the
/// last refresh and an explicit dirty flag.
#[derive(Clone, Copy, Debug, PartialEq, Eq, Structural)]
pub struct LastUpdate {
    /// Slot of the last refresh.
    pub slot: u64,
    /// True from construction, and again whenever the owner's
    /// valuation-relevant state is mutated, until the next refresh.
    pub stale: bool,
}

impl LastUpdate {
    /// Whether this tracker must be treated as stale at `slot`: either the
    /// flag is set, or at least `STALE_AFTER_SLOTS_ELAPSED` slots have gone
    /// by, or the tracker sits in the future of `slot`.
    pub open spec fn spec_is_stale(self, slot: u64) -> bool {
        self.stale || slot < self.slot || slot - self.slot >= STALE_AFTER_SLOTS_ELAPSED
    }

    /// A fresh tracker starts out stale: a refresh must happen before any
    /// risk-sensitive operation runs.
    pub fn new(slot: u64) -> (r: Self)
        ensures
            r.slot == slot,
            r.stale,
    {
        Self { slot, stale: true }
    }

    /// How many slots have passed since the last refresh. Fails with
    /// `MathOverflow` exactly when `slot` lies before the recorded one.
    pub fn slots_elapsed(&self, slot: u64) -> (r: Result<u64, LendingError>)
        ensures
            match r {
                Ok(n) => self.slot <= slot && n == slot - self.slot,
                Err(e) => e == LendingError::MathOverflow && slot < self.slot,
            },
    {
        match slot.checked_sub(self.slot) {
            Some(n) => Ok(n),
            None => Err(LendingError::MathOverflow),
        }
    }

    /// Records a refresh at `slot` and clears the dirty flag.
    pub fn update_slot(&mut self, slot: u64)
        ensures
            final(self).slot == slot,
            !final(self).stale,
    {
        self.slot = slot;
        self.stale = false;
    }

    /// Flags the tracker dirty; every mutation of the owner's
    /// valuation-relevant state must do this.
    pub fn mark_stale(&mut self)
        ensures
            final(self).slot == old(self).slot,
            final(self).stale,
    {
        self.stale = true;
    }

    /// Whether the record is stale at `slot`: flagged dirty, or refreshed
    /// too long ago. Fails with `MathOverflow` exactly when `slot` lies
    /// before the recorded refresh.
    pub fn is_stale(&self, slot: u64) -> (r: Result<bool, LendingError>)
        ensures
            match r {
                Ok(b) => b == self.spec_is_stale(slot) && (self.stale || self.slot <= slot),
                Err(e) => e == LendingError::MathOverflow && !self.stale && slot < self.slot,
            },
    {
        if self.stale {
            return Ok(true);
        }
        match self.slots_elapsed(slot) {
            Ok(elapsed) => Ok(elapsed >= STALE_AFTER_SLOTS_ELAPSED),
            Err(e) => Err(e),
        }
    }
}

} // verus!
