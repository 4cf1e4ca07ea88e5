use vstd::prelude::*;

verus! {

/// A 32-byte account address, held as two 128-bit halves so that records can
/// cross-reference each other by value. The core only ever compares
/// identifiers for equality.
#[derive(Clone, Copy, Debug, PartialEq, Eq, Structural)]
pub struct AccountId {
    pub hi: u128,
    pub lo: u128,
}

impl AccountId {
    /// Builds an identifier from its two halves.
    pub fn new(hi: u128, lo: u128) -> (r: AccountId)
        ensures
            r.hi == hi && r.lo == lo,
    {
        AccountId { hi, lo }
    }
}

} // verus!
