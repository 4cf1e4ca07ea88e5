use vstd::prelude::*;
use crate::math::WAD;

verus! {

/// Version number written into freshly initialized records.
pub const PROGRAM_VERSION: u8 = 1;

/// How many units of liquidity one unit of collateral stands for when a
/// reserve has no collateral supply yet.
pub const INITIAL_COLLATERAL_RATIO: u64 = 1;

/// The initial collateral exchange rate as a WAD-scaled value.
pub const INITIAL_COLLATERAL_RATE: u64 = INITIAL_COLLATERAL_RATIO * WAD;

/// Ceiling on the combined number of deposit and borrow entries an
/// obligation may hold.
pub const MAX_OBLIGATION_RESERVE: usize = 10;

} // verus!
