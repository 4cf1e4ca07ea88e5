use vstd::prelude::*;
use crate::math::{PERCENT_SCALER, WAD};

verus! {

/// A non-negative fixed-point fraction: the held integer is the represented
/// value scaled by WAD.
#[derive(Clone, Copy, Debug, PartialEq, Eq, Structural)]
pub struct Rate(pub u128);

impl Rate {
    /// The WAD-scaled integer this rate holds.
    pub open spec fn spec_val(self) -> int {
        self.0 as int
    }

    /// Builds the rate for a whole percentage: one percent per unit.
    pub fn from_percent(percent: u8) -> (r: Self)
        ensures
            r.spec_val() == percent * PERCENT_SCALER,
    {
        Self((percent as u64 * PERCENT_SCALER) as u128)
    }

    /// The rate representing zero.
    pub fn zero() -> (r: Self)
        ensures
            r.spec_val() == 0,
    {
        Self(0)
    }

    /// The rate representing one.
    pub fn one() -> (r: Self)
        ensures
            r.spec_val() == WAD,
    {
        Self(Self::wad())
    }

    /// The scale factor itself, as the backing integer type.
    pub fn wad() -> (r: u128)
        ensures
            r == WAD,
    {
        WAD as u128
    }

    /// Takes an already WAD-scaled integer as a rate.
    pub fn from_scaled_val(scaled_val: u64) -> (r: Self)
        ensures
            r.spec_val() == scaled_val,
    {
        Self(scaled_val as u128)
    }

    /// The WAD-scaled integer this rate holds.
    pub fn to_scaled_val(self) -> (r: u128)
        ensures
            r == self.spec_val(),
    {
        self.0
    }
}

} // verus!
