use vstd::prelude::*;
use vstd::arithmetic::div_mod::{
    lemma_div_by_multiple, lemma_div_is_ordered, lemma_fundamental_div_mod,
};
use vstd::arithmetic::mul::{lemma_mul_inequality, lemma_mul_is_distributive_sub_other_way};
use crate::errors::LendingError;
use crate::math::{lemma_u64_times_wad_fits, WAD};
use crate::rate::Rate;

verus! {

/// How many collateral units a liquidity amount mints under a WAD-scaled
/// exchange rate, rounded down.
pub open spec fn spec_liquidity_to_collateral(raw_rate: int, liquidity: int) -> int {
    liquidity * raw_rate / (WAD as int)
}

/// How many liquidity units a collateral amount redeems under a WAD-scaled
/// exchange rate, rounded down.
pub open spec fn spec_collateral_to_liquidity(raw_rate: int, collateral: int) -> int {
    collateral * (WAD as int) / raw_rate
}

/// Converter between a reserve's liquidity asset and its derivative
/// collateral-share asset: one collateral unit stands for `1 / rate` units
/// of liquidity.
#[derive(Clone, Copy, Debug)]
pub struct CollateralExchangeRate(pub Rate);

impl CollateralExchangeRate {
    /// The WAD-scaled integer behind this exchange rate.
    pub open spec fn spec_raw(self) -> int {
        self.0.spec_val()
    }

    /// Converts collateral units back into liquidity units, rounding down.
    /// Fails with `MathOverflow` exactly when the rate is zero or the result
    /// does not fit a u64.
    pub fn collateral_to_liquidity(&self, collateral_amount: u64) -> (r: Result<
        u64,
        LendingError,
    >)
        ensures
            match r {
                Ok(l) => self.spec_raw() > 0 && l == spec_collateral_to_liquidity(
                    self.spec_raw(),
                    collateral_amount as int,
                ) && l <= u64::MAX,
                Err(e) => e == LendingError::MathOverflow && (self.spec_raw() == 0
                    || spec_collateral_to_liquidity(self.spec_raw(), collateral_amount as int)
                    > u64::MAX),
            },
    {
        if self.0.0 == 0 {
            return Err(LendingError::MathOverflow);
        }
        proof {
            lemma_u64_times_wad_fits(collateral_amount as int);
        }
        let scaled = (collateral_amount as u128) * (WAD as u128);
        let q = scaled / self.0.0;
        if q > u64::MAX as u128 {
            Err(LendingError::MathOverflow)
        } else {
            Ok(q as u64)
        }
    }

    /// Converts liquidity units into collateral units, rounding down.
    /// Fails with `MathOverflow` exactly when an intermediate product or the
    /// result does not fit.
    pub fn liquidity_to_collateral(&self, liquidity_amount: u64) -> (r: Result<
        u64,
        LendingError,
    >)
        ensures
            match r {
                Ok(c) => liquidity_amount * self.spec_raw() <= u128::MAX && c
                    == spec_liquidity_to_collateral(self.spec_raw(), liquidity_amount as int) && c
                    <= u64::MAX,
                Err(e) => e == LendingError::MathOverflow && (liquidity_amount * self.spec_raw()
                    > u128::MAX || spec_liquidity_to_collateral(
                    self.spec_raw(),
                    liquidity_amount as int,
                ) > u64::MAX),
            },
    {
        match (liquidity_amount as u128).checked_mul(self.0.0) {
            Some(scaled) => {
                let q = scaled / (WAD as u128);
                if q > u64::MAX as u128 {
                    proof {
                        lemma_div_is_ordered(
                            scaled as int,
                            liquidity_amount as int * self.spec_raw(),
                            WAD as int,
                        );
                    }
                    Err(LendingError::MathOverflow)
                } else {
                    Ok(q as u64)
                }
            },
            None => Err(LendingError::MathOverflow),
        }
    }
}

/// Law: converting liquidity to collateral and the result back to liquidity
/// under one exchange rate of at least one returns the original amount, less
/// at most one unit of rounding loss, and never more than the original.
pub proof fn lemma_conversion_round_trip(raw_rate: int, liquidity: int)
    requires
        raw_rate >= WAD,
        liquidity >= 0,
    ensures
        spec_collateral_to_liquidity(
            raw_rate,
            spec_liquidity_to_collateral(raw_rate, liquidity),
        ) <= liquidity,
        liquidity - 1 <= spec_collateral_to_liquidity(
            raw_rate,
            spec_liquidity_to_collateral(raw_rate, liquidity),
        ),
{
    let w = WAD as int;
    let c = liquidity * raw_rate / w;
    let r1 = (liquidity * raw_rate) % w;
    lemma_mul_inequality(0, liquidity, raw_rate);
    assert(liquidity * raw_rate >= 0) by (nonlinear_arith)
        requires
            liquidity >= 0,
            raw_rate >= 0,
    ;
    lemma_fundamental_div_mod(liquidity * raw_rate, w);
    // c * w == liquidity * raw_rate - r1, with 0 <= r1 < w <= raw_rate
    assert(c * w == liquidity * raw_rate - r1);
    // upper bound: c * w <= liquidity * raw_rate
    lemma_div_is_ordered(c * w, liquidity * raw_rate, raw_rate);
    lemma_div_by_multiple(liquidity, raw_rate);
    // (c * w) / raw_rate >= ((liquidity - 1) * raw_rate) / raw_rate == liquidity - 1
    if liquidity >= 1 {
        lemma_mul_is_distributive_sub_other_way(raw_rate, liquidity, 1);
        assert((liquidity - 1) * raw_rate == liquidity * raw_rate - raw_rate);
        lemma_div_is_ordered((liquidity - 1) * raw_rate, c * w, raw_rate);
        lemma_div_by_multiple(liquidity - 1, raw_rate);
    } else {
        vstd::arithmetic::div_mod::lemma_div_pos_is_pos(c * w, raw_rate);
    }
}

} // verus!
