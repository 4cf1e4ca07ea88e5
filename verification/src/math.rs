use vstd::prelude::*;
use vstd::arithmetic::div_mod::{
    lemma_fundamental_div_mod, lemma_fundamental_div_mod_converse,
};
use vstd::arithmetic::mul::lemma_mul_inequality;
use crate::errors::LendingError;

verus! {

/// Scale factor for fixed-point amounts: fractional values are stored as
/// integers scaled by 10^18 ("WAD").
pub const WAD: u64 = 1_000_000_000_000_000_000;

/// Scale factor turning a percentage (0..=255) into a WAD-scaled fraction:
/// one percent is WAD / 100.
pub const PERCENT_SCALER: u64 = 10_000_000_000_000_000;

/// The integer below a WAD-scaled value: its quotient by WAD, rounded down.
pub open spec fn floor_wad(x: int) -> int {
    x / (WAD as int)
}

/// The integer above a WAD-scaled value: its quotient by WAD, rounded up.
pub open spec fn ceil_wad(x: int) -> int {
    (x + WAD - 1) / (WAD as int)
}

/// The nearest integer to a WAD-scaled value, halves rounded up.
pub open spec fn round_wad(x: int) -> int {
    (x + WAD / 2) / (WAD as int)
}

/// Any quotient of a u128 by WAD that exceeds u64::MAX stays out of reach of
/// a u64 even after the dividend is clipped to u128::MAX.
proof fn lemma_quotient_past_u64(x: int, q: int)
    requires
        q == x / (WAD as int),
        x > u128::MAX,
    ensures
        q > u64::MAX,
{
    lemma_fundamental_div_mod(x, WAD as int);
    if q <= u64::MAX {
        lemma_mul_inequality(q, u64::MAX as int, WAD as int);
        assert(u64::MAX as int * WAD < u128::MAX as int - WAD) by (nonlinear_arith);
    }
}

/// Converts a WAD-scaled value to the integer below it.
/// Fails with `MathOverflow` exactly when that integer does not fit a u64.
pub fn try_floor_u64(v: u128) -> (r: Result<u64, LendingError>)
    ensures
        match r {
            Ok(n) => floor_wad(v as int) <= u64::MAX && n == floor_wad(v as int),
            Err(e) => e == LendingError::MathOverflow && floor_wad(v as int) > u64::MAX,
        },
{
    let q = v / (WAD as u128);
    if q > u64::MAX as u128 {
        Err(LendingError::MathOverflow)
    } else {
        Ok(q as u64)
    }
}

/// Converts a WAD-scaled value to the integer above it.
/// Fails with `MathOverflow` exactly when that integer does not fit a u64.
pub fn try_ceil_u64(v: u128) -> (r: Result<u64, LendingError>)
    ensures
        match r {
            Ok(n) => ceil_wad(v as int) <= u64::MAX && n == ceil_wad(v as int),
            Err(e) => e == LendingError::MathOverflow && ceil_wad(v as int) > u64::MAX,
        },
{
    match v.checked_add((WAD as u128) - 1) {
        Some(s) => {
            let q = s / (WAD as u128);
            if q > u64::MAX as u128 {
                Err(LendingError::MathOverflow)
            } else {
                Ok(q as u64)
            }
        },
        None => {
            proof {
                lemma_quotient_past_u64(v as int + WAD - 1, ceil_wad(v as int));
            }
            Err(LendingError::MathOverflow)
        },
    }
}

/// Converts a WAD-scaled value to the nearest integer, halves rounded up.
/// Fails with `MathOverflow` exactly when that integer does not fit a u64.
pub fn try_round_u64(v: u128) -> (r: Result<u64, LendingError>)
    ensures
        match r {
            Ok(n) => round_wad(v as int) <= u64::MAX && n == round_wad(v as int),
            Err(e) => e == LendingError::MathOverflow && round_wad(v as int) > u64::MAX,
        },
{
    match v.checked_add((WAD as u128) / 2) {
        Some(s) => {
            let q = s / (WAD as u128);
            if q > u64::MAX as u128 {
                Err(LendingError::MathOverflow)
            } else {
                Ok(q as u64)
            }
        },
        None => {
            proof {
                lemma_quotient_past_u64(v as int + WAD / 2, round_wad(v as int));
            }
            Err(LendingError::MathOverflow)
        },
    }
}

/// Ten raised to a small power: the unit count of one whole token for a mint
/// with that many decimals.
pub open spec fn pow10(e: nat) -> int
    decreases e,
{
    if e == 0 {
        1
    } else {
        10 * pow10((e - 1) as nat)
    }
}

/// Powers of ten are positive.
pub proof fn lemma_pow10_pos(e: nat)
    ensures
        pow10(e) >= 1,
    decreases e,
{
    if e > 0 {
        lemma_pow10_pos((e - 1) as nat);
    }
}

/// Powers of ten grow with the exponent.
pub proof fn lemma_pow10_increases(e1: nat, e2: nat)
    requires
        e1 <= e2,
    ensures
        pow10(e1) <= pow10(e2),
    decreases e2,
{
    if e1 < e2 {
        lemma_pow10_increases(e1, (e2 - 1) as nat);
        lemma_pow10_pos((e2 - 1) as nat);
    }
}

/// Computes ten to the given power. Fails with `MathOverflow` exactly when
/// the power does not fit a u64.
pub fn try_pow10_u64(e: u8) -> (r: Result<u64, LendingError>)
    ensures
        match r {
            Ok(n) => pow10(e as nat) <= u64::MAX && n == pow10(e as nat),
            Err(err) => err == LendingError::MathOverflow && pow10(e as nat) > u64::MAX,
        },
{
    let mut acc: u64 = 1;
    let mut i: u8 = 0;
    while i < e
        invariant
            i <= e,
            acc == pow10(i as nat),
        decreases e - i,
    {
        acc = match acc.checked_mul(10) {
            Some(a) => a,
            None => {
                proof {
                    lemma_pow10_increases((i + 1) as nat, e as nat);
                }
                return Err(LendingError::MathOverflow);
            },
        };
        i = i + 1;
    }
    Ok(acc)
}

/// A value within u64 range multiplied by WAD always fits a u128.
pub proof fn lemma_u64_times_wad_fits(a: int)
    requires
        0 <= a <= u64::MAX,
    ensures
        a * WAD <= u128::MAX,
{
    lemma_mul_inequality(a, u64::MAX as int, WAD as int);
    assert(u64::MAX as int * WAD <= u128::MAX) by (nonlinear_arith);
}

/// Law: the floor and ceiling conversions bracket the exact quotient
/// (`floor_wad(x) <= x / WAD <= ceil_wad(x)` as rationals), they differ by at
/// most one, and the rounded conversion always lands on one of the two.
pub proof fn lemma_floor_ceil_round_bracket(x: int)
    requires
        x >= 0,
    ensures
        floor_wad(x) * WAD <= x,
        x <= ceil_wad(x) * WAD,
        floor_wad(x) <= ceil_wad(x),
        ceil_wad(x) - floor_wad(x) <= 1,
        x % (WAD as int) == 0 ==> ceil_wad(x) == floor_wad(x),
        floor_wad(x) <= round_wad(x) <= ceil_wad(x),
{
    let w = WAD as int;
    let q = x / w;
    let r = x % w;
    lemma_fundamental_div_mod(x, w);
    lemma_mul_inequality(0, q, w);
    if r == 0 {
        lemma_fundamental_div_mod_converse(x + w - 1, w, q, w - 1);
        lemma_fundamental_div_mod_converse(x + w / 2, w, q, w / 2);
    } else {
        lemma_fundamental_div_mod_converse(x + w - 1, w, q + 1, r - 1);
        if r < w - w / 2 {
            lemma_fundamental_div_mod_converse(x + w / 2, w, q, r + w / 2);
        } else {
            lemma_fundamental_div_mod_converse(x + w / 2, w, q + 1, r - (w - w / 2));
        }
    }
}

} // verus!
