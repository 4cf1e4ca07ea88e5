use vstd::prelude::*;
use crate::errors::LendingError;
use crate::math::{lemma_pow10_increases, lemma_pow10_pos, pow10, try_pow10_u64};

verus! {

/// Size in bytes of a price product's attribute area.
pub const PROD_ATTR_SIZE: usize = 464;

/// How many slots old an oracle price may be before it is rejected.
pub const PRICE_STALE_AFTER_SLOTS_ELAPSED: u64 = 5;

/// The attribute key naming a product's quote currency, as bytes.
pub open spec fn spec_quote_key() -> Seq<u8> {
    seq![113u8, 117u8, 111u8, 116u8, 101u8, 95u8, 99u8, 117u8, 114u8, 114u8, 101u8, 110u8, 99u8, 121u8]
}

/// The quote-currency value found in an attribute area from `start` on, zero
/// padded to 32 bytes, or nothing when no well-formed entry for the key
/// exists. The area is a sequence of entries, each a length-prefixed key
/// followed by a length-prefixed value; a malformed entry ends the scan.
pub open spec fn spec_quote_currency(attr: Seq<u8>, start: int) -> Option<Seq<u8>>
    decreases PROD_ATTR_SIZE - start,
    when start <= PROD_ATTR_SIZE
{
    if start < 0 || start >= PROD_ATTR_SIZE {
        None
    } else {
        let length = attr[start] as int;
        let key_start = start + 1;
        if length == spec_quote_key().len() && key_start + length <= PROD_ATTR_SIZE && attr.subrange(
            key_start,
            key_start + length,
        ) == spec_quote_key() {
            let len_pos = key_start + length;
            if len_pos >= PROD_ATTR_SIZE {
                None
            } else {
                let value_len = attr[len_pos] as int;
                let value_start = len_pos + 1;
                if value_len > 32 || value_start + value_len > PROD_ATTR_SIZE {
                    None
                } else {
                    Some(
                        attr.subrange(value_start, value_start + value_len) + Seq::new(
                            (32 - value_len) as nat,
                            |i: int| 0u8,
                        ),
                    )
                }
            }
        } else if length == spec_quote_key().len() && key_start + length > PROD_ATTR_SIZE {
            None
        } else {
            let value_pos = key_start + length;
            if value_pos >= PROD_ATTR_SIZE {
                None
            } else {
                let next = value_pos + 1 + attr[value_pos];
                spec_quote_currency(
                    attr,
                    if next > PROD_ATTR_SIZE {
                        PROD_ATTR_SIZE as int
                    } else {
                        next
                    },
                )
            }
        }
    }
}

/// The bytes of the quote-currency attribute key.
fn quote_key() -> (r: Vec<u8>)
    ensures
        r@ == spec_quote_key(),
{
    let mut key: Vec<u8> = Vec::new();
    key.push(113);
    key.push(117);
    key.push(111);
    key.push(116);
    key.push(101);
    key.push(95);
    key.push(99);
    key.push(117);
    key.push(114);
    key.push(114);
    key.push(101);
    key.push(110);
    key.push(99);
    key.push(121);
    proof {
        assert(key@ =~= spec_quote_key());
    }
    key
}

/// Whether the bytes of `attr` from `at` on match `key` in full.
fn matches_key_at(attr: &Vec<u8>, key: &Vec<u8>, at: usize) -> (r: bool)
    requires
        at + key@.len() <= attr@.len(),
        attr@.len() <= usize::MAX,
    ensures
        r == (attr@.subrange(at as int, at + key@.len()) == key@),
{
    let mut j: usize = 0;
    while j < key.len()
        invariant
            at + key@.len() <= attr@.len(),
            attr@.len() <= usize::MAX,
            j <= key@.len(),
            forall|k: int| 0 <= k < j ==> attr@[at + k] == key@[k],
        decreases key@.len() - j,
    {
        if attr[at + j] != key[j] {
            proof {
                assert(attr@.subrange(at as int, at + key@.len())[j as int] != key@[j as int]);
            }
            return false;
        }
        j = j + 1;
    }
    proof {
        assert(attr@.subrange(at as int, at + key@.len()) =~= key@);
    }
    true
}

/// Scans a product's attribute area for its quote currency and returns it
/// zero padded to 32 bytes. Fails with `InvalidOracleConfig` exactly when no
/// well-formed quote-currency entry exists.
pub fn get_pyth_product_quote_currency(attr: &Vec<u8>) -> (r: Result<Vec<u8>, LendingError>)
    requires
        attr@.len() == PROD_ATTR_SIZE,
    ensures
        match r {
            Ok(v) => v@.len() == 32 && spec_quote_currency(attr@, 0) == Some(v@),
            Err(e) => e == LendingError::InvalidOracleConfig && spec_quote_currency(attr@, 0)
                is None,
        },
{
    let key = quote_key();
    let mut start: usize = 0;
    while start < PROD_ATTR_SIZE
        invariant
            attr@.len() == PROD_ATTR_SIZE,
            start <= PROD_ATTR_SIZE,
            key@ == spec_quote_key(),
            spec_quote_currency(attr@, 0) == spec_quote_currency(attr@, start as int),
        decreases PROD_ATTR_SIZE - start,
    {
        let length = attr[start] as usize;
        let key_start = start + 1;
        let is_quote_key = length == key.len() && key_start + length <= PROD_ATTR_SIZE
            && matches_key_at(attr, &key, key_start);
        if is_quote_key {
            let len_pos = key_start + length;
            if len_pos >= PROD_ATTR_SIZE {
                return Err(LendingError::InvalidOracleConfig);
            }
            let value_len = attr[len_pos] as usize;
            let value_start = len_pos + 1;
            if value_len > 32 {
                return Err(LendingError::InvalidOracleConfig);
            }
            if value_start + value_len > PROD_ATTR_SIZE {
                return Err(LendingError::InvalidOracleConfig);
            }
            let mut value: Vec<u8> = Vec::new();
            let mut j: usize = 0;
            while j < value_len
                invariant
                    attr@.len() == PROD_ATTR_SIZE,
                    value_start + value_len <= PROD_ATTR_SIZE,
                    j <= value_len,
                    value@.len() == j,
                    forall|k: int| 0 <= k < j ==> value@[k] == attr@[value_start + k],
                decreases value_len - j,
            {
                value.push(attr[value_start + j]);
                j = j + 1;
            }
            while value.len() < 32
                invariant
                    attr@.len() == PROD_ATTR_SIZE,
                    value_start + value_len <= PROD_ATTR_SIZE,
                    value_len <= value@.len() <= 32,
                    forall|k: int| 0 <= k < value_len ==> value@[k] == attr@[value_start + k],
                    forall|k: int| value_len <= k < value@.len() ==> value@[k] == 0u8,
                decreases 32 - value.len(),
            {
                value.push(0);
            }
            proof {
                assert(value@ =~= attr@.subrange(
                    value_start as int,
                    value_start + value_len,
                ) + Seq::new((32 - value_len) as nat, |i: int| 0u8));
            }
            return Ok(value);
        }
        if length == key.len() && key_start + length > PROD_ATTR_SIZE {
            return Err(LendingError::InvalidOracleConfig);
        }
        let value_pos = key_start + length;
        if value_pos >= PROD_ATTR_SIZE {
            return Err(LendingError::InvalidOracleConfig);
        }
        let next = value_pos + 1 + attr[value_pos] as usize;
        let clamped = if next > PROD_ATTR_SIZE {
            PROD_ATTR_SIZE
        } else {
            next
        };
        proof {
            assert(spec_quote_currency(attr@, start as int) == spec_quote_currency(
                attr@,
                clamped as int,
            ));
        }
        start = clamped;
    }
    Err(LendingError::InvalidOracleConfig)
}

/// Whether an oracle reading can be turned into a market price: the feed
/// must carry a trading price, be fresh, be non-negative, and scale without
/// overflow.
pub open spec fn spec_pyth_price_ok(
    price: i64,
    expo: i32,
    is_price_type: bool,
    is_trading: bool,
    valid_slot: u64,
    current_slot: u64,
) -> bool {
    &&& is_price_type
    &&& is_trading
    &&& valid_slot <= current_slot
    &&& current_slot - valid_slot < PRICE_STALE_AFTER_SLOTS_ELAPSED
    &&& price >= 0
    &&& if expo >= 0 {
        pow10(expo as nat) <= u64::MAX && (price as int) * pow10(expo as nat) <= u128::MAX
    } else {
        expo > i32::MIN && pow10((-expo) as nat) <= u64::MAX
    }
}

/// The WAD-scaled market price an oracle reading yields: the raw price
/// scaled by ten to the exponent.
pub open spec fn spec_pyth_price_value(price: i64, expo: i32) -> int {
    if expo >= 0 {
        (price as int) * pow10(expo as nat)
    } else {
        (price as int) / pow10((-expo) as nat)
    }
}

/// The error a rejected oracle reading reports: `InvalidOracleConfig` for a
/// wrong type or status, a stale or negative price; `MathOverflow` for a
/// slot from the future or an exponent that overflows the scaling.
pub open spec fn spec_pyth_price_err(
    price: i64,
    expo: i32,
    is_price_type: bool,
    is_trading: bool,
    valid_slot: u64,
    current_slot: u64,
) -> LendingError {
    if !is_price_type {
        LendingError::InvalidOracleConfig
    } else if !is_trading {
        LendingError::InvalidOracleConfig
    } else if current_slot < valid_slot {
        LendingError::MathOverflow
    } else if current_slot - valid_slot >= PRICE_STALE_AFTER_SLOTS_ELAPSED {
        LendingError::InvalidOracleConfig
    } else if price < 0 {
        LendingError::InvalidOracleConfig
    } else {
        LendingError::MathOverflow
    }
}

/// Ten to the twentieth power no longer fits a u64.
proof fn lemma_pow10_20_past_u64()
    ensures
        pow10(20) > u64::MAX,
{
    reveal_with_fuel(pow10, 21);
    assert(pow10(20) == 100000000000000000000);
}

/// Turns an oracle reading into a market price: the raw price scaled by ten
/// to the exponent, rejecting wrong price types and statuses, stale and
/// negative prices, and overflowing exponents. Succeeds exactly when
/// `spec_pyth_price_ok` holds.
pub fn get_pyth_price(
    price: i64,
    expo: i32,
    is_price_type: bool,
    is_trading: bool,
    valid_slot: u64,
    current_slot: u64,
) -> (r: Result<u128, LendingError>)
    ensures
        r is Ok <==> spec_pyth_price_ok(
            price,
            expo,
            is_price_type,
            is_trading,
            valid_slot,
            current_slot,
        ),
        match r {
            Ok(p) => p == spec_pyth_price_value(price, expo),
            Err(e) => e == spec_pyth_price_err(
                price,
                expo,
                is_price_type,
                is_trading,
                valid_slot,
                current_slot,
            ),
        },
{
    if !is_price_type {
        return Err(LendingError::InvalidOracleConfig);
    }
    if !is_trading {
        return Err(LendingError::InvalidOracleConfig);
    }
    let slots_elapsed = match current_slot.checked_sub(valid_slot) {
        Some(n) => n,
        None => {
            return Err(LendingError::MathOverflow);
        },
    };
    if slots_elapsed >= PRICE_STALE_AFTER_SLOTS_ELAPSED {
        return Err(LendingError::InvalidOracleConfig);
    }
    if price < 0 {
        return Err(LendingError::InvalidOracleConfig);
    }
    if expo >= 0 {
        if expo > 19 {
            proof {
                lemma_pow10_20_past_u64();
                lemma_pow10_increases(20, expo as nat);
            }
            return Err(LendingError::MathOverflow);
        }
        let zeros = match try_pow10_u64(expo as u8) {
            Ok(z) => z,
            Err(e) => {
                return Err(e);
            },
        };
        match (price as u128).checked_mul(zeros as u128) {
            Some(p) => Ok(p),
            None => Err(LendingError::MathOverflow),
        }
    } else {
        if expo == i32::MIN {
            return Err(LendingError::MathOverflow);
        }
        let abs_expo = -expo;
        if abs_expo > 19 {
            proof {
                lemma_pow10_20_past_u64();
                lemma_pow10_increases(20, abs_expo as nat);
            }
            return Err(LendingError::MathOverflow);
        }
        let decimals = match try_pow10_u64(abs_expo as u8) {
            Ok(d) => d,
            Err(e) => {
                return Err(e);
            },
        };
        proof {
            lemma_pow10_pos(abs_expo as nat);
        }
        Ok((price as u128) / (decimals as u128))
    }
}

} // verus!
