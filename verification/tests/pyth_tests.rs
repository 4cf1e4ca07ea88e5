use lending_anchor::errors::LendingError;
use lending_anchor::pyth::{get_pyth_price, get_pyth_product_quote_currency, PROD_ATTR_SIZE};

fn attr_with(entries: &[(&[u8], &[u8])]) -> Vec<u8> {
    let mut attr = vec![0u8; PROD_ATTR_SIZE];
    let mut pos = 0;
    for (key, value) in entries {
        attr[pos] = key.len() as u8;
        pos += 1;
        attr[pos..pos + key.len()].copy_from_slice(key);
        pos += key.len();
        attr[pos] = value.len() as u8;
        pos += 1;
        attr[pos..pos + value.len()].copy_from_slice(value);
        pos += value.len();
    }
    attr
}

#[test]
fn quote_currency_is_found_and_zero_padded() {
    let attr = attr_with(&[(b"quote_currency", b"USD")]);
    let value = get_pyth_product_quote_currency(&attr).unwrap();
    assert_eq!(value.len(), 32);
    assert_eq!(&value[0..3], b"USD");
    assert!(value[3..].iter().all(|&b| b == 0));
}

#[test]
fn quote_currency_is_found_after_other_attributes() {
    let attr = attr_with(&[
        (b"asset_type", b"Crypto"),
        (b"symbol", b"Crypto.SOL/USD"),
        (b"quote_currency", b"USD"),
    ]);
    let value = get_pyth_product_quote_currency(&attr).unwrap();
    assert_eq!(&value[0..3], b"USD");
}

#[test]
fn a_missing_quote_currency_is_rejected() {
    let attr = attr_with(&[(b"asset_type", b"Crypto")]);
    // the scan runs into the zeroed tail and finds nothing
    assert_eq!(
        get_pyth_product_quote_currency(&attr),
        Err(LendingError::InvalidOracleConfig)
    );
}

#[test]
fn an_overlong_quote_currency_is_rejected() {
    let long = [7u8; 33];
    let attr = attr_with(&[(b"quote_currency", &long)]);
    assert_eq!(
        get_pyth_product_quote_currency(&attr),
        Err(LendingError::InvalidOracleConfig)
    );
}

#[test]
fn prices_scale_by_the_exponent() {
    assert_eq!(get_pyth_price(12_345, 3, true, true, 100, 100), Ok(12_345_000));
    assert_eq!(get_pyth_price(12_345, 0, true, true, 100, 100), Ok(12_345));
    assert_eq!(get_pyth_price(12_345, -2, true, true, 100, 100), Ok(123));
    assert_eq!(get_pyth_price(0, 5, true, true, 100, 100), Ok(0));
}

#[test]
fn bad_readings_are_rejected() {
    assert_eq!(
        get_pyth_price(1, 0, false, true, 100, 100),
        Err(LendingError::InvalidOracleConfig)
    );
    assert_eq!(
        get_pyth_price(1, 0, true, false, 100, 100),
        Err(LendingError::InvalidOracleConfig)
    );
    assert_eq!(
        get_pyth_price(-1, 0, true, true, 100, 100),
        Err(LendingError::InvalidOracleConfig)
    );
    // four slots old is still fresh, five is stale
    assert_eq!(get_pyth_price(1, 0, true, true, 100, 104), Ok(1));
    assert_eq!(
        get_pyth_price(1, 0, true, true, 100, 105),
        Err(LendingError::InvalidOracleConfig)
    );
    // a reading from the future cannot be aged
    assert_eq!(
        get_pyth_price(1, 0, true, true, 100, 99),
        Err(LendingError::MathOverflow)
    );
    // exponents past what a u64 holds overflow
    assert_eq!(
        get_pyth_price(1, 20, true, true, 100, 100),
        Err(LendingError::MathOverflow)
    );
    assert_eq!(
        get_pyth_price(i64::MAX, 19, true, true, 100, 100),
        Ok(i64::MAX as u128 * 10_000_000_000_000_000_000)
    );
    assert_eq!(
        get_pyth_price(1, -20, true, true, 100, 100),
        Err(LendingError::MathOverflow)
    );
    assert_eq!(
        get_pyth_price(1, i32::MIN, true, true, 100, 100),
        Err(LendingError::MathOverflow)
    );
}
