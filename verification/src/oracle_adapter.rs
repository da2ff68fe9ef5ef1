//! When a price from an oracle can be used.
use crate::types::{Address, Error};
use vstd::prelude::*;

verus! {

/// How an oracle makes its price.
#[derive(Clone, Copy, Debug, PartialEq, Eq, Structural)]
pub enum OracleKind {
    Spot,
    Twap,
    Fixed,
}

/// Which prices are acceptable.
#[derive(Clone, Copy, Debug, PartialEq, Eq)]
pub struct OracleConfig {
    pub kind: OracleKind,
    pub oracle: Option<Address>,
    pub max_age_seconds: u64,
    pub window_secs: u64,
    pub fixed_numerator: i128,
    pub fixed_denominator: i128,
    pub oracle_price_min: Option<i128>,
    pub oracle_price_max: Option<i128>,
}

/// A price and the time at which it was sampled.
#[derive(Clone, Copy, Debug, PartialEq, Eq, Structural)]
pub struct OraclePrice {
    pub price: i128,
    pub timestamp: u64,
}

/// One unit of price.
pub const PRICE_SCALE: i128 = 10_000_000;

/// How old a sample is; a sample from the future counts as new.
pub open spec fn age_of(now: u64, timestamp: u64) -> int {
    if now >= timestamp {
        now - timestamp
    } else {
        0
    }
}

/// Why a price cannot be used at the time `now`.
pub open spec fn price_refusal(now: u64, price: OraclePrice, config: OracleConfig) -> Option<Error> {
    if price.price <= 0 {
        Some(Error::OraclePriceInvalid)
    } else if age_of(now, price.timestamp) > config.max_age_seconds {
        Some(Error::OraclePriceStale)
    } else if config.oracle_price_min matches Some(min) && price.price < min {
        Some(Error::OraclePriceInvalid)
    } else if config.oracle_price_max matches Some(max) && price.price > max {
        Some(Error::OraclePriceInvalid)
    } else {
        None
    }
}

/// The price, if it is positive, not older than allowed and within the configured band.
pub fn validate_price(now: u64, price: &OraclePrice, config: &OracleConfig) -> (r: Result<
    i128,
    Error,
>)
    ensures
        match price_refusal(now, *price, *config) {
            Some(e) => r == Err::<i128, Error>(e),
            None => r == Ok::<i128, Error>(price.price),
        },
{
    if price.price <= 0 {
        return Err(Error::OraclePriceInvalid);
    }
    let age: u64 = now.saturating_sub(price.timestamp);
    if age > config.max_age_seconds {
        return Err(Error::OraclePriceStale);
    }
    match config.oracle_price_min {
        Some(min) => {
            if price.price < min {
                return Err(Error::OraclePriceInvalid);
            }
        },
        None => {},
    }
    match config.oracle_price_max {
        Some(max) => {
            if price.price > max {
                return Err(Error::OraclePriceInvalid);
            }
        },
        None => {},
    }
    Ok(price.price)
}

/// A spot feed without an oracle address or a price band.
pub fn minimal_config(max_age: u64) -> (c: OracleConfig)
    ensures
        c == (OracleConfig {
            kind: OracleKind::Spot,
            oracle: None,
            max_age_seconds: max_age,
            window_secs: 0,
            fixed_numerator: 0,
            fixed_denominator: 0,
            oracle_price_min: None,
            oracle_price_max: None,
        }),
{
    OracleConfig {
        kind: OracleKind::Spot,
        oracle: None,
        max_age_seconds: max_age,
        window_secs: 0,
        fixed_numerator: 0,
        fixed_denominator: 0,
        oracle_price_min: None,
        oracle_price_max: None,
    }
}

/// A price of one unit that was sampled `age` seconds before `now`, or at time zero.
pub fn price_with_age(now: u64, age: u64) -> (p: OraclePrice)
    ensures
        p.price == PRICE_SCALE,
        p.timestamp == (if now >= age {
            now - age
        } else {
            0
        }),
{
    OraclePrice { price: PRICE_SCALE, timestamp: now.saturating_sub(age) }
}

/// The freshness limit is inclusive: a price exactly `max_age` old is not stale, an older one is.
pub proof fn law_staleness_boundary(now: u64, price: OraclePrice, config: OracleConfig)
    requires
        price.price > 0,
        config.oracle_price_min is None,
        config.oracle_price_max is None,
    ensures
        age_of(now, price.timestamp) <= config.max_age_seconds <==> price_refusal(
            now,
            price,
            config,
        ) is None,
        age_of(now, price.timestamp) > config.max_age_seconds ==> price_refusal(now, price, config)
            == Some(Error::OraclePriceStale),
{
}

} // verus!
