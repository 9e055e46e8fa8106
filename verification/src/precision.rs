//! Prices and update rates per feed.

use crate::outside::{min_rate_ms, rate_from_millis};
use vstd::prelude::*;

verus! {

/// The two kinds of market that a feed can price.
#[derive(Clone, Copy, Debug, PartialEq, Eq, Structural)]
pub enum MarketType {
    Perp,
    Spot,
}

/// The feed of an asset whose perp market trades in units of a million.
pub open spec fn is_million_feed(feed_id: u32) -> bool {
    feed_id == 9
}

/// The feeds of assets whose perp markets trade in units of a thousand.
pub open spec fn is_thousand_feed(feed_id: u32) -> bool {
    feed_id == 1578 || feed_id == 2396 || feed_id == 137
}

/// A feed price in market units, rounded down.
pub open spec fn scaled_price(price: int, feed_id: u32, market_type: MarketType) -> int {
    let perp = market_type == MarketType::Perp;
    if feed_id == 4 || is_million_feed(feed_id) && perp {
        price * 100
    } else if is_million_feed(feed_id) {
        price / 10_000
    } else if is_thousand_feed(feed_id) && perp {
        price * 10
    } else {
        price / 100
    }
}

/// Scales a feed price into market price precision.
pub fn to_price_precision(price: u64, feed_id: u32, market_type: MarketType) -> (scaled: u64)
    requires
        scaled_price(price as int, feed_id, market_type) <= u64::MAX,
    ensures
        scaled == scaled_price(price as int, feed_id, market_type),
{
    match feed_id {
        9 => match market_type {
            MarketType::Perp => price * 100,
            MarketType::Spot => price / 10_000,
        },
        4 => price * 100,
        1578 | 2396 | 137 => match market_type {
            MarketType::Perp => price * 10,
            MarketType::Spot => price / 100,
        },
        _ => price / 100,
    }
}

/// Whether [`to_price_precision`] can represent its result.
pub fn price_fits(price: u64, feed_id: u32, market_type: MarketType) -> (fits: bool)
    ensures
        fits == (scaled_price(price as int, feed_id, market_type) <= u64::MAX),
{
    match feed_id {
        4 => price <= u64::MAX / 100,
        9 => match market_type {
            MarketType::Perp => price <= u64::MAX / 100,
            MarketType::Spot => true,
        },
        1578 | 2396 | 137 => match market_type {
            MarketType::Perp => price <= u64::MAX / 10,
            MarketType::Spot => true,
        },
        _ => true,
    }
}

/// How often a feed sends updates.
#[derive(Clone, Copy, Debug, PartialEq, Eq, Structural)]
pub struct FixedRate {
    pub ms: u64,
}

/// The shortest update interval on offer, in milliseconds.
pub const MIN_RATE_MS: u64 = 50;

/// The update interval of a feed in milliseconds: the shortest on offer for the major
/// feeds, and a fixed one for the others.
pub open spec fn rate_ms(feed_id: u32) -> u64 {
    if feed_id == 1 || feed_id == 2 || feed_id == 6 {
        MIN_RATE_MS
    } else if feed_id == 10 {
        50
    } else {
        200
    }
}

impl FixedRate {
    /// The interval in milliseconds.
    pub fn value_ms(self) -> (ms: u64)
        ensures
            ms == self.ms,
    {
        self.ms
    }
}

/// The rate at which a feed is subscribed.
pub fn fixed_rate(feed_id: u32) -> (rate: FixedRate)
    ensures
        rate.ms == rate_ms(feed_id),
{
    let ms: u64 = match feed_id {
        1 | 2 | 6 => min_rate_ms(),
        10 => rate_from_millis(50).unwrap(),
        _ => rate_from_millis(200).unwrap(),
    };
    FixedRate { ms }
}

/// A higher feed price never scales to a lower market price.
pub proof fn law_scaling_is_monotone(p: int, q: int, feed_id: u32, market_type: MarketType)
    requires
        0 <= p <= q,
    ensures
        scaled_price(p, feed_id, market_type) <= scaled_price(q, feed_id, market_type),
{
}

/// A price of zero stays zero.
pub proof fn law_zero_scales_to_zero(feed_id: u32, market_type: MarketType)
    ensures
        scaled_price(0, feed_id, market_type) == 0,
{
}

/// A perp market in units of a million is priced a million times its spot market, and one
/// in units of a thousand a thousand times, up to the rounding of the spot price.
pub proof fn law_perp_units(price: int, feed_id: u32)
    requires
        0 <= price,
    ensures
        is_million_feed(feed_id) ==> scaled_price(price, feed_id, MarketType::Perp) / 1_000_000
            == scaled_price(price, feed_id, MarketType::Spot),
        is_thousand_feed(feed_id) ==> scaled_price(price, feed_id, MarketType::Perp) / 1_000
            == scaled_price(price, feed_id, MarketType::Spot),
{
}

/// Outside the feeds with special units, perp and spot markets get the same price.
pub proof fn law_plain_feeds_price_markets_alike(price: int, feed_id: u32)
    requires
        !is_million_feed(feed_id),
        !is_thousand_feed(feed_id),
    ensures
        scaled_price(price, feed_id, MarketType::Perp) == scaled_price(
            price,
            feed_id,
            MarketType::Spot,
        ),
{
}

/// A market price is the feed price divided by 100, from units of 10^-8 to units of 10^-6,
/// and rounded down, but for five feeds: the price of feed 4, and that of feed 9 for a perp
/// market, is multiplied by 100; that of feed 9 for a spot market is divided by 10000; those
/// of feeds 137, 1578 and 2396 for a perp market are multiplied by 10.
pub proof fn law_units_of_every_feed(price: int, feed_id: u32, market_type: MarketType)
    requires
        0 <= price,
    ensures
        feed_id == 4 ==> scaled_price(price, feed_id, market_type) == 100 * price,
        feed_id == 9 ==> {
            let s = scaled_price(price, feed_id, market_type);
            match market_type {
                MarketType::Perp => s == 100 * price,
                MarketType::Spot => s * 10_000 <= price < (s + 1) * 10_000,
            }
        },
        feed_id == 137 || feed_id == 1578 || feed_id == 2396 ==> {
            let s = scaled_price(price, feed_id, market_type);
            match market_type {
                MarketType::Perp => s == 10 * price,
                MarketType::Spot => s * 100 <= price < (s + 1) * 100,
            }
        },
        feed_id != 4 && feed_id != 9 && feed_id != 137 && feed_id != 1578 && feed_id != 2396 ==> {
            let s = scaled_price(price, feed_id, market_type);
            s * 100 <= price < (s + 1) * 100
        },
{
}

/// What [`to_price_precision`] returns keeps the value of the price: multiplied back into
/// feed units it is the price, but for what is lost by rounding down.
pub proof fn law_scaled_price_keeps_value(
    price: u64,
    feed_id: u32,
    market_type: MarketType,
    scaled: u64,
)
    requires
        call_ensures(to_price_precision, (price, feed_id, market_type), scaled),
    ensures
        feed_id == 4 ==> scaled == 100 * price,
        feed_id == 9 ==> match market_type {
            MarketType::Perp => scaled == 100 * price,
            MarketType::Spot => scaled * 10_000 <= price < (scaled + 1) * 10_000,
        },
        feed_id == 137 || feed_id == 1578 || feed_id == 2396 ==> match market_type {
            MarketType::Perp => scaled == 10 * price,
            MarketType::Spot => scaled * 100 <= price < (scaled + 1) * 100,
        },
        feed_id != 4 && feed_id != 9 && feed_id != 137 && feed_id != 1578 && feed_id != 2396
            ==> scaled * 100 <= price < (scaled + 1) * 100,
{
}

/// Only prices that are multiplied can fail to fit, and they do just when the product
/// exceeds 64 bits.
pub proof fn law_only_large_multiples_do_not_fit(
    price: u64,
    feed_id: u32,
    market_type: MarketType,
    fits: bool,
)
    requires
        call_ensures(price_fits, (price, feed_id, market_type), fits),
    ensures
        !fits <==> {
            ||| feed_id == 4 && 100 * price > 0xffff_ffff_ffff_ffff
            ||| feed_id == 9 && market_type is Perp && 100 * price > 0xffff_ffff_ffff_ffff
            ||| (feed_id == 137 || feed_id == 1578 || feed_id == 2396) && market_type is Perp && 10
                * price > 0xffff_ffff_ffff_ffff
        },
{
}

/// The feeds 1, 2, 6 and 10 are subscribed every 50 milliseconds, which no feed falls
/// below, and all others every 200.
pub proof fn law_rate_of_every_feed(feed_id: u32, rate: FixedRate, ms: u64)
    requires
        call_ensures(fixed_rate, (feed_id,), rate),
        call_ensures(FixedRate::value_ms, (rate,), ms),
    ensures
        ms == 50 || ms == 200,
        ms == 50 <==> feed_id == 1 || feed_id == 2 || feed_id == 6 || feed_id == 10,
        rate.ms == ms,
        rate_ms(feed_id) == ms,
{
}

/// Every price that fits can be scaled.
pub proof fn law_fitting_prices_can_be_scaled(price: u64, feed_id: u32, market_type: MarketType)
    requires
        call_ensures(price_fits, (price, feed_id, market_type), true),
    ensures
        call_requires(to_price_precision, (price, feed_id, market_type)),
{
}

} // verus!
