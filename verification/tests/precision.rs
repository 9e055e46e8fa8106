use keeper_core::precision::{fixed_rate, price_fits, to_price_precision, MarketType};
use pyth_lazer_protocol::time::FixedRate;

#[test]
fn to_price_precision_scales_per_feed_and_market() {
    // LAZER_1M feed: perp 10^-6 -> 10^-6 * 1M, spot 10^-10 -> 10^-6
    assert_eq!(to_price_precision(100, 9, MarketType::Perp), 10_000);
    assert_eq!(to_price_precision(1_000_000, 9, MarketType::Perp), 100_000_000);
    assert_eq!(to_price_precision(1_000_000, 9, MarketType::Spot), 100);
    assert_eq!(to_price_precision(10_000, 9, MarketType::Spot), 1);

    // feed 4: always *100 (10^-8 -> 10^-6 * 1M)
    assert_eq!(to_price_precision(100, 4, MarketType::Perp), 10_000);
    assert_eq!(to_price_precision(100, 4, MarketType::Spot), 10_000);

    // LAZER_1K feeds: perp 10^-5 -> 10^-6 * 1K, spot 10^-8 -> 10^-6
    for feed_id in [1578u32, 2396, 137] {
        assert_eq!(to_price_precision(100, feed_id, MarketType::Perp), 1_000);
        assert_eq!(to_price_precision(1_000_000, feed_id, MarketType::Spot), 10_000);
    }

    // default feed: 10^-8 -> 10^-6
    assert_eq!(to_price_precision(100, 999, MarketType::Perp), 1);
    assert_eq!(to_price_precision(1_000_000, 999, MarketType::Spot), 10_000);
    assert_eq!(to_price_precision(1_000_000, 999, MarketType::Perp), 10_000);

    // zero price
    assert_eq!(to_price_precision(0, 9, MarketType::Perp), 0);
    assert_eq!(to_price_precision(0, 999, MarketType::Spot), 0);
}

#[test]
fn fixed_rate_maps_feeds_to_intervals() {
    assert_eq!(fixed_rate(1).value_ms(), FixedRate::MIN.duration().as_millis());
    assert_eq!(fixed_rate(2).value_ms(), FixedRate::MIN.duration().as_millis());
    assert_eq!(fixed_rate(6).value_ms(), FixedRate::MIN.duration().as_millis());
    assert_eq!(fixed_rate(10).value_ms(), 50);
    assert_eq!(fixed_rate(11).value_ms(), 200);
    assert_eq!(fixed_rate(999).value_ms(), 200);
}

#[test]
fn shortest_rate_is_fifty_milliseconds() {
    assert_eq!(fixed_rate(1).value_ms(), 50);
}

#[test]
fn scaling_rounds_down_and_is_monotone() {
    assert_eq!(to_price_precision(199, 999, MarketType::Perp), 1);
    assert_eq!(to_price_precision(9_999, 9, MarketType::Spot), 0);
    for feed_id in [4u32, 9, 137, 999] {
        for market_type in [MarketType::Perp, MarketType::Spot] {
            for price in 0u64..500 {
                assert!(
                    to_price_precision(price, feed_id, market_type)
                        <= to_price_precision(price + 1, feed_id, market_type)
                );
            }
        }
    }
}

#[test]
fn perp_units_are_multiples_of_spot_units() {
    for price in [0u64, 1, 9_999, 10_000, 123_456_789] {
        assert_eq!(
            to_price_precision(price, 9, MarketType::Perp) / 1_000_000,
            to_price_precision(price, 9, MarketType::Spot)
        );
        assert_eq!(
            to_price_precision(price, 137, MarketType::Perp) / 1_000,
            to_price_precision(price, 137, MarketType::Spot)
        );
        assert_eq!(
            to_price_precision(price, 999, MarketType::Perp),
            to_price_precision(price, 999, MarketType::Spot)
        );
    }
}

#[test]
fn only_multiplied_prices_can_be_too_large() {
    assert!(price_fits(u64::MAX / 100, 4, MarketType::Spot));
    assert!(!price_fits(u64::MAX / 100 + 1, 4, MarketType::Spot));
    assert!(price_fits(u64::MAX / 100, 9, MarketType::Perp));
    assert!(!price_fits(u64::MAX / 100 + 1, 9, MarketType::Perp));
    assert!(price_fits(u64::MAX, 9, MarketType::Spot));
    assert!(price_fits(u64::MAX / 10, 137, MarketType::Perp));
    assert!(!price_fits(u64::MAX / 10 + 1, 137, MarketType::Perp));
    assert!(price_fits(u64::MAX, 137, MarketType::Spot));
    assert!(price_fits(u64::MAX, 999, MarketType::Perp));
    assert_eq!(to_price_precision(u64::MAX / 100, 4, MarketType::Perp), 18446744073709551600);
}
