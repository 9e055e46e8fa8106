use keeper_core::market_state::{build_market_state, MarketConfig, MarketStep};
use keeper_core::precision::MarketType;

fn market(market_index: u16, has_oracle_price: bool) -> MarketConfig {
    MarketConfig { market_index, has_oracle_price }
}

#[test]
fn market_state_is_planned_market_by_market() {
    let plan = build_market_state(&[market(3, true), market(5, false)], &[market(0, true)]);
    assert_eq!(plan.pyth_oracle_diff_threshold_bps, 5);
    assert_eq!(
        plan.steps,
        vec![
            MarketStep::SetMarket { market_type: MarketType::Perp, position: 0 },
            MarketStep::SetOraclePrice {
                market_type: MarketType::Perp,
                position: 0,
                market_index: 3
            },
            MarketStep::SetMarket { market_type: MarketType::Perp, position: 1 },
            MarketStep::SetMarket { market_type: MarketType::Spot, position: 0 },
            MarketStep::SetOraclePrice {
                market_type: MarketType::Spot,
                position: 0,
                market_index: 0
            },
        ]
    );
}

#[test]
fn no_markets_need_no_steps() {
    assert!(build_market_state(&[], &[]).steps.is_empty());
}
