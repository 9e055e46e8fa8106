//! How the market state of a keeper is put together.

use crate::precision::MarketType;
use vstd::prelude::*;

verus! {

/// How far, in basis points, a price may lie from the oracle before it is distrusted.
pub const ORACLE_DIFF_THRESHOLD_BPS: u64 = 5;

/// A configured market, and whether a price of its oracle is known.
#[derive(Clone, Copy, Debug, PartialEq, Eq, Structural)]
pub struct MarketConfig {
    pub market_index: u16,
    pub has_oracle_price: bool,
}

/// One entry to make in the market state, for the market at `position` in its list.
#[derive(Clone, Copy, Debug, PartialEq, Eq, Structural)]
pub enum MarketStep {
    SetMarket { market_type: MarketType, position: usize },
    SetOraclePrice { market_type: MarketType, position: usize, market_index: u16 },
}

impl MarketStep {
    /// The kind of market that is entered.
    pub open spec fn kind(self) -> MarketType {
        match self {
            MarketStep::SetMarket { market_type, .. } => market_type,
            MarketStep::SetOraclePrice { market_type, .. } => market_type,
        }
    }

    /// The position of the market in its list.
    pub open spec fn place(self) -> int {
        match self {
            MarketStep::SetMarket { position, .. } => position as int,
            MarketStep::SetOraclePrice { position, .. } => position as int,
        }
    }
}

/// The entries to make, in order, and the oracle threshold to set.
#[derive(Debug)]
pub struct MarketStatePlan {
    pub pyth_oracle_diff_threshold_bps: u64,
    pub steps: Vec<MarketStep>,
}

/// The entries for the market at `position`: the market, then its oracle price if known.
pub open spec fn steps_of_market(
    market_type: MarketType,
    position: int,
    market: MarketConfig,
) -> Seq<MarketStep> {
    let set = MarketStep::SetMarket { market_type, position: position as usize };
    if market.has_oracle_price {
        seq![
            set,
            MarketStep::SetOraclePrice {
                market_type,
                position: position as usize,
                market_index: market.market_index,
            },
        ]
    } else {
        seq![set]
    }
}

/// The entries for a list of markets, in the order of the list.
pub open spec fn steps_of_markets(
    market_type: MarketType,
    markets: Seq<MarketConfig>,
) -> Seq<MarketStep>
    decreases markets.len(),
{
    if markets.len() == 0 {
        seq![]
    } else {
        steps_of_markets(market_type, markets.drop_last()) + steps_of_market(
            market_type,
            markets.len() - 1,
            markets.last(),
        )
    }
}

/// Appends the entries for a list of markets.
fn push_steps(steps: &mut Vec<MarketStep>, market_type: MarketType, markets: &[MarketConfig])
    ensures
        final(steps)@ == old(steps)@ + steps_of_markets(market_type, markets@),
{
    let ghost before = steps@;
    let mut i: usize = 0;
    assert(steps@ =~= before + steps_of_markets(market_type, markets@.take(0)));
    while i < markets.len()
        invariant
            i <= markets@.len(),
            steps@ == before + steps_of_markets(market_type, markets@.take(i as int)),
        decreases markets@.len() - i,
    {
        let market = markets[i];
        proof {
            let upto = markets@.take(i + 1);
            assert(upto.drop_last() =~= markets@.take(i as int));
            assert(upto.last() == market);
        }
        steps.push(MarketStep::SetMarket { market_type, position: i });
        if market.has_oracle_price {
            steps.push(
                MarketStep::SetOraclePrice {
                    market_type,
                    position: i,
                    market_index: market.market_index,
                },
            );
        }
        i = i + 1;
        assert(steps@ =~= before + steps_of_markets(market_type, markets@.take(i as int)));
    }
    assert(markets@.take(markets@.len() as int) =~= markets@);
}

/// Plans the market state: all perp markets, then all spot markets, each with the price of
/// its oracle where one is known.
pub fn build_market_state(perp_markets: &[MarketConfig], spot_markets: &[MarketConfig]) -> (plan:
    MarketStatePlan)
    ensures
        plan.pyth_oracle_diff_threshold_bps == ORACLE_DIFF_THRESHOLD_BPS,
        plan.steps@ == steps_of_markets(MarketType::Perp, perp_markets@) + steps_of_markets(
            MarketType::Spot,
            spot_markets@,
        ),
{
    let mut steps: Vec<MarketStep> = Vec::new();
    push_steps(&mut steps, MarketType::Perp, perp_markets);
    push_steps(&mut steps, MarketType::Spot, spot_markets);
    MarketStatePlan { pyth_oracle_diff_threshold_bps: ORACLE_DIFF_THRESHOLD_BPS, steps }
}

/// Every market of a list is entered, under its own position, and nothing else is; an
/// oracle price is entered just for the markets that have one, under the index of the
/// market, and right after the market itself.
pub proof fn law_plan_covers_markets(market_type: MarketType, markets: Seq<MarketConfig>)
    requires
        markets.len() <= usize::MAX,
    ensures
        forall|kind: MarketType, position: usize|
            #[trigger] steps_of_markets(market_type, markets).contains(
                MarketStep::SetMarket { market_type: kind, position },
            ) <==> kind == market_type && position < markets.len(),
        forall|kind: MarketType, position: usize, market_index: u16|
            #[trigger] steps_of_markets(market_type, markets).contains(
                MarketStep::SetOraclePrice { market_type: kind, position, market_index },
            ) <==> kind == market_type && position < markets.len()
                && markets[position as int].has_oracle_price && market_index
                == markets[position as int].market_index,
        forall|k: int|
            0 <= k < steps_of_markets(market_type, markets).len() ==> ((
            #[trigger] steps_of_markets(market_type, markets)[k]) matches
                MarketStep::SetOraclePrice { position, .. } ==> k > 0 && steps_of_markets(
                market_type,
                markets,
            )[k - 1] == (MarketStep::SetMarket { market_type, position })),
        steps_of_markets(market_type, markets).no_duplicates(),
    decreases markets.len(),
{
    let steps = steps_of_markets(market_type, markets);
    if markets.len() > 0 {
        let last = markets.len() - 1;
        let earlier = steps_of_markets(market_type, markets.drop_last());
        let added = steps_of_market(market_type, last, markets.last());
        law_plan_covers_markets(market_type, markets.drop_last());
        assert(steps =~= earlier + added);
        assert forall|s: MarketStep| #[trigger] steps.contains(s) <==> earlier.contains(s)
            || added.contains(s) by {
            if earlier.contains(s) {
                let i = earlier.index_of(s);
                assert(steps[i] == s);
            }
            if added.contains(s) {
                let i = added.index_of(s);
                assert(steps[earlier.len() + i] == s);
            }
            if steps.contains(s) {
                let i = steps.index_of(s);
                if i < earlier.len() {
                    assert(earlier[i] == s);
                } else {
                    assert(added[i - earlier.len()] == s);
                }
            }
        }
        let set = MarketStep::SetMarket { market_type, position: last as usize };
        let price = MarketStep::SetOraclePrice {
            market_type,
            position: last as usize,
            market_index: markets.last().market_index,
        };
        assert(added[0] == set);
        assert(added.contains(set));
        assert(!earlier.contains(set));
        assert(!earlier.contains(price));
        if markets.last().has_oracle_price {
            assert(added[1] == price);
            assert(added.contains(price));
        }
        assert forall|s: MarketStep| #[trigger] added.contains(s) implies s == set || (s == price
            && markets.last().has_oracle_price) by {
            let i = added.index_of(s);
        }
        assert forall|i: int, j: int|
            0 <= i < steps.len() && 0 <= j < steps.len() && i != j implies steps[i] != steps[j] by {
            if i < earlier.len() {
                assert(earlier.contains(earlier[i]));
            }
            if j < earlier.len() {
                assert(earlier.contains(earlier[j]));
            }
        }
    }
}

/// Markets are entered in the order of their list: positions never go down.
pub proof fn law_markets_are_entered_in_order(
    market_type: MarketType,
    markets: Seq<MarketConfig>,
)
    requires
        markets.len() <= usize::MAX,
    ensures
        forall|k: int|
            0 <= k < steps_of_markets(market_type, markets).len() ==> (
            #[trigger] steps_of_markets(market_type, markets)[k]).kind() == market_type && 0
                <= steps_of_markets(market_type, markets)[k].place() < markets.len(),
        forall|j: int, k: int|
            0 <= j < k < steps_of_markets(market_type, markets).len() ==> (
            #[trigger] steps_of_markets(market_type, markets)[j]).place() <= (
            #[trigger] steps_of_markets(market_type, markets)[k]).place(),
    decreases markets.len(),
{
    if markets.len() > 0 {
        let last = markets.len() - 1;
        let steps = steps_of_markets(market_type, markets);
        let earlier = steps_of_markets(market_type, markets.drop_last());
        let added = steps_of_market(market_type, last, markets.last());
        law_markets_are_entered_in_order(market_type, markets.drop_last());
        assert(steps == earlier + added);
        assert forall|k: int| 0 <= k < steps.len() implies (#[trigger] steps[k]).kind()
            == market_type && 0 <= steps[k].place() < markets.len() && (k >= earlier.len()
            ==> steps[k].place() == last) by {
            if k < earlier.len() {
                assert(steps[k] == earlier[k]);
            } else {
                assert(steps[k] == added[k - earlier.len()]);
            }
        }
        assert forall|j: int, k: int| 0 <= j < k < steps.len() implies (
        #[trigger] steps[j]).place() <= (#[trigger] steps[k]).place() by {
            if k < earlier.len() {
                assert(steps[j] == earlier[j]);
                assert(steps[k] == earlier[k]);
            }
        }
    }
}

/// The plan sets the threshold to five basis points, enters every perp market and every
/// spot market under its own kind and position and no other, and an oracle price just for
/// the markets where one is known, under the index of the market. All perp entries come
/// first, and no entry is made twice.
pub proof fn law_plan_enters_all_markets(
    perp_markets: &[MarketConfig],
    spot_markets: &[MarketConfig],
    plan: MarketStatePlan,
)
    requires
        call_ensures(build_market_state, (perp_markets, spot_markets), plan),
    ensures
        plan.pyth_oracle_diff_threshold_bps == 5,
        forall|kind: MarketType, position: usize|
            #[trigger] plan.steps@.contains(MarketStep::SetMarket { market_type: kind, position })
                <==> position < (if kind == MarketType::Perp {
                perp_markets@
            } else {
                spot_markets@
            }).len(),
        forall|kind: MarketType, position: usize, market_index: u16|
            #[trigger] plan.steps@.contains(
                MarketStep::SetOraclePrice { market_type: kind, position, market_index },
            ) <==> {
                let markets = if kind == MarketType::Perp {
                    perp_markets@
                } else {
                    spot_markets@
                };
                &&& position < markets.len()
                &&& markets[position as int].has_oracle_price
                &&& market_index == markets[position as int].market_index
            },
        plan.steps@.no_duplicates(),
        forall|j: int, k: int|
            0 <= j < k < plan.steps@.len() && (#[trigger] plan.steps@[k]).kind()
                == MarketType::Perp ==> (#[trigger] plan.steps@[j]).kind() == MarketType::Perp,
        forall|j: int, k: int|
            0 <= j < k < plan.steps@.len() && (#[trigger] plan.steps@[j]).kind() == (
            #[trigger] plan.steps@[k]).kind() ==> plan.steps@[j].place() <= plan.steps@[k].place(),
{
    let perp = steps_of_markets(MarketType::Perp, perp_markets@);
    let spot = steps_of_markets(MarketType::Spot, spot_markets@);
    let steps = plan.steps@;
    assert(perp_markets@.len() == perp_markets.len());
    assert(spot_markets@.len() == spot_markets.len());
    law_plan_covers_markets(MarketType::Perp, perp_markets@);
    law_plan_covers_markets(MarketType::Spot, spot_markets@);
    law_markets_are_entered_in_order(MarketType::Perp, perp_markets@);
    law_markets_are_entered_in_order(MarketType::Spot, spot_markets@);
    assert(steps == perp + spot);
    assert forall|k: int| 0 <= k < steps.len() implies (#[trigger] steps[k]) == (if k
        < perp.len() {
        perp[k]
    } else {
        spot[k - perp.len()]
    }) by {
    }
    assert forall|s: MarketStep| #[trigger] steps.contains(s) <==> perp.contains(s)
        || spot.contains(s) by {
        if perp.contains(s) {
            assert(steps[perp.index_of(s)] == s);
        }
        if spot.contains(s) {
            assert(steps[perp.len() + spot.index_of(s)] == s);
        }
        if steps.contains(s) {
            let i = steps.index_of(s);
            if i < perp.len() {
                assert(perp[i] == s);
            } else {
                assert(spot[i - perp.len()] == s);
            }
        }
    }
    assert forall|i: int, j: int|
        0 <= i < steps.len() && 0 <= j < steps.len() && i != j implies steps[i] != steps[j] by {
        if i < perp.len() {
            assert(perp[i].kind() == MarketType::Perp);
        } else {
            assert(spot[i - perp.len()].kind() == MarketType::Spot);
        }
        if j < perp.len() {
            assert(perp[j].kind() == MarketType::Perp);
        } else {
            assert(spot[j - perp.len()].kind() == MarketType::Spot);
        }
    }
}

} // verus!
