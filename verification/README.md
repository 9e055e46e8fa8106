# keeper_core

The decisions of a keeper bot as a verified library, and a thin program around it.

- `src/limiter.rs`: which order events to act on, given what was acted on recently
- `src/intent.rs`: what a transaction was sent for
- `src/pending.rs`: the ring of transactions sent last
- `src/precision.rs`: price units and update rates per feed
- `src/selection.rs`: which price feeds to subscribe
- `src/message.rs`: from a signed price message to market price updates
- `src/session.rs`: connecting, subscribing, streaming, trying again and giving up
- `src/market_state.rs`: how the market state is put together
- `src/liquidation.rs`: decisions of the one-shot spot liquidation
- `src/outside.rs`: everything taken from other crates and believed without proof
- `app/`: the program: arguments, network, channels
- `tests/`: the library run on concrete values
