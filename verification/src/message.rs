//! Price messages and the market price updates that they give rise to.

use crate::outside::{parse_payload, parsed_payload, serialize_envelope};
use crate::precision::{price_fits, scaled_price, to_price_precision, MarketType};
use std::collections::HashSet;
use vstd::prelude::*;

verus! {

/// A point in time, in microseconds since the Unix epoch.
#[derive(Clone, Copy, Debug, PartialEq, Eq, Structural)]
pub struct TimestampUs(pub u64);

/// A signed price message as it came in.
#[derive(Debug)]
pub struct SolanaMessage {
    pub payload: Vec<u8>,
    pub signature: [u8; 64],
    pub public_key: [u8; 32],
}

/// A property of a feed in a payload.
#[derive(Clone, Copy, Debug, PartialEq, Eq, Structural)]
pub enum PayloadProperty {
    /// The price in feed units, if there is one.
    Price(Option<i64>),
    /// Any other property.
    Other,
}

/// What a payload says of one feed.
#[derive(Debug)]
pub struct PayloadFeedData {
    pub feed_id: u32,
    pub properties: Vec<PayloadProperty>,
}

/// The contents of a payload.
#[derive(Debug)]
pub struct PayloadData {
    pub timestamp_us: TimestampUs,
    pub feeds: Vec<PayloadFeedData>,
}

/// The mathematical value of a [`PayloadFeedData`].
#[verifier::ext_equal]
pub struct FeedView {
    pub feed_id: u32,
    pub properties: Seq<PayloadProperty>,
}

/// The mathematical value of a [`PayloadData`].
#[verifier::ext_equal]
pub struct PayloadView {
    pub timestamp_us: TimestampUs,
    pub feeds: Seq<FeedView>,
}

impl View for PayloadFeedData {
    type V = FeedView;

    open spec fn view(&self) -> FeedView {
        FeedView { feed_id: self.feed_id, properties: self.properties@ }
    }
}

impl View for PayloadData {
    type V = PayloadView;

    open spec fn view(&self) -> PayloadView {
        PayloadView {
            timestamp_us: self.timestamp_us,
            feeds: self.feeds@.map_values(|feed: PayloadFeedData| feed@),
        }
    }
}

/// The wire form of a signed message: a magic number, the signature, the public key, the
/// length of the payload in little-endian order, and the payload.
pub open spec fn envelope_bytes(
    signature: Seq<u8>,
    public_key: Seq<u8>,
    payload: Seq<u8>,
) -> Seq<u8> {
    seq![0xB9u8, 0x01u8, 0x1Au8, 0x82u8] + signature + public_key + seq![
        (payload.len() % 256) as u8,
        (payload.len() / 256) as u8,
    ] + payload
}

/// A message taken apart: its wire form, to be passed on, and what its payload says.
#[derive(Debug)]
pub struct DecodedMessage {
    pub bytes: Vec<u8>,
    pub data: PayloadData,
}

/// Why a message cannot be taken apart.
#[derive(Clone, Copy, Debug, PartialEq, Eq, Structural)]
pub enum MessageError {
    /// The payload is longer than its length field can say.
    PayloadTooLong,
    /// The payload does not parse.
    MalformedPayload,
}

/// Takes a message apart. A payload that is too long is reported before one that does
/// not parse.
pub fn decode_message(message: &SolanaMessage) -> (decoded: Result<DecodedMessage, MessageError>)
    ensures
        match decoded {
            Ok(m) => {
                &&& message.payload@.len() <= u16::MAX
                &&& m.bytes@ == envelope_bytes(
                    message.signature@,
                    message.public_key@,
                    message.payload@,
                )
                &&& parsed_payload(message.payload@) == Some(m.data@)
            },
            Err(MessageError::PayloadTooLong) => message.payload@.len() > u16::MAX,
            Err(MessageError::MalformedPayload) => {
                &&& message.payload@.len() <= u16::MAX
                &&& parsed_payload(message.payload@) is None
            },
        },
{
    let bytes: Vec<u8> = match serialize_envelope(message) {
        Some(bytes) => bytes,
        None => {
            return Err(MessageError::PayloadTooLong);
        },
    };
    match parse_payload(message.payload.as_slice()) {
        Some(data) => Ok(DecodedMessage { bytes, data }),
        None => Err(MessageError::MalformedPayload),
    }
}

/// The markets that a feed prices.
#[derive(Clone, Copy, Debug, PartialEq, Eq, Structural)]
pub struct FeedMarkets {
    pub perp: Option<u16>,
    pub spot: Option<u16>,
}

/// The market index of an update that belongs to no market.
pub const NO_MARKET: u16 = 0xffff;

/// A new price of a market, with the message that it came in.
#[derive(Debug)]
pub struct PythPriceUpdate {
    pub market_type: MarketType,
    pub market_id: u16,
    pub feed_id: u32,
    pub price: u64,
    /// The message in its wire form.
    pub message: Vec<u8>,
    pub ts: TimestampUs,
}

/// The mathematical value of a [`PythPriceUpdate`].
#[verifier::ext_equal]
pub struct UpdateView {
    pub market_type: MarketType,
    pub market_id: u16,
    pub feed_id: u32,
    pub price: int,
    pub message: Seq<u8>,
    pub ts: TimestampUs,
}

impl View for PythPriceUpdate {
    type V = UpdateView;

    open spec fn view(&self) -> UpdateView {
        UpdateView {
            market_type: self.market_type,
            market_id: self.market_id,
            feed_id: self.feed_id,
            price: self.price as int,
            message: self.message@,
            ts: self.ts,
        }
    }
}

impl Clone for PythPriceUpdate {
    fn clone(&self) -> (copy: Self)
        ensures
            copy@ == self@,
    {
        let message: Vec<u8> = copy_bytes(&self.message);
        PythPriceUpdate {
            market_type: self.market_type,
            market_id: self.market_id,
            feed_id: self.feed_id,
            price: self.price,
            message,
            ts: self.ts,
        }
    }
}

/// A copy of some bytes.
fn copy_bytes(bytes: &Vec<u8>) -> (copy: Vec<u8>)
    ensures
        copy@ == bytes@,
{
    let copy: Vec<u8> = bytes.clone();
    assert(copy@ =~= bytes@);
    copy
}

/// The size of a price, whatever its sign.
pub open spec fn magnitude(price: i64) -> int {
    if price < 0 {
        -(price as int)
    } else {
        price as int
    }
}

/// Where an update of a feed goes: to the perp market of the feed, to its spot market, and,
/// for a feed that was asked for by id and prices no market, to no market in particular.
pub open spec fn update_targets(markets: FeedMarkets, is_extra: bool) -> Seq<(MarketType, u16)> {
    let perp = match markets.perp {
        Some(index) => seq![(MarketType::Perp, index)],
        None => seq![],
    };
    let spot = match markets.spot {
        Some(index) => seq![(MarketType::Spot, index)],
        None => seq![],
    };
    let synthetic = if is_extra && markets.perp is None && markets.spot is None {
        seq![(MarketType::Spot, NO_MARKET)]
    } else {
        seq![]
    };
    perp + spot + synthetic
}

/// The update of one target by one price.
pub open spec fn update_of(
    target: (MarketType, u16),
    feed_id: u32,
    price: i64,
    message: Seq<u8>,
    ts: TimestampUs,
) -> UpdateView {
    UpdateView {
        market_type: target.0,
        market_id: target.1,
        feed_id,
        price: scaled_price(magnitude(price), feed_id, target.0),
        message,
        ts,
    }
}

/// The updates that one price of a feed gives rise to.
pub open spec fn updates_of_price(
    feed_id: u32,
    price: i64,
    markets: FeedMarkets,
    is_extra: bool,
    message: Seq<u8>,
    ts: TimestampUs,
) -> Seq<UpdateView> {
    update_targets(markets, is_extra).map_values(
        |target: (MarketType, u16)| update_of(target, feed_id, price, message, ts),
    )
}

/// The updates that the properties of a feed give rise to, in order.
pub open spec fn updates_of_properties(
    feed_id: u32,
    properties: Seq<PayloadProperty>,
    markets: FeedMarkets,
    is_extra: bool,
    message: Seq<u8>,
    ts: TimestampUs,
) -> Seq<UpdateView>
    decreases properties.len(),
{
    if properties.len() == 0 {
        seq![]
    } else {
        updates_of_properties(feed_id, properties.drop_last(), markets, is_extra, message, ts)
            + match properties.last() {
            PayloadProperty::Price(Some(price)) => updates_of_price(
                feed_id,
                price,
                markets,
                is_extra,
                message,
                ts,
            ),
            _ => seq![],
        }
    }
}

/// The updates that the feeds of a payload give rise to, in order.
pub open spec fn updates_of_feeds(
    feeds: Seq<FeedView>,
    markets: Seq<FeedMarkets>,
    extra_feeds: Set<u32>,
    message: Seq<u8>,
    ts: TimestampUs,
) -> Seq<UpdateView>
    decreases feeds.len(),
{
    if feeds.len() == 0 {
        seq![]
    } else {
        let last = feeds.len() - 1;
        updates_of_feeds(feeds.drop_last(), markets, extra_feeds, message, ts)
            + updates_of_properties(
            feeds[last].feed_id,
            feeds[last].properties,
            markets[last],
            extra_feeds.contains(feeds[last].feed_id),
            message,
            ts,
        )
    }
}

/// The mathematical values of a list of updates.
pub open spec fn update_views(updates: Seq<PythPriceUpdate>) -> Seq<UpdateView> {
    updates.map_values(|update: PythPriceUpdate| update@)
}

/// The size of a price, whatever its sign.
fn price_magnitude(price: i64) -> (size: u64)
    ensures
        size == magnitude(price),
{
    if price < 0 {
        (-(price as i128)) as u64
    } else {
        price as u64
    }
}

/// `after` is `before` with the updates `due` appended, as far as their prices fit an
/// update: all of them if `complete`, and else those before the first that does not fit.
pub open spec fn appended(
    before: Seq<UpdateView>,
    due: Seq<UpdateView>,
    after: Seq<UpdateView>,
    complete: bool,
) -> bool {
    let n = after.len() - before.len();
    &&& 0 <= n <= due.len()
    &&& after == before + due.take(n)
    &&& complete ==> n == due.len()
    &&& !complete ==> n < due.len() && due[n].price > u64::MAX
}

/// Appending in two goes is appending once, and what stops the first go stops both.
proof fn lemma_appended_twice(
    before: Seq<UpdateView>,
    first: Seq<UpdateView>,
    between: Seq<UpdateView>,
    second: Seq<UpdateView>,
    after: Seq<UpdateView>,
    complete: bool,
)
    ensures
        appended(before, first, between, true) && appended(between, second, after, complete)
            ==> appended(before, first + second, after, complete),
        appended(before, first, between, false) ==> appended(
            before,
            first + second,
            between,
            false,
        ),
{
    let all = first + second;
    if appended(before, first, between, true) && appended(between, second, after, complete) {
        let n = after.len() - between.len();
        assert(first.take(first.len() as int) =~= first);
        assert(all.take(first.len() + n) =~= first + second.take(n));
        assert(after =~= before + all.take(first.len() + n));
    }
    if appended(before, first, between, false) {
        let n = between.len() - before.len();
        assert(all.take(n) =~= first.take(n));
    }
}

/// Appends an update of one target by one price if the scaled price fits.
fn push_update(
    updates: &mut Vec<PythPriceUpdate>,
    target: (MarketType, u16),
    feed_id: u32,
    price: i64,
    message: &Vec<u8>,
    ts: TimestampUs,
) -> (complete: bool)
    ensures
        appended(
            update_views(old(updates)@),
            seq![update_of(target, feed_id, price, message@, ts)],
            update_views(final(updates)@),
            complete,
        ),
{
    let ghost before = update_views(updates@);
    let ghost due = seq![update_of(target, feed_id, price, message@, ts)];
    let size: u64 = price_magnitude(price);
    if !price_fits(size, feed_id, target.0) {
        assert(before =~= before + due.take(0));
        return false;
    }
    let update = PythPriceUpdate {
        market_type: target.0,
        market_id: target.1,
        feed_id,
        price: to_price_precision(size, feed_id, target.0),
        message: copy_bytes(message),
        ts,
    };
    updates.push(update);
    assert(update_views(updates@) =~= before + due.take(1));
    true
}

/// Appends the updates that one price of a feed gives rise to, as far as they fit.
fn push_price_updates(
    updates: &mut Vec<PythPriceUpdate>,
    feed_id: u32,
    price: i64,
    markets: FeedMarkets,
    is_extra: bool,
    message: &Vec<u8>,
    ts: TimestampUs,
) -> (complete: bool)
    ensures
        appended(
            update_views(old(updates)@),
            updates_of_price(feed_id, price, markets, is_extra, message@, ts),
            update_views(final(updates)@),
            complete,
        ),
{
    let ghost before = update_views(updates@);
    let ghost all = updates_of_price(feed_id, price, markets, is_extra, message@, ts);
    let ghost mut due: Seq<UpdateView> = seq![];
    assert(before =~= before + due.take(0));
    if let Some(market_id) = markets.perp {
        let target = (MarketType::Perp, market_id);
        let ghost between = update_views(updates@);
        let ghost next = seq![update_of(target, feed_id, price, message@, ts)];
        let complete: bool = push_update(updates, target, feed_id, price, message, ts);
        proof {
            lemma_appended_twice(before, due, between, next, update_views(updates@), complete);
            due = due + next;
        }
        if !complete {
            proof {
                let rest = all.skip(1);
                assert(all =~= due + rest);
                lemma_appended_twice(before, due, update_views(updates@), rest, seq![], false);
            }
            return false;
        }
    }
    if let Some(market_id) = markets.spot {
        let target = (MarketType::Spot, market_id);
        let ghost between = update_views(updates@);
        let ghost next = seq![update_of(target, feed_id, price, message@, ts)];
        let complete: bool = push_update(updates, target, feed_id, price, message, ts);
        proof {
            lemma_appended_twice(before, due, between, next, update_views(updates@), complete);
            due = due + next;
        }
        if !complete {
            assert(all =~= due);
            return false;
        }
    }
    if is_extra && markets.perp.is_none() && markets.spot.is_none() {
        let target = (MarketType::Spot, NO_MARKET);
        let ghost between = update_views(updates@);
        let ghost next = seq![update_of(target, feed_id, price, message@, ts)];
        let complete: bool = push_update(updates, target, feed_id, price, message, ts);
        proof {
            lemma_appended_twice(before, due, between, next, update_views(updates@), complete);
            due = due + next;
            assert(all =~= due);
        }
        return complete;
    }
    assert(all =~= due);
    true
}

/// The updates of the first properties of a feed come first among those of all.
proof fn lemma_properties_prefix(
    feed_id: u32,
    properties: Seq<PayloadProperty>,
    n: int,
    markets: FeedMarkets,
    is_extra: bool,
    message: Seq<u8>,
    ts: TimestampUs,
) -> (rest: Seq<UpdateView>)
    requires
        0 <= n <= properties.len(),
    ensures
        updates_of_properties(feed_id, properties, markets, is_extra, message, ts)
            == updates_of_properties(
            feed_id,
            properties.take(n),
            markets,
            is_extra,
            message,
            ts,
        ) + rest,
    decreases properties.len(),
{
    let all = updates_of_properties(feed_id, properties, markets, is_extra, message, ts);
    let first = updates_of_properties(
        feed_id,
        properties.take(n),
        markets,
        is_extra,
        message,
        ts,
    );
    if n == properties.len() {
        assert(properties.take(n) =~= properties);
        assert(all =~= first + seq![]);
        seq![]
    } else {
        let shorter = properties.drop_last();
        assert(shorter.take(n) =~= properties.take(n));
        let rest = lemma_properties_prefix(feed_id, shorter, n, markets, is_extra, message, ts);
        let of_shorter = updates_of_properties(
            feed_id,
            shorter,
            markets,
            is_extra,
            message,
            ts,
        );
        let tail = all.skip(of_shorter.len() as int);
        assert(all =~= of_shorter + tail);
        assert(all =~= first + (rest + tail));
        rest + tail
    }
}

/// Appends the updates that the properties of a feed give rise to, as far as they fit.
fn push_feed_updates(
    updates: &mut Vec<PythPriceUpdate>,
    feed: &PayloadFeedData,
    markets: FeedMarkets,
    is_extra: bool,
    message: &Vec<u8>,
    ts: TimestampUs,
) -> (complete: bool)
    ensures
        appended(
            update_views(old(updates)@),
            updates_of_properties(
                feed.feed_id,
                feed.properties@,
                markets,
                is_extra,
                message@,
                ts,
            ),
            update_views(final(updates)@),
            complete,
        ),
{
    let ghost before = update_views(updates@);
    let ghost properties = feed.properties@;
    let ghost due = |n: int|
        updates_of_properties(
            feed.feed_id,
            properties.take(n),
            markets,
            is_extra,
            message@,
            ts,
        );
    let mut i: usize = 0;
    assert(before =~= before + due(0).take(0));
    while i < feed.properties.len()
        invariant
            i <= properties.len(),
            properties == feed.properties@,
            due == (|n: int|
                updates_of_properties(
                    feed.feed_id,
                    properties.take(n),
                    markets,
                    is_extra,
                    message@,
                    ts,
                )),
            before == update_views(old(updates)@),
            appended(before, due(i as int), update_views(updates@), true),
        decreases properties.len() - i,
    {
        let property = feed.properties[i];
        proof {
            let upto = properties.take(i + 1);
            assert(upto.drop_last() =~= properties.take(i as int));
            assert(upto.last() == property);
        }
        if let PayloadProperty::Price(Some(price)) = property {
            let ghost between = update_views(updates@);
            let ghost next = updates_of_price(
                feed.feed_id,
                price,
                markets,
                is_extra,
                message@,
                ts,
            );
            let complete: bool = push_price_updates(
                updates,
                feed.feed_id,
                price,
                markets,
                is_extra,
                message,
                ts,
            );
            proof {
                let after = update_views(updates@);
                lemma_appended_twice(before, due(i as int), between, next, after, complete);
                assert(due(i + 1) == due(i as int) + next);
            }
            if !complete {
                proof {
                    let rest = lemma_properties_prefix(
                        feed.feed_id,
                        properties,
                        i + 1,
                        markets,
                        is_extra,
                        message@,
                        ts,
                    );
                    let after = update_views(updates@);
                    lemma_appended_twice(before, due(i + 1), after, rest, seq![], false);
                }
                return false;
            }
        } else {
            assert(due(i + 1) =~= due(i as int));
        }
        i = i + 1;
    }
    assert(properties.take(properties.len() as int) =~= properties);
    true
}

/// The updates of the first feeds of a payload come first among those of all.
proof fn lemma_feeds_prefix(
    feeds: Seq<FeedView>,
    n: int,
    markets: Seq<FeedMarkets>,
    extra_feeds: Set<u32>,
    message: Seq<u8>,
    ts: TimestampUs,
) -> (rest: Seq<UpdateView>)
    requires
        0 <= n <= feeds.len(),
    ensures
        updates_of_feeds(feeds, markets, extra_feeds, message, ts) == updates_of_feeds(
            feeds.take(n),
            markets,
            extra_feeds,
            message,
            ts,
        ) + rest,
    decreases feeds.len(),
{
    let all = updates_of_feeds(feeds, markets, extra_feeds, message, ts);
    let first = updates_of_feeds(feeds.take(n), markets, extra_feeds, message, ts);
    if n == feeds.len() {
        assert(feeds.take(n) =~= feeds);
        assert(all =~= first + seq![]);
        seq![]
    } else {
        let shorter = feeds.drop_last();
        assert(shorter.take(n) =~= feeds.take(n));
        let rest = lemma_feeds_prefix(shorter, n, markets, extra_feeds, message, ts);
        let of_shorter = updates_of_feeds(shorter, markets, extra_feeds, message, ts);
        let tail = all.skip(of_shorter.len() as int);
        assert(all =~= of_shorter + tail);
        assert(all =~= first + (rest + tail));
        rest + tail
    }
}

/// The updates of a message in order, and whether these are all: a price too large for an
/// update ends the list before it.
pub struct PriceUpdates {
    pub updates: Vec<PythPriceUpdate>,
    pub complete: bool,
}

/// The market price updates of a message. `markets` gives the markets of each feed of the
/// payload, in the order of the feeds.
pub fn price_updates(
    decoded: &DecodedMessage,
    markets: &[FeedMarkets],
    extra_feeds: &HashSet<u32>,
) -> (result: PriceUpdates)
    requires
        markets@.len() == decoded.data.feeds@.len(),
    ensures
        appended(
            seq![],
            updates_of_feeds(
                decoded.data@.feeds,
                markets@,
                extra_feeds@,
                decoded.bytes@,
                decoded.data.timestamp_us,
            ),
            update_views(result.updates@),
            result.complete,
        ),
{
    broadcast use vstd::std_specs::hash::group_hash_axioms;

    let mut updates: Vec<PythPriceUpdate> = Vec::new();
    let ghost feeds = decoded.data@.feeds;
    let ts: TimestampUs = decoded.data.timestamp_us;
    let ghost due = |n: int|
        updates_of_feeds(feeds.take(n), markets@, extra_feeds@, decoded.bytes@, ts);
    let mut i: usize = 0;
    assert(update_views(updates@) =~= Seq::<UpdateView>::empty() + due(0).take(0));
    while i < decoded.data.feeds.len()
        invariant
            i <= feeds.len(),
            feeds == decoded.data@.feeds,
            markets@.len() == feeds.len(),
            ts == decoded.data.timestamp_us,
            due == (|n: int|
                updates_of_feeds(feeds.take(n), markets@, extra_feeds@, decoded.bytes@, ts)),
            appended(seq![], due(i as int), update_views(updates@), true),
        decreases feeds.len() - i,
    {
        let feed = &decoded.data.feeds[i];
        let is_extra: bool = extra_feeds.contains(&feed.feed_id);
        let ghost between = update_views(updates@);
        let complete: bool = push_feed_updates(
            &mut updates,
            feed,
            markets[i],
            is_extra,
            &decoded.bytes,
            ts,
        );
        proof {
            let after = update_views(updates@);
            let next = updates_of_properties(
                feed.feed_id,
                feed.properties@,
                markets@[i as int],
                is_extra,
                decoded.bytes@,
                ts,
            );
            let upto = feeds.take(i + 1);
            assert(upto.drop_last() =~= feeds.take(i as int));
            assert(upto[i as int] == feed@);
            assert(due(i + 1) == due(i as int) + next);
            lemma_appended_twice(seq![], due(i as int), between, next, after, complete);
        }
        if !complete {
            proof {
                let after = update_views(updates@);
                let rest = lemma_feeds_prefix(
                    feeds,
                    i + 1,
                    markets@,
                    extra_feeds@,
                    decoded.bytes@,
                    ts,
                );
                lemma_appended_twice(seq![], due(i + 1), after, rest, seq![], false);
            }
            return PriceUpdates { updates, complete: false };
        }
        i = i + 1;
    }
    assert(feeds.take(feeds.len() as int) =~= feeds);
    PriceUpdates { updates, complete: true }
}

/// A list of updates is complete exactly when every price due fits an update, and then it
/// holds all that is due.
pub proof fn law_complete_iff_prices_fit(
    due: Seq<UpdateView>,
    updates: Seq<PythPriceUpdate>,
    complete: bool,
)
    requires
        appended(seq![], due, update_views(updates), complete),
    ensures
        complete <==> forall|k: int| 0 <= k < due.len() ==> (#[trigger] due[k]).price <= u64::MAX,
        complete ==> update_views(updates) == due,
{
    let views = update_views(updates);
    assert(Seq::<UpdateView>::empty() + due.take(views.len() as int) =~= due.take(
        views.len() as int,
    ));
    if complete {
        assert(views =~= due);
        assert forall|k: int| 0 <= k < due.len() implies (#[trigger] due[k]).price <= u64::MAX by {
            assert(due[k] == updates[k]@);
        }
    }
}

/// A feed that prices markets updates just those, one update each; a feed that prices
/// none gives one update without a market if it was asked for by id, and none otherwise.
pub proof fn law_update_targets(markets: FeedMarkets, is_extra: bool)
    ensures
        forall|index: u16|
            update_targets(markets, is_extra).contains((MarketType::Perp, index)) <==> markets.perp
                == Some(index),
        markets.perp is Some || markets.spot is Some ==> {
            &&& forall|index: u16|
                update_targets(markets, is_extra).contains((MarketType::Spot, index))
                    <==> markets.spot == Some(index)
            &&& update_targets(markets, is_extra) == update_targets(markets, false)
        },
        markets.perp is None && markets.spot is None ==> update_targets(markets, is_extra) == (
        if is_extra {
            seq![(MarketType::Spot, NO_MARKET)]
        } else {
            seq![]
        }),
        update_targets(markets, is_extra).no_duplicates(),
        update_targets(markets, is_extra).len() <= 2,
{
    let targets = update_targets(markets, is_extra);
    if let Some(index) = markets.perp {
        assert(targets[0] == (MarketType::Perp, index));
    }
    if let Some(index) = markets.spot {
        assert(targets[targets.len() - 1] == (MarketType::Spot, index));
    }
}

/// Every update of a message carries that message and its time, names a feed of the
/// message, and goes to a target of that feed.
pub proof fn law_updates_carry_their_message(
    feeds: Seq<FeedView>,
    markets: Seq<FeedMarkets>,
    extra_feeds: Set<u32>,
    message: Seq<u8>,
    ts: TimestampUs,
)
    requires
        markets.len() == feeds.len(),
    ensures
        forall|k: int|
            0 <= k < updates_of_feeds(feeds, markets, extra_feeds, message, ts).len() ==> {
                let update = #[trigger] updates_of_feeds(
                    feeds,
                    markets,
                    extra_feeds,
                    message,
                    ts,
                )[k];
                &&& update.message == message
                &&& update.ts == ts
                &&& exists|f: int|
                    0 <= f < feeds.len() && update.feed_id == (#[trigger] feeds[f]).feed_id
                        && update_targets(
                        markets[f],
                        extra_feeds.contains(feeds[f].feed_id),
                    ).contains((update.market_type, update.market_id))
            },
    decreases feeds.len(),
{
    if feeds.len() > 0 {
        let last = feeds.len() - 1;
        let earlier = updates_of_feeds(feeds.drop_last(), markets, extra_feeds, message, ts);
        let is_extra = extra_feeds.contains(feeds[last].feed_id);
        lemma_markets_prefix(
            feeds.drop_last(),
            markets,
            markets.drop_last(),
            extra_feeds,
            message,
            ts,
        );
        law_updates_carry_their_message(
            feeds.drop_last(),
            markets.drop_last(),
            extra_feeds,
            message,
            ts,
        );
        lemma_property_updates(
            feeds[last].feed_id,
            feeds[last].properties,
            markets[last],
            is_extra,
            message,
            ts,
        );
        let all = updates_of_feeds(feeds, markets, extra_feeds, message, ts);
        let of_last = updates_of_properties(
            feeds[last].feed_id,
            feeds[last].properties,
            markets[last],
            is_extra,
            message,
            ts,
        );
        assert forall|k: int| 0 <= k < all.len() implies {
            let update = #[trigger] all[k];
            &&& update.message == message
            &&& update.ts == ts
            &&& exists|f: int|
                0 <= f < feeds.len() && update.feed_id == (#[trigger] feeds[f]).feed_id
                    && update_targets(
                    markets[f],
                    extra_feeds.contains(feeds[f].feed_id),
                ).contains((update.market_type, update.market_id))
        } by {
            if k < earlier.len() {
                let before = earlier[k];
                let f = choose|f: int|
                    0 <= f < feeds.drop_last().len() && before.feed_id == (
                    #[trigger] feeds.drop_last()[f]).feed_id && update_targets(
                        markets.drop_last()[f],
                        extra_feeds.contains(feeds.drop_last()[f].feed_id),
                    ).contains((before.market_type, before.market_id));
                assert(feeds[f] == feeds.drop_last()[f]);
            } else {
                assert(all[k] == of_last[k - earlier.len()]);
                assert(feeds[last].feed_id == all[k].feed_id);
            }
        }
    }
}

/// The updates of some feeds depend on the markets of just those feeds.
proof fn lemma_markets_prefix(
    feeds: Seq<FeedView>,
    a: Seq<FeedMarkets>,
    b: Seq<FeedMarkets>,
    extra_feeds: Set<u32>,
    message: Seq<u8>,
    ts: TimestampUs,
)
    requires
        feeds.len() <= a.len(),
        feeds.len() <= b.len(),
        forall|i: int| 0 <= i < feeds.len() ==> a[i] == b[i],
    ensures
        updates_of_feeds(feeds, a, extra_feeds, message, ts) == updates_of_feeds(
            feeds,
            b,
            extra_feeds,
            message,
            ts,
        ),
    decreases feeds.len(),
{
    if feeds.len() > 0 {
        lemma_markets_prefix(feeds.drop_last(), a, b, extra_feeds, message, ts);
    }
}

/// Every update of a feed carries the message and its time, names the feed, and goes to
/// one of its targets.
proof fn lemma_property_updates(
    feed_id: u32,
    properties: Seq<PayloadProperty>,
    markets: FeedMarkets,
    is_extra: bool,
    message: Seq<u8>,
    ts: TimestampUs,
)
    ensures
        forall|k: int|
            0 <= k < updates_of_properties(
                feed_id,
                properties,
                markets,
                is_extra,
                message,
                ts,
            ).len() ==> {
                let update = #[trigger] updates_of_properties(
                    feed_id,
                    properties,
                    markets,
                    is_extra,
                    message,
                    ts,
                )[k];
                &&& update.message == message
                &&& update.ts == ts
                &&& update.feed_id == feed_id
                &&& update_targets(markets, is_extra).contains(
                    (update.market_type, update.market_id),
                )
            },
    decreases properties.len(),
{
    if properties.len() > 0 {
        lemma_property_updates(feed_id, properties.drop_last(), markets, is_extra, message, ts);
        let targets = update_targets(markets, is_extra);
        if let PayloadProperty::Price(Some(price)) = properties.last() {
            let of_price = updates_of_price(feed_id, price, markets, is_extra, message, ts);
            assert forall|k: int| 0 <= k < of_price.len() implies targets.contains(
                ((#[trigger] of_price[k]).market_type, of_price[k].market_id),
            ) by {
                assert(targets[k] == (of_price[k].market_type, of_price[k].market_id));
            }
        }
    }
}

/// One price of a feed updates the perp market of the feed and then its spot market,
/// whichever it has, by the size of the price in the units of that market; without either,
/// it gives one update of no market if the feed was asked for by id, and else none.
pub proof fn law_updates_of_one_price(
    feed_id: u32,
    price: i64,
    markets: FeedMarkets,
    is_extra: bool,
    message: Seq<u8>,
    ts: TimestampUs,
)
    ensures
        ({
            let size = if price < 0 {
                -(price as int)
            } else {
                price as int
            };
            let perp = |index: u16|
                UpdateView {
                    market_type: MarketType::Perp,
                    market_id: index,
                    feed_id,
                    price: scaled_price(size, feed_id, MarketType::Perp),
                    message,
                    ts,
                };
            let spot = |index: u16|
                UpdateView {
                    market_type: MarketType::Spot,
                    market_id: index,
                    feed_id,
                    price: scaled_price(size, feed_id, MarketType::Spot),
                    message,
                    ts,
                };
            updates_of_price(feed_id, price, markets, is_extra, message, ts) == match (
                markets.perp,
                markets.spot,
            ) {
                (Some(p), Some(s)) => seq![perp(p), spot(s)],
                (Some(p), None) => seq![perp(p)],
                (None, Some(s)) => seq![spot(s)],
                (None, None) => if is_extra {
                    seq![spot(0xffff)]
                } else {
                    seq![]
                },
            }
        }),
{
    let updates = updates_of_price(feed_id, price, markets, is_extra, message, ts);
    match (markets.perp, markets.spot) {
        (Some(p), Some(s)) => {
            assert(updates =~= seq![
                update_of((MarketType::Perp, p), feed_id, price, message, ts),
                update_of((MarketType::Spot, s), feed_id, price, message, ts),
            ]);
        },
        (Some(p), None) => {
            assert(updates =~= seq![
                update_of((MarketType::Perp, p), feed_id, price, message, ts),
            ]);
        },
        (None, Some(s)) => {
            assert(updates =~= seq![
                update_of((MarketType::Spot, s), feed_id, price, message, ts),
            ]);
        },
        (None, None) => {
            if is_extra {
                assert(updates =~= seq![
                    update_of((MarketType::Spot, 0xffff), feed_id, price, message, ts),
                ]);
            } else {
                assert(updates =~= seq![]);
            }
        },
    }
}

/// The updates of a feed are those of its properties one after the other: those of the
/// first `n`, then those of the rest. Only a price that is there gives any.
pub proof fn law_updates_follow_the_properties(
    feed_id: u32,
    properties: Seq<PayloadProperty>,
    n: int,
    markets: FeedMarkets,
    is_extra: bool,
    message: Seq<u8>,
    ts: TimestampUs,
)
    requires
        0 <= n <= properties.len(),
    ensures
        updates_of_properties(feed_id, properties, markets, is_extra, message, ts)
            == updates_of_properties(
            feed_id,
            properties.take(n),
            markets,
            is_extra,
            message,
            ts,
        ) + updates_of_properties(
            feed_id,
            properties.skip(n),
            markets,
            is_extra,
            message,
            ts,
        ),
        properties.len() == 0 ==> updates_of_properties(
            feed_id,
            properties,
            markets,
            is_extra,
            message,
            ts,
        ).len() == 0,
        properties.len() == 1 ==> updates_of_properties(
            feed_id,
            properties,
            markets,
            is_extra,
            message,
            ts,
        ) == match properties[0] {
            PayloadProperty::Price(Some(price)) => updates_of_price(
                feed_id,
                price,
                markets,
                is_extra,
                message,
                ts,
            ),
            PayloadProperty::Price(None) => seq![],
            PayloadProperty::Other => seq![],
        },
    decreases properties.len(),
{
    let all = updates_of_properties(feed_id, properties, markets, is_extra, message, ts);
    let first = updates_of_properties(
        feed_id,
        properties.take(n),
        markets,
        is_extra,
        message,
        ts,
    );
    let second = updates_of_properties(
        feed_id,
        properties.skip(n),
        markets,
        is_extra,
        message,
        ts,
    );
    if properties.len() == 1 {
        let before = properties.drop_last();
        assert(updates_of_properties(feed_id, before, markets, is_extra, message, ts).len() == 0);
        let of_last = match properties.last() {
            PayloadProperty::Price(Some(price)) => updates_of_price(
                feed_id,
                price,
                markets,
                is_extra,
                message,
                ts,
            ),
            _ => seq![],
        };
        assert(all =~= of_last);
    }
    if n == properties.len() {
        assert(properties.take(n) =~= properties);
        assert(all =~= first + second);
    } else {
        let shorter = properties.drop_last();
        law_updates_follow_the_properties(feed_id, shorter, n, markets, is_extra, message, ts);
        assert(shorter.take(n) =~= properties.take(n));
        assert(shorter.skip(n) =~= properties.skip(n).drop_last());
        assert(properties.skip(n).last() == properties.last());
        assert(all =~= first + second);
    }
}

/// The updates of a payload are those of its feeds one after the other: those of the
/// first `n`, then those of the rest. Each feed is updated by its own properties, for its
/// own markets.
pub proof fn law_updates_follow_the_feeds(
    feeds: Seq<FeedView>,
    n: int,
    markets: Seq<FeedMarkets>,
    extra_feeds: Set<u32>,
    message: Seq<u8>,
    ts: TimestampUs,
)
    requires
        0 <= n <= feeds.len(),
        markets.len() == feeds.len(),
    ensures
        updates_of_feeds(feeds, markets, extra_feeds, message, ts) == updates_of_feeds(
            feeds.take(n),
            markets.take(n),
            extra_feeds,
            message,
            ts,
        ) + updates_of_feeds(feeds.skip(n), markets.skip(n), extra_feeds, message, ts),
        feeds.len() == 0 ==> updates_of_feeds(feeds, markets, extra_feeds, message, ts).len() == 0,
        feeds.len() == 1 ==> updates_of_feeds(feeds, markets, extra_feeds, message, ts)
            == updates_of_properties(
            feeds[0].feed_id,
            feeds[0].properties,
            markets[0],
            extra_feeds.contains(feeds[0].feed_id),
            message,
            ts,
        ),
    decreases feeds.len(),
{
    let all = updates_of_feeds(feeds, markets, extra_feeds, message, ts);
    let first = updates_of_feeds(feeds.take(n), markets.take(n), extra_feeds, message, ts);
    let second = updates_of_feeds(feeds.skip(n), markets.skip(n), extra_feeds, message, ts);
    if feeds.len() == 1 {
        let before = feeds.drop_last();
        assert(updates_of_feeds(before, markets, extra_feeds, message, ts).len() == 0);
        assert(all =~= updates_of_properties(
            feeds[0].feed_id,
            feeds[0].properties,
            markets[0],
            extra_feeds.contains(feeds[0].feed_id),
            message,
            ts,
        ));
    }
    if n == feeds.len() {
        assert(feeds.take(n) =~= feeds);
        assert(markets.take(n) =~= markets);
        assert(all =~= first + second);
    } else {
        let shorter = feeds.drop_last();
        let fewer = markets.drop_last();
        law_updates_follow_the_feeds(shorter, n, fewer, extra_feeds, message, ts);
        lemma_markets_prefix(shorter, markets, fewer, extra_feeds, message, ts);
        assert(shorter.take(n) =~= feeds.take(n));
        assert(fewer.take(n) =~= markets.take(n));
        assert(shorter.skip(n) =~= feeds.skip(n).drop_last());
        lemma_markets_prefix(
            feeds.skip(n).drop_last(),
            markets.skip(n),
            fewer.skip(n),
            extra_feeds,
            message,
            ts,
        );
        assert(feeds.skip(n).last() == feeds.last());
        assert(markets.skip(n)[feeds.skip(n).len() - 1] == markets.last());
        assert(all =~= first + second);
    }
}

/// Every price of every feed is due at every market that the feed prices: for property
/// `i` of feed `f`, the perp market and the spot market each get an update by that price,
/// and a feed without markets that was asked for by id gets the one of no market.
pub proof fn law_every_price_is_due_at_its_markets(
    feeds: Seq<FeedView>,
    markets: Seq<FeedMarkets>,
    extra_feeds: Set<u32>,
    message: Seq<u8>,
    ts: TimestampUs,
    f: int,
    i: int,
    price: i64,
)
    requires
        markets.len() == feeds.len(),
        0 <= f < feeds.len(),
        0 <= i < feeds[f].properties.len(),
        feeds[f].properties[i] == PayloadProperty::Price(Some(price)),
    ensures
        ({
            let due = updates_of_feeds(feeds, markets, extra_feeds, message, ts);
            let feed_id = feeds[f].feed_id;
            let size = if price < 0 {
                -(price as int)
            } else {
                price as int
            };
            let at = |market_type: MarketType, market_id: u16|
                UpdateView {
                    market_type,
                    market_id,
                    feed_id,
                    price: scaled_price(size, feed_id, market_type),
                    message,
                    ts,
                };
            &&& markets[f].perp matches Some(index) ==> due.contains(at(MarketType::Perp, index))
            &&& markets[f].spot matches Some(index) ==> due.contains(at(MarketType::Spot, index))
            &&& markets[f].perp is None && markets[f].spot is None && extra_feeds.contains(feed_id)
                ==> due.contains(at(MarketType::Spot, 0xffff))
        }),
{
    let feed = feeds[f];
    let is_extra = extra_feeds.contains(feed.feed_id);
    let of_price = updates_of_price(feed.feed_id, price, markets[f], is_extra, message, ts);
    let of_feed = updates_of_properties(
        feed.feed_id,
        feed.properties,
        markets[f],
        is_extra,
        message,
        ts,
    );
    let due = updates_of_feeds(feeds, markets, extra_feeds, message, ts);
    law_updates_of_one_price(feed.feed_id, price, markets[f], is_extra, message, ts);
    let start = lemma_price_in_feed(
        feed.feed_id,
        feed.properties,
        i,
        markets[f],
        is_extra,
        message,
        ts,
    );
    let offset = lemma_feed_in_payload(feeds, f, markets, extra_feeds, message, ts);
    assert forall|k: int| 0 <= k < of_price.len() implies due.contains(#[trigger] of_price[k]) by {
        assert(of_feed[start + k] == of_price[k]);
        assert(due[offset + start + k] == of_price[k]);
    }
    if markets[f].perp is Some {
        assert(due.contains(of_price[0]));
    }
    if markets[f].spot is Some {
        assert(due.contains(of_price[of_price.len() - 1]));
    }
    if markets[f].perp is None && markets[f].spot is None && is_extra {
        assert(due.contains(of_price[0]));
    }
}

/// Where the updates of one price stand among those of its feed.
proof fn lemma_price_in_feed(
    feed_id: u32,
    properties: Seq<PayloadProperty>,
    i: int,
    markets: FeedMarkets,
    is_extra: bool,
    message: Seq<u8>,
    ts: TimestampUs,
) -> (start: int)
    requires
        0 <= i < properties.len(),
        properties[i] matches PayloadProperty::Price(Some(_)),
    ensures
        ({
            let all = updates_of_properties(feed_id, properties, markets, is_extra, message, ts);
            let price = properties[i]->Price_0->0;
            let of_price = updates_of_price(feed_id, price, markets, is_extra, message, ts);
            &&& 0 <= start <= start + of_price.len() <= all.len()
            &&& all.subrange(start, start + of_price.len()) == of_price
            &&& forall|k: int| 0 <= k < of_price.len() ==> all[start + k] == #[trigger] of_price[k]
        }),
{
    let all = updates_of_properties(feed_id, properties, markets, is_extra, message, ts);
    let price = properties[i]->Price_0->0;
    let of_price = updates_of_price(feed_id, price, markets, is_extra, message, ts);
    let upto = properties.take(i + 1);
    let rest = lemma_properties_prefix(
        feed_id,
        properties,
        i + 1,
        markets,
        is_extra,
        message,
        ts,
    );
    assert(upto.last() == properties[i]);
    let start = updates_of_properties(
        feed_id,
        upto.drop_last(),
        markets,
        is_extra,
        message,
        ts,
    ).len() as int;
    assert(all.subrange(start, start + of_price.len()) =~= of_price);
    start
}

/// Where the updates of one feed stand among those of the payload.
proof fn lemma_feed_in_payload(
    feeds: Seq<FeedView>,
    f: int,
    markets: Seq<FeedMarkets>,
    extra_feeds: Set<u32>,
    message: Seq<u8>,
    ts: TimestampUs,
) -> (offset: int)
    requires
        0 <= f < feeds.len(),
    ensures
        ({
            let all = updates_of_feeds(feeds, markets, extra_feeds, message, ts);
            let of_feed = updates_of_properties(
                feeds[f].feed_id,
                feeds[f].properties,
                markets[f],
                extra_feeds.contains(feeds[f].feed_id),
                message,
                ts,
            );
            &&& 0 <= offset <= offset + of_feed.len() <= all.len()
            &&& forall|k: int| 0 <= k < of_feed.len() ==> all[offset + k] == #[trigger] of_feed[k]
        }),
{
    let upto = feeds.take(f + 1);
    let rest = lemma_feeds_prefix(feeds, f + 1, markets, extra_feeds, message, ts);
    assert(upto[f] == feeds[f]);
    updates_of_feeds(upto.drop_last(), markets, extra_feeds, message, ts).len() as int
}

/// Nothing else is due: every update is by some price of some feed, and goes to the perp
/// market of that feed, to its spot market, or, for a feed without markets that was asked
/// for by id, to no market.
pub proof fn law_nothing_else_is_due(
    feeds: Seq<FeedView>,
    markets: Seq<FeedMarkets>,
    extra_feeds: Set<u32>,
    message: Seq<u8>,
    ts: TimestampUs,
    update: UpdateView,
)
    requires
        markets.len() == feeds.len(),
        updates_of_feeds(feeds, markets, extra_feeds, message, ts).contains(update),
    ensures
        update.message == message,
        update.ts == ts,
        exists|f: int, i: int|
            #![trigger feeds[f].properties[i]]
            {
                &&& 0 <= f < feeds.len()
                &&& 0 <= i < feeds[f].properties.len()
                &&& update.feed_id == feeds[f].feed_id
                &&& feeds[f].properties[i] matches PayloadProperty::Price(Some(price))
                &&& update.price == if price < 0 {
                    scaled_price(-(price as int), update.feed_id, update.market_type)
                } else {
                    scaled_price(price as int, update.feed_id, update.market_type)
                }
                &&& match update.market_type {
                    MarketType::Perp => markets[f].perp == Some(update.market_id),
                    MarketType::Spot => {
                        ||| markets[f].spot == Some(update.market_id)
                        ||| markets[f].perp is None && markets[f].spot is None
                            && extra_feeds.contains(update.feed_id) && update.market_id == 0xffff
                    },
                }
            },
{
    let all = updates_of_feeds(feeds, markets, extra_feeds, message, ts);
    let k = all.index_of(update);
    let (f, k_of_feed) = lemma_feed_of_update(feeds, markets, extra_feeds, message, ts, k);
    let feed = feeds[f];
    let is_extra = extra_feeds.contains(feed.feed_id);
    let (i, price) = lemma_source_of_update(
        feed.feed_id,
        feed.properties,
        markets[f],
        is_extra,
        message,
        ts,
        k_of_feed,
    );
    law_updates_of_one_price(feed.feed_id, price, markets[f], is_extra, message, ts);
    assert(feeds[f].properties[i] == PayloadProperty::Price(Some(price)));
}

/// The feed that an update of a payload belongs to, and its place among those of the feed.
proof fn lemma_feed_of_update(
    feeds: Seq<FeedView>,
    markets: Seq<FeedMarkets>,
    extra_feeds: Set<u32>,
    message: Seq<u8>,
    ts: TimestampUs,
    k: int,
) -> (source: (int, int))
    requires
        0 <= k < updates_of_feeds(feeds, markets, extra_feeds, message, ts).len(),
    ensures
        0 <= source.0 < feeds.len(),
        ({
            let feed = feeds[source.0];
            let of_feed = updates_of_properties(
                feed.feed_id,
                feed.properties,
                markets[source.0],
                extra_feeds.contains(feed.feed_id),
                message,
                ts,
            );
            &&& 0 <= source.1 < of_feed.len()
            &&& of_feed[source.1] == updates_of_feeds(feeds, markets, extra_feeds, message, ts)[k]
        }),
    decreases feeds.len(),
{
    let earlier = updates_of_feeds(feeds.drop_last(), markets, extra_feeds, message, ts);
    if k < earlier.len() {
        lemma_feed_of_update(feeds.drop_last(), markets, extra_feeds, message, ts, k)
    } else {
        (feeds.len() - 1, k - earlier.len())
    }
}

/// The price that an update of a feed is by.
proof fn lemma_source_of_update(
    feed_id: u32,
    properties: Seq<PayloadProperty>,
    markets: FeedMarkets,
    is_extra: bool,
    message: Seq<u8>,
    ts: TimestampUs,
    k: int,
) -> (source: (int, i64))
    requires
        0 <= k < updates_of_properties(
            feed_id,
            properties,
            markets,
            is_extra,
            message,
            ts,
        ).len(),
    ensures
        0 <= source.0 < properties.len(),
        properties[source.0] == PayloadProperty::Price(Some(source.1)),
        updates_of_price(feed_id, source.1, markets, is_extra, message, ts).contains(
            updates_of_properties(feed_id, properties, markets, is_extra, message, ts)[k],
        ),
    decreases properties.len(),
{
    let shorter = properties.drop_last();
    let earlier = updates_of_properties(feed_id, shorter, markets, is_extra, message, ts);
    let all = updates_of_properties(feed_id, properties, markets, is_extra, message, ts);
    if k < earlier.len() {
        assert(all[k] == earlier[k]);
        lemma_source_of_update(feed_id, shorter, markets, is_extra, message, ts, k)
    } else {
        let price = properties.last()->Price_0->0;
        let of_price = updates_of_price(feed_id, price, markets, is_extra, message, ts);
        assert(all[k] == of_price[k - earlier.len()]);
        (properties.len() - 1, price)
    }
}

/// A complete list updates every market that a price of the message is for: for property
/// `i` of feed `f` and a market of that feed, or no market if it has none and was asked for
/// by id, the list holds an update by the size of that price, with the message and its time.
pub proof fn law_every_market_is_updated(
    decoded: &DecodedMessage,
    markets: &[FeedMarkets],
    extra_feeds: &HashSet<u32>,
    result: PriceUpdates,
    f: int,
    i: int,
    price: i64,
    market_type: MarketType,
    market_id: u16,
)
    requires
        call_ensures(price_updates, (decoded, markets, extra_feeds), result),
        result.complete,
        markets@.len() == decoded.data.feeds@.len(),
        0 <= f < decoded.data.feeds@.len(),
        0 <= i < decoded.data.feeds@[f].properties@.len(),
        decoded.data.feeds@[f].properties@[i] == PayloadProperty::Price(Some(price)),
        match market_type {
            MarketType::Perp => markets@[f].perp == Some(market_id),
            MarketType::Spot => {
                ||| markets@[f].spot == Some(market_id)
                ||| markets@[f].perp is None && markets@[f].spot is None && extra_feeds@.contains(
                    decoded.data.feeds@[f].feed_id,
                ) && market_id == 0xffff
            },
        },
    ensures
        exists|k: int|
            #![trigger result.updates@[k]]
            {
                &&& 0 <= k < result.updates@.len()
                &&& result.updates@[k].market_type == market_type
                &&& result.updates@[k].market_id == market_id
                &&& result.updates@[k].feed_id == decoded.data.feeds@[f].feed_id
                &&& result.updates@[k].price == if price < 0 {
                    scaled_price(-(price as int), decoded.data.feeds@[f].feed_id, market_type)
                } else {
                    scaled_price(price as int, decoded.data.feeds@[f].feed_id, market_type)
                }
                &&& result.updates@[k].message@ == decoded.bytes@
                &&& result.updates@[k].ts == decoded.data.timestamp_us
            },
{
    let feeds = decoded.data@.feeds;
    let ts = decoded.data.timestamp_us;
    let due = updates_of_feeds(feeds, markets@, extra_feeds@, decoded.bytes@, ts);
    assert(feeds[f] == decoded.data.feeds@[f]@);
    law_complete_iff_prices_fit(due, result.updates@, result.complete);
    law_every_price_is_due_at_its_markets(
        feeds,
        markets@,
        extra_feeds@,
        decoded.bytes@,
        ts,
        f,
        i,
        price,
    );
    let wanted = UpdateView {
        market_type,
        market_id,
        feed_id: feeds[f].feed_id,
        price: scaled_price(
            if price < 0 {
                -(price as int)
            } else {
                price as int
            },
            feeds[f].feed_id,
            market_type,
        ),
        message: decoded.bytes@,
        ts,
    };
    assert(due.contains(wanted));
    let k = due.index_of(wanted);
    assert(result.updates@[k]@ == wanted);
}

/// Every update in the list is by some price of some feed of the message, goes to a market
/// of that feed, or to no market if it has none and was asked for by id, and carries the
/// message and its time.
pub proof fn law_every_update_has_a_source(
    decoded: &DecodedMessage,
    markets: &[FeedMarkets],
    extra_feeds: &HashSet<u32>,
    result: PriceUpdates,
    k: int,
)
    requires
        call_ensures(price_updates, (decoded, markets, extra_feeds), result),
        markets@.len() == decoded.data.feeds@.len(),
        0 <= k < result.updates@.len(),
    ensures
        result.updates@[k].message@ == decoded.bytes@,
        result.updates@[k].ts == decoded.data.timestamp_us,
        exists|f: int, i: int|
            #![trigger decoded.data.feeds@[f].properties@[i]]
            {
                let update = result.updates@[k];
                &&& 0 <= f < decoded.data.feeds@.len()
                &&& 0 <= i < decoded.data.feeds@[f].properties@.len()
                &&& update.feed_id == decoded.data.feeds@[f].feed_id
                &&& decoded.data.feeds@[f].properties@[i] matches PayloadProperty::Price(
                    Some(price),
                )
                &&& update.price == if price < 0 {
                    scaled_price(-(price as int), update.feed_id, update.market_type)
                } else {
                    scaled_price(price as int, update.feed_id, update.market_type)
                }
                &&& match update.market_type {
                    MarketType::Perp => markets@[f].perp == Some(update.market_id),
                    MarketType::Spot => {
                        ||| markets@[f].spot == Some(update.market_id)
                        ||| markets@[f].perp is None && markets@[f].spot is None
                            && extra_feeds@.contains(update.feed_id) && update.market_id == 0xffff
                    },
                }
            },
{
    let feeds = decoded.data@.feeds;
    let ts = decoded.data.timestamp_us;
    let due = updates_of_feeds(feeds, markets@, extra_feeds@, decoded.bytes@, ts);
    let update = result.updates@[k]@;
    assert(update == update_views(result.updates@)[k]);
    assert(due[k] == update);
    assert(due.contains(update));
    law_nothing_else_is_due(feeds, markets@, extra_feeds@, decoded.bytes@, ts, update);
    let (f, i) = choose|f: int, i: int|
        #![trigger feeds[f].properties[i]]
        {
            &&& 0 <= f < feeds.len()
            &&& 0 <= i < feeds[f].properties.len()
            &&& update.feed_id == feeds[f].feed_id
            &&& feeds[f].properties[i] matches PayloadProperty::Price(Some(price))
            &&& update.price == if price < 0 {
                scaled_price(-(price as int), update.feed_id, update.market_type)
            } else {
                scaled_price(price as int, update.feed_id, update.market_type)
            }
            &&& match update.market_type {
                MarketType::Perp => markets@[f].perp == Some(update.market_id),
                MarketType::Spot => {
                    ||| markets@[f].spot == Some(update.market_id)
                    ||| markets@[f].perp is None && markets@[f].spot is None
                        && extra_feeds@.contains(update.feed_id) && update.market_id == 0xffff
                },
            }
        };
    assert(feeds[f] == decoded.data.feeds@[f]@);
    assert(decoded.data.feeds@[f].properties@[i] == feeds[f].properties[i]);
}

/// The list falls short just when some price, in the units of a market that it is for, is
/// too large for 64 bits. It then ends before the first such update, and holds all that is
/// due before that one.
pub proof fn law_list_falls_short_only_for_large_prices(
    decoded: &DecodedMessage,
    markets: &[FeedMarkets],
    extra_feeds: &HashSet<u32>,
    result: PriceUpdates,
)
    requires
        call_ensures(price_updates, (decoded, markets, extra_feeds), result),
        markets@.len() == decoded.data.feeds@.len(),
    ensures
        result.complete <==> forall|f: int, i: int|
            #![trigger decoded.data.feeds@[f].properties@[i]]
            0 <= f < decoded.data.feeds@.len() && 0 <= i
                < decoded.data.feeds@[f].properties@.len() ==> match
                decoded.data.feeds@[f].properties@[i] {
                PayloadProperty::Price(Some(price)) => {
                    let id = decoded.data.feeds@[f].feed_id;
                    let size = if price < 0 {
                        -(price as int)
                    } else {
                        price as int
                    };
                    &&& markets@[f].perp is Some ==> scaled_price(size, id, MarketType::Perp)
                        <= 0xffff_ffff_ffff_ffff
                    &&& markets@[f].spot is Some || markets@[f].perp is None
                        && extra_feeds@.contains(id) ==> scaled_price(size, id, MarketType::Spot)
                        <= 0xffff_ffff_ffff_ffff
                },
                _ => true,
            },
        ({
            let due = updates_of_feeds(
                decoded.data@.feeds,
                markets@,
                extra_feeds@,
                decoded.bytes@,
                decoded.data.timestamp_us,
            );
            let n = result.updates@.len() as int;
            &&& n <= due.len()
            &&& forall|k: int| 0 <= k < n ==> (#[trigger] result.updates@[k])@ == due[k]
            &&& forall|k: int|
                0 <= k < n ==> (#[trigger] due[k]).price <= 0xffff_ffff_ffff_ffff
            &&& if result.complete {
                n == due.len()
            } else {
                n < due.len() && due[n].price > 0xffff_ffff_ffff_ffff
            }
        }),
{
    let feeds = decoded.data@.feeds;
    let ts = decoded.data.timestamp_us;
    let due = updates_of_feeds(feeds, markets@, extra_feeds@, decoded.bytes@, ts);
    let views = update_views(result.updates@);
    let n = result.updates@.len() as int;
    assert forall|k: int| 0 <= k < n implies (#[trigger] result.updates@[k])@ == due[k] by {
        assert(views[k] == due.take(n)[k]);
    }
    assert forall|k: int| 0 <= k < n implies (#[trigger] due[k]).price
        <= 0xffff_ffff_ffff_ffff by {
        assert(result.updates@[k]@ == due[k]);
    }
    if result.complete {
        assert forall|f: int, i: int|
            #![trigger decoded.data.feeds@[f].properties@[i]]
            0 <= f < decoded.data.feeds@.len() && 0 <= i
                < decoded.data.feeds@[f].properties@.len() implies match
            decoded.data.feeds@[f].properties@[i] {
            PayloadProperty::Price(Some(price)) => {
                let id = decoded.data.feeds@[f].feed_id;
                let size = if price < 0 {
                    -(price as int)
                } else {
                    price as int
                };
                &&& markets@[f].perp is Some ==> scaled_price(size, id, MarketType::Perp)
                    <= 0xffff_ffff_ffff_ffff
                &&& markets@[f].spot is Some || markets@[f].perp is None && extra_feeds@.contains(
                    id,
                ) ==> scaled_price(size, id, MarketType::Spot) <= 0xffff_ffff_ffff_ffff
            },
            _ => true,
        } by {
            if let PayloadProperty::Price(Some(price)) = decoded.data.feeds@[f].properties@[i] {
                assert(feeds[f] == decoded.data.feeds@[f]@);
                if let Some(index) = markets@[f].perp {
                    law_every_market_is_updated(
                        decoded,
                        markets,
                        extra_feeds,
                        result,
                        f,
                        i,
                        price,
                        MarketType::Perp,
                        index,
                    );
                }
                if let Some(index) = markets@[f].spot {
                    law_every_market_is_updated(
                        decoded,
                        markets,
                        extra_feeds,
                        result,
                        f,
                        i,
                        price,
                        MarketType::Spot,
                        index,
                    );
                } else if markets@[f].perp is None && extra_feeds@.contains(feeds[f].feed_id) {
                    law_every_market_is_updated(
                        decoded,
                        markets,
                        extra_feeds,
                        result,
                        f,
                        i,
                        price,
                        MarketType::Spot,
                        0xffff,
                    );
                }
            }
        }
    } else {
        let update = due[n];
        let (f, k_of_feed) = lemma_feed_of_update(
            feeds,
            markets@,
            extra_feeds@,
            decoded.bytes@,
            ts,
            n,
        );
        let feed = feeds[f];
        assert(feed == decoded.data.feeds@[f]@);
        let is_extra = extra_feeds@.contains(feed.feed_id);
        let (i, price) = lemma_source_of_update(
            feed.feed_id,
            feed.properties,
            markets@[f],
            is_extra,
            decoded.bytes@,
            ts,
            k_of_feed,
        );
        law_updates_of_one_price(
            feed.feed_id,
            price,
            markets@[f],
            is_extra,
            decoded.bytes@,
            ts,
        );
        assert(decoded.data.feeds@[f].properties@[i] == PayloadProperty::Price(Some(price)));
    }
}

/// The wire form holds the magic number, the signature, the public key, the length of the
/// payload with the low byte first, and the payload, each at its own place and nothing
/// besides.
pub proof fn law_wire_form_layout(signature: Seq<u8>, public_key: Seq<u8>, payload: Seq<u8>)
    requires
        signature.len() == 64,
        public_key.len() == 32,
        payload.len() <= 0xffff,
    ensures
        ({
            let bytes = envelope_bytes(signature, public_key, payload);
            &&& bytes.len() == 102 + payload.len()
            &&& bytes[0] == 0xB9
            &&& bytes[1] == 0x01
            &&& bytes[2] == 0x1A
            &&& bytes[3] == 0x82
            &&& bytes.subrange(4, 68) == signature
            &&& bytes.subrange(68, 100) == public_key
            &&& bytes[100] + 256 * bytes[101] == payload.len()
            &&& bytes.subrange(102, bytes.len() as int) == payload
        }),
{
    let bytes = envelope_bytes(signature, public_key, payload);
    assert(bytes.subrange(4, 68) =~= signature);
    assert(bytes.subrange(68, 100) =~= public_key);
    assert(bytes.subrange(102, bytes.len() as int) =~= payload);
}

/// A message is taken apart just when its payload is no longer than two bytes can say and
/// parses; what comes out is its wire form and what its payload says. A payload that is too
/// long is reported as such, whether or not it parses.
pub proof fn law_decoding_outcomes(
    message: &SolanaMessage,
    decoded: Result<DecodedMessage, MessageError>,
)
    requires
        call_ensures(decode_message, (message,), decoded),
    ensures
        decoded is Ok <==> message.payload@.len() <= 65535 && parsed_payload(
            message.payload@,
        ) is Some,
        decoded == Err::<DecodedMessage, MessageError>(MessageError::PayloadTooLong)
            <==> message.payload@.len() > 65535,
        decoded matches Ok(m) ==> {
            let bytes = m.bytes@;
            &&& parsed_payload(message.payload@) == Some(m.data@)
            &&& bytes.len() == 102 + message.payload@.len()
            &&& bytes[0] == 0xB9 && bytes[1] == 0x01 && bytes[2] == 0x1A && bytes[3] == 0x82
            &&& bytes.subrange(4, 68) == message.signature@
            &&& bytes.subrange(68, 100) == message.public_key@
            &&& bytes[100] + 256 * bytes[101] == message.payload@.len()
            &&& bytes.subrange(102, bytes.len() as int) == message.payload@
        },
{
    if decoded is Ok {
        law_wire_form_layout(message.signature@, message.public_key@, message.payload@);
    }
}

/// Different messages have different wire forms.
pub proof fn law_wire_form_tells_messages_apart(a: SolanaMessage, b: SolanaMessage)
    requires
        a.payload@.len() <= 0xffff,
        b.payload@.len() <= 0xffff,
        envelope_bytes(a.signature@, a.public_key@, a.payload@) == envelope_bytes(
            b.signature@,
            b.public_key@,
            b.payload@,
        ),
    ensures
        a.signature@ == b.signature@,
        a.public_key@ == b.public_key@,
        a.payload@ == b.payload@,
{
    law_wire_form_layout(a.signature@, a.public_key@, a.payload@);
    law_wire_form_layout(b.signature@, b.public_key@, b.payload@);
}

/// A copy of an update agrees with it in every field.
pub proof fn law_update_copies_agree(update: &PythPriceUpdate, copy: PythPriceUpdate)
    requires
        call_ensures(PythPriceUpdate::clone, (update,), copy),
    ensures
        copy.market_type == update.market_type,
        copy.market_id == update.market_id,
        copy.feed_id == update.feed_id,
        copy.price == update.price,
        copy.message@ == update.message@,
        copy.ts == update.ts,
{
}

/// The updates of a message can be had whenever the markets of each of its feeds are given.
pub proof fn law_updates_need_only_the_markets(
    decoded: &DecodedMessage,
    markets: &[FeedMarkets],
    extra_feeds: &HashSet<u32>,
)
    requires
        markets@.len() == decoded.data.feeds@.len(),
    ensures
        call_requires(price_updates, (decoded, markets, extra_feeds)),
{
}

} // verus!
