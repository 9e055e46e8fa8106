//! What this library takes from other crates and from the clock, and what it claims of it.

use crate::message::PayloadProperty::{Other, Price as Priced};
use crate::message::{
    envelope_bytes, PayloadData, PayloadFeedData, PayloadView, SolanaMessage, TimestampUs,
};
use pyth_lazer_protocol::payload::PayloadData as WireData;
use pyth_lazer_protocol::payload::PayloadPropertyValue::{
    BestAskPrice, BestBidPrice, Confidence, EmaConfidence, EmaPrice, Exponent,
    FeedUpdateTimestamp, FundingRate, FundingRateInterval, FundingTimestamp, MarketSession, Price,
    PublisherCount,
};
use pyth_lazer_protocol::time::FixedRate;
use pyth_lazer_protocol::Price as WirePrice;
use solana_sdk::pubkey::Pubkey;
use solana_sdk::signature::Signature;
use vstd::prelude::*;

verus! {

/// An account address of `solana_sdk`, carried through unread.
#[verifier::external_type_specification]
#[verifier::external_body]
pub struct ExPubkey(Pubkey);

/// A transaction signature of `solana_sdk`; only [`same_signature`] looks at it.
#[verifier::external_type_specification]
#[verifier::external_body]
pub struct ExSignature(Signature);

/// The error of the byte conversions that `Signature` offers; declaring the signature
/// brings those conversions along. No value of it occurs here.
#[verifier::external_type_specification]
#[verifier::external_body]
pub struct ExTryFromSliceError(core::array::TryFromSliceError);

/// `==` of `solana_sdk::signature::Signature`: a signature is an array of bytes and
/// nothing else, and two of them compare equal just when they are the same value.
#[verifier::external_body]
pub(crate) fn same_signature(a: &Signature, b: &Signature) -> (same: bool)
    ensures
        same == (*a == *b),
{
    a == b
}

/// `SystemTime::elapsed` of the Unix epoch: the milliseconds since then, or nothing if the
/// clock is set to an earlier time. Nothing is claimed of the reading.
#[verifier::external_body]
pub(crate) fn unix_time_ms() -> (elapsed: Option<u128>) {
    std::time::UNIX_EPOCH.elapsed().ok().map(|elapsed| elapsed.as_millis())
}

/// `FixedRate::MIN` of `pyth_lazer_protocol` and its length by `DurationUs::as_millis`:
/// the shortest update interval there is, which is 50 milliseconds.
#[verifier::external_body]
pub(crate) fn min_rate_ms() -> (ms: u64)
    ensures
        ms == 50,
{
    FixedRate::MIN.duration().as_millis()
}

/// `FixedRate::from_millis` of `pyth_lazer_protocol`, with the length of the interval by
/// `DurationUs::as_millis`: the interval of that many milliseconds if it is one of the
/// three on offer, which are 50, 200 and 1000.
#[verifier::external_body]
pub(crate) fn rate_from_millis(millis: u32) -> (ms: Option<u64>)
    ensures
        ms == (if millis == 50 || millis == 200 || millis == 1000 {
            Some(millis as u64)
        } else {
            None
        }),
{
    FixedRate::from_millis(millis).map(|rate| rate.duration().as_millis())
}

/// `SolanaMessage::serialize` of `pyth_lazer_protocol` into an empty buffer: the format's
/// magic number, the signature, the public key, the payload's length and the payload, as
/// [`envelope_bytes`] lays them out. It fails just when the length does not fit two bytes.
#[verifier::external_body]
pub(crate) fn serialize_envelope(message: &SolanaMessage) -> (bytes: Option<Vec<u8>>)
    ensures
        bytes is Some <==> message.payload@.len() <= u16::MAX,
        bytes matches Some(b) ==> b@ == envelope_bytes(
            message.signature@,
            message.public_key@,
            message.payload@,
        ),
{
    let mut bytes = Vec::new();
    let envelope = pyth_lazer_protocol::message::SolanaMessage {
        payload: message.payload.clone(),
        signature: message.signature,
        public_key: message.public_key,
    };
    envelope.serialize(&mut bytes).ok().map(|()| bytes)
}

/// The data that a payload encodes in little-endian order, or nothing if it is malformed.
pub uninterp spec fn parsed_payload(payload: Seq<u8>) -> Option<PayloadView>;

/// `PayloadData::deserialize_slice_le` of `pyth_lazer_protocol`, a function of the bytes
/// alone: its result has the name [`parsed_payload`]. The price of a feed keeps its value,
/// by `Price::mantissa_i64`; the other properties are told apart no further.
#[verifier::external_body]
pub(crate) fn parse_payload(payload: &[u8]) -> (data: Option<PayloadData>)
    ensures
        data is Some <==> parsed_payload(payload@) is Some,
        data matches Some(d) ==> Some(d@) == parsed_payload(payload@),
{
    let data = WireData::deserialize_slice_le(payload).ok()?;
    let property = |value| match value {
        Price(price) => Priced(price.map(WirePrice::mantissa_i64)),
        BestBidPrice(_) => Other, BestAskPrice(_) => Other, PublisherCount(_) => Other,
        Exponent(_) => Other, Confidence(_) => Other, FundingRate(_) => Other,
        FundingTimestamp(_) => Other, FundingRateInterval(_) => Other, MarketSession(_) => Other,
        EmaPrice(_) => Other, EmaConfidence(_) => Other, FeedUpdateTimestamp(_) => Other
    };
    let feeds = data.feeds.into_iter().map(|feed| PayloadFeedData {
        feed_id: feed.feed_id.0,
        properties: feed.properties.into_iter().map(property).collect()
    });
    Some(PayloadData { timestamp_us: TimestampUs(data.timestamp_us.as_micros()), feeds: feeds.collect() })
}

} // verus!
