use keeper_core::message::{
    decode_message, price_updates, DecodedMessage, FeedMarkets, MessageError, PayloadData,
    PayloadFeedData, PayloadProperty, PythPriceUpdate, SolanaMessage, TimestampUs,
    NO_MARKET,
};
use keeper_core::precision::MarketType;
use std::collections::HashSet;

/// A payload in wire form: per feed its id and the bytes of its properties.
fn payload(timestamp_us: u64, feeds: &[(u32, Vec<Vec<u8>>)]) -> Vec<u8> {
    let mut bytes = Vec::new();
    bytes.extend_from_slice(&pyth_lazer_protocol::payload::PAYLOAD_FORMAT_MAGIC.to_le_bytes());
    bytes.extend_from_slice(&timestamp_us.to_le_bytes());
    bytes.push(1);
    bytes.push(feeds.len() as u8);
    for (feed_id, properties) in feeds {
        bytes.extend_from_slice(&feed_id.to_le_bytes());
        bytes.push(properties.len() as u8);
        for property in properties {
            bytes.extend_from_slice(property);
        }
    }
    bytes
}

fn price(value: i64) -> Vec<u8> {
    let mut bytes = vec![0u8];
    bytes.extend_from_slice(&value.to_le_bytes());
    bytes
}

fn exponent(value: i16) -> Vec<u8> {
    let mut bytes = vec![4u8];
    bytes.extend_from_slice(&value.to_le_bytes());
    bytes
}

/// The time of the feed update, property 12, present or not.
fn feed_update_timestamp(value: Option<u64>) -> Vec<u8> {
    match value {
        Some(us) => {
            let mut bytes = vec![12u8, 1];
            bytes.extend_from_slice(&us.to_le_bytes());
            bytes
        }
        None => vec![12u8, 0],
    }
}

fn message(payload: Vec<u8>) -> SolanaMessage {
    SolanaMessage { payload, signature: [5; 64], public_key: [6; 32] }
}

fn decoded(feeds: Vec<PayloadFeedData>) -> DecodedMessage {
    DecodedMessage {
        bytes: vec![1, 2, 3],
        data: PayloadData { timestamp_us: TimestampUs(99), feeds },
    }
}

fn feed(feed_id: u32, properties: Vec<PayloadProperty>) -> PayloadFeedData {
    PayloadFeedData { feed_id, properties }
}

fn summary(updates: &[PythPriceUpdate]) -> Vec<(MarketType, u16, u32, u64)> {
    updates.iter().map(|u| (u.market_type, u.market_id, u.feed_id, u.price)).collect()
}

/// The updates of a message whose prices all fit.
fn all_updates(
    m: &DecodedMessage,
    markets: &[FeedMarkets],
    extra: &HashSet<u32>,
) -> Vec<PythPriceUpdate> {
    let result = price_updates(m, markets, extra);
    assert!(result.complete);
    result.updates
}

const BOTH: FeedMarkets = FeedMarkets { perp: Some(1), spot: Some(2) };
const NEITHER: FeedMarkets = FeedMarkets { perp: None, spot: None };

#[test]
fn message_is_framed_for_the_chain() {
    let bytes = payload(7, &[]);
    let m = decode_message(&message(bytes.clone())).unwrap();
    let mut expected = vec![0xB9, 0x01, 0x1A, 0x82];
    expected.extend_from_slice(&[5; 64]);
    expected.extend_from_slice(&[6; 32]);
    expected.extend_from_slice(&[bytes.len() as u8, 0]);
    expected.extend_from_slice(&bytes);
    assert_eq!(m.bytes, expected);

    let mut outside = Vec::new();
    pyth_lazer_protocol::message::SolanaMessage {
        payload: bytes,
        signature: [5; 64],
        public_key: [6; 32],
    }
    .serialize(&mut outside)
    .unwrap();
    assert_eq!(m.bytes, outside);
}

#[test]
fn length_field_is_little_endian() {
    let mut bytes = payload(7, &[]);
    bytes.resize(0x0102, 0);
    let m = decode_message(&message(bytes)).unwrap();
    assert_eq!(&m.bytes[100..102], &[0x02, 0x01]);
}

#[test]
fn payload_is_parsed() {
    let bytes = payload(
        1_234,
        &[
            (6, vec![price(150), exponent(-8)]),
            (9, vec![price(0)]),
            (10, vec![exponent(-8), price(-3)]),
        ],
    );
    let m = decode_message(&message(bytes)).unwrap();
    assert_eq!(m.data.timestamp_us, TimestampUs(1_234));
    assert_eq!(m.data.feeds.len(), 3);
    assert_eq!(m.data.feeds[0].feed_id, 6);
    assert_eq!(
        m.data.feeds[0].properties,
        vec![PayloadProperty::Price(Some(150)), PayloadProperty::Other]
    );
    assert_eq!(m.data.feeds[1].properties, vec![PayloadProperty::Price(None)]);
    assert_eq!(
        m.data.feeds[2].properties,
        vec![PayloadProperty::Other, PayloadProperty::Price(Some(-3))]
    );
}

#[test]
fn every_property_is_read() {
    let full = |id: u8, size: usize| {
        let mut bytes = vec![id];
        bytes.resize(1 + size, 1);
        bytes
    };
    let properties = vec![
        full(0, 8),
        full(1, 8),
        full(2, 8),
        full(3, 2),
        full(4, 2),
        full(5, 8),
        full(6, 9),
        full(7, 9),
        full(8, 9),
        vec![9, 1, 0],
        full(10, 8),
        full(11, 8),
        full(12, 9),
    ];
    let m = decode_message(&message(payload(7, &[(6, properties)]))).unwrap();
    let read = &m.data.feeds[0].properties;
    assert_eq!(read.len(), 13);
    assert_eq!(read[0], PayloadProperty::Price(Some(0x0101_0101_0101_0101)));
    assert!(read[1..].iter().all(|p| *p == PayloadProperty::Other));
    let unknown = payload(7, &[(6, vec![full(13, 8)])]);
    assert_eq!(decode_message(&message(unknown)).unwrap_err(), MessageError::MalformedPayload);
}

#[test]
fn message_with_the_subscribed_properties_gives_updates() {
    let properties = vec![
        price(12_345),
        exponent(-8),
        feed_update_timestamp(Some(1_771_339_368_200_000)),
    ];
    let quiet = vec![price(500), exponent(-8), feed_update_timestamp(None)];
    let bytes = payload(1_234, &[(999, properties), (7, quiet)]);
    let m = decode_message(&message(bytes)).unwrap();
    assert_eq!(
        m.data.feeds[0].properties,
        vec![
            PayloadProperty::Price(Some(12_345)),
            PayloadProperty::Other,
            PayloadProperty::Other,
        ]
    );
    let updates = all_updates(&m, &[BOTH, NEITHER], &HashSet::new());
    assert_eq!(
        summary(&updates),
        vec![(MarketType::Perp, 1, 999, 123), (MarketType::Spot, 2, 999, 123)]
    );
    for update in &updates {
        assert_eq!(update.ts, TimestampUs(1_234));
        assert_eq!(update.message, m.bytes);
    }
}

#[test]
fn malformed_payload_is_reported() {
    assert_eq!(decode_message(&message(vec![1, 2, 3])).unwrap_err(), MessageError::MalformedPayload);
    let mut cut = payload(7, &[(6, vec![price(150)])]);
    cut.pop();
    assert_eq!(decode_message(&message(cut)).unwrap_err(), MessageError::MalformedPayload);
}

#[test]
fn overlong_payload_is_reported_first() {
    let mut bytes = payload(7, &[]);
    bytes.resize(0xffff, 0);
    assert!(decode_message(&message(bytes.clone())).is_ok());
    bytes.push(0);
    assert_eq!(decode_message(&message(bytes)).unwrap_err(), MessageError::PayloadTooLong);
    assert_eq!(
        decode_message(&message(vec![0; 0x10000])).unwrap_err(),
        MessageError::PayloadTooLong
    );
}

#[test]
fn a_price_updates_the_markets_of_its_feed() {
    let m = decoded(vec![feed(999, vec![PayloadProperty::Price(Some(12_345))])]);
    let none = HashSet::new();
    assert_eq!(
        summary(&all_updates(&m, &[BOTH], &none)),
        vec![(MarketType::Perp, 1, 999, 123), (MarketType::Spot, 2, 999, 123)]
    );
    let perp = FeedMarkets { perp: Some(1), spot: None };
    assert_eq!(
        summary(&all_updates(&m, &[perp], &none)),
        vec![(MarketType::Perp, 1, 999, 123)]
    );
    let spot = FeedMarkets { perp: None, spot: Some(2) };
    assert_eq!(
        summary(&all_updates(&m, &[spot], &none)),
        vec![(MarketType::Spot, 2, 999, 123)]
    );
    assert!(all_updates(&m, &[NEITHER], &none).is_empty());
}

#[test]
fn an_extra_feed_without_markets_gives_a_synthetic_update() {
    let m = decoded(vec![feed(999, vec![PayloadProperty::Price(Some(12_345))])]);
    let extra: HashSet<u32> = [999].into_iter().collect();
    assert_eq!(
        summary(&all_updates(&m, &[NEITHER], &extra)),
        vec![(MarketType::Spot, u16::MAX, 999, 123)]
    );
    assert_eq!(NO_MARKET, u16::MAX);
    assert_eq!(all_updates(&m, &[BOTH], &extra).len(), 2);
}

#[test]
fn negative_prices_count_by_size() {
    let m = decoded(vec![feed(
        999,
        vec![
            PayloadProperty::Price(Some(-12_345)),
            PayloadProperty::Price(Some(i64::MIN)),
        ],
    )]);
    let markets = [FeedMarkets { perp: Some(1), spot: None }];
    assert_eq!(
        summary(&all_updates(&m, &markets, &HashSet::new())),
        vec![
            (MarketType::Perp, 1, 999, 123),
            (MarketType::Perp, 1, 999, 92233720368547758)
        ]
    );
}

#[test]
fn updates_come_in_the_order_of_the_message() {
    let m = decoded(vec![
        feed(
            9,
            vec![
                PayloadProperty::Other,
                PayloadProperty::Price(Some(10_000)),
                PayloadProperty::Price(None),
            ],
        ),
        feed(7, vec![PayloadProperty::Price(Some(500))]),
        feed(8, vec![PayloadProperty::Price(Some(600))]),
    ]);
    let extra: HashSet<u32> = [8].into_iter().collect();
    let markets = [BOTH, FeedMarkets { perp: None, spot: Some(4) }, NEITHER];
    let updates = all_updates(&m, &markets, &extra);
    assert_eq!(
        summary(&updates),
        vec![
            (MarketType::Perp, 1, 9, 1_000_000),
            (MarketType::Spot, 2, 9, 1),
            (MarketType::Spot, 4, 7, 5),
            (MarketType::Spot, NO_MARKET, 8, 6),
        ]
    );
    for update in &updates {
        assert_eq!(update.message, vec![1, 2, 3]);
        assert_eq!(update.ts, TimestampUs(99));
        let copy = update.clone();
        assert_eq!(copy.message, update.message);
        assert_eq!(copy.price, update.price);
    }
}

#[test]
fn prices_that_overflow_are_noticed() {
    let m = decoded(vec![feed(9, vec![PayloadProperty::Price(Some(i64::MAX))])]);
    let none = HashSet::new();
    let result = price_updates(&m, &[BOTH], &none);
    assert!(!result.complete);
    assert!(result.updates.is_empty());
    let spot = FeedMarkets { perp: None, spot: Some(2) };
    assert_eq!(all_updates(&m, &[spot], &none).len(), 1);
    assert!(all_updates(&m, &[NEITHER], &none).is_empty());

    let m = decoded(vec![feed(4, vec![PayloadProperty::Price(Some(i64::MAX))])]);
    let extra: HashSet<u32> = [4].into_iter().collect();
    assert!(all_updates(&m, &[NEITHER], &none).is_empty());
    assert!(!price_updates(&m, &[NEITHER], &extra).complete);
}

#[test]
fn updates_before_an_overflow_are_kept() {
    let m = decoded(vec![
        feed(7, vec![PayloadProperty::Price(Some(500))]),
        feed(
            4,
            vec![
                PayloadProperty::Price(Some(3)),
                PayloadProperty::Price(Some(i64::MIN)),
                PayloadProperty::Price(Some(5)),
            ],
        ),
        feed(8, vec![PayloadProperty::Price(Some(600))]),
    ]);
    let result = price_updates(&m, &[BOTH, BOTH, BOTH], &HashSet::new());
    assert!(!result.complete);
    assert_eq!(
        summary(&result.updates),
        vec![
            (MarketType::Perp, 1, 7, 5),
            (MarketType::Spot, 2, 7, 5),
            (MarketType::Perp, 1, 4, 300),
            (MarketType::Spot, 2, 4, 300),
        ]
    );
}

#[test]
fn a_message_goes_all_the_way_to_updates() {
    let bytes = payload(1_234, &[(137, vec![price(4_200), exponent(-8)])]);
    let m = decode_message(&message(bytes)).unwrap();
    let updates = all_updates(&m, &[BOTH], &HashSet::new());
    assert_eq!(
        summary(&updates),
        vec![(MarketType::Perp, 1, 137, 42_000), (MarketType::Spot, 2, 137, 42)]
    );
    assert_eq!(updates[0].message, m.bytes);
    assert_eq!(updates[1].ts, TimestampUs(1_234));
}
