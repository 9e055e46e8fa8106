use keeper_core::session::{
    backoff_secs, subscription_params, DeliveryFormat, FeedProperty, FeedSession,
    JsonBinaryEncoding, MessageFormat, SessionAction, MAX_RETRIES,
};

#[test]
fn backoff_doubles_up_to_half_a_minute() {
    let waits: Vec<u64> = (1..10).map(backoff_secs).collect();
    assert_eq!(waits, vec![2, 4, 8, 16, 30, 30, 30, 30, 30]);
    assert_eq!(backoff_secs(0), 1);
    assert_eq!(backoff_secs(u32::MAX), 30);
}

#[test]
fn session_gives_up_after_ten_failed_connects() {
    let mut session = FeedSession::new(vec![1, 2]);
    for attempt in 1..10u32 {
        assert_eq!(session.action(), SessionAction::Connect);
        session.advance(false);
        assert_eq!(session.retries(), attempt);
        assert_eq!(session.action(), SessionAction::Sleep { secs: backoff_secs(attempt) });
        session.advance(true);
    }
    assert_eq!(session.action(), SessionAction::Connect);
    session.advance(false);
    assert_eq!(session.action(), SessionAction::Close);
    assert_eq!(session.retries(), MAX_RETRIES);
    session.advance(true);
    assert_eq!(session.action(), SessionAction::Close);
}

#[test]
fn session_subscribes_every_feed_in_order() {
    let mut session = FeedSession::new(vec![6, 9, 10]);
    session.advance(false);
    session.advance(true);
    assert_eq!(session.retries(), 1);
    session.advance(true);
    assert_eq!(session.action(), SessionAction::Subscribe { subscription_id: 0, feed_id: 6 });
    session.advance(true);
    assert_eq!(session.action(), SessionAction::Subscribe { subscription_id: 1, feed_id: 9 });
    // A failure is waited out, and the next feed is taken.
    session.advance(false);
    assert_eq!(session.action(), SessionAction::Sleep { secs: 1 });
    session.advance(true);
    assert_eq!(session.action(), SessionAction::Subscribe { subscription_id: 2, feed_id: 10 });
    assert_eq!(session.retries(), 1);
    session.advance(true);
    assert_eq!(session.action(), SessionAction::Stream);
    assert_eq!(session.retries(), 0);
}

#[test]
fn session_pauses_after_the_last_feed_too() {
    let mut session = FeedSession::new(vec![6]);
    session.advance(true);
    session.advance(false);
    assert_eq!(session.action(), SessionAction::Sleep { secs: 1 });
    session.advance(true);
    assert_eq!(session.action(), SessionAction::Stream);
}

#[test]
fn session_reconnects_when_the_stream_ends() {
    let mut session = FeedSession::new(vec![]);
    session.advance(true);
    assert_eq!(session.action(), SessionAction::Stream);
    session.advance(true);
    assert_eq!(session.retries(), 1);
    assert_eq!(session.action(), SessionAction::Sleep { secs: 2 });
    session.advance(true);
    assert_eq!(session.action(), SessionAction::Connect);
}

#[test]
fn subscription_asks_for_what_the_chain_needs() {
    let params = subscription_params(10);
    assert_eq!(params.price_feed_ids, vec![10]);
    assert_eq!(
        params.properties,
        vec![FeedProperty::Price, FeedProperty::Exponent, FeedProperty::FeedUpdateTimestamp]
    );
    assert_eq!(params.formats, vec![MessageFormat::Solana]);
    assert_eq!(params.delivery_format, DeliveryFormat::Binary);
    assert_eq!(params.json_binary_encoding, JsonBinaryEncoding::Hex);
    assert!(!params.parsed);
    assert_eq!(params.rate.value_ms(), 50);
    assert!(!params.ignore_invalid_feed_ids);
}
