//! The life of a price feed connection: connecting, subscribing, streaming, and trying
//! again after a failure.
//!
//! A [`FeedSession`] decides and performs nothing: it names the next action, and is told
//! how the action went.

use crate::precision::{fixed_rate, rate_ms, FixedRate};
use vstd::arithmetic::power2::pow2;
use vstd::prelude::*;

verus! {

/// The number of failures in a row after which the session gives up.
pub const MAX_RETRIES: u32 = 10;

/// The longest wait before connecting again, in seconds.
pub const MAX_BACKOFF_SECS: u64 = 30;

/// The wait after a subscription that could not be sent, in seconds.
pub const SUBSCRIBE_PAUSE_SECS: u64 = 1;

/// A property of a feed that a subscription can ask for.
#[derive(Clone, Copy, Debug, PartialEq, Eq, Structural)]
pub enum FeedProperty {
    Price,
    Exponent,
    FeedUpdateTimestamp,
}

/// How updates are delivered.
#[derive(Clone, Copy, Debug, PartialEq, Eq, Structural)]
pub enum DeliveryFormat {
    Json,
    Binary,
}

/// How binary data is written inside JSON.
#[derive(Clone, Copy, Debug, PartialEq, Eq, Structural)]
pub enum JsonBinaryEncoding {
    Base64,
    Hex,
}

/// The chain that a message is signed for.
#[derive(Clone, Copy, Debug, PartialEq, Eq, Structural)]
pub enum MessageFormat {
    Evm,
    Solana,
}

/// What a subscription asks for.
#[derive(Debug)]
pub struct SubscriptionParams {
    pub price_feed_ids: Vec<u32>,
    pub properties: Vec<FeedProperty>,
    pub formats: Vec<MessageFormat>,
    pub delivery_format: DeliveryFormat,
    pub json_binary_encoding: JsonBinaryEncoding,
    pub parsed: bool,
    pub rate: FixedRate,
    pub ignore_invalid_feed_ids: bool,
}

/// The subscription of one feed. A price update can be applied on chain only together
/// with its exponent and the time of the feed update, so all three are asked for.
pub fn subscription_params(feed_id: u32) -> (params: SubscriptionParams)
    ensures
        params.price_feed_ids@ == seq![feed_id],
        params.properties@ == seq![
            FeedProperty::Price,
            FeedProperty::Exponent,
            FeedProperty::FeedUpdateTimestamp,
        ],
        params.formats@ == seq![MessageFormat::Solana],
        params.delivery_format == DeliveryFormat::Binary,
        params.json_binary_encoding == JsonBinaryEncoding::Hex,
        !params.parsed,
        params.rate.ms == rate_ms(feed_id),
        !params.ignore_invalid_feed_ids,
{
    SubscriptionParams {
        price_feed_ids: vec![feed_id],
        properties: vec![
            FeedProperty::Price,
            FeedProperty::Exponent,
            FeedProperty::FeedUpdateTimestamp,
        ],
        formats: vec![MessageFormat::Solana],
        delivery_format: DeliveryFormat::Binary,
        json_binary_encoding: JsonBinaryEncoding::Hex,
        parsed: false,
        rate: fixed_rate(feed_id),
        ignore_invalid_feed_ids: false,
    }
}

/// Where a session stands.
#[derive(Clone, Copy, Debug, PartialEq, Eq, Structural)]
pub enum Phase {
    /// About to connect.
    Connecting,
    /// Connected, about to subscribe the feed at position `next`.
    Subscribing { next: usize },
    /// A subscription failed; going on at position `next` after a pause.
    Pausing { next: usize },
    /// All feeds are taken care of; reading updates until the stream ends.
    Streaming,
    /// Waiting to connect again.
    BackingOff,
    /// Given up.
    Closed,
}

/// What is to be done next.
#[derive(Clone, Copy, Debug, PartialEq, Eq, Structural)]
pub enum SessionAction {
    Connect,
    Subscribe { subscription_id: u64, feed_id: u32 },
    Sleep { secs: u64 },
    /// Read updates until the stream ends.
    Stream,
    Close,
}

/// A feed session: the feeds, the failures in a row, and where it stands.
pub struct FeedSession {
    feed_ids: Vec<u32>,
    retries: u32,
    phase: Phase,
}

/// The mathematical value of a [`FeedSession`].
#[verifier::ext_equal]
pub struct SessionState {
    pub feed_ids: Seq<u32>,
    pub retries: int,
    pub phase: Phase,
}

/// The wait before connecting again after `retries` failures in a row: twice as long
/// each time, up to a limit.
pub open spec fn backoff(retries: int) -> int {
    if pow2(retries as nat) < MAX_BACKOFF_SECS {
        pow2(retries as nat) as int
    } else {
        MAX_BACKOFF_SECS as int
    }
}

impl SessionState {
    /// The position to subscribe is one of the list, and only a closed session has used
    /// up its failures.
    pub open spec fn wf(self) -> bool {
        &&& self.feed_ids.len() <= usize::MAX
        &&& match self.phase {
            Phase::Closed => self.retries == MAX_RETRIES,
            Phase::BackingOff => 0 < self.retries < MAX_RETRIES,
            Phase::Streaming => self.retries == 0,
            Phase::Connecting => 0 <= self.retries < MAX_RETRIES,
            Phase::Subscribing { next } => {
                0 <= self.retries < MAX_RETRIES && next < self.feed_ids.len()
            },
            Phase::Pausing { next } => {
                0 <= self.retries < MAX_RETRIES && next <= self.feed_ids.len()
            },
        }
    }

    /// Going on with the feed at position `next`, or with streaming once all feeds are
    /// taken care of, which clears the failures.
    pub open spec fn subscribing_from(self, next: int) -> SessionState {
        if next < self.feed_ids.len() {
            SessionState { phase: Phase::Subscribing { next: next as usize }, ..self }
        } else {
            SessionState { retries: 0, phase: Phase::Streaming, ..self }
        }
    }

    /// One more failure: another try after a wait, or the end.
    pub open spec fn failed(self) -> SessionState {
        let retries = self.retries + 1;
        let phase = if retries >= MAX_RETRIES {
            Phase::Closed
        } else {
            Phase::BackingOff
        };
        SessionState { retries, phase, ..self }
    }

    /// The state after the current action, which went well or not. An end of the stream
    /// counts as a failure either way, and waiting always succeeds.
    pub open spec fn advanced(self, ok: bool) -> SessionState {
        match self.phase {
            Phase::Connecting => if ok {
                self.subscribing_from(0)
            } else {
                self.failed()
            },
            Phase::Subscribing { next } => if ok {
                self.subscribing_from(next + 1)
            } else {
                SessionState { phase: Phase::Pausing { next: (next + 1) as usize }, ..self }
            },
            Phase::Pausing { next } => self.subscribing_from(next as int),
            Phase::Streaming => self.failed(),
            Phase::BackingOff => SessionState { phase: Phase::Connecting, ..self },
            Phase::Closed => self,
        }
    }

    /// The action that the state calls for. Subscription ids count from zero anew on each
    /// connection.
    pub open spec fn action(self) -> SessionAction {
        match self.phase {
            Phase::Connecting => SessionAction::Connect,
            Phase::Subscribing { next } => SessionAction::Subscribe {
                subscription_id: next as u64,
                feed_id: self.feed_ids[next as int],
            },
            Phase::Pausing { .. } => SessionAction::Sleep { secs: SUBSCRIBE_PAUSE_SECS },
            Phase::Streaming => SessionAction::Stream,
            Phase::BackingOff => SessionAction::Sleep { secs: backoff(self.retries) as u64 },
            Phase::Closed => SessionAction::Close,
        }
    }
}

impl View for FeedSession {
    type V = SessionState;

    closed spec fn view(&self) -> SessionState {
        SessionState {
            feed_ids: self.feed_ids@,
            retries: self.retries as int,
            phase: self.phase,
        }
    }
}

impl FeedSession {
    /// A session for these feeds that has yet to connect.
    pub fn new(feed_ids: Vec<u32>) -> (session: Self)
        ensures
            session@.wf(),
            session@ == (SessionState {
                feed_ids: feed_ids@,
                retries: 0,
                phase: Phase::Connecting,
            }),
    {
        assert(feed_ids.len() <= usize::MAX);
        FeedSession { feed_ids, retries: 0, phase: Phase::Connecting }
    }

    /// Failures in a row so far.
    pub fn retries(&self) -> (retries: u32)
        ensures
            retries == self@.retries,
    {
        self.retries
    }

    /// The action that is called for.
    pub fn action(&self) -> (action: SessionAction)
        requires
            self@.wf(),
        ensures
            action == self@.action(),
    {
        match self.phase {
            Phase::Connecting => SessionAction::Connect,
            Phase::Subscribing { next } => SessionAction::Subscribe {
                subscription_id: next as u64,
                feed_id: self.feed_ids[next],
            },
            Phase::Pausing { .. } => SessionAction::Sleep { secs: SUBSCRIBE_PAUSE_SECS },
            Phase::Streaming => SessionAction::Stream,
            Phase::BackingOff => SessionAction::Sleep { secs: backoff_secs(self.retries) },
            Phase::Closed => SessionAction::Close,
        }
    }

    fn subscribe_from(&mut self, next: usize)
        requires
            old(self)@.feed_ids.len() >= next,
        ensures
            final(self)@ == old(self)@.subscribing_from(next as int),
    {
        if next < self.feed_ids.len() {
            self.phase = Phase::Subscribing { next };
        } else {
            self.retries = 0;
            self.phase = Phase::Streaming;
        }
    }

    fn fail(&mut self)
        requires
            old(self)@.retries < MAX_RETRIES,
        ensures
            final(self)@ == old(self)@.failed(),
    {
        self.retries = self.retries + 1;
        if self.retries >= MAX_RETRIES {
            self.phase = Phase::Closed;
        } else {
            self.phase = Phase::BackingOff;
        }
    }

    /// Goes on after the current action, which went well or not.
    pub fn advance(&mut self, ok: bool)
        requires
            old(self)@.wf(),
        ensures
            final(self)@.wf(),
            final(self)@ == old(self)@.advanced(ok),
    {
        match self.phase {
            Phase::Connecting => {
                if ok {
                    self.subscribe_from(0);
                } else {
                    self.fail();
                }
            },
            Phase::Subscribing { next } => {
                if ok {
                    self.subscribe_from(next + 1);
                } else {
                    self.phase = Phase::Pausing { next: next + 1 };
                }
            },
            Phase::Pausing { next } => {
                self.subscribe_from(next);
            },
            Phase::Streaming => {
                self.fail();
            },
            Phase::BackingOff => {
                self.phase = Phase::Connecting;
            },
            Phase::Closed => {},
        }
    }
}

/// The wait before connecting again after `retries` failures in a row.
pub fn backoff_secs(retries: u32) -> (secs: u64)
    ensures
        secs == backoff(retries as int),
{
    let mut secs: u64 = 1;
    let mut i: u32 = 0;
    proof {
        vstd::arithmetic::power2::lemma2_to64();
    }
    while i < retries
        invariant
            i <= retries,
            secs == pow2(i as nat),
            secs < MAX_BACKOFF_SECS,
        decreases retries - i,
    {
        proof {
            vstd::arithmetic::power2::lemma_pow2_unfold((i + 1) as nat);
        }
        secs = secs * 2;
        i = i + 1;
        if secs >= MAX_BACKOFF_SECS {
            proof {
                if i < retries {
                    vstd::arithmetic::power2::lemma_pow2_strictly_increases(
                        i as nat,
                        retries as nat,
                    );
                }
            }
            return MAX_BACKOFF_SECS;
        }
    }
    secs
}

/// The state after connecting fails `n` times in a row, with a wait after each failure.
pub open spec fn after_connect_failures(state: SessionState, n: nat) -> SessionState
    decreases n,
{
    if n == 0 {
        state
    } else {
        after_connect_failures(state, (n - 1) as nat).advanced(false).advanced(true)
    }
}

/// The state after a subscription that went well or not, and the pause if there is one.
pub open spec fn after_subscription(state: SessionState, ok: bool) -> SessionState {
    let next = state.advanced(ok);
    if next.phase is Pausing {
        next.advanced(true)
    } else {
        next
    }
}

/// The state after subscriptions that went as `outcomes` says, one after the other.
pub open spec fn after_subscriptions(state: SessionState, outcomes: Seq<bool>) -> SessionState
    decreases outcomes.len(),
{
    if outcomes.len() == 0 {
        state
    } else {
        after_subscription(after_subscriptions(state, outcomes.drop_last()), outcomes.last())
    }
}

/// Every state that a session can reach is in order: a step leads from one such state to
/// another, whatever the outcome, and never changes the feeds.
pub proof fn law_steps_keep_order(state: SessionState, ok: bool)
    requires
        state.wf(),
    ensures
        state.advanced(ok).wf(),
        state.advanced(ok).feed_ids == state.feed_ids,
{
}

/// A session tries again after every failure to connect but the last one allowed, and
/// gives up after that one.
pub proof fn law_gives_up_after_max_retries(state: SessionState, n: nat)
    requires
        state.wf(),
        state.phase is Connecting,
        state.retries + n < MAX_RETRIES,
    ensures
        after_connect_failures(state, n) == (SessionState { retries: state.retries + n, ..state }),
        after_connect_failures(state, n).advanced(false).phase is Closed <==> state.retries + n + 1
            == MAX_RETRIES,
    decreases n,
{
    if n > 0 {
        law_gives_up_after_max_retries(state, (n - 1) as nat);
    }
}

/// A session that has given up stays so, and it gives up only for its failures.
pub proof fn law_closed_is_final(state: SessionState, ok: bool)
    requires
        state.wf(),
    ensures
        state.phase is Closed ==> state.advanced(ok) == state,
        state.advanced(ok).phase is Closed ==> state.phase is Closed || state.retries + 1
            == MAX_RETRIES,
{
}

/// On a connection every feed is subscribed once, in order, under its position as id, and
/// a subscription that fails does not hold up the others. Then the stream is read and
/// the failures are forgotten.
pub proof fn law_every_feed_is_subscribed(state: SessionState, outcomes: Seq<bool>)
    requires
        state.wf(),
        state.phase is Connecting,
        outcomes.len() <= state.feed_ids.len(),
    ensures
        outcomes.len() < state.feed_ids.len() ==> {
            let now = after_subscriptions(state.advanced(true), outcomes);
            &&& now.retries == state.retries
            &&& now.action() == SessionAction::Subscribe {
                subscription_id: outcomes.len() as u64,
                feed_id: state.feed_ids[outcomes.len() as int],
            }
        },
        outcomes.len() == state.feed_ids.len() ==> {
            let now = after_subscriptions(state.advanced(true), outcomes);
            &&& now.retries == 0
            &&& now.action() == SessionAction::Stream
        },
{
    lemma_subscriptions_in_turn(state, outcomes);
}

/// After some subscriptions the session goes on with the feed at their number.
proof fn lemma_subscriptions_in_turn(state: SessionState, outcomes: Seq<bool>)
    requires
        state.wf(),
        state.phase is Connecting,
        outcomes.len() <= state.feed_ids.len(),
    ensures
        after_subscriptions(state.advanced(true), outcomes) == state.subscribing_from(
            outcomes.len() as int,
        ),
    decreases outcomes.len(),
{
    if outcomes.len() > 0 {
        lemma_subscriptions_in_turn(state, outcomes.drop_last());
    }
}

/// The wait before another try is never under two seconds nor over the limit, and never
/// shorter than the one before.
pub proof fn law_backoff_grows_to_limit(retries: int)
    requires
        retries >= 1,
    ensures
        2 <= backoff(retries) <= MAX_BACKOFF_SECS,
        backoff(retries) <= backoff(retries + 1),
        backoff(retries + 1) == if 2 * backoff(retries) < MAX_BACKOFF_SECS {
            2 * backoff(retries)
        } else {
            MAX_BACKOFF_SECS as int
        },
{
    vstd::arithmetic::power2::lemma2_to64();
    vstd::arithmetic::power2::lemma_pow2_unfold((retries + 1) as nat);
    if retries > 1 {
        vstd::arithmetic::power2::lemma_pow2_strictly_increases(1, retries as nat);
    }
}

/// A session starts with its feeds, no failure and a connection to be made; each call
/// moves it as its state says, and what it shows is what its state holds.
pub proof fn law_session_follows_its_state(
    feed_ids: Vec<u32>,
    fresh: FeedSession,
    session: &mut FeedSession,
    ok: bool,
    shown: &FeedSession,
    action: SessionAction,
    retries: u32,
)
    requires
        call_ensures(FeedSession::new, (feed_ids,), fresh),
        old(session)@.wf(),
        call_ensures(FeedSession::advance, (session, ok), ()),
        call_ensures(FeedSession::action, (shown,), action),
        call_ensures(FeedSession::retries, (shown,), retries),
    ensures
        fresh@.wf(),
        fresh@.feed_ids == feed_ids@,
        fresh@.retries == 0,
        fresh@.action() == SessionAction::Connect,
        final(session)@.wf(),
        final(session)@ == old(session)@.advanced(ok),
        action == shown@.action(),
        retries == shown@.retries,
{
}

/// A stream that ends counts as one failure, however it ended: the session waits two
/// seconds and then connects anew, for the same feeds.
pub proof fn law_stream_end_reconnects(state: SessionState, ok: bool, waited: bool)
    requires
        state.wf(),
        state.action() == SessionAction::Stream,
    ensures
        state.advanced(ok) == (SessionState {
            feed_ids: state.feed_ids,
            retries: 1,
            phase: Phase::BackingOff,
        }),
        state.advanced(ok).action() == (SessionAction::Sleep { secs: 2 }),
        state.advanced(ok).advanced(waited) == (SessionState {
            feed_ids: state.feed_ids,
            retries: 1,
            phase: Phase::Connecting,
        }),
        state.advanced(ok).advanced(waited).action() == SessionAction::Connect,
{
    vstd::arithmetic::power2::lemma2_to64();
}

/// A connection that is made leads to the first feed, or straight to the stream if there
/// are no feeds; only the stream forgets the failures. A connection that fails is one more
/// failure. The tenth in a row ends the session; the others are followed by a wait of 2, 4,
/// 8, 16 and then always 30 seconds, and another try.
pub proof fn law_connect_outcomes(state: SessionState, waited: bool)
    requires
        state.wf(),
        state.action() == SessionAction::Connect,
    ensures
        ({
            let made = state.advanced(true);
            &&& made.feed_ids == state.feed_ids
            &&& if state.feed_ids.len() == 0 {
                made.action() == SessionAction::Stream && made.retries == 0
            } else {
                &&& made.action() == SessionAction::Subscribe {
                    subscription_id: 0,
                    feed_id: state.feed_ids[0],
                }
                &&& made.retries == state.retries
            }
        }),
        ({
            let failed = state.advanced(false);
            let again = failed.advanced(waited);
            &&& 0 <= state.retries <= 9
            &&& failed.feed_ids == state.feed_ids
            &&& failed.retries == state.retries + 1
            &&& again.feed_ids == state.feed_ids
            &&& again.retries == failed.retries
            &&& if failed.retries == 10 {
                failed.action() == SessionAction::Close && again == failed
            } else {
                &&& again.action() == SessionAction::Connect
                &&& failed.action() == SessionAction::Sleep {
                    secs: if failed.retries == 1 {
                        2
                    } else if failed.retries == 2 {
                        4
                    } else if failed.retries == 3 {
                        8
                    } else if failed.retries == 4 {
                        16
                    } else {
                        30
                    },
                }
            }
        }),
{
    vstd::arithmetic::power2::lemma2_to64();
}

/// A subscription is of the feed at the position of its id. Whether it goes well or fails,
/// the next feed follows, or the stream after the last one; a failure puts a pause of one
/// second in between and is not counted. The stream forgets the failures to connect.
pub proof fn law_subscription_outcomes(state: SessionState, ok: bool, waited: bool)
    requires
        state.wf(),
        state.action() is Subscribe,
    ensures
        ({
            let id = state.action()->subscription_id;
            let first = state.advanced(ok);
            let next = if ok {
                first
            } else {
                first.advanced(waited)
            };
            &&& id < state.feed_ids.len()
            &&& state.action()->feed_id == state.feed_ids[id as int]
            &&& !ok ==> first.action() == (SessionAction::Sleep { secs: 1 }) && first.retries
                == state.retries
            &&& next.feed_ids == state.feed_ids
            &&& if id + 1 < state.feed_ids.len() {
                &&& next.action() == SessionAction::Subscribe {
                    subscription_id: (id + 1) as u64,
                    feed_id: state.feed_ids[id + 1],
                }
                &&& next.retries == state.retries
            } else {
                next.action() == SessionAction::Stream && next.retries == 0
            }
        }),
{
}

/// A session closes only with its tenth failure in a row, and a closed one stays closed.
pub proof fn law_closes_at_ten_failures(state: SessionState, ok: bool)
    requires
        state.wf(),
    ensures
        0 <= state.retries <= 10,
        state.action() == SessionAction::Close <==> state.retries == 10,
        state.action() == SessionAction::Close ==> state.advanced(ok) == state,
{
}

/// `run` is what a session goes through from its start: one state before each action, with
/// the outcomes of the actions.
pub open spec fn is_session_run(run: Seq<SessionState>, outcomes: Seq<bool>) -> bool {
    &&& run.len() == outcomes.len() + 1
    &&& run[0].wf()
    &&& run[0].action() == SessionAction::Connect
    &&& forall|k: int|
        0 <= k < outcomes.len() ==> #[trigger] run[k + 1] == run[k].advanced(outcomes[k])
}

/// A feed is only ever subscribed on a connection that was made and has not ended: before
/// each subscription there is a successful connect, and since then there was nothing but
/// subscriptions and the one-second pauses after those that failed.
pub proof fn law_subscribes_on_open_connection(
    run: Seq<SessionState>,
    outcomes: Seq<bool>,
    k: int,
)
    requires
        is_session_run(run, outcomes),
        0 <= k < run.len(),
        run[k].action() is Subscribe,
    ensures
        exists|j: int|
            #![trigger run[j]]
            0 <= j < k && run[j].action() == SessionAction::Connect && outcomes[j] && forall|i: int|
                j < i < k ==> (#[trigger] run[i]).action() is Subscribe || run[i].action()
                    == (SessionAction::Sleep { secs: 1 }),
{
    let j = lemma_connected_before(run, outcomes, k);
    assert(run[j].action() == SessionAction::Connect);
}

/// The connect that a subscription or a pause goes back to.
proof fn lemma_connected_before(
    run: Seq<SessionState>,
    outcomes: Seq<bool>,
    k: int,
) -> (j: int)
    requires
        is_session_run(run, outcomes),
        0 <= k < run.len(),
        run[k].phase is Subscribing || run[k].phase is Pausing,
    ensures
        run[k].wf(),
        0 <= j < k,
        run[j].action() == SessionAction::Connect,
        outcomes[j],
        forall|i: int|
            j < i < k ==> (#[trigger] run[i]).action() is Subscribe || run[i].action()
                == (SessionAction::Sleep { secs: 1 }),
    decreases k,
{
    lemma_run_in_order(run, outcomes, k);
    lemma_run_in_order(run, outcomes, k - 1);
    assert(run[(k - 1) + 1] == run[k - 1].advanced(outcomes[k - 1]));
    if run[k - 1].phase is Connecting {
        k - 1
    } else {
        lemma_connected_before(run, outcomes, k - 1)
    }
}

/// Every state of a run is in order.
proof fn lemma_run_in_order(run: Seq<SessionState>, outcomes: Seq<bool>, k: int)
    requires
        is_session_run(run, outcomes),
        0 <= k < run.len(),
    ensures
        run[k].wf(),
    decreases k,
{
    if k > 0 {
        lemma_run_in_order(run, outcomes, k - 1);
        assert(run[(k - 1) + 1] == run[k - 1].advanced(outcomes[k - 1]));
    }
}

/// The wait is 1, 2, 4, 8 and 16 seconds after up to four failures, and 30 after more.
pub proof fn law_backoff_seconds(retries: u32, secs: u64)
    requires
        call_ensures(backoff_secs, (retries,), secs),
    ensures
        secs == if retries == 0 {
            1
        } else if retries == 1 {
            2
        } else if retries == 2 {
            4
        } else if retries == 3 {
            8
        } else if retries == 4 {
            16
        } else {
            30int
        },
{
    vstd::arithmetic::power2::lemma2_to64();
    if retries > 5 {
        vstd::arithmetic::power2::lemma_pow2_strictly_increases(5, retries as nat);
    }
}

/// A subscription asks for just its feed, with all that is needed to apply an update on
/// chain, in the binary form signed for Solana, at the rate of the feed, and an unknown
/// feed is not passed over.
pub proof fn law_subscription_asks_for_applicable_updates(feed_id: u32, params: SubscriptionParams)
    requires
        call_ensures(subscription_params, (feed_id,), params),
    ensures
        params.price_feed_ids@.len() == 1,
        params.price_feed_ids@[0] == feed_id,
        params.properties@.len() == 3,
        params.properties@.contains(FeedProperty::Price),
        params.properties@.contains(FeedProperty::Exponent),
        params.properties@.contains(FeedProperty::FeedUpdateTimestamp),
        params.formats@.len() == 1,
        params.formats@[0] == MessageFormat::Solana,
        params.delivery_format == DeliveryFormat::Binary,
        params.json_binary_encoding == JsonBinaryEncoding::Hex,
        !params.parsed,
        !params.ignore_invalid_feed_ids,
        params.rate.ms == if feed_id == 1 || feed_id == 2 || feed_id == 6 || feed_id == 10 {
            50
        } else {
            200int
        },
{
    assert(params.properties@[0] == FeedProperty::Price);
    assert(params.properties@[1] == FeedProperty::Exponent);
    assert(params.properties@[2] == FeedProperty::FeedUpdateTimestamp);
}

} // verus!
