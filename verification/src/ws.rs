//! The live feed: when a client is pinged, served, or dropped.
//!
//! The caller runs the connection: it performs each action and reports what happened. Times
//! are nanoseconds on one monotonic clock.

use vstd::prelude::*;

verus! {

/// A client that has missed more messages than this is dropped.
pub const MAX_LAG: u64 = 64;

/// The shortest time between two looks at the heartbeat, in seconds.
pub const MIN_CHECK_SECS: u64 = 5;

/// Nanoseconds in a second.
pub const NANOS_PER_SEC: u128 = 1_000_000_000;

/// What can go wrong when a request is answered.
#[derive(Debug)]
pub enum HftError {
    DbError,
    SymbolNotFound(String),
}

/// The text of an error.
pub open spec fn error_text(error: HftError) -> Seq<char> {
    match error {
        HftError::DbError => "ClickHouse connection failed"@,
        HftError::SymbolNotFound(symbol) => "Symbol not found: "@ + symbol@,
    }
}

impl HftError {
    /// The HTTP status of the error.
    pub fn status_code(&self) -> (r: u16)
        ensures
            r == (match *self {
                HftError::SymbolNotFound(_) => 404u16,
                HftError::DbError => 500u16,
            }),
    {
        match self {
            HftError::SymbolNotFound(_) => 404,
            HftError::DbError => 500,
        }
    }

    /// The text of the error.
    pub fn message(&self) -> (r: String)
        ensures
            r@ == error_text(*self),
    {
        match self {
            HftError::DbError => "ClickHouse connection failed".to_string(),
            HftError::SymbolNotFound(symbol) => {
                "Symbol not found: ".to_string().concat(symbol.as_str())
            },
        }
    }
}

/// How connections are watched.
#[derive(Clone, Copy, Debug, PartialEq, Eq, Structural)]
pub struct WsConfig {
    /// Seconds since the last Pong before the connection is forcibly closed.
    pub heartbeat_timeout_secs: u64,
    /// Seconds between outgoing Ping frames.
    pub ping_interval_secs: u64,
}

impl Default for WsConfig {
    fn default() -> (r: WsConfig)
        ensures
            r == (WsConfig { heartbeat_timeout_secs: 60, ping_interval_secs: 20 }),
    {
        WsConfig { heartbeat_timeout_secs: 60, ping_interval_secs: 20 }
    }
}

impl WsConfig {
    /// The time between two looks at the heartbeat: half the ping interval, but not less
    /// than five seconds.
    pub fn check_interval_secs(&self) -> (r: u64)
        ensures
            r == (if self.ping_interval_secs / 2 >= MIN_CHECK_SECS {
                self.ping_interval_secs / 2
            } else {
                MIN_CHECK_SECS
            }),
            r >= 5,
            self.ping_interval_secs >= 10 ==> r == self.ping_interval_secs / 2,
            self.ping_interval_secs < 10 ==> r == 5,
    {
        let half: u64 = self.ping_interval_secs / 2;
        if half >= MIN_CHECK_SECS {
            half
        } else {
            MIN_CHECK_SECS
        }
    }
}

/// A connection and the time of its last heartbeat.
#[derive(Clone, Copy, Debug, PartialEq, Eq, Structural)]
pub struct Connection {
    pub heartbeat_timeout: u128,
    pub ping_interval: u128,
    pub last_heartbeat: u128,
}

/// What happens to a connection.
#[derive(Debug)]
pub enum FeedEvent {
    /// The heartbeat timer fired.
    Timer { now: u128 },
    /// The client answered a ping.
    Pong { now: u128 },
    /// The client closes the connection.
    CloseFrame,
    /// The client sent anything else.
    OtherFrame,
    /// There is market data to send.
    Data(String),
    /// The client was too slow and missed this many messages.
    Lagged(u64),
    /// There will be no more market data.
    ChannelClosed,
    /// A ping or market data could not be sent.
    SendFailed,
}

/// What to do with a connection.
#[derive(Debug)]
pub enum FeedAction {
    /// Wait for the next event.
    Wait,
    /// Send a ping and wait.
    Ping,
    /// Send market data and wait.
    Send(String),
    /// Note that the client lags behind and wait.
    NoteLag,
    /// Note that the client lags behind, close the session and give the connection up.
    NoteLagAndClose,
    /// Close the session and give the connection up.
    Close,
    /// Give the connection up.
    Stop,
}

/// The time from `since` to `now`; none if `now` comes first.
pub open spec fn elapsed(since: u128, now: u128) -> int {
    if now >= since {
        now - since
    } else {
        0
    }
}

/// The connection after an event: only a Pong renews the heartbeat.
pub open spec fn next_connection(c: Connection, event: FeedEvent) -> Connection {
    match event {
        FeedEvent::Pong { now } => Connection { last_heartbeat: now, ..c },
        _ => c,
    }
}

/// What an event calls for. A connection without a heartbeat for longer than the timeout is
/// closed, and for longer than the ping interval is pinged; a client that lags too far
/// behind is closed.
pub open spec fn next_action(c: Connection, event: FeedEvent) -> FeedAction {
    match event {
        FeedEvent::Timer { now } => if elapsed(c.last_heartbeat, now) > c.heartbeat_timeout {
            FeedAction::Close
        } else if elapsed(c.last_heartbeat, now) > c.ping_interval {
            FeedAction::Ping
        } else {
            FeedAction::Wait
        },
        FeedEvent::Pong { now } => FeedAction::Wait,
        FeedEvent::CloseFrame => FeedAction::Stop,
        FeedEvent::OtherFrame => FeedAction::Wait,
        FeedEvent::Data(text) => FeedAction::Send(text),
        FeedEvent::Lagged(count) => if count > MAX_LAG {
            FeedAction::NoteLagAndClose
        } else {
            FeedAction::NoteLag
        },
        FeedEvent::ChannelClosed => FeedAction::Stop,
        FeedEvent::SendFailed => FeedAction::Stop,
    }
}

/// The action ends the connection.
pub open spec fn ends(action: FeedAction) -> bool {
    action is NoteLagAndClose || action is Close || action is Stop
}

impl Connection {
    /// A connection that opens now, which counts as a heartbeat.
    pub fn open(config: &WsConfig, now: u128) -> (r: Connection)
        ensures
            r.heartbeat_timeout == config.heartbeat_timeout_secs * NANOS_PER_SEC,
            r.ping_interval == config.ping_interval_secs * NANOS_PER_SEC,
            r.heartbeat_timeout == config.heartbeat_timeout_secs * 1_000_000_000,
            r.ping_interval == config.ping_interval_secs * 1_000_000_000,
            r.last_heartbeat == now,
    {
        assert(config.heartbeat_timeout_secs * NANOS_PER_SEC <= u128::MAX) by (nonlinear_arith)
            requires
                config.heartbeat_timeout_secs <= u64::MAX,
                NANOS_PER_SEC == 1_000_000_000,
        ;
        assert(config.ping_interval_secs * NANOS_PER_SEC <= u128::MAX) by (nonlinear_arith)
            requires
                config.ping_interval_secs <= u64::MAX,
                NANOS_PER_SEC == 1_000_000_000,
        ;
        Connection {
            heartbeat_timeout: config.heartbeat_timeout_secs as u128 * NANOS_PER_SEC,
            ping_interval: config.ping_interval_secs as u128 * NANOS_PER_SEC,
            last_heartbeat: now,
        }
    }

    /// Takes in what happened and returns what to do.
    pub fn step(&mut self, event: FeedEvent) -> (r: FeedAction)
        ensures
            *final(self) == next_connection(*old(self), event),
            r == next_action(*old(self), event),
    {
        match event {
            FeedEvent::Timer { now } => {
                let since: u128 = if now >= self.last_heartbeat {
                    now - self.last_heartbeat
                } else {
                    0
                };
                if since > self.heartbeat_timeout {
                    FeedAction::Close
                } else if since > self.ping_interval {
                    FeedAction::Ping
                } else {
                    FeedAction::Wait
                }
            },
            FeedEvent::Pong { now } => {
                self.last_heartbeat = now;
                FeedAction::Wait
            },
            FeedEvent::CloseFrame => FeedAction::Stop,
            FeedEvent::OtherFrame => FeedAction::Wait,
            FeedEvent::Data(text) => FeedAction::Send(text),
            FeedEvent::Lagged(count) => {
                if count > MAX_LAG {
                    FeedAction::NoteLagAndClose
                } else {
                    FeedAction::NoteLag
                }
            },
            FeedEvent::ChannelClosed => FeedAction::Stop,
            FeedEvent::SendFailed => FeedAction::Stop,
        }
    }
}

/// The connection after a sequence of events.
pub open spec fn after_events(c: Connection, events: Seq<FeedEvent>) -> Connection
    decreases events.len(),
{
    if events.len() == 0 {
        c
    } else {
        next_connection(after_events(c, events.drop_last()), events.last())
    }
}

/// The events hold no Pong.
pub open spec fn is_silent(events: Seq<FeedEvent>) -> bool {
    forall|i: int| 0 <= i < events.len() ==> !((#[trigger] events[i]) is Pong)
}

/// A client that never answers is dropped: whatever else happens, however often it is pinged
/// or sends other frames, the first look after the timeout closes the connection.
pub proof fn silent_client_is_dropped(c: Connection, events: Seq<FeedEvent>, now: u128)
    requires
        is_silent(events),
        now > c.last_heartbeat + c.heartbeat_timeout,
    ensures
        next_action(after_events(c, events), FeedEvent::Timer { now }) is Close,
{
    unanswered_keeps_heartbeat(c, events);
}

/// A client that answered no longer ago than the timeout is not dropped by the timer.
pub proof fn answering_client_is_kept(
    c: Connection,
    answered: u128,
    events: Seq<FeedEvent>,
    now: u128,
)
    requires
        is_silent(events),
        now <= answered + c.heartbeat_timeout,
    ensures
        !ends(
            next_action(
                after_events(next_connection(c, FeedEvent::Pong { now: answered }), events),
                FeedEvent::Timer { now },
            ),
        ),
{
    let renewed = next_connection(c, FeedEvent::Pong { now: answered });
    unanswered_keeps_heartbeat(renewed, events);
}

/// Without a Pong nothing renews the heartbeat.
proof fn unanswered_keeps_heartbeat(c: Connection, events: Seq<FeedEvent>)
    requires
        is_silent(events),
    ensures
        after_events(c, events) == c,
    decreases events.len(),
{
    if events.len() > 0 {
        assert(is_silent(events.drop_last()));
        assert(!(events[events.len() - 1] is Pong));
        unanswered_keeps_heartbeat(c, events.drop_last());
    }
}

/// The texts that a connection is told to send over a sequence of events.
pub open spec fn sent_texts(c: Connection, events: Seq<FeedEvent>) -> Seq<String>
    decreases events.len(),
{
    if events.len() == 0 {
        Seq::empty()
    } else {
        let before = sent_texts(c, events.drop_last());
        match next_action(after_events(c, events.drop_last()), events.last()) {
            FeedAction::Send(text) => before.push(text),
            _ => before,
        }
    }
}

/// The texts of the market data among the events.
pub open spec fn data_in(events: Seq<FeedEvent>) -> Seq<String>
    decreases events.len(),
{
    if events.len() == 0 {
        Seq::empty()
    } else {
        match events.last() {
            FeedEvent::Data(text) => data_in(events.drop_last()).push(text),
            _ => data_in(events.drop_last()),
        }
    }
}

/// Every message is forwarded unchanged, once and in order, whatever it holds and however long
/// it is, and nothing else is sent as text.
pub proof fn every_message_is_forwarded(c: Connection, text: String, events: Seq<FeedEvent>)
    ensures
        next_action(c, FeedEvent::Data(text)) == FeedAction::Send(text),
        next_connection(c, FeedEvent::Data(text)) == c,
        sent_texts(c, events) == data_in(events),
    decreases events.len(),
{
    if events.len() > 0 {
        every_message_is_forwarded(c, text, events.drop_last());
    }
}

/// At a look at the heartbeat only the time since the last one counts: beyond the timeout the
/// connection is closed, up to it but beyond the ping interval the client is pinged, and up to
/// that nothing is done. The look itself renews nothing.
pub proof fn heartbeats_decide(c: Connection, since: u128)
    requires
        c.last_heartbeat + since <= u128::MAX,
    ensures
        ({
            let look = FeedEvent::Timer { now: (c.last_heartbeat + since) as u128 };
            &&& since > c.heartbeat_timeout <==> next_action(c, look) is Close
            &&& since <= c.heartbeat_timeout && since > c.ping_interval <==> next_action(
                c,
                look,
            ) is Ping
            &&& since <= c.heartbeat_timeout && since <= c.ping_interval <==> next_action(
                c,
                look,
            ) is Wait
            &&& next_connection(c, look) == c
        }),
{
}

/// A look that comes before the heartbeat finds nothing to do.
pub proof fn early_looks_wait(c: Connection, now: u128)
    requires
        now <= c.last_heartbeat,
    ensures
        next_action(c, FeedEvent::Timer { now }) is Wait,
{
}

/// A Pong renews the heartbeat and nothing else, and no other event changes the connection.
pub proof fn only_answers_renew(c: Connection, now: u128, event: FeedEvent)
    ensures
        next_connection(c, FeedEvent::Pong { now }).last_heartbeat == now,
        next_connection(c, FeedEvent::Pong { now }).heartbeat_timeout == c.heartbeat_timeout,
        next_connection(c, FeedEvent::Pong { now }).ping_interval == c.ping_interval,
        next_action(c, FeedEvent::Pong { now }) is Wait,
        !(event is Pong) ==> next_connection(c, event) == c,
{
}

/// A client that lags is noted, and dropped exactly when it has missed more than 64 messages.
pub proof fn laggards_are_dropped(c: Connection, count: u64)
    ensures
        count > 64 ==> next_action(c, FeedEvent::Lagged(count)) is NoteLagAndClose,
        count <= 64 ==> next_action(c, FeedEvent::Lagged(count)) is NoteLag,
        ends(next_action(c, FeedEvent::Lagged(count))) <==> count > 64,
{
}

/// A connection is given up when the client closes it, when there will be no more data and when
/// nothing can be sent any more; any other frame is ignored.
pub proof fn connections_end_when_either_side_is_gone(c: Connection)
    ensures
        next_action(c, FeedEvent::CloseFrame) is Stop,
        next_action(c, FeedEvent::ChannelClosed) is Stop,
        next_action(c, FeedEvent::SendFailed) is Stop,
        next_action(c, FeedEvent::OtherFrame) is Wait,
        ends(FeedAction::Stop) && ends(FeedAction::Close) && ends(FeedAction::NoteLagAndClose),
        !ends(FeedAction::Wait) && !ends(FeedAction::Ping) && !ends(FeedAction::NoteLag),
{
}

/// The text of an error about a symbol ends in the symbol, and differs for different symbols.
pub proof fn errors_name_the_symbol(a: String, b: String)
    ensures
        error_text(HftError::SymbolNotFound(a)) == "Symbol not found: "@ + a@,
        error_text(HftError::SymbolNotFound(a)) == error_text(HftError::SymbolNotFound(b)) ==> a@
            == b@,
        error_text(HftError::DbError) == "ClickHouse connection failed"@,
{
    let head = "Symbol not found: "@;
    assert((head + a@).skip(head.len() as int) =~= a@);
    assert((head + b@).skip(head.len() as int) =~= b@);
}

} // verus!
