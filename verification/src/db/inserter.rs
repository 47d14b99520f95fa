//! The buffered inserter: which rows wait, when they are to be written, and what becomes of
//! them afterwards.
//!
//! The caller runs the loop: it performs each action and reports back what happened.

use crate::db::rows::{OhlcvRow, TradeRow};
use vstd::prelude::*;

verus! {

/// What is sent to the inserter.
#[derive(Debug)]
pub enum InserterPayload {
    Trade(TradeRow),
    Ohlcv(OhlcvRow),
    Flush,
}

/// What happened outside the inserter.
#[derive(Debug)]
pub enum InserterEvent {
    /// A payload arrived, or the flush timer fired, which counts as `Flush`.
    Received(InserterPayload),
    /// All senders are gone.
    Closed,
    /// The rows that were to be written have been written.
    Written,
    /// The rows that were to be written could not be written.
    Failed,
}

/// Why rows are to be written.
#[derive(Clone, Copy, Debug, PartialEq, Eq, Structural)]
pub enum FlushCause {
    /// The trade buffer is full.
    Full,
    /// The timer fired or a flush was asked for.
    Interval,
    /// The inserter is shutting down.
    Shutdown,
}

/// What the caller has to do next.
#[derive(Clone, Copy, Debug, PartialEq, Eq, Structural)]
pub enum InserterAction {
    /// Wait for a payload, the timer or the end.
    Receive,
    /// Write the buffered trades and report whether that succeeded.
    WriteTrades(FlushCause),
    /// Write the buffered candles and report whether that succeeded.
    WriteOhlcv(FlushCause),
    /// Nothing is left to do.
    Stop,
}

/// The inserter: the rows that wait to be written, and what the caller is doing.
pub struct Inserter {
    trade_buffer: Vec<TradeRow>,
    ohlcv_buffer: Vec<OhlcvRow>,
    buffer_size: usize,
    action: InserterAction,
}

/// The state of an inserter.
pub struct InserterView {
    pub trades: Seq<TradeRow>,
    pub candles: Seq<OhlcvRow>,
    pub buffer_size: nat,
    pub action: InserterAction,
}

impl View for Inserter {
    type V = InserterView;

    closed spec fn view(&self) -> InserterView {
        InserterView {
            trades: self.trade_buffer@,
            candles: self.ohlcv_buffer@,
            buffer_size: self.buffer_size as nat,
            action: self.action,
        }
    }
}

/// The event can follow the state: rows are reported written or failed exactly while they
/// are being written, and nothing follows the end.
pub open spec fn may_follow(s: InserterView, event: InserterEvent) -> bool {
    match s.action {
        InserterAction::Receive => event is Received || event is Closed,
        InserterAction::WriteTrades(_) => event is Written || event is Failed,
        InserterAction::WriteOhlcv(_) => event is Written || event is Failed,
        InserterAction::Stop => false,
    }
}

/// What follows once the trades have had their turn.
pub open spec fn after_trades(candles: Seq<OhlcvRow>, cause: FlushCause) -> InserterAction {
    match cause {
        FlushCause::Full => InserterAction::Receive,
        FlushCause::Interval => if candles.len() > 0 {
            InserterAction::WriteOhlcv(cause)
        } else {
            InserterAction::Receive
        },
        FlushCause::Shutdown => if candles.len() > 0 {
            InserterAction::WriteOhlcv(cause)
        } else {
            InserterAction::Stop
        },
    }
}

/// What follows once the candles have had their turn.
pub open spec fn after_candles(cause: FlushCause) -> InserterAction {
    match cause {
        FlushCause::Shutdown => InserterAction::Stop,
        _ => InserterAction::Receive,
    }
}

/// What a flush of both buffers begins with.
pub open spec fn first_write(s: InserterView, cause: FlushCause) -> InserterAction {
    if s.trades.len() > 0 {
        InserterAction::WriteTrades(cause)
    } else {
        after_trades(s.candles, cause)
    }
}

/// The state after an event.
///
/// A trade is buffered, and a full buffer is written at once. A candle is buffered. A flush
/// writes the trades and then the candles, each if there are any; so does the end, after
/// which the inserter stops. Rows leave their buffer when they have been written; rows that
/// could not be written stay.
pub open spec fn next_state(s: InserterView, event: InserterEvent) -> InserterView {
    match (s.action, event) {
        (InserterAction::Receive, InserterEvent::Received(InserterPayload::Trade(row))) => {
            let trades = s.trades.push(row);
            InserterView {
                trades,
                action: if trades.len() >= s.buffer_size {
                    InserterAction::WriteTrades(FlushCause::Full)
                } else {
                    InserterAction::Receive
                },
                ..s
            }
        },
        (InserterAction::Receive, InserterEvent::Received(InserterPayload::Ohlcv(row))) => {
            InserterView { candles: s.candles.push(row), ..s }
        },
        (InserterAction::Receive, InserterEvent::Received(InserterPayload::Flush)) => {
            InserterView { action: first_write(s, FlushCause::Interval), ..s }
        },
        (InserterAction::Receive, InserterEvent::Closed) => {
            InserterView { action: first_write(s, FlushCause::Shutdown), ..s }
        },
        (InserterAction::WriteTrades(cause), InserterEvent::Written) => {
            InserterView { trades: Seq::empty(), action: after_trades(s.candles, cause), ..s }
        },
        (InserterAction::WriteTrades(cause), InserterEvent::Failed) => {
            InserterView { action: after_trades(s.candles, cause), ..s }
        },
        (InserterAction::WriteOhlcv(cause), InserterEvent::Written) => {
            InserterView { candles: Seq::empty(), action: after_candles(cause), ..s }
        },
        (InserterAction::WriteOhlcv(cause), InserterEvent::Failed) => {
            InserterView { action: after_candles(cause), ..s }
        },
        _ => s,
    }
}

/// The name under which a failed write is counted. Candles are never written for the sake of
/// a full buffer, so there is no name for that.
pub open spec fn failure_label(action: InserterAction) -> Option<Seq<char>> {
    match action {
        InserterAction::WriteTrades(FlushCause::Full) => Some("flush_trades"@),
        InserterAction::WriteTrades(FlushCause::Interval) => Some("flush_trades_interval"@),
        InserterAction::WriteTrades(FlushCause::Shutdown) => Some("flush_trades_shutdown"@),
        InserterAction::WriteOhlcv(FlushCause::Interval) => Some("flush_ohlcv_interval"@),
        InserterAction::WriteOhlcv(FlushCause::Shutdown) => Some("flush_ohlcv_shutdown"@),
        _ => None,
    }
}

impl Inserter {
    /// An inserter with empty buffers, waiting for its first payload.
    pub fn new(buffer_size: usize) -> (r: Inserter)
        ensures
            r@ == (InserterView {
                trades: Seq::empty(),
                candles: Seq::empty(),
                buffer_size: buffer_size as nat,
                action: InserterAction::Receive,
            }),
    {
        Inserter {
            trade_buffer: Vec::new(),
            ohlcv_buffer: Vec::new(),
            buffer_size,
            action: InserterAction::Receive,
        }
    }

    /// What the caller has to do next.
    pub fn action(&self) -> (r: InserterAction)
        ensures
            r == self@.action,
    {
        self.action
    }

    /// The trades that wait to be written, oldest first.
    pub fn trades(&self) -> (r: &Vec<TradeRow>)
        ensures
            r@ == self@.trades,
    {
        &self.trade_buffer
    }

    /// The candles that wait to be written, oldest first.
    pub fn candles(&self) -> (r: &Vec<OhlcvRow>)
        ensures
            r@ == self@.candles,
    {
        &self.ohlcv_buffer
    }

    /// Takes in what happened and returns what to do next. An event that cannot follow the
    /// action in progress changes nothing.
    pub fn step(&mut self, event: InserterEvent) -> (r: InserterAction)
        ensures
            final(self)@ == next_state(old(self)@, event),
            r == final(self)@.action,
    {
        match self.action {
            InserterAction::Receive => match event {
                InserterEvent::Received(InserterPayload::Trade(row)) => {
                    self.trade_buffer.push(row);
                    if self.trade_buffer.len() >= self.buffer_size {
                        self.action = InserterAction::WriteTrades(FlushCause::Full);
                    }
                },
                InserterEvent::Received(InserterPayload::Ohlcv(row)) => {
                    self.ohlcv_buffer.push(row);
                },
                InserterEvent::Received(InserterPayload::Flush) => {
                    self.action = self.begin_flush(FlushCause::Interval);
                },
                InserterEvent::Closed => {
                    self.action = self.begin_flush(FlushCause::Shutdown);
                },
                _ => {},
            },
            InserterAction::WriteTrades(cause) => match event {
                InserterEvent::Written => {
                    self.trade_buffer.clear();
                    self.action = self.continue_flush(cause);
                },
                InserterEvent::Failed => {
                    self.action = self.continue_flush(cause);
                },
                _ => {},
            },
            InserterAction::WriteOhlcv(cause) => match event {
                InserterEvent::Written => {
                    self.ohlcv_buffer.clear();
                    self.action = Self::end_flush(cause);
                },
                InserterEvent::Failed => {
                    self.action = Self::end_flush(cause);
                },
                _ => {},
            },
            InserterAction::Stop => {},
        }
        self.action
    }

    fn begin_flush(&self, cause: FlushCause) -> (r: InserterAction)
        ensures
            r == first_write(self@, cause),
    {
        if self.trade_buffer.len() > 0 {
            InserterAction::WriteTrades(cause)
        } else {
            self.continue_flush(cause)
        }
    }

    fn continue_flush(&self, cause: FlushCause) -> (r: InserterAction)
        ensures
            r == after_trades(self@.candles, cause),
    {
        match cause {
            FlushCause::Full => InserterAction::Receive,
            _ => {
                if self.ohlcv_buffer.len() > 0 {
                    InserterAction::WriteOhlcv(cause)
                } else {
                    Self::end_flush(cause)
                }
            },
        }
    }

    fn end_flush(cause: FlushCause) -> (r: InserterAction)
        ensures
            r == after_candles(cause),
    {
        match cause {
            FlushCause::Shutdown => InserterAction::Stop,
            _ => InserterAction::Receive,
        }
    }

    /// The name under which a failure of the action in progress is counted, if it is.
    pub fn failure_label(&self) -> (r: Option<&'static str>)
        ensures
            match r {
                Some(label) => failure_label(self@.action) == Some(label@),
                None => failure_label(self@.action) is None,
            },
    {
        match self.action {
            InserterAction::WriteTrades(FlushCause::Full) => Some("flush_trades"),
            InserterAction::WriteTrades(FlushCause::Interval) => Some("flush_trades_interval"),
            InserterAction::WriteTrades(FlushCause::Shutdown) => Some("flush_trades_shutdown"),
            InserterAction::WriteOhlcv(FlushCause::Interval) => Some("flush_ohlcv_interval"),
            InserterAction::WriteOhlcv(FlushCause::Shutdown) => Some("flush_ohlcv_shutdown"),
            _ => None,
        }
    }
}

/// A course of events: the state they lead to, the rows that were received and written on the
/// way, and the names under which failed writes were counted.
pub struct Course {
    pub state: InserterView,
    pub received_trades: Seq<TradeRow>,
    pub written_trades: Seq<TradeRow>,
    pub received_candles: Seq<OhlcvRow>,
    pub written_candles: Seq<OhlcvRow>,
    pub counted: Seq<Seq<char>>,
}

/// The course that a sequence of events takes from an empty inserter.
pub open spec fn course(buffer_size: nat, events: Seq<InserterEvent>) -> Course
    decreases events.len(),
{
    if events.len() == 0 {
        Course {
            state: InserterView {
                trades: Seq::empty(),
                candles: Seq::empty(),
                buffer_size,
                action: InserterAction::Receive,
            },
            received_trades: Seq::empty(),
            written_trades: Seq::empty(),
            received_candles: Seq::empty(),
            written_candles: Seq::empty(),
            counted: Seq::empty(),
        }
    } else {
        let before = course(buffer_size, events.drop_last());
        let event = events.last();
        Course {
            state: next_state(before.state, event),
            received_trades: match event {
                InserterEvent::Received(InserterPayload::Trade(row)) => before.received_trades.push(
                    row,
                ),
                _ => before.received_trades,
            },
            received_candles: match event {
                InserterEvent::Received(
                    InserterPayload::Ohlcv(row),
                ) => before.received_candles.push(row),
                _ => before.received_candles,
            },
            written_trades: if event is Written && before.state.action is WriteTrades {
                before.written_trades + before.state.trades
            } else {
                before.written_trades
            },
            written_candles: if event is Written && before.state.action is WriteOhlcv {
                before.written_candles + before.state.candles
            } else {
                before.written_candles
            },
            counted: match failure_label(before.state.action) {
                Some(label) => if event is Failed {
                    before.counted.push(label)
                } else {
                    before.counted
                },
                None => before.counted,
            },
        }
    }
}

/// Each event of the sequence can follow the state that the earlier ones lead to.
pub open spec fn is_run(buffer_size: nat, events: Seq<InserterEvent>) -> bool
    decreases events.len(),
{
    events.len() == 0 || (is_run(buffer_size, events.drop_last()) && may_follow(
        course(buffer_size, events.drop_last()).state,
        events.last(),
    ))
}

/// No row is lost, repeated or reordered: at any time the rows written so far and the rows
/// that wait are the rows received, in the order in which they arrived.
pub proof fn rows_are_conserved(buffer_size: nat, events: Seq<InserterEvent>)
    requires
        is_run(buffer_size, events),
    ensures
        ({
            let c = course(buffer_size, events);
            &&& c.received_trades == c.written_trades + c.state.trades
            &&& c.received_candles == c.written_candles + c.state.candles
        }),
    decreases events.len(),
{
    let c = course(buffer_size, events);
    if events.len() > 0 {
        rows_are_conserved(buffer_size, events.drop_last());
    }
    assert(c.received_trades =~= c.written_trades + c.state.trades);
    assert(c.received_candles =~= c.written_candles + c.state.candles);
}

/// The number of failures among the events.
pub open spec fn failures_in(events: Seq<InserterEvent>) -> nat
    decreases events.len(),
{
    if events.len() == 0 {
        0
    } else if events.last() is Failed {
        failures_in(events.drop_last()) + 1
    } else {
        failures_in(events.drop_last())
    }
}

/// Every write that is ever begun has a name under which its failure is counted, and nothing
/// else has one.
pub proof fn every_write_has_a_label(buffer_size: nat, events: Seq<InserterEvent>)
    ensures
        ({
            let action = course(buffer_size, events).state.action;
            failure_label(action) is Some <==> action is WriteTrades || action is WriteOhlcv
        }),
        course(buffer_size, events).state.action != InserterAction::WriteOhlcv(FlushCause::Full),
    decreases events.len(),
{
    if events.len() > 0 {
        every_write_has_a_label(buffer_size, events.drop_last());
    }
}

/// Every failed write is counted once, be it of a full buffer, on the timer or at the end,
/// and nothing else is counted.
pub proof fn every_failure_is_counted(buffer_size: nat, events: Seq<InserterEvent>)
    requires
        is_run(buffer_size, events),
    ensures
        course(buffer_size, events).counted.len() == failures_in(events),
    decreases events.len(),
{
    if events.len() > 0 {
        every_failure_is_counted(buffer_size, events.drop_last());
        every_write_has_a_label(buffer_size, events.drop_last());
    }
}

/// Nothing is written from an empty buffer.
pub proof fn writes_have_rows(buffer_size: nat, events: Seq<InserterEvent>)
    ensures
        course(buffer_size, events).state.action is WriteTrades ==> course(
            buffer_size,
            events,
        ).state.trades.len() > 0,
        course(buffer_size, events).state.action is WriteOhlcv ==> course(
            buffer_size,
            events,
        ).state.candles.len() > 0,
    decreases events.len(),
{
    if events.len() > 0 {
        writes_have_rows(buffer_size, events.drop_last());
    }
}

/// The events hold no failure.
pub open spec fn no_failure(events: Seq<InserterEvent>) -> bool {
    forall|i: int| 0 <= i < events.len() ==> !((#[trigger] events[i]) is Failed)
}

/// While every write succeeds, a waiting inserter holds fewer trades than its buffer size
/// (none where that is 0).
pub proof fn buffer_stays_below_size(buffer_size: nat, events: Seq<InserterEvent>)
    requires
        no_failure(events),
    ensures
        ({
            let s = course(buffer_size, events).state;
            &&& s.buffer_size == buffer_size
            &&& s.action is Receive ==> s.trades.len() < buffer_size || s.trades.len() == 0
            &&& s.action is WriteOhlcv ==> s.trades.len() == 0
            &&& s.action is Stop ==> s.trades.len() == 0
        }),
    decreases events.len(),
{
    if events.len() > 0 {
        assert(no_failure(events.drop_last()));
        assert(!(events[events.len() - 1] is Failed));
        buffer_stays_below_size(buffer_size, events.drop_last());
    }
}

/// When the inserter has stopped and no write failed, every row it received has been
/// written.
pub proof fn shutdown_writes_everything(buffer_size: nat, events: Seq<InserterEvent>)
    requires
        is_run(buffer_size, events),
        no_failure(events),
        course(buffer_size, events).state.action is Stop,
    ensures
        course(buffer_size, events).written_trades == course(buffer_size, events).received_trades,
        course(buffer_size, events).written_candles == course(buffer_size, events).received_candles,
{
    let c = course(buffer_size, events);
    rows_are_conserved(buffer_size, events);
    buffer_stays_below_size(buffer_size, events);
    stopped_is_empty(buffer_size, events);
    assert(c.written_trades + c.state.trades =~= c.written_trades);
    assert(c.written_candles + c.state.candles =~= c.written_candles);
}

/// A stopped inserter whose writes all succeeded holds no candles.
proof fn stopped_is_empty(buffer_size: nat, events: Seq<InserterEvent>)
    requires
        no_failure(events),
    ensures
        course(buffer_size, events).state.action is Stop ==> course(
            buffer_size,
            events,
        ).state.candles.len() == 0,
    decreases events.len(),
{
    if events.len() > 0 {
        assert(no_failure(events.drop_last()));
        assert(!(events[events.len() - 1] is Failed));
        stopped_is_empty(buffer_size, events.drop_last());
    }
}

/// From the end of the input it takes at most two reports until the inserter has stopped.
pub proof fn shutdown_terminates(s: InserterView, first: InserterEvent, second: InserterEvent)
    requires
        s.action is Receive,
        first is Written || first is Failed,
        second is Written || second is Failed,
    ensures
        ({
            let closed = next_state(s, InserterEvent::Closed);
            let one = next_state(closed, first);
            let two = next_state(one, second);
            closed.action is Stop || one.action is Stop || two.action is Stop
        }),
{
}

/// The state once the write in progress, if there is one, has been reported.
pub open spec fn after_report(s: InserterView, report: InserterEvent) -> InserterView {
    if s.action is WriteTrades || s.action is WriteOhlcv {
        next_state(s, report)
    } else {
        s
    }
}

/// A trade joins the end of its buffer, which is written at once when it has reached its size,
/// and only then.
pub proof fn trades_fill_the_buffer(s: InserterView, row: TradeRow)
    requires
        s.action is Receive,
    ensures
        ({
            let after = next_state(s, InserterEvent::Received(InserterPayload::Trade(row)));
            &&& after.trades.len() == s.trades.len() + 1
            &&& after.trades.last() == row
            &&& after.trades.drop_last() == s.trades
            &&& after.candles == s.candles
            &&& after.buffer_size == s.buffer_size
            &&& s.trades.len() + 1 >= s.buffer_size ==> after.action
                == InserterAction::WriteTrades(FlushCause::Full)
            &&& s.trades.len() + 1 < s.buffer_size ==> after.action is Receive
        }),
{
    let after = next_state(s, InserterEvent::Received(InserterPayload::Trade(row)));
    assert(after.trades.drop_last() =~= s.trades);
}

/// A candle joins the end of its buffer and waits for a flush, however many there are.
pub proof fn candles_wait_for_a_flush(s: InserterView, row: OhlcvRow)
    requires
        s.action is Receive,
    ensures
        ({
            let after = next_state(s, InserterEvent::Received(InserterPayload::Ohlcv(row)));
            &&& after.candles.len() == s.candles.len() + 1
            &&& after.candles.last() == row
            &&& after.candles.drop_last() == s.candles
            &&& after.trades == s.trades
            &&& after.buffer_size == s.buffer_size
            &&& after.action is Receive
        }),
{
    let after = next_state(s, InserterEvent::Received(InserterPayload::Ohlcv(row)));
    assert(after.candles.drop_last() =~= s.candles);
}

/// A flush, by the timer or at the end, writes whatever waits: it begins with the trades
/// wherever there are any, goes on to the candles wherever there are any, whether or not the
/// trades could be written, and writes nothing else. Until a write is reported nothing leaves
/// its buffer.
pub proof fn flushes_reach_every_row(s: InserterView, end: bool, report: InserterEvent)
    requires
        s.action is Receive,
        report is Written || report is Failed,
    ensures
        ({
            let cause = if end { FlushCause::Shutdown } else { FlushCause::Interval };
            let begun = next_state(
                s,
                if end {
                    InserterEvent::Closed
                } else {
                    InserterEvent::Received(InserterPayload::Flush)
                },
            );
            let halfway = next_state(begun, report);
            &&& begun.trades == s.trades && begun.candles == s.candles
            &&& begun.buffer_size == s.buffer_size
            &&& s.trades.len() > 0 ==> begun.action == InserterAction::WriteTrades(cause)
            &&& s.trades.len() == 0 && s.candles.len() > 0 ==> begun.action
                == InserterAction::WriteOhlcv(cause)
            &&& s.trades.len() == 0 && s.candles.len() == 0 ==> begun.action == if end {
                InserterAction::Stop
            } else {
                InserterAction::Receive
            }
            &&& s.trades.len() > 0 && s.candles.len() > 0 ==> halfway.action
                == InserterAction::WriteOhlcv(cause) && halfway.candles == s.candles
            &&& s.trades.len() > 0 && s.candles.len() == 0 ==> halfway.action == if end {
                InserterAction::Stop
            } else {
                InserterAction::Receive
            }
        }),
{
}

/// A flush empties both buffers: after one report of success for each write it calls for, no
/// row waits any more, and the inserter waits again, or has stopped if it was the last flush.
pub proof fn flushes_empty_both_buffers(s: InserterView, end: bool)
    requires
        s.action is Receive,
    ensures
        ({
            let begun = next_state(
                s,
                if end {
                    InserterEvent::Closed
                } else {
                    InserterEvent::Received(InserterPayload::Flush)
                },
            );
            let done = after_report(
                after_report(begun, InserterEvent::Written),
                InserterEvent::Written,
            );
            &&& done.trades.len() == 0
            &&& done.candles.len() == 0
            &&& done.action == if end {
                InserterAction::Stop
            } else {
                InserterAction::Receive
            }
        }),
{
}

/// A flush that fails keeps both buffers as they were, and is over all the same.
pub proof fn failed_flushes_keep_both_buffers(s: InserterView, end: bool)
    requires
        s.action is Receive,
    ensures
        ({
            let begun = next_state(
                s,
                if end {
                    InserterEvent::Closed
                } else {
                    InserterEvent::Received(InserterPayload::Flush)
                },
            );
            let done = after_report(
                after_report(begun, InserterEvent::Failed),
                InserterEvent::Failed,
            );
            &&& done.trades == s.trades
            &&& done.candles == s.candles
            &&& done.action == if end {
                InserterAction::Stop
            } else {
                InserterAction::Receive
            }
        }),
{
}

/// What has been written leaves its buffer whole, what could not be written stays whole, and
/// the other buffer is not touched. After the write of a full buffer the inserter waits again.
pub proof fn reports_settle_one_buffer(s: InserterView)
    ensures
        s.action is WriteTrades ==> {
            &&& next_state(s, InserterEvent::Written).trades.len() == 0
            &&& next_state(s, InserterEvent::Written).candles == s.candles
            &&& next_state(s, InserterEvent::Failed).trades == s.trades
            &&& next_state(s, InserterEvent::Failed).candles == s.candles
        },
        s.action is WriteOhlcv ==> {
            &&& next_state(s, InserterEvent::Written).candles.len() == 0
            &&& next_state(s, InserterEvent::Written).trades == s.trades
            &&& next_state(s, InserterEvent::Failed).candles == s.candles
            &&& next_state(s, InserterEvent::Failed).trades == s.trades
        },
        s.action == InserterAction::WriteTrades(FlushCause::Full) ==> {
            &&& next_state(s, InserterEvent::Written).action is Receive
            &&& next_state(s, InserterEvent::Failed).action is Receive
        },
        s.action is WriteTrades || s.action is WriteOhlcv ==> next_state(
            s,
            InserterEvent::Written,
        ).action == next_state(s, InserterEvent::Failed).action,
{
}

/// The size of the buffer never changes, and what cannot follow changes nothing.
pub proof fn only_what_follows_counts(s: InserterView, event: InserterEvent)
    ensures
        next_state(s, event).buffer_size == s.buffer_size,
        !may_follow(s, event) ==> next_state(s, event) == s,
        s.action is Stop ==> next_state(s, event) == s,
        s.action is Receive ==> (may_follow(s, event) <==> event is Received || event is Closed),
        s.action is WriteTrades || s.action is WriteOhlcv ==> (may_follow(s, event) <==> event is Written
            || event is Failed),
{
}

/// Each write is counted under what it writes and, unless the buffer was full, why.
pub proof fn labels_name_the_write(action: InserterAction)
    ensures
        action == InserterAction::WriteTrades(FlushCause::Full) ==> failure_label(action) == Some(
            "flush_trades"@,
        ),
        action == InserterAction::WriteTrades(FlushCause::Interval) ==> failure_label(action) == Some(
            "flush_trades"@ + "_interval"@,
        ),
        action == InserterAction::WriteTrades(FlushCause::Shutdown) ==> failure_label(action) == Some(
            "flush_trades"@ + "_shutdown"@,
        ),
        action == InserterAction::WriteOhlcv(FlushCause::Interval) ==> failure_label(action) == Some(
            "flush_ohlcv"@ + "_interval"@,
        ),
        action == InserterAction::WriteOhlcv(FlushCause::Shutdown) ==> failure_label(action) == Some(
            "flush_ohlcv"@ + "_shutdown"@,
        ),
        action is Receive || action is Stop ==> failure_label(action) is None,
{
    reveal_strlit("flush_trades");
    reveal_strlit("flush_ohlcv");
    reveal_strlit("_interval");
    reveal_strlit("_shutdown");
    reveal_strlit("flush_trades_interval");
    reveal_strlit("flush_trades_shutdown");
    reveal_strlit("flush_ohlcv_interval");
    reveal_strlit("flush_ohlcv_shutdown");
    assert("flush_trades_interval"@ =~= "flush_trades"@ + "_interval"@);
    assert("flush_trades_shutdown"@ =~= "flush_trades"@ + "_shutdown"@);
    assert("flush_ohlcv_interval"@ =~= "flush_ohlcv"@ + "_interval"@);
    assert("flush_ohlcv_shutdown"@ =~= "flush_ohlcv"@ + "_shutdown"@);
}

/// The state of an inserter is what its fields hold.
proof fn state_is_the_buffers(inserter: Inserter)
    ensures
        inserter@.trades == inserter.trade_buffer@,
        inserter@.candles == inserter.ohlcv_buffer@,
        inserter@.buffer_size == inserter.buffer_size,
        inserter@.action == inserter.action,
{
}

} // verus!
