//! Candles from the database: the queries and what is made of their results.

use crate::api::{answers_with, fails_with, unknown_symbol, Reply};
use crate::candles::{candles_of, last_n};
use crate::db::rows::{bar_of_row, rows_to_bars, OhlcvRow};
use crate::generator::MarketGenerator;
use crate::models::{bar_views, OhlcvBar};
use crate::text::{format_number, number_text};
use vstd::prelude::*;

verus! {

/// The candles of the rows, in the same order.
pub open spec fn bars_in(rows: Seq<OhlcvRow>) -> Seq<OhlcvBar> {
    rows.map_values(|row: OhlcvRow| bar_of_row(row))
}

/// The query for stored candles of the last minutes.
pub open spec fn candle_query_text(minutes: nat) -> Seq<char> {
    "SELECT symbol, candle_time, open, high, low, close, volume\n         FROM hft_dashboard.market_ohlc\n         WHERE symbol = ? AND candle_time >= (now() - interval "@
        + number_text(minutes) + " minute)\n         ORDER BY candle_time ASC"@
}

/// The query for stored candles of the last minutes. Its one parameter is the symbol.
pub fn candle_query(minutes: usize) -> (r: String)
    ensures
        r@ == candle_query_text(minutes as nat),
{
    "SELECT symbol, candle_time, open, high, low, close, volume\n         FROM hft_dashboard.market_ohlc\n         WHERE symbol = ? AND candle_time >= (now() - interval ".to_string().concat(
        format_number(minutes).as_str(),
    ).concat(" minute)\n         ORDER BY candle_time ASC")
}

/// The query that makes candles of the last minutes from raw trades.
pub open spec fn trades_query_text(minutes: nat) -> Seq<char> {
    "SELECT\n            symbol,\n            toStartOfMinute(timestamp) AS candle_time,\n            argMin(price, timestamp) AS open,\n            max(price)               AS high,\n            min(price)               AS low,\n            argMax(price, timestamp) AS close,\n            sum(amount)              AS volume\n         FROM hft_dashboard.historical_trades\n         WHERE symbol = ? AND timestamp >= (now() - interval "@
        + number_text(minutes)
        + " minute)\n         GROUP BY symbol, candle_time\n         ORDER BY candle_time ASC"@
}

/// The query that makes candles of the last minutes from raw trades. Its one parameter is
/// the symbol.
pub fn trades_query(minutes: usize) -> (r: String)
    ensures
        r@ == trades_query_text(minutes as nat),
{
    "SELECT\n            symbol,\n            toStartOfMinute(timestamp) AS candle_time,\n            argMin(price, timestamp) AS open,\n            max(price)               AS high,\n            min(price)               AS low,\n            argMax(price, timestamp) AS close,\n            sum(amount)              AS volume\n         FROM hft_dashboard.historical_trades\n         WHERE symbol = ? AND timestamp >= (now() - interval ".to_string().concat(
        format_number(minutes).as_str(),
    ).concat(" minute)\n         GROUP BY symbol, candle_time\n         ORDER BY candle_time ASC")
}

/// What a query gave.
#[derive(Debug)]
pub enum QueryResult {
    Rows(Vec<OhlcvRow>),
    Failed,
}

impl QueryResult {
    /// The rows that came back; none if the query failed.
    pub open spec fn rows(self) -> Seq<OhlcvRow> {
        match self {
            QueryResult::Rows(rows) => rows@,
            QueryResult::Failed => Seq::empty(),
        }
    }
}

/// The candles that the database has: the stored ones, or where there are none those made
/// from raw trades. A failed query counts as an empty one.
pub open spec fn historical(stored: QueryResult, trades: QueryResult) -> Seq<OhlcvBar> {
    if stored.rows().len() > 0 {
        bars_in(stored.rows())
    } else {
        bars_in(trades.rows())
    }
}

/// The next step of looking up candles.
#[derive(Debug)]
pub enum HistoryStep {
    /// These are the candles.
    Found(Vec<OhlcvBar>),
    /// The raw trades have to be asked.
    AskTrades,
}

/// Decides on the stored candles: they are the answer if there are any.
pub fn stored_candles(result: QueryResult) -> (r: HistoryStep)
    ensures
        match r {
            HistoryStep::Found(bars) => result.rows().len() > 0 && bars@ == bars_in(result.rows()),
            HistoryStep::AskTrades => result.rows().len() == 0,
        },
{
    match result {
        QueryResult::Rows(rows) => {
            if rows.len() > 0 {
                HistoryStep::Found(rows_to_bars(rows))
            } else {
                HistoryStep::AskTrades
            }
        },
        QueryResult::Failed => HistoryStep::AskTrades,
    }
}

/// The candles made from raw trades; none if that query failed.
pub fn candles_from_trades(result: QueryResult) -> (r: Vec<OhlcvBar>)
    ensures
        r@ == bars_in(result.rows()),
{
    match result {
        QueryResult::Rows(rows) => rows_to_bars(rows),
        QueryResult::Failed => {
            assert(bars_in(result.rows()) =~= Seq::empty());
            Vec::new()
        },
    }
}

/// The name under which a failed query for raw trades is counted. A failed query for stored
/// candles is not counted, since the raw trades are asked next.
pub fn history_failure_label(trades: &QueryResult) -> (r: Option<&'static str>)
    ensures
        match r {
            Some(label) => trades is Failed && label@ == "get_historical_ohlc"@,
            None => !(trades is Failed),
        },
{
    match trades {
        QueryResult::Rows(_) => None,
        QueryResult::Failed => Some("get_historical_ohlc"),
    }
}

/// Candles are served from the first source that has any: those stored, those made from raw
/// trades, those of the market's own history. Only a symbol without any of the three is
/// unknown.
pub proof fn served_from_first_source(
    reply: Reply<Vec<OhlcvBar>>,
    symbol: Seq<char>,
    minutes: nat,
    stored: QueryResult,
    trades: QueryResult,
    market: Option<&MarketGenerator>,
)
    requires
        answers_with(reply, symbol, minutes, historical(stored, trades), market),
    ensures
        if stored.rows().len() > 0 {
            reply matches Reply::Success(bars) && bars@ == bars_in(stored.rows())
        } else if trades.rows().len() > 0 {
            reply matches Reply::Success(bars) && bars@ == bars_in(trades.rows())
        } else if market is Some {
            reply matches Reply::Success(bars) && bar_views(bars@) == last_n(
                candles_of(market->0@.symbol, market->0@.history),
                minutes,
            )
        } else {
            fails_with(reply, 404, unknown_symbol(symbol))
        },
{
}

/// Rows become candles one for one: each keeps its place and every field its value, and a failed
/// query gives none.
pub proof fn rows_become_candles(rows: Vec<OhlcvRow>)
    ensures
        QueryResult::Rows(rows).rows() == rows@,
        QueryResult::Failed.rows().len() == 0,
        bars_in(rows@).len() == rows@.len(),
        forall|i: int|
            0 <= i < rows@.len() ==> {
                let bar = #[trigger] bars_in(rows@)[i];
                &&& bar.symbol == rows@[i].symbol
                &&& bar.candle_time == rows@[i].candle_time
                &&& bar.open == rows@[i].open
                &&& bar.high == rows@[i].high
                &&& bar.low == rows@[i].low
                &&& bar.close == rows@[i].close
                &&& bar.volume == rows@[i].volume
            },
{
}

/// The stored candles win wherever there are any; otherwise those made from raw trades count.
pub proof fn stored_candles_win(stored: Vec<OhlcvRow>, trades: Vec<OhlcvRow>)
    ensures
        stored@.len() > 0 ==> historical(QueryResult::Rows(stored), QueryResult::Rows(trades))
            == bars_in(stored@),
        stored@.len() > 0 ==> historical(QueryResult::Rows(stored), QueryResult::Failed) == bars_in(
            stored@,
        ),
        stored@.len() == 0 ==> historical(QueryResult::Rows(stored), QueryResult::Rows(trades))
            == bars_in(trades@),
        historical(QueryResult::Failed, QueryResult::Rows(trades)) == bars_in(trades@),
        historical(QueryResult::Failed, QueryResult::Failed).len() == 0,
{
}

/// Whatever the number of minutes, the query for stored candles is its digits between the same
/// two pieces, of which one opens the time window and the other closes it.
pub open spec fn frames_candles(head: Seq<char>, tail: Seq<char>) -> bool {
    forall|minutes: nat| #[trigger]
        candle_query_text(minutes) == head + "(now() - interval "@ + number_text(minutes)
            + " minute)"@ + tail
}

/// The same of the query for raw trades.
pub open spec fn frames_trades(head: Seq<char>, tail: Seq<char>) -> bool {
    forall|minutes: nat| #[trigger]
        trades_query_text(minutes) == head + "(now() - interval "@ + number_text(minutes)
            + " minute)"@ + tail
}

/// The queries for different numbers of minutes differ in nothing but the digits of the number,
/// which stand between the words of the time window.
pub proof fn queries_differ_in_the_minutes()
    ensures
        exists|head: Seq<char>, tail: Seq<char>| #[trigger] frames_candles(head, tail),
        exists|head: Seq<char>, tail: Seq<char>| #[trigger] frames_trades(head, tail),
{
    let window = "(now() - interval "@;
    let end = " minute)"@;
    reveal_strlit("(now() - interval ");
    reveal_strlit(" minute)");
    let head = "SELECT symbol, candle_time, open, high, low, close, volume\n         FROM hft_dashboard.market_ohlc\n         WHERE symbol = ? AND candle_time >= (now() - interval "@;
    let tail = " minute)\n         ORDER BY candle_time ASC"@;
    reveal_strlit(
        "SELECT symbol, candle_time, open, high, low, close, volume\n         FROM hft_dashboard.market_ohlc\n         WHERE symbol = ? AND candle_time >= (now() - interval ",
    );
    reveal_strlit(" minute)\n         ORDER BY candle_time ASC");
    let before = head.take(head.len() - window.len());
    let after = tail.skip(end.len() as int);
    assert(head =~= before + window);
    assert(tail =~= end + after);
    assert forall|minutes: nat| #[trigger] candle_query_text(minutes) == before + window + number_text(
        minutes,
    ) + end + after by {
        assert(candle_query_text(minutes) =~= before + window + number_text(minutes) + end + after);
    }
    assert(frames_candles(before, after));
    let head = "SELECT\n            symbol,\n            toStartOfMinute(timestamp) AS candle_time,\n            argMin(price, timestamp) AS open,\n            max(price)               AS high,\n            min(price)               AS low,\n            argMax(price, timestamp) AS close,\n            sum(amount)              AS volume\n         FROM hft_dashboard.historical_trades\n         WHERE symbol = ? AND timestamp >= (now() - interval "@;
    let tail = " minute)\n         GROUP BY symbol, candle_time\n         ORDER BY candle_time ASC"@;
    reveal_strlit(
        "SELECT\n            symbol,\n            toStartOfMinute(timestamp) AS candle_time,\n            argMin(price, timestamp) AS open,\n            max(price)               AS high,\n            min(price)               AS low,\n            argMax(price, timestamp) AS close,\n            sum(amount)              AS volume\n         FROM hft_dashboard.historical_trades\n         WHERE symbol = ? AND timestamp >= (now() - interval ",
    );
    reveal_strlit(" minute)\n         GROUP BY symbol, candle_time\n         ORDER BY candle_time ASC");
    let before = head.take(head.len() - window.len());
    let after = tail.skip(end.len() as int);
    assert(head =~= before + window);
    assert(tail =~= end + after);
    assert forall|minutes: nat| #[trigger] trades_query_text(minutes) == before + window + number_text(
        minutes,
    ) + end + after by {
        assert(trades_query_text(minutes) =~= before + window + number_text(minutes) + end + after);
    }
    assert(frames_trades(before, after));
}

} // verus!
