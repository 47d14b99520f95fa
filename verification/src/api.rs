//! The answers of the REST endpoints.

use crate::candles::{candles_of, candles_span_the_ticks, last_n, last_n_is_the_end};
use crate::generator::{can_build, MarketGenerator};
use crate::market::{market_behind, state_behind, symbol_behind, Markets};
use crate::models::{bar_views, BboSnapshot, MarketTick, OhlcvBar};
use crate::text::{replace_char, replaced};
use dashmap::mapref::one::Ref;
use vstd::prelude::*;

verus! {

/// The minutes of candles that are given when none are asked for.
pub const DEFAULT_MINUTES: usize = 60;

/// The most minutes of candles that are given: seven days.
pub const MAX_MINUTES: usize = 10_080;

/// The body of a health answer.
#[derive(Debug)]
pub struct HealthResponse {
    pub status: String,
    pub uptime_note: String,
}

/// The body of an answer that lists symbols.
#[derive(Debug)]
pub struct SymbolsResponse {
    pub symbols: Vec<String>,
}

/// The body of every answer that is not a success.
#[derive(Debug)]
pub struct ErrorResponse {
    pub error: String,
}

/// An answer: a success with its body, or another status with an error.
#[derive(Debug)]
pub enum Reply<T> {
    Success(T),
    Failure { status: u16, body: ErrorResponse },
}

/// The answer has this status and this error.
pub open spec fn fails_with<T>(reply: Reply<T>, status: u16, error: Seq<char>) -> bool {
    reply matches Reply::Failure { status: s, body } && s == status && body.error@ == error
}

/// The error for a symbol that does not exist.
pub open spec fn unknown_symbol(symbol: Seq<char>) -> Seq<char> {
    "Symbol '"@ + symbol + "' not found"@
}

/// Says that the service is running.
pub fn health() -> (r: HealthResponse)
    ensures
        r.status@ == "ok"@,
        r.uptime_note@ == "FPGA HFT Data Generator running"@,
{
    HealthResponse {
        status: "ok".to_string(),
        uptime_note: "FPGA HFT Data Generator running".to_string(),
    }
}

/// Lists the symbols that have a market, each once. It waits for locks for writing that
/// someone else holds; the caller must hold none.
pub fn symbols(markets: &Markets) -> (r: SymbolsResponse)
    ensures
        r.symbols@.map_values(|s: String| s@).no_duplicates(),
        r.symbols@.map_values(|s: String| s@).to_set() == markets@.dom(),
{
    SymbolsResponse { symbols: markets.symbols() }
}

/// A symbol in a path has dashes where the symbol itself has slashes.
pub open spec fn symbol_of(raw_symbol: Seq<char>) -> Seq<char> {
    Seq::new(raw_symbol.len(), |i: int| if raw_symbol[i] == '-' { '/' } else { raw_symbol[i] })
}

/// Turns a symbol in a path into the symbol itself.
pub fn raw_symbol_to_symbol(raw_symbol: String) -> (r: String)
    ensures
        r@ == symbol_of(raw_symbol@),
{
    proof {
        reveal_strlit("/");
        assert("/"@ =~= seq!['/']);
        replaced_one_for_one(raw_symbol@);
    }
    replace_char(raw_symbol.as_str(), '-', "/")
}

/// Replacing a character by one other works character by character.
proof fn replaced_one_for_one(s: Seq<char>)
    ensures
        replaced(s, '-', seq!['/']) == symbol_of(s),
    decreases s.len(),
{
    if s.len() > 0 {
        replaced_one_for_one(s.drop_last());
    }
    assert(replaced(s, '-', seq!['/']) =~= symbol_of(s));
}

/// A symbol without dashes stands for itself in a path; in particular, turning a path into a
/// symbol twice changes nothing more.
pub proof fn symbols_stand_for_themselves(s: Seq<char>)
    ensures
        !s.contains('-') ==> symbol_of(s) == s,
        !symbol_of(s).contains('-'),
        symbol_of(symbol_of(s)) == symbol_of(s),
{
    if !s.contains('-') {
        assert forall|i: int| 0 <= i < s.len() implies symbol_of(s)[i] == s[i] by {
            assert(s.contains(s[i]));
        }
        assert(symbol_of(s) =~= s);
    }
    assert(symbol_of(symbol_of(s)) =~= symbol_of(s));
}

fn not_found<T>(symbol: &str) -> (r: Reply<T>)
    ensures
        fails_with(r, 404, unknown_symbol(symbol@)),
{
    let error = "Symbol '".to_string().concat(symbol).concat("' not found");
    Reply::Failure { status: 404, body: ErrorResponse { error } }
}

/// Looks up the symbol of a path and locks its market for reading, if it has one. It waits
/// for a lock for writing that someone else holds; the caller must hold none.
pub fn find_market<'a>(
    markets: &'a Markets,
    raw_symbol: String,
) -> (r: (String, Option<Ref<'a, String, MarketGenerator>>))
    ensures
        r.0@ == symbol_of(raw_symbol@),
        r.1 is Some <==> markets@.contains_key(symbol_of(raw_symbol@)),
        r.1 matches Some(entry) ==> symbol_behind(entry) == symbol_of(raw_symbol@)
            && markets.holds(entry),
{
    let symbol = raw_symbol_to_symbol(raw_symbol);
    let entry = markets.get(&symbol);
    (symbol, entry)
}

/// The answer to a request for the latest tick, from the symbol's market, if it has one.
pub open spec fn answers_tick(
    reply: Reply<MarketTick>,
    symbol: Seq<char>,
    market: Option<&MarketGenerator>,
) -> bool {
    match market {
        Some(g) => if g@.history.len() > 0 {
            reply matches Reply::Success(t) && t@ == g@.history.last()
        } else {
            fails_with(reply, 503, "No ticks generated yet for "@ + symbol)
        },
        None => fails_with(reply, 404, unknown_symbol(symbol)),
    }
}

/// Answers a request for the latest tick of a symbol from its market, if it has one.
pub fn tick_reply(symbol: &str, market: Option<&MarketGenerator>) -> (r: Reply<MarketTick>)
    ensures
        answers_tick(r, symbol@, market),
{
    match market {
        Some(g) => match g.latest_tick() {
            Some(t) => Reply::Success(t.clone()),
            None => {
                let error = "No ticks generated yet for ".to_string().concat(symbol);
                Reply::Failure { status: 503, body: ErrorResponse { error } }
            },
        },
        None => not_found(symbol),
    }
}

/// The market is the one that `markets` holds under the symbol, if it has one, in the state it
/// had when it was looked up.
pub open spec fn is_market_of(
    market: Option<&MarketGenerator>,
    markets: Markets,
    symbol: Seq<char>,
) -> bool {
    match market {
        Some(g) => markets@.contains_key(symbol) && exists|entry: Ref<'_, String, MarketGenerator>|
            {
                &&& #[trigger] symbol_behind(entry) == symbol
                &&& markets.holds(entry)
                &&& state_behind(entry) == g@
            },
        None => !markets@.contains_key(symbol),
    }
}

/// Answers a request for the latest tick of the symbol in a path. It waits for a lock for
/// writing that someone else holds; the caller must hold none.
pub fn tick(markets: &Markets, raw_symbol: String) -> (r: Reply<MarketTick>)
    ensures
        exists|market: Option<&MarketGenerator>|
            is_market_of(market, *markets, symbol_of(raw_symbol@)) && #[trigger] answers_tick(
                r,
                symbol_of(raw_symbol@),
                market,
            ),
{
    let (symbol, entry) = find_market(markets, raw_symbol);
    let market = match &entry {
        Some(entry) => Some(market_behind(entry)),
        None => None,
    };
    let r = tick_reply(symbol.as_str(), market);
    assert(is_market_of(market, *markets, symbol@));
    assert(answers_tick(r, symbol@, market));
    r
}

/// The order book of a symbol, given its snapshot if the symbol has a market.
pub fn bbo(symbol: &str, snapshot: Option<BboSnapshot>) -> (r: Reply<BboSnapshot>)
    ensures
        match snapshot {
            Some(s) => r == Reply::Success(s),
            None => fails_with(r, 404, unknown_symbol(symbol@)),
        },
{
    match snapshot {
        Some(s) => Reply::Success(s),
        None => not_found(symbol),
    }
}

/// What is asked for in a request for candles.
#[derive(Debug)]
pub struct OhlcvQuery {
    pub minutes: Option<usize>,
    pub interval: Option<String>,
}

/// A request for candles with everything filled in.
#[derive(Debug)]
pub struct OhlcvRequest {
    pub symbol: String,
    pub minutes: usize,
    pub interval: String,
}

/// The number of minutes that is served for a number asked for.
pub open spec fn served_minutes(minutes: Option<usize>) -> usize {
    let asked = match minutes {
        Some(m) => m,
        None => DEFAULT_MINUTES,
    };
    if asked < 1 {
        1
    } else if asked > MAX_MINUTES {
        MAX_MINUTES
    } else {
        asked
    }
}

/// Fills in a request for candles: the symbol from the path, 60 minutes unless others are
/// asked for, kept between 1 and 10080, and an interval of `1m` unless another is asked for.
pub fn ohlcv_request(raw_symbol: String, query: OhlcvQuery) -> (r: OhlcvRequest)
    ensures
        r.symbol@ == symbol_of(raw_symbol@),
        r.minutes == served_minutes(query.minutes),
        r.interval@ == (match query.interval {
            Some(interval) => interval@,
            None => "1m"@,
        }),
{
    let asked: usize = match query.minutes {
        Some(m) => m,
        None => DEFAULT_MINUTES,
    };
    let minutes: usize = if asked < 1 {
        1
    } else if asked > MAX_MINUTES {
        MAX_MINUTES
    } else {
        asked
    };
    let interval = match query.interval {
        Some(interval) => interval,
        None => "1m".to_string(),
    };
    OhlcvRequest { symbol: raw_symbol_to_symbol(raw_symbol), minutes, interval }
}

/// The answer to a request for candles: those of the database if there are any, otherwise
/// those of the market's own history, if the symbol has a market.
pub open spec fn answers_with(
    reply: Reply<Vec<OhlcvBar>>,
    symbol: Seq<char>,
    minutes: nat,
    stored: Seq<OhlcvBar>,
    market: Option<&MarketGenerator>,
) -> bool {
    if stored.len() > 0 {
        reply matches Reply::Success(bars) && bars@ == stored
    } else {
        match market {
            Some(g) => reply matches Reply::Success(bars) && bar_views(bars@) == last_n(
                candles_of(g@.symbol, g@.history),
                minutes,
            ),
            None => fails_with(reply, 404, unknown_symbol(symbol)),
        }
    }
}

/// The answer can be given: where the market's own history is needed, its candles can be
/// built.
pub open spec fn can_answer(stored: Seq<OhlcvBar>, market: Option<&MarketGenerator>) -> bool {
    stored.len() == 0 && market is Some ==> can_build(market->0@)
}

/// Answers a request for candles from what the database holds and from the symbol's market,
/// if it has one.
pub fn ohlcv_reply(
    request: &OhlcvRequest,
    stored: Vec<OhlcvBar>,
    market: Option<&MarketGenerator>,
) -> (r: Reply<Vec<OhlcvBar>>)
    requires
        can_answer(stored@, market),
    ensures
        answers_with(r, request.symbol@, request.minutes as nat, stored@, market),
{
    if stored.len() > 0 {
        Reply::Success(stored)
    } else {
        match market {
            Some(g) => Reply::Success(g.build_ohlcv(request.minutes)),
            None => not_found(request.symbol.as_str()),
        }
    }
}

/// Answers a request for candles from what the database holds, and only where that is nothing
/// from the symbol's market; no answer where that is needed and its candles cannot be built.
/// To look the market up it waits for a lock for writing that someone else holds; the caller
/// must hold none.
pub fn ohlcv(markets: &Markets, request: &OhlcvRequest, stored: Vec<OhlcvBar>) -> (r: Option<
    Reply<Vec<OhlcvBar>>,
>)
    ensures
        stored@.len() > 0 ==> (r matches Some(Reply::Success(bars)) && bars@ == stored@),
        stored@.len() == 0 ==> exists|market: Option<&MarketGenerator>|
            {
                &&& is_market_of(market, *markets, request.symbol@)
                &&& r is Some <==> #[trigger] can_answer(stored@, market)
                &&& r matches Some(reply) ==> answers_with(
                    reply,
                    request.symbol@,
                    request.minutes as nat,
                    stored@,
                    market,
                )
            },
{
    if stored.len() > 0 {
        return Some(ohlcv_reply(request, stored, None));
    }
    let entry = markets.get(&request.symbol);
    let market = match &entry {
        Some(entry) => Some(market_behind(entry)),
        None => None,
    };
    let ghost given = stored@;
    let answerable = match market {
        Some(g) => g.can_build_ohlcv(),
        None => true,
    };
    assert(is_market_of(market, *markets, request.symbol@));
    assert(answerable == can_answer(given, market));
    if answerable {
        Some(ohlcv_reply(request, stored, market))
    } else {
        None
    }
}

/// The registry of the `prometheus` crate.
#[verifier::external_type_specification]
#[verifier::external_body]
pub struct ExRegistry(prometheus::Registry);

/// A metric with all its series, as the `prometheus` crate gathers it.
#[verifier::external_type_specification]
#[verifier::external_body]
pub struct ExMetricFamily(prometheus::proto::MetricFamily);

/// The family is of the type `UNTYPED`, which has no text form.
pub uninterp spec fn is_untyped(family: prometheus::proto::MetricFamily) -> bool;

/// The text that `prometheus::TextEncoder` writes for the families; nothing if it refuses
/// them.
pub uninterp spec fn families_text(
    families: Seq<prometheus::proto::MetricFamily>,
) -> Option<Seq<u8>>;

/// The registry has reported these families, at some time.
pub uninterp spec fn gathered_from(
    registry: prometheus::Registry,
    families: Seq<prometheus::proto::MetricFamily>,
) -> bool;

/// Calls `prometheus::Registry::gather`. Trusted: the families are those that this registry
/// reports now. What they hold is left open: the metrics are counted elsewhere. It runs the
/// collectors that others have registered; one that panics does so here.
#[verifier::external_body]
fn gather_families(registry: &prometheus::Registry) -> (r: Vec<prometheus::proto::MetricFamily>)
    ensures
        gathered_from(*registry, r@),
{
    registry.gather()
}

/// Calls `prometheus::proto::MetricFamily::get_field_type`. Trusted: the result tells whether
/// the type is `UNTYPED`.
#[verifier::external_body]
fn lacks_type(family: &prometheus::proto::MetricFamily) -> (r: bool)
    ensures
        r == is_untyped(*family),
{
    matches!(family.get_field_type(), prometheus::proto::MetricType::UNTYPED)
}

/// Calls `encode` of `prometheus::TextEncoder`, which has no text form for a family of the
/// type `UNTYPED`. Trusted: what is written, and whether the families are refused, depends on
/// the families alone. How the refusal is worded is left open.
#[verifier::external_body]
fn encode_families(families: &Vec<prometheus::proto::MetricFamily>) -> (r: Result<Vec<u8>, String>)
    requires
        forall|i: int| 0 <= i < families@.len() ==> !is_untyped(#[trigger] families@[i]),
    ensures
        encoded_text(r) == families_text(families@),
{
    let mut buffer = Vec::new();
    prometheus::Encoder::encode(&prometheus::TextEncoder::new(), families, &mut buffer).map_err(
        |e| e.to_string(),
    )?;
    Ok(buffer)
}

/// The text that the encoder gave, if it gave one.
pub open spec fn encoded_text(encoded: Result<Vec<u8>, String>) -> Option<Seq<u8>> {
    match encoded {
        Ok(text) => Some(text@),
        Err(_) => None,
    }
}

/// The answer to a request for the metrics, from what the encoder gave.
pub open spec fn answers_metrics(reply: Reply<Vec<u8>>, encoded: Result<Vec<u8>, String>) -> bool {
    match encoded {
        Ok(text) => reply == Reply::Success(text),
        Err(e) => fails_with(reply, 500, "Failed to encode metrics: "@ + e@),
    }
}

/// Answers a request for the metrics from what the encoder gave.
pub fn metrics_reply(encoded: Result<Vec<u8>, String>) -> (r: Reply<Vec<u8>>)
    ensures
        answers_metrics(r, encoded),
{
    match encoded {
        Ok(text) => Reply::Success(text),
        Err(e) => {
            let error = "Failed to encode metrics: ".to_string().concat(e.as_str());
            Reply::Failure { status: 500, body: ErrorResponse { error } }
        },
    }
}

/// One of the families has no text form.
pub open spec fn has_untyped(families: Seq<prometheus::proto::MetricFamily>) -> bool {
    exists|i: int| 0 <= i < families.len() && is_untyped(#[trigger] families[i])
}

/// The answer to a request for the metrics, from the families that were gathered: their text,
/// or an error where one of them has no text form or the encoder refuses them.
pub open spec fn answers_families(
    reply: Reply<Vec<u8>>,
    families: Seq<prometheus::proto::MetricFamily>,
) -> bool {
    if has_untyped(families) {
        fails_with(reply, 500, "Failed to encode metrics: "@ + "MetricFamily has no type"@)
    } else {
        match families_text(families) {
            Some(text) => reply matches Reply::Success(t) && t@ == text,
            None => exists|e: Seq<char>| #[trigger]
                fails_with(reply, 500, "Failed to encode metrics: "@ + e),
        }
    }
}

/// Answers a request for the metrics from the families that were gathered.
pub fn families_reply(families: &Vec<prometheus::proto::MetricFamily>) -> (r: Reply<Vec<u8>>)
    ensures
        answers_families(r, families@),
{
    let count: usize = families.len();
    for i in 0..count
        invariant
            count == families@.len(),
            forall|j: int| 0 <= j < i ==> !is_untyped(#[trigger] families@[j]),
    {
        if lacks_type(&families[i]) {
            assert(is_untyped(families@[i as int]));
            return metrics_reply(Err("MetricFamily has no type".to_string()));
        }
    }
    let encoded = encode_families(families);
    let ghost given = encoded;
    let r = metrics_reply(encoded);
    assert(answers_metrics(r, given));
    r
}

/// Answers a request for the metrics of a registry in the text format.
pub fn prometheus_metrics(registry: &prometheus::Registry) -> (r: Reply<Vec<u8>>)
    ensures
        exists|families: Seq<prometheus::proto::MetricFamily>|
            gathered_from(*registry, families) && #[trigger] answers_families(r, families),
{
    let families = gather_families(registry);
    let r = families_reply(&families);
    assert(answers_families(r, families@));
    r
}

/// Turning a path into a symbol changes every dash to a slash and nothing else.
pub proof fn dashes_become_slashes(raw_symbol: Seq<char>)
    ensures
        symbol_of(raw_symbol).len() == raw_symbol.len(),
        forall|i: int|
            0 <= i < raw_symbol.len() && raw_symbol[i] == '-' ==> #[trigger] symbol_of(raw_symbol)[i]
                == '/',
        forall|i: int|
            0 <= i < raw_symbol.len() && raw_symbol[i] != '-' ==> #[trigger] symbol_of(raw_symbol)[i]
                == raw_symbol[i],
{
}

/// Between one minute and seven days as many minutes are served as are asked for, below and
/// above the nearest of the two, and an hour if none are asked for. Asking for more never
/// gives less.
pub proof fn minutes_are_kept_in_range(asked: usize, more: usize)
    requires
        asked <= more,
    ensures
        1 <= asked <= 10_080 ==> served_minutes(Some(asked)) == asked,
        asked == 0 ==> served_minutes(Some(asked)) == 1,
        asked > 10_080 ==> served_minutes(Some(asked)) == 10_080,
        served_minutes(None) == 60,
        served_minutes(Some(asked)) <= served_minutes(Some(more)),
{
}

/// A failure carries the status and the error, and a success is no failure.
pub proof fn failures_carry_status_and_error<T>(
    value: T,
    status: u16,
    body: ErrorResponse,
    expected: u16,
    error: Seq<char>,
)
    ensures
        fails_with(Reply::<T>::Failure { status, body }, expected, error) <==> status == expected
            && body.error@ == error,
        !fails_with(Reply::Success(value), expected, error),
{
}

/// The error for an unknown symbol quotes it, so different symbols have different errors.
pub proof fn unknown_symbols_are_quoted(a: Seq<char>, b: Seq<char>)
    ensures
        unknown_symbol(a) == "Symbol '"@ + a + "' not found"@,
        unknown_symbol(a) == unknown_symbol(b) ==> a == b,
{
    let head = "Symbol '"@;
    let tail = "' not found"@;
    let x = unknown_symbol(a);
    let y = unknown_symbol(b);
    if x == y {
        assert(x.len() == y.len());
        assert(a =~= x.subrange(head.len() as int, x.len() - tail.len()));
        assert(b =~= y.subrange(head.len() as int, y.len() - tail.len()));
    }
}

/// A request for the latest tick is answered with the last tick of the market's history; with
/// 503 exactly where the market has no tick, and with 404 exactly where there is no market.
pub proof fn latest_ticks_are_answered(
    reply: Reply<MarketTick>,
    symbol: Seq<char>,
    market: Option<&MarketGenerator>,
)
    requires
        answers_tick(reply, symbol, market),
    ensures
        reply is Success <==> market is Some && market->0@.history.len() > 0,
        reply matches Reply::Success(tick) ==> tick@ == market->0@.history[market->0@.history.len()
            - 1],
        reply matches Reply::Failure { status, body } ==> {
            &&& market is None ==> status == 404 && body.error@ == "Symbol '"@ + symbol
                + "' not found"@
            &&& market is Some ==> status == 503 && body.error@ == "No ticks generated yet for "@
                + symbol
        },
{
}

/// A request for candles is answered with all stored candles where there are any; otherwise with
/// the latest candles of the market, no more than were asked for, the last of which closes with
/// the market's latest tick; and with 404 exactly where there is neither.
pub proof fn candles_are_answered(
    reply: Reply<Vec<OhlcvBar>>,
    symbol: Seq<char>,
    minutes: nat,
    stored: Seq<OhlcvBar>,
    market: Option<&MarketGenerator>,
)
    requires
        answers_with(reply, symbol, minutes, stored, market),
        minutes > 0,
    ensures
        reply is Success <==> stored.len() > 0 || market is Some,
        reply matches Reply::Failure { status, body } ==> status == 404 && body.error@ == "Symbol '"@
            + symbol + "' not found"@,
        reply matches Reply::Success(bars) ==> {
            &&& stored.len() > 0 ==> bars@ == stored
            &&& stored.len() == 0 ==> {
                let all = candles_of(market->0@.symbol, market->0@.history);
                &&& bars@.len() <= minutes
                &&& bars@.len() == if all.len() < minutes { all.len() } else { minutes }
                &&& forall|i: int|
                    0 <= i < bars@.len() ==> (#[trigger] bars@[i])@ == all[all.len() - bars@.len() + i]
                &&& market->0@.history.len() > 0 ==> bars@.len() > 0 && bars@.last()@.close
                    == market->0@.history.last().price
            }
        },
{
    if let Reply::Success(bars) = reply {
        if stored.len() == 0 {
            let all = candles_of(market->0@.symbol, market->0@.history);
            last_n_is_the_end(all, minutes);
            assert(bar_views(bars@).len() == bars@.len());
            assert forall|i: int| 0 <= i < bars@.len() implies (#[trigger] bars@[i])@ == all[all.len()
                - bars@.len() + i] by {
                assert(bar_views(bars@)[i] == bars@[i]@);
                assert(last_n(all, minutes)[i] == all[all.len() - bars@.len() + i]);
            }
            if market->0@.history.len() > 0 {
                candles_span_the_ticks(market->0@.symbol, market->0@.history);
                assert(bars@[bars@.len() - 1]@ == all[all.len() - 1]);
            }
        }
    }
}

/// An answer is refused only where the market's own history is needed and cannot be built.
pub proof fn only_histories_are_refused(stored: Seq<OhlcvBar>, market: Option<&MarketGenerator>)
    ensures
        stored.len() > 0 ==> can_answer(stored, market),
        market is None ==> can_answer(stored, market),
        stored.len() == 0 && market is Some ==> (can_answer(stored, market) <==> can_build(
            market->0@,
        )),
{
}

/// The metrics are answered with the encoder's text, and with 500 exactly where it gave none.
pub proof fn metrics_are_answered(
    reply: Reply<Vec<u8>>,
    encoded: Result<Vec<u8>, String>,
    families: Seq<prometheus::proto::MetricFamily>,
)
    ensures
        answers_metrics(reply, encoded) ==> {
            &&& reply is Success <==> encoded is Ok
            &&& reply matches Reply::Success(text) ==> encoded == Ok::<Vec<u8>, String>(text)
            &&& reply matches Reply::Failure { status, body } ==> status == 500 && body.error@
                == "Failed to encode metrics: "@ + encoded->Err_0@
        },
        answers_families(reply, families) ==> {
            &&& reply matches Reply::Success(text) ==> families_text(families) == Some(text@)
            &&& reply is Success ==> forall|i: int|
                0 <= i < families.len() ==> !is_untyped(#[trigger] families[i])
            &&& reply matches Reply::Failure { status, body } ==> status == 500
            &&& reply is Failure ==> has_untyped(families) || families_text(families) is None
        },
        has_untyped(families) <==> exists|i: int|
            0 <= i < families.len() && is_untyped(#[trigger] families[i]),
{
}

/// A market that was looked up is one that the markets hold under that very symbol, in the state
/// behind its lock; none was found exactly where they have no such symbol.
pub proof fn lookups_find_the_own_market(
    market: Option<&MarketGenerator>,
    markets: Markets,
    symbol: Seq<char>,
)
    requires
        is_market_of(market, markets, symbol),
    ensures
        market is Some <==> markets@.contains_key(symbol),
        market matches Some(g) ==> exists|entry: Ref<'_, String, MarketGenerator>|
            {
                &&& #[trigger] symbol_behind(entry) == symbol
                &&& markets.holds(entry)
                &&& state_behind(entry) == g@
            },
{
}

} // verus!
