//! Laws of a market over many ticks: what the history holds, what the candle in progress
//! is, and which closed candles are reported.

use crate::candles::{
    adds_exactly, bar_in_order, bar_of, candle_suffix, candle_time_of, candles_of, gross_total,
    last_n, minute_of, minute_runs, run_time, runs_are_maximal, runs_join_to_ticks,
    volumes_add_exactly, widest, MINUTE_BYTES,
};
use crate::decimal::{pow10, pow10_grows, pow10_splits, MAX_MANTISSA, MAX_SCALE};
use crate::generator::{
    after_closure_check, after_tick, bar_of_longer_run, cent, is_amount, largest_amount, opened,
    ticks_keep_their_range, GeneratorView, TICK_DECIMALS,
};
use crate::models::{BarView, Double, TickView};
use crate::text::{byte_len, can_cut};
use vstd::prelude::*;
use vstd::utf8::encode_utf8;

verus! {

/// The state after a sequence of ticks, each with the price it moved the market to.
pub open spec fn after_ticks(g: GeneratorView, steps: Seq<(Double, TickView)>) -> GeneratorView
    decreases steps.len(),
{
    if steps.len() == 0 {
        g
    } else {
        after_tick(after_ticks(g, steps.drop_last()), steps.last().0, steps.last().1)
    }
}

/// The ticks of a sequence of steps.
pub open spec fn ticks_in(steps: Seq<(Double, TickView)>) -> Seq<TickView> {
    Seq::new(steps.len(), |i: int| steps[i].1)
}

/// The market has seen no tick yet.
pub open spec fn is_fresh(g: GeneratorView) -> bool {
    &&& g.history.len() == 0
    &&& g.current_candle is None
    &&& g.prev_candle is None
    &&& g.last_candle_minute is None
}

/// Every timestamp is long enough to hold a minute, which can be cut off.
pub open spec fn well_timed(ticks: Seq<TickView>) -> bool {
    forall|i: int|
        0 <= i < ticks.len() ==> can_cut((#[trigger] ticks[i]).timestamp, MINUTE_BYTES as int)
}

/// The history never outgrows its limit, and where there is room the latest tick is its last.
pub proof fn history_stays_bounded(g: GeneratorView, price: Double, tick: TickView)
    requires
        g.history.len() <= g.max_history,
    ensures
        after_tick(g, price, tick).history.len() <= g.max_history,
        after_tick(g, price, tick).max_history == g.max_history,
        g.max_history > 0 ==> after_tick(g, price, tick).history.last() == tick,
{
}

/// The history holds the latest ticks, as many as its limit allows, in the order in which
/// they arrived.
pub proof fn history_holds_latest(g: GeneratorView, steps: Seq<(Double, TickView)>)
    requires
        g.history.len() == 0,
    ensures
        after_ticks(g, steps).history == last_n(ticks_in(steps), g.max_history),
        after_ticks(g, steps).max_history == g.max_history,
    decreases steps.len(),
{
    let all = ticks_in(steps);
    let limit = g.max_history;
    if steps.len() == 0 {
        assert(after_ticks(g, steps).history =~= last_n(all, limit));
    } else {
        history_holds_latest(g, steps.drop_last());
        let before = ticks_in(steps.drop_last());
        assert(all =~= before.push(steps.last().1));
        assert(after_ticks(g, steps).history =~= last_n(all, limit));
    }
}

/// The amount of the tick is one that a step of the random walk can give.
pub open spec fn is_drawn(tick: TickView) -> bool {
    is_amount(tick.amount) && tick.amount.scale <= TICK_DECIMALS
}

/// All ticks have amounts that a step of the random walk can give.
pub open spec fn all_drawn(ticks: Seq<TickView>) -> bool {
    forall|i: int| 0 <= i < ticks.len() ==> is_drawn(#[trigger] ticks[i])
}

/// The number of drawn ticks up to which a volume is certain to be exact.
pub const EXACT_TICKS: u64 = 1_000_000_000_000_000_000;

/// A run of ticks is no longer than all ticks, and has no other amounts.
proof fn runs_are_drawn(ticks: Seq<TickView>)
    requires
        all_drawn(ticks),
    ensures
        forall|i: int|
            0 <= i < minute_runs(ticks).len() ==> all_drawn(#[trigger] minute_runs(ticks)[i])
                && minute_runs(ticks)[i].len() <= ticks.len(),
    decreases ticks.len(),
{
    if ticks.len() > 0 {
        let before = ticks.drop_last();
        assert(all_drawn(before)) by {
            assert forall|i: int| 0 <= i < before.len() implies is_drawn(#[trigger] before[i]) by {
                assert(before[i] == ticks[i]);
            }
        }
        assert(is_drawn(ticks[ticks.len() - 1]));
        runs_are_drawn(before);
        let prev = minute_runs(before);
        let runs = minute_runs(ticks);
        assert forall|i: int| 0 <= i < runs.len() implies all_drawn(#[trigger] runs[i])
            && runs[i].len() <= ticks.len() by {
            if i < prev.len() {
                assert(all_drawn(prev[i]));
            }
        }
    }
}

/// The sum of drawn amounts grows by at most 500 with each tick, at no more than eight digits
/// behind the point.
proof fn drawn_sum(run: Seq<TickView>)
    requires
        all_drawn(run),
    ensures
        0 <= gross_total(run) <= run.len() * largest_amount().units(),
        widest(run) <= TICK_DECIMALS,
    decreases run.len(),
{
    if run.len() > 0 {
        let before = run.drop_last();
        assert(all_drawn(before)) by {
            assert forall|i: int| 0 <= i < before.len() implies is_drawn(#[trigger] before[i]) by {
                assert(before[i] == run[i]);
            }
        }
        assert(is_drawn(run[run.len() - 1]));
        drawn_sum(before);
        ticks_keep_their_range(cent());
        let n = run.len() as int;
        let most = largest_amount().units();
        assert((n - 1) * most + most == n * most) by (nonlinear_arith);
    }
}

/// The volumes of ticks that the random walk can give are exact, and so never overflow, up to
/// a billion billion ticks.
pub proof fn drawn_volumes_are_exact(ticks: Seq<TickView>)
    requires
        all_drawn(ticks),
        ticks.len() <= EXACT_TICKS,
    ensures
        volumes_add_exactly(ticks),
{
    runs_are_drawn(ticks);
    assert forall|i: int| 0 <= i < minute_runs(ticks).len() implies adds_exactly(
        #[trigger] minute_runs(ticks)[i],
    ) by {
        let run = minute_runs(ticks)[i];
        drawn_sum(run);
        pow10_grows((MAX_SCALE - TICK_DECIMALS) as nat, (MAX_SCALE - widest(run)) as nat);
        pow10_splits(TICK_DECIMALS as nat, (MAX_SCALE - TICK_DECIMALS) as nat);
        assert(pow10(TICK_DECIMALS as nat) == 100_000_000) by {
            reveal_with_fuel(pow10, 9);
        }
        let n = run.len() as int;
        let p = pow10((MAX_SCALE - TICK_DECIMALS) as nat);
        let q = pow10((MAX_SCALE - widest(run)) as nat);
        let most = largest_amount().units();
        assert(n * most <= MAX_MANTISSA * q) by (nonlinear_arith)
            requires
                0 <= n <= 1_000_000_000_000_000_000,
                most == 500 * (100_000_000 * p),
                1 <= p <= q,
                MAX_MANTISSA == 0xFFFF_FFFF_FFFF_FFFF_FFFF_FFFF,
        ;
    }
}

/// A tick keeps the prices of both candles in order: low <= open, close <= high.
pub proof fn candles_stay_in_order(g: GeneratorView, price: Double, tick: TickView)
    requires
        g.current_candle matches Some(bar) ==> bar_in_order(bar),
        g.prev_candle matches Some(bar) ==> bar_in_order(bar),
    ensures
        after_tick(g, price, tick).current_candle matches Some(bar) && bar_in_order(bar),
        after_tick(g, price, tick).prev_candle matches Some(bar) ==> bar_in_order(bar),
{
}

/// UTF-8 encodes a string piece by piece.
proof fn encode_pieces(a: Seq<char>, b: Seq<char>)
    ensures
        encode_utf8(a + b) == encode_utf8(a) + encode_utf8(b),
    decreases a.len(),
{
    if a.len() == 0 {
        assert(a + b =~= b);
        assert(encode_utf8(a) + encode_utf8(b) =~= encode_utf8(b));
    } else {
        assert((a + b).drop_first() =~= a.drop_first() + b);
        encode_pieces(a.drop_first(), b);
        assert(encode_utf8(a + b) =~= encode_utf8(a) + encode_utf8(b));
    }
}

/// Of two strings of equal byte length, one that begins with the other is the other.
proof fn no_proper_prefix(a: Seq<char>, b: Seq<char>)
    requires
        byte_len(a) == byte_len(b),
        a.is_prefix_of(b),
    ensures
        a == b,
{
    let rest = b.skip(a.len() as int);
    assert(b =~= a + rest);
    encode_pieces(a, rest);
    if rest.len() > 0 {
        assert(encode_utf8(rest).len() > 0);
    }
    assert(a =~= b);
}

/// The minute of a timestamp takes its fixed number of bytes.
proof fn minute_length(timestamp: Seq<char>)
    requires
        can_cut(timestamp, MINUTE_BYTES as int),
    ensures
        byte_len(minute_of(timestamp)) == MINUTE_BYTES,
        candle_time_of(timestamp) == minute_of(timestamp) + candle_suffix(),
{
    let bytes = encode_utf8(timestamp);
    vstd::utf8::encode_utf8_valid_utf8(timestamp);
    vstd::utf8::valid_utf8_split(bytes, MINUTE_BYTES as int);
    vstd::utf8::decode_utf8_encode_utf8(bytes.subrange(0, MINUTE_BYTES as int));
}

/// A tick falls into a candle exactly when both have the same minute.
proof fn same_minute(first: Seq<char>, second: Seq<char>)
    requires
        can_cut(first, MINUTE_BYTES as int),
        can_cut(second, MINUTE_BYTES as int),
    ensures
        minute_of(second).is_prefix_of(candle_time_of(first)) <==> candle_time_of(first)
            == candle_time_of(second),
        minute_of(first) == minute_of(second) <==> candle_time_of(first) == candle_time_of(second),
{
    minute_length(first);
    minute_length(second);
    let a = minute_of(first);
    let b = minute_of(second);
    let suffix = candle_suffix();
    if a + suffix == b + suffix {
        assert((a + suffix).len() == (b + suffix).len());
        assert(a =~= (a + suffix).take(a.len() as int));
        assert(b =~= (b + suffix).take(a.len() as int));
    }
    if b.is_prefix_of(a + suffix) {
        if b.len() <= a.len() {
            assert(b.is_prefix_of(a)) by {
                assert(a.take(b.len() as int) =~= (a + suffix).take(b.len() as int));
            }
            no_proper_prefix(b, a);
        } else {
            assert(a.is_prefix_of(b)) by {
                assert(b.take(a.len() as int) =~= (a + suffix).take(b.len() as int).take(
                    a.len() as int,
                ));
                assert((a + suffix).take(b.len() as int).take(a.len() as int) =~= a);
            }
            no_proper_prefix(a, b);
        }
    }
    if a == b {
        assert(b.is_prefix_of(a + suffix)) by {
            assert((a + suffix).take(b.len() as int) =~= b);
        }
    }
}

/// The last but one element, if there is one.
pub open spec fn last_but_one(bars: Seq<BarView>) -> Option<BarView> {
    if bars.len() >= 2 {
        Some(bars[bars.len() - 2])
    } else {
        None
    }
}

/// The candle that is kept up to date tick by tick is the last of the candles that are
/// built from all ticks at once, and the previous candle is the last but one.
pub proof fn candle_in_progress_is_last(g: GeneratorView, steps: Seq<(Double, TickView)>)
    requires
        is_fresh(g),
        well_timed(ticks_in(steps)),
        steps.len() > 0,
    ensures
        after_ticks(g, steps).current_candle == Some(
            candles_of(g.symbol, ticks_in(steps)).last(),
        ),
        after_ticks(g, steps).prev_candle == last_but_one(candles_of(g.symbol, ticks_in(steps))),
        after_ticks(g, steps).symbol == g.symbol,
    decreases steps.len(),
{
    let before = steps.drop_last();
    let tick = steps.last().1;
    let all = ticks_in(steps);
    let runs = minute_runs(all);
    let prev = minute_runs(ticks_in(before));
    assert(all.drop_last() =~= ticks_in(before));
    assert(all.last() == tick);
    assert(can_cut(all[all.len() - 1].timestamp, MINUTE_BYTES as int));
    minute_length(tick.timestamp);
    if before.len() == 0 {
        assert(prev.len() == 0);
        assert(runs =~= seq![seq![tick]]);
        assert(bar_of(g.symbol, seq![tick]) == opened(g.symbol, tick));
    } else {
        assert(well_timed(ticks_in(before))) by {
            assert forall|i: int| 0 <= i < ticks_in(before).len() implies can_cut(
                (#[trigger] ticks_in(before)[i]).timestamp,
                MINUTE_BYTES as int,
            ) by {
                assert(ticks_in(before)[i] == all[i]);
            }
        }
        candle_in_progress_is_last(g, before);
        runs_join_to_ticks(ticks_in(before));
        let run = prev.last();
        assert(prev[prev.len() - 1] == run);
        first_is_timed(ticks_in(before), prev.len() - 1);
        same_minute(run.first().timestamp, tick.timestamp);
        bar_of_longer_run(g.symbol, run, tick);
        assert(bar_of(g.symbol, seq![tick]) == opened(g.symbol, tick));
        let state = after_ticks(g, before);
        assert(state.current_candle == Some(bar_of(g.symbol, run)));
    }
}

/// The first tick of a run of well-timed ticks is well timed.
proof fn first_is_timed(ticks: Seq<TickView>, i: int)
    requires
        well_timed(ticks),
        0 <= i < minute_runs(ticks).len(),
    ensures
        can_cut(minute_runs(ticks)[i].first().timestamp, MINUTE_BYTES as int),
    decreases ticks.len(),
{
    let before = ticks.drop_last();
    let prev = minute_runs(before);
    assert(well_timed(before)) by {
        assert forall|j: int| 0 <= j < before.len() implies can_cut(
            (#[trigger] before[j]).timestamp,
            MINUTE_BYTES as int,
        ) by {
            assert(before[j] == ticks[j]);
        }
    }
    assert(can_cut(ticks[ticks.len() - 1].timestamp, MINUTE_BYTES as int));
    runs_join_to_ticks(before);
    if i < prev.len() {
        first_is_timed(before, i);
        assert(prev[i].len() > 0);
    }
}

/// The state after a sequence of ticks, with a look for a closed candle after each of them,
/// and the candles that were reported.
pub open spec fn watched(g: GeneratorView, steps: Seq<(Double, TickView)>) -> (
    GeneratorView,
    Seq<BarView>,
)
    decreases steps.len(),
{
    if steps.len() == 0 {
        (g, Seq::empty())
    } else {
        let before = watched(g, steps.drop_last());
        let looked = after_closure_check(after_tick(before.0, steps.last().0, steps.last().1));
        match looked.1 {
            Some(bar) => (looked.0, before.1.push(bar)),
            None => (looked.0, before.1),
        }
    }
}

/// Looking for closed candles changes nothing but the minute that was seen last.
proof fn watching_is_passive(g: GeneratorView, steps: Seq<(Double, TickView)>)
    requires
        g.max_history > 0,
        well_timed(ticks_in(steps)),
    ensures
        watched(g, steps).0 == (GeneratorView {
            last_candle_minute: watched(g, steps).0.last_candle_minute,
            ..after_ticks(g, steps)
        }),
        watched(g, steps).0.max_history == g.max_history,
        steps.len() > 0 ==> watched(g, steps).0.last_candle_minute == Some(
            minute_of(steps.last().1.timestamp),
        ),
    decreases steps.len(),
{
    if steps.len() > 0 {
        let before = steps.drop_last();
        assert(well_timed(ticks_in(before))) by {
            assert forall|i: int| 0 <= i < ticks_in(before).len() implies can_cut(
                (#[trigger] ticks_in(before)[i]).timestamp,
                MINUTE_BYTES as int,
            ) by {
                assert(ticks_in(before)[i] == ticks_in(steps)[i]);
            }
        }
        watching_is_passive(g, before);
        assert(can_cut(ticks_in(steps)[steps.len() - 1].timestamp, MINUTE_BYTES as int));
    }
}

/// Every completed candle is reported exactly once and in order: a market whose history has
/// room and which is looked at after each tick has reported all candles of its ticks but the
/// one in progress.
pub proof fn closed_candles_are_reported_once(g: GeneratorView, steps: Seq<(Double, TickView)>)
    requires
        is_fresh(g),
        g.max_history > 0,
        well_timed(ticks_in(steps)),
        steps.len() > 0,
    ensures
        watched(g, steps).1 == candles_of(g.symbol, ticks_in(steps)).drop_last(),
    decreases steps.len(),
{
    let before = steps.drop_last();
    let tick = steps.last().1;
    let all = ticks_in(steps);
    let runs = minute_runs(all);
    let prev = minute_runs(ticks_in(before));
    assert(all.drop_last() =~= ticks_in(before));
    assert(all.last() == tick);
    assert(can_cut(all[all.len() - 1].timestamp, MINUTE_BYTES as int));
    watching_is_passive(g, steps);
    if before.len() == 0 {
        assert(prev.len() == 0);
        assert(runs =~= seq![seq![tick]]);
        assert(watched(g, before) == (g, Seq::<BarView>::empty()));
        assert(watched(g, steps).1 =~= candles_of(g.symbol, all).drop_last());
    } else {
        assert(well_timed(ticks_in(before))) by {
            assert forall|i: int| 0 <= i < ticks_in(before).len() implies can_cut(
                (#[trigger] ticks_in(before)[i]).timestamp,
                MINUTE_BYTES as int,
            ) by {
                assert(ticks_in(before)[i] == all[i]);
            }
        }
        closed_candles_are_reported_once(g, before);
        watching_is_passive(g, before);
        candle_in_progress_is_last(g, before);
        candle_in_progress_is_last(g, steps);
        runs_join_to_ticks(ticks_in(before));
        let run = prev.last();
        let last = ticks_in(before).last();
        assert(prev[prev.len() - 1] == run);
        runs_are_maximal(ticks_in(before));
        assert(run[run.len() - 1] == last);
        assert(candle_time_of(prev[prev.len() - 1][run.len() - 1].timestamp) == run_time(
            prev[prev.len() - 1],
        ));
        assert(can_cut(ticks_in(before)[before.len() - 1].timestamp, MINUTE_BYTES as int));
        same_minute(last.timestamp, tick.timestamp);
        assert(last == before.last().1);
        if run_time(run) == candle_time_of(tick.timestamp) {
            assert(watched(g, steps).1 =~= candles_of(g.symbol, all).drop_last());
        } else {
            assert(runs =~= prev.push(seq![tick]));
            assert(watched(g, steps).1 =~= candles_of(g.symbol, all).drop_last());
        }
    }
}

} // verus!
