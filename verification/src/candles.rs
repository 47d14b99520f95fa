//! What a candle is: ticks are grouped into runs of one minute each, and every run is
//! summed up in one bar.

use crate::decimal::{
    abs, decimal_sum, pow10, pow10_grows, sum_in_range, wider, DecimalView, MAX_MANTISSA, MAX_SCALE,
};
use crate::models::{BarView, TickView};
use crate::text::{byte_len, can_cut, first_bytes};
use vstd::prelude::*;
use vstd::utf8::{encode_utf8, is_char_boundary};

verus! {

/// The bytes of a timestamp up to and including the minutes: `YYYY-MM-DDTHH:MM`.
pub const MINUTE_BYTES: usize = 16;

/// What follows the minute in the time of a candle.
pub open spec fn candle_suffix() -> Seq<char> {
    ":00.000000Z"@
}

/// The minute can be cut off the timestamp: it is shorter than a minute, or no character
/// straddles the place.
pub open spec fn has_minute(timestamp: Seq<char>) -> bool {
    byte_len(timestamp) >= MINUTE_BYTES ==> can_cut(timestamp, MINUTE_BYTES as int)
}

/// The part of a timestamp up to the minute; all of it if it is shorter.
pub open spec fn minute_of(timestamp: Seq<char>) -> Seq<char> {
    if byte_len(timestamp) >= MINUTE_BYTES {
        first_bytes(timestamp, MINUTE_BYTES as int)
    } else {
        timestamp
    }
}

/// The candle that a tick of the history belongs to: the start of its minute. A timestamp
/// too short to hold a minute stands for itself.
pub open spec fn candle_time_of(timestamp: Seq<char>) -> Seq<char> {
    if byte_len(timestamp) >= MINUTE_BYTES {
        minute_of(timestamp) + candle_suffix()
    } else {
        timestamp
    }
}

/// The candle that a run of ticks belongs to.
pub open spec fn run_time(run: Seq<TickView>) -> Seq<char> {
    candle_time_of(run.first().timestamp)
}

/// The ticks cut into runs: neighbours stay together as long as they belong to the same
/// candle.
pub open spec fn minute_runs(ticks: Seq<TickView>) -> Seq<Seq<TickView>>
    decreases ticks.len(),
{
    if ticks.len() == 0 {
        Seq::empty()
    } else {
        let runs = minute_runs(ticks.drop_last());
        let tick = ticks.last();
        if runs.len() > 0 && run_time(runs.last()) == candle_time_of(tick.timestamp) {
            runs.drop_last().push(runs.last().push(tick))
        } else {
            runs.push(seq![tick])
        }
    }
}

/// The highest price of a run; the earliest of several equal ones.
pub open spec fn highest(run: Seq<TickView>) -> DecimalView
    decreases run.len(),
{
    if run.len() <= 1 {
        run.first().price
    } else if run.last().price.units() > highest(run.drop_last()).units() {
        run.last().price
    } else {
        highest(run.drop_last())
    }
}

/// The lowest price of a run; the earliest of several equal ones.
pub open spec fn lowest(run: Seq<TickView>) -> DecimalView
    decreases run.len(),
{
    if run.len() <= 1 {
        run.first().price
    } else if run.last().price.units() < lowest(run.drop_last()).units() {
        run.last().price
    } else {
        lowest(run.drop_last())
    }
}

/// The amounts of a run added up from the left.
pub open spec fn total(run: Seq<TickView>) -> DecimalView
    decreases run.len(),
{
    if run.len() <= 1 {
        run.first().amount
    } else {
        decimal_sum(total(run.drop_last()), run.last().amount)->0
    }
}

/// No addition in the total of a run overflows.
pub open spec fn total_fits(run: Seq<TickView>) -> bool
    decreases run.len(),
{
    run.len() <= 1 || (total_fits(run.drop_last()) && sum_in_range(
        total(run.drop_last()),
        run.last().amount,
    ))
}

/// The candle of a run.
pub open spec fn bar_of(symbol: Seq<char>, run: Seq<TickView>) -> BarView {
    BarView {
        symbol,
        candle_time: run_time(run),
        open: run.first().price,
        high: highest(run),
        low: lowest(run),
        close: run.last().price,
        volume: total(run),
    }
}

/// The candles of a sequence of runs.
pub open spec fn bars_of(symbol: Seq<char>, runs: Seq<Seq<TickView>>) -> Seq<BarView> {
    Seq::new(runs.len(), |i: int| bar_of(symbol, runs[i]))
}

/// The candles of a sequence of ticks, oldest first.
pub open spec fn candles_of(symbol: Seq<char>, ticks: Seq<TickView>) -> Seq<BarView> {
    bars_of(symbol, minute_runs(ticks))
}

/// No addition in any candle of the ticks overflows.
pub open spec fn volumes_fit(ticks: Seq<TickView>) -> bool {
    forall|i: int| 0 <= i < minute_runs(ticks).len() ==> total_fits(#[trigger] minute_runs(ticks)[i])
}

/// The last `n` elements of a sequence; all of them if there are fewer.
pub open spec fn last_n<T>(s: Seq<T>, n: nat) -> Seq<T> {
    if s.len() > n {
        s.skip(s.len() - n)
    } else {
        s
    }
}

/// The exact sum of the amounts of a run, in units of 10^-28.
pub open spec fn exact_total(run: Seq<TickView>) -> int
    decreases run.len(),
{
    if run.len() == 0 {
        0
    } else {
        exact_total(run.drop_last()) + run.last().amount.units()
    }
}

/// The sum of the magnitudes of the amounts of a run, in units of 10^-28.
pub open spec fn gross_total(run: Seq<TickView>) -> int
    decreases run.len(),
{
    if run.len() == 0 {
        0
    } else {
        gross_total(run.drop_last()) + abs(run.last().amount.units())
    }
}

/// The largest scale among the amounts of a run.
pub open spec fn widest(run: Seq<TickView>) -> nat
    decreases run.len(),
{
    if run.len() == 0 {
        0
    } else {
        wider(widest(run.drop_last()), run.last().amount.scale)
    }
}

/// The amounts of a run are decimals that can be added without rounding: their magnitudes
/// together fit in 96 bits at the largest scale among them.
pub open spec fn adds_exactly(run: Seq<TickView>) -> bool {
    &&& widest(run) <= MAX_SCALE
    &&& gross_total(run) <= MAX_MANTISSA * pow10((MAX_SCALE - widest(run)) as nat)
}

/// Every candle of the ticks adds up without rounding.
pub open spec fn volumes_add_exactly(ticks: Seq<TickView>) -> bool {
    forall|i: int| 0 <= i < minute_runs(ticks).len() ==> adds_exactly(#[trigger] minute_runs(ticks)[i])
}

/// A run that adds up without rounding did so before its last tick, and its exact sum is
/// bounded by its gross sum.
pub(crate) proof fn exact_step(run: Seq<TickView>)
    requires
        run.len() > 0,
        adds_exactly(run),
    ensures
        adds_exactly(run.drop_last()),
        abs(exact_total(run)) <= gross_total(run),
        abs(exact_total(run.drop_last())) <= gross_total(run.drop_last()) <= gross_total(run),
        widest(run.drop_last()) <= widest(run),
        run.last().amount.scale <= widest(run),
{
    let before = run.drop_last();
    gross_bounds(run);
    gross_bounds(before);
    pow10_grows((MAX_SCALE - widest(run)) as nat, (MAX_SCALE - widest(before)) as nat);
    let p = pow10((MAX_SCALE - widest(run)) as nat);
    let q = pow10((MAX_SCALE - widest(before)) as nat);
    assert(MAX_MANTISSA * p <= MAX_MANTISSA * q) by (nonlinear_arith)
        requires
            p <= q,
            MAX_MANTISSA >= 0,
    ;
}

/// The exact sum of a run is bounded by its gross sum.
proof fn gross_bounds(run: Seq<TickView>)
    ensures
        abs(exact_total(run)) <= gross_total(run),
    decreases run.len(),
{
    if run.len() > 0 {
        gross_bounds(run.drop_last());
    }
}

/// A run that adds up without rounding does not overflow in its last addition, if what was
/// added before is exact.
pub(crate) proof fn exact_in_range(run: Seq<TickView>, sum: DecimalView)
    requires
        run.len() > 0,
        adds_exactly(run),
        sum.units() == exact_total(run.drop_last()),
    ensures
        sum_in_range(sum, run.last().amount),
{
    exact_step(run);
    pow10_grows((MAX_SCALE - widest(run)) as nat, MAX_SCALE as nat);
    let p = pow10((MAX_SCALE - widest(run)) as nat);
    let q = pow10(MAX_SCALE as nat);
    assert(2 * (MAX_MANTISSA * p) < (2 * MAX_MANTISSA + 1) * q) by (nonlinear_arith)
        requires
            1 <= p <= q,
            MAX_MANTISSA >= 0,
    ;
}

/// Whatever holds of the candles of some ticks held before the last of them arrived.
proof fn fits_before_last(ticks: Seq<TickView>)
    requires
        ticks.len() > 0,
    ensures
        volumes_fit(ticks) ==> volumes_fit(ticks.drop_last()),
        volumes_add_exactly(ticks) ==> volumes_add_exactly(ticks.drop_last()),
{
    let before = ticks.drop_last();
    let tick = ticks.last();
    let prev = minute_runs(before);
    let runs = minute_runs(ticks);
    runs_join_to_ticks(before);
    let joined = prev.len() > 0 && run_time(prev.last()) == candle_time_of(tick.timestamp);
    if joined {
        assert(prev.last().push(tick).drop_last() =~= prev.last());
    }
    if volumes_fit(ticks) {
        assert forall|i: int| 0 <= i < prev.len() implies total_fits(#[trigger] prev[i]) by {
            assert(total_fits(runs[i]));
        }
    }
    if volumes_add_exactly(ticks) {
        assert forall|i: int| 0 <= i < prev.len() implies adds_exactly(#[trigger] prev[i]) by {
            assert(adds_exactly(runs[i]));
            exact_step(runs[i]);
        }
    }
}

/// Whatever holds of the candles of some ticks holds of those of their first `n`.
pub(crate) proof fn fits_in_prefix(ticks: Seq<TickView>, n: int)
    requires
        0 <= n <= ticks.len(),
    ensures
        volumes_fit(ticks) ==> volumes_fit(ticks.take(n)),
        volumes_add_exactly(ticks) ==> volumes_add_exactly(ticks.take(n)),
    decreases ticks.len(),
{
    if n == ticks.len() {
        assert(ticks.take(n) =~= ticks);
    } else {
        fits_before_last(ticks);
        fits_in_prefix(ticks.drop_last(), n);
        assert(ticks.drop_last().take(n) =~= ticks.take(n));
    }
}

/// Cutting ticks into runs loses none of them and keeps their order: the runs joined
/// together are the ticks again. No run is empty.
pub proof fn runs_join_to_ticks(ticks: Seq<TickView>)
    ensures
        minute_runs(ticks).flatten() == ticks,
        forall|i: int| 0 <= i < minute_runs(ticks).len() ==> (#[trigger] minute_runs(ticks)[i]).len() > 0,
        ticks.len() > 0 ==> minute_runs(ticks).len() > 0 && minute_runs(ticks).last().last() == ticks.last(),
    decreases ticks.len(),
{
    let runs = minute_runs(ticks);
    if ticks.len() == 0 {
        assert(runs.flatten() =~= ticks);
    } else {
        let before = ticks.drop_last();
        let tick = ticks.last();
        let prev = minute_runs(before);
        runs_join_to_ticks(before);
        assert(ticks =~= before.push(tick));
        if prev.len() > 0 && run_time(prev.last()) == candle_time_of(tick.timestamp) {
            let head = prev.drop_last();
            assert(prev =~= head.push(prev.last()));
            head.lemma_flatten_push(prev.last());
            head.lemma_flatten_push(prev.last().push(tick));
            assert(runs.flatten() =~= ticks);
        } else {
            prev.lemma_flatten_push(seq![tick]);
            assert(runs.flatten() =~= ticks);
        }
    }
}

/// Ticks share a run exactly as long as they share a candle: all ticks of a run belong to
/// the candle of the run, and neighbouring runs belong to different candles.
pub proof fn runs_are_maximal(ticks: Seq<TickView>)
    ensures
        forall|i: int, j: int|
            0 <= i < minute_runs(ticks).len() && 0 <= j < minute_runs(ticks)[i].len()
                ==> candle_time_of(#[trigger] minute_runs(ticks)[i][j].timestamp) == run_time(
                minute_runs(ticks)[i],
            ),
        forall|i: int|
            0 < i < minute_runs(ticks).len() ==> run_time(minute_runs(ticks)[i - 1]) != run_time(
                #[trigger] minute_runs(ticks)[i],
            ),
    decreases ticks.len(),
{
    if ticks.len() > 0 {
        let before = ticks.drop_last();
        let tick = ticks.last();
        let prev = minute_runs(before);
        let runs = minute_runs(ticks);
        runs_are_maximal(before);
        runs_join_to_ticks(before);
        if prev.len() > 0 && run_time(prev.last()) == candle_time_of(tick.timestamp) {
            let last = prev.len() - 1;
            assert(prev[last].len() > 0);
            assert(run_time(runs[last]) == run_time(prev[last]));
            assert forall|i: int, j: int|
                0 <= i < runs.len() && 0 <= j < runs[i].len() implies candle_time_of(
                #[trigger] runs[i][j].timestamp,
            ) == run_time(runs[i]) by {
                if i < last {
                    assert(runs[i] == prev[i]);
                    assert(candle_time_of(prev[i][j].timestamp) == run_time(prev[i]));
                } else if j < prev[last].len() {
                    assert(runs[i][j] == prev[last][j]);
                    assert(candle_time_of(prev[last][j].timestamp) == run_time(prev[last]));
                }
            }
            assert forall|i: int| 0 < i < runs.len() implies run_time(runs[i - 1]) != run_time(
                #[trigger] runs[i],
            ) by {
                assert(runs[i - 1] == prev[i - 1]);
                assert(run_time(prev[i - 1]) != run_time(prev[i]));
            }
        } else {
            assert forall|i: int, j: int|
                0 <= i < runs.len() && 0 <= j < runs[i].len() implies candle_time_of(
                #[trigger] runs[i][j].timestamp,
            ) == run_time(runs[i]) by {
                if i < prev.len() {
                    assert(runs[i] == prev[i]);
                    assert(candle_time_of(prev[i][j].timestamp) == run_time(prev[i]));
                }
            }
            assert forall|i: int| 0 < i < runs.len() implies run_time(runs[i - 1]) != run_time(
                #[trigger] runs[i],
            ) by {
                assert(runs[i - 1] == prev[i - 1]);
                if i < prev.len() {
                    assert(runs[i] == prev[i]);
                    assert(run_time(prev[i - 1]) != run_time(prev[i]));
                }
            }
        }
    }
}

/// Every price of a run lies between its lowest and its highest, and both are prices of
/// the run.
pub proof fn prices_within_extremes(run: Seq<TickView>)
    requires
        run.len() > 0,
    ensures
        forall|i: int|
            0 <= i < run.len() ==> lowest(run).units() <= (#[trigger] run[i]).price.units()
                <= highest(run).units(),
        exists|i: int| 0 <= i < run.len() && (#[trigger] run[i]).price == highest(run),
        exists|i: int| 0 <= i < run.len() && (#[trigger] run[i]).price == lowest(run),
    decreases run.len(),
{
    if run.len() == 1 {
        assert(run[0].price == highest(run));
        assert(run[0].price == lowest(run));
    } else {
        let before = run.drop_last();
        prices_within_extremes(before);
        let h = choose|i: int| 0 <= i < before.len() && (#[trigger] before[i]).price == highest(before);
        let l = choose|i: int| 0 <= i < before.len() && (#[trigger] before[i]).price == lowest(before);
        assert(run[h] == before[h]);
        assert(run[l] == before[l]);
        assert(run[run.len() - 1] == run.last());
        assert forall|i: int| 0 <= i < run.len() implies lowest(run).units() <= (
        #[trigger] run[i]).price.units() <= highest(run).units() by {
            if i < before.len() {
                assert(run[i] == before[i]);
            }
        }
    }
}

/// A bar keeps its prices in order: low <= open, close <= high.
pub open spec fn bar_in_order(bar: BarView) -> bool {
    &&& bar.low.units() <= bar.open.units() <= bar.high.units()
    &&& bar.low.units() <= bar.close.units() <= bar.high.units()
}

/// In every candle of a sequence of ticks the high is at least the low, and open and close
/// lie between them.
pub proof fn candles_in_order(symbol: Seq<char>, ticks: Seq<TickView>)
    ensures
        forall|i: int|
            0 <= i < candles_of(symbol, ticks).len() ==> bar_in_order(
                #[trigger] candles_of(symbol, ticks)[i],
            ),
{
    runs_join_to_ticks(ticks);
    assert forall|i: int| 0 <= i < candles_of(symbol, ticks).len() implies bar_in_order(
        #[trigger] candles_of(symbol, ticks)[i],
    ) by {
        let run = minute_runs(ticks)[i];
        assert(run.len() > 0);
        prices_within_extremes(run);
        assert(run[0] == run.first());
        assert(run[run.len() - 1] == run.last());
    }
}

/// The candle of a run sums it up: it opens at the price of the first tick and closes at the
/// price of the last, its high and its low are prices of the run that no other price passes
/// and stay where they are until one does, it stands at the candle of its first tick, and its volume grows with every tick by the
/// amount of that tick.
pub proof fn candle_sums_up_its_run(symbol: Seq<char>, run: Seq<TickView>)
    requires
        run.len() > 0,
    ensures
        bar_of(symbol, run).symbol == symbol,
        bar_of(symbol, run).candle_time == candle_time_of(run[0].timestamp),
        bar_of(symbol, run).open == run[0].price,
        bar_of(symbol, run).close == run[run.len() - 1].price,
        forall|i: int|
            0 <= i < run.len() ==> bar_of(symbol, run).low.units() <= (#[trigger] run[i]).price.units()
                <= bar_of(symbol, run).high.units(),
        exists|i: int| 0 <= i < run.len() && (#[trigger] run[i]).price == bar_of(symbol, run).high,
        exists|i: int| 0 <= i < run.len() && (#[trigger] run[i]).price == bar_of(symbol, run).low,
        run.len() > 1 ==> {
            let before = bar_of(symbol, run.drop_last());
            let price = run[run.len() - 1].price;
            &&& price.units() <= before.high.units() ==> bar_of(symbol, run).high == before.high
            &&& price.units() >= before.low.units() ==> bar_of(symbol, run).low == before.low
        },
        run.len() == 1 ==> bar_of(symbol, run).volume == run[0].amount,
        run.len() > 1 ==> bar_of(symbol, run).volume == decimal_sum(
            bar_of(symbol, run.drop_last()).volume,
            run[run.len() - 1].amount,
        )->0,
{
    prices_within_extremes(run);
}

/// Every tick is summed up in exactly one candle: the candles are those of the runs that the
/// ticks fall into, one for each run and in the same order.
pub proof fn candles_follow_the_runs(symbol: Seq<char>, ticks: Seq<TickView>)
    ensures
        candles_of(symbol, ticks).len() == minute_runs(ticks).len(),
        forall|i: int|
            0 <= i < minute_runs(ticks).len() ==> {
                let run = minute_runs(ticks)[i];
                let bar = #[trigger] candles_of(symbol, ticks)[i];
                &&& bar.symbol == symbol
                &&& bar.candle_time == run_time(run)
                &&& bar.open == run[0].price
                &&& bar.close == run[run.len() - 1].price
                &&& bar == bar_of(symbol, run)
            },
{
    runs_join_to_ticks(ticks);
    assert forall|i: int| 0 <= i < minute_runs(ticks).len() implies {
        let run = minute_runs(ticks)[i];
        let bar = #[trigger] candles_of(symbol, ticks)[i];
        &&& bar.symbol == symbol
        &&& bar.candle_time == run_time(run)
        &&& bar.open == run[0].price
        &&& bar.close == run[run.len() - 1].price
        &&& bar == bar_of(symbol, run)
    } by {
        candle_sums_up_its_run(symbol, minute_runs(ticks)[i]);
    }
}

/// The first candle opens with the first tick and the last candle closes with the last.
pub proof fn candles_span_the_ticks(symbol: Seq<char>, ticks: Seq<TickView>)
    requires
        ticks.len() > 0,
    ensures
        candles_of(symbol, ticks).len() > 0,
        candles_of(symbol, ticks)[0].open == ticks[0].price,
        candles_of(symbol, ticks)[0].candle_time == candle_time_of(ticks[0].timestamp),
        candles_of(symbol, ticks).last().close == ticks.last().price,
        candles_of(symbol, ticks).last().candle_time == candle_time_of(ticks.last().timestamp),
    decreases ticks.len(),
{
    let before = ticks.drop_last();
    let prev = minute_runs(before);
    let runs = minute_runs(ticks);
    runs_join_to_ticks(ticks);
    runs_join_to_ticks(before);
    runs_are_maximal(ticks);
    candles_follow_the_runs(symbol, ticks);
    let last = runs.len() - 1;
    assert(runs[last] == runs.last());
    assert(runs[last].len() > 0);
    assert(runs[last][runs[last].len() - 1] == ticks.last());
    assert(candle_time_of(runs[last][runs[last].len() - 1].timestamp) == run_time(runs[last]));
    assert(candles_of(symbol, ticks)[last].close == ticks.last().price);
    if before.len() > 0 {
        candles_span_the_ticks(symbol, before);
        candles_follow_the_runs(symbol, before);
        assert(prev[0].len() > 0);
        assert(candles_of(symbol, before)[0].open == prev[0][0].price);
        assert(runs[0][0] == prev[0][0]);
        assert(candles_of(symbol, ticks)[0].open == runs[0][0].price);
        assert(candles_of(symbol, ticks)[0].candle_time == run_time(runs[0]));
        assert(candles_of(symbol, before)[0].candle_time == run_time(prev[0]));
    } else {
        assert(prev.len() == 0);
        assert(runs =~= seq![seq![ticks.last()]]);
        assert(candles_of(symbol, ticks)[0].open == runs[0][0].price);
        assert(candles_of(symbol, ticks)[0].candle_time == run_time(runs[0]));
    }
}

/// The minute of a timestamp that is long enough is its first sixteen bytes, and its candle
/// stands at the start of that minute. A shorter timestamp is its own minute and its own
/// candle.
pub proof fn candles_start_with_the_minute(timestamp: Seq<char>)
    requires
        encode_utf8(timestamp).len() >= 16 ==> is_char_boundary(encode_utf8(timestamp), 16),
    ensures
        has_minute(timestamp),
        encode_utf8(timestamp).len() >= 16 ==> {
            &&& encode_utf8(minute_of(timestamp)) == encode_utf8(timestamp).subrange(0, 16)
            &&& candle_time_of(timestamp) == minute_of(timestamp) + ":00.000000Z"@
        },
        encode_utf8(timestamp).len() < 16 ==> minute_of(timestamp) == timestamp && candle_time_of(
            timestamp,
        ) == timestamp,
{
    let bytes = encode_utf8(timestamp);
    if bytes.len() >= 16 {
        vstd::utf8::encode_utf8_valid_utf8(timestamp);
        vstd::utf8::valid_utf8_split(bytes, 16);
        vstd::utf8::decode_utf8_encode_utf8(bytes.subrange(0, 16));
    }
}

/// The latest elements are the end of the sequence: as many as are asked for, or all.
pub proof fn last_n_is_the_end<T>(s: Seq<T>, n: nat)
    ensures
        last_n(s, n).len() == if s.len() < n { s.len() } else { n },
        forall|i: int|
            0 <= i < last_n(s, n).len() ==> #[trigger] last_n(s, n)[i] == s[s.len() - last_n(
                s,
                n,
            ).len() + i],
{
}

/// The exact volume of two stretches of ticks is the sum of theirs, and that of one tick is
/// its amount; likewise for the magnitudes, which are never negative.
pub proof fn exact_volumes_add_up(a: Seq<TickView>, b: Seq<TickView>, tick: TickView)
    ensures
        exact_total(Seq::empty()) == 0,
        exact_total(seq![tick]) == tick.amount.units(),
        exact_total(a + b) == exact_total(a) + exact_total(b),
        gross_total(Seq::empty()) == 0,
        gross_total(seq![tick]) == abs(tick.amount.units()),
        gross_total(a + b) == gross_total(a) + gross_total(b),
    decreases b.len(),
{
    assert(seq![tick].drop_last() =~= Seq::empty());
    assert(exact_total(seq![tick].drop_last()) == 0);
    assert(gross_total(seq![tick].drop_last()) == 0);
    if b.len() == 0 {
        assert(a + b =~= a);
    } else {
        exact_volumes_add_up(a, b.drop_last(), tick);
        assert((a + b).drop_last() =~= a + b.drop_last());
        assert((a + b).last() == b.last());
    }
}

} // verus!
