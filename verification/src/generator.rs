//! One market: the tick history, the candle in progress and the closing of candles.
//!
//! The random walk itself is floating-point arithmetic and is done by the caller, who hands
//! in each step of it.

use crate::candles::{
    adds_exactly, bar_of, bars_of, candle_suffix, candles_of, exact_in_range, exact_step,
    exact_total, fits_in_prefix, has_minute, last_n, minute_of, minute_runs, runs_join_to_ticks,
    total, total_fits, volumes_add_exactly, volumes_fit, widest, MINUTE_BYTES,
};
use crate::decimal::{
    abs, decimal_sum, optional_view, pow10, pow10_grows, rounded, rounding_gives_the_nearest,
    rounding_keeps_order, sum_in_range, wider,
    Decimal, DecimalView, MAX_MANTISSA, MAX_SCALE,
};
use crate::models::{
    bar_views, optional_bar, tick_views, BarView, BboSnapshot, Double, MarketDataMessage,
    MarketTick, OhlcvBar, OrderBookLevel, SystemTelemetry, TickView,
};
use crate::sources::{
    is_clock_text, is_order_id, is_timestamp, new_order_id, now_rfc3339, random_between,
};
use crate::text::{
    ascii_cut, byte_len, can_cut, cut_at, cuttable_at, length_in_bytes, starts_with,
};
use std::collections::VecDeque;
use vstd::prelude::*;
use vstd::utf8::{encode_utf8, is_ascii_chars};

verus! {

/// The number of digits behind the point in the prices and amounts of ticks.
pub const TICK_DECIMALS: u32 = 8;

/// The number of levels on each side of the order book.
pub const BOOK_DEPTH: usize = 20;

/// The lowest trader id.
pub const FIRST_TRADER: u32 = 1;

/// The highest trader id.
pub const LAST_TRADER: u32 = 9999;

/// The double-precision number 0.01, below which no price falls.
pub const PRICE_FLOOR: u64 = 0x3F84_7AE1_47AE_147B;

/// The bit that is set in negative doubles.
pub const SIGN_BIT: u64 = 0x8000_0000_0000_0000;

/// The bits of positive infinity; what lies above them, short of the sign, is no number.
pub const INFINITY: u64 = 0x7FF0_0000_0000_0000;

/// The double is no number.
pub open spec fn is_nan(d: Double) -> bool {
    d.bits % SIGN_BIT > INFINITY
}

/// The double is a number below the price floor. Positive doubles are ordered as their bits
/// are.
pub open spec fn is_below_floor(d: Double) -> bool {
    !is_nan(d) && (d.bits >= SIGN_BIT || d.bits < PRICE_FLOOR)
}

/// Whether a price is a number below the floor.
fn below_floor(price: Double) -> (r: bool)
    ensures
        r == is_below_floor(price),
{
    price.bits % SIGN_BIT <= INFINITY && (price.bits >= SIGN_BIT || price.bits < PRICE_FLOOR)
}

/// The price, or the floor where the price is below it.
pub open spec fn floored_price(price: Double) -> Double {
    if is_below_floor(price) {
        Double { bits: PRICE_FLOOR }
    } else {
        price
    }
}

/// Keeps a price from falling below the floor.
pub fn floored(price: Double) -> (r: Double)
    ensures
        r == floored_price(price),
        !is_below_floor(r),
{
    if below_floor(price) {
        Double { bits: PRICE_FLOOR }
    } else {
        price
    }
}

/// The simulated market of one symbol.
pub struct MarketGenerator {
    pub symbol: String,
    current_price: Double,
    drift: Double,
    volatility: Double,
    spread: Double,
    pub change_1h: Option<Double>,
    pub change_24h: Option<Double>,
    last_candle_minute: Option<String>,
    current_candle: Option<OhlcvBar>,
    prev_candle: Option<OhlcvBar>,
    pub tick_history: VecDeque<MarketTick>,
    max_history: usize,
}

/// The state of a market.
pub struct GeneratorView {
    pub symbol: Seq<char>,
    pub current_price: Double,
    pub drift: Double,
    pub volatility: Double,
    pub spread: Double,
    pub change_1h: Option<Double>,
    pub change_24h: Option<Double>,
    pub last_candle_minute: Option<Seq<char>>,
    pub current_candle: Option<BarView>,
    pub prev_candle: Option<BarView>,
    pub history: Seq<TickView>,
    pub max_history: nat,
}

impl View for MarketGenerator {
    type V = GeneratorView;

    closed spec fn view(&self) -> GeneratorView {
        GeneratorView {
            symbol: self.symbol@,
            current_price: self.current_price,
            drift: self.drift,
            volatility: self.volatility,
            spread: self.spread,
            change_1h: self.change_1h,
            change_24h: self.change_24h,
            last_candle_minute: match self.last_candle_minute {
                Some(m) => Some(m@),
                None => None,
            },
            current_candle: optional_bar(self.current_candle),
            prev_candle: optional_bar(self.prev_candle),
            history: tick_views(self.tick_history@),
            max_history: self.max_history as nat,
        }
    }
}

/// The history after one more tick: a full history drops its oldest tick first, and a history
/// without room keeps none.
pub open spec fn remembered(
    history: Seq<TickView>,
    max_history: nat,
    tick: TickView,
) -> Seq<TickView> {
    if max_history == 0 {
        Seq::empty()
    } else if history.len() >= max_history {
        history.skip(1).push(tick)
    } else {
        history.push(tick)
    }
}

/// The tick falls into the minute of the candle.
pub open spec fn continues(candle: Option<BarView>, tick: TickView) -> bool {
    candle matches Some(bar) && minute_of(tick.timestamp).is_prefix_of(bar.candle_time)
}

/// A candle that opens with the tick.
pub open spec fn opened(symbol: Seq<char>, tick: TickView) -> BarView {
    BarView {
        symbol,
        candle_time: minute_of(tick.timestamp) + candle_suffix(),
        open: tick.price,
        high: tick.price,
        low: tick.price,
        close: tick.price,
        volume: tick.amount,
    }
}

/// A candle that has taken in one more tick.
pub open spec fn merged(bar: BarView, tick: TickView) -> BarView {
    BarView {
        symbol: bar.symbol,
        candle_time: bar.candle_time,
        open: bar.open,
        high: if tick.price.units() > bar.high.units() { tick.price } else { bar.high },
        low: if tick.price.units() < bar.low.units() { tick.price } else { bar.low },
        close: tick.price,
        volume: decimal_sum(bar.volume, tick.amount)->0,
    }
}

/// The state after a tick at `price`.
pub open spec fn after_tick(g: GeneratorView, price: Double, tick: TickView) -> GeneratorView {
    let goes_on = continues(g.current_candle, tick);
    GeneratorView {
        current_price: price,
        history: remembered(g.history, g.max_history, tick),
        current_candle: if goes_on {
            Some(merged(g.current_candle->0, tick))
        } else {
            Some(opened(g.symbol, tick))
        },
        prev_candle: if goes_on { g.prev_candle } else { g.current_candle },
        ..g
    }
}

/// The candle in progress can take in the tick: its volume does not overflow.
pub open spec fn takes(g: GeneratorView, tick: TickView) -> bool {
    continues(g.current_candle, tick) ==> sum_in_range(g.current_candle->0.volume, tick.amount)
}

/// The state after looking for a closed candle, and the candle that was found. A candle is
/// reported once the latest tick is in another minute than at the last look.
pub open spec fn after_closure_check(g: GeneratorView) -> (GeneratorView, Option<BarView>) {
    if g.history.len() == 0 || byte_len(g.history.last().timestamp) < MINUTE_BYTES {
        (g, None)
    } else {
        let minute = minute_of(g.history.last().timestamp);
        let looked = GeneratorView { last_candle_minute: Some(minute), ..g };
        match g.last_candle_minute {
            Some(last) => if last != minute {
                (looked, g.prev_candle)
            } else {
                (g, None)
            },
            None => (looked, None),
        }
    }
}

/// The sum of two decimals was exact, wherever it can be at their scales.
pub open spec fn added_exactly(a: DecimalView, b: DecimalView, sum: DecimalView) -> bool {
    abs(a.units() + b.units()) <= MAX_MANTISSA * pow10((MAX_SCALE - wider(a.scale, b.scale)) as nat)
        ==> sum.units() == a.units() + b.units()
}

/// The volume of the candle in progress grew by the amount of the tick it took in, exactly
/// wherever that can be at their scales.
pub open spec fn volume_adds_up(
    before: GeneratorView,
    tick: TickView,
    after: GeneratorView,
) -> bool {
    continues(before.current_candle, tick) ==> {
        &&& after.current_candle->0.volume.scale <= wider(
            before.current_candle->0.volume.scale,
            tick.amount.scale,
        )
        &&& added_exactly(
            before.current_candle->0.volume,
            tick.amount,
            after.current_candle->0.volume,
        )
    }
}

/// Takes one more tick into a candle.
fn absorb(bar: &mut OhlcvBar, tick: &MarketTick)
    requires
        sum_in_range(old(bar)@.volume, tick@.amount),
    ensures
        final(bar)@ == merged(old(bar)@, tick@),
        final(bar)@.volume.scale <= wider(old(bar)@.volume.scale, tick@.amount.scale),
        added_exactly(old(bar)@.volume, tick@.amount, final(bar)@.volume),
{
    if tick.price > bar.high {
        bar.high = tick.price;
    }
    if tick.price < bar.low {
        bar.low = tick.price;
    }
    bar.close = tick.price;
    let sum = bar.volume.checked_add(&tick.amount);
    if let Some(volume) = sum {
        bar.volume = volume;
    }
}

/// The decimal 0.01: the lowest price, and the smallest amount of a trade.
pub open spec fn cent() -> DecimalView {
    DecimalView { mantissa: 1, scale: 2 }
}

/// The decimal 500: the largest amount of a trade.
pub open spec fn largest_amount() -> DecimalView {
    DecimalView { mantissa: 500, scale: 0 }
}

/// The number can be the amount of a trade.
pub open spec fn is_amount(d: DecimalView) -> bool {
    cent().units() <= d.units() <= largest_amount().units()
}

/// One step of the random walk, as it was drawn: the new price before it is kept from falling
/// below the floor, the same price as a decimal where it has one, the traded amount, and the
/// side of the trade.
#[derive(Clone, Copy, Debug)]
pub struct PriceStep {
    price: Double,
    quote: Option<Decimal>,
    amount: Decimal,
    buy: bool,
}

/// The contents of a step.
pub struct StepView {
    pub price: Double,
    pub quote: Option<DecimalView>,
    pub amount: DecimalView,
    pub buy: bool,
}

impl StepView {
    /// The amount lies between 0.01 and 500, and a price that is not below the floor has no
    /// decimal below the floor.
    pub open spec fn valid(self) -> bool {
        &&& is_amount(self.amount)
        &&& !is_below_floor(self.price) ==> (self.quote matches Some(q) ==> cent().units()
            <= q.units())
    }

    /// The decimal of the price after it was kept from falling below the floor.
    pub open spec fn floored_quote(self) -> Option<DecimalView> {
        if is_below_floor(self.price) {
            Some(cent())
        } else {
            self.quote
        }
    }
}

impl View for PriceStep {
    type V = StepView;

    closed spec fn view(&self) -> StepView {
        StepView {
            price: self.price,
            quote: optional_view(self.quote),
            amount: self.amount@,
            buy: self.buy,
        }
    }
}

impl PriceStep {
    #[verifier::type_invariant]
    closed spec fn well_formed(self) -> bool {
        &&& self@.valid()
        &&& self.amount@.valid()
        &&& self.quote matches Some(q) ==> q@.valid()
    }

    /// A step of the random walk; none if the amount is not between 0.01 and 500, or if the
    /// price is not below the floor and its decimal is.
    pub fn new(price: Double, quote: Option<Decimal>, amount: Decimal, buy: bool) -> (r: Option<
        PriceStep,
    >)
        ensures
            r is Some <==> (StepView { price, quote: optional_view(quote), amount: amount@, buy }).valid(),
            r matches Some(step) ==> step@ == (StepView {
                price,
                quote: optional_view(quote),
                amount: amount@,
                buy,
            }),
    {
        let lowest = Decimal::new(1, 2);
        let highest = Decimal::new(500, 0);
        if amount < lowest || amount > highest {
            return None;
        }
        if let Some(q) = quote {
            if q < lowest && !below_floor(price) {
                return None;
            }
            proof {
                use_type_invariant(&q);
            }
        }
        proof {
            use_type_invariant(&amount);
        }
        Some(PriceStep { price, quote, amount, buy })
    }
}

/// A number as it stands in a tick: rounded to eight digits behind the point.
pub open spec fn in_tick(number: DecimalView) -> DecimalView {
    rounded(number, TICK_DECIMALS as nat)
}

/// The price as it stands in a tick: zero if it has no decimal.
pub open spec fn price_in_tick(quote: Option<DecimalView>) -> DecimalView {
    match quote {
        Some(d) => in_tick(d),
        None => in_tick(DecimalView { mantissa: 0, scale: 0 }),
    }
}

/// A number between 0.01 and 500 stays there in a tick, and a number of at least 0.01 stays
/// that large, and so above zero. A number in a tick has at most eight digits behind the
/// point.
pub proof fn ticks_keep_their_range(number: DecimalView)
    requires
        number.valid(),
    ensures
        cent().units() <= number.units() ==> in_tick(number).units() >= cent().units() > 0,
        is_amount(number) ==> is_amount(in_tick(number)),
        in_tick(number).scale <= TICK_DECIMALS,
{
    rounding_keeps_order(number, cent(), TICK_DECIMALS as nat);
    rounding_keeps_order(number, largest_amount(), TICK_DECIMALS as nat);
    pow10_grows(0, (MAX_SCALE - 2) as nat);
}

/// The side of a trade in words.
pub open spec fn side_text(buy: bool) -> Seq<char> {
    if buy {
        "buy"@
    } else {
        "sell"@
    }
}

/// `tick` is a tick that the step can give: only its time, its order id and its trader are
/// drawn freely. Its price is at least 0.01 unless the price of the step has no decimal, and
/// its amount lies between 0.01 and 500.
pub open spec fn is_tick_of(symbol: Seq<char>, step: StepView, tick: TickView) -> bool {
    &&& tick.symbol == symbol
    &&& tick.side == side_text(step.buy)
    &&& tick.price == price_in_tick(step.floored_quote())
    &&& tick.price.scale <= TICK_DECIMALS
    &&& step.floored_quote() is Some ==> tick.price.units() >= cent().units()
    &&& tick.amount == in_tick(step.amount)
    &&& tick.amount.scale <= TICK_DECIMALS
    &&& is_amount(tick.amount)
    &&& is_clock_text(tick.timestamp)
    &&& is_order_id(tick.order_id)
    &&& FIRST_TRADER <= tick.trader_id <= LAST_TRADER
}

/// A timestamp is long enough to hold a minute, which can be cut off: its first sixteen
/// characters.
pub proof fn timestamp_has_minute(timestamp: Seq<char>)
    requires
        is_timestamp(timestamp),
    ensures
        can_cut(timestamp, MINUTE_BYTES as int),
        minute_of(timestamp) == timestamp.take(MINUTE_BYTES as int),
{
    assert(is_ascii_chars(timestamp));
    ascii_cut(timestamp, MINUTE_BYTES as int);
}

/// Whether the minute can be cut off a timestamp.
pub fn minute_can_be_cut(timestamp: &str) -> (r: bool)
    ensures
        r == has_minute(timestamp@),
{
    length_in_bytes(timestamp) < MINUTE_BYTES || cuttable_at(timestamp, MINUTE_BYTES)
}

/// The part of a timestamp up to the minute.
fn minute_text(timestamp: &str) -> (r: &str)
    requires
        has_minute(timestamp@),
    ensures
        r@ == minute_of(timestamp@),
{
    let length: usize = length_in_bytes(timestamp);
    if length >= MINUTE_BYTES {
        cut_at(timestamp, MINUTE_BYTES)
    } else {
        timestamp
    }
}

/// A candle that opens with the tick at the given time.
fn open_bar(symbol: &String, candle_time: String, tick: &MarketTick) -> (r: OhlcvBar)
    ensures
        r@ == (BarView {
            symbol: symbol@,
            candle_time: candle_time@,
            open: tick@.price,
            high: tick@.price,
            low: tick@.price,
            close: tick@.price,
            volume: tick@.amount,
        }),
{
    OhlcvBar {
        symbol: symbol.clone(),
        candle_time,
        open: tick.price,
        high: tick.price,
        low: tick.price,
        close: tick.price,
        volume: tick.amount,
    }
}

impl MarketGenerator {
    /// A market with no ticks yet.
    pub fn new(
        symbol: &str,
        start_price: Double,
        drift: Double,
        volatility: Double,
        spread: Double,
        max_history: usize,
    ) -> (g: MarketGenerator)
        ensures
            g@ == (GeneratorView {
                symbol: symbol@,
                current_price: start_price,
                drift,
                volatility,
                spread,
                change_1h: None,
                change_24h: None,
                last_candle_minute: None,
                current_candle: None,
                prev_candle: None,
                history: Seq::empty(),
                max_history: max_history as nat,
            }),
    {
        let g = MarketGenerator {
            symbol: symbol.to_string(),
            current_price: start_price,
            drift,
            volatility,
            spread,
            change_1h: None,
            change_24h: None,
            last_candle_minute: None,
            current_candle: None,
            prev_candle: None,
            tick_history: VecDeque::new(),
            max_history,
        };
        assert(g@.history =~= Seq::empty());
        g
    }

    /// Draws what a tick holds beyond the step: its time, its order id and its trader.
    fn next_tick(&self, step: &PriceStep) -> (tick: MarketTick)
        ensures
            is_tick_of(self@.symbol, step@, tick@),
            has_minute(tick@.timestamp),
    {
        proof {
            use_type_invariant(step);
        }
        let price = if below_floor(step.price) {
            Decimal::new(1, 2)
        } else {
            match step.quote {
                Some(d) => d,
                None => Decimal::zero(),
            }
        };
        let timestamp = now_rfc3339();
        proof {
            use_type_invariant(&price);
            timestamp_has_minute(timestamp@);
            ticks_keep_their_range(price@);
            ticks_keep_their_range(step.amount@);
        }
        MarketTick {
            symbol: self.symbol.clone(),
            side: if step.buy {
                "buy".to_string()
            } else {
                "sell".to_string()
            },
            price: price.round_dp(TICK_DECIMALS),
            amount: step.amount.round_dp(TICK_DECIMALS),
            timestamp,
            order_id: new_order_id(),
            trader_id: random_between(FIRST_TRADER, LAST_TRADER),
        }
    }

    /// Advances the market by one step and returns the tick.
    ///
    /// The volume of the candle in progress must have room for the amount, because the
    /// clock decides whether the tick still falls into it.
    pub fn advance(&mut self, step: PriceStep) -> (tick: MarketTick)
        requires
            old(self)@.current_candle matches Some(bar) ==> sum_in_range(
                bar.volume,
                in_tick(step@.amount),
            ),
        ensures
            is_tick_of(old(self)@.symbol, step@, tick@),
            final(self)@ == after_tick(old(self)@, floored_price(step@.price), tick@),
            !is_below_floor(final(self)@.current_price),
            volume_adds_up(old(self)@, tick@, final(self)@),
    {
        let tick = self.next_tick(&step);
        self.record_tick(floored(step.price), tick.clone());
        tick
    }

    /// Advances the market by one step and returns the tick; does nothing where the volume
    /// of the candle in progress would overflow.
    pub fn checked_advance(&mut self, step: PriceStep) -> (r: Option<MarketTick>)
        ensures
            match r {
                Some(tick) => {
                    &&& is_tick_of(old(self)@.symbol, step@, tick@)
                    &&& takes(old(self)@, tick@)
                    &&& final(self)@ == after_tick(old(self)@, floored_price(step@.price), tick@)
                    &&& !is_below_floor(final(self)@.current_price)
                    &&& volume_adds_up(old(self)@, tick@, final(self)@)
                },
                None => {
                    &&& *final(self) == *old(self)
                    &&& exists|tick: TickView|
                        is_tick_of(old(self)@.symbol, step@, tick) && !#[trigger] takes(
                            old(self)@,
                            tick,
                        )
                },
            },
            (old(self)@.current_candle matches Some(bar) ==> sum_in_range(
                bar.volume,
                in_tick(step@.amount),
            )) ==> r is Some,
    {
        let tick = self.next_tick(&step);
        if self.can_take(&tick) {
            self.record_tick(floored(step.price), tick.clone());
            Some(tick)
        } else {
            assert(!takes(self@, tick@));
            None
        }
    }

    /// Whether the candle in progress can take in the tick without its volume overflowing.
    pub fn can_take(&self, tick: &MarketTick) -> (r: bool)
        requires
            has_minute(tick@.timestamp),
        ensures
            r == takes(self@, tick@),
    {
        match &self.current_candle {
            Some(bar) => {
                let minute = minute_text(tick.timestamp.as_str());
                if starts_with(bar.candle_time.as_str(), minute) {
                    bar.volume.checked_add(&tick.amount).is_some()
                } else {
                    true
                }
            },
            None => true,
        }
    }

    /// Moves the market to `price` with a given tick: stores it in the history, of which
    /// the oldest tick leaves when it is full and which may have no room at all, and brings the candle in progress up to date.
    pub fn record_tick(&mut self, price: Double, tick: MarketTick)
        requires
            has_minute(tick@.timestamp),
            takes(old(self)@, tick@),
        ensures
            final(self)@ == after_tick(old(self)@, price, tick@),
            volume_adds_up(old(self)@, tick@, final(self)@),
    {
        self.current_price = price;
        self.update_current_candle(&tick);
        let ghost before = self.tick_history@;
        if self.max_history == 0 {
            self.tick_history.clear();
        } else {
            if self.tick_history.len() >= self.max_history {
                let _ = self.tick_history.pop_front();
            }
            self.tick_history.push_back(tick);
        }
        assert(tick_views(self.tick_history@) =~= remembered(
            tick_views(before),
            self.max_history as nat,
            tick@,
        ));
    }

    /// Brings the candle in progress up to date: a tick of its minute is taken in, any
    /// other tick opens a new candle and makes the old one the previous candle.
    fn update_current_candle(&mut self, tick: &MarketTick)
        requires
            has_minute(tick@.timestamp),
            takes(old(self)@, tick@),
        ensures
            final(self).tick_history == old(self).tick_history,
            final(self)@ == (GeneratorView {
                history: old(self)@.history,
                ..after_tick(old(self)@, old(self)@.current_price, tick@)
            }),
            volume_adds_up(old(self)@, tick@, final(self)@),
    {
        let minute = minute_text(tick.timestamp.as_str());
        let current = self.current_candle.take();
        let goes_on = match &current {
            Some(bar) => starts_with(bar.candle_time.as_str(), minute),
            None => false,
        };
        match current {
            Some(mut bar) if goes_on => {
                absorb(&mut bar, tick);
                self.current_candle = Some(bar);
            },
            _ => {
                let candle_time = minute.to_string().concat(":00.000000Z");
                self.prev_candle = current;
                self.current_candle = Some(open_bar(&self.symbol, candle_time, tick));
            },
        }
    }

    /// The latest tick, if there is one.
    pub fn latest_tick(&self) -> (r: Option<&MarketTick>)
        ensures
            match r {
                Some(tick) => self@.history.len() > 0 && tick@ == self@.history.last(),
                None => self@.history.len() == 0,
            },
    {
        let length: usize = self.tick_history.len();
        if length == 0 {
            None
        } else {
            Some(&self.tick_history[length - 1])
        }
    }

    /// The field `symbol`.
    pub fn symbol(&self) -> (r: &String)
        ensures
            r@ == self@.symbol,
    {
        &self.symbol
    }

    /// The field `tick_history`: the ticks that are kept, oldest first.
    pub fn history(&self) -> (r: &VecDeque<MarketTick>)
        ensures
            tick_views(r@) == self@.history,
    {
        &self.tick_history
    }

    /// The fields `change_1h` and `change_24h`.
    pub fn changes(&self) -> (r: (Option<Double>, Option<Double>))
        ensures
            r.0 == self@.change_1h,
            r.1 == self@.change_24h,
    {
        (self.change_1h, self.change_24h)
    }

    /// The price after the latest step.
    pub fn current_price(&self) -> (r: Double)
        ensures
            r == self@.current_price,
    {
        self.current_price
    }

    /// The directional bias of the random walk.
    pub fn drift(&self) -> (r: Double)
        ensures
            r == self@.drift,
    {
        self.drift
    }

    /// The step size variance of the random walk.
    pub fn volatility(&self) -> (r: Double)
        ensures
            r == self@.volatility,
    {
        self.volatility
    }

    /// The width between bid and ask.
    pub fn spread(&self) -> (r: Double)
        ensures
            r == self@.spread,
    {
        self.spread
    }

    /// Reports the candle that the latest tick has closed: the previous candle, the first
    /// time the latest tick is seen in another minute than before.
    pub fn check_candle_closure(&mut self) -> (r: Option<OhlcvBar>)
        requires
            old(self)@.history.len() > 0 ==> has_minute(old(self)@.history.last().timestamp),
        ensures
            (final(self)@, optional_bar(r)) == after_closure_check(old(self)@),
    {
        let minute = match self.latest_tick() {
            Some(tick) => {
                let length: usize = length_in_bytes(tick.timestamp.as_str());
                if length < MINUTE_BYTES {
                    return None;
                }
                minute_text(tick.timestamp.as_str()).to_string()
            },
            None => {
                return None;
            },
        };
        match &self.last_candle_minute {
            Some(last) => {
                if *last != minute {
                    let closed = self.prev_candle.clone();
                    self.last_candle_minute = Some(minute);
                    return closed;
                }
            },
            None => {
                self.last_candle_minute = Some(minute);
            },
        }
        None
    }
}

/// The minute can be cut off every timestamp.
pub open spec fn all_have_minutes(ticks: Seq<TickView>) -> bool {
    forall|i: int| 0 <= i < ticks.len() ==> has_minute((#[trigger] ticks[i]).timestamp)
}

/// The candles of the history can be built: every timestamp can be cut, and no volume
/// overflows.
pub open spec fn can_build(g: GeneratorView) -> bool {
    all_have_minutes(g.history) && volumes_fit(g.history)
}

/// One more tick in a run is one more tick taken into its candle.
pub(crate) proof fn bar_of_longer_run(symbol: Seq<char>, run: Seq<TickView>, tick: TickView)
    requires
        run.len() > 0,
    ensures
        bar_of(symbol, run.push(tick)) == merged(bar_of(symbol, run), tick),
        total_fits(run.push(tick)) <==> total_fits(run) && sum_in_range(total(run), tick.amount),
{
    assert(run.push(tick).drop_last() =~= run);
}

/// The volume of a bar is the exact sum of its run, wherever that adds up without rounding.
pub open spec fn volume_is_exact(run: Seq<TickView>, volume: DecimalView) -> bool {
    adds_exactly(run) ==> volume.units() == exact_total(run)
}

impl MarketGenerator {
    /// All candles of the history; none if a volume overflows.
    fn try_candles(&self) -> (r: Option<Vec<OhlcvBar>>)
        requires
            all_have_minutes(self@.history),
        ensures
            r is Some <==> volumes_fit(self@.history),
            volumes_add_exactly(self@.history) ==> r is Some,
            r matches Some(bars) ==> {
                &&& bar_views(bars@) == candles_of(self@.symbol, self@.history)
                &&& forall|i: int|
                    0 <= i < bars@.len() ==> volume_is_exact(
                        minute_runs(self@.history)[i],
                        #[trigger] bars@[i].volume@,
                    )
            },
    {
        let mut candles: Vec<OhlcvBar> = Vec::new();
        let mut current: Option<OhlcvBar> = None;
        let count: usize = self.tick_history.len();
        let ghost ticks = self@.history;
        let ghost symbol = self@.symbol;
        proof {
            assert(ticks.take(0) =~= Seq::empty());
        }
        for i in 0..count
            invariant
                count == ticks.len(),
                ticks == self@.history,
                symbol == self@.symbol,
                all_have_minutes(ticks),
                volumes_fit(ticks.take(i as int)),
                i == 0 ==> current is None && candles@.len() == 0,
                i > 0 ==> {
                    let runs = minute_runs(ticks.take(i as int));
                    &&& runs.len() == candles@.len() + 1
                    &&& bar_views(candles@) == bars_of(symbol, runs.drop_last())
                    &&& forall|j: int|
                        0 <= j < candles@.len() ==> volume_is_exact(
                            runs[j],
                            #[trigger] candles@[j].volume@,
                        )
                    &&& current matches Some(bar) && bar@ == bar_of(symbol, runs.last())
                        && volume_is_exact(runs.last(), bar.volume@) && (adds_exactly(runs.last())
                        ==> bar.volume@.scale <= widest(runs.last()))
                },
        {
            let tick = &self.tick_history[i];
            let ghost prefix = ticks.take(i as int);
            let ghost prev = minute_runs(prefix);
            proof {
                assert(tick@ == ticks[i as int]);
                assert(ticks.take(i + 1).drop_last() =~= prefix);
                assert(ticks.take(i + 1).last() == tick@);
                runs_join_to_ticks(prefix);
            }
            let ghost runs = minute_runs(ticks.take(i + 1));
            let length: usize = length_in_bytes(tick.timestamp.as_str());
            let candle_time = if length >= MINUTE_BYTES {
                minute_text(tick.timestamp.as_str()).to_string().concat(":00.000000Z")
            } else {
                tick.timestamp.clone()
            };
            let goes_on = match &current {
                Some(bar) => bar.candle_time == candle_time,
                None => false,
            };
            match current {
                Some(mut bar) if goes_on => {
                    let ghost run = prev.last();
                    proof {
                        bar_of_longer_run(symbol, run, tick@);
                        assert(run.push(tick@).drop_last() =~= run);
                        if adds_exactly(run.push(tick@)) {
                            exact_step(run.push(tick@));
                            exact_in_range(run.push(tick@), bar.volume@);
                        }
                    }
                    if bar.volume.checked_add(&tick.amount).is_none() {
                        proof {
                            assert(!total_fits(runs.last()));
                            assert(!total_fits(runs[runs.len() - 1]));
                            assert(!adds_exactly(runs[runs.len() - 1]));
                            fits_in_prefix(ticks, i + 1);
                        }
                        return None;
                    }
                    let ghost volume = bar.volume@;
                    absorb(&mut bar, tick);
                    proof {
                        let longer = run.push(tick@);
                        assert(runs.drop_last() =~= prev.drop_last());
                        assert(runs.last() == longer);
                        if adds_exactly(longer) {
                            let used = wider(volume.scale, tick@.amount.scale);
                            assert(used <= widest(longer));
                            pow10_grows((MAX_SCALE - widest(longer)) as nat, (MAX_SCALE - used) as nat);
                            let p = pow10((MAX_SCALE - widest(longer)) as nat);
                            let q = pow10((MAX_SCALE - used) as nat);
                            assert(MAX_MANTISSA * p <= MAX_MANTISSA * q) by (nonlinear_arith)
                                requires
                                    p <= q,
                                    MAX_MANTISSA >= 0,
                            ;
                            assert(exact_total(longer) == volume.units() + tick@.amount.units());
                        }
                        assert forall|j: int| 0 <= j < runs.len() implies total_fits(
                            #[trigger] runs[j],
                        ) by {
                            if j < prev.len() - 1 {
                                assert(runs[j] == prev[j]);
                            } else {
                                assert(total_fits(prev[j]));
                            }
                        }
                    }
                    current = Some(bar);
                },
                _ => {
                    let opened = open_bar(&self.symbol, candle_time, tick);
                    let ghost done = candles@;
                    if let Some(completed) = current {
                        candles.push(completed);
                    }
                    proof {
                        assert(runs =~= prev.push(seq![tick@]));
                        assert(runs.drop_last() =~= prev);
                        if i > 0 {
                            one_more_bar(symbol, done, candles@.last(), prev);
                        }
                        single_tick_run(tick@);
                        assert forall|j: int| 0 <= j < runs.len() implies total_fits(
                            #[trigger] runs[j],
                        ) by {
                            if j < prev.len() {
                                assert(runs[j] == prev[j]);
                            }
                        }
                    }
                    current = Some(opened);
                },
            }
        }
        proof {
            assert(ticks.take(count as int) =~= ticks);
        }
        let ghost done = candles@;
        if let Some(last) = current {
            candles.push(last);
            proof {
                one_more_bar(symbol, done, last, minute_runs(ticks));
            }
        }
        assert(bar_views(candles@) =~= candles_of(symbol, ticks));
        Some(candles)
    }

    /// Whether the candles of the history can be built: every timestamp can be cut, and no
    /// volume overflows.
    pub fn can_build_ohlcv(&self) -> (r: bool)
        ensures
            r == can_build(self@),
            all_have_minutes(self@.history) && volumes_add_exactly(self@.history) ==> r,
    {
        let count: usize = self.tick_history.len();
        for i in 0..count
            invariant
                count == self@.history.len(),
                all_have_minutes(self@.history.take(i as int)),
        {
            let tick = &self.tick_history[i];
            assert(tick@ == self@.history[i as int]);
            if !minute_can_be_cut(tick.timestamp.as_str()) {
                return false;
            }
        }
        assert(self@.history.take(count as int) =~= self@.history);
        self.try_candles().is_some()
    }

    /// The candles of the history, oldest first; of more than `minutes` of them the latest.
    pub fn build_ohlcv(&self, minutes: usize) -> (r: Vec<OhlcvBar>)
        requires
            can_build(self@),
        ensures
            bar_views(r@) == last_n(candles_of(self@.symbol, self@.history), minutes as nat),
            forall|i: int|
                0 <= i < r@.len() ==> volume_is_exact(
                    last_n(minute_runs(self@.history), minutes as nat)[i],
                    #[trigger] r@[i].volume@,
                ),
    {
        match self.try_candles() {
            Some(mut candles) => {
                let length: usize = candles.len();
                let ghost all = candles@;
                if length > minutes {
                    let latest = candles.split_off(length - minutes);
                    proof {
                        let cut = length - minutes;
                        assert(latest@ =~= all.skip(cut));
                        assert(bar_views(latest@) =~= bar_views(all).skip(cut));
                        assert forall|i: int| 0 <= i < latest@.len() implies volume_is_exact(
                            minute_runs(self@.history).skip(cut)[i],
                            #[trigger] latest@[i].volume@,
                        ) by {
                            assert(latest@[i] == all[i + cut]);
                            assert(volume_is_exact(
                                minute_runs(self@.history)[i + cut],
                                all[i + cut].volume@,
                            ));
                        }
                    }
                    latest
                } else {
                    candles
                }
            },
            None => Vec::new(),
        }
    }

    /// The candles of the history as `build_ohlcv` gives them; nothing where they cannot be
    /// built.
    pub fn checked_build_ohlcv(&self, minutes: usize) -> (r: Option<Vec<OhlcvBar>>)
        ensures
            r is Some <==> can_build(self@),
            all_have_minutes(self@.history) && volumes_add_exactly(self@.history) ==> r is Some,
            r matches Some(bars) ==> {
                &&& bar_views(bars@) == last_n(
                    candles_of(self@.symbol, self@.history),
                    minutes as nat,
                )
                &&& forall|i: int|
                    0 <= i < bars@.len() ==> volume_is_exact(
                        last_n(minute_runs(self@.history), minutes as nat)[i],
                        #[trigger] bars@[i].volume@,
                    )
            },
    {
        if self.can_build_ohlcv() {
            Some(self.build_ohlcv(minutes))
        } else {
            None
        }
    }

    /// A snapshot of the order book at the present time. The levels and the spread are in
    /// fixed point, the best level of each side first.
    pub fn current_bbo(
        &self,
        bids: &[OrderBookLevel; 20],
        asks: &[OrderBookLevel; 20],
        spread: u64,
    ) -> (r: BboSnapshot)
        ensures
            is_clock_text(r.timestamp@),
            is_snapshot_of(r, self@.symbol, bids@, asks@, spread, r.timestamp@),
    {
        self.bbo_at(bids, asks, spread, now_rfc3339())
    }

    /// A snapshot of the order book at a given time.
    pub fn bbo_at(
        &self,
        bids: &[OrderBookLevel; 20],
        asks: &[OrderBookLevel; 20],
        spread: u64,
        timestamp: String,
    ) -> (r: BboSnapshot)
        ensures
            is_snapshot_of(r, self@.symbol, bids@, asks@, spread, timestamp@),
    {
        BboSnapshot {
            symbol: self.symbol.clone(),
            best_bid: bids[0].price,
            best_ask: asks[0].price,
            bid_size: bids[0].size,
            ask_size: asks[0].size,
            spread,
            bids: to_levels(bids),
            asks: to_levels(asks),
            timestamp,
        }
    }

    /// The message for the feed. `amount` is the amount of the latest tick as a
    /// double-precision number, where it has one.
    pub fn to_ws_message(
        &self,
        actual_latency_ms: Double,
        actual_tps: u32,
        amount: Option<Double>,
        bbo: BboSnapshot,
    ) -> (r: MarketDataMessage)
        ensures
            r.price == self@.current_price,
            r.volume == (if self@.history.len() > 0 && amount is Some {
                amount->0
            } else {
                Double { bits: 0 }
            }),
            r.symbol@ == self@.symbol,
            r.change_1h == self@.change_1h,
            r.change_24h == self@.change_24h,
            r.bbo == Some(bbo),
            match r.tick {
                Some(tick) => self@.history.len() > 0 && tick@ == self@.history.last(),
                None => self@.history.len() == 0,
            },
            optional_bar(r.ohlc) == self@.current_candle,
            r.telemetry == (SystemTelemetry {
                latency: actual_latency_ms,
                throughput_tps: actual_tps,
                error_rate: Double { bits: 0 },
            }),
    {
        let latest = self.latest_tick();
        let (tick, volume) = match latest {
            Some(tick) => (
                Some(tick.clone()),
                match amount {
                    Some(v) => v,
                    None => Double::zero(),
                },
            ),
            None => (None, Double::zero()),
        };
        MarketDataMessage {
            price: self.current_price,
            volume,
            symbol: self.symbol.clone(),
            change_1h: self.change_1h,
            change_24h: self.change_24h,
            bbo: Some(bbo),
            tick,
            ohlc: self.current_candle.clone(),
            telemetry: SystemTelemetry {
                latency: actual_latency_ms,
                throughput_tps: actual_tps,
                error_rate: Double::zero(),
            },
        }
    }

    /// Takes over newly measured price changes; a change that was not measured keeps its
    /// old value.
    pub fn update_changes(&mut self, change_1h: Option<Double>, change_24h: Option<Double>)
        ensures
            final(self)@ == (GeneratorView {
                change_1h: if change_1h is Some { change_1h } else { old(self)@.change_1h },
                change_24h: if change_24h is Some { change_24h } else { old(self)@.change_24h },
                ..old(self)@
            }),
    {
        if change_1h.is_some() {
            self.change_1h = change_1h;
        }
        if change_24h.is_some() {
            self.change_24h = change_24h;
        }
    }
}

/// `snapshot` shows these levels: all of them, best first, with the best level of each side
/// repeated in front.
pub open spec fn is_snapshot_of(
    snapshot: BboSnapshot,
    symbol: Seq<char>,
    bids: Seq<OrderBookLevel>,
    asks: Seq<OrderBookLevel>,
    spread: u64,
    timestamp: Seq<char>,
) -> bool {
    &&& snapshot.symbol@ == symbol
    &&& snapshot.best_bid == bids[0].price
    &&& snapshot.bid_size == bids[0].size
    &&& snapshot.best_ask == asks[0].price
    &&& snapshot.ask_size == asks[0].size
    &&& snapshot.spread == spread
    &&& snapshot.bids@ == bids
    &&& snapshot.asks@ == asks
    &&& snapshot.timestamp@ == timestamp
}

/// The levels of one side of the book as a vector.
fn to_levels(levels: &[OrderBookLevel; 20]) -> (r: Vec<OrderBookLevel>)
    ensures
        r@ == levels@,
{
    let mut r: Vec<OrderBookLevel> = Vec::with_capacity(BOOK_DEPTH);
    for i in 0..BOOK_DEPTH
        invariant
            r@ == levels@.take(i as int),
    {
        r.push(levels[i]);
    }
    assert(levels@.take(20) =~= levels@);
    r
}

/// The bars of all runs but the last, and the bar of the last, are the bars of all runs.
proof fn one_more_bar(
    symbol: Seq<char>,
    done: Seq<OhlcvBar>,
    last: OhlcvBar,
    runs: Seq<Seq<TickView>>,
)
    requires
        runs.len() == done.len() + 1,
        bar_views(done) == bars_of(symbol, runs.drop_last()),
        last@ == bar_of(symbol, runs.last()),
    ensures
        bar_views(done.push(last)) == bars_of(symbol, runs),
{
    assert forall|i: int| 0 <= i < runs.len() implies bar_views(done.push(last))[i] == bars_of(
        symbol,
        runs,
    )[i] by {
        if i < done.len() {
            assert(bar_views(done)[i] == bars_of(symbol, runs.drop_last())[i]);
            assert(bar_views(done)[i] == done[i]@);
            assert(runs.drop_last()[i] == runs[i]);
            assert(done.push(last)[i] == done[i]);
        } else {
            assert(done.push(last)[i] == last);
            assert(runs[i] == runs.last());
        }
    }
    assert(bar_views(done.push(last)) =~= bars_of(symbol, runs));
}

/// The candle of a single tick holds its amount.
proof fn single_tick_run(tick: TickView)
    ensures
        exact_total(seq![tick]) == tick.amount.units(),
        widest(seq![tick]) == tick.amount.scale,
        total_fits(seq![tick]),
        bar_of(Seq::empty(), seq![tick]).volume == tick.amount,
{
    let run = seq![tick];
    assert(run.drop_last() =~= Seq::empty());
    assert(exact_total(run.drop_last()) == 0);
    assert(widest(run.drop_last()) == 0);
}

/// The price in a tick is the price of the step up to rounding to eight digits: it is never
/// further off than half a unit of the eighth digit, and the same number where that has no
/// more digits. A price without a decimal stands as zero. The same holds of any number in a
/// tick.
pub proof fn numbers_in_ticks_are_near(d: DecimalView)
    requires
        d.valid(),
    ensures
        2 * abs(price_in_tick(Some(d)).units() - d.units()) <= pow10(20),
        d.scale <= 8 ==> price_in_tick(Some(d)) == d,
        price_in_tick(None).units() == 0,
        2 * abs(in_tick(d).units() - d.units()) <= pow10(20),
        d.scale <= 8 ==> in_tick(d) == d,
        in_tick(d) == rounded(d, 8),
        price_in_tick(Some(d)) == rounded(d, 8),
{
    rounding_gives_the_nearest(d, 8);
    let whole = pow10(28);
    assert(0 * whole == 0) by (nonlinear_arith);
}

/// A tick shows the step it came from: the symbol, the side, the price and the amount up to
/// rounding, and 0.01 where the price fell below it.
pub proof fn ticks_show_their_step(symbol: Seq<char>, step: StepView, tick: TickView)
    requires
        is_tick_of(symbol, step, tick),
        step.amount.valid(),
        step.quote matches Some(q) ==> q.valid(),
    ensures
        tick.symbol == symbol,
        step.buy ==> tick.side == "buy"@,
        !step.buy ==> tick.side == "sell"@,
        2 * abs(tick.amount.units() - step.amount.units()) <= pow10(20),
        step.amount.scale <= 8 ==> tick.amount == step.amount,
        tick.amount == rounded(step.amount, 8),
        is_below_floor(step.price) ==> tick.price.units() == pow10(26),
        !is_below_floor(step.price) && step.quote is Some ==> {
            &&& 2 * abs(tick.price.units() - step.quote->0.units()) <= pow10(20)
            &&& step.quote->0.scale <= 8 ==> tick.price == step.quote->0
            &&& tick.price == rounded(step.quote->0, 8)
        },
        !is_below_floor(step.price) && step.quote is None ==> tick.price.units() == 0,
        pow10(26) <= tick.amount.units() <= 500 * pow10(28),
        tick.price.scale <= 8,
        tick.amount.scale <= 8,
        1 <= tick.trader_id <= 9999,
        is_clock_text(tick.timestamp),
        is_order_id(tick.order_id),
{
    numbers_in_ticks_are_near(step.amount);
    numbers_in_ticks_are_near(cent());
    if let Some(q) = step.quote {
        numbers_in_ticks_are_near(q);
    }
}

/// Exactly the amounts from 0.01 to 500 can be traded, and a step is valid whatever its side if
/// its amount can be traded and its price has no decimal below 0.01 without being below it.
pub proof fn steps_with_fair_numbers_are_valid(step: StepView, buy: bool)
    ensures
        is_amount(step.amount) <==> pow10(26) <= step.amount.units() <= 500 * pow10(28),
        step.valid() ==> is_amount(step.amount),
        (StepView { buy, ..step }).valid() == step.valid(),
        is_amount(step.amount) && (step.quote is None || is_below_floor(step.price) || pow10(26)
            <= step.quote->0.units()) <==> step.valid(),
{
}

/// The floor raises every number below 0.01, the negative ones among them, to 0.01, and leaves
/// every other number and what is no number as it is. Doubles from zero up are ordered as
/// their bits are.
pub proof fn floor_raises_to_a_cent(price: Double)
    ensures
        price.bits <= 0x7FF0_0000_0000_0000 ==> floored_price(price).bits == (if price.bits
            < 0x3F84_7AE1_47AE_147B {
            0x3F84_7AE1_47AE_147B
        } else {
            price.bits
        }),
        0x8000_0000_0000_0000 <= price.bits <= 0xFFF0_0000_0000_0000 ==> floored_price(price).bits
            == 0x3F84_7AE1_47AE_147B,
        0x7FF0_0000_0000_0000 < price.bits < 0x8000_0000_0000_0000 || price.bits
            > 0xFFF0_0000_0000_0000 ==> floored_price(price) == price,
        is_below_floor(price) <==> floored_price(price) != price,
{
}

/// A candle opens at the price and with the amount of its tick, at the start of its minute.
pub proof fn candles_open_with_the_tick(symbol: Seq<char>, tick: TickView)
    ensures
        opened(symbol, tick).symbol == symbol,
        opened(symbol, tick).candle_time == minute_of(tick.timestamp) + ":00.000000Z"@,
        opened(symbol, tick).open == tick.price,
        opened(symbol, tick).high == tick.price,
        opened(symbol, tick).low == tick.price,
        opened(symbol, tick).close == tick.price,
        opened(symbol, tick).volume == tick.amount,
{
}

/// A tick moves a candle's close to its own price and its high and low just so far that they
/// enclose it, adds its amount to the volume, and leaves the rest.
pub proof fn candles_take_ticks_in(bar: BarView, tick: TickView)
    ensures
        merged(bar, tick).symbol == bar.symbol,
        merged(bar, tick).candle_time == bar.candle_time,
        merged(bar, tick).open == bar.open,
        merged(bar, tick).close == tick.price,
        merged(bar, tick).high.units() >= bar.high.units(),
        merged(bar, tick).high.units() >= tick.price.units(),
        merged(bar, tick).high == bar.high || merged(bar, tick).high == tick.price,
        merged(bar, tick).low.units() <= bar.low.units(),
        merged(bar, tick).low.units() <= tick.price.units(),
        merged(bar, tick).low == bar.low || merged(bar, tick).low == tick.price,
        tick.price.units() <= bar.high.units() ==> merged(bar, tick).high == bar.high,
        tick.price.units() >= bar.low.units() ==> merged(bar, tick).low == bar.low,
        merged(bar, tick).volume == decimal_sum(bar.volume, tick.amount)->0,
{
}

/// A tick falls into a candle exactly when the candle's time begins with the tick's minute; so
/// of two clock times the second falls into the candle that the first opens exactly when they
/// agree in their first sixteen characters.
pub proof fn ticks_fall_into_their_minute(symbol: Seq<char>, bar: BarView, a: TickView, b: TickView)
    ensures
        !continues(None, a),
        continues(Some(bar), a) <==> minute_of(a.timestamp).is_prefix_of(bar.candle_time),
        is_timestamp(a.timestamp) && is_timestamp(b.timestamp) ==> (continues(
            Some(opened(symbol, a)),
            b,
        ) <==> a.timestamp.take(16) == b.timestamp.take(16)),
{
    if is_timestamp(a.timestamp) && is_timestamp(b.timestamp) {
        timestamp_has_minute(a.timestamp);
        timestamp_has_minute(b.timestamp);
        let first = a.timestamp.take(16);
        let second = b.timestamp.take(16);
        let time = first + ":00.000000Z"@;
        assert(time.take(16) =~= first);
        if second.is_prefix_of(time) {
            assert(second =~= time.take(16));
        }
        if first == second {
            assert(second =~= time.take(second.len() as int));
        }
    }
}

/// A tick moves the market to its price, becomes the latest of the history where there is room
/// and pushes out no more than the oldest, closes the candle in progress at its own price, and
/// leaves everything else. A tick of another minute makes the candle in progress the previous
/// one.
pub proof fn ticks_move_the_market(g: GeneratorView, price: Double, tick: TickView)
    ensures
        ({
            let after = after_tick(g, price, tick);
            &&& after.current_price == price
            &&& after.symbol == g.symbol
            &&& after.drift == g.drift
            &&& after.volatility == g.volatility
            &&& after.spread == g.spread
            &&& after.change_1h == g.change_1h
            &&& after.change_24h == g.change_24h
            &&& after.last_candle_minute == g.last_candle_minute
            &&& after.max_history == g.max_history
            &&& after.current_candle is Some
            &&& after.current_candle->0.close == tick.price
            &&& after.current_candle->0.low.units() <= tick.price.units()
                <= after.current_candle->0.high.units()
            &&& continues(g.current_candle, tick) ==> {
                &&& after.prev_candle == g.prev_candle
                &&& after.current_candle == Some(merged(g.current_candle->0, tick))
                &&& after.current_candle->0.open == g.current_candle->0.open
            }
            &&& !continues(g.current_candle, tick) ==> {
                &&& after.prev_candle == g.current_candle
                &&& after.current_candle == Some(opened(g.symbol, tick))
                &&& after.current_candle->0.open == tick.price
                &&& after.current_candle->0.volume == tick.amount
            }
        }),
        g.max_history == 0 ==> after_tick(g, price, tick).history.len() == 0,
        g.max_history > 0 ==> {
            let history = after_tick(g, price, tick).history;
            &&& history.len() > 0
            &&& history.last() == tick
            &&& g.history.len() < g.max_history ==> history.drop_last() == g.history
            &&& g.history.len() >= g.max_history ==> history.drop_last() == g.history.skip(1)
        },
{
    if g.max_history > 0 {
        let history = after_tick(g, price, tick).history;
        if g.history.len() < g.max_history {
            assert(history.drop_last() =~= g.history);
        } else {
            assert(history.drop_last() =~= g.history.skip(1));
        }
    }
}

/// Looking for a closed candle changes nothing but the minute seen last, which becomes that of
/// the latest tick. What is reported is the previous candle, exactly when the latest tick is
/// in another minute than the one seen before. Looking again reports nothing and changes
/// nothing.
pub proof fn looking_reports_once(g: GeneratorView)
    ensures
        ({
            let (after, found) = after_closure_check(g);
            &&& after == (GeneratorView { last_candle_minute: after.last_candle_minute, ..g })
            &&& after_closure_check(after) == (after, None::<BarView>)
            &&& found is Some ==> found == g.prev_candle
            &&& g.history.len() == 0 ==> after == g && found is None
            &&& g.history.len() > 0 && is_timestamp(g.history.last().timestamp) ==> {
                let minute = g.history.last().timestamp.take(16);
                &&& after.last_candle_minute == Some(minute)
                &&& g.last_candle_minute is Some && g.last_candle_minute != Some(minute)
                    ==> found == g.prev_candle
                &&& g.last_candle_minute is None || g.last_candle_minute == Some(minute)
                    ==> found is None
            }
            &&& g.history.len() > 0 && encode_utf8(g.history.last().timestamp).len() >= 16 ==> {
                let minute = minute_of(g.history.last().timestamp);
                &&& after.last_candle_minute == Some(minute)
                &&& g.last_candle_minute is Some && g.last_candle_minute != Some(minute)
                    ==> found == g.prev_candle
                &&& g.last_candle_minute is None || g.last_candle_minute == Some(minute)
                    ==> found is None
            }
            &&& g.history.len() > 0 && encode_utf8(g.history.last().timestamp).len() < 16 ==> after == g
                && found is None
        }),
{
    if g.history.len() > 0 && is_timestamp(g.history.last().timestamp) {
        timestamp_has_minute(g.history.last().timestamp);
    }
}

/// Histories of clock times can always be cut into minutes.
pub proof fn clock_times_have_minutes(ticks: Seq<TickView>)
    requires
        forall|i: int| 0 <= i < ticks.len() ==> is_timestamp((#[trigger] ticks[i]).timestamp),
    ensures
        all_have_minutes(ticks),
{
    assert forall|i: int| 0 <= i < ticks.len() implies has_minute(
        (#[trigger] ticks[i]).timestamp,
    ) by {
        timestamp_has_minute(ticks[i].timestamp);
    }
}

/// A candle in progress refuses a tick only where the tick falls into it and the volume would
/// overflow, and the candles of a history can be built unless a timestamp cannot be cut or a
/// volume overflows.
pub proof fn only_overflow_is_refused(g: GeneratorView, tick: TickView)
    ensures
        takes(g, tick) <==> !(continues(g.current_candle, tick) && !sum_in_range(
            g.current_candle->0.volume,
            tick.amount,
        )),
        can_build(g) <==> all_have_minutes(g.history) && forall|i: int|
            0 <= i < minute_runs(g.history).len() ==> total_fits(#[trigger] minute_runs(g.history)[i]),
{
}

/// A snapshot shows every level it was made from, in the same order, and the best of each side
/// are the first of its own levels.
pub proof fn snapshots_show_every_level(
    snapshot: BboSnapshot,
    symbol: Seq<char>,
    bids: Seq<OrderBookLevel>,
    asks: Seq<OrderBookLevel>,
    spread: u64,
    timestamp: Seq<char>,
)
    requires
        is_snapshot_of(snapshot, symbol, bids, asks, spread, timestamp),
        bids.len() == 20,
        asks.len() == 20,
    ensures
        snapshot.bids@.len() == 20,
        snapshot.asks@.len() == 20,
        forall|i: int| 0 <= i < 20 ==> #[trigger] snapshot.bids@[i] == bids[i],
        forall|i: int| 0 <= i < 20 ==> #[trigger] snapshot.asks@[i] == asks[i],
        snapshot.best_bid == snapshot.bids@[0].price,
        snapshot.bid_size == snapshot.bids@[0].size,
        snapshot.best_ask == snapshot.asks@[0].price,
        snapshot.ask_size == snapshot.asks@[0].size,
        snapshot.symbol@ == symbol,
        snapshot.spread == spread,
        snapshot.timestamp@ == timestamp,
{
}

/// The state of a market is what its fields hold.
proof fn state_is_the_fields(g: MarketGenerator)
    ensures
        g@.symbol == g.symbol@,
        g@.current_price == g.current_price,
        g@.drift == g.drift,
        g@.volatility == g.volatility,
        g@.spread == g.spread,
        g@.change_1h == g.change_1h,
        g@.change_24h == g.change_24h,
        g.last_candle_minute matches Some(minute) ==> g@.last_candle_minute == Some(minute@),
        g.last_candle_minute is None ==> g@.last_candle_minute is None,
        g.current_candle matches Some(bar) ==> g@.current_candle == Some(bar@),
        g.current_candle is None ==> g@.current_candle is None,
        g.prev_candle matches Some(bar) ==> g@.prev_candle == Some(bar@),
        g.prev_candle is None ==> g@.prev_candle is None,
        g@.history.len() == g.tick_history@.len(),
        forall|i: int| 0 <= i < g.tick_history@.len() ==> #[trigger] g@.history[i] == g.tick_history@[i]@,
        g@.max_history == g.max_history,
{
}

/// The contents of a step are what its fields hold.
proof fn contents_are_the_step(step: PriceStep)
    ensures
        step@.price == step.price,
        step.quote matches Some(q) ==> step@.quote == Some(q@),
        step.quote is None ==> step@.quote is None,
        step@.amount == step.amount@,
        step@.buy == step.buy,
{
}

} // verus!
