//! The values that cross module boundaries: ticks, order book snapshots, candles and the
//! message envelope.

use crate::decimal::{Decimal, DecimalView};
use vstd::prelude::*;

verus! {

/// Fixed-point scaling factor: 10^8, eight digits behind the point.
pub const FIXED_POINT_SCALE: u64 = 100_000_000;

/// A double-precision number, carried by its IEEE 754 bit pattern.
///
/// The library stores such numbers and hands them on; all arithmetic on them is done by the
/// caller.
#[derive(Clone, Copy, Debug, PartialEq, Eq, Structural)]
pub struct Double {
    pub bits: u64,
}

impl Double {
    /// The number 0, whose bits are all clear.
    pub fn zero() -> (d: Double)
        ensures
            d == (Double { bits: 0 }),
    {
        Double { bits: 0 }
    }
}

/// A single raw trade tick.
#[derive(Debug)]
pub struct MarketTick {
    pub symbol: String,
    pub side: String,
    pub price: Decimal,
    pub amount: Decimal,
    pub timestamp: String,
    pub order_id: String,
    pub trader_id: u32,
}

/// The contents of a tick.
pub struct TickView {
    pub symbol: Seq<char>,
    pub side: Seq<char>,
    pub price: DecimalView,
    pub amount: DecimalView,
    pub timestamp: Seq<char>,
    pub order_id: Seq<char>,
    pub trader_id: u32,
}

impl View for MarketTick {
    type V = TickView;

    open spec fn view(&self) -> TickView {
        TickView {
            symbol: self.symbol@,
            side: self.side@,
            price: self.price@,
            amount: self.amount@,
            timestamp: self.timestamp@,
            order_id: self.order_id@,
            trader_id: self.trader_id,
        }
    }
}

/// The contents of a sequence of ticks.
pub open spec fn tick_views(ticks: Seq<MarketTick>) -> Seq<TickView> {
    ticks.map_values(|t: MarketTick| t@)
}

impl Clone for MarketTick {
    fn clone(&self) -> (r: MarketTick)
        ensures
            r == *self,
    {
        MarketTick {
            symbol: self.symbol.clone(),
            side: self.side.clone(),
            price: self.price,
            amount: self.amount,
            timestamp: self.timestamp.clone(),
            order_id: self.order_id.clone(),
            trader_id: self.trader_id,
        }
    }
}

/// One price level of the order book, both numbers in fixed point (value x 10^8).
#[derive(Clone, Copy, Debug, PartialEq, Eq, Structural)]
pub struct OrderBookLevel {
    pub price: u64,
    pub size: u64,
}

/// Best bid and offer with the levels behind them, all numbers in fixed point
/// (value x 10^8).
#[derive(Clone, Debug)]
pub struct BboSnapshot {
    pub symbol: String,
    pub best_bid: u64,
    pub best_ask: u64,
    pub bid_size: u64,
    pub ask_size: u64,
    pub spread: u64,
    pub bids: Vec<OrderBookLevel>,
    pub asks: Vec<OrderBookLevel>,
    pub timestamp: String,
}

/// A candle of one minute: first, highest, lowest and last price, and the traded volume.
#[derive(Debug)]
pub struct OhlcvBar {
    pub symbol: String,
    pub candle_time: String,
    pub open: Decimal,
    pub high: Decimal,
    pub low: Decimal,
    pub close: Decimal,
    pub volume: Decimal,
}

/// The contents of a candle.
pub struct BarView {
    pub symbol: Seq<char>,
    pub candle_time: Seq<char>,
    pub open: DecimalView,
    pub high: DecimalView,
    pub low: DecimalView,
    pub close: DecimalView,
    pub volume: DecimalView,
}

impl View for OhlcvBar {
    type V = BarView;

    open spec fn view(&self) -> BarView {
        BarView {
            symbol: self.symbol@,
            candle_time: self.candle_time@,
            open: self.open@,
            high: self.high@,
            low: self.low@,
            close: self.close@,
            volume: self.volume@,
        }
    }
}

/// The contents of a sequence of candles.
pub open spec fn bar_views(bars: Seq<OhlcvBar>) -> Seq<BarView> {
    bars.map_values(|b: OhlcvBar| b@)
}

/// The contents of an optional candle.
pub open spec fn optional_bar(bar: Option<OhlcvBar>) -> Option<BarView> {
    match bar {
        Some(b) => Some(b@),
        None => None,
    }
}

impl Clone for OhlcvBar {
    fn clone(&self) -> (r: OhlcvBar)
        ensures
            r == *self,
    {
        OhlcvBar {
            symbol: self.symbol.clone(),
            candle_time: self.candle_time.clone(),
            open: self.open,
            high: self.high,
            low: self.low,
            close: self.close,
            volume: self.volume,
        }
    }
}

/// Measurements of the running system.
#[derive(Clone, Copy, Debug, PartialEq, Eq, Structural)]
pub struct SystemTelemetry {
    pub latency: Double,
    pub throughput_tps: u32,
    pub error_rate: Double,
}

/// The message that is sent to feed clients for a symbol on every tick.
#[derive(Clone, Debug)]
pub struct MarketDataMessage {
    pub price: Double,
    pub volume: Double,
    pub symbol: String,
    pub change_1h: Option<Double>,
    pub change_24h: Option<Double>,
    pub bbo: Option<BboSnapshot>,
    pub tick: Option<MarketTick>,
    pub ohlc: Option<OhlcvBar>,
    pub telemetry: SystemTelemetry,
}

/// The contents of ticks and candles are those of their fields, one by one.
pub proof fn contents_are_the_fields(tick: MarketTick, bar: OhlcvBar)
    ensures
        tick@.symbol == tick.symbol@,
        tick@.side == tick.side@,
        tick@.price == tick.price@,
        tick@.amount == tick.amount@,
        tick@.timestamp == tick.timestamp@,
        tick@.order_id == tick.order_id@,
        tick@.trader_id == tick.trader_id,
        bar@.symbol == bar.symbol@,
        bar@.candle_time == bar.candle_time@,
        bar@.open == bar.open@,
        bar@.high == bar.high@,
        bar@.low == bar.low@,
        bar@.close == bar.close@,
        bar@.volume == bar.volume@,
        optional_bar(Some(bar)) == Some(bar@),
        optional_bar(None) is None,
{
}

/// The contents of a sequence are those of its elements, in the same order.
pub proof fn contents_keep_their_order(ticks: Seq<MarketTick>, bars: Seq<OhlcvBar>)
    ensures
        tick_views(ticks).len() == ticks.len(),
        forall|i: int| 0 <= i < ticks.len() ==> #[trigger] tick_views(ticks)[i] == ticks[i]@,
        bar_views(bars).len() == bars.len(),
        forall|i: int| 0 <= i < bars.len() ==> #[trigger] bar_views(bars)[i] == bars[i]@,
{
}

} // verus!
