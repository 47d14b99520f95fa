//! The rows of the two tables.

use crate::decimal::Decimal;
use crate::models::{MarketTick, OhlcvBar};
use vstd::prelude::*;
use vstd::std_specs::convert::{FromSpec, FromSpecImpl};

verus! {

/// The code of a buy in a row.
pub const BUY: i8 = 1;

/// The code of a sell in a row.
pub const SELL: i8 = 2;

/// A row of the trades.
#[derive(Clone, Debug)]
pub struct TradeRow {
    pub symbol: String,
    pub side: i8,
    pub price: Decimal,
    pub amount: Decimal,
    pub timestamp: String,
    pub order_id: String,
    pub trader_id: u32,
}

/// A row of the candles.
#[derive(Clone, Debug)]
pub struct OhlcvRow {
    pub symbol: String,
    pub candle_time: String,
    pub open: Decimal,
    pub high: Decimal,
    pub low: Decimal,
    pub close: Decimal,
    pub volume: Decimal,
}

impl<'a> From<&'a OhlcvBar> for OhlcvRow {
    fn from(bar: &'a OhlcvBar) -> (r: OhlcvRow) {
        OhlcvRow {
            symbol: bar.symbol.clone(),
            candle_time: bar.candle_time.clone(),
            open: bar.open,
            high: bar.high,
            low: bar.low,
            close: bar.close,
            volume: bar.volume,
        }
    }
}

impl<'a> FromSpecImpl<&'a OhlcvBar> for OhlcvRow {
    open spec fn obeys_from_spec() -> bool {
        true
    }

    open spec fn from_spec(bar: &'a OhlcvBar) -> OhlcvRow {
        row_of_bar(*bar)
    }
}

/// The row of a candle.
pub open spec fn row_of_bar(bar: OhlcvBar) -> OhlcvRow {
    OhlcvRow {
        symbol: bar.symbol,
        candle_time: bar.candle_time,
        open: bar.open,
        high: bar.high,
        low: bar.low,
        close: bar.close,
        volume: bar.volume,
    }
}

impl From<OhlcvRow> for OhlcvBar {
    fn from(row: OhlcvRow) -> (r: OhlcvBar) {
        OhlcvBar {
            symbol: row.symbol,
            candle_time: row.candle_time,
            open: row.open,
            high: row.high,
            low: row.low,
            close: row.close,
            volume: row.volume,
        }
    }
}

impl FromSpecImpl<OhlcvRow> for OhlcvBar {
    open spec fn obeys_from_spec() -> bool {
        true
    }

    open spec fn from_spec(row: OhlcvRow) -> OhlcvBar {
        bar_of_row(row)
    }
}

/// The candle of a row.
pub open spec fn bar_of_row(row: OhlcvRow) -> OhlcvBar {
    OhlcvBar {
        symbol: row.symbol,
        candle_time: row.candle_time,
        open: row.open,
        high: row.high,
        low: row.low,
        close: row.close,
        volume: row.volume,
    }
}

/// The code of a side: only `buy` is a buy.
pub open spec fn side_code(side: Seq<char>) -> i8 {
    if side == "buy"@ {
        BUY
    } else {
        SELL
    }
}

/// The row of a tick.
pub open spec fn row_of_tick(tick: MarketTick) -> TradeRow {
    TradeRow {
        symbol: tick.symbol,
        side: side_code(tick.side@),
        price: tick.price,
        amount: tick.amount,
        timestamp: tick.timestamp,
        order_id: tick.order_id,
        trader_id: tick.trader_id,
    }
}

impl<'a> From<&'a MarketTick> for TradeRow {
    fn from(tick: &'a MarketTick) -> (r: TradeRow) {
        let side: i8 = if tick.side == "buy".to_string() {
            BUY
        } else {
            SELL
        };
        TradeRow {
            symbol: tick.symbol.clone(),
            side,
            price: tick.price,
            amount: tick.amount,
            timestamp: tick.timestamp.clone(),
            order_id: tick.order_id.clone(),
            trader_id: tick.trader_id,
        }
    }
}

impl<'a> FromSpecImpl<&'a MarketTick> for TradeRow {
    open spec fn obeys_from_spec() -> bool {
        true
    }

    open spec fn from_spec(tick: &'a MarketTick) -> TradeRow {
        row_of_tick(*tick)
    }
}

/// The candle of the row of a candle is that candle, and the row of the candle of a row is
/// that row.
pub proof fn rows_and_bars_match(bar: OhlcvBar, row: OhlcvRow)
    ensures
        bar_of_row(row_of_bar(bar)) == bar,
        row_of_bar(bar_of_row(row)) == row,
{
}

/// Turns rows into candles, in the same order.
pub fn rows_to_bars(rows: Vec<OhlcvRow>) -> (r: Vec<OhlcvBar>)
    ensures
        r@ == rows@.map_values(|row: OhlcvRow| bar_of_row(row)),
{
    let mut bars: Vec<OhlcvBar> = Vec::new();
    let ghost all = rows@;
    for row in it: rows
        invariant
            it.seq() == all,
            bars@ == all.take(it.index()).map_values(|row: OhlcvRow| bar_of_row(row)),
    {
        bars.push(OhlcvBar::from(row));
        assert(bars@ =~= all.take(it.index() + 1).map_values(|row: OhlcvRow| bar_of_row(row)));
    }
    assert(all.take(all.len() as int) =~= all);
    bars
}

/// Every field of a candle keeps its name and its value on its way into a row and out of it.
pub proof fn fields_keep_their_names(bar: OhlcvBar, row: OhlcvRow)
    ensures
        row_of_bar(bar).symbol == bar.symbol,
        row_of_bar(bar).candle_time == bar.candle_time,
        row_of_bar(bar).open == bar.open,
        row_of_bar(bar).high == bar.high,
        row_of_bar(bar).low == bar.low,
        row_of_bar(bar).close == bar.close,
        row_of_bar(bar).volume == bar.volume,
        bar_of_row(row).symbol == row.symbol,
        bar_of_row(row).candle_time == row.candle_time,
        bar_of_row(row).open == row.open,
        bar_of_row(row).high == row.high,
        bar_of_row(row).low == row.low,
        bar_of_row(row).close == row.close,
        bar_of_row(row).volume == row.volume,
{
}

/// Every field of a tick keeps its name and its value in its row, but for the side, which is 1
/// for a buy and 2 for anything else.
pub proof fn ticks_keep_their_fields(tick: MarketTick)
    ensures
        row_of_tick(tick).symbol == tick.symbol,
        row_of_tick(tick).price == tick.price,
        row_of_tick(tick).amount == tick.amount,
        row_of_tick(tick).timestamp == tick.timestamp,
        row_of_tick(tick).order_id == tick.order_id,
        row_of_tick(tick).trader_id == tick.trader_id,
        row_of_tick(tick).side == 1 <==> tick.side@ == "buy"@,
        row_of_tick(tick).side == 2 <==> tick.side@ != "buy"@,
{
}

/// Converting a candle or a tick to its row, and a row to its candle, is what the fields say:
/// each has the value of the field with the same name.
pub proof fn conversions_keep_every_field(bar: OhlcvBar, row: OhlcvRow, tick: MarketTick)
    ensures
        ({
            let r = <OhlcvRow as FromSpec<&OhlcvBar>>::from_spec(&bar);
            &&& r.symbol == bar.symbol && r.candle_time == bar.candle_time
            &&& r.open == bar.open && r.high == bar.high
            &&& r.low == bar.low && r.close == bar.close
            &&& r.volume == bar.volume
        }),
        ({
            let b = <OhlcvBar as FromSpec<OhlcvRow>>::from_spec(row);
            &&& b.symbol == row.symbol && b.candle_time == row.candle_time
            &&& b.open == row.open && b.high == row.high
            &&& b.low == row.low && b.close == row.close
            &&& b.volume == row.volume
        }),
        ({
            let r = <TradeRow as FromSpec<&MarketTick>>::from_spec(&tick);
            &&& r.symbol == tick.symbol && r.timestamp == tick.timestamp
            &&& r.price == tick.price && r.amount == tick.amount
            &&& r.order_id == tick.order_id && r.trader_id == tick.trader_id
            &&& r.side == if tick.side@ == "buy"@ { 1i8 } else { 2i8 }
        }),
        <OhlcvRow as FromSpec<&OhlcvBar>>::obeys_from_spec(),
        <OhlcvBar as FromSpec<OhlcvRow>>::obeys_from_spec(),
        <TradeRow as FromSpec<&MarketTick>>::obeys_from_spec(),
{
}

} // verus!
