use hft_data_generator::db::history::{
    candle_query, candles_from_trades, history_failure_label, stored_candles, trades_query,
    HistoryStep, QueryResult,
};
use hft_data_generator::db::inserter::{
    FlushCause, Inserter, InserterAction, InserterEvent, InserterPayload,
};
use hft_data_generator::db::metrics::{register_metrics, MetricKind};
use hft_data_generator::db::rows::{OhlcvRow, TradeRow};
use hft_data_generator::db::settings::ClickHouseSettings;
use hft_data_generator::decimal::Decimal;
use hft_data_generator::models::{MarketTick, OhlcvBar};

fn trade(id: &str) -> InserterEvent {
    InserterEvent::Received(InserterPayload::Trade(TradeRow {
        symbol: "SOL/USDC".to_string(),
        side: 1,
        price: Decimal::new(1, 0),
        amount: Decimal::new(1, 0),
        timestamp: "2024-06-15T10:30:00.000000Z".to_string(),
        order_id: id.to_string(),
        trader_id: 1,
    }))
}

fn candle_row(time: &str) -> OhlcvRow {
    OhlcvRow {
        symbol: "SOL/USDC".to_string(),
        candle_time: time.to_string(),
        open: Decimal::new(1, 0),
        high: Decimal::new(3, 0),
        low: Decimal::new(1, 0),
        close: Decimal::new(2, 0),
        volume: Decimal::new(5, 0),
    }
}

fn candle(time: &str) -> InserterEvent {
    InserterEvent::Received(InserterPayload::Ohlcv(candle_row(time)))
}

fn flush() -> InserterEvent {
    InserterEvent::Received(InserterPayload::Flush)
}

fn waiting(inserter: &Inserter) -> Vec<String> {
    inserter.trades().iter().map(|row| row.order_id.clone()).collect()
}

#[test]
fn a_full_buffer_is_written_at_once() {
    let mut inserter = Inserter::new(2);
    assert_eq!(inserter.step(trade("a")), InserterAction::Receive);
    assert_eq!(inserter.step(trade("b")), InserterAction::WriteTrades(FlushCause::Full));
    assert_eq!(waiting(&inserter), vec!["a", "b"]);
    assert_eq!(inserter.failure_label(), Some("flush_trades"));
    assert_eq!(inserter.step(InserterEvent::Written), InserterAction::Receive);
    assert!(inserter.trades().is_empty());
}

#[test]
fn a_buffer_of_none_writes_every_trade() {
    let mut inserter = Inserter::new(0);
    assert_eq!(inserter.step(trade("a")), InserterAction::WriteTrades(FlushCause::Full));
    assert_eq!(inserter.step(InserterEvent::Written), InserterAction::Receive);
}

#[test]
fn candles_wait_for_a_flush() {
    let mut inserter = Inserter::new(1);
    assert_eq!(inserter.step(candle("t1")), InserterAction::Receive);
    assert_eq!(inserter.step(candle("t2")), InserterAction::Receive);
    assert_eq!(inserter.candles().len(), 2);
    assert_eq!(inserter.step(flush()), InserterAction::WriteOhlcv(FlushCause::Interval));
    assert_eq!(inserter.failure_label(), Some("flush_ohlcv_interval"));
    assert_eq!(inserter.step(InserterEvent::Written), InserterAction::Receive);
    assert!(inserter.candles().is_empty());
}

#[test]
fn a_flush_writes_trades_and_then_candles() {
    let mut inserter = Inserter::new(10);
    assert_eq!(inserter.step(flush()), InserterAction::Receive);
    inserter.step(candle("t1"));
    inserter.step(trade("a"));
    assert_eq!(inserter.step(flush()), InserterAction::WriteTrades(FlushCause::Interval));
    assert_eq!(inserter.failure_label(), Some("flush_trades_interval"));
    assert_eq!(
        inserter.step(InserterEvent::Written),
        InserterAction::WriteOhlcv(FlushCause::Interval)
    );
    assert!(inserter.trades().is_empty());
    assert_eq!(inserter.candles().len(), 1);
    assert_eq!(inserter.step(InserterEvent::Written), InserterAction::Receive);
}

#[test]
fn rows_that_could_not_be_written_stay() {
    let mut inserter = Inserter::new(2);
    inserter.step(trade("a"));
    inserter.step(trade("b"));
    assert_eq!(inserter.step(InserterEvent::Failed), InserterAction::Receive);
    assert_eq!(inserter.step(trade("c")), InserterAction::WriteTrades(FlushCause::Full));
    assert_eq!(waiting(&inserter), vec!["a", "b", "c"]);
    inserter.step(InserterEvent::Written);
    inserter.step(candle("t1"));
    inserter.step(flush());
    assert_eq!(inserter.step(InserterEvent::Failed), InserterAction::Receive);
    assert_eq!(inserter.candles().len(), 1);
}

#[test]
fn no_row_is_lost_repeated_or_reordered() {
    let mut inserter = Inserter::new(3);
    let mut written: Vec<String> = Vec::new();
    let mut received: Vec<String> = Vec::new();
    for i in 0..20 {
        let id = format!("row {}", i);
        received.push(id.clone());
        let mut action = inserter.step(trade(&id));
        if i % 7 == 6 && action == InserterAction::Receive {
            action = inserter.step(flush());
        }
        if let InserterAction::WriteTrades(_) = action {
            if i % 4 == 0 {
                inserter.step(InserterEvent::Failed);
            } else {
                written.extend(waiting(&inserter));
                inserter.step(InserterEvent::Written);
            }
        }
        let mut all = written.clone();
        all.extend(waiting(&inserter));
        assert_eq!(all, received);
    }
}

#[test]
fn the_end_writes_everything() {
    let mut inserter = Inserter::new(10);
    inserter.step(trade("a"));
    inserter.step(candle("t1"));
    assert_eq!(
        inserter.step(InserterEvent::Closed),
        InserterAction::WriteTrades(FlushCause::Shutdown)
    );
    assert_eq!(inserter.failure_label(), Some("flush_trades_shutdown"));
    assert_eq!(
        inserter.step(InserterEvent::Written),
        InserterAction::WriteOhlcv(FlushCause::Shutdown)
    );
    assert_eq!(inserter.failure_label(), Some("flush_ohlcv_shutdown"));
    assert_eq!(inserter.step(InserterEvent::Written), InserterAction::Stop);
    assert_eq!(inserter.failure_label(), None);
    assert!(inserter.trades().is_empty());
    assert!(inserter.candles().is_empty());
    assert_eq!(inserter.step(trade("late")), InserterAction::Stop);
    assert!(inserter.trades().is_empty());
}

#[test]
fn an_empty_inserter_stops_at_once() {
    let mut inserter = Inserter::new(10);
    assert_eq!(inserter.action(), InserterAction::Receive);
    assert_eq!(inserter.step(InserterEvent::Closed), InserterAction::Stop);
}

#[test]
fn a_failed_end_still_ends() {
    let mut inserter = Inserter::new(10);
    inserter.step(trade("a"));
    inserter.step(candle("t1"));
    inserter.step(InserterEvent::Closed);
    inserter.step(InserterEvent::Failed);
    assert_eq!(inserter.step(InserterEvent::Failed), InserterAction::Stop);
    assert_eq!(inserter.trades().len(), 1);
    assert_eq!(inserter.candles().len(), 1);
}

#[test]
fn every_failure_has_a_name() {
    let mut inserter = Inserter::new(2);
    let mut counted: Vec<&str> = Vec::new();
    let events = [
        trade("a"),
        trade("b"),
        InserterEvent::Failed,
        candle("t1"),
        flush(),
        InserterEvent::Failed,
        InserterEvent::Failed,
        flush(),
        InserterEvent::Written,
        InserterEvent::Written,
        trade("c"),
        candle("t2"),
        InserterEvent::Closed,
        InserterEvent::Failed,
        InserterEvent::Failed,
    ];
    for event in events {
        if matches!(event, InserterEvent::Failed) {
            counted.push(inserter.failure_label().unwrap());
        }
        inserter.step(event);
    }
    assert_eq!(inserter.action(), InserterAction::Stop);
    assert_eq!(
        counted,
        vec![
            "flush_trades",
            "flush_trades_interval",
            "flush_ohlcv_interval",
            "flush_trades_shutdown",
            "flush_ohlcv_shutdown",
        ]
    );
}

#[test]
fn only_a_failed_trades_query_is_counted() {
    assert_eq!(history_failure_label(&QueryResult::Failed), Some("get_historical_ohlc"));
    assert_eq!(history_failure_label(&QueryResult::Rows(Vec::new())), None);
    assert_eq!(history_failure_label(&QueryResult::Rows(vec![candle_row("t1")])), None);
}

#[test]
fn reports_out_of_turn_change_nothing() {
    let mut inserter = Inserter::new(1);
    assert_eq!(inserter.step(InserterEvent::Written), InserterAction::Receive);
    inserter.step(trade("a"));
    assert_eq!(inserter.step(trade("b")), InserterAction::WriteTrades(FlushCause::Full));
    assert_eq!(waiting(&inserter), vec!["a"]);
}

#[test]
fn rows_of_ticks_code_the_side() {
    let mut tick = MarketTick {
        symbol: "BTC/USDC".to_string(),
        side: "buy".to_string(),
        price: Decimal::new(65_000, 0),
        amount: Decimal::new(25, 1),
        timestamp: "2024-06-15T10:30:00.000000Z".to_string(),
        order_id: "id".to_string(),
        trader_id: 42,
    };
    let row = TradeRow::from(&tick);
    assert_eq!(row.symbol, "BTC/USDC");
    assert_eq!(row.side, 1);
    assert_eq!(row.price, Decimal::new(65_000, 0));
    assert_eq!(row.amount, Decimal::new(25, 1));
    assert_eq!(row.timestamp, "2024-06-15T10:30:00.000000Z");
    assert_eq!(row.order_id, "id");
    assert_eq!(row.trader_id, 42);
    tick.side = "sell".to_string();
    assert_eq!(TradeRow::from(&tick).side, 2);
    tick.side = "Buy".to_string();
    assert_eq!(TradeRow::from(&tick).side, 2);
}

#[test]
fn rows_and_candles_hold_the_same() {
    let bar = OhlcvBar::from(candle_row("t1"));
    assert_eq!(bar.symbol, "SOL/USDC");
    assert_eq!(bar.candle_time, "t1");
    assert_eq!(bar.high, Decimal::new(3, 0));
    let row = OhlcvRow::from(&bar);
    assert_eq!(row.candle_time, "t1");
    assert_eq!(row.open, Decimal::new(1, 0));
    assert_eq!(row.low, Decimal::new(1, 0));
    assert_eq!(row.close, Decimal::new(2, 0));
    assert_eq!(row.volume, Decimal::new(5, 0));
}

#[test]
fn queries_name_the_minutes() {
    assert_eq!(
        candle_query(10_080),
        "SELECT symbol, candle_time, open, high, low, close, volume
         FROM hft_dashboard.market_ohlc
         WHERE symbol = ? AND candle_time >= (now() - interval 10080 minute)
         ORDER BY candle_time ASC"
    );
    assert_eq!(
        trades_query(7),
        "SELECT
            symbol,
            toStartOfMinute(timestamp) AS candle_time,
            argMin(price, timestamp) AS open,
            max(price)               AS high,
            min(price)               AS low,
            argMax(price, timestamp) AS close,
            sum(amount)              AS volume
         FROM hft_dashboard.historical_trades
         WHERE symbol = ? AND timestamp >= (now() - interval 7 minute)
         GROUP BY symbol, candle_time
         ORDER BY candle_time ASC"
    );
    assert!(candle_query(0).contains("interval 0 minute"));
    assert!(candle_query(usize::MAX).contains(&format!("interval {} minute", usize::MAX)));
}

#[test]
fn stored_candles_come_first() {
    match stored_candles(QueryResult::Rows(vec![candle_row("t1"), candle_row("t2")])) {
        HistoryStep::Found(bars) => {
            assert_eq!(bars.len(), 2);
            assert_eq!(bars[0].candle_time, "t1");
            assert_eq!(bars[1].candle_time, "t2");
        }
        HistoryStep::AskTrades => panic!("candles were stored"),
    }
    assert!(matches!(stored_candles(QueryResult::Rows(Vec::new())), HistoryStep::AskTrades));
    assert!(matches!(stored_candles(QueryResult::Failed), HistoryStep::AskTrades));
    let bars = candles_from_trades(QueryResult::Rows(vec![candle_row("t3")]));
    assert_eq!(bars.len(), 1);
    assert_eq!(bars[0].candle_time, "t3");
    assert!(candles_from_trades(QueryResult::Failed).is_empty());
}

#[test]
fn metrics_have_distinct_names_and_rising_buckets() {
    let metrics = register_metrics();
    let names: Vec<&str> = metrics.iter().map(|m| m.name).collect();
    assert_eq!(
        names,
        vec![
            "hft_ticks_total",
            "hft_asset_price",
            "hft_tick_latency_ms",
            "hft_ws_clients",
            "hft_ws_lagged_total",
            "hft_db_errors_total",
            "hft_db_flush_duration_ms",
        ]
    );
    for metric in &metrics {
        for pair in metric.buckets.windows(2) {
            assert!(pair[0] < pair[1]);
        }
        assert_eq!(metric.kind == MetricKind::Histogram, !metric.buckets.is_empty());
    }
    assert_eq!(metrics[1].labels, vec!["symbol"]);
    assert_eq!(metrics[5].labels, vec!["operation"]);
    assert_eq!(metrics[0].help, "Total number of market ticks generated");
    assert_eq!(metrics[2].buckets.len(), 9);
    assert_eq!(metrics[2].buckets[0], Decimal::new(5, 2));
    assert_eq!(metrics[2].buckets[8], Decimal::new(25, 0));
    assert_eq!(metrics[6].buckets.len(), 8);
    assert_eq!(metrics[6].buckets[7], Decimal::new(500, 0));
}

#[test]
fn all_metrics_can_be_registered() {
    let registry = prometheus::Registry::new();
    for metric in register_metrics() {
        let opts = prometheus::Opts::new(metric.name, metric.help);
        registry
            .register(Box::new(prometheus::IntCounter::with_opts(opts).unwrap()))
            .unwrap();
    }
}

#[test]
fn settings_default_where_a_variable_is_missing() {
    let settings = ClickHouseSettings::from_variables(None, None, None, None);
    assert_eq!(settings.url, "http://localhost:8123");
    assert_eq!(settings.user, "inserter_user");
    assert_eq!(settings.password, "inserter_pass");
    assert_eq!(settings.database, "hft_dashboard");
    assert!(settings.has_default_credentials());
    let settings = ClickHouseSettings::from_variables(
        Some("http://db:8123".to_string()),
        Some("me".to_string()),
        None,
        Some("other".to_string()),
    );
    assert_eq!(settings.url, "http://db:8123");
    assert_eq!(settings.database, "other");
    assert!(settings.has_default_credentials());
    let settings = ClickHouseSettings::from_variables(
        None,
        Some("me".to_string()),
        Some("mine".to_string()),
        None,
    );
    assert!(!settings.has_default_credentials());
}
