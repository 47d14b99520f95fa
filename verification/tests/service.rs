use hft_data_generator::api::{
    bbo, families_reply, find_market, health, metrics_reply, ohlcv, ohlcv_reply, ohlcv_request,
    prometheus_metrics, raw_symbol_to_symbol, symbols, tick, tick_reply, OhlcvQuery, Reply,
};
use hft_data_generator::config::AppConfig;
use hft_data_generator::decimal::Decimal;
use hft_data_generator::generator::MarketGenerator;
use hft_data_generator::market::Markets;
use hft_data_generator::models::{Double, MarketTick, OhlcvBar, OrderBookLevel};
use hft_data_generator::ws::MAX_LAG;
use prometheus::proto::{Metric, MetricFamily, MetricType};

fn double(x: f64) -> Double {
    Double { bits: x.to_bits() }
}

fn market() -> MarketGenerator {
    MarketGenerator::new("SOL/USDC", double(150.0), double(0.0), double(0.0), double(0.01), 10)
}

fn tick_at(timestamp: &str, amount: Decimal) -> MarketTick {
    MarketTick {
        symbol: "SOL/USDC".to_string(),
        side: "buy".to_string(),
        price: Decimal::new(150, 0),
        amount,
        timestamp: timestamp.to_string(),
        order_id: "id".to_string(),
        trader_id: 7,
    }
}

fn bar(time: &str) -> OhlcvBar {
    OhlcvBar {
        symbol: "SOL/USDC".to_string(),
        candle_time: time.to_string(),
        open: Decimal::new(1, 0),
        high: Decimal::new(1, 0),
        low: Decimal::new(1, 0),
        close: Decimal::new(1, 0),
        volume: Decimal::new(1, 0),
    }
}

fn failure<T>(reply: Reply<T>) -> (u16, String) {
    match reply {
        Reply::Success(_) => panic!("a success"),
        Reply::Failure { status, body } => (status, body.error),
    }
}

fn success<T>(reply: Reply<T>) -> T {
    match reply {
        Reply::Success(body) => body,
        Reply::Failure { status, body } => panic!("{}: {}", status, body.error),
    }
}

#[test]
fn the_service_is_healthy() {
    let body = health();
    assert_eq!(body.status, "ok");
    assert_eq!(body.uptime_note, "FPGA HFT Data Generator running");
}

#[test]
fn dashes_stand_for_slashes() {
    assert_eq!(raw_symbol_to_symbol("SOL-USDC".to_string()), "SOL/USDC");
    assert_eq!(raw_symbol_to_symbol("SOL/USDC".to_string()), "SOL/USDC");
    assert_eq!(raw_symbol_to_symbol("-a--b\u{e9}-".to_string()), "/a//b\u{e9}/");
    assert_eq!(raw_symbol_to_symbol(String::new()), "");
}

#[test]
fn all_configured_symbols_have_markets() {
    let markets = Markets::new(&AppConfig::default());
    let mut names = symbols(&markets).symbols;
    names.sort();
    assert_eq!(names, vec!["BTC/USDC", "SOL/USDC"]);
    let btc = markets.get(&"BTC/USDC".to_string()).unwrap();
    assert_eq!(btc.symbol, "BTC/USDC");
    assert_eq!(btc.current_price(), double(65_000.0));
    assert_eq!(btc.drift(), double(0.0001));
    assert_eq!(btc.volatility(), double(0.001));
    assert_eq!(btc.spread(), double(10.0));
    assert!(btc.tick_history.is_empty());
}

#[test]
fn of_equal_symbols_the_last_counts() {
    let mut config = AppConfig::default();
    let mut again = config.symbols[0].clone();
    again.initial_price = double(7.0);
    config.symbols.push(again);
    let markets = Markets::new(&config);
    assert_eq!(symbols(&markets).symbols.len(), 2);
    assert_eq!(markets.get(&"SOL/USDC".to_string()).unwrap().current_price(), double(7.0));
    config.symbols.clear();
    assert!(symbols(&Markets::new(&config)).symbols.is_empty());
}

#[test]
fn markets_are_found_by_path() {
    let markets = Markets::new(&AppConfig::default());
    let (symbol, entry) = find_market(&markets, "SOL-USDC".to_string());
    assert_eq!(symbol, "SOL/USDC");
    assert_eq!(entry.unwrap().value().symbol, "SOL/USDC");
    let (symbol, entry) = find_market(&markets, "XRP-USDC".to_string());
    assert_eq!(symbol, "XRP/USDC");
    assert!(entry.is_none());
    assert!(markets.get_mut(&"XRP/USDC".to_string()).is_none());
    assert_eq!(markets.get_mut(&"BTC/USDC".to_string()).unwrap().key(), "BTC/USDC");
}

#[test]
fn each_symbol_is_served_from_its_own_market() {
    let markets = Markets::new(&AppConfig::default());
    for (symbol, trader) in [("SOL/USDC", 1), ("BTC/USDC", 2)] {
        let mut own = tick_at("2024-06-15T10:30:00.000000Z", Decimal::new(trader, 0));
        own.trader_id = trader as u32;
        markets.get_mut(&symbol.to_string()).unwrap().record_tick(double(1.0), own);
    }
    for (path, trader) in [("SOL-USDC", 1), ("BTC-USDC", 2)] {
        assert_eq!(success(tick(&markets, path.to_string())).trader_id, trader);
        let request = ohlcv_request(path.to_string(), query(None, None));
        let served = success(ohlcv(&markets, &request, Vec::new()).unwrap());
        assert_eq!(served[0].volume, Decimal::new(trader as i64, 0));
        assert_eq!(served[0].symbol, request.symbol);
    }
}

#[test]
fn the_latest_tick_is_served() {
    let markets = Markets::new(&AppConfig::default());
    assert_eq!(
        failure(tick(&markets, "SOL-USDC".to_string())),
        (503, "No ticks generated yet for SOL/USDC".to_string())
    );
    assert_eq!(
        failure(tick(&markets, "XRP-USDC".to_string())),
        (404, "Symbol 'XRP/USDC' not found".to_string())
    );
    markets.get_mut(&"SOL/USDC".to_string()).unwrap().record_tick(
        double(150.0),
        tick_at("2024-06-15T10:30:00.000000Z", Decimal::new(2, 0)),
    );
    let served = success(tick(&markets, "SOL-USDC".to_string()));
    assert_eq!(served.amount, Decimal::new(2, 0));
    assert_eq!(served.order_id, "id");
}

#[test]
fn markets_of_their_own_are_served() {
    let (one, other) = (Markets::new(&AppConfig::default()), Markets::new(&AppConfig::default()));
    one.get_mut(&"SOL/USDC".to_string()).unwrap().record_tick(
        double(150.0),
        tick_at("2024-06-15T10:30:00.000000Z", Decimal::new(2, 0)),
    );
    let request = ohlcv_request("SOL-USDC".to_string(), query(None, None));
    assert_eq!(success(tick(&one, "SOL-USDC".to_string())).amount, Decimal::new(2, 0));
    assert_eq!(success(ohlcv(&one, &request, Vec::new()).unwrap()).len(), 1);
    assert_eq!(failure(tick(&other, "SOL-USDC".to_string())).0, 503);
    assert!(success(ohlcv(&other, &request, Vec::new()).unwrap()).is_empty());
}

#[test]
fn stored_candles_are_served_without_the_market() {
    let markets = Markets::new(&AppConfig::default());
    let request = ohlcv_request("SOL-USDC".to_string(), query(None, None));
    // The lock for writing would keep a lookup waiting.
    let held = markets.get_mut(&"SOL/USDC".to_string());
    assert_eq!(success(ohlcv(&markets, &request, vec![bar("t1")]).unwrap()).len(), 1);
    assert!(held.is_some());
}

#[test]
fn registries_of_their_own_are_served() {
    let (one, other) = (prometheus::Registry::new(), prometheus::Registry::new());
    let counter = prometheus::IntCounter::new("hft_ws_lagged_total", "Lags").unwrap();
    one.register(Box::new(counter)).unwrap();
    assert!(!success(prometheus_metrics(&one)).is_empty());
    assert!(success(prometheus_metrics(&other)).is_empty());
}

#[test]
fn ticks_are_answered_from_a_market() {
    let mut g = market();
    assert_eq!(failure(tick_reply("SOL/USDC", Some(&g))).0, 503);
    assert_eq!(failure(tick_reply("SOL/USDC", None)).0, 404);
    g.record_tick(double(1.0), tick_at("2024-06-15T10:30:00.000000Z", Decimal::new(3, 0)));
    assert_eq!(success(tick_reply("SOL/USDC", Some(&g))).amount, Decimal::new(3, 0));
}

#[test]
fn the_order_book_is_served() {
    let levels = [OrderBookLevel { price: 5, size: 6 }; 20];
    let snapshot = market().current_bbo(&levels, &levels, 9);
    let served = success(bbo("SOL/USDC", Some(snapshot)));
    assert_eq!(served.best_bid, 5);
    assert_eq!(served.spread, 9);
    assert_eq!(
        failure(bbo("XRP/USDC", None)),
        (404, "Symbol 'XRP/USDC' not found".to_string())
    );
}

fn query(minutes: Option<usize>, interval: Option<&str>) -> OhlcvQuery {
    OhlcvQuery { minutes, interval: interval.map(|i| i.to_string()) }
}

#[test]
fn requests_for_candles_are_filled_in() {
    let request = ohlcv_request("SOL-USDC".to_string(), query(None, None));
    assert_eq!(request.symbol, "SOL/USDC");
    assert_eq!(request.minutes, 60);
    assert_eq!(request.interval, "1m");
    for (asked, served) in [(0, 1), (1, 1), (59, 59), (10_080, 10_080), (10_081, 10_080)] {
        let request = ohlcv_request("SOL-USDC".to_string(), query(Some(asked), Some("5m")));
        assert_eq!(request.minutes, served);
        assert_eq!(request.interval, "5m");
    }
}

#[test]
fn candles_come_from_the_first_source_that_has_any() {
    let markets = Markets::new(&AppConfig::default());
    markets.get_mut(&"SOL/USDC".to_string()).unwrap().record_tick(
        double(150.0),
        tick_at("2024-06-15T10:30:10.000000Z", Decimal::new(2, 0)),
    );
    let request = ohlcv_request("SOL-USDC".to_string(), query(None, None));
    let served = success(ohlcv(&markets, &request, vec![bar("t1"), bar("t2")]).unwrap());
    assert_eq!(served.len(), 2);
    assert_eq!(served[0].candle_time, "t1");
    let served = success(ohlcv(&markets, &request, Vec::new()).unwrap());
    assert_eq!(served.len(), 1);
    assert_eq!(served[0].candle_time, "2024-06-15T10:30:00.000000Z");
    assert_eq!(served[0].volume, Decimal::new(2, 0));
    let request = ohlcv_request("XRP-USDC".to_string(), query(None, None));
    assert_eq!(
        failure(ohlcv(&markets, &request, Vec::new()).unwrap()),
        (404, "Symbol 'XRP/USDC' not found".to_string())
    );
    assert_eq!(success(ohlcv(&markets, &request, vec![bar("t1")]).unwrap()).len(), 1);
}

#[test]
fn candles_are_answered_from_a_market() {
    let mut g = market();
    let request = ohlcv_request("SOL-USDC".to_string(), query(Some(1), None));
    assert!(success(ohlcv_reply(&request, Vec::new(), Some(&g))).is_empty());
    g.record_tick(double(1.0), tick_at("2024-06-15T10:30:00.000000Z", Decimal::new(3, 0)));
    g.record_tick(double(1.0), tick_at("2024-06-15T10:31:00.000000Z", Decimal::new(4, 0)));
    let served = success(ohlcv_reply(&request, Vec::new(), Some(&g)));
    assert_eq!(served.len(), 1);
    assert_eq!(served[0].candle_time, "2024-06-15T10:31:00.000000Z");
    assert_eq!(failure(ohlcv_reply(&request, Vec::new(), None)).0, 404);
}

#[test]
fn candles_that_cannot_be_built_are_not_served() {
    let markets = Markets::new(&AppConfig::default());
    let largest = Decimal::from_i128_with_scale(0xFFFF_FFFF_FFFF_FFFF_FFFF_FFFF, 0);
    for _ in 0..2 {
        markets
            .get_mut(&"SOL/USDC".to_string())
            .unwrap()
            .tick_history
            .push_back(tick_at("2024-06-15T10:30:00.000000Z", largest));
    }
    let request = ohlcv_request("SOL-USDC".to_string(), query(None, None));
    assert!(ohlcv(&markets, &request, Vec::new()).is_none());
    assert!(ohlcv(&markets, &request, vec![bar("t1")]).is_some());
}

#[test]
fn metrics_are_served_as_text() {
    let registry = prometheus::Registry::new();
    let counter = prometheus::IntCounter::new("hft_ticks_total", "Ticks").unwrap();
    counter.inc_by(3);
    registry.register(Box::new(counter)).unwrap();
    let text = String::from_utf8(success(prometheus_metrics(&registry))).unwrap();
    assert_eq!(
        text,
        "# HELP hft_ticks_total Ticks\n# TYPE hft_ticks_total counter\nhft_ticks_total 3\n"
    );
}

/// A family with one metric of the given type.
fn family(name: &str, kind: MetricType) -> MetricFamily {
    let mut family = MetricFamily::default();
    family.set_name(name.to_string());
    family.set_field_type(kind);
    family.set_metric(vec![Metric::default()]);
    family
}

#[test]
fn families_are_written_in_order() {
    let families =
        vec![family("b", MetricType::COUNTER), family("a", MetricType::GAUGE)];
    let text = String::from_utf8(success(families_reply(&families))).unwrap();
    assert_eq!(text, "# TYPE b counter\nb 0\n# TYPE a gauge\na 0\n");
    assert!(success(families_reply(&Vec::new())).is_empty());
}

#[test]
fn families_without_a_text_form_are_reported() {
    let families = vec![
        family("a", MetricType::COUNTER),
        family("b", MetricType::UNTYPED),
    ];
    assert_eq!(
        failure(families_reply(&families)),
        (500, "Failed to encode metrics: MetricFamily has no type".to_string())
    );
    let (status, error) = failure(families_reply(&vec![family("", MetricType::COUNTER)]));
    assert_eq!(status, 500);
    assert!(error.starts_with("Failed to encode metrics: "));
    assert!(error.contains("MetricFamily has no name"));
}

/// A collector that reports a family of the type `UNTYPED`.
struct Untyped;

impl prometheus::core::Collector for Untyped {
    fn desc(&self) -> Vec<&prometheus::core::Desc> {
        Vec::new()
    }

    fn collect(&self) -> Vec<MetricFamily> {
        vec![family("untyped", MetricType::UNTYPED)]
    }
}

#[test]
fn registries_with_untyped_metrics_are_reported() {
    let registry = prometheus::Registry::new();
    registry.register(Box::new(Untyped)).unwrap();
    assert_eq!(
        failure(prometheus_metrics(&registry)),
        (500, "Failed to encode metrics: MetricFamily has no type".to_string())
    );
}

#[test]
fn failed_encodings_are_reported() {
    assert_eq!(
        failure(metrics_reply(Err("no room".to_string()))),
        (500, "Failed to encode metrics: no room".to_string())
    );
    assert_eq!(success(metrics_reply(Ok(vec![1, 2]))), vec![1, 2]);
}

#[test]
fn the_defaults_are_built_in() {
    let config = AppConfig::load(None, None);
    assert_eq!(config.port, 8080);
    assert_eq!(config.tick_interval_ms, 10);
    assert_eq!(config.db_flush_interval_secs, 1);
    assert_eq!(config.db_insert_buffer_size, 1_000);
    assert_eq!(config.tick_history_size, 1_200);
    assert_eq!(config.ws_broadcast_capacity, 128);
    assert_eq!(config.change_poll_interval_secs, 5);
    assert_eq!(config.ws_heartbeat_timeout_secs, 60);
    assert_eq!(config.ws_ping_interval_secs, 20);
    assert_eq!(config.rate_limit_per_second, 100);
    assert_eq!(config.rate_limit_burst, 50);
    assert_eq!(config.symbols.len(), 2);
    for (i, name, price, drift, volatility, spread) in [
        (0, "SOL/USDC", 150.0, 0.0001, 0.002, 0.01),
        (1, "BTC/USDC", 65_000.0, 0.0001, 0.001, 10.0),
    ] {
        let symbol = &config.symbols[i];
        assert_eq!(symbol.name, name);
        assert_eq!(symbol.initial_price, double(price));
        assert_eq!(symbol.drift, double(drift));
        assert_eq!(symbol.volatility, double(volatility));
        assert_eq!(symbol.spread, double(spread));
    }
    // A client is dropped once it lags more than half the default capacity.
    assert_eq!(MAX_LAG, config.ws_broadcast_capacity as u64 / 2);
}

#[test]
fn the_port_variable_overrides_the_file() {
    let mut file = AppConfig::default();
    file.port = 9000;
    file.tick_interval_ms = 7;
    let config = AppConfig::load(Some(file.clone()), None);
    assert_eq!(config.port, 9000);
    assert_eq!(config.tick_interval_ms, 7);
    for (text, port) in [
        ("3000", 3000),
        ("+80", 80),
        ("0", 0),
        ("00065535", 65535),
        ("65536", 9000),
        ("99999999999999999999", 9000),
        ("", 9000),
        ("+", 9000),
        ("-1", 9000),
        ("80 ", 9000),
        ("8o80", 9000),
        ("++1", 9000),
        ("\u{661}", 9000),
    ] {
        let config = AppConfig::load(Some(file.clone()), Some(text.to_string()));
        assert_eq!(config.port, port, "{:?}", text);
        assert_eq!(config.port, text.parse::<u16>().unwrap_or(9000));
    }
    assert_eq!(AppConfig::load(None, Some("81".to_string())).port, 81);
}

#[test]
fn nominal_throughput_follows_the_interval() {
    let mut config = AppConfig::default();
    for (interval, tps) in [(10, 100), (3, 333), (1, 1000), (1000, 1), (1001, 0), (0, u32::MAX)] {
        config.tick_interval_ms = interval;
        assert_eq!(config.nominal_tps(), tps);
        assert_eq!(config.nominal_tps(), (1000.0 / interval as f64) as u32);
    }
}
