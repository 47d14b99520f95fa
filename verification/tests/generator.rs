use hft_data_generator::decimal::Decimal;
use hft_data_generator::generator::{
    floored, minute_can_be_cut, MarketGenerator, PriceStep, PRICE_FLOOR,
};
use hft_data_generator::models::{
    BboSnapshot, Double, MarketTick, OhlcvBar, OrderBookLevel, FIXED_POINT_SCALE,
};
use rand::Rng;
use rand_distr::{Distribution, LogNormal, Normal};
use rust_decimal::prelude::FromPrimitive;

fn double(x: f64) -> Double {
    Double { bits: x.to_bits() }
}

fn decimal_of(x: f64) -> Option<Decimal> {
    rust_decimal::Decimal::from_f64(x)
        .map(|d| Decimal::from_i128_with_scale(d.mantissa(), d.scale()))
}

fn to_fixed_point(value: f64) -> u64 {
    (value * FIXED_POINT_SCALE as f64) as u64
}

fn make_generator() -> MarketGenerator {
    MarketGenerator::new(
        "SOL/USDC",
        double(150.0),
        double(0.0001),
        double(0.002),
        double(0.01),
        1_200,
    )
}

/// Draws one step of the random walk.
fn draw(gen: &MarketGenerator) -> PriceStep {
    let mut rng = rand::thread_rng();
    let dt: f64 = 0.01;
    let normal = Normal::new(0.0_f64, 1.0_f64).unwrap();
    let z: f64 = normal.sample(&mut rng);
    let current = f64::from_bits(gen.current_price().bits);
    let drift = f64::from_bits(gen.drift().bits);
    let volatility = f64::from_bits(gen.volatility().bits);
    let price = current + current * (drift * dt + volatility * dt.sqrt() * z);
    let amount = decimal_of(rng.gen_range(0.01..500.0)).unwrap();
    PriceStep::new(double(price), decimal_of(price), amount, rng.gen_bool(0.5)).unwrap()
}

fn advance(gen: &mut MarketGenerator) -> MarketTick {
    let step = draw(gen);
    gen.advance(step)
}

/// Builds the order book around the current price.
fn current_bbo(gen: &MarketGenerator) -> BboSnapshot {
    let mut rng = rand::thread_rng();
    let price = f64::from_bits(gen.current_price().bits);
    let spread = f64::from_bits(gen.spread().bits);
    let size_dist = LogNormal::new(4.0_f64, 1.2_f64).unwrap();
    let tick_size = spread / 20.0;
    let mut bids = [OrderBookLevel { price: 0, size: 0 }; 20];
    let mut asks = [OrderBookLevel { price: 0, size: 0 }; 20];
    let mut offset = 0.0_f64;
    for i in 0..20 {
        offset += tick_size * 1.02_f64.powi(i as i32);
        bids[i] = OrderBookLevel {
            price: to_fixed_point((price - spread / 2.0 - offset).max(0.01)),
            size: to_fixed_point(size_dist.sample(&mut rng)),
        };
        asks[i] = OrderBookLevel {
            price: to_fixed_point(price + spread / 2.0 + offset),
            size: to_fixed_point(size_dist.sample(&mut rng)),
        };
    }
    gen.current_bbo(&bids, &asks, to_fixed_point(spread))
}

#[test]
fn advance_price_stays_positive() {
    let mut gen = make_generator();
    for _ in 0..10_000 {
        let tick = advance(&mut gen);
        assert!(
            tick.price > Decimal::zero(),
            "price went non-positive: {:?}",
            tick.price
        );
    }
}

#[test]
fn bbo_best_ask_greater_than_best_bid() {
    let gen = make_generator();
    let bbo = current_bbo(&gen);
    assert!(
        bbo.best_ask > bbo.best_bid,
        "best_ask {} must be > best_bid {}",
        bbo.best_ask,
        bbo.best_bid
    );
}

#[test]
fn bbo_has_20_levels() {
    let gen = make_generator();
    let bbo = current_bbo(&gen);
    assert_eq!(bbo.bids.len(), 20);
    assert_eq!(bbo.asks.len(), 20);
}

#[test]
fn build_ohlcv_limits_candles() {
    let mut gen = make_generator();
    for _ in 0..200 {
        advance(&mut gen);
    }
    // build_ohlcv(1) must return at most 1 candle
    let candles = gen.build_ohlcv(1);
    assert!(candles.len() <= 1, "expected at most 1 candle, got {}", candles.len());
}

#[test]
fn tick_history_respects_max() {
    let mut gen = MarketGenerator::new(
        "TEST/USD",
        double(100.0),
        double(0.0),
        double(0.001),
        double(0.01),
        10,
    );
    for _ in 0..50 {
        advance(&mut gen);
    }
    assert_eq!(gen.tick_history.len(), 10);
}

#[test]
fn ohlcv_high_gte_low() {
    let mut gen = make_generator();
    for _ in 0..300 {
        advance(&mut gen);
    }
    for bar in gen.build_ohlcv(10) {
        assert!(
            bar.high >= bar.low,
            "high {:?} < low {:?} in candle {}",
            bar.high,
            bar.low,
            bar.candle_time
        );
    }
}

fn tick_at(timestamp: &str, price: Decimal, amount: Decimal) -> MarketTick {
    MarketTick {
        symbol: "SOL/USDC".to_string(),
        side: "buy".to_string(),
        price,
        amount,
        timestamp: timestamp.to_string(),
        order_id: "id".to_string(),
        trader_id: 7,
    }
}

/// A market that has seen five ticks in three minutes.
fn three_minutes() -> (MarketGenerator, Vec<OhlcvBar>) {
    let mut gen = make_generator();
    let mut closed = Vec::new();
    let ticks = [
        ("2024-06-15T10:30:01.000000Z", 15000, 150),
        ("2024-06-15T10:30:59.999999Z", 15100, 225),
        ("2024-06-15T10:31:00.000000Z", 14900, 100),
        ("2024-06-15T10:31:30.000000Z", 14800, 50),
        ("2024-06-15T10:33:00.000000Z", 14850, 1),
    ];
    for (timestamp, price, amount) in ticks {
        gen.record_tick(
            double(price as f64 / 100.0),
            tick_at(timestamp, Decimal::new(price, 2), Decimal::new(amount, 2)),
        );
        if let Some(bar) = gen.check_candle_closure() {
            closed.push(bar);
        }
    }
    (gen, closed)
}

fn assert_bar(bar: &OhlcvBar, time: &str, prices: [i64; 4], volume: i64) {
    assert_eq!(bar.symbol, "SOL/USDC");
    assert_eq!(bar.candle_time, time);
    assert_eq!(bar.open, Decimal::new(prices[0], 2));
    assert_eq!(bar.high, Decimal::new(prices[1], 2));
    assert_eq!(bar.low, Decimal::new(prices[2], 2));
    assert_eq!(bar.close, Decimal::new(prices[3], 2));
    assert_eq!(bar.volume, Decimal::new(volume, 2));
}

#[test]
fn candles_follow_the_minutes() {
    let (gen, _) = three_minutes();
    let candles = gen.build_ohlcv(60);
    assert_eq!(candles.len(), 3);
    assert_bar(&candles[0], "2024-06-15T10:30:00.000000Z", [15000, 15100, 15000, 15100], 375);
    assert_bar(&candles[1], "2024-06-15T10:31:00.000000Z", [14900, 14900, 14800, 14800], 150);
    assert_bar(&candles[2], "2024-06-15T10:33:00.000000Z", [14850, 14850, 14850, 14850], 1);
}

#[test]
fn only_the_latest_candles_are_given() {
    let (gen, _) = three_minutes();
    let candles = gen.build_ohlcv(2);
    assert_eq!(candles.len(), 2);
    assert_eq!(candles[0].candle_time, "2024-06-15T10:31:00.000000Z");
    assert_eq!(candles[1].candle_time, "2024-06-15T10:33:00.000000Z");
    assert!(gen.build_ohlcv(0).is_empty());
    assert_eq!(gen.checked_build_ohlcv(1).unwrap().len(), 1);
}

#[test]
fn no_ticks_no_candles() {
    let mut gen = make_generator();
    assert!(gen.build_ohlcv(60).is_empty());
    assert!(gen.latest_tick().is_none());
    assert!(gen.check_candle_closure().is_none());
    let bbo = current_bbo(&gen);
    let message = gen.to_ws_message(double(0.5), 100, None, bbo);
    assert!(message.tick.is_none());
    assert!(message.ohlc.is_none());
    assert_eq!(message.volume, double(0.0));
    assert_eq!(message.price, double(150.0));
}

#[test]
fn completed_candles_are_reported_once() {
    let (mut gen, closed) = three_minutes();
    assert_eq!(closed.len(), 2);
    assert_bar(&closed[0], "2024-06-15T10:30:00.000000Z", [15000, 15100, 15000, 15100], 375);
    assert_bar(&closed[1], "2024-06-15T10:31:00.000000Z", [14900, 14900, 14800, 14800], 150);
    assert!(gen.check_candle_closure().is_none());
}

#[test]
fn candle_in_progress_is_the_last_one() {
    let (gen, _) = three_minutes();
    let bbo = current_bbo(&gen);
    let message = gen.to_ws_message(double(0.25), 100, Some(double(0.01)), bbo);
    let bar = message.ohlc.unwrap();
    assert_bar(&bar, "2024-06-15T10:33:00.000000Z", [14850, 14850, 14850, 14850], 1);
    assert_eq!(message.price, double(148.5));
    assert_eq!(message.volume, double(0.01));
    assert_eq!(message.symbol, "SOL/USDC");
    assert_eq!(message.tick.unwrap().timestamp, "2024-06-15T10:33:00.000000Z");
    assert_eq!(message.telemetry.latency, double(0.25));
    assert_eq!(message.telemetry.throughput_tps, 100);
    assert_eq!(message.telemetry.error_rate, double(0.0));
    assert_eq!(message.bbo.unwrap().bids.len(), 20);
}

#[test]
fn history_keeps_the_latest_ticks_in_order() {
    let mut gen = MarketGenerator::new(
        "SOL/USDC",
        double(150.0),
        double(0.0),
        double(0.0),
        double(0.01),
        2,
    );
    for second in 0..5 {
        let timestamp = format!("2024-06-15T10:30:0{}.000000Z", second);
        gen.record_tick(double(1.0), tick_at(&timestamp, Decimal::new(second, 0), Decimal::zero()));
    }
    let seconds: Vec<i128> = gen.tick_history.iter().map(|t| t.price.mantissa()).collect();
    assert_eq!(seconds, vec![3, 4]);
    assert_eq!(gen.latest_tick().unwrap().price, Decimal::new(4, 0));
}

#[test]
fn a_history_without_room_keeps_no_tick() {
    let mut gen = MarketGenerator::new(
        "T/U",
        double(100.0),
        double(0.0),
        double(0.001),
        double(0.01),
        0,
    );
    advance(&mut gen);
    assert_eq!(gen.tick_history.len(), 0);
    advance(&mut gen);
    assert_eq!(gen.tick_history.len(), 0);
    assert!(gen.latest_tick().is_none());
    assert!(gen.check_candle_closure().is_none());
    assert!(gen.build_ohlcv(60).is_empty());
    let bbo = current_bbo(&gen);
    assert!(gen.to_ws_message(double(0.0), 1, None, bbo).ohlc.is_some());
}

#[test]
fn short_timestamps_stand_for_themselves() {
    let mut gen = make_generator();
    gen.record_tick(double(1.0), tick_at("10:30", Decimal::new(1, 0), Decimal::new(1, 0)));
    gen.record_tick(double(2.0), tick_at("10:30", Decimal::new(2, 0), Decimal::new(1, 0)));
    gen.record_tick(double(2.0), tick_at("10:31", Decimal::new(2, 0), Decimal::new(1, 0)));
    let candles = gen.build_ohlcv(60);
    assert_eq!(candles.len(), 2);
    assert_eq!(candles[0].candle_time, "10:30");
    assert_eq!(candles[0].volume, Decimal::new(2, 0));
    assert_eq!(candles[1].candle_time, "10:31");
    assert!(gen.check_candle_closure().is_none());
}

#[test]
fn a_minute_is_cut_only_between_characters() {
    assert!(minute_can_be_cut("2024-06-15T10:30:00.000000Z"));
    assert!(minute_can_be_cut("short"));
    // The sixteenth byte is the first of two.
    assert!(!minute_can_be_cut("2024-06-15T10:3\u{e9}"));
    assert!(minute_can_be_cut("2024-06-15T10:\u{e9}0"));
}

fn step_with(quote: Option<Decimal>, amount: Decimal, buy: bool) -> PriceStep {
    PriceStep::new(double(150.0), quote, amount, buy).unwrap()
}

#[test]
fn ticks_are_rounded_half_to_even() {
    let mut gen = make_generator();
    let tick = gen.advance(step_with(
        Some(Decimal::new(123_456_789_125, 9)),
        Decimal::new(1_000_000_015, 9),
        true,
    ));
    assert_eq!(tick.price, Decimal::new(12_345_678_912, 8));
    assert_eq!(tick.price.scale(), 8);
    assert_eq!(tick.amount, Decimal::new(100_000_002, 8));
    assert_eq!(tick.side, "buy");
    let tick = gen.advance(step_with(
        Some(Decimal::new(123_456_789_135, 9)),
        Decimal::new(15, 1),
        false,
    ));
    assert_eq!(tick.price, Decimal::new(12_345_678_914, 8));
    assert_eq!(tick.amount.mantissa(), 15);
    assert_eq!(tick.amount.scale(), 1);
    assert_eq!(tick.side, "sell");
}

#[test]
fn a_price_without_a_decimal_counts_as_zero() {
    let mut gen = make_generator();
    let step = PriceStep::new(double(f64::INFINITY), None, Decimal::new(1, 0), true).unwrap();
    let tick = gen.advance(step);
    assert_eq!(tick.price, Decimal::zero());
    assert_eq!(gen.current_price(), double(f64::INFINITY));
}

#[test]
fn amounts_lie_between_a_cent_and_five_hundred() {
    let new = |amount| PriceStep::new(double(1.0), Some(Decimal::new(1, 0)), amount, true);
    assert!(new(Decimal::new(1, 2)).is_some());
    assert!(new(Decimal::new(500, 0)).is_some());
    assert!(new(Decimal::new(9_999, 6)).is_none());
    assert!(new(Decimal::new(500_000_001, 6)).is_none());
    assert!(new(Decimal::zero()).is_none());
    let mut gen = make_generator();
    for _ in 0..1_000 {
        let tick = advance(&mut gen);
        assert!(tick.amount >= Decimal::new(1, 2) && tick.amount <= Decimal::new(500, 0));
        assert!(tick.amount.scale() <= 8);
        assert!(tick.price.scale() <= 8);
    }
    let tick = gen.advance(new(Decimal::new(499_999_999_999, 9)).unwrap());
    assert_eq!(tick.amount, Decimal::new(500, 0));
}

#[test]
fn a_decimal_below_the_floor_needs_a_price_below_it() {
    let low = Some(Decimal::new(9, 3));
    let amount = Decimal::new(1, 0);
    assert!(PriceStep::new(double(1.0), low, amount, true).is_none());
    assert!(PriceStep::new(double(0.009), low, amount, true).is_some());
}

#[test]
fn ticks_carry_time_order_and_trader() {
    let mut gen = make_generator();
    let tick = advance(&mut gen);
    assert_eq!(tick.symbol, "SOL/USDC");
    assert_eq!(tick.timestamp.len(), 27);
    assert_eq!(&tick.timestamp[10..11], "T");
    assert_eq!(&tick.timestamp[19..20], ".");
    assert!(tick.timestamp.ends_with('Z'));
    assert!(chrono::DateTime::parse_from_rfc3339(&tick.timestamp).is_ok());
    let id = uuid::Uuid::parse_str(&tick.order_id).unwrap();
    assert_eq!(id.get_version_num(), 4);
    assert_eq!(id.to_string(), tick.order_id);
    assert!((1..=9999).contains(&tick.trader_id));
    assert_ne!(tick.order_id, advance(&mut gen).order_id);
}

fn largest() -> Decimal {
    Decimal::from_i128_with_scale(0xFFFF_FFFF_FFFF_FFFF_FFFF_FFFF, 0)
}

#[test]
fn volumes_that_overflow_are_found() {
    let mut gen = make_generator();
    let huge = tick_at("2024-06-15T10:30:01.000000Z", Decimal::new(1, 0), largest());
    assert!(gen.can_take(&huge));
    gen.record_tick(double(1.0), huge.clone());
    assert!(gen.can_build_ohlcv());
    assert!(!gen.can_take(&huge));
    let tiny = tick_at("2024-06-15T10:30:02.000000Z", Decimal::new(1, 0), Decimal::new(4, 1));
    assert!(gen.can_take(&tiny));
    let half = tick_at("2024-06-15T10:30:02.000000Z", Decimal::new(1, 0), Decimal::new(5, 1));
    assert!(!gen.can_take(&half));
    let later = tick_at("2024-06-15T10:31:02.000000Z", Decimal::new(1, 0), largest());
    assert!(gen.can_take(&later));
    gen.tick_history.push_back(huge);
    assert!(!gen.can_build_ohlcv());
    assert!(gen.checked_build_ohlcv(60).is_none());
}

#[test]
fn an_overflowing_step_changes_nothing() {
    // A minute may end between the steps, so one of three tries has to succeed.
    for _ in 0..3 {
        let mut gen = make_generator();
        let tick = gen.advance(step_with(Some(Decimal::new(1, 0)), Decimal::new(1, 0), true));
        let rest = Decimal::from_i128_with_scale(largest().mantissa() - 1, 0);
        gen.record_tick(double(150.0), tick_at(&tick.timestamp, Decimal::new(1, 0), rest));
        let step =
            PriceStep::new(double(7.0), Some(Decimal::new(7, 0)), Decimal::new(500, 0), true);
        if gen.checked_advance(step.unwrap()).is_none() {
            assert_eq!(gen.tick_history.len(), 2);
            assert_eq!(gen.current_price(), double(150.0));
            return;
        }
    }
    panic!("no overflow was found");
}

#[test]
fn a_fitting_step_is_taken() {
    let mut gen = make_generator();
    let step = step_with(Some(Decimal::new(151, 0)), Decimal::new(2, 0), true);
    let tick = gen.checked_advance(step).unwrap();
    assert_eq!(tick.price, Decimal::new(151, 0));
    assert_eq!(gen.latest_tick().unwrap().order_id, tick.order_id);
}

#[test]
fn prices_do_not_fall_below_the_floor() {
    assert_eq!(PRICE_FLOOR, 0.01_f64.to_bits());
    for x in [0.0, -0.0, 0.009999, -1.0, f64::NEG_INFINITY, f64::MIN_POSITIVE] {
        assert_eq!(floored(double(x)), double(0.01));
    }
    for x in [0.01, 0.010001, 150.0, f64::INFINITY] {
        assert_eq!(floored(double(x)), double(x));
    }
    assert_eq!(floored(double(f64::NAN)), double(f64::NAN));
    assert_eq!(floored(double(-f64::NAN)), double(-f64::NAN));
}

#[test]
fn a_price_at_the_floor_stays_there_in_the_tick() {
    let mut gen = make_generator();
    let amount = Decimal::new(1, 0);
    let tick = gen.advance(PriceStep::new(double(0.01), decimal_of(0.01), amount, true).unwrap());
    assert_eq!(tick.price, Decimal::new(1, 2));
    let quote = Some(Decimal::new(10_000_000_001, 12));
    let tick = gen.advance(PriceStep::new(double(0.010000000001), quote, amount, true).unwrap());
    assert_eq!(tick.price, Decimal::new(1, 2));
}

#[test]
fn a_step_below_the_floor_is_raised_to_it() {
    let floor = decimal_of(0.01).unwrap();
    assert_eq!((floor.mantissa(), floor.scale()), (1, 2));
    for price in [0.0099, 0.0, -5.0] {
        let mut gen = make_generator();
        let step = PriceStep::new(double(price), decimal_of(price), Decimal::new(1, 0), true);
        let tick = gen.advance(step.unwrap());
        assert_eq!((tick.price.mantissa(), tick.price.scale()), (1, 2));
        assert_eq!(gen.current_price(), double(0.01));
        let step = PriceStep::new(double(price), decimal_of(price), Decimal::new(1, 0), true);
        assert_eq!(gen.checked_advance(step.unwrap()).unwrap().price, Decimal::new(1, 2));
        assert_eq!(gen.current_price(), double(0.01));
    }
}

#[test]
fn the_public_fields_show_the_state() {
    let mut gen = make_generator();
    advance(&mut gen);
    gen.update_changes(Some(double(1.0)), None);
    assert_eq!(gen.symbol(), &gen.symbol);
    assert_eq!(gen.history().len(), gen.tick_history.len());
    assert_eq!(gen.changes(), (gen.change_1h, gen.change_24h));
}

#[test]
fn snapshots_show_the_levels_best_first() {
    let gen = make_generator();
    let mut bids = [OrderBookLevel { price: 0, size: 0 }; 20];
    let mut asks = bids;
    for i in 0..20_u64 {
        bids[i as usize] = OrderBookLevel { price: 100 - i, size: 1000 + i };
        asks[i as usize] = OrderBookLevel { price: 101 + i, size: 2000 + i };
    }
    let bbo = gen.bbo_at(&bids, &asks, 1, "2024-06-15T10:30:00.000000Z".to_string());
    assert_eq!(bbo.symbol, "SOL/USDC");
    assert_eq!((bbo.best_bid, bbo.bid_size), (100, 1000));
    assert_eq!((bbo.best_ask, bbo.ask_size), (101, 2000));
    assert_eq!(bbo.spread, 1);
    assert_eq!(bbo.bids, bids.to_vec());
    assert_eq!(bbo.asks, asks.to_vec());
    assert_eq!(bbo.timestamp, "2024-06-15T10:30:00.000000Z");
    assert_eq!(gen.current_bbo(&bids, &asks, 1).timestamp.len(), 27);
}

#[test]
fn unmeasured_changes_keep_their_value() {
    let mut gen = make_generator();
    gen.update_changes(Some(double(1.5)), None);
    assert_eq!(gen.change_1h, Some(double(1.5)));
    assert_eq!(gen.change_24h, None);
    gen.update_changes(None, Some(double(-2.0)));
    assert_eq!(gen.change_1h, Some(double(1.5)));
    assert_eq!(gen.change_24h, Some(double(-2.0)));
    let bbo = current_bbo(&gen);
    let message = gen.to_ws_message(double(0.0), 1, None, bbo);
    assert_eq!(message.change_1h, Some(double(1.5)));
    assert_eq!(message.change_24h, Some(double(-2.0)));
}

#[test]
fn volumes_of_different_scales_add_up() {
    let mut gen = make_generator();
    for amount in [Decimal::new(1, 8), Decimal::new(3, 0), Decimal::new(25, 2)] {
        gen.record_tick(
            double(1.0),
            tick_at("2024-06-15T10:30:01.000000Z", Decimal::new(1, 0), amount),
        );
    }
    let candles = gen.build_ohlcv(60);
    assert_eq!(candles[0].volume, Decimal::new(325_000_001, 8));
}

/// Whether a candle with one volume can take in another.
fn can_add(volume: Decimal, amount: Decimal) -> bool {
    let mut gen = make_generator();
    gen.record_tick(
        double(1.0),
        tick_at("2024-06-15T10:30:01.000000Z", Decimal::new(1, 0), volume),
    );
    gen.can_take(&tick_at("2024-06-15T10:30:02.000000Z", Decimal::new(1, 0), amount))
}

#[test]
fn sums_overflow_from_one_half_above_the_largest_decimal() {
    let max: i128 = 0xFFFF_FFFF_FFFF_FFFF_FFFF_FFFF;
    let half: i128 = 5_000_000_000_000_000_000_000_000_000;
    let tail = |mantissa: i128| Decimal::from_i128_with_scale(mantissa, 28);
    assert!(can_add(largest(), tail(half - 1)));
    assert!(!can_add(largest(), tail(half)));
    assert!(!can_add(largest(), tail(half + 1)));
    assert!(can_add(largest(), tail(-half)));
    let lowest = Decimal::from_i128_with_scale(-max, 0);
    assert!(can_add(lowest, tail(1 - half)));
    assert!(!can_add(lowest, tail(-half)));
    assert!(can_add(lowest, largest()));
    // A tenth of the largest decimal and nine tenths of it.
    let tenth = Decimal::from_i128_with_scale(max, 1);
    assert!(!can_add(tenth, Decimal::from_i128_with_scale(max - max / 10, 0)));
    assert!(can_add(tenth, Decimal::from_i128_with_scale(max - max / 10 - 1, 0)));
    assert!(!can_add(Decimal::from_i128_with_scale(max - max / 10, 0), tenth));
    assert!(can_add(Decimal::from_i128_with_scale(max - max / 10 - 1, 0), tenth));
}

#[test]
fn drawn_volumes_are_exact() {
    let mut gen = make_generator();
    let mut sum: i128 = 0;
    for _ in 0..1_000 {
        let amount = advance(&mut gen).amount;
        sum += amount.mantissa() * 10_i128.pow(8 - amount.scale());
    }
    assert!(gen.can_build_ohlcv());
    let volumes: i128 = gen
        .build_ohlcv(60)
        .iter()
        .map(|bar| bar.volume.mantissa() * 10_i128.pow(8 - bar.volume.scale()))
        .sum();
    assert_eq!(volumes, sum);
}
