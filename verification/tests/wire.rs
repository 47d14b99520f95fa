use hft_data_generator::db::ch_datetime;
use hft_data_generator::db::ch_decimal;
use hft_data_generator::decimal::Decimal;
use hft_data_generator::generator::{MarketGenerator, PriceStep};
use hft_data_generator::models::Double;

#[test]
fn ch_decimal_round_trip() {
    // 123.45678901 represented as Decimal with scale 8
    let original = Decimal::new(12345678901_i64, 8);
    assert!(ch_decimal::can_serialize(&original));
    let as_i64 = ch_decimal::serialize(&original);
    let recovered = ch_decimal::deserialize(as_i64);
    assert_eq!(original, recovered);
}

#[test]
fn ch_datetime_round_trip() {
    let ts = "2024-06-15T10:30:00.000000Z";
    let micros = ch_datetime::serialize(ts);
    assert!(micros > 0);

    let recovered = ch_datetime::deserialize(micros);

    // Year-month-day and hour:minute must survive the round-trip
    assert_eq!(&ts[..16], &recovered[..16]);
}

#[test]
fn decimals_count_units_of_ten_to_the_minus_eight() {
    assert_eq!(ch_decimal::serialize(&Decimal::new(15, 1)), 150_000_000);
    assert_eq!(ch_decimal::serialize(&Decimal::new(-3, 0)), -300_000_000);
    assert_eq!(ch_decimal::serialize(&Decimal::new(12345678901, 8)), 12345678901);
    // Digits behind the eighth are dropped.
    assert_eq!(ch_decimal::serialize(&Decimal::new(19, 9)), 1);
    assert_eq!(ch_decimal::serialize(&Decimal::new(-19, 9)), -1);
    assert_eq!(ch_decimal::deserialize(-1).mantissa(), -1);
    assert_eq!(ch_decimal::deserialize(-1).scale(), 8);
}

#[test]
fn decimals_outside_the_wire_format_become_zero() {
    let large = Decimal::new(i64::MAX, 0);
    assert!(ch_decimal::can_serialize(&large));
    assert_eq!(ch_decimal::serialize(&large), 0);
}

#[test]
fn every_wire_value_survives() {
    for val in [0, 1, -1, i64::MAX, i64::MIN, 100_000_000] {
        let d = ch_decimal::deserialize(val);
        assert!(ch_decimal::can_serialize(&d));
        assert_eq!(ch_decimal::serialize(&d), val);
    }
}

#[test]
fn scaling_overflow_is_found() {
    let max: i128 = 0xFFFF_FFFF_FFFF_FFFF_FFFF_FFFF;
    let factor = rust_decimal::Decimal::new(100_000_000, 0);
    for (mantissa, scale) in [
        (max, 0),
        (max, 7),
        (max, 8),
        (max, 28),
        (-max, 3),
        (max / 100_000_000, 0),
        (max / 100_000_000 + 1, 0),
        (-(max / 10) - 1, 7),
        (-(max / 10), 7),
    ] {
        let d = Decimal::from_i128_with_scale(mantissa, scale);
        let product = rust_decimal::Decimal::from_i128_with_scale(mantissa, scale).checked_mul(factor);
        assert_eq!(ch_decimal::can_serialize(&d), product.is_some());
    }
}

#[test]
fn times_count_microseconds() {
    assert_eq!(ch_datetime::serialize("2024-06-15T10:30:00.000000Z"), 1_718_447_400_000_000);
    assert_eq!(ch_datetime::serialize("2024-06-15T12:30:00.000001+02:00"), 1_718_447_400_000_001);
    assert_eq!(ch_datetime::serialize("1969-12-31T23:59:59.999999Z"), -1);
}

#[test]
fn small_wire_times_are_seconds() {
    assert_eq!(ch_datetime::deserialize(1_718_447_400), "2024-06-15T10:30:00.000000Z");
    assert_eq!(ch_datetime::deserialize(1_718_447_400_000_001), "2024-06-15T10:30:00.000001Z");
    assert_eq!(ch_datetime::deserialize(9_999_999_999), "2286-11-20T17:46:39.000000Z");
    assert_eq!(ch_datetime::deserialize(10_000_000_000), "1970-01-01T02:46:40.000000Z");
    assert_eq!(ch_datetime::deserialize(0), "1970-01-01T00:00:00.000000Z");
    assert_eq!(ch_datetime::deserialize(-62_167_219_200), "0000-01-01T00:00:00.000000Z");
    assert!(!ch_datetime::is_micros(9_999_999_999));
    assert!(ch_datetime::is_micros(10_000_000_000));
}

#[test]
fn wire_times_survive() {
    for micros in [10_000_000_000, 1_718_447_400_000_001, 253_402_300_799_999_999] {
        assert_eq!(ch_datetime::serialize(&ch_datetime::deserialize(micros)), micros);
    }
    for seconds in [-62_167_219_200, -1, 0, 9_999_999_999] {
        let text = ch_datetime::deserialize(seconds);
        assert_eq!(ch_datetime::serialize(&text), seconds * 1_000_000);
    }
}

#[test]
fn unreadable_times_stand_for_the_present() {
    let before = chrono::Utc::now().timestamp_micros();
    let micros = ch_datetime::serialize("no time at all");
    let after = chrono::Utc::now().timestamp_micros();
    assert!(before <= micros && micros <= after);
    assert_eq!(ch_datetime::micros_or_now(None, 7), 7);
    assert_eq!(ch_datetime::micros_or_now(Some(3), 7), 3);
}

#[test]
fn times_beyond_the_calendar_stand_for_the_present() {
    for val in [i64::MAX, i64::MIN] {
        let before = chrono::Utc::now().timestamp_micros();
        let micros = ch_datetime::serialize(&ch_datetime::deserialize(val));
        assert!(micros >= before);
        assert!(micros <= chrono::Utc::now().timestamp_micros());
    }
}

#[test]
fn timestamps_of_ticks_survive_the_wire() {
    let mut gen = MarketGenerator::new(
        "SOL/USDC",
        Double::zero(),
        Double::zero(),
        Double::zero(),
        Double::zero(),
        10,
    );
    for _ in 0..10 {
        let step = PriceStep::new(Double::zero(), None, Decimal::new(1, 0), true).unwrap();
        let tick = gen.advance(step);
        let micros = ch_datetime::serialize(&tick.timestamp);
        assert_eq!(ch_datetime::deserialize(micros), tick.timestamp);
    }
}

#[test]
fn scaling_keeps_all_digits() {
    let max: i128 = 0xFFFF_FFFF_FFFF_FFFF_FFFF_FFFF;
    assert_eq!(ch_decimal::serialize(&Decimal::from_i128_with_scale(max, 28)), 792_281_625);
    assert_eq!(
        ch_decimal::serialize(&Decimal::from_i128_with_scale(max, 18)),
        7_922_816_251_426_433_759
    );
    assert_eq!(
        ch_decimal::serialize(&Decimal::from_i128_with_scale(-max, 18)),
        -7_922_816_251_426_433_759
    );
}

#[test]
fn seconds_and_microseconds_give_the_same_text() {
    for seconds in [10_000, 10_001, 1_718_447_400, 9_999_999_999] {
        let text = ch_datetime::deserialize(seconds);
        assert_eq!(text, ch_datetime::deserialize(seconds * 1_000_000));
        assert!(text.ends_with(".000000Z"));
        assert_eq!(text.len(), 27);
    }
    assert_eq!(ch_datetime::deserialize(1_718_447_400_000_000), "2024-06-15T10:30:00.000000Z");
}

#[test]
fn years_of_more_than_four_digits_have_a_sign() {
    // The first second of the year 10000.
    let text = ch_datetime::deserialize(253_402_300_800_000_000);
    assert_eq!(text, "+10000-01-01T00:00:00.000000Z");
    // The last second before the year 0000.
    assert_eq!(ch_datetime::deserialize(-62_167_219_201), "-0001-12-31T23:59:59.000000Z");
}
