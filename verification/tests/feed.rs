use hft_data_generator::ws::{
    Connection, FeedAction, FeedEvent, HftError, WsConfig, MAX_LAG, NANOS_PER_SEC,
};

fn seconds(n: u128) -> u128 {
    n * NANOS_PER_SEC
}

fn connection() -> Connection {
    Connection::open(&WsConfig::default(), seconds(100))
}

#[test]
fn connections_start_with_the_configured_times() {
    let c = connection();
    assert_eq!(c.heartbeat_timeout, seconds(60));
    assert_eq!(c.ping_interval, seconds(20));
    assert_eq!(c.last_heartbeat, seconds(100));
}

#[test]
fn heartbeats_are_checked_at_half_the_ping_interval() {
    let mut config = WsConfig::default();
    assert_eq!(config.check_interval_secs(), 10);
    config.ping_interval_secs = 11;
    assert_eq!(config.check_interval_secs(), 5);
    config.ping_interval_secs = 0;
    assert_eq!(config.check_interval_secs(), 5);
    config.ping_interval_secs = 61;
    assert_eq!(config.check_interval_secs(), 30);
}

#[test]
fn the_timer_waits_pings_and_closes() {
    let mut c = connection();
    assert!(matches!(c.step(FeedEvent::Timer { now: seconds(50) }), FeedAction::Wait));
    assert!(matches!(c.step(FeedEvent::Timer { now: seconds(120) }), FeedAction::Wait));
    assert!(matches!(c.step(FeedEvent::Timer { now: seconds(120) + 1 }), FeedAction::Ping));
    assert!(matches!(c.step(FeedEvent::Timer { now: seconds(160) }), FeedAction::Ping));
    assert!(matches!(c.step(FeedEvent::Timer { now: seconds(160) + 1 }), FeedAction::Close));
}

#[test]
fn a_silent_client_is_dropped() {
    let mut c = connection();
    for second in (110..=160).step_by(10) {
        let action = c.step(FeedEvent::Timer { now: seconds(second) });
        assert!(matches!(action, FeedAction::Wait | FeedAction::Ping));
        c.step(FeedEvent::OtherFrame);
        c.step(FeedEvent::Data("x".to_string()));
    }
    assert!(matches!(c.step(FeedEvent::Timer { now: seconds(170) }), FeedAction::Close));
}

#[test]
fn an_answering_client_is_kept() {
    let mut c = connection();
    assert!(matches!(c.step(FeedEvent::Pong { now: seconds(150) }), FeedAction::Wait));
    assert_eq!(c.last_heartbeat, seconds(150));
    assert!(matches!(c.step(FeedEvent::Timer { now: seconds(165) }), FeedAction::Wait));
    assert!(matches!(c.step(FeedEvent::Timer { now: seconds(210) }), FeedAction::Ping));
    assert!(matches!(c.step(FeedEvent::Timer { now: seconds(211) }), FeedAction::Close));
}

#[test]
fn frames_and_data_are_handled() {
    let mut c = connection();
    assert!(matches!(c.step(FeedEvent::CloseFrame), FeedAction::Stop));
    assert!(matches!(c.step(FeedEvent::OtherFrame), FeedAction::Wait));
    assert!(matches!(c.step(FeedEvent::ChannelClosed), FeedAction::Stop));
    assert!(matches!(c.step(FeedEvent::SendFailed), FeedAction::Stop));
    match c.step(FeedEvent::Data("{}".to_string())) {
        FeedAction::Send(text) => assert_eq!(text, "{}"),
        other => panic!("{:?}", other),
    }
    assert_eq!(c, connection());
}

#[test]
fn clients_that_lag_too_far_are_dropped() {
    let mut c = connection();
    assert_eq!(MAX_LAG, 64);
    assert!(matches!(c.step(FeedEvent::Lagged(1)), FeedAction::NoteLag));
    assert!(matches!(c.step(FeedEvent::Lagged(64)), FeedAction::NoteLag));
    assert!(matches!(c.step(FeedEvent::Lagged(65)), FeedAction::NoteLagAndClose));
}

#[test]
fn errors_have_a_status_and_a_text() {
    let error = HftError::SymbolNotFound("XRP/USDC".to_string());
    assert_eq!(error.status_code(), 404);
    assert_eq!(error.message(), "Symbol not found: XRP/USDC");
    assert_eq!(HftError::DbError.status_code(), 500);
    assert_eq!(HftError::DbError.message(), "ClickHouse connection failed");
}
