use vn30::auth::{AuthMethod, Authenticator, DefaultAuthenticator};
use vn30::dedup::EventDeduplicator;
use vn30::errors::MarketDataError;
use vn30::health::{status_for, HealthMonitor, HealthStatus};
use vn30::ieee::Ieee64;
use vn30::market::{MarketEvent, Quote, Trade};
use vn30::parser::{ExchangeErrorEvent, HeartbeatEvent, MarketDataParser, MarketMessage, QuoteEvent, TradeEvent};
use vn30::sequencer::{EventSequencer, PushResult};
use vn30::session::{pong_message, ConnectStep, ReconnectLoop, SessionAction, SessionEvent};
use vn30::stale::{StaleDataDetector, SymbolLiveness};
use vn30::subscription::SubscriptionManager;
use vn30::symbol::Instrument;
use vn30::symbol_mapper::SymbolMapper;
use vn30::timestamp::{MarketTimestamp, MonoInstant, TimeSpan};
use vn30::websocket::{ConnectionState, RawMarketMessage, WebSocketClient};

fn f(x: f64) -> Ieee64 {
    Ieee64::from_bits(x.to_bits())
}

fn s(x: &str) -> String {
    x.to_string()
}

fn make_ts(secs: i64) -> MarketTimestamp {
    MarketTimestamp::from_epoch_secs(secs).unwrap()
}

// --- authentication ---

#[test]
fn test_none_auth_returns_none() {
    let auth = DefaultAuthenticator::new(AuthMethod::NoAuth);
    let result = auth.generate_auth_message().unwrap();
    assert_eq!(result, None);
}

#[test]
fn test_api_key_valid_generates_json() {
    let auth = DefaultAuthenticator::new(AuthMethod::ApiKey { api_key: s("my_api_key"), secret_key: s("my_secret_key") });
    let result = auth.generate_auth_message().unwrap();
    assert!(result.is_some());
    let payload: serde_json::Value = serde_json::from_str(&result.unwrap()).unwrap();
    assert_eq!(payload["type"], "auth");
    assert_eq!(payload["api_key"], "my_api_key");
    assert_eq!(payload["secret_key"], "my_secret_key");
}

#[test]
fn api_key_message_is_compact_and_escaped() {
    let auth = DefaultAuthenticator::new(AuthMethod::ApiKey { api_key: s("k\"1"), secret_key: s("s\\2\n") });
    let msg = auth.generate_auth_message().unwrap().unwrap();
    assert_eq!(msg, "{\"api_key\":\"k\\\"1\",\"secret_key\":\"s\\\\2\\n\",\"type\":\"auth\"}");
}

#[test]
fn test_api_key_empty_or_whitespace_fails() {
    let empty_key = DefaultAuthenticator::new(AuthMethod::ApiKey { api_key: s("   "), secret_key: s("secret") });
    assert!(empty_key.generate_auth_message().is_err());
    let empty_secret = DefaultAuthenticator::new(AuthMethod::ApiKey { api_key: s("key"), secret_key: s("") });
    assert!(empty_secret.generate_auth_message().is_err());
}

#[test]
fn test_bearer_token_valid_generates_json() {
    let auth = DefaultAuthenticator::new(AuthMethod::BearerToken(s("jwt_token_123")));
    let result = auth.generate_auth_message().unwrap();
    assert!(result.is_some());
    let payload: serde_json::Value = serde_json::from_str(&result.unwrap()).unwrap();
    assert_eq!(payload["type"], "auth");
    assert_eq!(payload["token"], "jwt_token_123");
}

#[test]
fn test_bearer_token_empty_or_whitespace_fails() {
    let empty_token = DefaultAuthenticator::new(AuthMethod::BearerToken(s("   ")));
    assert!(empty_token.generate_auth_message().is_err());
    let blank_token = DefaultAuthenticator::new(AuthMethod::BearerToken(s("")));
    assert!(matches!(blank_token.generate_auth_message(), Err(MarketDataError::AuthenticationError(m)) if m == "Bearer token is required"));
}

#[test]
fn test_verify_auth_response_success() {
    let auth = DefaultAuthenticator::new(AuthMethod::NoAuth);
    let response = r#"{"status": "ok", "message": "Authenticated"}"#;
    let result = auth.verify_auth_response(response).unwrap();
    assert!(result);
}

#[test]
fn test_verify_auth_response_error_with_server_message() {
    let auth = DefaultAuthenticator::new(AuthMethod::NoAuth);
    let response = r#"{"status": "error", "message": "Invalid API key"}"#;
    let err = auth.verify_auth_response(response).unwrap_err();
    match err {
        MarketDataError::AuthenticationError(msg) => assert_eq!(msg, "Invalid API key"),
        other => panic!("Expected AuthenticationError, got: {:?}", other),
    }
}

#[test]
fn test_verify_auth_response_error_fallback_message() {
    let auth = DefaultAuthenticator::new(AuthMethod::NoAuth);
    let response = r#"{"status": "error"}"#;
    let err = auth.verify_auth_response(response).unwrap_err();
    match err {
        MarketDataError::AuthenticationError(msg) => assert_eq!(msg, "Unknown error"),
        other => panic!("Expected AuthenticationError, got: {:?}", other),
    }
}

#[test]
fn test_verify_auth_response_invalid_json_fails() {
    let auth = DefaultAuthenticator::new(AuthMethod::NoAuth);
    let err = auth.verify_auth_response("invalid json payload").unwrap_err();
    assert!(matches!(err, MarketDataError::AuthenticationError(m) if m.starts_with("Failed to parse authentication response: ")));
}

#[test]
fn auth_status_must_be_the_string_ok() {
    let auth = DefaultAuthenticator::new(AuthMethod::NoAuth);
    assert!(auth.verify_auth_response(r#"{"status": "OK"}"#).is_err());
    assert!(auth.verify_auth_response(r#"{"status": true, "message": 5}"#).is_err());
    assert!(auth.verify_auth_response(r#"[1, 2]"#).is_err());
}

// --- de-duplication ---

fn make_sample_quote(symbol: &str, bid_price: f64, ask_price: f64, secs: i64) -> Quote {
    Quote::new(symbol.to_string(), f(bid_price), f(100.0), f(ask_price), f(200.0), make_ts(secs)).expect("valid")
}

#[test]
fn test_zero_capacity_fallback_to_default() {
    let dedup = EventDeduplicator::new(0, false);
    assert_eq!(dedup.capacity(), 10_000);
    assert!(!dedup.dedup_trades());
    assert_eq!(dedup.total_received(), 0);
    assert_eq!(dedup.dropped_quotes(), 0);
    assert_eq!(dedup.dropped_trades(), 0);
}

#[test]
fn test_quote_duplicate_detected() {
    let mut dedup = EventDeduplicator::new(100, false);
    let event = MarketEvent::Quote(make_sample_quote("HPG", 28000.0, 28100.0, 1726000000));
    assert!(!dedup.is_duplicate(&event));
    assert_eq!(dedup.total_received(), 1);
    assert_eq!(dedup.dropped_quotes(), 0);
    assert!(dedup.is_duplicate(&event));
    assert_eq!(dedup.total_received(), 2);
    assert_eq!(dedup.dropped_quotes(), 1);
}

#[test]
fn test_quote_different_fields_not_duplicate() {
    let mut dedup = EventDeduplicator::new(100, false);
    let q1 = MarketEvent::Quote(make_sample_quote("HPG", 28000.0, 28100.0, 1726000000));
    let q2 = MarketEvent::Quote(make_sample_quote("HPG", 28050.0, 28100.0, 1726000000));
    let q3 = MarketEvent::Quote(make_sample_quote("HPG", 28000.0, 28100.0, 1726000001));
    let q4 = MarketEvent::Quote(make_sample_quote("VNM", 28000.0, 28100.0, 1726000000));
    assert!(!dedup.is_duplicate(&q1));
    assert!(!dedup.is_duplicate(&q2));
    assert!(!dedup.is_duplicate(&q3));
    assert!(!dedup.is_duplicate(&q4));
    assert_eq!(dedup.total_received(), 4);
    assert_eq!(dedup.dropped_quotes(), 0);
}

#[test]
fn test_capacity_eviction_lru_fifo() {
    let mut dedup = EventDeduplicator::new(2, false);
    let q1 = MarketEvent::Quote(make_sample_quote("HPG", 28000.0, 28100.0, 1726000001));
    let q2 = MarketEvent::Quote(make_sample_quote("HPG", 28000.0, 28100.0, 1726000002));
    let q3 = MarketEvent::Quote(make_sample_quote("HPG", 28000.0, 28100.0, 1726000003));
    assert!(!dedup.is_duplicate(&q1));
    assert!(!dedup.is_duplicate(&q2));
    assert!(!dedup.is_duplicate(&q3));
    assert!(dedup.is_duplicate(&q3));
    assert!(!dedup.is_duplicate(&q1));
}

#[test]
fn test_trade_never_duplicated() {
    let mut dedup = EventDeduplicator::new(100, false);
    let trade = Trade::new(s("HPG"), f(28000.0), f(500.0), make_ts(1726000000)).expect("valid");
    let event = MarketEvent::Trade(trade);
    assert!(!dedup.is_duplicate(&event));
    assert!(!dedup.is_duplicate(&event));
    assert_eq!(dedup.total_received(), 2);
    assert_eq!(dedup.dropped_trades(), 0);
}

#[test]
fn test_fingerprint_deterministic() {
    let q1 = make_sample_quote("HPG", 28000.0, 28100.0, 1726000000);
    let q2 = make_sample_quote("HPG", 28000.0, 28100.0, 1726000000);
    assert_eq!(EventDeduplicator::fingerprint(&q1), EventDeduplicator::fingerprint(&q2));
}

#[test]
fn test_qa_dedup_trades_flag_completely_ignored() {
    let mut dedup = EventDeduplicator::new(100, true);
    assert!(dedup.dedup_trades());
    let trade = Trade::new(s("HPG"), f(28000.0), f(500.0), make_ts(1726000000)).unwrap();
    let event = MarketEvent::Trade(trade);
    assert!(!dedup.is_duplicate(&event));
    assert!(!dedup.is_duplicate(&event));
    assert_eq!(dedup.dropped_trades(), 0);
}

#[test]
fn test_qa_dedup_negative_zero_hash_discrepancy() {
    let q1 = Quote::new(s("HPG"), f(28000.0), f(100.0), f(0.0), f(0.0), make_ts(1726000000)).unwrap();
    let q2 = Quote::new(s("HPG"), f(28000.0), f(100.0), f(-0.0), f(-0.0), make_ts(1726000000)).unwrap();
    let fp1 = EventDeduplicator::fingerprint(&q1);
    let fp2 = EventDeduplicator::fingerprint(&q2);
    assert_eq!(fp1, fp2);
    let mut dedup = EventDeduplicator::new(100, false);
    let e1 = MarketEvent::Quote(q1);
    let e2 = MarketEvent::Quote(q2);
    assert!(!dedup.is_duplicate(&e1));
    let dup = dedup.is_duplicate(&e2);
    assert!(dup);
}

#[test]
fn window_of_one_remembers_only_the_last_quote() {
    let mut dedup = EventDeduplicator::new(1, false);
    let a = MarketEvent::Quote(make_sample_quote("HPG", 1.0, 2.0, 1726000000));
    let b = MarketEvent::Quote(make_sample_quote("HPG", 1.0, 3.0, 1726000000));
    assert!(!dedup.is_duplicate(&a));
    assert!(dedup.is_duplicate(&a));
    assert!(!dedup.is_duplicate(&b));
    assert!(!dedup.is_duplicate(&a));
    assert_eq!(dedup.dropped_quotes(), 1);
    assert_eq!(dedup.total_received(), 4);
}

// --- liveness ---

#[test]
fn test_health_initial_state_is_dead() {
    let monitor = HealthMonitor::new(5_000, 30_000);
    assert_eq!(monitor.check_health(10_000), HealthStatus::Dead);
}

#[test]
fn test_health_record_message_healthy() {
    let monitor = HealthMonitor::new(5_000, 30_000);
    monitor.record_message(10_000);
    assert_eq!(monitor.check_health(12_000), HealthStatus::Healthy);
}

#[test]
fn test_health_record_heartbeat_healthy() {
    let monitor = HealthMonitor::new(5_000, 30_000);
    monitor.record_heartbeat(10_000);
    assert_eq!(monitor.check_health(13_000), HealthStatus::Healthy);
}

#[test]
fn test_health_heartbeat_missed() {
    let monitor = HealthMonitor::new(5_000, 30_000);
    monitor.record_message(10_000);
    assert_eq!(monitor.check_health(16_000), HealthStatus::HeartbeatMissed);
}

#[test]
fn test_health_stale_triggers_timeout() {
    let monitor = HealthMonitor::new(5_000, 30_000);
    monitor.record_message(10_000);
    assert_eq!(monitor.check_health(45_000), HealthStatus::Stale);
}

#[test]
fn test_qa_health_monitor_clock_skew_or_out_of_order() {
    let monitor = HealthMonitor::new(5_000, 30_000);
    monitor.record_message(20_000);
    let status = monitor.check_health(15_000);
    assert_eq!(status, HealthStatus::Healthy);
}

#[test]
fn test_qa_health_monitor_inverted_timeouts() {
    let monitor = HealthMonitor::new(30_000, 10_000);
    monitor.record_message(10_000);
    let status = monitor.check_health(25_000);
    assert_eq!(status, HealthStatus::Stale);
}

#[test]
fn health_thresholds_are_inclusive_and_worsen_with_time() {
    assert_eq!(status_for(10_000, 14_999, 5_000, 30_000), HealthStatus::Healthy);
    assert_eq!(status_for(10_000, 15_000, 5_000, 30_000), HealthStatus::HeartbeatMissed);
    assert_eq!(status_for(10_000, 40_000, 5_000, 30_000), HealthStatus::Stale);
    assert_eq!(status_for(0, 40_000, 5_000, 30_000), HealthStatus::Dead);
    assert_eq!(status_for(10_000, 12_000, 30_000, 1_000), HealthStatus::Stale);
}

// --- vendor messages ---

fn quote_msg(bid: f64, bid_vol: f64, ask: f64, ask_vol: f64) -> MarketMessage {
    MarketMessage::Quote(QuoteEvent {
        symbol: s("HPG"),
        bid_price: f(bid),
        bid_vol: f(bid_vol),
        ask_price: f(ask),
        ask_vol: f(ask_vol),
        timestamp: 1724900000,
    })
}

#[test]
fn test_try_into_market_event_quote_crossed_market_fails() {
    let result = quote_msg(29000.0, 100.0, 28500.0, 100.0).try_into_market_event();
    assert!(matches!(
        result,
        Err(MarketDataError::CrossedMarket { symbol, bid, ask })
            if symbol == "HPG" && bid == f(29000.0) && ask == f(28500.0)
    ));
}

#[test]
fn test_try_into_market_event_quote_both_zero_fails() {
    let result = quote_msg(0.0, 0.0, 0.0, 0.0).try_into_market_event();
    assert!(matches!(result, Err(MarketDataError::InvalidPrice(_))));
}

#[test]
fn test_try_into_market_event_quote_ceiling_and_floor_success() {
    let ceiling_event = quote_msg(30000.0, 500.0, 0.0, 0.0).try_into_market_event();
    assert!(ceiling_event.is_ok());
    assert!(ceiling_event.unwrap().is_some());
    let floor_event = quote_msg(0.0, 0.0, 26000.0, 500.0).try_into_market_event();
    assert!(floor_event.is_ok());
    assert!(floor_event.unwrap().is_some());
}

#[test]
fn test_try_into_market_event_trade_success() {
    let msg = MarketMessage::Trade(TradeEvent { symbol: s("  hpg  "), price: f(28500.0), volume: f(100.0), timestamp: 1724900000 });
    let event = msg.try_into_market_event().expect("converts");
    assert!(event.is_some());
    match event.unwrap() {
        MarketEvent::Trade(trade) => {
            assert_eq!(trade.symbol, "HPG");
            assert_eq!(trade.price, f(28500.0));
            assert_eq!(trade.volume, f(100.0));
            assert_eq!(trade.timestamp.timestamp_secs(), 1724900000);
        }
        _ => panic!("Expected MarketEvent::Trade"),
    }
}

#[test]
fn test_try_into_market_event_quote_success() {
    let msg = MarketMessage::Quote(QuoteEvent {
        symbol: s("vnm"),
        bid_price: f(65000.0),
        bid_vol: f(200.0),
        ask_price: f(65100.0),
        ask_vol: f(150.0),
        timestamp: 1724900000,
    });
    let event = msg.try_into_market_event().expect("converts");
    assert!(event.is_some());
    match event.unwrap() {
        MarketEvent::Quote(quote) => {
            assert_eq!(quote.symbol, "VNM");
            assert_eq!(quote.bid_price, f(65000.0));
            assert_eq!(quote.bid_vol, f(200.0));
            assert_eq!(quote.ask_price, f(65100.0));
            assert_eq!(quote.ask_vol, f(150.0));
        }
        _ => panic!("Expected MarketEvent::Quote"),
    }
}

#[test]
fn test_try_into_market_event_trade_invalid_price_fails() {
    let msg = MarketMessage::Trade(TradeEvent { symbol: s("HPG"), price: f(-100.0), volume: f(100.0), timestamp: 1724900000 });
    assert!(matches!(msg.try_into_market_event(), Err(MarketDataError::InvalidPrice(_))));
}

#[test]
fn trade_timestamp_is_checked_first() {
    let msg = MarketMessage::Trade(TradeEvent { symbol: s(""), price: f(-1.0), volume: f(100.0), timestamp: 10 });
    assert!(matches!(msg.try_into_market_event(), Err(MarketDataError::InvalidTimestamp(_))));
    let millis = MarketMessage::Trade(TradeEvent { symbol: s("HPG"), price: f(1.0), volume: f(1.0), timestamp: 1_724_900_000_250 });
    match millis.try_into_market_event().unwrap().unwrap() {
        MarketEvent::Trade(t) => assert_eq!(t.timestamp.timestamp_millis(), 1_724_900_000_250),
        _ => panic!("Expected MarketEvent::Trade"),
    }
}

#[test]
fn test_try_into_market_event_heartbeat_and_pong_none() {
    let hb_msg = MarketMessage::Heartbeat(HeartbeatEvent { timestamp: 1724900000 });
    assert_eq!(hb_msg.try_into_market_event().unwrap(), None);
    let pong_msg = MarketMessage::Pong(vec![1, 2, 3]);
    assert_eq!(pong_msg.try_into_market_event().unwrap(), None);
}

#[test]
fn test_try_into_market_event_exchange_error_returns_err() {
    let err_msg = MarketMessage::ExchangeError(ExchangeErrorEvent { code: s("ERR_TIMEOUT"), message: s("Gateway timeout") });
    let result = err_msg.try_into_market_event();
    match result.unwrap_err() {
        MarketDataError::ParseError(msg) => assert_eq!(msg, "Gateway timeout"),
        other => panic!("Expected ParseError, got {:?}", other),
    }
}

#[test]
fn test_qa_exchange_error_misclassified_as_parse_error() {
    let msg = MarketMessage::ExchangeError(ExchangeErrorEvent { code: s("RATE_LIMIT"), message: s("Too many requests to exchange") });
    match msg.try_into_market_event() {
        Err(MarketDataError::ParseError(msg)) => assert_eq!(msg, "Too many requests to exchange"),
        other => panic!("Expected ParseError, got {:?}", other),
    }
}

#[test]
fn control_frames_and_json_failures() {
    let ping = MarketDataParser::parse_control(&RawMarketMessage::Ping(vec![1, 2, 3]));
    assert!(matches!(ping, Some(Ok(MarketMessage::Pong(p))) if p == vec![1, 2, 3]));
    let pong = MarketDataParser::parse_control(&RawMarketMessage::Pong(vec![4, 5, 6]));
    assert!(matches!(pong, Some(Ok(MarketMessage::Pong(p))) if p == vec![4, 5, 6]));
    let binary = MarketDataParser::parse_control(&RawMarketMessage::Binary(vec![0xAA, 0xBB]));
    match binary {
        Some(Err(MarketDataError::ParseError(msg))) => assert!(msg.contains("Binary frame format not supported")),
        other => panic!("Expected ParseError, got {:?}", other),
    }
    assert!(MarketDataParser::parse_control(&RawMarketMessage::Text(s("{}"))).is_none());
    let failed = MarketDataParser::json_outcome(Err(s("missing field `volume`")));
    assert!(matches!(failed, Err(MarketDataError::ParseError(m)) if m == "missing field `volume`"));
    let hb = MarketMessage::Heartbeat(HeartbeatEvent { timestamp: 1724900030 });
    assert!(matches!(MarketDataParser::json_outcome(Ok(hb.clone())), Ok(m) if m == hb));
}

// --- re-sequencing ---

fn mock_trade(secs: i64) -> MarketEvent {
    let ts = MarketTimestamp::from_epoch_secs(secs).unwrap();
    MarketEvent::Trade(Trade::new(s("HPG"), f(28.5), f(1000.0), ts).unwrap())
}

fn secs_of(events: &[MarketEvent]) -> Vec<i64> {
    events.iter().map(|e| e.timestamp().timestamp_secs()).collect()
}

#[test]
fn debug_flush_ready_flow() {
    let mut sequencer = EventSequencer::new(TimeSpan::from_secs(2), 100);
    sequencer.push(mock_trade(1_725_530_401));
    assert_eq!(sequencer.watermark.map(|w| w.timestamp_secs()), Some(1_725_530_399));
    assert_eq!(sequencer.flush_ready().len(), 0);
    assert_eq!(sequencer.current_size, 1);
    sequencer.push(mock_trade(1_725_530_403));
    assert_eq!(sequencer.watermark.map(|w| w.timestamp_secs()), Some(1_725_530_401));
    let flushed = sequencer.flush_ready();
    assert_eq!(secs_of(&flushed), vec![1_725_530_401]);
    assert_eq!(sequencer.current_size, 1);
    let res = sequencer.push(mock_trade(1_725_530_402));
    assert_eq!(res, PushResult::Buffered);
    assert_eq!(sequencer.current_size, 2);
    sequencer.push(mock_trade(1_725_530_405));
    assert_eq!(sequencer.watermark.map(|w| w.timestamp_secs()), Some(1_725_530_403));
    let flushed = sequencer.flush_ready();
    assert_eq!(secs_of(&flushed), vec![1_725_530_402, 1_725_530_403]);
    assert_eq!(sequencer.current_size, 1);
}

#[test]
fn test_ingest_reorders_out_of_order() {
    let mut sequencer = EventSequencer::new(TimeSpan::from_secs(2), 100);
    let base = 1_725_530_400;
    let (res1, ready1) = sequencer.ingest(mock_trade(base + 1));
    assert_eq!(res1, PushResult::Buffered);
    assert!(ready1.is_empty());
    let (res2, ready2) = sequencer.ingest(mock_trade(base + 3));
    assert_eq!(res2, PushResult::Buffered);
    assert_eq!(ready2.len(), 1);
    assert_eq!(ready2[0].timestamp().timestamp_secs(), base + 1);
    let (res3, ready3) = sequencer.ingest(mock_trade(base + 2));
    assert_eq!(res3, PushResult::Buffered);
    assert!(ready3.is_empty());
    let (res4, ready4) = sequencer.ingest(mock_trade(base + 5));
    assert_eq!(res4, PushResult::Buffered);
    assert_eq!(ready4.len(), 2);
    assert_eq!(ready4.get(0).unwrap().timestamp().timestamp_secs(), base + 2);
    assert_eq!(ready4.get(1).unwrap().timestamp().timestamp_secs(), base + 3);
    let (res5, ready5) = sequencer.ingest(mock_trade(base + 10));
    assert_eq!(res5, PushResult::Buffered);
    assert_eq!(ready5.len(), 1);
    assert_eq!(ready5.get(0).unwrap().timestamp().timestamp_secs(), base + 5);
}

#[test]
fn test_ingest_drops_late_events() {
    let mut sequencer = EventSequencer::new(TimeSpan::from_secs(2), 100);
    let base = 1_725_530_400;
    let (res1, ready1) = sequencer.ingest(mock_trade(base + 10));
    assert_eq!(res1, PushResult::Buffered);
    assert!(ready1.is_empty());
    assert_eq!(sequencer.watermark.map(|w| w.timestamp_secs()), Some(base + 8));
    let (res_late, ready_late) = sequencer.ingest(mock_trade(base + 7));
    assert_eq!(
        res_late,
        PushResult::DroppedLate {
            event_ts: MarketTimestamp::from_epoch_secs(base + 7).unwrap(),
            watermark: MarketTimestamp::from_epoch_secs(base + 8).unwrap(),
        }
    );
    assert!(ready_late.is_empty());
    assert_eq!(sequencer.current_size, 1);
}

#[test]
fn test_ingest_capacity_overflow_forces_eviction() {
    let mut sequencer = EventSequencer::new(TimeSpan::from_secs(10), 2);
    let base = 1_725_530_400;
    let (res1, ready1) = sequencer.ingest(mock_trade(base + 10));
    assert_eq!(res1, PushResult::Buffered);
    assert!(ready1.is_empty());
    assert_eq!(sequencer.current_size, 1);
    let (res2, ready2) = sequencer.ingest(mock_trade(base + 12));
    assert_eq!(res2, PushResult::Buffered);
    assert!(ready2.is_empty());
    assert_eq!(sequencer.current_size, 2);
    let (res3, ready3) = sequencer.ingest(mock_trade(base + 14));
    assert_eq!(res3, PushResult::Buffered);
    assert_eq!(ready3.len(), 1);
    assert_eq!(ready3.get(0).unwrap().timestamp().timestamp_secs(), base + 10);
    assert_eq!(sequencer.current_size, 2);
    assert!(sequencer.watermark.unwrap().timestamp_secs() >= base + 10);
}

#[test]
fn test_flush_all() {
    let mut sequencer = EventSequencer::new(TimeSpan::from_secs(10), 100);
    let base = 1_725_530_400;
    sequencer.ingest(mock_trade(base + 2));
    sequencer.ingest(mock_trade(base + 4));
    sequencer.ingest(mock_trade(base + 1));
    assert_eq!(sequencer.current_size, 3);
    let flushed = sequencer.flush_all();
    assert_eq!(flushed.len(), 3);
    assert_eq!(sequencer.current_size, 0);
    assert!(sequencer.buffers.is_empty());
    assert_eq!(flushed[0].timestamp().timestamp_secs(), base + 1);
    assert_eq!(flushed[1].timestamp().timestamp_secs(), base + 2);
    assert_eq!(flushed[2].timestamp().timestamp_secs(), base + 4);
}

#[test]
fn eviction_releases_whole_timestamp_groups_in_order() {
    let mut sequencer = EventSequencer::new(TimeSpan::from_secs(100), 1);
    let base = 1_725_530_400;
    sequencer.ingest(mock_trade(base + 5));
    let (_, out) = sequencer.ingest(mock_trade(base + 5));
    assert_eq!(secs_of(&out), vec![base + 5, base + 5]);
    assert_eq!(sequencer.current_size, 0);
    let (res, _) = sequencer.ingest(mock_trade(base + 4));
    assert!(matches!(res, PushResult::DroppedLate { .. }));
    let (_, out) = sequencer.ingest(mock_trade(base + 5));
    assert_eq!(secs_of(&out), vec![base + 5]);
    let mut released = Vec::new();
    for t in [base + 9, base + 7, base + 8, base + 6] {
        let (_, out) = sequencer.ingest(mock_trade(t));
        released.extend(secs_of(&out));
    }
    let mut sorted = released.clone();
    sorted.sort();
    assert_eq!(released, sorted);
    assert!(sequencer.current_size <= 1);
}

// --- frozen data ---

fn secs(n: u64) -> TimeSpan {
    TimeSpan::from_secs(n)
}

fn later(t: MonoInstant, n: u64) -> MonoInstant {
    t.checked_add(secs(n)).unwrap()
}

#[test]
fn test_init_and_normalization() {
    let detector = StaleDataDetector::new(secs(10), vec![s("  hpg "), s("VIC"), s("   "), s("")]);
    let now = MonoInstant::from_nanos(1_000_000_000);
    assert_eq!(detector.check_status("HPG", now), SymbolLiveness::NeverSeen);
    assert_eq!(detector.check_status("hpg", now), SymbolLiveness::NeverSeen);
    assert_eq!(detector.check_status("VIC", now), SymbolLiveness::NeverSeen);
    assert_eq!(detector.check_status("", now), SymbolLiveness::Untracked);
}

#[test]
fn test_untracked_symbol() {
    let detector = StaleDataDetector::new(secs(10), vec![s("HPG")]);
    let now = MonoInstant::from_nanos(5);
    assert_eq!(detector.check_status("VNM", now), SymbolLiveness::Untracked);
}

#[test]
fn test_active_and_stale_transition() {
    let mut detector = StaleDataDetector::new(secs(10), vec![s("HPG"), s("VIC")]);
    let t0 = MonoInstant::from_nanos(1_000);
    assert!(detector.record_update("HPG", t0));
    let t1 = later(t0, 5);
    assert_eq!(detector.check_status("HPG", t1), SymbolLiveness::Active);
    assert_eq!(detector.check_status("VIC", t1), SymbolLiveness::NeverSeen);
    let t2 = later(t0, 10);
    assert_eq!(detector.check_status("HPG", t2), SymbolLiveness::Stale);
    let t3 = later(t0, 20);
    assert_eq!(detector.check_status("HPG", t3), SymbolLiveness::Stale);
}

#[test]
fn test_recovery_from_stale() {
    let mut detector = StaleDataDetector::new(secs(10), vec![s("HPG")]);
    let t0 = MonoInstant::from_nanos(1_000);
    detector.record_update("HPG", t0);
    let t1 = later(t0, 15);
    assert_eq!(detector.check_status("HPG", t1), SymbolLiveness::Stale);
    detector.record_update("HPG", t1);
    let t2 = later(t1, 2);
    assert_eq!(detector.check_status("HPG", t2), SymbolLiveness::Active);
}

#[test]
fn test_record_market_event_trade_and_quote() {
    let mut detector = StaleDataDetector::new(secs(10), vec![s("HPG"), s("VIC")]);
    let now = MonoInstant::from_nanos(42);
    let ts = MarketTimestamp::from_epoch_secs(1725300000).unwrap();
    let trade = Trade::new(s("HPG"), f(28000.0), f(1000.0), ts).unwrap();
    assert!(detector.record_event(&MarketEvent::Trade(trade), now));
    assert_eq!(detector.check_status("HPG", now), SymbolLiveness::Active);
    let quote = Quote::new(s("VIC"), f(45000.0), f(100.0), f(45100.0), f(200.0), ts).unwrap();
    assert!(detector.record_event(&MarketEvent::Quote(quote), now));
    assert_eq!(detector.check_status("VIC", now), SymbolLiveness::Active);
    let untracked_trade = Trade::new(s("XYZ"), f(10000.0), f(50.0), ts).unwrap();
    assert!(!detector.record_event(&MarketEvent::Trade(untracked_trade), now));
}

#[test]
fn test_get_stale_symbols_bulk_scan() {
    let mut detector = StaleDataDetector::new(secs(10), vec![s("HPG"), s("VIC"), s("VNM")]);
    let t0 = MonoInstant::from_nanos(7);
    let initial_stale = detector.get_stale_symbols(t0);
    assert_eq!(initial_stale.len(), 3);
    detector.record_update("HPG", t0);
    detector.record_update("VIC", t0);
    let t1 = later(t0, 2);
    let stale_t1 = detector.get_stale_symbols(t1);
    assert_eq!(stale_t1.len(), 1);
    assert!(stale_t1.contains(&s("VNM")));
    let t2 = later(t0, 12);
    let stale_t2 = detector.get_stale_symbols(t2);
    assert_eq!(stale_t2.len(), 3);
}

#[test]
fn stale_scan_keeps_watch_order_and_clock_going_back_reads_active() {
    let mut detector = StaleDataDetector::new(secs(10), vec![s("vnm"), s("HPG"), s("VNM "), s("acb")]);
    let t0 = MonoInstant::from_nanos(50_000_000_000);
    assert_eq!(detector.get_stale_symbols(t0), vec![s("VNM"), s("HPG"), s("ACB")]);
    detector.record_update(" hpg", t0);
    let earlier = MonoInstant::from_nanos(1);
    assert_eq!(detector.check_status("HPG", earlier), SymbolLiveness::Active);
    assert_eq!(detector.get_stale_symbols(earlier), vec![s("VNM"), s("ACB")]);
}

// --- subscriptions ---

#[test]
fn test_normalize_symbol() {
    assert_eq!(SubscriptionManager::normalize_symbol(" hpg ").unwrap(), "HPG");
    assert_eq!(SubscriptionManager::normalize_symbol("vnm").unwrap(), "VNM");
    assert!(SubscriptionManager::normalize_symbol("").is_err());
    assert!(SubscriptionManager::normalize_symbol("   ").is_err());
}

#[test]
fn test_subscribe_and_deduplication() {
    let mut manager = SubscriptionManager::new();
    let payload = manager.subscribe(&["hpg", "vnm"]).unwrap();
    assert!(payload.is_some());
    assert_eq!(manager.len(), 2);
    assert!(manager.is_subscribed("HPG"));
    assert!(manager.is_subscribed("VNM"));
    let duplicate_payload = manager.subscribe(&["HPG"]).unwrap();
    assert_eq!(duplicate_payload, None);
    assert_eq!(manager.len(), 2);
}

#[test]
fn test_unsubscribe() {
    let (mut manager, _) = SubscriptionManager::with_symbols(&["HPG", "VNM"]).unwrap();
    let payload = manager.unsubscribe(&["HPG"]).unwrap();
    assert!(payload.is_some());
    assert_eq!(manager.len(), 1);
    assert!(!manager.is_subscribed("HPG"));
    assert!(manager.is_subscribed("VNM"));
    let noop = manager.unsubscribe(&["VIC"]).unwrap();
    assert_eq!(noop, None);
}

#[test]
fn test_resubscribe_message() {
    let (manager, _) = SubscriptionManager::with_symbols(&["HPG", "VNM"]).unwrap();
    let payload = manager.generate_resubscribe_message().unwrap();
    assert!(payload.is_some());
    let val: serde_json::Value = serde_json::from_str(&payload.unwrap()).unwrap();
    assert_eq!(val["type"], "subscribe");
    let expected = serde_json::Value::Array(vec![
        serde_json::Value::String(s("HPG")),
        serde_json::Value::String(s("VNM")),
    ]);
    assert_eq!(val["symbols"], expected);
}

#[test]
fn test_qa_subscription_manager_allows_invalid_symbols() {
    let mut sub = SubscriptionManager::new();
    let res = sub.subscribe(&["INVALID_LONG_TICKER_XYZ_123", "!@#$%^&*"]);
    assert!(res.is_ok());
    assert!(sub.is_subscribed("!@#$%^&*"));
}

#[test]
fn subscription_messages_list_only_changes_sorted() {
    let (mut manager, first) = SubscriptionManager::with_symbols(&["vnm", "acb", "VNM"]).unwrap();
    assert_eq!(first.unwrap(), "{\"symbols\":[\"ACB\",\"VNM\"],\"type\":\"subscribe\"}");
    let added = manager.subscribe(&["hpg", "ACB", "fpt"]).unwrap();
    assert_eq!(added.unwrap(), "{\"symbols\":[\"FPT\",\"HPG\"],\"type\":\"subscribe\"}");
    let removed = manager.unsubscribe(&["vnm", "xyz", "acb"]).unwrap();
    assert_eq!(removed.unwrap(), "{\"symbols\":[\"ACB\",\"VNM\"],\"type\":\"unsubscribe\"}");
    assert_eq!(manager.get_active_symbols(), vec![s("FPT"), s("HPG")]);
    assert!(matches!(manager.subscribe(&["ABC", "  "]), Err(MarketDataError::EmptyData(m)) if m == "Không thể đăng ký symbol rỗng"));
    assert_eq!(manager.len(), 2);
    let empty = SubscriptionManager::new();
    assert!(empty.is_empty());
    assert_eq!(empty.generate_resubscribe_message().unwrap(), None);
}

// --- alias mapping ---

#[test]
fn test_map_stock_without_alias() {
    let mapper = SymbolMapper::new();
    let inst = mapper.map("HPG").unwrap();
    assert_eq!(inst.as_str(), "HPG");
    assert!(matches!(inst, Instrument::Stock(_)));
    let inst_hose = mapper.map("HOSE:HPG").unwrap();
    assert_eq!(inst_hose.as_str(), "HPG");
    let inst_lower = mapper.map("  vnm.hose  ").unwrap();
    assert_eq!(inst_lower.as_str(), "VNM");
    assert_eq!(mapper.map_to_canonical("UPCOM:BSR").unwrap(), "BSR");
}

#[test]
fn test_map_index() {
    let mapper = SymbolMapper::new();
    let inst = mapper.map("VN30").unwrap();
    assert_eq!(inst.as_str(), "VN30");
    assert!(matches!(inst, Instrument::Index(_)));
    let inst_vnindex = mapper.map("  vnindex  ").unwrap();
    assert_eq!(inst_vnindex.as_str(), "VNINDEX");
    assert_eq!(mapper.map_to_canonical("VN30").unwrap(), "VN30");
}

#[test]
fn test_map_future_canonical() {
    let mapper = SymbolMapper::new();
    let inst = mapper.map("VN30F2409").unwrap();
    assert_eq!(inst.as_str(), "VN30F2409");
    assert!(matches!(inst, Instrument::IndexFuture(_)));
    let inst_lower = mapper.map("vn30f2512").unwrap();
    assert_eq!(inst_lower.as_str(), "VN30F2512");
    assert_eq!(mapper.map_to_canonical("VN30F2409").unwrap(), "VN30F2409");
}

#[test]
fn test_map_future_with_alias() {
    let mut mapper = SymbolMapper::new();
    mapper.register_alias("VN30F1M", "VN30F2409").unwrap();
    mapper.register_alias("VN30F2M", "VN30F2410").unwrap();
    let inst = mapper.map("VN30F1M").unwrap();
    assert_eq!(inst.as_str(), "VN30F2409");
    assert!(matches!(inst, Instrument::IndexFuture(_)));
    let inst_case = mapper.map("  vn30f1m  ").unwrap();
    assert_eq!(inst_case.as_str(), "VN30F2409");
    assert_eq!(mapper.map_to_canonical("vn30f2m").unwrap(), "VN30F2410");
}

#[test]
fn test_unregistered_alias_fails() {
    let mapper = SymbolMapper::new();
    assert!(mapper.map("VN30F1M").is_err());
    assert!(mapper.map_to_canonical("VN30F1M").is_err());
}

#[test]
fn test_map_invalid_symbols() {
    let mapper = SymbolMapper::new();
    assert!(mapper.map("").is_err());
    assert!(mapper.map("   ").is_err());
    assert!(mapper.map("12345").is_err());
    assert!(mapper.map("HP@").is_err());
    assert!(mapper.map("VN30F").is_err());
    assert!(mapper.map("VN30F2413").is_err());
    assert!(mapper.map("VN30F2400").is_err());
}

#[test]
fn test_qa_symbol_mapper_allows_invalid_canonical_alias() {
    let mut mapper = SymbolMapper::new();
    let registered = mapper.register_alias("VN30F1M", "NOT_A_VALID_TICKER_123");
    assert!(registered.is_err());
    let map_res = mapper.map("VN30F1M");
    assert!(map_res.is_err());
}

#[test]
fn re_registering_an_alias_replaces_its_target() {
    let mut mapper = SymbolMapper::new();
    mapper.register_alias("front", "VN30F2409").unwrap();
    mapper.register_alias(" FRONT ", "HNX:vn30f2410").unwrap();
    assert!(mapper.register_alias("front", "HPG:GARBAGE").is_err());
    assert_eq!(mapper.map_to_canonical("Front").unwrap(), "VN30F2410");
    assert!(mapper.map("VN30F2\u{00E9}1").is_err());
    assert_eq!(mapper.map_to_canonical("HOSE:HPG").unwrap(), "HPG");
}

// --- connection loop decisions ---

#[test]
fn reconnect_loop_retries_after_a_successful_session() {
    let mut lp = ReconnectLoop::new(Some(1));
    assert_eq!(lp.plan_attempt(), ConnectStep::Connect { backoff_attempt: None });
    assert_eq!(lp.state(), ConnectionState::Connecting);
    lp.connect_finished(true);
    assert_eq!(lp.state(), ConnectionState::Connected);
    assert_eq!(lp.on_event(SessionEvent::Close), SessionAction::EndSession);
    assert_eq!(lp.state(), ConnectionState::Disconnected);
    assert_eq!(lp.plan_attempt(), ConnectStep::Connect { backoff_attempt: None });
    lp.connect_finished(false);
    assert_eq!(lp.attempt(), 1);
    assert_eq!(lp.plan_attempt(), ConnectStep::Stop);
}

#[test]
fn reconnect_loop_without_limit_backs_off() {
    let mut lp = ReconnectLoop::new(None);
    for n in 1..5usize {
        lp.plan_attempt();
        lp.connect_finished(false);
        assert_eq!(lp.plan_attempt(), ConnectStep::Connect { backoff_attempt: Some(n) });
        assert_eq!(lp.state(), ConnectionState::Reconnecting);
        lp.begin_connect();
        assert_eq!(lp.state(), ConnectionState::Connecting);
    }
}

#[test]
fn session_events_decide_actions() {
    let mut lp = ReconnectLoop::new(None);
    lp.connect_finished(true);
    assert_eq!(
        lp.on_event(SessionEvent::Text(s("{\"type\":\"ping\",\"id\":1}"))),
        SessionAction::Forward { reply_pong: true }
    );
    assert_eq!(lp.on_event(SessionEvent::Text(s("{\"type\": \"ping\"}"))), SessionAction::Forward { reply_pong: false });
    assert_eq!(lp.on_event(SessionEvent::Ping(vec![1, 2, 3])), SessionAction::SendPong(vec![1, 2, 3]));
    assert_eq!(lp.on_event(SessionEvent::OtherFrame), SessionAction::Ignore);
    assert_eq!(lp.on_event(SessionEvent::HealthTick(HealthStatus::HeartbeatMissed)), SessionAction::Ignore);
    assert_eq!(lp.state(), ConnectionState::Connected);
    assert_eq!(lp.on_event(SessionEvent::HealthTick(HealthStatus::Dead)), SessionAction::EndSession);
    assert_eq!(lp.state(), ConnectionState::Disconnected);
    assert_eq!(pong_message(), "{\"type\":\"pong\"}");
}

#[test]
fn websocket_client_keeps_its_settings() {
    let client = WebSocketClient::new(s("ws://127.0.0.1:8080"), 100);
    assert_eq!(client.endpoint, "ws://127.0.0.1:8080");
    assert_eq!(client.channel_capacity, 100);
}

#[test]
fn accepted_events_are_released_exactly_once() {
    let mut sequencer = EventSequencer::new(TimeSpan::from_secs(3), 2);
    let base = 1_725_530_400;
    let mut accepted = 0;
    let mut released = Vec::new();
    for t in [base + 5, base + 1, base + 9, base + 6, base + 2, base + 12, base + 11, base + 12] {
        let (res, out) = sequencer.ingest(mock_trade(t));
        if res == PushResult::Buffered {
            accepted += 1;
        }
        released.extend(secs_of(&out));
    }
    let rest = sequencer.flush_all();
    assert_eq!(released.len() + rest.len(), accepted);
    let mut all = released.clone();
    all.extend(secs_of(&rest));
    let mut sorted = all.clone();
    sorted.sort();
    assert_eq!(all, sorted);
}

#[test]
fn dedup_counts_and_window_over_a_run() {
    let mut dedup = EventDeduplicator::new(2, false);
    let q = |secs: i64| MarketEvent::Quote(make_sample_quote("HPG", 1.0, 2.0, secs));
    let t = MarketEvent::Trade(Trade::new(s("HPG"), f(28000.0), f(500.0), make_ts(1726000000)).unwrap());
    let run = vec![q(1726000001), q(1726000002), t.clone(), q(1726000001), q(1726000003), q(1726000001), t];
    let verdicts: Vec<bool> = run.iter().map(|e| dedup.is_duplicate(e)).collect();
    assert_eq!(verdicts, vec![false, false, false, true, false, false, false]);
    assert_eq!(dedup.total_received(), 7);
    assert_eq!(dedup.dropped_quotes(), 1);
    assert_eq!(dedup.dropped_trades(), 0);
    assert!(dedup.is_duplicate(&q(1726000003)));
    assert!(!dedup.is_duplicate(&q(1726000002)));
}

#[test]
fn sequencer_run_loses_and_repeats_nothing() {
    let mut sequencer = EventSequencer::new(TimeSpan::from_secs(2), 3);
    let base = 1_725_530_400;
    let offsets = [5, 1, 3, 9, 2, 8, 7, 12, 4, 15, 11, 20];
    let mut released: Vec<i64> = Vec::new();
    let mut accepted: Vec<i64> = Vec::new();
    for off in offsets {
        let (res, out) = sequencer.ingest(mock_trade(base + off));
        if res == PushResult::Buffered {
            accepted.push(base + off);
        }
        released.extend(secs_of(&out));
        assert!(sequencer.current_size <= 3);
        assert_eq!(sequencer.current_size, sequencer.buffers.len());
    }
    assert!(released.windows(2).all(|w| w[0] <= w[1]));
    let mut all = released.clone();
    all.extend(secs_of(&sequencer.buffers));
    all.sort();
    accepted.sort();
    assert_eq!(all, accepted);
    assert!(accepted.len() < offsets.len());
}

#[test]
fn listed_tickers_read_back_as_subscribed() {
    let (m, _) = SubscriptionManager::with_symbols(&["vnm", " HPG "]).unwrap();
    let listed = m.get_active_symbols();
    assert_eq!(listed, vec![s("HPG"), s("VNM")]);
    for t in &listed {
        assert!(m.is_subscribed(t));
    }
}

#[test]
fn alias_maps_like_the_normal_form_of_its_target() {
    let mut mapper = SymbolMapper::new();
    mapper.register_alias("front", "  hnx:vn30f2409 ").unwrap();
    let via_alias = mapper.map(" FRONT").unwrap();
    let direct = Instrument::parse_canonical("HNX:VN30F2409").unwrap();
    assert_eq!(via_alias, direct);
}
