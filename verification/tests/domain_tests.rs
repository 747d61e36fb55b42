use vn30::config::{
    AppConfig, BasketConfig, FeaturesConfig, MarketDataConfig, ModelConfig, RiskLevelConfig,
    RiskProfilesConfig, ServerConfig, StateStoreConfig, TelegramConfig,
};
use vn30::errors::{
    AlertError, ConfigError, DomainError, IndicatorError, MarketDataError, ModelError, RiskError,
    SignalError,
};
use vn30::ieee::{Ieee32, Ieee64};
use vn30::market::{MarketEvent, Quote, Trade};
use vn30::symbol::{FutureContract, IndexSymbol, Instrument, StockSymbol};
use vn30::timestamp::{MarketTimestamp, TimeSpan};

fn f(x: f64) -> Ieee64 {
    Ieee64::from_bits(x.to_bits())
}

fn g(x: f32) -> Ieee32 {
    Ieee32::from_bits(x.to_bits())
}

fn s(x: &str) -> String {
    x.to_string()
}

fn validation_message(r: Result<(), ConfigError>) -> Option<String> {
    match r {
        Err(ConfigError::ValidationError(m)) => Some(m),
        _ => None,
    }
}

fn sample_valid_app_config() -> AppConfig {
    AppConfig {
        server: ServerConfig { environment: s("development"), log_level: s("info") },
        market_data: MarketDataConfig {
            provider: s("SSI_FASTCONNECT"),
            ws_endpoint: s("wss://api.provider.vn/stream"),
            reconnect_initial_backoff_ms: 1000,
            reconnect_max_backoff_ms: 30000,
            heartbeat_interval_secs: 15,
            max_tick_staleness_secs: 60,
        },
        basket: BasketConfig {
            sync_time: s("08:00:00"),
            symbols: vec![s("ACB"), s("FPT"), s("HPG"), s("VNM")],
        },
        state_store: StateStoreConfig { rolling_window_size: 500 },
        features: FeaturesConfig { beta_lookback_bars: 90, min_valid_samples: 30 },
        model: ModelConfig {
            artifact_path: s("models/rf_active.bin"),
            retrain_schedule: s("sunday"),
            min_confidence_score: g(0.75),
        },
        risk: RiskProfilesConfig {
            safe: RiskLevelConfig {
                target_min: g(0.12),
                target_max: g(0.15),
                sl_min: g(-0.04),
                sl_max: g(-0.03),
                beta_min: None,
                beta_max: Some(f(1.0)),
            },
            medium: RiskLevelConfig {
                target_min: g(0.15),
                target_max: g(0.18),
                sl_min: g(-0.06),
                sl_max: g(-0.05),
                beta_min: Some(f(1.0)),
                beta_max: Some(f(1.25)),
            },
            risky: RiskLevelConfig {
                target_min: g(0.20),
                target_max: g(0.25),
                sl_min: g(-0.08),
                sl_max: g(-0.07),
                beta_min: Some(f(1.25)),
                beta_max: None,
            },
        },
        telegram: TelegramConfig {
            bot_token_env: s("TELEGRAM_BOT_TOKEN"),
            chat_allowlist: vec![-100123456789],
            debounce_cooldown_mins: 60,
        },
    }
}

// --- configuration ---

#[test]
fn test_app_config_full_validate_success() {
    let config = sample_valid_app_config();
    assert!(config.validate().is_ok());
}

#[test]
fn test_app_config_validate_propagates_child_error() {
    let mut config = sample_valid_app_config();
    config.server.environment = s("invalid_env");
    assert!(matches!(config.validate(), Err(ConfigError::ValidationError(_))));
}

#[test]
fn app_config_reports_first_failing_section() {
    let mut config = sample_valid_app_config();
    config.features.min_valid_samples = 0;
    config.telegram.bot_token_env = s(" ");
    assert_eq!(validation_message(config.validate()), Some(s("Invalid min_valid_samples")));
}

#[test]
fn test_server_config_valid() {
    for env in ["development", "production", "test"] {
        for level in ["info", "debug", "error", "warn", "trace"] {
            let cfg = ServerConfig { environment: env.to_string(), log_level: level.to_string() };
            assert!(cfg.validate().is_ok(), "Failed for env: {env}, level: {level}");
        }
    }
}

#[test]
fn test_server_config_invalid_env() {
    let cfg = ServerConfig { environment: s("staging"), log_level: s("info") };
    assert!(matches!(cfg.validate(), Err(ConfigError::ValidationError(msg)) if msg.contains("environment")));
}

#[test]
fn test_server_config_invalid_log_level() {
    let cfg = ServerConfig { environment: s("development"), log_level: s("verbose") };
    assert!(matches!(cfg.validate(), Err(ConfigError::ValidationError(msg)) if msg.contains("log level")));
}

#[test]
fn test_market_data_config_valid() {
    for provider in ["SSI_FASTCONNECT", "VNDIRECT", "VPS", "SIMULATOR"] {
        let mut cfg = sample_valid_app_config().market_data;
        cfg.provider = provider.to_string();
        assert!(cfg.validate().is_ok());
    }
}

#[test]
fn test_market_data_invalid_provider() {
    let mut cfg = sample_valid_app_config().market_data;
    cfg.provider = s("BINANCE");
    assert!(matches!(cfg.validate(), Err(ConfigError::ValidationError(msg)) if msg.contains("provider")));
}

#[test]
fn test_market_data_empty_ws_endpoint() {
    let mut cfg = sample_valid_app_config().market_data;
    cfg.ws_endpoint = s("   ");
    assert!(matches!(cfg.validate(), Err(ConfigError::ValidationError(msg)) if msg.contains("ws_endpoint")));
}

#[test]
fn test_market_data_invalid_endpoint_scheme() {
    let mut cfg = sample_valid_app_config().market_data;
    cfg.ws_endpoint = s("http://api.provider.vn/stream");
    assert!(matches!(cfg.validate(), Err(ConfigError::ValidationError(msg)) if msg.contains("ws:// or wss://")));
}

#[test]
fn test_market_data_zero_initial_backoff() {
    let mut cfg = sample_valid_app_config().market_data;
    cfg.reconnect_initial_backoff_ms = 0;
    assert!(matches!(cfg.validate(), Err(ConfigError::ValidationError(msg)) if msg.contains("reconnect_initial_backoff_ms")));
}

#[test]
fn test_market_data_zero_max_backoff() {
    let mut cfg = sample_valid_app_config().market_data;
    cfg.reconnect_max_backoff_ms = 0;
    assert!(matches!(cfg.validate(), Err(ConfigError::ValidationError(msg)) if msg.contains("reconnect_max_backoff_ms")));
}

#[test]
fn test_market_data_max_backoff_less_than_initial() {
    let mut cfg = sample_valid_app_config().market_data;
    cfg.reconnect_initial_backoff_ms = 5000;
    cfg.reconnect_max_backoff_ms = 1000;
    assert!(matches!(cfg.validate(), Err(ConfigError::ValidationError(msg)) if msg.contains("greater than or equal to reconnect_initial_backoff_ms")));
}

#[test]
fn test_market_data_zero_heartbeat() {
    let mut cfg = sample_valid_app_config().market_data;
    cfg.heartbeat_interval_secs = 0;
    assert!(matches!(cfg.validate(), Err(ConfigError::ValidationError(msg)) if msg.contains("heartbeat_interval_secs")));
}

#[test]
fn test_market_data_zero_staleness() {
    let mut cfg = sample_valid_app_config().market_data;
    cfg.max_tick_staleness_secs = 0;
    assert!(matches!(cfg.validate(), Err(ConfigError::ValidationError(msg)) if msg.contains("max_tick_staleness_secs")));
}

#[test]
fn test_basket_config_valid() {
    let cfg = sample_valid_app_config().basket;
    assert!(cfg.validate().is_ok());
}

#[test]
fn test_basket_config_empty_symbols() {
    let mut cfg = sample_valid_app_config().basket;
    cfg.symbols = vec![];
    assert!(matches!(cfg.validate(), Err(ConfigError::ValidationError(msg)) if msg.contains("empty")));
}

#[test]
fn test_basket_config_blank_symbol() {
    let mut cfg = sample_valid_app_config().basket;
    cfg.symbols = vec![s("ACB"), s("  ")];
    assert!(matches!(cfg.validate(), Err(ConfigError::ValidationError(msg)) if msg.contains("Invalid symbol")));
}

#[test]
fn test_basket_config_duplicate_symbols() {
    let mut cfg = sample_valid_app_config().basket;
    cfg.symbols = vec![s("ACB"), s("FPT"), s("ACB")];
    assert!(matches!(cfg.validate(), Err(ConfigError::ValidationError(msg)) if msg.contains("Duplicate symbols")));
}

#[test]
fn test_basket_config_invalid_sync_time_format() {
    let mut cfg = sample_valid_app_config().basket;
    for invalid_time in ["08:00", "25:00:00", "invalid_time", "08:60:00"] {
        cfg.sync_time = invalid_time.to_string();
        assert!(
            matches!(cfg.validate(), Err(ConfigError::ValidationError(msg)) if msg.contains("sync_time")),
            "Failed for {invalid_time}"
        );
    }
}

#[test]
fn basket_sync_time_verdict_is_applied_last() {
    let cfg = sample_valid_app_config().basket;
    assert!(cfg.validate_given_time(true).is_ok());
    assert_eq!(validation_message(cfg.validate_given_time(false)), Some(s("Invalid sync_time format")));
    let mut dup = cfg.clone();
    dup.symbols = vec![s("ACB"), s("ACB")];
    assert_eq!(validation_message(dup.validate_given_time(false)), Some(s("Duplicate symbols found")));
}

#[test]
fn test_state_store_config_valid() {
    let cfg = StateStoreConfig { rolling_window_size: 500 };
    assert!(cfg.validate().is_ok());
}

#[test]
fn test_state_store_config_zero_window() {
    let cfg = StateStoreConfig { rolling_window_size: 0 };
    assert!(matches!(cfg.validate(), Err(ConfigError::ValidationError(msg)) if msg.contains("rolling_window_size")));
}

#[test]
fn test_features_config_valid() {
    let cfg = FeaturesConfig { beta_lookback_bars: 90, min_valid_samples: 30 };
    assert!(cfg.validate().is_ok());
}

#[test]
fn test_features_config_min_samples_equal_lookback() {
    let cfg = FeaturesConfig { beta_lookback_bars: 60, min_valid_samples: 60 };
    assert!(cfg.validate().is_ok());
}

#[test]
fn test_features_config_zero_beta_lookback() {
    let cfg = FeaturesConfig { beta_lookback_bars: 0, min_valid_samples: 30 };
    assert!(matches!(cfg.validate(), Err(ConfigError::ValidationError(msg)) if msg.contains("beta_lookback_bars")));
}

#[test]
fn test_features_config_zero_min_valid_samples() {
    let cfg = FeaturesConfig { beta_lookback_bars: 90, min_valid_samples: 0 };
    assert!(matches!(cfg.validate(), Err(ConfigError::ValidationError(msg)) if msg.contains("min_valid_samples")));
}

#[test]
fn test_features_config_min_samples_greater_than_lookback() {
    let cfg = FeaturesConfig { beta_lookback_bars: 30, min_valid_samples: 90 };
    assert!(matches!(cfg.validate(), Err(ConfigError::ValidationError(msg)) if msg.contains("greater than beta_lookback_bars")));
}

#[test]
fn test_model_config_valid() {
    let cfg = ModelConfig {
        artifact_path: s("models/rf_active.bin"),
        retrain_schedule: s("sunday"),
        min_confidence_score: g(0.75),
    };
    assert!(cfg.validate().is_ok());
}

#[test]
fn test_model_config_empty_artifact_path() {
    let cfg = ModelConfig {
        artifact_path: s("   "),
        retrain_schedule: s("sunday"),
        min_confidence_score: g(0.75),
    };
    assert!(matches!(cfg.validate(), Err(ConfigError::ValidationError(msg)) if msg.contains("artifact_path")));
}

#[test]
fn test_model_config_empty_retrain_schedule() {
    let cfg = ModelConfig {
        artifact_path: s("models/rf_active.bin"),
        retrain_schedule: s("  "),
        min_confidence_score: g(0.75),
    };
    assert!(matches!(cfg.validate(), Err(ConfigError::ValidationError(msg)) if msg.contains("retrain_schedule")));
}

#[test]
fn test_model_config_confidence_score_boundaries() {
    let mut cfg = ModelConfig {
        artifact_path: s("models/rf_active.bin"),
        retrain_schedule: s("sunday"),
        min_confidence_score: g(0.0),
    };
    assert!(cfg.validate().is_ok());
    cfg.min_confidence_score = g(1.0);
    assert!(cfg.validate().is_ok());
}

#[test]
fn test_model_config_invalid_confidence_score() {
    let mut cfg = ModelConfig {
        artifact_path: s("models/rf_active.bin"),
        retrain_schedule: s("sunday"),
        min_confidence_score: g(-0.01),
    };
    assert!(matches!(cfg.validate(), Err(ConfigError::ValidationError(msg)) if msg.contains("min_confidence_score")));
    cfg.min_confidence_score = g(1.01);
    assert!(matches!(cfg.validate(), Err(ConfigError::ValidationError(msg)) if msg.contains("min_confidence_score")));
}

#[test]
fn model_config_confidence_nan_and_negative_zero() {
    let mut cfg = ModelConfig {
        artifact_path: s("models/rf_active.bin"),
        retrain_schedule: s("sunday"),
        min_confidence_score: g(f32::NAN),
    };
    assert_eq!(validation_message(cfg.validate()), Some(s("Invalid min_confidence_score")));
    cfg.min_confidence_score = g(-0.0);
    assert!(cfg.validate().is_ok());
}

#[test]
fn test_risk_level_config_valid() {
    let cfg = RiskLevelConfig {
        target_min: g(0.12),
        target_max: g(0.15),
        sl_min: g(-0.04),
        sl_max: g(-0.03),
        beta_min: Some(f(0.8)),
        beta_max: Some(f(1.2)),
    };
    assert!(cfg.validate().is_ok());
}

#[test]
fn test_risk_level_target_min_non_positive() {
    let mut cfg = RiskLevelConfig {
        target_min: g(0.0),
        target_max: g(0.15),
        sl_min: g(-0.04),
        sl_max: g(-0.03),
        beta_min: None,
        beta_max: None,
    };
    assert!(matches!(cfg.validate(), Err(ConfigError::ValidationError(msg)) if msg.contains("target_min or target_max")));
    cfg.target_min = g(-0.05);
    assert!(matches!(cfg.validate(), Err(ConfigError::ValidationError(msg)) if msg.contains("target_min or target_max")));
}

#[test]
fn test_risk_level_target_max_less_than_min() {
    let cfg = RiskLevelConfig {
        target_min: g(0.15),
        target_max: g(0.10),
        sl_min: g(-0.04),
        sl_max: g(-0.03),
        beta_min: None,
        beta_max: None,
    };
    assert!(matches!(cfg.validate(), Err(ConfigError::ValidationError(msg)) if msg.contains("target_min or target_max")));
}

#[test]
fn test_risk_level_sl_positive() {
    let cfg = RiskLevelConfig {
        target_min: g(0.10),
        target_max: g(0.15),
        sl_min: g(-0.04),
        sl_max: g(0.01),
        beta_min: None,
        beta_max: None,
    };
    assert!(matches!(cfg.validate(), Err(ConfigError::ValidationError(msg)) if msg.contains("sl_min or sl_max")));
}

#[test]
fn test_risk_level_sl_min_greater_than_sl_max() {
    let cfg = RiskLevelConfig {
        target_min: g(0.10),
        target_max: g(0.15),
        sl_min: g(-0.02),
        sl_max: g(-0.05),
        beta_min: None,
        beta_max: None,
    };
    assert!(matches!(cfg.validate(), Err(ConfigError::ValidationError(msg)) if msg.contains("sl_min or sl_max")));
}

#[test]
fn test_risk_level_beta_min_greater_than_beta_max() {
    let cfg = RiskLevelConfig {
        target_min: g(0.10),
        target_max: g(0.15),
        sl_min: g(-0.05),
        sl_max: g(-0.03),
        beta_min: Some(f(1.5)),
        beta_max: Some(f(1.0)),
    };
    assert!(matches!(cfg.validate(), Err(ConfigError::ValidationError(msg)) if msg.contains("beta_min or beta_max")));
}

#[test]
fn test_risk_profiles_config_valid() {
    let cfg = sample_valid_app_config().risk;
    assert!(cfg.validate().is_ok());
}

#[test]
fn test_risk_profiles_invalid_safe_profile() {
    let mut cfg = sample_valid_app_config().risk;
    cfg.safe.target_min = g(-0.1);
    assert!(matches!(cfg.validate(), Err(ConfigError::ValidationError(_))));
}

#[test]
fn test_telegram_config_valid() {
    let cfg = TelegramConfig {
        bot_token_env: s("TELEGRAM_BOT_TOKEN"),
        chat_allowlist: vec![123456],
        debounce_cooldown_mins: 60,
    };
    assert!(cfg.validate().is_ok());
}

#[test]
fn test_telegram_config_empty_bot_token_env() {
    let cfg = TelegramConfig { bot_token_env: s("  "), chat_allowlist: vec![], debounce_cooldown_mins: 0 };
    assert!(matches!(cfg.validate(), Err(ConfigError::ValidationError(msg)) if msg.contains("bot_token_env")));
}

#[test]
fn test_qa_risk_config_beta_min_unvalidated_when_beta_max_is_none() {
    let invalid_risk_level = RiskLevelConfig {
        target_min: g(0.20),
        target_max: g(0.25),
        sl_min: g(-0.08),
        sl_max: g(-0.07),
        beta_min: Some(f(-999.0)),
        beta_max: None,
    };
    assert!(invalid_risk_level.validate().is_err());

    let nan_risk_level = RiskLevelConfig {
        target_min: g(0.20),
        target_max: g(0.25),
        sl_min: g(-0.08),
        sl_max: g(-0.07),
        beta_min: Some(f(f64::NAN)),
        beta_max: None,
    };
    assert!(nan_risk_level.validate().is_err());
}

#[test]
fn risk_level_beta_bounds_must_be_finite_and_not_negative() {
    let level = |lo: Option<f64>, hi: Option<f64>| RiskLevelConfig {
        target_min: g(0.20),
        target_max: g(0.25),
        sl_min: g(-0.08),
        sl_max: g(-0.07),
        beta_min: lo.map(f),
        beta_max: hi.map(f),
    };
    assert!(matches!(level(Some(-0.5), None).validate(), Err(ConfigError::ValidationError(m)) if m == "Invalid beta_min"));
    assert!(matches!(level(None, Some(f64::INFINITY)).validate(), Err(ConfigError::ValidationError(m)) if m == "Invalid beta_max"));
    assert!(matches!(level(Some(1.0), Some(f64::NAN)).validate(), Err(ConfigError::ValidationError(m)) if m == "Invalid beta_max"));
    assert!(level(Some(0.0), None).validate().is_ok());
    assert!(level(Some(-0.0), Some(1.0)).validate().is_ok());
    assert!(level(None, Some(1.25)).validate().is_ok());
}

// --- errors ---

#[test]
fn test_domain_error_from_conversions() {
    let mkt_err = MarketDataError::StaleData(1700000000);
    let domain_err: DomainError = mkt_err.into();
    assert!(matches!(domain_err, DomainError::MarketData(_)));

    let ind_err = IndicatorError::CalculationError(s("NaN"));
    let domain_err: DomainError = ind_err.into();
    assert!(matches!(domain_err, DomainError::Indicator(_)));

    let risk_err = RiskError::InsufficientData(s("100 candles needed"));
    let domain_err: DomainError = risk_err.into();
    assert!(matches!(domain_err, DomainError::Risk(_)));

    let sig_err = SignalError::Conflict(s("Long & Short signals"));
    let domain_err: DomainError = sig_err.into();
    assert!(matches!(domain_err, DomainError::Signal(_)));

    let modl_err = ModelError::InferenceError(s("Bad weights"));
    let domain_err: DomainError = modl_err.into();
    assert!(matches!(domain_err, DomainError::Model(_)));

    let alert_err = AlertError::DeliveryFailed(s("Telegram down"));
    let domain_err: DomainError = alert_err.into();
    assert!(matches!(domain_err, DomainError::Alert(_)));
}

#[test]
fn test_error_display_messages() {
    let err = AlertError::RateLimited { retry_after_secs: 100 };
    assert_eq!(err.message(), "Vượt quá giới hạn tần suất gửi tin (Rate limited): thử lại sau 100s");
}

#[test]
fn domain_error_message_prefixes_inner_message() {
    let err: DomainError = AlertError::RateLimited { retry_after_secs: 7 }.into();
    assert_eq!(
        err.message(),
        "Lỗi cảnh báo: Vượt quá giới hạn tần suất gửi tin (Rate limited): thử lại sau 7s"
    );
    let cfg: DomainError = ConfigError::ValidationError(s("Invalid provider")).into();
    assert!(cfg.message().starts_with("Lỗi cấu hình: "));
    assert!(cfg.message().ends_with("Invalid provider"));
}

// --- market events ---

fn dummy_ts() -> MarketTimestamp {
    MarketTimestamp::from_epoch_secs(1725300000).expect("valid")
}

#[test]
fn test_trade_valid_and_normalization() {
    let trade = Trade::new(s("  vnm  "), f(65000.0), f(100.0), dummy_ts()).expect("valid");
    assert_eq!(trade.symbol, "VNM");
    assert_eq!(trade.price, f(65000.0));
    assert_eq!(trade.volume, f(100.0));
    assert_eq!(trade.timestamp, dummy_ts());
}

#[test]
fn test_trade_invalid_symbol() {
    let err_empty = Trade::new(s(""), f(65000.0), f(100.0), dummy_ts());
    assert!(matches!(err_empty, Err(MarketDataError::InvalidSymbol(_))));
    let err_spaces = Trade::new(s("   "), f(65000.0), f(100.0), dummy_ts());
    assert!(matches!(err_spaces, Err(MarketDataError::InvalidSymbol(_))));
}

#[test]
fn test_trade_invalid_price() {
    let err_zero = Trade::new(s("VNM"), f(0.0), f(100.0), dummy_ts());
    assert!(matches!(err_zero, Err(MarketDataError::InvalidPrice(_))));
    let err_neg = Trade::new(s("VNM"), f(-10.0), f(100.0), dummy_ts());
    assert!(matches!(err_neg, Err(MarketDataError::InvalidPrice(_))));
    let err_nan = Trade::new(s("VNM"), f(f64::NAN), f(100.0), dummy_ts());
    assert!(matches!(err_nan, Err(MarketDataError::InvalidPrice(_))));
    let err_inf = Trade::new(s("VNM"), f(f64::INFINITY), f(100.0), dummy_ts());
    assert!(matches!(err_inf, Err(MarketDataError::InvalidPrice(_))));
}

#[test]
fn test_trade_invalid_volume() {
    let err_zero = Trade::new(s("VNM"), f(65000.0), f(0.0), dummy_ts());
    assert!(matches!(err_zero, Err(MarketDataError::InvalidVolume(_))));
    let err_neg = Trade::new(s("VNM"), f(65000.0), f(-1.0), dummy_ts());
    assert!(matches!(err_neg, Err(MarketDataError::InvalidVolume(_))));
    let err_nan = Trade::new(s("VNM"), f(65000.0), f(f64::NAN), dummy_ts());
    assert!(matches!(err_nan, Err(MarketDataError::InvalidVolume(_))));
}

#[test]
fn test_trade_invalid_timestamp() {
    assert!(MarketTimestamp::from_epoch_millis(0).is_err());
    assert!(MarketTimestamp::from_epoch_millis(-100).is_err());
}

#[test]
fn test_quote_valid_and_normalization() {
    let quote = Quote::new(s(" hpg "), f(28500.0), f(200.0), f(28550.0), f(150.0), dummy_ts()).expect("valid");
    assert_eq!(quote.symbol, "HPG");
    assert_eq!(quote.bid_price, f(28500.0));
    assert_eq!(quote.bid_vol, f(200.0));
    assert_eq!(quote.ask_price, f(28550.0));
    assert_eq!(quote.ask_vol, f(150.0));

    let quote_ceiling = Quote::new(s("HPG"), f(30000.0), f(500.0), f(0.0), f(0.0), dummy_ts()).expect("valid");
    assert_eq!(quote_ceiling.ask_vol, f(0.0));
}

#[test]
fn test_quote_invalid_fields() {
    let err_sym = Quote::new(s(""), f(28500.0), f(100.0), f(28550.0), f(100.0), dummy_ts());
    assert!(matches!(err_sym, Err(MarketDataError::InvalidSymbol(_))));
    let err_bid_neg = Quote::new(s("HPG"), f(-1.0), f(100.0), f(28550.0), f(100.0), dummy_ts());
    assert!(matches!(err_bid_neg, Err(MarketDataError::InvalidPrice(_))));
    let err_ask_nan = Quote::new(s("HPG"), f(28500.0), f(100.0), f(f64::NAN), f(100.0), dummy_ts());
    assert!(matches!(err_ask_nan, Err(MarketDataError::InvalidPrice(_))));
    let err_bid_vol_neg = Quote::new(s("HPG"), f(28500.0), f(-10.0), f(28550.0), f(100.0), dummy_ts());
    assert!(matches!(err_bid_vol_neg, Err(MarketDataError::InvalidVolume(_))));
    assert!(MarketTimestamp::from_epoch_millis(-1).is_err());
}

#[test]
fn quote_messages_name_the_failed_field() {
    let bad_ask_vol = Quote::new(s("HPG"), f(28500.0), f(1.0), f(28550.0), f(f64::INFINITY), dummy_ts());
    assert!(matches!(bad_ask_vol, Err(MarketDataError::InvalidVolume(m)) if m == "ask_vol không hợp lệ"));
    let bad_ask = Quote::new(s("HPG"), f(28500.0), f(1.0), f(-5.0), f(1.0), dummy_ts());
    assert!(matches!(bad_ask, Err(MarketDataError::InvalidPrice(m)) if m == "ask_price không hợp lệ"));
}

#[test]
fn test_market_event_variants() {
    let trade = Trade::new(s("HPG"), f(28500.0), f(100.0), dummy_ts()).unwrap();
    let event_trade = MarketEvent::Trade(trade.clone());
    let quote = Quote::new(s("HPG"), f(28500.0), f(100.0), f(28550.0), f(100.0), dummy_ts()).unwrap();
    let event_quote = MarketEvent::Quote(quote.clone());
    match event_trade {
        MarketEvent::Trade(t) => assert_eq!(t, trade),
        _ => panic!("Expected Trade variant"),
    }
    match event_quote {
        MarketEvent::Quote(q) => assert_eq!(q, quote),
        _ => panic!("Expected Quote variant"),
    }
}

#[test]
fn test_quote_crossed_market() {
    let err_crossed = Quote::new(s("HPG"), f(29000.0), f(100.0), f(28500.0), f(100.0), dummy_ts());
    match err_crossed {
        Err(MarketDataError::CrossedMarket { symbol, bid, ask }) => {
            assert_eq!(symbol, "HPG");
            assert_eq!(bid, f(29000.0));
            assert_eq!(ask, f(28500.0));
        }
        other => panic!("Expected CrossedMarket error, got {:?}", other),
    }
    let err_equal = Quote::new(s("HPG"), f(28500.0), f(100.0), f(28550.0), f(100.0), dummy_ts());
    assert!(err_equal.is_ok());
    let err_strictly_equal = Quote::new(s("HPG"), f(28500.0), f(100.0), f(28500.0), f(100.0), dummy_ts());
    assert!(matches!(err_strictly_equal, Err(MarketDataError::CrossedMarket { .. })));
}

#[test]
fn test_quote_both_bid_and_ask_zero() {
    let err_both_zero = Quote::new(s("HPG"), f(0.0), f(0.0), f(0.0), f(0.0), dummy_ts());
    assert!(matches!(err_both_zero, Err(MarketDataError::InvalidPrice(_))));
}

#[test]
fn test_quote_ceiling_and_floor_validity() {
    let quote_ceiling = Quote::new(s("HPG"), f(30000.0), f(500.0), f(0.0), f(0.0), dummy_ts());
    assert!(quote_ceiling.is_ok());
    let q_ceil = quote_ceiling.unwrap();
    assert_eq!(q_ceil.bid_price, f(30000.0));
    assert_eq!(q_ceil.ask_price, f(0.0));
    let quote_floor = Quote::new(s("HPG"), f(0.0), f(0.0), f(26000.0), f(500.0), dummy_ts());
    assert!(quote_floor.is_ok());
    let q_flr = quote_floor.unwrap();
    assert_eq!(q_flr.bid_price, f(0.0));
    assert_eq!(q_flr.ask_price, f(26000.0));
}

#[test]
fn test_qa_quote_allows_zero_price_with_positive_volume() {
    let ts = MarketTimestamp::from_epoch_secs(1725530400).unwrap();
    let zero_bid = Quote::new(s("HPG"), f(0.0), f(10000.0), f(28000.0), f(500.0), ts);
    assert!(zero_bid.is_err());
    let zero_ask = Quote::new(s("HPG"), f(28000.0), f(500.0), f(0.0), f(10000.0), ts);
    assert!(zero_ask.is_err());
}

#[test]
fn quote_side_price_and_volume_are_zero_together() {
    let ts = MarketTimestamp::from_epoch_secs(1725530400).unwrap();
    match Quote::new(s("HPG"), f(0.0), f(10000.0), f(28000.0), f(500.0), ts) {
        Err(MarketDataError::InvalidPrice(m)) => {
            assert_eq!(m, "bid_price và bid_vol phải cùng bằng 0 hoặc cùng lớn hơn 0")
        }
        other => panic!("unexpected {:?}", other),
    }
    assert!(matches!(
        Quote::new(s("HPG"), f(28000.0), f(500.0), f(29000.0), f(0.0), ts),
        Err(MarketDataError::InvalidPrice(_))
    ));
    assert!(matches!(
        Quote::new(s("HPG"), f(28000.0), f(0.0), f(29000.0), f(10.0), ts),
        Err(MarketDataError::InvalidPrice(_))
    ));
    assert!(Quote::new(s("HPG"), f(-0.0), f(0.0), f(29000.0), f(10.0), ts).is_ok());
}

#[test]
fn test_qa_quote_negative_zero_handling() {
    let ts = MarketTimestamp::from_epoch_secs(1725530400).unwrap();
    let neg_zero = -0.0f64;
    let quote_res = Quote::new(s("HPG"), f(28000.0), f(100.0), f(neg_zero), f(neg_zero), ts);
    assert!(quote_res.is_ok());
}

// --- symbols ---

#[test]
fn test_stock_symbol_valid_and_exchange_strip() {
    assert_eq!(StockSymbol::new("HPG").unwrap().symbol, "HPG");
    assert_eq!(StockSymbol::new("  vnm  ").unwrap().symbol, "VNM");
    assert_eq!(StockSymbol::new("fpt").unwrap().symbol, "FPT");
    assert_eq!(StockSymbol::new("HOSE:HPG").unwrap().symbol, "HPG");
    assert_eq!(StockSymbol::new("HPG.HOSE").unwrap().symbol, "HPG");
    assert_eq!(StockSymbol::new("UPCOM:BSR").unwrap().symbol, "BSR");
    assert_eq!(StockSymbol::new("HNX/SHB").unwrap().symbol, "SHB");
}

#[test]
fn test_stock_symbol_invalid() {
    assert!(StockSymbol::new("").is_err());
    assert!(StockSymbol::new("   ").is_err());
    assert!(StockSymbol::new("HP").is_err());
    assert!(StockSymbol::new("HPGG").is_err());
    assert!(StockSymbol::new("123").is_err());
    assert!(StockSymbol::new("HP@").is_err());
    assert!(StockSymbol::new("HOSE").is_err());
}

#[test]
fn stock_symbol_error_reasons() {
    assert!(matches!(StockSymbol::new(""), Err(MarketDataError::InvalidData { reason, .. }) if reason == "Symbol is empty"));
    assert!(matches!(StockSymbol::new("HP"), Err(MarketDataError::InvalidData { reason, .. }) if reason == "Stock symbol must be 3 alphabetic characters"));
}

#[test]
fn test_future_contract_valid() {
    let fc = FutureContract::new("VN30F2409").unwrap();
    assert_eq!(fc.underlying, "VN30F");
    assert_eq!(fc.year, 24);
    assert_eq!(fc.month, 9);
    assert_eq!(fc.canonical_symbol, "VN30F2409");
    let fc_lower = FutureContract::new("vn30f2512").unwrap();
    assert_eq!(fc_lower.canonical_symbol, "VN30F2512");
    assert_eq!(fc_lower.month, 12);
}

#[test]
fn test_future_contract_invalid() {
    assert!(FutureContract::new("VN30F").is_err());
    assert!(FutureContract::new("VN30F2").is_err());
    assert!(FutureContract::new("VN30F240").is_err());
    assert!(FutureContract::new("VN30F2413").is_err());
    assert!(FutureContract::new("VN30F2400").is_err());
    assert!(FutureContract::new("VN100F2409").is_err());
}

#[test]
fn future_contract_refuses_non_digit_year_and_month() {
    let accented = FutureContract::new("VN30F2\u{00C0}0").unwrap_err();
    match accented {
        MarketDataError::InvalidData { reason, .. } => {
            assert_eq!(reason, "Year is invalid: invalid digit found in string")
        }
        other => panic!("unexpected error {:?}", other),
    }
    assert!(FutureContract::new("VN30F2\u{00E9}1").is_err());
    assert!(FutureContract::new("VN30F+1+9").is_err());
    assert!(FutureContract::new("VN30F24+9").is_err());
    assert!(FutureContract::new("VN30F 409").is_err());
    assert_eq!(FutureContract::new("VN30F2409").unwrap().month, 9);
}

#[test]
fn test_index_symbol() {
    assert_eq!(IndexSymbol::new("VN30").unwrap().symbol, "VN30");
    assert_eq!(IndexSymbol::new("  vnindex  ").unwrap().symbol, "VNINDEX");
    assert!(IndexSymbol::new("VN50").is_err());
}

#[test]
fn test_instrument_parse_canonical() {
    let stock = Instrument::parse_canonical("HPG").unwrap();
    assert_eq!(stock.as_str(), "HPG");
    assert!(matches!(stock, Instrument::Stock(_)));
    let future = Instrument::parse_canonical("VN30F2409").unwrap();
    assert_eq!(future.as_str(), "VN30F2409");
    assert!(matches!(future, Instrument::IndexFuture(_)));
    let index = Instrument::parse_canonical("VN30").unwrap();
    assert_eq!(index.as_str(), "VN30");
    assert!(matches!(index, Instrument::Index(_)));
    assert!(Instrument::parse_canonical("INVALID_LONG_TICKER").is_err());
    assert!(Instrument::parse_canonical("VN30F").is_err());
}

#[test]
fn test_qa_stock_symbol_trailing_garbage_asymmetry() {
    let trailing = StockSymbol::new("HPG:GARBAGE");
    assert!(trailing.is_err());
    let leading = StockSymbol::new("GARBAGE:HPG");
    assert!(leading.is_err());
}

#[test]
fn stock_symbol_takes_one_ticker_and_one_exchange() {
    match StockSymbol::new("HPG:GARBAGE").unwrap_err() {
        MarketDataError::InvalidData { symbol, reason } => {
            assert_eq!(symbol, "HPG:GARBAGE");
            assert_eq!(reason, "Symbol must be one ticker with at most one exchange name");
        }
        other => panic!("unexpected error {:?}", other),
    }
    assert!(StockSymbol::new("HOSE:HNX:HPG").is_err());
    assert!(StockSymbol::new("HPG:VNM").is_err());
    assert!(StockSymbol::new("HPG:").is_err());
    assert_eq!(StockSymbol::new(" hose : hpg ").unwrap().symbol, "HPG");
    match StockSymbol::new("HOSE").unwrap_err() {
        MarketDataError::InvalidData { reason, .. } => {
            assert_eq!(reason, "Symbol is not in any exchange")
        }
        other => panic!("unexpected error {:?}", other),
    }
}

#[test]
fn test_qa_instrument_parse_canonical_with_exchange_prefix() {
    let stock = Instrument::parse_canonical("HOSE:HPG");
    assert!(stock.is_ok());
    let index_with_prefix = Instrument::parse_canonical("HOSE:VN30");
    assert_eq!(
        index_with_prefix.unwrap(),
        Instrument::Index(IndexSymbol { symbol: "VN30".to_string() })
    );
    let future_with_prefix = Instrument::parse_canonical("HNX:VN30F2409");
    assert!(matches!(future_with_prefix, Ok(Instrument::IndexFuture(f)) if f.canonical_symbol == "VN30F2409"));
}

#[test]
fn parse_canonical_strips_exchange_suffix_and_reparses() {
    let f = Instrument::parse_canonical("vn30f2412.hnx").unwrap();
    assert_eq!(f.as_str(), "VN30F2412");
    assert_eq!(Instrument::parse_canonical(f.as_str()).unwrap(), f);
    let s = Instrument::parse_canonical("HOSE:hpg").unwrap();
    assert_eq!(s.as_str(), "HPG");
    assert_eq!(Instrument::parse_canonical(s.as_str()).unwrap(), s);
    assert!(Instrument::parse_canonical("HOSE:VN30:HPG").is_err());
    assert!(Instrument::parse_canonical("HNX:VN30F2413").is_err());
}

// --- timestamps ---

#[test]
fn test_valid_from_epoch_millis() {
    let ms = 1_725_530_400_000;
    let ts = MarketTimestamp::from_epoch_millis(ms).expect("valid");
    assert_eq!(ts.timestamp_millis(), ms);
    assert_eq!(ts.timestamp_secs(), 1_725_530_400);
    assert_eq!(ts.year(), 2024);
}

#[test]
fn test_valid_from_epoch_secs() {
    let secs = 1_725_530_400;
    let ts = MarketTimestamp::from_epoch_secs(secs).expect("valid");
    assert_eq!(ts.timestamp_secs(), secs);
    assert_eq!(ts.timestamp_millis(), secs * 1000);
}

#[test]
fn test_reject_negative_or_zero_timestamp() {
    assert!(MarketTimestamp::from_epoch_millis(-1).is_err());
    assert!(MarketTimestamp::from_epoch_millis(0).is_err());
    assert!(MarketTimestamp::from_epoch_secs(-100).is_err());
    assert!(MarketTimestamp::from_epoch_secs(0).is_err());
}

#[test]
fn test_reject_year_before_2000() {
    assert!(MarketTimestamp::from_epoch_millis(1000).is_err());
    let pre_2000_ms = 946_684_799_000;
    assert!(MarketTimestamp::from_epoch_millis(pre_2000_ms).is_err());
}

#[test]
fn test_reject_year_after_2100() {
    let post_2100_ms = 4_133_980_800_000;
    assert!(MarketTimestamp::from_epoch_millis(post_2100_ms).is_err());
}

#[test]
fn year_bounds_are_inclusive() {
    assert_eq!(MarketTimestamp::from_epoch_secs(946_684_800).unwrap().year(), 2000);
    assert_eq!(MarketTimestamp::from_epoch_secs(4_133_980_799).unwrap().year(), 2100);
    assert!(MarketTimestamp::from_epoch_secs(4_133_980_800).is_err());
}

#[test]
fn test_ordering_and_equality() {
    let t1 = MarketTimestamp::from_epoch_millis(1_725_530_400_000).unwrap();
    let t2 = MarketTimestamp::from_epoch_millis(1_725_530_401_000).unwrap();
    assert!(t1 < t2);
    assert_eq!(t1, t1);
    assert_ne!(t1, t2);
    assert!(t1.lt(&t2) && t1.le(&t2) && !t2.le(&t1) && t1.same(&t1));
}

#[test]
fn raw_epoch_unit_follows_magnitude() {
    let secs = MarketTimestamp::from_raw_epoch(1_724_900_000).unwrap();
    assert_eq!(secs.timestamp_millis(), 1_724_900_000_000);
    let millis = MarketTimestamp::from_raw_epoch(1_724_900_000_123).unwrap();
    assert_eq!(millis.timestamp_millis(), 1_724_900_000_123);
    assert_eq!(millis.subsec_nanos(), 123_000_000);
    assert!(matches!(MarketTimestamp::from_raw_epoch(5), Err(MarketDataError::InvalidTimestamp(m)) if m == "Invalid timestamp"));
}

#[test]
fn test_checked_sub_duration_success() {
    let base_ms = 1_725_530_400_000;
    let ts = MarketTimestamp::from_epoch_millis(base_ms).unwrap();
    let sub_dur = TimeSpan::from_millis(2500);
    let result = ts.checked_sub_duration(sub_dur).expect("should succeed");
    assert_eq!(result.timestamp_millis(), base_ms - 2500);
    assert_eq!(result.timestamp_secs(), (base_ms - 2500) / 1000);
}

#[test]
fn test_checked_sub_duration_underflow() {
    let base_ms = 1_725_530_400_000;
    let ts = MarketTimestamp::from_epoch_millis(base_ms).unwrap();
    let thirty_years = TimeSpan::from_secs(30 * 365 * 24 * 3600);
    let result = ts.checked_sub_duration(thirty_years);
    assert!(result.is_err());
}

#[test]
fn checked_sub_duration_refuses_span_beyond_time_delta() {
    let ts = MarketTimestamp::from_epoch_secs(1_725_530_400).unwrap();
    let huge = TimeSpan::from_secs(u64::MAX);
    assert!(matches!(ts.checked_sub_duration(huge), Err(MarketDataError::InvalidTimestamp(m)) if m == "Source duration value is out of range for the target type"));
}

#[test]
fn leap_second_timestamps_are_accepted() {
    let ts = MarketTimestamp::from_utc_parts(1_483_228_799, 1_500_000_000).expect("leap second");
    assert_eq!(ts.timestamp_millis(), 1_483_228_799_000 + 1_500);
    assert_eq!(ts.subsec_nanos(), 500_000_000);
    assert_eq!(ts.timestamp_secs(), 1_483_228_800);
    assert!(MarketTimestamp::from_utc_parts(0, 1_500_000_000).is_err());
    let plain = MarketTimestamp::from_utc_parts(1_483_228_799, 999_999_999).unwrap();
    assert!(plain.lt(&ts));
}

#[test]
fn bot_token_comes_from_a_set_non_blank_variable() {
    let cfg = TelegramConfig { bot_token_env: s("BOT_TOKEN"), chat_allowlist: vec![], debounce_cooldown_mins: 0 };
    assert_eq!(cfg.bot_token_from(Some(s("abc:123"))).unwrap(), "abc:123");
    assert!(matches!(cfg.bot_token_from(Some(s("  "))), Err(ConfigError::MissingEnvVar(n)) if n == "BOT_TOKEN"));
    assert!(matches!(cfg.bot_token_from(None), Err(ConfigError::MissingEnvVar(n)) if n == "BOT_TOKEN"));
}

#[test]
fn time_span_carries_whole_seconds_from_nanoseconds() {
    let span = TimeSpan::new(5, 2_500_000_000);
    assert_eq!(span.as_secs(), 7);
    assert_eq!(span.subsec_nanos(), 500_000_000);
    let plain = TimeSpan::new(1, 42);
    assert_eq!(plain.as_secs(), 1);
    assert_eq!(plain.subsec_nanos(), 42);
}
