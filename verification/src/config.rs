//! Application configuration and its validation rules.
//!
//! Each section checks its own fields in a fixed order and reports the first
//! rule broken as a `ValidationError` with a fixed message; the whole
//! configuration reports the first failing section, in declaration order.
//! Reading the TOML text into these types is serde's work and happens where
//! the file is read.

use vstd::prelude::*;
use crate::errors::ConfigError;
use crate::ieee::{Ieee32, Ieee64};
use crate::text::{is_blank, is_blank_str, is_white, owned, starts_with, text_eq, text_starts_with, texts};

verus! {

/// Whether chrono's `NaiveTime::parse_from_str(text, "%H:%M:%S")` accepts
/// `text`.
pub uninterp spec fn hms_time_accepted(text: Seq<char>) -> bool;

/// `chrono::NaiveTime::parse_from_str(text, "%H:%M:%S").is_ok()`. The
/// contract names the answer; chrono's reading of the pattern (field
/// widths, ranges, leap seconds, what may surround the fields) is not
/// restated.
#[verifier::external_body]
fn parses_as_hms(text: &str) -> (r: bool)
    ensures
        r == hms_time_accepted(text@),
{
    chrono::NaiveTime::parse_from_str(text, "%H:%M:%S").is_ok()
}

/// The result of a validation: `Ok` without a broken rule, otherwise the
/// message of the first one.
pub open spec fn validation_outcome(broken: Option<Seq<char>>, r: Result<(), ConfigError>) -> bool {
    match broken {
        None => r is Ok,
        Some(m) => r matches Err(ConfigError::ValidationError(x)) && x@ == m,
    }
}

fn invalid(msg: &str) -> (r: Result<(), ConfigError>)
    ensures
        r matches Err(ConfigError::ValidationError(x)) && x@ == msg@,
{
    Err(ConfigError::ValidationError(owned(msg)))
}

#[derive(Debug, Clone, PartialEq)]
pub struct ServerConfig {
    pub environment: String,
    pub log_level: String,
}

pub open spec fn server_broken_rule(c: ServerConfig) -> Option<Seq<char>> {
    let e = c.environment@;
    let l = c.log_level@;
    if !(e == "development"@ || e == "production"@ || e == "test"@) {
        Some("Invalid environment"@)
    } else if !(l == "info"@ || l == "debug"@ || l == "error"@ || l == "warn"@ || l == "trace"@) {
        Some("Invalid log level"@)
    } else {
        None
    }
}

impl ServerConfig {
    /// The environment is one of development, production, test; the log
    /// level one of info, debug, error, warn, trace.
    pub fn validate(&self) -> (r: Result<(), ConfigError>)
        ensures
            validation_outcome(server_broken_rule(*self), r),
    {
        let e = self.environment.as_str();
        if !(text_eq(e, "development") || text_eq(e, "production") || text_eq(e, "test")) {
            return invalid("Invalid environment");
        }
        let l = self.log_level.as_str();
        if !(text_eq(l, "info") || text_eq(l, "debug") || text_eq(l, "error") || text_eq(l, "warn")
            || text_eq(l, "trace")) {
            return invalid("Invalid log level");
        }
        Ok(())
    }
}

#[derive(Debug, Clone, PartialEq)]
pub struct MarketDataConfig {
    pub provider: String,
    pub ws_endpoint: String,
    pub reconnect_initial_backoff_ms: u64,
    pub reconnect_max_backoff_ms: u64,
    pub heartbeat_interval_secs: u64,
    pub max_tick_staleness_secs: u64,
}

pub open spec fn market_data_broken_rule(c: MarketDataConfig) -> Option<Seq<char>> {
    let p = c.provider@;
    let w = c.ws_endpoint@;
    if !(p == "SSI_FASTCONNECT"@ || p == "VNDIRECT"@ || p == "VPS"@ || p == "SIMULATOR"@) {
        Some("Invalid provider"@)
    } else if is_blank(w) {
        Some("Invalid ws_endpoint"@)
    } else if !starts_with(w, "ws://"@) && !starts_with(w, "wss://"@) {
        Some("ws_endpoint must start with ws:// or wss://"@)
    } else if c.reconnect_initial_backoff_ms == 0 {
        Some("Invalid reconnect_initial_backoff_ms"@)
    } else if c.reconnect_max_backoff_ms == 0 {
        Some("Invalid reconnect_max_backoff_ms"@)
    } else if c.reconnect_max_backoff_ms < c.reconnect_initial_backoff_ms {
        Some(
            "reconnect_max_backoff_ms must be greater than or equal to reconnect_initial_backoff_ms"@,
        )
    } else if c.heartbeat_interval_secs == 0 {
        Some("Invalid heartbeat_interval_secs"@)
    } else if c.max_tick_staleness_secs == 0 {
        Some("Invalid max_tick_staleness_secs"@)
    } else {
        None
    }
}

impl MarketDataConfig {
    /// A known provider, a non-blank `ws://` or `wss://` endpoint, non-zero
    /// back-offs with the maximum at least the initial one, and non-zero
    /// heartbeat and staleness periods.
    pub fn validate(&self) -> (r: Result<(), ConfigError>)
        ensures
            validation_outcome(market_data_broken_rule(*self), r),
    {
        let p = self.provider.as_str();
        if !(text_eq(p, "SSI_FASTCONNECT") || text_eq(p, "VNDIRECT") || text_eq(p, "VPS") || text_eq(
            p,
            "SIMULATOR",
        )) {
            return invalid("Invalid provider");
        }
        let w = self.ws_endpoint.as_str();
        if is_blank_str(w) {
            return invalid("Invalid ws_endpoint");
        }
        if !text_starts_with(w, "ws://") && !text_starts_with(w, "wss://") {
            return invalid("ws_endpoint must start with ws:// or wss://");
        }
        if self.reconnect_initial_backoff_ms == 0 {
            return invalid("Invalid reconnect_initial_backoff_ms");
        }
        if self.reconnect_max_backoff_ms == 0 {
            return invalid("Invalid reconnect_max_backoff_ms");
        }
        if self.reconnect_max_backoff_ms < self.reconnect_initial_backoff_ms {
            return invalid(
                "reconnect_max_backoff_ms must be greater than or equal to reconnect_initial_backoff_ms",
            );
        }
        if self.heartbeat_interval_secs == 0 {
            return invalid("Invalid heartbeat_interval_secs");
        }
        if self.max_tick_staleness_secs == 0 {
            return invalid("Invalid max_tick_staleness_secs");
        }
        Ok(())
    }
}

/// Which market-data sections are accepted: exactly those naming one of
/// the four providers, with an endpoint that begins `ws://` or `wss://`,
/// an initial back-off above zero and a maximum back-off at least as long,
/// and a heartbeat interval and a staleness limit above zero.
pub proof fn lemma_market_data_accepted(c: MarketDataConfig)
    ensures
        market_data_broken_rule(c) is None <==> {
            &&& (c.provider@ == "SSI_FASTCONNECT"@ || c.provider@ == "VNDIRECT"@ || c.provider@ == "VPS"@
                || c.provider@ == "SIMULATOR"@)
            &&& (starts_with(c.ws_endpoint@, "ws://"@) || starts_with(c.ws_endpoint@, "wss://"@))
            &&& c.reconnect_initial_backoff_ms > 0
            &&& c.reconnect_max_backoff_ms >= c.reconnect_initial_backoff_ms
            &&& c.heartbeat_interval_secs > 0
            &&& c.max_tick_staleness_secs > 0
        },
{
    reveal_strlit("ws://");
    reveal_strlit("wss://");
    let w = c.ws_endpoint@;
    if starts_with(w, "ws://"@) {
        assert(w[0] == w.subrange(0, 5)[0]);
    }
    if starts_with(w, "wss://"@) {
        assert(w[0] == w.subrange(0, 6)[0]);
    }
    if starts_with(w, "ws://"@) || starts_with(w, "wss://"@) {
        assert(w[0] == 'w');
        assert(!is_white(w[0]));
        assert(!is_blank(w));
    }
}

#[derive(Debug, Clone, PartialEq)]
pub struct BasketConfig {
    pub sync_time: String,
    pub symbols: Vec<String>,
}

/// Whether some text occurs twice in a list.
pub open spec fn has_repeat(s: Seq<Seq<char>>) -> bool {
    exists|i: int, j: int| 0 <= i < j < s.len() && s[i] == s[j]
}

/// The rules of a basket other than its time format, then the time format
/// as `time_ok` tells.
pub open spec fn basket_broken_rule_with(c: BasketConfig, time_ok: bool) -> Option<Seq<char>> {
    let s = texts(c.symbols@);
    if s.len() == 0 {
        Some("Symbols list cannot be empty"@)
    } else if exists|i: int| 0 <= i < s.len() && is_blank(#[trigger] s[i]) {
        Some("Invalid symbol"@)
    } else if has_repeat(s) {
        Some("Duplicate symbols found"@)
    } else if !time_ok {
        Some("Invalid sync_time format"@)
    } else {
        None
    }
}

pub open spec fn basket_broken_rule(c: BasketConfig) -> Option<Seq<char>> {
    basket_broken_rule_with(c, hms_time_accepted(c.sync_time@))
}

impl BasketConfig {
    /// A non-empty list of non-blank, distinct tickers and a sync time in
    /// `HH:MM:SS` form (as chrono reads it).
    pub fn validate(&self) -> (r: Result<(), ConfigError>)
        ensures
            validation_outcome(basket_broken_rule(*self), r),
    {
        let time_ok = parses_as_hms(self.sync_time.as_str());
        self.validate_given_time(time_ok)
    }

    /// The basket rules, with the verdict on the sync time's format given.
    pub fn validate_given_time(&self, sync_time_ok: bool) -> (r: Result<(), ConfigError>)
        ensures
            validation_outcome(basket_broken_rule_with(*self, sync_time_ok), r),
    {
        let ghost s = texts(self.symbols@);
        let n = self.symbols.len();
        if n == 0 {
            return invalid("Symbols list cannot be empty");
        }
        let mut i: usize = 0;
        while i < n
            invariant
                n == self.symbols@.len(),
                s == texts(self.symbols@),
                0 <= i <= n,
                forall|k: int| 0 <= k < i ==> !is_blank(#[trigger] s[k]),
            decreases n - i,
        {
            if is_blank_str(self.symbols[i].as_str()) {
                assert(is_blank(s[i as int]));
                return invalid("Invalid symbol");
            }
            i = i + 1;
        }
        let mut a: usize = 0;
        while a < n
            invariant
                n == self.symbols@.len(),
                s == texts(self.symbols@),
                0 <= a <= n,
                forall|x: int, y: int| 0 <= x < a && x < y < n ==> s[x] != s[y],
                forall|k: int| 0 <= k < n ==> !is_blank(#[trigger] s[k]),
            decreases n - a,
        {
            let mut b: usize = a + 1;
            while b < n
                invariant
                    n == self.symbols@.len(),
                    s == texts(self.symbols@),
                    0 <= a < n,
                    a + 1 <= b <= n,
                    forall|x: int, y: int| 0 <= x < a && x < y < n ==> s[x] != s[y],
                    forall|y: int| a < y < b ==> s[a as int] != s[y],
                    forall|k: int| 0 <= k < n ==> !is_blank(#[trigger] s[k]),
                decreases n - b,
            {
                if text_eq(self.symbols[a].as_str(), self.symbols[b].as_str()) {
                    assert(s[a as int] == s[b as int]);
                    return invalid("Duplicate symbols found");
                }
                b = b + 1;
            }
            a = a + 1;
        }
        if !sync_time_ok {
            return invalid("Invalid sync_time format");
        }
        Ok(())
    }
}

#[derive(Debug, Clone, PartialEq)]
pub struct StateStoreConfig {
    pub rolling_window_size: u64,
}

pub open spec fn state_store_broken_rule(c: StateStoreConfig) -> Option<Seq<char>> {
    if c.rolling_window_size == 0 {
        Some("Invalid rolling_window_size"@)
    } else {
        None
    }
}

impl StateStoreConfig {
    /// A non-zero rolling window.
    pub fn validate(&self) -> (r: Result<(), ConfigError>)
        ensures
            validation_outcome(state_store_broken_rule(*self), r),
    {
        if self.rolling_window_size == 0 {
            return invalid("Invalid rolling_window_size");
        }
        Ok(())
    }
}

#[derive(Debug, Clone, PartialEq)]
pub struct FeaturesConfig {
    pub beta_lookback_bars: u64,
    pub min_valid_samples: u64,
}

pub open spec fn features_broken_rule(c: FeaturesConfig) -> Option<Seq<char>> {
    if c.beta_lookback_bars == 0 {
        Some("Invalid beta_lookback_bars"@)
    } else if c.min_valid_samples == 0 {
        Some("Invalid min_valid_samples"@)
    } else if c.min_valid_samples > c.beta_lookback_bars {
        Some("min_valid_samples cannot be greater than beta_lookback_bars"@)
    } else {
        None
    }
}

impl FeaturesConfig {
    /// Non-zero look-back and sample minimum, the minimum within the
    /// look-back.
    pub fn validate(&self) -> (r: Result<(), ConfigError>)
        ensures
            validation_outcome(features_broken_rule(*self), r),
    {
        if self.beta_lookback_bars == 0 {
            return invalid("Invalid beta_lookback_bars");
        }
        if self.min_valid_samples == 0 {
            return invalid("Invalid min_valid_samples");
        }
        if self.min_valid_samples > self.beta_lookback_bars {
            return invalid("min_valid_samples cannot be greater than beta_lookback_bars");
        }
        Ok(())
    }
}

#[derive(Debug, Clone, PartialEq)]
pub struct ModelConfig {
    pub artifact_path: String,
    pub retrain_schedule: String,
    /// A 32-bit float, by its bit pattern.
    pub min_confidence_score: Ieee32,
}

pub open spec fn model_broken_rule(c: ModelConfig) -> Option<Seq<char>> {
    let zero = Ieee32 { bits: 0 };
    let one = Ieee32 { bits: 0x3F80_0000 };
    if is_blank(c.artifact_path@) {
        Some("Invalid artifact_path"@)
    } else if is_blank(c.retrain_schedule@) {
        Some("Invalid retrain_schedule"@)
    } else if !(zero.le_spec(c.min_confidence_score) && c.min_confidence_score.le_spec(one)) {
        Some("Invalid min_confidence_score"@)
    } else {
        None
    }
}

impl ModelConfig {
    /// Non-blank artifact path and retraining schedule, and a confidence
    /// threshold within 0..=1 (NaN refused).
    pub fn validate(&self) -> (r: Result<(), ConfigError>)
        ensures
            validation_outcome(model_broken_rule(*self), r),
    {
        if is_blank_str(self.artifact_path.as_str()) {
            return invalid("Invalid artifact_path");
        }
        if is_blank_str(self.retrain_schedule.as_str()) {
            return invalid("Invalid retrain_schedule");
        }
        let s = self.min_confidence_score;
        if !(Ieee32::zero().le(s) && s.le(Ieee32::one())) {
            return invalid("Invalid min_confidence_score");
        }
        Ok(())
    }
}

#[derive(Debug, Clone, PartialEq)]
pub struct RiskLevelConfig {
    pub target_min: Ieee32,
    pub target_max: Ieee32,
    pub sl_min: Ieee32,
    pub sl_max: Ieee32,
    pub beta_min: Option<Ieee64>,
    pub beta_max: Option<Ieee64>,
}

pub open spec fn risk_level_broken_rule(c: RiskLevelConfig) -> Option<Seq<char>> {
    let zero = Ieee32 { bits: 0 };
    if !(zero.lt_spec(c.target_min) && c.target_min.le_spec(c.target_max)) {
        Some("Invalid target_min or target_max"@)
    } else if !(c.sl_min.le_spec(c.sl_max) && c.sl_max.le_spec(zero)) {
        Some("Invalid sl_min or sl_max"@)
    } else if c.beta_min matches Some(b) && !(b.is_finite_spec() && !b.is_negative_spec()) {
        Some("Invalid beta_min"@)
    } else if c.beta_max matches Some(b) && !(b.is_finite_spec() && !b.is_negative_spec()) {
        Some("Invalid beta_max"@)
    } else if c.beta_min is Some && c.beta_max is Some && !c.beta_min->0.le_spec(c.beta_max->0) {
        Some("Invalid beta_min or beta_max"@)
    } else {
        None
    }
}

impl RiskLevelConfig {
    /// A positive target range, a stop-loss range at or below zero, each beta
    /// bound that is set finite and not negative, and, when both are set, the
    /// lower one not above the upper.
    pub fn validate(&self) -> (r: Result<(), ConfigError>)
        ensures
            validation_outcome(risk_level_broken_rule(*self), r),
    {
        let zero = Ieee32::zero();
        if !(zero.lt(self.target_min) && self.target_min.le(self.target_max)) {
            return invalid("Invalid target_min or target_max");
        }
        if !(self.sl_min.le(self.sl_max) && self.sl_max.le(zero)) {
            return invalid("Invalid sl_min or sl_max");
        }
        if let Some(b) = self.beta_min {
            if !b.is_finite() || b.is_negative() {
                return invalid("Invalid beta_min");
            }
        }
        if let Some(b) = self.beta_max {
            if !b.is_finite() || b.is_negative() {
                return invalid("Invalid beta_max");
            }
        }
        match (self.beta_min, self.beta_max) {
            (Some(lo), Some(hi)) => {
                if !lo.le(hi) {
                    return invalid("Invalid beta_min or beta_max");
                }
            },
            _ => {},
        }
        Ok(())
    }
}

#[derive(Debug, Clone, PartialEq)]
pub struct RiskProfilesConfig {
    pub safe: RiskLevelConfig,
    pub medium: RiskLevelConfig,
    pub risky: RiskLevelConfig,
}

/// The first of several rule checks that fails.
pub open spec fn first_broken(a: Option<Seq<char>>, b: Option<Seq<char>>) -> Option<Seq<char>> {
    if a is Some {
        a
    } else {
        b
    }
}

pub open spec fn risk_profiles_broken_rule(c: RiskProfilesConfig) -> Option<Seq<char>> {
    first_broken(
        risk_level_broken_rule(c.safe),
        first_broken(risk_level_broken_rule(c.medium), risk_level_broken_rule(c.risky)),
    )
}

impl RiskProfilesConfig {
    /// Each profile, safe then medium then risky.
    pub fn validate(&self) -> (r: Result<(), ConfigError>)
        ensures
            validation_outcome(risk_profiles_broken_rule(*self), r),
    {
        let a = self.safe.validate();
        if a.is_err() {
            return a;
        }
        let b = self.medium.validate();
        if b.is_err() {
            return b;
        }
        self.risky.validate()
    }
}

#[derive(Debug, Clone, PartialEq)]
pub struct TelegramConfig {
    pub bot_token_env: String,
    pub chat_allowlist: Vec<i64>,
    pub debounce_cooldown_mins: u64,
}

pub open spec fn telegram_broken_rule(c: TelegramConfig) -> Option<Seq<char>> {
    if is_blank(c.bot_token_env@) {
        Some("Invalid bot_token_env"@)
    } else {
        None
    }
}

impl TelegramConfig {
    /// A non-blank name for the variable holding the bot token.
    pub fn validate(&self) -> (r: Result<(), ConfigError>)
        ensures
            validation_outcome(telegram_broken_rule(*self), r),
    {
        if is_blank_str(self.bot_token_env.as_str()) {
            return invalid("Invalid bot_token_env");
        }
        Ok(())
    }

    /// The bot token, given what the environment holds under
    /// `bot_token_env`: an unset or blank variable is `MissingEnvVar`
    /// naming it.
    pub fn bot_token_from(&self, value: Option<String>) -> (r: Result<String, ConfigError>)
        ensures
            match value {
                Some(v) if !is_blank(v@) => r matches Ok(t) && t@ == v@,
                _ => r matches Err(ConfigError::MissingEnvVar(n)) && n@ == self.bot_token_env@,
            },
    {
        match value {
            Some(v) => {
                if is_blank_str(v.as_str()) {
                    Err(ConfigError::MissingEnvVar(owned(self.bot_token_env.as_str())))
                } else {
                    Ok(v)
                }
            },
            None => Err(ConfigError::MissingEnvVar(owned(self.bot_token_env.as_str()))),
        }
    }
}

#[derive(Debug, Clone, PartialEq)]
pub struct AppConfig {
    pub server: ServerConfig,
    pub market_data: MarketDataConfig,
    pub basket: BasketConfig,
    pub state_store: StateStoreConfig,
    pub features: FeaturesConfig,
    pub model: ModelConfig,
    pub risk: RiskProfilesConfig,
    pub telegram: TelegramConfig,
}

pub open spec fn app_broken_rule(c: AppConfig) -> Option<Seq<char>> {
    first_broken(
        server_broken_rule(c.server),
        first_broken(
            market_data_broken_rule(c.market_data),
            first_broken(
                basket_broken_rule(c.basket),
                first_broken(
                    state_store_broken_rule(c.state_store),
                    first_broken(
                        features_broken_rule(c.features),
                        first_broken(
                            model_broken_rule(c.model),
                            first_broken(risk_profiles_broken_rule(c.risk), telegram_broken_rule(c.telegram)),
                        ),
                    ),
                ),
            ),
        ),
    )
}

impl AppConfig {
    /// Every section, in declaration order; the first broken rule is
    /// reported.
    pub fn validate(&self) -> (r: Result<(), ConfigError>)
        ensures
            validation_outcome(app_broken_rule(*self), r),
    {
        let r = self.server.validate();
        if r.is_err() {
            return r;
        }
        let r = self.market_data.validate();
        if r.is_err() {
            return r;
        }
        let r = self.basket.validate();
        if r.is_err() {
            return r;
        }
        let r = self.state_store.validate();
        if r.is_err() {
            return r;
        }
        let r = self.features.validate();
        if r.is_err() {
            return r;
        }
        let r = self.model.validate();
        if r.is_err() {
            return r;
        }
        let r = self.risk.validate();
        if r.is_err() {
            return r;
        }
        self.telegram.validate()
    }
}

/// Which server sections are accepted: a development, production or test
/// environment with an info, debug, error, warn or trace log level.
pub proof fn lemma_server_accepted(c: ServerConfig)
    ensures
        server_broken_rule(c) is None <==> {
            &&& (c.environment@ == "development"@ || c.environment@ == "production"@
                || c.environment@ == "test"@)
            &&& (c.log_level@ == "info"@ || c.log_level@ == "debug"@ || c.log_level@ == "error"@
                || c.log_level@ == "warn"@ || c.log_level@ == "trace"@)
        },
{
}

/// Which feature sections are accepted: a look-back and a sample minimum
/// above zero, the minimum no larger than the look-back.
pub proof fn lemma_features_accepted(c: FeaturesConfig)
    ensures
        features_broken_rule(c) is None <==> 0 < c.min_valid_samples <= c.beta_lookback_bars,
{
}

/// Which state-store sections are accepted: a rolling window above zero.
pub proof fn lemma_state_store_accepted(c: StateStoreConfig)
    ensures
        state_store_broken_rule(c) is None <==> c.rolling_window_size > 0,
{
}

/// Which Telegram sections are accepted: a variable name with some
/// non-blank character.
pub proof fn lemma_telegram_accepted(c: TelegramConfig)
    ensures
        telegram_broken_rule(c) is None <==> exists|i: int|
            0 <= i < c.bot_token_env@.len() && !is_white(#[trigger] c.bot_token_env@[i]),
{
}

/// Which risk levels are accepted: a target range above zero (`0 <
/// target_min <= target_max`), a stop-loss range at or below zero
/// (`sl_min <= sl_max <= 0`), every beta bound that is set finite and not
/// below zero, and, with both set, `beta_min <= beta_max`.
pub proof fn lemma_risk_level_accepted(c: RiskLevelConfig)
    ensures
        risk_level_broken_rule(c) is None <==> {
            &&& Ieee32 { bits: 0 }.lt_spec(c.target_min)
            &&& c.target_min.le_spec(c.target_max)
            &&& c.sl_min.le_spec(c.sl_max)
            &&& c.sl_max.le_spec(Ieee32 { bits: 0 })
            &&& forall|b: Ieee64| c.beta_min == Some(b) ==> b.is_finite_spec() && !b.is_negative_spec()
            &&& forall|b: Ieee64| c.beta_max == Some(b) ==> b.is_finite_spec() && !b.is_negative_spec()
            &&& forall|lo: Ieee64, hi: Ieee64|
                c.beta_min == Some(lo) && c.beta_max == Some(hi) ==> lo.le_spec(hi)
        },
{
}

/// Which model sections are accepted: an artifact path and a retraining
/// schedule with some non-blank character, and a confidence threshold with
/// `0 <= score <= 1`.
pub proof fn lemma_model_accepted(c: ModelConfig)
    ensures
        model_broken_rule(c) is None <==> {
            &&& !is_blank(c.artifact_path@)
            &&& !is_blank(c.retrain_schedule@)
            &&& Ieee32 { bits: 0 }.le_spec(c.min_confidence_score)
            &&& c.min_confidence_score.le_spec(Ieee32 { bits: 0x3F80_0000 })
        },
{
}

/// Which baskets are accepted: at least one ticker, none blank, no ticker
/// twice, and a sync time chrono reads as `HH:MM:SS`.
pub proof fn lemma_basket_accepted(c: BasketConfig)
    ensures
        basket_broken_rule(c) is None <==> {
            &&& c.symbols@.len() > 0
            &&& forall|i: int| 0 <= i < c.symbols@.len() ==> !is_blank(#[trigger] c.symbols@[i]@)
            &&& forall|i: int, j: int|
                0 <= i < j < c.symbols@.len() ==> #[trigger] c.symbols@[i]@ != #[trigger] c.symbols@[j]@
            &&& hms_time_accepted(c.sync_time@)
        },
{
    let s = texts(c.symbols@);
    assert forall|i: int| 0 <= i < c.symbols@.len() implies s[i] == #[trigger] c.symbols@[i]@ by {}
    if exists|i: int| 0 <= i < s.len() && is_blank(#[trigger] s[i]) {
        let i = choose|i: int| 0 <= i < s.len() && is_blank(#[trigger] s[i]);
        assert(is_blank(c.symbols@[i]@));
    }
    if has_repeat(s) {
        let (i, j) = choose|i: int, j: int| 0 <= i < j < s.len() && s[i] == s[j];
        assert(c.symbols@[i]@ == c.symbols@[j]@);
    }
}

/// A configuration is accepted exactly when every section is, and a
/// refusal carries the message of the first refused section, in the order
/// server, market data, basket, state store, features, model, risk
/// (safe, medium, risky), Telegram.
pub proof fn lemma_app_accepted(c: AppConfig)
    ensures
        app_broken_rule(c) is None <==> {
            &&& server_broken_rule(c.server) is None
            &&& market_data_broken_rule(c.market_data) is None
            &&& basket_broken_rule(c.basket) is None
            &&& state_store_broken_rule(c.state_store) is None
            &&& features_broken_rule(c.features) is None
            &&& model_broken_rule(c.model) is None
            &&& risk_level_broken_rule(c.risk.safe) is None
            &&& risk_level_broken_rule(c.risk.medium) is None
            &&& risk_level_broken_rule(c.risk.risky) is None
            &&& telegram_broken_rule(c.telegram) is None
        },
        server_broken_rule(c.server) matches Some(m) ==> app_broken_rule(c) == Some(m),
        server_broken_rule(c.server) is None ==> (market_data_broken_rule(c.market_data) matches Some(m)
            ==> app_broken_rule(c) == Some(m)),
{
}

} // verus!
