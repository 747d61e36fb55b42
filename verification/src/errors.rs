//! Error taxonomy of the analyzer, one enum per subsystem and `DomainError`
//! gathering them. Each enum renders its human-readable message with
//! `message`.

use vstd::prelude::*;
use crate::ieee::Ieee64;
use crate::text::{concat, decimal, i64_to_text, signed_decimal, u64_to_text};

verus! {

/// `std::io::Error`, carried inside [`ConfigError::IoError`].
#[verifier::external_type_specification]
#[verifier::external_body]
pub struct ExIoError(std::io::Error);

/// `toml::de::Error`, carried inside [`ConfigError::ParseError`].
#[verifier::external_type_specification]
#[verifier::external_body]
pub struct ExTomlError(toml::de::Error);

#[derive(Debug)]
pub enum ConfigError {
    IoError { path: String, source: std::io::Error },
    ParseError(toml::de::Error),
    ValidationError(String),
    MissingEnvVar(String),
}

#[derive(Debug)]
pub enum MarketDataError {
    ConnectionError(String),
    ParseError(String),
    InvalidData { symbol: String, reason: String },
    StaleData(i64),
    AuthenticationError(String),
    EmptyData(String),
    InvalidTimestamp(String),
    InvalidSymbol(String),
    InvalidPrice(String),
    InvalidVolume(String),
    CrossedMarket { symbol: String, bid: Ieee64, ask: Ieee64 },
}

#[derive(Debug)]
pub enum IndicatorError {
    InsufficientData { name: String, required: usize, actual: usize },
    CalculationError(String),
    InvalidParameter(String),
}

#[derive(Debug)]
pub enum RiskError {
    InsufficientData(String),
    InvalidBenchmark(String),
    RuleViolation(String),
}

#[derive(Debug)]
pub enum SignalError {
    MissingInput(String),
    Conflict(String),
}

#[derive(Debug)]
pub enum ModelError {
    LoadError { path: String, reason: String },
    FeatureMismatch { expected: usize, actual: usize },
    InferenceError(String),
    IncompatibleVersion(String),
}

#[derive(Debug)]
pub enum AlertError {
    DeliveryFailed(String),
    RateLimited { retry_after_secs: u64 },
    FormattingError(String),
}

#[derive(Debug)]
pub enum DomainError {
    Config(ConfigError),
    MarketData(MarketDataError),
    Indicator(IndicatorError),
    Risk(RiskError),
    Signal(SignalError),
    Model(ModelError),
    Alert(AlertError),
    InvalidData(String),
}

/// `std::io::Error`'s `Display` text (an operating-system message; nothing
/// is stated of it).
#[verifier::external_body]
fn io_error_text(e: &std::io::Error) -> String {
    e.to_string()
}

/// `toml::de::Error`'s `Display` text (nothing is stated of it).
#[verifier::external_body]
fn toml_error_text(e: &toml::de::Error) -> String {
    e.to_string()
}

impl ConfigError {
    /// The message of each variant; for the two variants that carry an outside
    /// error, the part of the message before that error's own text.
    pub open spec fn message_head(&self) -> Seq<char> {
        match self {
            ConfigError::IoError { path, .. } => "Không thể đọc file cấu hình tại '"@ + path@ + "': "@,
            ConfigError::ParseError(_) => "Lỗi cú pháp TOML trong cấu hình: "@,
            ConfigError::ValidationError(m) => "Dữ liệu cấu hình không hợp lệ: "@ + m@,
            ConfigError::MissingEnvVar(v) => "Biến môi trường bắt buộc '"@ + v@ + "' chưa được thiết lập"@,
        }
    }

    /// The human-readable message.
    pub fn message(&self) -> (r: String)
        ensures
            (self is ValidationError || self is MissingEnvVar) ==> r@ == self.message_head(),
            (self is IoError || self is ParseError) ==> r@.len() >= self.message_head().len()
                && r@.subrange(0, self.message_head().len() as int) == self.message_head(),
    {
        match self {
            ConfigError::IoError { path, source } => {
                let head = concat(concat("Không thể đọc file cấu hình tại '", path.as_str()).as_str(), "': ");
                let r = concat(head.as_str(), io_error_text(source).as_str());
                assert(r@.subrange(0, head@.len() as int) =~= head@);
                r
            },
            ConfigError::ParseError(e) => {
                let r = concat("Lỗi cú pháp TOML trong cấu hình: ", toml_error_text(e).as_str());
                assert(r@.subrange(0, self.message_head().len() as int) =~= self.message_head());
                r
            },
            ConfigError::ValidationError(m) => concat("Dữ liệu cấu hình không hợp lệ: ", m.as_str()),
            ConfigError::MissingEnvVar(v) => concat(
                concat("Biến môi trường bắt buộc '", v.as_str()).as_str(),
                "' chưa được thiết lập",
            ),
        }
    }
}

impl MarketDataError {
    pub open spec fn message_spec(&self) -> Seq<char> {
        match self {
            MarketDataError::ConnectionError(m) => "Lỗi kết nối WebSocket: "@ + m@,
            MarketDataError::ParseError(m) => "Lỗi phân tích cú pháp bản tin thị trường: "@ + m@,
            MarketDataError::InvalidData { symbol, reason } => "Dữ liệu thị trường không hợp lệ cho mã '"@
                + symbol@ + "': "@ + reason@,
            MarketDataError::StaleData(ts) => "Dữ liệu thị trường bị quá hạn (stale): timestamp="@
                + signed_decimal(*ts as int),
            MarketDataError::AuthenticationError(m) => "Lỗi xác thực: "@ + m@,
            MarketDataError::EmptyData(m) => "dữ liệu rỗng: "@ + m@,
            MarketDataError::InvalidTimestamp(m) => "Mốc thời gian không hợp lệ: "@ + m@,
            MarketDataError::InvalidSymbol(m) => "Mã chứng khoán không hợp lệ: "@ + m@,
            MarketDataError::InvalidPrice(m) => "Giá không hợp lệ: "@ + m@,
            MarketDataError::InvalidVolume(m) => "Khối lượng không hợp lệ: "@ + m@,
            MarketDataError::CrossedMarket { symbol, .. } => "Giá mua không thấp hơn giá bán (crossed market) cho mã '"@
                + symbol@ + "'"@,
        }
    }

    /// The human-readable message.
    pub fn message(&self) -> (r: String)
        ensures
            r@ == self.message_spec(),
    {
        match self {
            MarketDataError::ConnectionError(m) => concat("Lỗi kết nối WebSocket: ", m.as_str()),
            MarketDataError::ParseError(m) => concat("Lỗi phân tích cú pháp bản tin thị trường: ", m.as_str()),
            MarketDataError::InvalidData { symbol, reason } => {
                let a = concat("Dữ liệu thị trường không hợp lệ cho mã '", symbol.as_str());
                let b = concat(a.as_str(), "': ");
                concat(b.as_str(), reason.as_str())
            },
            MarketDataError::StaleData(ts) => concat(
                "Dữ liệu thị trường bị quá hạn (stale): timestamp=",
                i64_to_text(*ts).as_str(),
            ),
            MarketDataError::AuthenticationError(m) => concat("Lỗi xác thực: ", m.as_str()),
            MarketDataError::EmptyData(m) => concat("dữ liệu rỗng: ", m.as_str()),
            MarketDataError::InvalidTimestamp(m) => concat("Mốc thời gian không hợp lệ: ", m.as_str()),
            MarketDataError::InvalidSymbol(m) => concat("Mã chứng khoán không hợp lệ: ", m.as_str()),
            MarketDataError::InvalidPrice(m) => concat("Giá không hợp lệ: ", m.as_str()),
            MarketDataError::InvalidVolume(m) => concat("Khối lượng không hợp lệ: ", m.as_str()),
            MarketDataError::CrossedMarket { symbol, .. } => {
                let a = concat("Giá mua không thấp hơn giá bán (crossed market) cho mã '", symbol.as_str());
                concat(a.as_str(), "'")
            },
        }
    }
}

impl IndicatorError {
    pub open spec fn message_spec(&self) -> Seq<char> {
        match self {
            IndicatorError::InsufficientData { name, required, actual } => "Chưa đủ dữ liệu warm-up cho chỉ báo '"@
                + name@ + "': yêu cầu "@ + decimal(*required as nat) + ", hiện có "@ + decimal(
                *actual as nat,
            ),
            IndicatorError::CalculationError(m) => "Giá trị tính toán không hợp lệ (NaN/Inf) trong chỉ báo '"@
                + m@ + "'"@,
            IndicatorError::InvalidParameter(m) => "Cấu hình tham số chỉ báo không hợp lệ: "@ + m@,
        }
    }

    /// The human-readable message.
    pub fn message(&self) -> (r: String)
        ensures
            r@ == self.message_spec(),
    {
        match self {
            IndicatorError::InsufficientData { name, required, actual } => {
                let a = concat("Chưa đủ dữ liệu warm-up cho chỉ báo '", name.as_str());
                let b = concat(a.as_str(), "': yêu cầu ");
                let c = concat(b.as_str(), u64_to_text(*required as u64).as_str());
                let d = concat(c.as_str(), ", hiện có ");
                concat(d.as_str(), u64_to_text(*actual as u64).as_str())
            },
            IndicatorError::CalculationError(m) => {
                let a = concat("Giá trị tính toán không hợp lệ (NaN/Inf) trong chỉ báo '", m.as_str());
                concat(a.as_str(), "'")
            },
            IndicatorError::InvalidParameter(m) => concat("Cấu hình tham số chỉ báo không hợp lệ: ", m.as_str()),
        }
    }
}

impl RiskError {
    pub open spec fn message_spec(&self) -> Seq<char> {
        match self {
            RiskError::InsufficientData(m) => "Dữ liệu nến không đủ để tính Beta/Risk: "@ + m@,
            RiskError::InvalidBenchmark(m) => "Giá trị Benchmark VN30 không hợp lệ: "@ + m@,
            RiskError::RuleViolation(m) => "Vi phạm quy tắc quản trị rủi ro: "@ + m@,
        }
    }

    /// The human-readable message.
    pub fn message(&self) -> (r: String)
        ensures
            r@ == self.message_spec(),
    {
        match self {
            RiskError::InsufficientData(m) => concat("Dữ liệu nến không đủ để tính Beta/Risk: ", m.as_str()),
            RiskError::InvalidBenchmark(m) => concat("Giá trị Benchmark VN30 không hợp lệ: ", m.as_str()),
            RiskError::RuleViolation(m) => concat("Vi phạm quy tắc quản trị rủi ro: ", m.as_str()),
        }
    }
}

impl SignalError {
    pub open spec fn message_spec(&self) -> Seq<char> {
        match self {
            SignalError::MissingInput(m) => "Không thể sinh tín hiệu do thiếu dữ liệu: "@ + m@,
            SignalError::Conflict(m) => "Xung đột điều kiện tín hiệu: "@ + m@,
        }
    }

    /// The human-readable message.
    pub fn message(&self) -> (r: String)
        ensures
            r@ == self.message_spec(),
    {
        match self {
            SignalError::MissingInput(m) => concat("Không thể sinh tín hiệu do thiếu dữ liệu: ", m.as_str()),
            SignalError::Conflict(m) => concat("Xung đột điều kiện tín hiệu: ", m.as_str()),
        }
    }
}

impl ModelError {
    pub open spec fn message_spec(&self) -> Seq<char> {
        match self {
            ModelError::LoadError { path, reason } => "Không thể tải model artifact từ '"@ + path@ + "': "@
                + reason@,
            ModelError::FeatureMismatch { expected, actual } => "Kích thước vector đặc trưng không khớp: yêu cầu "@
                + decimal(*expected as nat) + ", nhận "@ + decimal(*actual as nat),
            ModelError::InferenceError(m) => "Lỗi thực thi suy luận mô hình (inference): "@ + m@,
            ModelError::IncompatibleVersion(v) => "Phiên bản mô hình '"@ + v@ + "' không tương thích"@,
        }
    }

    /// The human-readable message.
    pub fn message(&self) -> (r: String)
        ensures
            r@ == self.message_spec(),
    {
        match self {
            ModelError::LoadError { path, reason } => {
                let a = concat("Không thể tải model artifact từ '", path.as_str());
                let b = concat(a.as_str(), "': ");
                concat(b.as_str(), reason.as_str())
            },
            ModelError::FeatureMismatch { expected, actual } => {
                let a = concat(
                    "Kích thước vector đặc trưng không khớp: yêu cầu ",
                    u64_to_text(*expected as u64).as_str(),
                );
                let b = concat(a.as_str(), ", nhận ");
                concat(b.as_str(), u64_to_text(*actual as u64).as_str())
            },
            ModelError::InferenceError(m) => concat("Lỗi thực thi suy luận mô hình (inference): ", m.as_str()),
            ModelError::IncompatibleVersion(v) => {
                let a = concat("Phiên bản mô hình '", v.as_str());
                concat(a.as_str(), "' không tương thích")
            },
        }
    }
}

impl AlertError {
    pub open spec fn message_spec(&self) -> Seq<char> {
        match self {
            AlertError::DeliveryFailed(m) => "Lỗi gửi tin nhắn Telegram: "@ + m@,
            AlertError::RateLimited { retry_after_secs } => "Vượt quá giới hạn tần suất gửi tin (Rate limited): thử lại sau "@
                + decimal(*retry_after_secs as nat) + "s"@,
            AlertError::FormattingError(m) => "Lỗi định dạng bản tin cảnh báo: "@ + m@,
        }
    }

    /// The human-readable message.
    pub fn message(&self) -> (r: String)
        ensures
            r@ == self.message_spec(),
    {
        match self {
            AlertError::DeliveryFailed(m) => concat("Lỗi gửi tin nhắn Telegram: ", m.as_str()),
            AlertError::RateLimited { retry_after_secs } => {
                let a = concat(
                    "Vượt quá giới hạn tần suất gửi tin (Rate limited): thử lại sau ",
                    u64_to_text(*retry_after_secs).as_str(),
                );
                concat(a.as_str(), "s")
            },
            AlertError::FormattingError(m) => concat("Lỗi định dạng bản tin cảnh báo: ", m.as_str()),
        }
    }
}

impl DomainError {
    /// The human-readable message: a prefix naming the subsystem, then the
    /// inner error's message.
    pub fn message(&self) -> (r: String)
        ensures
            self matches DomainError::MarketData(e) ==> r@ == "Lỗi dữ liệu thị trường: "@ + e.message_spec(),
            self matches DomainError::Indicator(e) ==> r@ == "Lỗi tính toán chỉ báo: "@ + e.message_spec(),
            self matches DomainError::Risk(e) ==> r@ == "Lỗi quản trị rủi ro: "@ + e.message_spec(),
            self matches DomainError::Signal(e) ==> r@ == "Lỗi tín hiệu: "@ + e.message_spec(),
            self matches DomainError::Model(e) ==> r@ == "Lỗi mô hình ML: "@ + e.message_spec(),
            self matches DomainError::Alert(e) ==> r@ == "Lỗi cảnh báo: "@ + e.message_spec(),
            self matches DomainError::InvalidData(m) ==> r@ == "Lỗi dữ liệu chung: "@ + m@,
            self matches DomainError::Config(e) ==> r@.len() >= ("Lỗi cấu hình: "@ + e.message_head()).len()
                && r@.subrange(0, ("Lỗi cấu hình: "@ + e.message_head()).len() as int) == "Lỗi cấu hình: "@
                + e.message_head(),
    {
        match self {
            DomainError::Config(e) => {
                let inner = e.message();
                let r = concat("Lỗi cấu hình: ", inner.as_str());
                let ghost head = "Lỗi cấu hình: "@ + e.message_head();
                assert(r@.subrange(0, head.len() as int) =~= head) by {
                    assert(inner@.subrange(0, e.message_head().len() as int) == e.message_head());
                    assert forall|i: int| 0 <= i < head.len() implies r@[i] == head[i] by {
                        let p = "Lỗi cấu hình: "@;
                        if i >= p.len() {
                            assert(r@[i] == inner@[i - p.len()]);
                            assert(inner@.subrange(0, e.message_head().len() as int)[i - p.len()]
                                == inner@[i - p.len()]);
                        }
                    }
                }
                r
            },
            DomainError::MarketData(e) => concat("Lỗi dữ liệu thị trường: ", e.message().as_str()),
            DomainError::Indicator(e) => concat("Lỗi tính toán chỉ báo: ", e.message().as_str()),
            DomainError::Risk(e) => concat("Lỗi quản trị rủi ro: ", e.message().as_str()),
            DomainError::Signal(e) => concat("Lỗi tín hiệu: ", e.message().as_str()),
            DomainError::Model(e) => concat("Lỗi mô hình ML: ", e.message().as_str()),
            DomainError::Alert(e) => concat("Lỗi cảnh báo: ", e.message().as_str()),
            DomainError::InvalidData(m) => concat("Lỗi dữ liệu chung: ", m.as_str()),
        }
    }
}

impl From<toml::de::Error> for ConfigError {
    fn from(e: toml::de::Error) -> (r: ConfigError) {
        ConfigError::ParseError(e)
    }
}

impl vstd::std_specs::convert::FromSpecImpl<toml::de::Error> for ConfigError {
    open spec fn obeys_from_spec() -> bool {
        true
    }

    open spec fn from_spec(e: toml::de::Error) -> ConfigError {
        ConfigError::ParseError(e)
    }
}

impl From<ConfigError> for DomainError {
    fn from(e: ConfigError) -> (r: DomainError) {
        DomainError::Config(e)
    }
}

impl vstd::std_specs::convert::FromSpecImpl<ConfigError> for DomainError {
    open spec fn obeys_from_spec() -> bool {
        true
    }

    open spec fn from_spec(e: ConfigError) -> DomainError {
        DomainError::Config(e)
    }
}

impl From<MarketDataError> for DomainError {
    fn from(e: MarketDataError) -> (r: DomainError) {
        DomainError::MarketData(e)
    }
}

impl vstd::std_specs::convert::FromSpecImpl<MarketDataError> for DomainError {
    open spec fn obeys_from_spec() -> bool {
        true
    }

    open spec fn from_spec(e: MarketDataError) -> DomainError {
        DomainError::MarketData(e)
    }
}

impl From<IndicatorError> for DomainError {
    fn from(e: IndicatorError) -> (r: DomainError) {
        DomainError::Indicator(e)
    }
}

impl vstd::std_specs::convert::FromSpecImpl<IndicatorError> for DomainError {
    open spec fn obeys_from_spec() -> bool {
        true
    }

    open spec fn from_spec(e: IndicatorError) -> DomainError {
        DomainError::Indicator(e)
    }
}

impl From<RiskError> for DomainError {
    fn from(e: RiskError) -> (r: DomainError) {
        DomainError::Risk(e)
    }
}

impl vstd::std_specs::convert::FromSpecImpl<RiskError> for DomainError {
    open spec fn obeys_from_spec() -> bool {
        true
    }

    open spec fn from_spec(e: RiskError) -> DomainError {
        DomainError::Risk(e)
    }
}

impl From<SignalError> for DomainError {
    fn from(e: SignalError) -> (r: DomainError) {
        DomainError::Signal(e)
    }
}

impl vstd::std_specs::convert::FromSpecImpl<SignalError> for DomainError {
    open spec fn obeys_from_spec() -> bool {
        true
    }

    open spec fn from_spec(e: SignalError) -> DomainError {
        DomainError::Signal(e)
    }
}

impl From<ModelError> for DomainError {
    fn from(e: ModelError) -> (r: DomainError) {
        DomainError::Model(e)
    }
}

impl vstd::std_specs::convert::FromSpecImpl<ModelError> for DomainError {
    open spec fn obeys_from_spec() -> bool {
        true
    }

    open spec fn from_spec(e: ModelError) -> DomainError {
        DomainError::Model(e)
    }
}

impl From<AlertError> for DomainError {
    fn from(e: AlertError) -> (r: DomainError) {
        DomainError::Alert(e)
    }
}

impl vstd::std_specs::convert::FromSpecImpl<AlertError> for DomainError {
    open spec fn obeys_from_spec() -> bool {
        true
    }

    open spec fn from_spec(e: AlertError) -> DomainError {
        DomainError::Alert(e)
    }
}

} // verus!
