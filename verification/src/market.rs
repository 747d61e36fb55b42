//! Normalised market events: trades and best bid/offer quotes.

use vstd::prelude::*;
use crate::errors::MarketDataError;
use crate::ieee::Ieee64;
use crate::text::{is_blank, is_blank_str, is_white, normalize, normalize_str, owned};
use crate::timestamp::MarketTimestamp;

verus! {

/// A matched trade.
#[derive(Debug, Clone, PartialEq)]
pub struct Trade {
    /// Normalised (trimmed, upper-case) ticker.
    pub symbol: String,
    /// Finite and positive.
    pub price: Ieee64,
    /// Finite and positive.
    pub volume: Ieee64,
    pub timestamp: MarketTimestamp,
}

/// Best bid and offer of an instrument.
#[derive(Debug, Clone, PartialEq)]
pub struct Quote {
    /// Normalised (trimmed, upper-case) ticker.
    pub symbol: String,
    pub bid_price: Ieee64,
    pub bid_vol: Ieee64,
    pub ask_price: Ieee64,
    pub ask_vol: Ieee64,
    pub timestamp: MarketTimestamp,
}

/// A normalised market event.
#[derive(Debug, Clone, PartialEq)]
pub enum MarketEvent {
    Trade(Trade),
    Quote(Quote),
}

impl MarketEvent {
    pub open spec fn timestamp_spec(self) -> MarketTimestamp {
        match self {
            MarketEvent::Trade(t) => t.timestamp,
            MarketEvent::Quote(q) => q.timestamp,
        }
    }

    pub open spec fn symbol_spec(self) -> Seq<char> {
        match self {
            MarketEvent::Trade(t) => t.symbol@,
            MarketEvent::Quote(q) => q.symbol@,
        }
    }

    /// When the event happened.
    pub fn timestamp(&self) -> (r: MarketTimestamp)
        ensures
            r == self.timestamp_spec(),
    {
        match self {
            MarketEvent::Trade(t) => t.timestamp,
            MarketEvent::Quote(q) => q.timestamp,
        }
    }
}

/// A trade price or volume: finite and above zero.
pub open spec fn positive_finite(x: Ieee64) -> bool {
    x.is_finite_spec() && x.is_positive_spec()
}

/// A quote price or volume: finite and not below zero (either zero counts).
pub open spec fn non_negative_finite(x: Ieee64) -> bool {
    x.is_finite_spec() && !x.is_negative_spec()
}

/// What building a trade from these values gives: the refusal of the first
/// failed check (blank ticker, then price, then volume), or the trade with
/// its ticker normalised.
pub open spec fn trade_outcome(
    symbol: Seq<char>,
    price: Ieee64,
    volume: Ieee64,
    timestamp: MarketTimestamp,
    r: Result<Trade, MarketDataError>,
) -> bool {
    if is_blank(symbol) {
        r matches Err(MarketDataError::InvalidSymbol(m)) && m@ == "Mã chứng khoán không được rỗng"@
    } else if !positive_finite(price) {
        r matches Err(MarketDataError::InvalidPrice(m)) && m@ == "giá không hợp lệ"@
    } else if !positive_finite(volume) {
        r matches Err(MarketDataError::InvalidVolume(m)) && m@ == "khối lượng không hợp lệ"@
    } else {
        r matches Ok(t) && t.symbol@ == normalize(symbol) && t.price == price && t.volume == volume
            && t.timestamp == timestamp
    }
}

impl Trade {
    /// Validates and builds a trade. The ticker is trimmed and upper-cased.
    pub fn new(symbol: String, price: Ieee64, volume: Ieee64, timestamp: MarketTimestamp) -> (r: Result<
        Trade,
        MarketDataError,
    >)
        ensures
            trade_outcome(symbol@, price, volume, timestamp, r),
    {
        if is_blank_str(symbol.as_str()) {
            return Err(MarketDataError::InvalidSymbol(owned("Mã chứng khoán không được rỗng")));
        }
        if !price.is_finite() || !price.is_positive() {
            return Err(MarketDataError::InvalidPrice(owned("giá không hợp lệ")));
        }
        if !volume.is_finite() || !volume.is_positive() {
            return Err(MarketDataError::InvalidVolume(owned("khối lượng không hợp lệ")));
        }
        Ok(Trade { symbol: normalize_str(symbol.as_str()), price, volume, timestamp })
    }
}

/// Why a quote is refused.
#[derive(Debug, Clone, Copy, PartialEq, Eq, Structural)]
pub enum QuoteFault {
    BlankSymbol,
    BadBidPrice,
    BadAskPrice,
    BadBidVolume,
    BadAskVolume,
    BothPricesZero,
    BidSideMismatch,
    AskSideMismatch,
    Crossed,
}

/// The reason a quote is refused, the checks taken in this order; `None`
/// when it is accepted.
pub open spec fn quote_rejection(
    symbol: Seq<char>,
    bid_price: Ieee64,
    bid_vol: Ieee64,
    ask_price: Ieee64,
    ask_vol: Ieee64,
) -> Option<QuoteFault> {
    if is_blank(symbol) {
        Some(QuoteFault::BlankSymbol)
    } else if !non_negative_finite(bid_price) {
        Some(QuoteFault::BadBidPrice)
    } else if !non_negative_finite(ask_price) {
        Some(QuoteFault::BadAskPrice)
    } else if !non_negative_finite(bid_vol) {
        Some(QuoteFault::BadBidVolume)
    } else if !non_negative_finite(ask_vol) {
        Some(QuoteFault::BadAskVolume)
    } else if bid_price.is_zero_spec() && ask_price.is_zero_spec() {
        Some(QuoteFault::BothPricesZero)
    } else if bid_price.is_zero_spec() != bid_vol.is_zero_spec() {
        Some(QuoteFault::BidSideMismatch)
    } else if ask_price.is_zero_spec() != ask_vol.is_zero_spec() {
        Some(QuoteFault::AskSideMismatch)
    } else if bid_price.is_positive_spec() && ask_price.is_positive_spec() && ask_price.le_spec(
        bid_price,
    ) {
        Some(QuoteFault::Crossed)
    } else {
        None
    }
}

/// What building a quote from these values gives: the refusal of the first
/// failed check, or the quote with its ticker normalised.
pub open spec fn quote_outcome(
    symbol: Seq<char>,
    bid_price: Ieee64,
    bid_vol: Ieee64,
    ask_price: Ieee64,
    ask_vol: Ieee64,
    timestamp: MarketTimestamp,
    r: Result<Quote, MarketDataError>,
) -> bool {
    match quote_rejection(symbol, bid_price, bid_vol, ask_price, ask_vol) {
        Some(QuoteFault::BlankSymbol) => r matches Err(MarketDataError::InvalidSymbol(m)) && m@
            == "Mã chứng khoán không được rỗng"@,
        Some(QuoteFault::BadBidPrice) => r matches Err(MarketDataError::InvalidPrice(m)) && m@
            == "bid_price không hợp lệ"@,
        Some(QuoteFault::BadAskPrice) => r matches Err(MarketDataError::InvalidPrice(m)) && m@
            == "ask_price không hợp lệ"@,
        Some(QuoteFault::BadBidVolume) => r matches Err(MarketDataError::InvalidVolume(m)) && m@
            == "bid_vol không hợp lệ"@,
        Some(QuoteFault::BadAskVolume) => r matches Err(MarketDataError::InvalidVolume(m)) && m@
            == "ask_vol không hợp lệ"@,
        Some(QuoteFault::BothPricesZero) => r matches Err(MarketDataError::InvalidPrice(m)) && m@
            == "Cả bid_price và ask_price không thể đồng thời bằng 0"@,
        Some(QuoteFault::BidSideMismatch) => r matches Err(MarketDataError::InvalidPrice(m)) && m@
            == "bid_price và bid_vol phải cùng bằng 0 hoặc cùng lớn hơn 0"@,
        Some(QuoteFault::AskSideMismatch) => r matches Err(MarketDataError::InvalidPrice(m)) && m@
            == "ask_price và ask_vol phải cùng bằng 0 hoặc cùng lớn hơn 0"@,
        Some(QuoteFault::Crossed) => r matches Err(MarketDataError::CrossedMarket { symbol: s, bid, ask })
            && s@ == normalize(symbol) && bid == bid_price && ask == ask_price,
        None => r matches Ok(q) && q.symbol@ == normalize(symbol) && q.bid_price == bid_price
            && q.bid_vol == bid_vol && q.ask_price == ask_price && q.ask_vol == ask_vol && q.timestamp
            == timestamp,
    }
}

impl Quote {
    /// Validates and builds a quote. The ticker is trimmed and upper-cased.
    /// Prices and volumes must be finite and not negative; the two prices may
    /// not both be zero (a zero price stands for an empty side at a price
    /// limit), a side's price and volume are both zero or both positive, and
    /// two positive prices must have the bid below the ask.
    pub fn new(
        symbol: String,
        bid_price: Ieee64,
        bid_vol: Ieee64,
        ask_price: Ieee64,
        ask_vol: Ieee64,
        timestamp: MarketTimestamp,
    ) -> (r: Result<Quote, MarketDataError>)
        ensures
            quote_outcome(symbol@, bid_price, bid_vol, ask_price, ask_vol, timestamp, r),
    {
        if is_blank_str(symbol.as_str()) {
            return Err(MarketDataError::InvalidSymbol(owned("Mã chứng khoán không được rỗng")));
        }
        if !bid_price.is_finite() || bid_price.is_negative() {
            return Err(MarketDataError::InvalidPrice(owned("bid_price không hợp lệ")));
        }
        if !ask_price.is_finite() || ask_price.is_negative() {
            return Err(MarketDataError::InvalidPrice(owned("ask_price không hợp lệ")));
        }
        if !bid_vol.is_finite() || bid_vol.is_negative() {
            return Err(MarketDataError::InvalidVolume(owned("bid_vol không hợp lệ")));
        }
        if !ask_vol.is_finite() || ask_vol.is_negative() {
            return Err(MarketDataError::InvalidVolume(owned("ask_vol không hợp lệ")));
        }
        if bid_price.is_zero() && ask_price.is_zero() {
            return Err(
                MarketDataError::InvalidPrice(
                    owned("Cả bid_price và ask_price không thể đồng thời bằng 0"),
                ),
            );
        }
        if bid_price.is_zero() != bid_vol.is_zero() {
            return Err(
                MarketDataError::InvalidPrice(
                    owned("bid_price và bid_vol phải cùng bằng 0 hoặc cùng lớn hơn 0"),
                ),
            );
        }
        if ask_price.is_zero() != ask_vol.is_zero() {
            return Err(
                MarketDataError::InvalidPrice(
                    owned("ask_price và ask_vol phải cùng bằng 0 hoặc cùng lớn hơn 0"),
                ),
            );
        }
        if bid_price.is_positive() && ask_price.is_positive() && ask_price.le(bid_price) {
            return Err(
                MarketDataError::CrossedMarket {
                    symbol: normalize_str(symbol.as_str()),
                    bid: bid_price,
                    ask: ask_price,
                },
            );
        }
        Ok(
            Quote {
                symbol: normalize_str(symbol.as_str()),
                bid_price,
                bid_vol,
                ask_price,
                ask_vol,
                timestamp,
            },
        )
    }
}

/// A trade that was built has a finite, positive price and volume.
pub proof fn lemma_built_trade_is_sane(
    symbol: Seq<char>,
    price: Ieee64,
    volume: Ieee64,
    timestamp: MarketTimestamp,
    t: Trade,
)
    requires
        trade_outcome(symbol, price, volume, timestamp, Ok(t)),
    ensures
        positive_finite(t.price),
        positive_finite(t.volume),
        !is_blank(symbol),
{
}

/// A quote that was built has finite, non-negative prices and volumes, at
/// least one non-zero price, a zero volume exactly on a side whose price is
/// zero, and, when both prices are positive, the bid strictly below the ask:
/// no crossed book is ever built.
pub proof fn lemma_built_quote_is_sane(
    symbol: Seq<char>,
    bid_price: Ieee64,
    bid_vol: Ieee64,
    ask_price: Ieee64,
    ask_vol: Ieee64,
    timestamp: MarketTimestamp,
    q: Quote,
)
    requires
        quote_outcome(symbol, bid_price, bid_vol, ask_price, ask_vol, timestamp, Ok(q)),
    ensures
        non_negative_finite(q.bid_price) && non_negative_finite(q.ask_price),
        non_negative_finite(q.bid_vol) && non_negative_finite(q.ask_vol),
        !(q.bid_price.is_zero_spec() && q.ask_price.is_zero_spec()),
        q.bid_price.is_zero_spec() == q.bid_vol.is_zero_spec(),
        q.ask_price.is_zero_spec() == q.ask_vol.is_zero_spec(),
        q.bid_price.is_positive_spec() && q.ask_price.is_positive_spec() ==> q.bid_price.lt_spec(q.ask_price),
        !is_blank(symbol),
{
}

/// Which trades are built: exactly those with a ticker that has a
/// non-blank character, and a price and volume that are finite and above
/// zero; a built trade keeps the values given and its ticker normalised.
pub proof fn lemma_trade_accepted(
    symbol: Seq<char>,
    price: Ieee64,
    volume: Ieee64,
    timestamp: MarketTimestamp,
    r: Result<Trade, MarketDataError>,
)
    requires
        trade_outcome(symbol, price, volume, timestamp, r),
    ensures
        r is Ok <==> {
            &&& exists|i: int| 0 <= i < symbol.len() && !is_white(#[trigger] symbol[i])
            &&& price.is_finite_spec() && price.is_positive_spec()
            &&& volume.is_finite_spec() && volume.is_positive_spec()
        },
        r matches Ok(t) ==> t.symbol@ == normalize(symbol) && t.price == price && t.volume == volume
            && t.timestamp == timestamp,
{
}

/// Which quotes are built: exactly those with a ticker that has a
/// non-blank character; four finite values none below zero; not both
/// prices zero; on each side, price and volume zero together; and, with
/// both prices above zero, the ask above the bid. A built quote keeps the
/// values given and its ticker normalised.
pub proof fn lemma_quote_accepted(
    symbol: Seq<char>,
    bid_price: Ieee64,
    bid_vol: Ieee64,
    ask_price: Ieee64,
    ask_vol: Ieee64,
    timestamp: MarketTimestamp,
    r: Result<Quote, MarketDataError>,
)
    requires
        quote_outcome(symbol, bid_price, bid_vol, ask_price, ask_vol, timestamp, r),
    ensures
        r is Ok <==> {
            &&& exists|i: int| 0 <= i < symbol.len() && !is_white(#[trigger] symbol[i])
            &&& bid_price.is_finite_spec() && !bid_price.is_negative_spec()
            &&& ask_price.is_finite_spec() && !ask_price.is_negative_spec()
            &&& bid_vol.is_finite_spec() && !bid_vol.is_negative_spec()
            &&& ask_vol.is_finite_spec() && !ask_vol.is_negative_spec()
            &&& !(bid_price.is_zero_spec() && ask_price.is_zero_spec())
            &&& bid_price.is_zero_spec() == bid_vol.is_zero_spec()
            &&& ask_price.is_zero_spec() == ask_vol.is_zero_spec()
            &&& (bid_price.is_positive_spec() && ask_price.is_positive_spec()) ==> !ask_price.le_spec(
                bid_price,
            )
        },
        r matches Ok(q) ==> q.symbol@ == normalize(symbol) && q.bid_price == bid_price && q.bid_vol
            == bid_vol && q.ask_price == ask_price && q.ask_vol == ask_vol && q.timestamp == timestamp,
{
}

} // verus!
