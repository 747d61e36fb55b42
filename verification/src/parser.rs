//! Vendor messages and their translation into normalised market events.
//!
//! A text frame carries a JSON object tagged by `type` (`trade`, `quote`,
//! `heartbeat`, `error` or `exchange_error`); reading the JSON into a
//! [`MarketMessage`] is serde's work and happens where the frames arrive.
//! Here: what the other frames mean, how a JSON failure is reported, and how
//! a message becomes a validated event.

use vstd::prelude::*;
use crate::errors::MarketDataError;
use crate::ieee::Ieee64;
use crate::market::{quote_outcome, trade_outcome, MarketEvent, Quote, Trade};
use crate::text::owned;
use crate::timestamp::{raw_epoch_outcome, MarketTimestamp};
use crate::websocket::RawMarketMessage;

verus! {

/// A trade as the vendor sends it.
#[derive(Debug, Clone, PartialEq)]
pub struct TradeEvent {
    pub symbol: String,
    pub price: Ieee64,
    pub volume: Ieee64,
    /// Seconds or milliseconds since the Unix epoch.
    pub timestamp: i64,
}

/// A best bid and offer as the vendor sends it.
#[derive(Debug, Clone, PartialEq)]
pub struct QuoteEvent {
    pub symbol: String,
    pub bid_price: Ieee64,
    pub bid_vol: Ieee64,
    pub ask_price: Ieee64,
    pub ask_vol: Ieee64,
    /// Seconds or milliseconds since the Unix epoch.
    pub timestamp: i64,
}

#[derive(Debug, Clone, PartialEq)]
pub struct HeartbeatEvent {
    pub timestamp: i64,
}

/// An error reported by the exchange.
#[derive(Debug, Clone, PartialEq)]
pub struct ExchangeErrorEvent {
    pub code: String,
    pub message: String,
}

/// A decoded vendor message.
#[derive(Debug, Clone, PartialEq)]
pub enum MarketMessage {
    Trade(TradeEvent),
    Quote(QuoteEvent),
    Heartbeat(HeartbeatEvent),
    ExchangeError(ExchangeErrorEvent),
    /// A ping or pong frame, with its payload.
    Pong(Vec<u8>),
}

/// Reads frames into messages.
pub struct MarketDataParser;

/// Why a binary frame is refused.
pub open spec fn binary_frame_message() -> Seq<char> {
    "Binary frame format not supported"@
}

impl MarketDataParser {
    /// The message of a frame that carries no JSON: a binary frame is
    /// refused, a ping or pong becomes `Pong` with the same payload. `None`
    /// for a text frame, whose JSON must be read.
    pub fn parse_control(raw: &RawMarketMessage) -> (r: Option<Result<MarketMessage, MarketDataError>>)
        ensures
            match *raw {
                RawMarketMessage::Text(_) => r is None,
                RawMarketMessage::Binary(_) => r matches Some(Err(MarketDataError::ParseError(m)))
                    && m@ == binary_frame_message(),
                RawMarketMessage::Ping(d) => r matches Some(Ok(MarketMessage::Pong(p))) && p@ == d@,
                RawMarketMessage::Pong(d) => r matches Some(Ok(MarketMessage::Pong(p))) && p@ == d@,
            },
    {
        match raw {
            RawMarketMessage::Text(_) => None,
            RawMarketMessage::Binary(_) => Some(
                Err(MarketDataError::ParseError(owned("Binary frame format not supported"))),
            ),
            RawMarketMessage::Ping(data) => Some(Ok(MarketMessage::Pong(copy_bytes(data)))),
            RawMarketMessage::Pong(data) => Some(Ok(MarketMessage::Pong(copy_bytes(data)))),
        }
    }

    /// The result of reading a text frame, given what the JSON reader
    /// returned: the message, or a parse error carrying the reader's text.
    pub fn json_outcome(decoded: Result<MarketMessage, String>) -> (r: Result<MarketMessage, MarketDataError>)
        ensures
            match decoded {
                Ok(m) => r == Ok::<MarketMessage, MarketDataError>(m),
                Err(e) => r matches Err(MarketDataError::ParseError(t)) && t@ == e@,
            },
    {
        match decoded {
            Ok(m) => Ok(m),
            Err(e) => Err(MarketDataError::ParseError(e)),
        }
    }
}

/// A copy of a byte payload.
fn copy_bytes(data: &Vec<u8>) -> (r: Vec<u8>)
    ensures
        r@ == data@,
{
    let mut out: Vec<u8> = Vec::new();
    let n = data.len();
    let mut i: usize = 0;
    while i < n
        invariant
            n == data@.len(),
            0 <= i <= n,
            out@ == data@.take(i as int),
        decreases n - i,
    {
        out.push(data[i]);
        assert(out@ =~= data@.take(i + 1));
        i = i + 1;
    }
    assert(data@.take(n as int) =~= data@);
    out
}

/// The event a trade result stands for.
pub open spec fn trade_event_result(r: Result<Trade, MarketDataError>) -> Result<Option<MarketEvent>, MarketDataError> {
    match r {
        Ok(t) => Ok(Some(MarketEvent::Trade(t))),
        Err(e) => Err(e),
    }
}

/// The event a quote result stands for.
pub open spec fn quote_event_result(r: Result<Quote, MarketDataError>) -> Result<Option<MarketEvent>, MarketDataError> {
    match r {
        Ok(q) => Ok(Some(MarketEvent::Quote(q))),
        Err(e) => Err(e),
    }
}

impl MarketMessage {
    /// The validated event a message carries: trades and quotes are checked
    /// (timestamp first), heartbeats and pongs carry none, an exchange error
    /// becomes a parse error with the exchange's message (the error type has
    /// no variant of its own for exchange errors, and callers match on the
    /// parse error).
    pub fn try_into_market_event(&self) -> (r: Result<Option<MarketEvent>, MarketDataError>)
        ensures
            match *self {
                MarketMessage::Trade(t) => {
                    ||| (exists|e: MarketDataError| raw_epoch_outcome(t.timestamp, Err(e)) && r == Err::<
                        Option<MarketEvent>,
                        MarketDataError,
                    >(e))
                    ||| (exists|ts: MarketTimestamp, tr: Result<Trade, MarketDataError>|
                        raw_epoch_outcome(t.timestamp, Ok(ts)) && trade_outcome(
                            t.symbol@,
                            t.price,
                            t.volume,
                            ts,
                            tr,
                        ) && r == trade_event_result(tr))
                },
                MarketMessage::Quote(q) => {
                    ||| (exists|e: MarketDataError| raw_epoch_outcome(q.timestamp, Err(e)) && r == Err::<
                        Option<MarketEvent>,
                        MarketDataError,
                    >(e))
                    ||| (exists|ts: MarketTimestamp, qr: Result<Quote, MarketDataError>|
                        raw_epoch_outcome(q.timestamp, Ok(ts)) && quote_outcome(
                            q.symbol@,
                            q.bid_price,
                            q.bid_vol,
                            q.ask_price,
                            q.ask_vol,
                            ts,
                            qr,
                        ) && r == quote_event_result(qr))
                },
                MarketMessage::Heartbeat(_) => r == Ok::<Option<MarketEvent>, MarketDataError>(None),
                MarketMessage::Pong(_) => r == Ok::<Option<MarketEvent>, MarketDataError>(None),
                MarketMessage::ExchangeError(x) => r matches Err(MarketDataError::ParseError(m)) && m@
                    == x.message@,
            },
    {
        match self {
            MarketMessage::Trade(trade) => {
                let ts = match MarketTimestamp::from_raw_epoch(trade.timestamp) {
                    Ok(t) => t,
                    Err(e) => {
                        return Err(e);
                    },
                };
                let tr = Trade::new(owned(trade.symbol.as_str()), trade.price, trade.volume, ts);
                let ghost g = tr;
                match tr {
                    Ok(t) => Ok(Some(MarketEvent::Trade(t))),
                    Err(e) => {
                        assert(trade_event_result(g) == Err::<Option<MarketEvent>, MarketDataError>(e));
                        Err(e)
                    },
                }
            },
            MarketMessage::Quote(quote) => {
                let ts = match MarketTimestamp::from_raw_epoch(quote.timestamp) {
                    Ok(t) => t,
                    Err(e) => {
                        return Err(e);
                    },
                };
                let qr = Quote::new(
                    owned(quote.symbol.as_str()),
                    quote.bid_price,
                    quote.bid_vol,
                    quote.ask_price,
                    quote.ask_vol,
                    ts,
                );
                let ghost g = qr;
                match qr {
                    Ok(q) => Ok(Some(MarketEvent::Quote(q))),
                    Err(e) => {
                        assert(quote_event_result(g) == Err::<Option<MarketEvent>, MarketDataError>(e));
                        Err(e)
                    },
                }
            },
            MarketMessage::Heartbeat(_) => Ok(None),
            MarketMessage::ExchangeError(err) => Err(MarketDataError::ParseError(owned(err.message.as_str()))),
            MarketMessage::Pong(_) => Ok(None),
        }
    }
}

} // verus!
