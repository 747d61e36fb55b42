//! The frames a market-data connection delivers and the client's settings.

use vstd::prelude::*;
use crate::errors::MarketDataError;

verus! {

/// Life-cycle state of a connection.
#[derive(Debug, Clone, Copy, PartialEq, Eq, Structural)]
pub enum ConnectionState {
    Disconnected,
    Connecting,
    Connected,
    Reconnecting,
    Closed,
}

/// A frame as received from the server.
#[derive(Debug, Clone, PartialEq)]
pub enum RawMarketMessage {
    Text(String),
    Binary(Vec<u8>),
    Ping(Vec<u8>),
    Pong(Vec<u8>),
}

/// Where to connect and how many frames may wait unread.
#[derive(Debug, Clone)]
pub struct WebSocketClient {
    pub endpoint: String,
    pub channel_capacity: usize,
}

impl WebSocketClient {
    pub fn new(endpoint: String, channel_capacity: usize) -> (r: WebSocketClient)
        ensures
            r.endpoint@ == endpoint@,
            r.channel_capacity == channel_capacity,
    {
        WebSocketClient { endpoint, channel_capacity }
    }
}

/// A frame as the WebSocket library reports it, or the error it reported.
#[derive(Debug, Clone, PartialEq)]
pub enum IncomingFrame {
    Text(String),
    Binary(Vec<u8>),
    Ping(Vec<u8>),
    Pong(Vec<u8>),
    Close,
    /// A raw frame of the protocol layer.
    RawFrame,
    Error,
}

/// What the reading task does with a frame.
#[derive(Debug, Clone, PartialEq)]
pub enum RelayAction {
    /// Pass the frame on (stop if nobody listens any more).
    Forward(RawMarketMessage),
    Skip,
    /// The connection is over.
    Stop,
}

/// Data frames are passed on as they are, raw protocol frames skipped, and
/// a close frame or a read error ends the reading.
pub fn relay_frame(frame: IncomingFrame) -> (r: RelayAction)
    ensures
        match frame {
            IncomingFrame::Text(t) => r matches RelayAction::Forward(RawMarketMessage::Text(x)) && x@ == t@,
            IncomingFrame::Binary(d) => r == RelayAction::Forward(RawMarketMessage::Binary(d)),
            IncomingFrame::Ping(d) => r == RelayAction::Forward(RawMarketMessage::Ping(d)),
            IncomingFrame::Pong(d) => r == RelayAction::Forward(RawMarketMessage::Pong(d)),
            IncomingFrame::RawFrame => r == RelayAction::Skip,
            IncomingFrame::Close | IncomingFrame::Error => r == RelayAction::Stop,
        },
{
    match frame {
        IncomingFrame::Text(t) => RelayAction::Forward(RawMarketMessage::Text(t)),
        IncomingFrame::Binary(d) => RelayAction::Forward(RawMarketMessage::Binary(d)),
        IncomingFrame::Ping(d) => RelayAction::Forward(RawMarketMessage::Ping(d)),
        IncomingFrame::Pong(d) => RelayAction::Forward(RawMarketMessage::Pong(d)),
        IncomingFrame::RawFrame => RelayAction::Skip,
        IncomingFrame::Close | IncomingFrame::Error => RelayAction::Stop,
    }
}

/// A connection failure carrying the transport's message.
pub fn connection_error(message: String) -> (r: MarketDataError)
    ensures
        r matches MarketDataError::ConnectionError(m) && m@ == message@,
{
    MarketDataError::ConnectionError(message)
}

} // verus!
