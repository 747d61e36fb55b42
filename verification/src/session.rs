//! Decisions of the self-healing connection loop.
//!
//! The loop connects, runs a session until the connection ends or goes
//! stale, and reconnects after a back-off. The outside work (connecting,
//! sleeping, reading frames, checking the clock) is done by the caller; this
//! state machine says what to do next and keeps the connection state and
//! the count of consecutive failed attempts. A successful connection starts
//! the count again, so a long-lived connection that drops is always retried;
//! without a retry limit the loop never gives up.

use vstd::prelude::*;
use crate::errors::MarketDataError;
use crate::health::HealthStatus;
use crate::text::{contains_text, owned, text_contains};
use crate::websocket::ConnectionState;

verus! {

/// Whether `attempt` consecutive failures use up the retry limit.
pub open spec fn retries_exhausted(attempt: int, max_retries: Option<usize>) -> bool {
    match max_retries {
        None => false,
        Some(m) => attempt >= m,
    }
}

/// The application-level ping marker a text frame may carry.
pub open spec fn ping_marker() -> Seq<char> {
    "\"type\":\"ping\""@
}

/// The reply to an application-level ping.
pub open spec fn pong_text() -> Seq<char> {
    "{\"type\":\"pong\"}"@
}

/// What to do before the next connection attempt.
#[derive(Debug, Clone, Copy, PartialEq, Eq, Structural)]
pub enum ConnectStep {
    /// The retry limit is reached: give up.
    Stop,
    /// Connect, after waiting the back-off of the given failure count when
    /// there is one.
    Connect { backoff_attempt: Option<usize> },
}

/// What happened during a session.
#[derive(Debug, Clone, PartialEq)]
pub enum SessionEvent {
    Text(String),
    Ping(Vec<u8>),
    Close,
    ReadError,
    StreamEnd,
    /// Any other frame.
    OtherFrame,
    /// The periodic liveness check, with the status it found.
    HealthTick(HealthStatus),
}

/// What to do about a session event.
#[derive(Debug, Clone, PartialEq)]
pub enum SessionAction {
    /// Record the arrival, pass the text on, and answer with the pong
    /// message when asked to.
    Forward { reply_pong: bool },
    /// Answer a ping with a pong carrying the same payload.
    SendPong(Vec<u8>),
    /// Nothing to do.
    Ignore,
    /// The session is over: disconnect and go back to the retry step.
    EndSession,
}

/// The reply to an application-level ping.
pub fn pong_message() -> (r: String)
    ensures
        r@ == pong_text(),
{
    owned("{\"type\":\"pong\"}")
}

/// Whether a session event ends the session.
pub open spec fn ends_session(ev: SessionEvent) -> bool {
    match ev {
        SessionEvent::Close | SessionEvent::ReadError | SessionEvent::StreamEnd => true,
        SessionEvent::HealthTick(s) => s == HealthStatus::Stale || s == HealthStatus::Dead,
        _ => false,
    }
}

/// State of the reconnection loop.
pub struct ReconnectLoop {
    attempt: usize,
    max_retries: Option<usize>,
    state: ConnectionState,
}

impl ReconnectLoop {
    pub closed spec fn attempt_spec(&self) -> usize {
        self.attempt
    }

    pub closed spec fn max_retries_spec(&self) -> Option<usize> {
        self.max_retries
    }

    pub closed spec fn state_spec(&self) -> ConnectionState {
        self.state
    }

    /// A disconnected loop with no failure yet.
    pub fn new(max_retries: Option<usize>) -> (r: ReconnectLoop)
        ensures
            r.attempt_spec() == 0,
            r.max_retries_spec() == max_retries,
            r.state_spec() == ConnectionState::Disconnected,
    {
        ReconnectLoop { attempt: 0, max_retries, state: ConnectionState::Disconnected }
    }

    /// Consecutive failed attempts so far.
    pub fn attempt(&self) -> (r: usize)
        ensures
            r == self.attempt_spec(),
    {
        self.attempt
    }

    /// The connection state.
    pub fn state(&self) -> (r: ConnectionState)
        ensures
            r == self.state_spec(),
    {
        self.state
    }

    /// Decides the next attempt: stop once the retry limit is used up,
    /// otherwise connect, after a back-off (and in the reconnecting state)
    /// when earlier attempts failed.
    pub fn plan_attempt(&mut self) -> (r: ConnectStep)
        ensures
            final(self).attempt_spec() == old(self).attempt_spec(),
            final(self).max_retries_spec() == old(self).max_retries_spec(),
            retries_exhausted(old(self).attempt_spec() as int, old(self).max_retries_spec()) ==> r
                == ConnectStep::Stop && final(self).state_spec() == old(self).state_spec(),
            !retries_exhausted(old(self).attempt_spec() as int, old(self).max_retries_spec())
                && old(self).attempt_spec() > 0 ==> r == (ConnectStep::Connect {
                backoff_attempt: Some(old(self).attempt_spec()),
            }) && final(self).state_spec() == ConnectionState::Reconnecting,
            !retries_exhausted(old(self).attempt_spec() as int, old(self).max_retries_spec())
                && old(self).attempt_spec() == 0 ==> r == (ConnectStep::Connect {
                backoff_attempt: None,
            }) && final(self).state_spec() == ConnectionState::Connecting,
    {
        let exhausted = match self.max_retries {
            None => false,
            Some(m) => self.attempt >= m,
        };
        if exhausted {
            return ConnectStep::Stop;
        }
        if self.attempt > 0 {
            self.state = ConnectionState::Reconnecting;
            ConnectStep::Connect { backoff_attempt: Some(self.attempt) }
        } else {
            self.state = ConnectionState::Connecting;
            ConnectStep::Connect { backoff_attempt: None }
        }
    }

    /// The back-off is over: connecting now.
    pub fn begin_connect(&mut self)
        ensures
            final(self).attempt_spec() == old(self).attempt_spec(),
            final(self).max_retries_spec() == old(self).max_retries_spec(),
            final(self).state_spec() == ConnectionState::Connecting,
    {
        self.state = ConnectionState::Connecting;
    }

    /// Records how the connection attempt ended: success connects and
    /// starts the failure count again, failure adds one to it.
    pub fn connect_finished(&mut self, ok: bool)
        requires
            !ok ==> old(self).attempt_spec() < usize::MAX,
        ensures
            final(self).max_retries_spec() == old(self).max_retries_spec(),
            ok ==> final(self).attempt_spec() == 0 && final(self).state_spec() == ConnectionState::Connected,
            !ok ==> final(self).attempt_spec() == old(self).attempt_spec() + 1 && final(self).state_spec()
                == old(self).state_spec(),
    {
        if ok {
            self.state = ConnectionState::Connected;
            self.attempt = 0;
        } else {
            self.attempt = self.attempt + 1;
        }
    }

    /// Decides what a session event calls for: text is recorded and passed
    /// on (an application ping also gets a pong), a ping frame is answered
    /// with its payload, the end of the stream, a close, a read error or a
    /// stale or dead connection end the session (disconnecting), anything
    /// else is ignored.
    pub fn on_event(&mut self, ev: SessionEvent) -> (r: SessionAction)
        ensures
            final(self).attempt_spec() == old(self).attempt_spec(),
            final(self).max_retries_spec() == old(self).max_retries_spec(),
            ends_session(ev) ==> r == SessionAction::EndSession && final(self).state_spec()
                == ConnectionState::Disconnected,
            !ends_session(ev) ==> final(self).state_spec() == old(self).state_spec(),
            ev matches SessionEvent::Text(t) ==> r == (SessionAction::Forward {
                reply_pong: contains_text(t@, ping_marker()),
            }),
            ev matches SessionEvent::Ping(d) ==> (r matches SessionAction::SendPong(p) && p@ == d@),
            (ev is OtherFrame || (ev is HealthTick && !ends_session(ev))) ==> r == SessionAction::Ignore,
    {
        match ev {
            SessionEvent::Text(t) => SessionAction::Forward {
                reply_pong: text_contains(t.as_str(), "\"type\":\"ping\""),
            },
            SessionEvent::Ping(d) => SessionAction::SendPong(d),
            SessionEvent::Close | SessionEvent::ReadError | SessionEvent::StreamEnd => {
                self.state = ConnectionState::Disconnected;
                SessionAction::EndSession
            },
            SessionEvent::OtherFrame => SessionAction::Ignore,
            SessionEvent::HealthTick(s) => match s {
                HealthStatus::Stale | HealthStatus::Dead => {
                    self.state = ConnectionState::Disconnected;
                    SessionAction::EndSession
                },
                _ => SessionAction::Ignore,
            },
        }
    }
}

/// The first frame the server sends after the credential message.
#[derive(Debug, Clone, PartialEq)]
pub enum AuthReply {
    Text(String),
    /// A frame that is not text: there is nothing to check.
    OtherFrame,
    /// Reading failed, with the transport's message.
    ReadError(String),
    /// The server closed the connection.
    Closed,
}

/// Why the handshake fails when the server closes before replying.
pub open spec fn closed_during_auth_message() -> Seq<char> {
    "Server closed connection during auth handshake"@
}

/// What the handshake does with the server's first frame: a text reply is
/// to be checked by the authenticator, another frame is let through, and a
/// read failure or a closed connection fail the connection.
pub fn read_auth_reply(reply: AuthReply) -> (r: Result<Option<String>, MarketDataError>)
    ensures
        match reply {
            AuthReply::Text(t) => r matches Ok(Some(x)) && x@ == t@,
            AuthReply::OtherFrame => r matches Ok(None),
            AuthReply::ReadError(e) => r matches Err(MarketDataError::ConnectionError(m)) && m@ == e@,
            AuthReply::Closed => r matches Err(MarketDataError::ConnectionError(m)) && m@
                == closed_during_auth_message(),
        },
{
    match reply {
        AuthReply::Text(t) => Ok(Some(t)),
        AuthReply::OtherFrame => Ok(None),
        AuthReply::ReadError(e) => Err(MarketDataError::ConnectionError(e)),
        AuthReply::Closed => Err(
            MarketDataError::ConnectionError(owned("Server closed connection during auth handshake")),
        ),
    }
}

/// Without a retry limit the loop never gives up; with a limit of `m` it
/// gives up exactly after `m` consecutive failures.
pub proof fn lemma_retry_budget(failures: int, max_retries: Option<usize>)
    requires
        failures >= 0,
    ensures
        max_retries is None ==> !retries_exhausted(failures, max_retries),
        max_retries matches Some(m) ==> (retries_exhausted(failures, max_retries) <==> failures >= m),
{
}

/// A successful connection restores the whole retry budget: after it, the
/// loop always tries again unless the limit is zero.
pub proof fn lemma_success_restores_budget(max_retries: Option<usize>)
    ensures
        !retries_exhausted(0, max_retries) <==> !(max_retries == Some(0usize)),
{
}

} // verus!
