//! Authentication handshake with the market-data server: the credential
//! message sent after connecting, and the reading of the server's reply.
//!
//! Messages are compact JSON objects with their keys in the order serde_json
//! writes them: `{"api_key":..,"secret_key":..,"type":"auth"}` or
//! `{"token":..,"type":"auth"}`. A reply is accepted when its `status` is
//! the string `"ok"`.

use vstd::prelude::*;
use crate::errors::MarketDataError;
use crate::text::{concat, is_blank, is_blank_str, json_quote, json_quoted, json_reply_fields, owned, parse_reply, text_eq};

verus! {

/// How the client proves its identity.
#[derive(Clone, PartialEq, Eq)]
pub enum AuthMethod {
    /// No handshake (mock servers, development).
    NoAuth,
    ApiKey { api_key: String, secret_key: String },
    BearerToken(String),
}

/// The handshake a client performs; users may supply their own.
pub trait Authenticator: Send + Sync {
    /// The message to send after connecting, if any.
    fn generate_auth_message(&self) -> Result<Option<String>, MarketDataError>;

    /// Whether the server's reply accepts the client.
    fn verify_auth_response(&self, response: &str) -> Result<bool, MarketDataError>;
}

/// The message carrying an API key pair.
pub open spec fn api_key_message(api_key: Seq<char>, secret_key: Seq<char>) -> Seq<char> {
    "{\"api_key\":"@ + json_quoted(api_key) + ",\"secret_key\":"@ + json_quoted(secret_key)
        + ",\"type\":\"auth\"}"@
}

/// The message carrying a bearer token.
pub open spec fn token_message(token: Seq<char>) -> Seq<char> {
    "{\"token\":"@ + json_quoted(token) + ",\"type\":\"auth\"}"@
}

/// The outcome of the handshake message for a method: `Ok(None)` without
/// one, the refusal of blank credentials, or the message.
pub open spec fn auth_message_outcome(method: AuthMethod, r: Result<Option<String>, MarketDataError>) -> bool {
    match method {
        AuthMethod::NoAuth => r matches Ok(None),
        AuthMethod::ApiKey { api_key, secret_key } => if is_blank(api_key@) || is_blank(secret_key@) {
            r matches Err(MarketDataError::AuthenticationError(m)) && m@
                == "API key and secret key are required"@
        } else {
            r matches Ok(Some(msg)) && msg@ == api_key_message(api_key@, secret_key@)
        },
        AuthMethod::BearerToken(token) => if is_blank(token@) {
            r matches Err(MarketDataError::AuthenticationError(m)) && m@ == "Bearer token is required"@
        } else {
            r matches Ok(Some(msg)) && msg@ == token_message(token@)
        },
    }
}

/// The outcome of a server reply, from what was read of it: a parse
/// failure, acceptance when `status` is `"ok"`, otherwise a refusal with
/// the reply's `message` (or `"Unknown error"`).
pub open spec fn auth_reply_outcome(
    fields: Result<(Option<Seq<char>>, Option<Seq<char>>), Seq<char>>,
    r: Result<bool, MarketDataError>,
) -> bool {
    match fields {
        Err(e) => r matches Err(MarketDataError::AuthenticationError(m)) && m@
            == "Failed to parse authentication response: "@ + e,
        Ok((status, message)) => if status == Some("ok"@) {
            r == Ok::<bool, MarketDataError>(true)
        } else {
            r matches Err(MarketDataError::AuthenticationError(m)) && m@ == match message {
                Some(t) => t,
                None => "Unknown error"@,
            }
        },
    }
}

/// Decides on a server reply from its parsed `status` and `message` (or
/// the parse error).
pub fn judge_auth_reply(fields: Result<(Option<String>, Option<String>), String>) -> (r: Result<bool, MarketDataError>)
    ensures
        auth_reply_outcome(
            match fields {
                Ok((s, m)) => Ok(
                    (
                        match s {
                            Some(x) => Some(x@),
                            None => None,
                        },
                        match m {
                            Some(x) => Some(x@),
                            None => None,
                        },
                    ),
                ),
                Err(e) => Err(e@),
            },
            r,
        ),
{
    match fields {
        Err(e) => Err(
            MarketDataError::AuthenticationError(
                concat("Failed to parse authentication response: ", e.as_str()),
            ),
        ),
        Ok((status, message)) => {
            let accepted = match &status {
                Some(s) => text_eq(s.as_str(), "ok"),
                None => false,
            };
            if accepted {
                Ok(true)
            } else {
                match message {
                    Some(m) => Err(MarketDataError::AuthenticationError(m)),
                    None => Err(MarketDataError::AuthenticationError(owned("Unknown error"))),
                }
            }
        },
    }
}

/// The built-in handshake.
pub struct DefaultAuthenticator {
    method: AuthMethod,
}

impl DefaultAuthenticator {
    pub closed spec fn method_spec(&self) -> AuthMethod {
        self.method
    }

    pub fn new(method_auth: AuthMethod) -> (r: DefaultAuthenticator)
        ensures
            r.method_spec() == method_auth,
    {
        DefaultAuthenticator { method: method_auth }
    }
}

impl Authenticator for DefaultAuthenticator {
    /// The credential message of the configured method; blank credentials
    /// are refused.
    fn generate_auth_message(&self) -> (r: Result<Option<String>, MarketDataError>)
        ensures
            auth_message_outcome(self.method_spec(), r),
    {
        match &self.method {
            AuthMethod::NoAuth => Ok(None),
            AuthMethod::ApiKey { api_key, secret_key } => {
                if is_blank_str(api_key.as_str()) || is_blank_str(secret_key.as_str()) {
                    return Err(
                        MarketDataError::AuthenticationError(owned("API key and secret key are required")),
                    );
                }
                let a = concat("{\"api_key\":", json_quote(api_key.as_str()).as_str());
                let b = concat(a.as_str(), ",\"secret_key\":");
                let c = concat(b.as_str(), json_quote(secret_key.as_str()).as_str());
                Ok(Some(concat(c.as_str(), ",\"type\":\"auth\"}")))
            },
            AuthMethod::BearerToken(token) => {
                if is_blank_str(token.as_str()) {
                    return Err(MarketDataError::AuthenticationError(owned("Bearer token is required")));
                }
                let a = concat("{\"token\":", json_quote(token.as_str()).as_str());
                Ok(Some(concat(a.as_str(), ",\"type\":\"auth\"}")))
            },
        }
    }

    /// Reads the server's reply (as serde_json parses it) and decides.
    fn verify_auth_response(&self, response: &str) -> (r: Result<bool, MarketDataError>)
        ensures
            auth_reply_outcome(json_reply_fields(response@), r),
    {
        judge_auth_reply(parse_reply(response))
    }
}

} // verus!
