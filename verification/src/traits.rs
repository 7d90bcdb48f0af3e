//! What a venue adapter offers, and how it fails.

use vstd::prelude::*;
use vstd::string::*;

use crate::text::{decimal_int, i64_text};
use crate::types::{SymbolSpec, TradePrint};

verus! {

#[derive(Debug)]
pub enum ExchangeError {
    Network(String),
    Parse(String),
    RateLimited { until_ms: i64, reason: String },
    Other(String),
}

/// An `ExchangeError`, its texts as sequences of characters.
pub enum ErrorView {
    Network(Seq<char>),
    Parse(Seq<char>),
    RateLimited { until_ms: i64, reason: Seq<char> },
    Other(Seq<char>),
}

impl View for ExchangeError {
    type V = ErrorView;

    open spec fn view(&self) -> ErrorView {
        match self {
            ExchangeError::Network(m) => ErrorView::Network(m@),
            ExchangeError::Parse(m) => ErrorView::Parse(m@),
            ExchangeError::RateLimited { until_ms, reason } => ErrorView::RateLimited {
                until_ms: *until_ms,
                reason: reason@,
            },
            ExchangeError::Other(m) => ErrorView::Other(m@),
        }
    }
}

/// The text that describes an error.
pub open spec fn error_message(e: ErrorView) -> Seq<char> {
    match e {
        ErrorView::Network(m) => "network error: "@ + m,
        ErrorView::Parse(m) => "parse error: "@ + m,
        ErrorView::RateLimited { until_ms, reason } => "rate limited until epoch_ms="@ + decimal_int(
            until_ms as int,
        ) + ": "@ + reason,
        ErrorView::Other(m) => "unexpected: "@ + m,
    }
}

impl ExchangeError {
    /// Describes the error.
    pub fn message(&self) -> (r: String)
        ensures
            r@ == error_message(self@),
    {
        match self {
            ExchangeError::Network(m) => "network error: ".to_owned().concat(m.as_str()),
            ExchangeError::Parse(m) => "parse error: ".to_owned().concat(m.as_str()),
            ExchangeError::RateLimited { until_ms, reason } => {
                let until = i64_text(*until_ms);
                "rate limited until epoch_ms=".to_owned().concat(until.as_str()).concat(
                    ": ",
                ).concat(reason.as_str())
            },
            ExchangeError::Other(m) => "unexpected: ".to_owned().concat(m.as_str()),
        }
    }
}

/// How a connection is kept alive.
#[derive(Debug, Clone)]
pub enum PingKind {
    /// A ping frame of the WebSocket protocol.
    Protocol,
    /// A text message from the client.
    Text(&'static str),
    /// The server pings, the client only answers.
    ServerInitiated,
}

/// Where and how a venue streams trades.
pub trait WsConnector: Send + Sync {
    fn ws_url(&self) -> &str;

    fn subscribe_payload(&self, symbols: &[&SymbolSpec]) -> String;

    fn ping_interval_ms(&self) -> u64;

    fn ping_payload(&self) -> PingKind;

    fn pong_timeout_ms(&self) -> u64;

    fn max_subscriptions_per_socket(&self) -> usize;
}

/// Turns one message of a venue into a trade of the given instrument. `Ok(None)` where the message
/// holds none.
pub trait TradeParser: Send + Sync {
    fn parse(&self, raw: &[u8], spec: &SymbolSpec) -> Result<Option<TradePrint>, ExchangeError>;
}

} // verus!
