//! The streaming endpoint of Binance USD-M futures.

use vstd::prelude::*;
use vstd::string::*;

use crate::binance::streams::{stream_names, subscribe_document, subscribe_message, symbols_of};
use crate::json::{json_text, write_json};
use crate::traits::{PingKind, WsConnector};
use crate::types::SymbolSpec;

verus! {

/// The combined-stream endpoint. The server pings and the client only answers. Up to 200 streams a
/// connection are reliable.
pub struct BinanceFuturesWs {
    pub url: String,
}

impl BinanceFuturesWs {
    pub fn new() -> (r: Self)
        ensures
            r.url@ == "wss://fstream.binance.com/market/stream"@,
    {
        BinanceFuturesWs { url: "wss://fstream.binance.com/market/stream".to_owned() }
    }

    pub fn with_url(url: &str) -> (r: Self)
        ensures
            r.url@ == url@,
    {
        BinanceFuturesWs { url: url.to_owned() }
    }
}

impl Default for BinanceFuturesWs {
    fn default() -> (r: Self)
        ensures
            r.url@ == "wss://fstream.binance.com/market/stream"@,
    {
        BinanceFuturesWs::new()
    }
}

impl WsConnector for BinanceFuturesWs {
    fn ws_url(&self) -> (r: &str)
        ensures
            r@ == self.url@,
    {
        self.url.as_str()
    }

    fn subscribe_payload(&self, symbols: &[&SymbolSpec]) -> (r: String)
        ensures
            r@ == json_text(subscribe_message(stream_names(symbols_of(symbols@)), 1)),
    {
        write_json(&subscribe_document(symbols, 1))
    }

    fn ping_interval_ms(&self) -> (r: u64)
        ensures
            r == 180_000,
    {
        180_000
    }

    fn ping_payload(&self) -> (r: PingKind)
        ensures
            r == PingKind::ServerInitiated,
    {
        PingKind::ServerInitiated
    }

    fn pong_timeout_ms(&self) -> (r: u64)
        ensures
            r == 600_000,
    {
        600_000
    }

    fn max_subscriptions_per_socket(&self) -> (r: usize)
        ensures
            r == 200,
    {
        200
    }
}

} // verus!
