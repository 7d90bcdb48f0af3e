//! The streaming endpoint of Binance spot.

use vstd::prelude::*;
use vstd::string::*;

use crate::binance::streams::{stream_names, subscribe_document, subscribe_message, symbols_of};
use crate::json::{json_text, write_json};
use crate::traits::{PingKind, WsConnector};
use crate::types::SymbolSpec;

verus! {

/// The combined-stream endpoint. The server pings every 20 seconds and expects an answer within a
/// minute. Up to 200 streams a connection, as for futures.
pub struct BinanceSpotWs {
    pub url: String,
}

impl BinanceSpotWs {
    pub fn new() -> (r: Self)
        ensures
            r.url@ == "wss://stream.binance.com:9443/stream"@,
    {
        BinanceSpotWs { url: "wss://stream.binance.com:9443/stream".to_owned() }
    }

    pub fn with_url(url: &str) -> (r: Self)
        ensures
            r.url@ == url@,
    {
        BinanceSpotWs { url: url.to_owned() }
    }
}

impl Default for BinanceSpotWs {
    fn default() -> (r: Self)
        ensures
            r.url@ == "wss://stream.binance.com:9443/stream"@,
    {
        BinanceSpotWs::new()
    }
}

impl WsConnector for BinanceSpotWs {
    fn ws_url(&self) -> (r: &str)
        ensures
            r@ == self.url@,
    {
        self.url.as_str()
    }

    fn subscribe_payload(&self, symbols: &[&SymbolSpec]) -> (r: String)
        ensures
            r@ == json_text(subscribe_message(stream_names(symbols_of(symbols@)), 1)),
    {
        write_json(&subscribe_document(symbols, 1))
    }

    fn ping_interval_ms(&self) -> (r: u64)
        ensures
            r == 20_000,
    {
        20_000
    }

    fn ping_payload(&self) -> (r: PingKind)
        ensures
            r == PingKind::ServerInitiated,
    {
        PingKind::ServerInitiated
    }

    fn pong_timeout_ms(&self) -> (r: u64)
        ensures
            r == 60_000,
    {
        60_000
    }

    fn max_subscriptions_per_socket(&self) -> (r: usize)
        ensures
            r == 200,
    {
        200
    }
}

} // verus!
