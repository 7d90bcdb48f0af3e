//! The streaming endpoints of BingX, one for swaps and one for spot.

use vstd::prelude::*;
use vstd::string::*;

use crate::bingx::symbols::{dashed, splits, to_bingx_symbol, try_bingx_symbol};
use crate::text::upper;
use crate::traits::{PingKind, WsConnector};
use crate::types::SymbolSpec;

verus! {

pub const SWAP_WS_URL: &'static str = "wss://open-api-swap.bingx.com/swap-market";

pub const SPOT_WS_URL: &'static str = "wss://open-api-ws.bingx.com/market";

/// Most instruments on one connection.
pub const SHARD_SIZE: usize = 150;

pub struct BingxWs {
    pub futures: bool,
}

impl BingxWs {
    pub fn perp() -> (r: Self)
        ensures
            r.futures,
    {
        BingxWs { futures: true }
    }

    pub fn spot() -> (r: Self)
        ensures
            !r.futures,
    {
        BingxWs { futures: false }
    }

    pub fn is_futures(&self) -> (r: bool)
        ensures
            r == self.futures,
    {
        self.futures
    }

    /// The symbol as BingX writes it: `BTCUSDT` becomes `BTC-USDT`.
    pub fn venue_symbol(&self, canonical: &str) -> (r: String)
        requires
            splits(upper(canonical@)),
        ensures
            r@ == dashed(upper(canonical@)),
    {
        to_bingx_symbol(canonical)
    }

    /// The symbol as BingX writes it, where it parts into a base and a quote.
    pub fn try_venue_symbol(&self, canonical: &str) -> (r: Option<String>)
        ensures
            r is Some == splits(upper(canonical@)),
            r is Some ==> r->0@ == dashed(upper(canonical@)),
    {
        match try_bingx_symbol(canonical) {
            Some(_) => Some(self.venue_symbol(canonical)),
            None => None,
        }
    }
}

/// The message that subscribes to the trades of a symbol as BingX writes it.
pub fn subscribe_message(venue: &str) -> (r: String)
    ensures
        r@ == "{\"id\":\"tr\",\"reqType\":\"sub\",\"dataType\":\""@ + venue@ + "@trade\"}"@,
{
    "{\"id\":\"tr\",\"reqType\":\"sub\",\"dataType\":\"".to_owned().concat(venue).concat(
        "@trade\"}",
    )
}

impl WsConnector for BingxWs {
    fn ws_url(&self) -> (r: &str)
        ensures
            r@ == (if self.futures {
                SWAP_WS_URL@
            } else {
                SPOT_WS_URL@
            }),
    {
        if self.futures {
            SWAP_WS_URL
        } else {
            SPOT_WS_URL
        }
    }

    /// Empty: each symbol is subscribed to by a message of its own.
    fn subscribe_payload(&self, _symbols: &[&SymbolSpec]) -> (r: String)
        ensures
            r@ == Seq::<char>::empty(),
    {
        String::new()
    }

    fn ping_interval_ms(&self) -> (r: u64)
        ensures
            r == 0,
    {
        0
    }

    fn ping_payload(&self) -> (r: PingKind)
        ensures
            r == PingKind::ServerInitiated,
    {
        PingKind::ServerInitiated
    }

    fn pong_timeout_ms(&self) -> (r: u64)
        ensures
            r == 60_000,
    {
        60_000
    }

    fn max_subscriptions_per_socket(&self) -> (r: usize)
        ensures
            r == 150,
    {
        150
    }
}

} // verus!
