//! The streaming endpoint of Hyperliquid.

use vstd::prelude::*;
use vstd::string::*;

use crate::hyperliquid::native::{native_of, NativeCoins};
use crate::json::{json_text, no_members, object, text, with_member, write_json, Json, JsonView};
use crate::traits::{PingKind, WsConnector};
use crate::types::SymbolSpec;

verus! {

pub const WS_URL: &'static str = "wss://api.hyperliquid.xyz/ws";

/// Most instruments on one connection.
pub const SHARD_SIZE: usize = 250;

pub struct HyperliquidWs;

impl HyperliquidWs {
    pub fn new() -> (r: Self)
        ensures
            r == HyperliquidWs,
    {
        HyperliquidWs
    }

    /// The coin of a canonical symbol: `BTCUSDC` is `BTC`.
    pub fn native_coin(&self, natives: &NativeCoins, canonical: &str) -> (r: String)
        ensures
            r@ == native_of(natives@, canonical@),
    {
        natives.get_native(canonical)
    }
}

impl Default for HyperliquidWs {
    fn default() -> (r: Self)
        ensures
            r == HyperliquidWs,
    {
        HyperliquidWs::new()
    }
}

/// The message that subscribes to the trades of a coin.
pub open spec fn coin_message(coin: Seq<char>) -> JsonView {
    JsonView::Object(
        Map::<Seq<char>, JsonView>::empty().insert("method"@, JsonView::Text("subscribe"@)).insert(
            "subscription"@,
            JsonView::Object(
                Map::<Seq<char>, JsonView>::empty().insert(
                    "type"@,
                    JsonView::Text("trades"@),
                ).insert("coin"@, JsonView::Text(coin)),
            ),
        ),
    )
}

/// Makes the message that subscribes to the trades of a coin.
pub fn subscribe_document(coin: &str) -> (r: Json)
    ensures
        r@ == coin_message(coin@),
        crate::json::writable(r),
{
    let what = with_member(no_members(), "type", text("trades"));
    let what = object(with_member(what, "coin", text(coin)));
    let m = with_member(no_members(), "method", text("subscribe"));
    object(with_member(m, "subscription", what))
}

/// The text that subscribes to the trades of a coin.
pub fn subscribe_message(coin: &str) -> (r: String)
    ensures
        r@ == json_text(coin_message(coin@)),
{
    write_json(&subscribe_document(coin))
}

impl WsConnector for HyperliquidWs {
    fn ws_url(&self) -> (r: &str)
        ensures
            r@ == WS_URL@,
    {
        WS_URL
    }

    /// Empty: each coin is subscribed to by a message of its own.
    fn subscribe_payload(&self, _symbols: &[&SymbolSpec]) -> (r: String)
        ensures
            r@ == Seq::<char>::empty(),
    {
        String::new()
    }

    fn ping_interval_ms(&self) -> (r: u64)
        ensures
            r == 14_000,
    {
        14_000
    }

    fn ping_payload(&self) -> (r: PingKind)
        ensures
            r is Text && r->Text_0@ == "{\"method\":\"ping\"}"@,
    {
        PingKind::Text("{\"method\":\"ping\"}")
    }

    fn pong_timeout_ms(&self) -> (r: u64)
        ensures
            r == 30_000,
    {
        30_000
    }

    fn max_subscriptions_per_socket(&self) -> (r: usize)
        ensures
            r == 1000,
    {
        1000
    }
}

/// A coin is asked for by its own name, on the channel of trades.
pub proof fn law_coin_is_subscribed(coin: Seq<char>)
    ensures
        coin_message(coin).text_of("method"@) == Some("subscribe"@),
        coin_message(coin).member("subscription"@) is Some,
        coin_message(coin).member("subscription"@)->0.text_of("type"@) == Some("trades"@),
        coin_message(coin).member("subscription"@)->0.text_of("coin"@) == Some(coin),
{
    reveal_strlit("method");
    reveal_strlit("subscription");
    reveal_strlit("type");
    reveal_strlit("coin");
    assert("method"@.len() == 6 && "subscription"@.len() == 12);
    assert("type"@[0] == 't' && "coin"@[0] == 'c');
}

} // verus!
