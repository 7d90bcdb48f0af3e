//! The streaming endpoint of Bitget, one for spot and perpetuals.
//!
//! Subscriptions go out in batches of a hundred. The client pings with a text.

use vstd::prelude::*;
use vstd::slice::slice_subrange;
use vstd::string::*;

use crate::binance::streams::symbols_of;
use crate::chunks::{
    chunk, chunk_bounds, chunk_count, law_chunks_cover, law_each_item_has_its_chunk,
};
use crate::json::{
    array, items_view, json_text, lemma_items_view, no_members, object, text, with_member,
    write_json, Json, JsonView,
};
use crate::text::{to_uppercase, upper, views};
use crate::traits::{PingKind, WsConnector};
use crate::types::SymbolSpec;

verus! {

pub const WS_URL: &'static str = "wss://ws.bitget.com/v2/ws/public";

/// Most instruments in one subscription.
pub const MAX_ARGS_PER_SUBSCRIBE: usize = 100;

pub struct BitgetWs {
    pub is_perp: bool,
}

/// The name of the instrument type.
pub open spec fn inst_kind(is_perp: bool) -> Seq<char> {
    if is_perp {
        "USDT-FUTURES"@
    } else {
        "SPOT"@
    }
}

/// What names the trades of one instrument in a subscription.
pub open spec fn trade_arg(is_perp: bool, symbol: Seq<char>) -> JsonView {
    JsonView::Object(
        Map::<Seq<char>, JsonView>::empty().insert(
            "instType"@,
            JsonView::Text(inst_kind(is_perp)),
        ).insert("channel"@, JsonView::Text("trade"@)).insert(
            "instId"@,
            JsonView::Text(upper(symbol)),
        ),
    )
}

/// The message that subscribes to the given symbols.
pub open spec fn args_message(is_perp: bool, symbols: Seq<Seq<char>>) -> JsonView {
    JsonView::Object(
        Map::<Seq<char>, JsonView>::empty().insert("op"@, JsonView::Text("subscribe"@)).insert(
            "args"@,
            JsonView::Array(symbols.map_values(|s: Seq<char>| trade_arg(is_perp, s))),
        ),
    )
}

/// The messages that subscribe to the given symbols.
pub open spec fn bitget_batches(is_perp: bool, symbols: Seq<Seq<char>>) -> Seq<Seq<char>> {
    Seq::new(
        chunk_count(symbols.len(), MAX_ARGS_PER_SUBSCRIBE as nat),
        |i: int|
            json_text(args_message(is_perp, chunk(symbols, MAX_ARGS_PER_SUBSCRIBE as nat, i))),
    )
}

impl BitgetWs {
    pub fn perp() -> (r: Self)
        ensures
            r.is_perp,
    {
        BitgetWs { is_perp: true }
    }

    pub fn spot() -> (r: Self)
        ensures
            !r.is_perp,
    {
        BitgetWs { is_perp: false }
    }

    pub fn inst_type(&self) -> (r: &'static str)
        ensures
            r@ == inst_kind(self.is_perp),
    {
        if self.is_perp {
            "USDT-FUTURES"
        } else {
            "SPOT"
        }
    }

    /// Makes the message that subscribes to the given instruments.
    pub fn subscribe_document(&self, symbols: &[&SymbolSpec]) -> (r: Json)
        ensures
            r@ == args_message(self.is_perp, symbols_of(symbols@)),
            crate::json::writable(r),
    {
        let ghost all = symbols_of(symbols@);
        let mut args: Vec<Json> = Vec::new();
        let mut i: usize = 0;
        while i < symbols.len()
            invariant
                all == symbols_of(symbols@),
                i <= symbols@.len(),
                args@.len() == i,
                forall|k: int|
                    0 <= k < i ==> crate::json::writable(#[trigger] args@[k]) && args@[k]@
                        == trade_arg(self.is_perp, all[k]),
            decreases symbols@.len() - i,
        {
            let m = with_member(no_members(), "instType", text(self.inst_type()));
            let m = with_member(m, "channel", text("trade"));
            let id = to_uppercase(symbols[i].symbol.as_str());
            args.push(object(with_member(m, "instId", text(id.as_str()))));
            i = i + 1;
        }
        proof {
            lemma_items_view(args@);
            assert(items_view(args@) =~= all.map_values(
                |s: Seq<char>| trade_arg(self.is_perp, s),
            ));
        }
        let m = with_member(no_members(), "op", text("subscribe"));
        object(with_member(m, "args", array(args)))
    }

    /// One message for each batch of symbols.
    pub fn subscribe_payloads_batched(&self, symbols: &[&SymbolSpec]) -> (r: Vec<String>)
        ensures
            views(r@) == bitget_batches(self.is_perp, symbols_of(symbols@)),
    {
        let ghost all = symbols_of(symbols@);
        let bounds = chunk_bounds(symbols.len(), MAX_ARGS_PER_SUBSCRIBE);
        let mut out: Vec<String> = Vec::new();
        let mut i: usize = 0;
        while i < bounds.len()
            invariant
                all == symbols_of(symbols@),
                i <= bounds@.len(),
                bounds@.len() == chunk_count(all.len(), MAX_ARGS_PER_SUBSCRIBE as nat),
                bounds@.len() <= symbols@.len(),
                forall|k: int|
                    0 <= k < bounds@.len() ==> (#[trigger] bounds@[k]).0 == k
                        * MAX_ARGS_PER_SUBSCRIBE && bounds@[k].1 == crate::chunks::chunk_end(
                        all.len(),
                        MAX_ARGS_PER_SUBSCRIBE as nat,
                        k,
                    ) && bounds@[k].0 < bounds@[k].1 <= symbols@.len(),
                out@.len() == i,
                forall|k: int| 0 <= k < i ==> (#[trigger] out@[k])@ == bitget_batches(self.is_perp, all)[k],
            decreases bounds@.len() - i,
        {
            let (from, to) = bounds[i];
            let part = slice_subrange(symbols, from, to);
            assert(symbols_of(part@) =~= chunk(
                all,
                MAX_ARGS_PER_SUBSCRIBE as nat,
                i as int,
            ));
            let payload = write_json(&self.subscribe_document(part));
            out.push(payload);
            i = i + 1;
        }
        assert(views(out@) =~= bitget_batches(self.is_perp, all));
        out
    }
}

impl WsConnector for BitgetWs {
    fn ws_url(&self) -> (r: &str)
        ensures
            r@ == WS_URL@,
    {
        WS_URL
    }

    fn subscribe_payload(&self, symbols: &[&SymbolSpec]) -> (r: String)
        ensures
            r@ == (if symbols@.len() > 0 {
                bitget_batches(self.is_perp, symbols_of(symbols@))[0]
            } else {
                "{\"op\":\"subscribe\",\"args\":[]}"@
            }),
    {
        let mut batches = self.subscribe_payloads_batched(symbols);
        assert(views(batches@).len() == batches@.len());
        if batches.len() > 0 {
            assert(views(batches@)[0] == batches@[0]@);
            batches.swap_remove(0)
        } else {
            "{\"op\":\"subscribe\",\"args\":[]}".to_owned()
        }
    }

    fn ping_interval_ms(&self) -> (r: u64)
        ensures
            r == 15_000,
    {
        15_000
    }

    fn ping_payload(&self) -> (r: PingKind)
        ensures
            r is Text && r->Text_0@ == "ping"@,
    {
        PingKind::Text("ping")
    }

    fn pong_timeout_ms(&self) -> (r: u64)
        ensures
            r == 30_000,
    {
        30_000
    }

    fn max_subscriptions_per_socket(&self) -> (r: usize)
        ensures
            r == 200,
    {
        200
    }
}

/// Every symbol is asked for: its argument, with the kind of instrument, the channel of trades and its
/// name in uppercase, stands in the message of its batch, at its place. No message asks for more
/// than the venue takes.
pub proof fn law_every_symbol_is_subscribed(is_perp: bool, symbols: Seq<Seq<char>>, k: int)
    requires
        0 <= k < symbols.len(),
    ensures
        ({
            let (i, j) = (k / MAX_ARGS_PER_SUBSCRIBE as int, k % MAX_ARGS_PER_SUBSCRIBE as int);
            &&& 0 <= i < bitget_batches(is_perp, symbols).len()
            &&& exists|m: JsonView|
                {
                    let arg = m.items_of("args"@)->0[j];
                    &&& bitget_batches(is_perp, symbols)[i] == #[trigger] json_text(m)
                    &&& m.text_of("op"@) == Some("subscribe"@)
                    &&& m.items_of("args"@) is Some
                    &&& j < m.items_of("args"@)->0.len() <= MAX_ARGS_PER_SUBSCRIBE
                    &&& arg.text_of("channel"@) == Some("trade"@)
                    &&& arg.text_of("instId"@) == Some(upper(symbols[k]))
                    &&& arg.text_of("instType"@) == Some(
                        if is_perp {
                            "USDT-FUTURES"@
                        } else {
                            "SPOT"@
                        },
                    )
                }
        }),
{
    let n = MAX_ARGS_PER_SUBSCRIBE as nat;
    let (i, j) = (k / n as int, k % n as int);
    law_each_item_has_its_chunk(symbols, n, k);
    law_chunks_cover(symbols, n);
    let part = chunk(symbols, n, i);
    let m = args_message(is_perp, part);
    reveal_strlit("op");
    reveal_strlit("args");
    reveal_strlit("channel");
    reveal_strlit("instId");
    reveal_strlit("instType");
    assert("op"@.len() == 2 && "args"@.len() == 4 && "channel"@.len() == 7 && "instId"@.len() == 6
        && "instType"@.len() == 8);
    assert(m.items_of("args"@)->0[j] == trade_arg(is_perp, part[j]));
    assert(bitget_batches(is_perp, symbols)[i] == json_text(m));
}

} // verus!
