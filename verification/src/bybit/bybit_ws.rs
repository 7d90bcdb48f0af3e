//! The streaming endpoints of Bybit.
//!
//! A subscription takes at most ten topics, so they go out in batches. The client pings with a text.

use vstd::prelude::*;
use vstd::slice::slice_subrange;
use vstd::string::*;

use crate::binance::streams::symbols_of;
use crate::bybit::instruments_info::BybitCategory;
use crate::chunks::{
    chunk, chunk_bounds, chunk_count, law_chunks_cover, law_each_item_has_its_chunk,
};
use crate::json::{
    json_text, no_members, object, text, text_array, texts_view, with_member, write_json, Json,
    JsonView,
};
use crate::text::{decimal, u64_text, views};
use crate::traits::{PingKind, WsConnector};
use crate::types::SymbolSpec;

verus! {

pub const LINEAR_WS_URL: &'static str = "wss://stream.bybit.com/v5/public/linear";

pub const SPOT_WS_URL: &'static str = "wss://stream.bybit.com/v5/public/spot";

/// Most topics in one subscription.
pub const MAX_ARGS_PER_SUBSCRIBE: usize = 10;

pub struct BybitWs {
    pub url: String,
    pub category: BybitCategory,
}

/// The topics of the public trades of a row of symbols.
pub open spec fn topics(symbols: Seq<Seq<char>>) -> Seq<Seq<char>> {
    symbols.map_values(|s: Seq<char>| "publicTrade."@ + s)
}

/// The message that subscribes to the given symbols, with the number of its batch.
pub open spec fn topics_message(symbols: Seq<Seq<char>>, batch: int) -> JsonView {
    JsonView::Object(
        Map::<Seq<char>, JsonView>::empty().insert("op"@, JsonView::Text("subscribe"@)).insert(
            "args"@,
            texts_view(topics(symbols)),
        ).insert("req_id"@, JsonView::Text("sub-"@ + decimal(batch as nat))),
    )
}

/// The messages that subscribe to the given symbols, numbered from 0.
pub open spec fn bybit_batches(symbols: Seq<Seq<char>>) -> Seq<Seq<char>> {
    Seq::new(
        chunk_count(symbols.len(), MAX_ARGS_PER_SUBSCRIBE as nat),
        |i: int|
            json_text(topics_message(chunk(symbols, MAX_ARGS_PER_SUBSCRIBE as nat, i), i)),
    )
}

/// Makes the message that subscribes to the given instruments.
pub fn subscribe_document(symbols: &[&SymbolSpec], batch: u64) -> (r: Json)
    ensures
        r@ == topics_message(symbols_of(symbols@), batch as int),
        crate::json::writable(r),
{
    let mut args: Vec<String> = Vec::new();
    let mut i: usize = 0;
    while i < symbols.len()
        invariant
            i <= symbols@.len(),
            args@.len() == i,
            forall|k: int|
                0 <= k < i ==> (#[trigger] args@[k])@ == "publicTrade."@ + symbols@[k].symbol@,
        decreases symbols@.len() - i,
    {
        args.push("publicTrade.".to_owned().concat(symbols[i].symbol.as_str()));
        i = i + 1;
    }
    assert(views(args@) =~= topics(symbols_of(symbols@)));
    let number = u64_text(batch);
    let m = with_member(no_members(), "op", text("subscribe"));
    let m = with_member(m, "args", text_array(&args));
    object(with_member(m, "req_id", text("sub-".to_owned().concat(number.as_str()).as_str())))
}

impl BybitWs {
    pub fn linear() -> (r: Self)
        ensures
            r.url@ == LINEAR_WS_URL@,
            r.category == BybitCategory::Linear,
    {
        BybitWs { url: LINEAR_WS_URL.to_owned(), category: BybitCategory::Linear }
    }

    pub fn spot() -> (r: Self)
        ensures
            r.url@ == SPOT_WS_URL@,
            r.category == BybitCategory::Spot,
    {
        BybitWs { url: SPOT_WS_URL.to_owned(), category: BybitCategory::Spot }
    }

    pub fn with_url(self, url: &str) -> (r: Self)
        ensures
            r.url@ == url@,
            r.category == self.category,
    {
        BybitWs { url: url.to_owned(), category: self.category }
    }

    pub fn category(&self) -> (r: BybitCategory)
        ensures
            r == self.category,
    {
        self.category
    }

    /// One message for each batch of symbols.
    pub fn subscribe_payloads_batched(&self, symbols: &[&SymbolSpec]) -> (r: Vec<String>)
        ensures
            views(r@) == bybit_batches(symbols_of(symbols@)),
    {
        let ghost all = symbols_of(symbols@);
        let bounds = chunk_bounds(symbols.len(), MAX_ARGS_PER_SUBSCRIBE);
        let mut out: Vec<String> = Vec::new();
        let mut i: usize = 0;
        while i < bounds.len()
            invariant
                all == symbols_of(symbols@),
                i <= bounds@.len(),
                bounds@.len() == chunk_count(all.len(), MAX_ARGS_PER_SUBSCRIBE as nat),
                bounds@.len() <= symbols@.len(),
                forall|k: int|
                    0 <= k < bounds@.len() ==> (#[trigger] bounds@[k]).0 == k
                        * MAX_ARGS_PER_SUBSCRIBE && bounds@[k].1 == crate::chunks::chunk_end(
                        all.len(),
                        MAX_ARGS_PER_SUBSCRIBE as nat,
                        k,
                    ) && bounds@[k].0 < bounds@[k].1 <= symbols@.len(),
                out@.len() == i,
                forall|k: int| 0 <= k < i ==> (#[trigger] out@[k])@ == bybit_batches(all)[k],
            decreases bounds@.len() - i,
        {
            let (from, to) = bounds[i];
            let part = slice_subrange(symbols, from, to);
            assert(symbols_of(part@) =~= chunk(
                all,
                MAX_ARGS_PER_SUBSCRIBE as nat,
                i as int,
            ));
            let payload = write_json(&subscribe_document(part, i as u64));
            out.push(payload);
            i = i + 1;
        }
        assert(views(out@) =~= bybit_batches(all));
        out
    }
}

impl WsConnector for BybitWs {
    fn ws_url(&self) -> (r: &str)
        ensures
            r@ == self.url@,
    {
        self.url.as_str()
    }

    fn subscribe_payload(&self, symbols: &[&SymbolSpec]) -> (r: String)
        ensures
            r@ == (if symbols@.len() > 0 {
                bybit_batches(symbols_of(symbols@))[0]
            } else {
                "{\"op\":\"subscribe\",\"args\":[]}"@
            }),
    {
        let mut batches = self.subscribe_payloads_batched(symbols);
        assert(views(batches@).len() == batches@.len());
        if batches.len() > 0 {
            assert(views(batches@)[0] == batches@[0]@);
            batches.swap_remove(0)
        } else {
            "{\"op\":\"subscribe\",\"args\":[]}".to_owned()
        }
    }

    fn ping_interval_ms(&self) -> (r: u64)
        ensures
            r == 20_000,
    {
        20_000
    }

    fn ping_payload(&self) -> (r: PingKind)
        ensures
            r is Text && r->Text_0@ == "{\"op\":\"ping\"}"@,
    {
        PingKind::Text("{\"op\":\"ping\"}")
    }

    fn pong_timeout_ms(&self) -> (r: u64)
        ensures
            r == 30_000,
    {
        30_000
    }

    fn max_subscriptions_per_socket(&self) -> (r: usize)
        ensures
            r == 200,
    {
        200
    }
}

/// Every symbol is asked for: its topic stands in the message of its batch, at its place. No message
/// asks for more than the venue takes.
pub proof fn law_every_symbol_is_subscribed(symbols: Seq<Seq<char>>, k: int)
    requires
        0 <= k < symbols.len(),
    ensures
        ({
            let (i, j) = (k / MAX_ARGS_PER_SUBSCRIBE as int, k % MAX_ARGS_PER_SUBSCRIBE as int);
            &&& 0 <= i < bybit_batches(symbols).len()
            &&& exists|m: JsonView|
                {
                    &&& bybit_batches(symbols)[i] == #[trigger] json_text(m)
                    &&& m.text_of("op"@) == Some("subscribe"@)
                    &&& m.text_of("req_id"@) == Some("sub-"@ + decimal(i as nat))
                    &&& m.items_of("args"@) is Some
                    &&& j < m.items_of("args"@)->0.len() <= MAX_ARGS_PER_SUBSCRIBE
                    &&& m.items_of("args"@)->0[j] == JsonView::Text("publicTrade."@ + symbols[k])
                }
        }),
{
    let n = MAX_ARGS_PER_SUBSCRIBE as nat;
    let (i, j) = (k / n as int, k % n as int);
    law_each_item_has_its_chunk(symbols, n, k);
    law_chunks_cover(symbols, n);
    let part = chunk(symbols, n, i);
    let m = topics_message(part, i);
    reveal_strlit("op");
    reveal_strlit("args");
    reveal_strlit("req_id");
    assert("op"@.len() == 2 && "args"@.len() == 4 && "req_id"@.len() == 6);
    assert(m.items_of("args"@)->0[j] == JsonView::Text("publicTrade."@ + part[j]));
    assert(bybit_batches(symbols)[i] == json_text(m));
}

} // verus!
