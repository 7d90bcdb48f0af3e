//! The streaming endpoints of Aster.
//!
//! One subscription with more than about a hundred streams is refused, so they go out in batches.

use vstd::prelude::*;
use vstd::slice::slice_subrange;
use vstd::string::*;

use crate::binance::streams::{
    law_subscription_asks_for_all, stream_names, subscribe_document, subscribe_message, symbols_of,
};
use crate::chunks::{
    chunk, chunk_bounds, chunk_count, law_chunks_cover, law_each_item_has_its_chunk,
};
use crate::json::{json_text, write_json, JsonView};
use crate::text::{lower, views};
use crate::traits::{PingKind, WsConnector};
use crate::types::SymbolSpec;

verus! {

pub const FUTURES_WS_URL: &'static str = "wss://fstream.asterdex.com/ws";

pub const SPOT_WS_URL: &'static str = "wss://sstream.asterdex.com/ws";

/// Most instruments on one connection.
pub const SHARD_SIZE: usize = 100;

/// Most streams in one subscription.
pub const MAX_PARAMS_PER_SUBSCRIBE: usize = 100;

pub struct AsterWs {
    pub url: String,
}

/// The messages that subscribe to the given symbols, numbered from 1.
pub open spec fn aster_batches(symbols: Seq<Seq<char>>) -> Seq<Seq<char>> {
    Seq::new(
        chunk_count(symbols.len(), MAX_PARAMS_PER_SUBSCRIBE as nat),
        |i: int|
            json_text(
                subscribe_message(
                    stream_names(chunk(symbols, MAX_PARAMS_PER_SUBSCRIBE as nat, i)),
                    (i + 1) as u64,
                ),
            ),
    )
}

impl AsterWs {
    pub fn futures() -> (r: Self)
        ensures
            r.url@ == FUTURES_WS_URL@,
    {
        AsterWs { url: FUTURES_WS_URL.to_owned() }
    }

    pub fn spot() -> (r: Self)
        ensures
            r.url@ == SPOT_WS_URL@,
    {
        AsterWs { url: SPOT_WS_URL.to_owned() }
    }

    pub fn with_url(url: &str) -> (r: Self)
        ensures
            r.url@ == url@,
    {
        AsterWs { url: url.to_owned() }
    }

    /// One message for each batch of symbols.
    pub fn subscribe_payloads_batched(&self, symbols: &[&SymbolSpec]) -> (r: Vec<String>)
        ensures
            views(r@) == aster_batches(symbols_of(symbols@)),
    {
        let ghost all = symbols_of(symbols@);
        let bounds = chunk_bounds(symbols.len(), MAX_PARAMS_PER_SUBSCRIBE);
        let mut out: Vec<String> = Vec::new();
        let mut i: usize = 0;
        while i < bounds.len()
            invariant
                all == symbols_of(symbols@),
                i <= bounds@.len(),
                bounds@.len() == chunk_count(all.len(), MAX_PARAMS_PER_SUBSCRIBE as nat),
                bounds@.len() <= symbols@.len(),
                forall|k: int|
                    0 <= k < bounds@.len() ==> (#[trigger] bounds@[k]).0 == k
                        * MAX_PARAMS_PER_SUBSCRIBE && bounds@[k].1 == crate::chunks::chunk_end(
                        all.len(),
                        MAX_PARAMS_PER_SUBSCRIBE as nat,
                        k,
                    ) && bounds@[k].0 < bounds@[k].1 <= symbols@.len(),
                out@.len() == i,
                forall|k: int| 0 <= k < i ==> (#[trigger] out@[k])@ == aster_batches(all)[k],
            decreases bounds@.len() - i,
        {
            let (from, to) = bounds[i];
            let part = slice_subrange(symbols, from, to);
            assert(symbols_of(part@) =~= chunk(
                all,
                MAX_PARAMS_PER_SUBSCRIBE as nat,
                i as int,
            ));
            let payload = write_json(&subscribe_document(part, i as u64 + 1));
            out.push(payload);
            i = i + 1;
        }
        assert(views(out@) =~= aster_batches(all));
        out
    }
}

impl WsConnector for AsterWs {
    fn ws_url(&self) -> (r: &str)
        ensures
            r@ == self.url@,
    {
        self.url.as_str()
    }

    fn subscribe_payload(&self, symbols: &[&SymbolSpec]) -> (r: String)
        ensures
            r@ == (if symbols@.len() > 0 {
                aster_batches(symbols_of(symbols@))[0]
            } else {
                "{\"method\":\"SUBSCRIBE\",\"params\":[],\"id\":1}"@
            }),
    {
        let mut batches = self.subscribe_payloads_batched(symbols);
        assert(views(batches@).len() == batches@.len());
        if batches.len() > 0 {
            assert(views(batches@)[0] == batches@[0]@);
            batches.swap_remove(0)
        } else {
            "{\"method\":\"SUBSCRIBE\",\"params\":[],\"id\":1}".to_owned()
        }
    }

    fn ping_interval_ms(&self) -> (r: u64)
        ensures
            r == 180_000,
    {
        180_000
    }

    fn ping_payload(&self) -> (r: PingKind)
        ensures
            r == PingKind::ServerInitiated,
    {
        PingKind::ServerInitiated
    }

    fn pong_timeout_ms(&self) -> (r: u64)
        ensures
            r == 600_000,
    {
        600_000
    }

    fn max_subscriptions_per_socket(&self) -> (r: usize)
        ensures
            r == 1024,
    {
        1024
    }
}

/// Every symbol is asked for: it stands in the message of its batch, at its place, by its name in
/// lowercase. No message asks for more than the venue takes, and they are numbered from 1.
pub proof fn law_every_symbol_is_subscribed(symbols: Seq<Seq<char>>, k: int)
    requires
        0 <= k < symbols.len(),
        symbols.len() <= u32::MAX,
    ensures
        ({
            let (i, j) = (k / MAX_PARAMS_PER_SUBSCRIBE as int, k % MAX_PARAMS_PER_SUBSCRIBE as int);
            &&& 0 <= i < aster_batches(symbols).len()
            &&& exists|m: JsonView|
                {
                    &&& aster_batches(symbols)[i] == #[trigger] json_text(m)
                    &&& m.text_of("method"@) == Some("SUBSCRIBE"@)
                    &&& m.unsigned_of("id"@) == Some((i + 1) as u64)
                    &&& m.items_of("params"@) is Some
                    &&& j < m.items_of("params"@)->0.len() <= MAX_PARAMS_PER_SUBSCRIBE
                    &&& m.items_of("params"@)->0[j] == JsonView::Text(
                        lower(symbols[k]) + "@aggTrade"@,
                    )
                }
        }),
{
    let n = MAX_PARAMS_PER_SUBSCRIBE as nat;
    let (i, j) = (k / n as int, k % n as int);
    law_each_item_has_its_chunk(symbols, n, k);
    law_chunks_cover(symbols, n);
    let part = chunk(symbols, n, i);
    law_subscription_asks_for_all(part, (i + 1) as u64, j);
    let m = subscribe_message(stream_names(part), (i + 1) as u64);
    assert(aster_batches(symbols)[i] == json_text(m));
}

} // verus!
