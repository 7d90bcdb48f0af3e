//! The sessions of MEXC: spot subscribes in batches, futures one symbol at a time.

use vstd::prelude::*;
use vstd::slice::slice_subrange;
use vstd::string::*;

use crate::chunks::{
    chunk, chunk_bounds, chunk_count, law_chunks_cover, law_each_item_has_its_chunk,
};
use crate::json::{
    json_document, json_text, no_members, object, parse_json, text, text_array, texts_view,
    with_member, write_json, Json, JsonView,
};
use crate::text::views;

verus! {

/// Most instruments on one connection.
pub const SHARD_SIZE: usize = 100;

/// Most channels in one spot subscription.
pub const SPOT_PARAMS_PER_MSG: usize = 20;

/// The heartbeat of a spot connection.
pub const SPOT_PING: &'static str = "{\"method\":\"PING\"}";

/// The heartbeat of a futures connection.
pub const FUTURES_PING: &'static str = "{\"method\":\"ping\"}";

/// The channels of a row of symbols.
pub open spec fn spot_channels(venues: Seq<Seq<char>>) -> Seq<Seq<char>> {
    venues.map_values(|s: Seq<char>| "spot@public.aggre.deals.v3.api.pb@100ms@"@ + s)
}

/// The message that subscribes to the trades of a row of spot symbols.
pub open spec fn spot_message(venues: Seq<Seq<char>>) -> JsonView {
    JsonView::Object(
        Map::<Seq<char>, JsonView>::empty().insert(
            "method"@,
            JsonView::Text("SUBSCRIPTION"@),
        ).insert("params"@, texts_view(spot_channels(venues))),
    )
}

/// Makes the message that subscribes to the trades of a row of spot symbols.
pub fn spot_document(venues: &[String]) -> (r: Json)
    ensures
        r@ == spot_message(views(venues@)),
        crate::json::writable(r),
{
    let mut params: Vec<String> = Vec::new();
    let mut i: usize = 0;
    while i < venues.len()
        invariant
            i <= venues@.len(),
            params@.len() == i,
            forall|k: int|
                0 <= k < i ==> (#[trigger] params@[k])@
                    == "spot@public.aggre.deals.v3.api.pb@100ms@"@ + venues@[k]@,
        decreases venues@.len() - i,
    {
        params.push(
            "spot@public.aggre.deals.v3.api.pb@100ms@".to_owned().concat(venues[i].as_str()),
        );
        i = i + 1;
    }
    assert(views(params@) =~= spot_channels(views(venues@)));
    let m = with_member(no_members(), "method", text("SUBSCRIPTION"));
    object(with_member(m, "params", text_array(&params)))
}

/// The messages that subscribe to the given spot symbols.
pub open spec fn spot_batches(venues: Seq<Seq<char>>) -> Seq<Seq<char>> {
    Seq::new(
        chunk_count(venues.len(), SPOT_PARAMS_PER_MSG as nat),
        |i: int| json_text(spot_message(chunk(venues, SPOT_PARAMS_PER_MSG as nat, i))),
    )
}

/// One message for each batch of spot symbols.
pub fn spot_payloads(venues: &Vec<String>) -> (r: Vec<String>)
    ensures
        views(r@) == spot_batches(views(venues@)),
{
    let ghost all = views(venues@);
    let bounds = chunk_bounds(venues.len(), SPOT_PARAMS_PER_MSG);
    let mut out: Vec<String> = Vec::new();
    let mut i: usize = 0;
    while i < bounds.len()
        invariant
            all == views(venues@),
            i <= bounds@.len(),
            bounds@.len() == chunk_count(all.len(), SPOT_PARAMS_PER_MSG as nat),
            forall|k: int|
                0 <= k < bounds@.len() ==> (#[trigger] bounds@[k]).0 == k * SPOT_PARAMS_PER_MSG
                    && bounds@[k].1 == crate::chunks::chunk_end(
                    all.len(),
                    SPOT_PARAMS_PER_MSG as nat,
                    k,
                ) && bounds@[k].0 < bounds@[k].1 <= venues@.len(),
            out@.len() == i,
            forall|k: int| 0 <= k < i ==> (#[trigger] out@[k])@ == spot_batches(all)[k],
        decreases bounds@.len() - i,
    {
        let (from, to) = bounds[i];
        let part = slice_subrange(venues.as_slice(), from, to);
        assert(views(part@) =~= chunk(all, SPOT_PARAMS_PER_MSG as nat, i as int));
        out.push(write_json(&spot_document(part)));
        i = i + 1;
    }
    assert(views(out@) =~= spot_batches(all));
    out
}

/// The message that subscribes to the trades of a futures symbol.
pub open spec fn futures_message(venue: Seq<char>) -> JsonView {
    JsonView::Object(
        Map::<Seq<char>, JsonView>::empty().insert("method"@, JsonView::Text("sub.deal"@)).insert(
            "param"@,
            JsonView::Object(
                Map::<Seq<char>, JsonView>::empty().insert("symbol"@, JsonView::Text(venue)),
            ),
        ),
    )
}

/// The text that subscribes to the trades of a futures symbol.
pub fn futures_payload(venue: &str) -> (r: String)
    ensures
        r@ == json_text(futures_message(venue@)),
{
    let what = object(with_member(no_members(), "symbol", text(venue)));
    let m = with_member(no_members(), "method", text("sub.deal"));
    write_json(&object(with_member(m, "param", what)))
}

/// What a frame is, before its symbol is looked at.
pub enum MexcFrame {
    /// It holds no market data.
    NoData,
    /// It should be JSON and is not.
    Undecodable,
    /// The bytes of spot data.
    Spot,
    /// A document of futures data.
    Futures(Json),
}

/// Opens a frame: spot data is binary and futures data is JSON in a text.
pub fn open_frame(futures: bool, is_text: bool, raw: &[u8]) -> (r: MexcFrame)
    ensures
        futures != is_text ==> r is NoData,
        !futures && !is_text ==> r is Spot,
        futures && is_text ==> match json_document(raw@) {
            Err(_) => r is Undecodable,
            Ok(v) => r is Futures && r->Futures_0@ == v,
        },
{
    if futures != is_text {
        return MexcFrame::NoData;
    }
    if !futures {
        return MexcFrame::Spot;
    }
    match parse_json(raw) {
        Err(_) => MexcFrame::Undecodable,
        Ok(v) => MexcFrame::Futures(v),
    }
}

/// Every spot symbol is asked for: its channel stands in the message of its batch, at its place. No
/// message asks for more than the venue takes.
pub proof fn law_every_symbol_is_subscribed(venues: Seq<Seq<char>>, k: int)
    requires
        0 <= k < venues.len(),
    ensures
        ({
            let (i, j) = (k / SPOT_PARAMS_PER_MSG as int, k % SPOT_PARAMS_PER_MSG as int);
            &&& 0 <= i < spot_batches(venues).len()
            &&& exists|m: JsonView|
                {
                    &&& spot_batches(venues)[i] == #[trigger] json_text(m)
                    &&& m.text_of("method"@) == Some("SUBSCRIPTION"@)
                    &&& m.items_of("params"@) is Some
                    &&& j < m.items_of("params"@)->0.len() <= SPOT_PARAMS_PER_MSG
                    &&& m.items_of("params"@)->0[j] == JsonView::Text(
                        "spot@public.aggre.deals.v3.api.pb@100ms@"@ + venues[k],
                    )
                }
        }),
{
    let n = SPOT_PARAMS_PER_MSG as nat;
    let (i, j) = (k / n as int, k % n as int);
    law_each_item_has_its_chunk(venues, n, k);
    law_chunks_cover(venues, n);
    let part = chunk(venues, n, i);
    let m = spot_message(part);
    reveal_strlit("method");
    reveal_strlit("params");
    assert("method"@[0] == 'm' && "params"@[0] == 'p');
    assert(m.items_of("params"@)->0[j] == JsonView::Text(
        "spot@public.aggre.deals.v3.api.pb@100ms@"@ + part[j],
    ));
    assert(spot_batches(venues)[i] == json_text(m));
}

/// A futures symbol is asked for by its own name.
pub proof fn law_futures_symbol_is_subscribed(venue: Seq<char>)
    ensures
        futures_message(venue).text_of("method"@) == Some("sub.deal"@),
        futures_message(venue).member("param"@) is Some,
        futures_message(venue).member("param"@)->0.text_of("symbol"@) == Some(venue),
{
    reveal_strlit("method");
    reveal_strlit("param");
    assert("method"@.len() == 6 && "param"@.len() == 5);
}

} // verus!
