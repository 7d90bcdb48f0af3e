//! Subscriptions to the aggregated trades of many instruments, in the dialect of Binance.

use vstd::prelude::*;
use vstd::string::*;

use crate::json::{
    no_members, object, text, text_array, texts_view, uint, with_member, Json, JsonView, NumberView,
};
use crate::text::{lower, to_lowercase, views};
use crate::types::SymbolSpec;

verus! {

/// The symbols of a row of instruments.
pub open spec fn symbols_of(specs: Seq<&SymbolSpec>) -> Seq<Seq<char>> {
    specs.map_values(|s: &SymbolSpec| s.symbol@)
}

/// The stream of the aggregated trades of an instrument.
pub open spec fn stream_name(symbol: Seq<char>) -> Seq<char> {
    lower(symbol) + "@aggTrade"@
}

/// The streams of a row of instruments.
pub open spec fn stream_names(symbols: Seq<Seq<char>>) -> Seq<Seq<char>> {
    symbols.map_values(|s: Seq<char>| stream_name(s))
}

/// The message that subscribes to the given streams.
pub open spec fn subscribe_message(streams: Seq<Seq<char>>, id: u64) -> JsonView {
    JsonView::Object(
        Map::<Seq<char>, JsonView>::empty().insert("method"@, JsonView::Text("SUBSCRIBE"@)).insert(
            "params"@,
            texts_view(streams),
        ).insert("id"@, JsonView::Number(NumberView::PosInt(id))),
    )
}

fn stream_params(symbols: &[&SymbolSpec]) -> (r: Vec<String>)
    ensures
        views(r@) == stream_names(symbols_of(symbols@)),
{
    let mut out: Vec<String> = Vec::new();
    let mut i: usize = 0;
    while i < symbols.len()
        invariant
            i <= symbols@.len(),
            out@.len() == i,
            forall|k: int| 0 <= k < i ==> (#[trigger] out@[k])@ == stream_name(symbols@[k].symbol@),
        decreases symbols@.len() - i,
    {
        out.push(to_lowercase(symbols[i].symbol.as_str()).concat("@aggTrade"));
        i = i + 1;
    }
    assert(views(out@) =~= stream_names(symbols_of(symbols@)));
    out
}

/// Makes the message that subscribes to the streams of the given instruments.
pub fn subscribe_document(symbols: &[&SymbolSpec], id: u64) -> (r: Json)
    ensures
        r@ == subscribe_message(stream_names(symbols_of(symbols@)), id),
        crate::json::writable(r),
{
    let params = stream_params(symbols);
    let m = with_member(no_members(), "method", text("SUBSCRIBE"));
    let m = with_member(m, "params", text_array(&params));
    object(with_member(m, "id", uint(id)))
}

/// A subscription asks for the trades of every symbol, in order, by its name in lowercase.
pub proof fn law_subscription_asks_for_all(symbols: Seq<Seq<char>>, id: u64, k: int)
    ensures
        ({
            let m = subscribe_message(stream_names(symbols), id);
            &&& m.text_of("method"@) == Some("SUBSCRIBE"@)
            &&& m.unsigned_of("id"@) == Some(id)
            &&& m.items_of("params"@) is Some
            &&& m.items_of("params"@)->0.len() == symbols.len()
            &&& 0 <= k < symbols.len() ==> m.items_of("params"@)->0[k] == JsonView::Text(
                lower(symbols[k]) + "@aggTrade"@,
            )
        }),
{
    reveal_strlit("method");
    reveal_strlit("params");
    reveal_strlit("id");
    assert("method"@[0] == 'm' && "params"@[0] == 'p' && "id"@[0] == 'i');
}

} // verus!
