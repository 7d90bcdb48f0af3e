//! The listing of Hyperliquid perpetuals.
//!
//! There is no fixed tick: the finest grid that the venue allows is taken, `6 - szDecimals` decimal
//! places for the price and `szDecimals` for the quantity.

use vstd::prelude::*;
use vstd::string::*;

use crate::hyperliquid::native::{NativeCoins, MAX_DECIMALS_PERP};
use crate::json::{
    items_view, json_document, json_text, lemma_items_view, no_members, object, parse_json, text,
    with_member, write_json, Json, JsonView,
};
use crate::listing::{
    gather, gathered, has_sizes, law_listing_holds_what_is_kept, lemma_gathered_sizes,
    listing_outcome, read_or_fail, Row, RowReader, RowView,
};
use crate::text::{to_uppercase, upper};
use crate::traits::{ErrorView, ExchangeError};
use crate::types::{Exchange, MarketType, Quote, SpecView, SymbolSpec};

verus! {

/// Where the listing is.
pub const HL_INFO_URL: &'static str = "https://api.hyperliquid.xyz/info";

/// The REST side of Hyperliquid.
pub struct HyperliquidInstrumentsInfo;

impl HyperliquidInstrumentsInfo {
    pub fn new() -> (r: Self)
        ensures
            r == HyperliquidInstrumentsInfo,
    {
        HyperliquidInstrumentsInfo
    }

    /// The document that asks for the listing.
    pub fn request_document(&self) -> (r: Json)
        ensures
            r@ == JsonView::Object(
                Map::<Seq<char>, JsonView>::empty().insert("type"@, JsonView::Text("meta"@)),
            ),
            crate::json::writable(r),
    {
        object(with_member(no_members(), "type", text("meta")))
    }

    /// The text that asks for the listing.
    pub fn request_body(&self) -> (r: String)
        ensures
            r@ == json_text(
                JsonView::Object(
                    Map::<Seq<char>, JsonView>::empty().insert("type"@, JsonView::Text("meta"@)),
                ),
            ),
    {
        write_json(&self.request_document())
    }
}

impl Default for HyperliquidInstrumentsInfo {
    fn default() -> (r: Self)
        ensures
            r == HyperliquidInstrumentsInfo,
    {
        HyperliquidInstrumentsInfo::new()
    }
}

/// The canonical symbol of a coin.
pub open spec fn canonical(name: Seq<char>) -> Seq<char> {
    upper(name) + "USDC"@
}

/// The name of a row that is listed.
pub open spec fn listed_name(v: JsonView) -> Option<Seq<char>> {
    if v.boolean_of("isDelisted"@) == Some(true) {
        None
    } else {
        v.text_of("name"@)
    }
}

/// The decimal places of a row's quantity, modulo 256.
pub open spec fn size_decimals(v: JsonView) -> u8 {
    match v.unsigned_of("szDecimals"@) {
        Some(n) => (n % 256) as u8,
        None => 0,
    }
}

/// A row of the listing: any coin that is not delisted.
pub open spec fn meta_row(v: JsonView) -> RowView {
    let sz = size_decimals(v);
    match listed_name(v) {
        None => RowView::Skip,
        Some(name) => RowView::Keep(
            SpecView {
                exchange: Exchange::Hyperliquid,
                market_type: MarketType::Perp,
                quote: Quote::Usdc,
                symbol: canonical(name),
                price_scale: if sz > MAX_DECIMALS_PERP {
                    0
                } else {
                    (MAX_DECIMALS_PERP - sz) as u8
                },
                qty_scale: sz,
                tick_size: 1,
                step_size: 1,
            },
        ),
    }
}

fn read_listed_name<'a>(v: &'a Json) -> (r: Option<&'a str>)
    ensures
        crate::json::found_text(r) == listed_name(v@),
{
    let delisted = match v.bool_at("isDelisted") {
        Some(b) => b,
        None => false,
    };
    if delisted {
        None
    } else {
        v.text_at("name")
    }
}

struct MetaRows;

impl RowReader for MetaRows {
    open spec fn row_view(&self, v: JsonView) -> RowView {
        meta_row(v)
    }

    fn read(&self, v: &Json) -> (r: Row) {
        let name = match read_listed_name(v) {
            Some(n) => n,
            None => {
                return Row::Skip;
            },
        };
        let sz: u8 = match v.u64_at("szDecimals") {
            Some(n) => (n % 256) as u8,
            None => 0,
        };
        Row::Keep(
            SymbolSpec {
                exchange: Exchange::Hyperliquid,
                market_type: MarketType::Perp,
                quote: Quote::Usdc,
                symbol: to_uppercase(name).concat("USDC"),
                price_scale: MAX_DECIMALS_PERP.saturating_sub(sz),
                qty_scale: sz,
                tick_size: 1,
                step_size: 1,
            },
        )
    }
}

/// The coins that are known once the listed rows have been remembered.
pub open spec fn natives_after(
    items: Seq<JsonView>,
    known: Map<Seq<char>, Seq<char>>,
) -> Map<Seq<char>, Seq<char>>
    decreases items.len(),
{
    if items.len() == 0 {
        known
    } else {
        let before = natives_after(items.drop_last(), known);
        match listed_name(items.last()) {
            Some(name) => before.insert(canonical(name), name),
            None => before,
        }
    }
}

/// What the document of the listing comes to.
pub open spec fn meta_listing(v: JsonView) -> Result<Seq<SpecView>, ErrorView> {
    match v.items_of("universe"@) {
        None => Err(ErrorView::Parse("missing universe"@)),
        Some(items) => gathered(items, |row: JsonView| meta_row(row)),
    }
}

/// The coins that are known once the document has been read.
pub open spec fn meta_natives(v: JsonView, known: Map<Seq<char>, Seq<char>>) -> Map<
    Seq<char>,
    Seq<char>,
> {
    match v.items_of("universe"@) {
        None => known,
        Some(items) => natives_after(items, known),
    }
}

/// Reads the document of the listing and remembers its coins.
pub fn read_meta(v: &Json, natives: &mut NativeCoins) -> (r: Result<
    Vec<SymbolSpec>,
    ExchangeError,
>)
    ensures
        listing_outcome(r) == meta_listing(v@),
        final(natives)@ == meta_natives(v@, old(natives)@),
{
    match v.array_at("universe") {
        None => Err(ExchangeError::Parse("missing universe".to_owned())),
        Some(items) => {
            remember(items, natives);
            let reader = MetaRows;
            assert((|row: JsonView| reader.row_view(row)) =~= (|row: JsonView| meta_row(row)));
            gather(&reader, items)
        },
    }
}

fn remember(items: &Vec<Json>, natives: &mut NativeCoins)
    ensures
        final(natives)@ == natives_after(items_view(items@), old(natives)@),
{
    let ghost known = natives@;
    let ghost rows = items_view(items@);
    proof {
        lemma_items_view(items@);
    }
    let mut i: usize = 0;
    while i < items.len()
        invariant
            i <= items@.len(),
            rows.len() == items@.len(),
            forall|j: int| 0 <= j < items@.len() ==> #[trigger] rows[j] == items@[j]@,
            natives@ == natives_after(rows.take(i as int), known),
        decreases items@.len() - i,
    {
        let ghost next = rows.take(i as int + 1);
        assert(next.drop_last() =~= rows.take(i as int));
        assert(next.last() == items@[i as int]@);
        match read_listed_name(&items[i]) {
            Some(name) => {
                let symbol = to_uppercase(name).concat("USDC");
                natives.set_native(symbol.as_str(), name);
            },
            None => {},
        }
        i = i + 1;
    }
    assert(rows.take(i as int) =~= rows);
}

/// Reads the body of the listing and remembers its coins.
pub fn parse_meta(json: &str, natives: &mut NativeCoins) -> (r: Result<
    Vec<SymbolSpec>,
    ExchangeError,
>)
    ensures
        listing_outcome(r) == read_or_fail(
            json_document(json.spec_bytes()),
            |v: JsonView| meta_listing(v),
        ),
        final(natives)@ == match json_document(json.spec_bytes()) {
            Ok(v) => meta_natives(v, old(natives)@),
            Err(_) => old(natives)@,
        },
{
    match parse_json(json.as_bytes()) {
        Ok(v) => read_meta(&v, natives),
        Err(m) => Err(ExchangeError::Parse(m)),
    }
}

/// Every listed instrument has a remembered coin whose canonical symbol it is.
pub proof fn law_listed_coins_are_known(
    items: Seq<JsonView>,
    known: Map<Seq<char>, Seq<char>>,
    i: int,
)
    requires
        0 <= i < items.len(),
        meta_row(items[i]) is Keep,
    ensures
        natives_after(items, known).contains_key(meta_row(items[i])->Keep_0.symbol),
        canonical(natives_after(items, known)[meta_row(items[i])->Keep_0.symbol]) == meta_row(
            items[i],
        )->Keep_0.symbol,
    decreases items.len(),
{
    if i < items.len() - 1 {
        assert(items.drop_last()[i] == items[i]);
        law_listed_coins_are_known(items.drop_last(), known, i);
    }
}

/// Every listed instrument has a tick and a step of at least one unit.
pub proof fn law_listed_sizes(v: JsonView)
    ensures
        meta_listing(v) is Ok ==> forall|i: int|
            0 <= i < meta_listing(v)->Ok_0.len() ==> has_sizes(
                #[trigger] meta_listing(v)->Ok_0[i],
            ),
{
    let row = |x: JsonView| meta_row(x);
    assert forall|x: JsonView| #[trigger] row(x) is Keep implies has_sizes(row(x)->Keep_0) by {
    }
    match v.items_of("universe"@) {
        Some(items) => lemma_gathered_sizes(items, row),
        None => {},
    }
}

/// A coin is listed exactly where it has a name and is not delisted, as the name in uppercase with
/// "USDC" behind; the decimals of its price and of its size come to six together, where the size has
/// no more, and both count in single units.
pub proof fn law_listed_coins(v: JsonView)
    ensures
        meta_row(v) is Keep <==> v.text_of("name"@) is Some && v.boolean_of("isDelisted"@) != Some(
            true,
        ),
        !(meta_row(v) is Fail),
        meta_row(v) is Keep ==> ({
            let s = meta_row(v)->Keep_0;
            let sz = v.unsigned_of("szDecimals"@);
            &&& s.symbol == upper(v.text_of("name"@)->0) + "USDC"@
            &&& (s.exchange, s.market_type, s.quote) == (
                Exchange::Hyperliquid,
                MarketType::Perp,
                Quote::Usdc,
            )
            &&& sz is Some && sz->0 <= 255 ==> s.qty_scale == sz->0
            &&& sz is None ==> s.qty_scale == 0
            &&& s.qty_scale <= 6 ==> s.price_scale + s.qty_scale == 6
            &&& s.qty_scale > 6 ==> s.price_scale == 0
            &&& (s.tick_size, s.step_size) == (1i64, 1i64)
        }),
{
}

/// The listing holds exactly the instruments that the rows of its document keep.
pub proof fn law_meta_listing_holds_its_rows(v: JsonView, s: SpecView)
    requires
        meta_listing(v) is Ok,
    ensures
        v.items_of("universe"@) is Some,
        meta_listing(v)->Ok_0.contains(s) <==> exists|i: int|
            0 <= i < v.items_of("universe"@)->0.len() && meta_row(#[trigger] v.items_of("universe"@)->0[i]) == RowView::Keep(s),
{
    law_listing_holds_what_is_kept(v.items_of("universe"@)->0, |x: JsonView| meta_row(x), s);
}

/// The name that is known of a symbol is, letter for letter, that of the last coin listed under it.
pub proof fn law_last_listed_name_is_known(
    items: Seq<JsonView>,
    known: Map<Seq<char>, Seq<char>>,
    i: int,
    name: Seq<char>,
)
    requires
        0 <= i < items.len(),
        listed_name(items[i]) == Some(name),
        forall|j: int|
            i < j < items.len() && listed_name(#[trigger] items[j]) is Some ==> canonical(
                listed_name(items[j])->0,
            ) != canonical(name),
    ensures
        natives_after(items, known).contains_key(canonical(name)),
        natives_after(items, known)[canonical(name)] == name,
    decreases items.len(),
{
    let init = items.drop_last();
    let n = items.len() - 1;
    assert(items[n] == items.last());
    if i < n {
        assert(init[i] == items[i]);
        assert forall|j: int|
            i < j < init.len() && listed_name(#[trigger] init[j]) is Some implies canonical(
            listed_name(init[j])->0,
        ) != canonical(name) by {
            assert(init[j] == items[j]);
        }
        law_last_listed_name_is_known(init, known, i, name);
    }
}

} // verus!
