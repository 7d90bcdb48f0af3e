//! The listings of Bybit, linear perpetuals and spot.

use vstd::prelude::*;
use vstd::string::*;

use crate::json::{json_document, parse_json, Json, JsonView};
use crate::listing::{
    gather, gather_volumes, gathered, has_sizes, law_listing_holds_what_is_kept,
    lemma_gathered_sizes, listing_outcome, quote_named, quote_of, read_or_fail, read_sized,
    sized_row, text_or_default, text_or_empty, text_pair, volumes, volumes_outcome, Row, RowReader,
    RowView, VolumeReader, VolumeView,
};
use crate::text::same_text;
use crate::traits::{ErrorView, ExchangeError};
use crate::types::{Exchange, MarketType, Quote, SpecView, SymbolSpec};

verus! {

#[derive(Debug, Clone, Copy, PartialEq, Eq, Structural)]
pub enum BybitCategory {
    /// Linear perpetuals against USDT or USDC.
    Linear,
    /// Spot pairs against USDT or USDC.
    Spot,
}

/// The name of a category in queries.
pub open spec fn category_name(c: BybitCategory) -> Seq<char> {
    match c {
        BybitCategory::Linear => "linear"@,
        BybitCategory::Spot => "spot"@,
    }
}

impl BybitCategory {
    pub fn as_str(self) -> (r: &'static str)
        ensures
            r@ == category_name(self),
    {
        match self {
            BybitCategory::Linear => "linear",
            BybitCategory::Spot => "spot",
        }
    }
}

/// The REST side of Bybit.
pub struct BybitInstrumentsInfo {
    pub base_url: String,
    pub category: BybitCategory,
}

impl BybitInstrumentsInfo {
    pub fn new(category: BybitCategory) -> (r: Self)
        ensures
            r.base_url@ == "https://api.bybit.com"@,
            r.category == category,
    {
        BybitInstrumentsInfo { base_url: "https://api.bybit.com".to_owned(), category }
    }

    pub fn with_base_url(self, url: &str) -> (r: Self)
        ensures
            r.base_url@ == url@,
            r.category == self.category,
    {
        BybitInstrumentsInfo { base_url: url.to_owned(), category: self.category }
    }

    /// Where the listing is; one page of a thousand rows holds all of it.
    pub fn instruments_url(&self) -> (r: String)
        ensures
            r@ == self.base_url@ + "/v5/market/instruments-info?category="@ + category_name(
                self.category,
            ) + "&limit=1000"@,
    {
        self.base_url.clone().concat("/v5/market/instruments-info?category=").concat(
            self.category.as_str(),
        ).concat("&limit=1000")
    }

    /// Where the volumes over 24 hours are.
    pub fn tickers_url(&self) -> (r: String)
        ensures
            r@ == self.base_url@ + "/v5/market/tickers?category="@ + category_name(self.category),
    {
        self.base_url.clone().concat("/v5/market/tickers?category=").concat(self.category.as_str())
    }
}

/// The text `field` of the member `group`, or the empty text.
pub open spec fn nested_text(v: JsonView, group: Seq<char>, field: Seq<char>) -> Seq<char> {
    match v.member(group) {
        Some(g) => text_or_empty(g.text_of(field)),
        None => ""@,
    }
}

fn nested_field<'a>(v: &'a Json, group: &str, field: &str) -> (r: &'a str)
    ensures
        r@ == nested_text(v@, group@, field@),
{
    match v.get(group) {
        Some(g) => text_or_default(g, field),
        None => "",
    }
}

/// The items of the list in the member "result".
pub open spec fn result_list(v: JsonView) -> Option<Seq<JsonView>> {
    match v.member("result"@) {
        Some(g) => g.items_of("list"@),
        None => None,
    }
}

/// A row of the listing. Nothing is refused: a row that does not trade against USDT or USDC, lacks a
/// member or has a tick or step that is no positive number is skipped.
pub open spec fn bybit_row(v: JsonView, category: BybitCategory) -> RowView {
    if text_or_empty(v.text_of("status"@)) != "Trading"@ {
        RowView::Skip
    } else {
        match v.text_of("symbol"@) {
            None => RowView::Skip,
            Some(symbol) => match quote_named(v.text_of("quoteCoin"@)) {
                None => RowView::Skip,
                Some(quote) => sized_row(
                    match category {
                        BybitCategory::Linear => Exchange::BybitF,
                        BybitCategory::Spot => Exchange::Bybit,
                    },
                    match category {
                        BybitCategory::Linear => MarketType::Perp,
                        BybitCategory::Spot => MarketType::Spot,
                    },
                    quote,
                    symbol,
                    nested_text(v, "priceFilter"@, "tickSize"@),
                    match category {
                        BybitCategory::Linear => nested_text(v, "lotSizeFilter"@, "qtyStep"@),
                        BybitCategory::Spot => nested_text(v, "lotSizeFilter"@, "basePrecision"@),
                    },
                ),
            },
        }
    }
}

struct BybitRows {
    category: BybitCategory,
}

impl RowReader for BybitRows {
    closed spec fn row_view(&self, v: JsonView) -> RowView {
        bybit_row(v, self.category)
    }

    fn read(&self, v: &Json) -> (r: Row) {
        if !same_text(text_or_default(v, "status"), "Trading") {
            return Row::Skip;
        }
        let symbol = match v.text_at("symbol") {
            Some(s) => s.to_owned(),
            None => {
                return Row::Skip;
            },
        };
        let quote = match quote_of(v.text_at("quoteCoin")) {
            Some(q) => q,
            None => {
                return Row::Skip;
            },
        };
        let tick = nested_field(v, "priceFilter", "tickSize");
        let step = match self.category {
            BybitCategory::Spot => nested_field(v, "lotSizeFilter", "basePrecision"),
            BybitCategory::Linear => nested_field(v, "lotSizeFilter", "qtyStep"),
        };
        let (exchange, market_type) = match self.category {
            BybitCategory::Spot => (Exchange::Bybit, MarketType::Spot),
            BybitCategory::Linear => (Exchange::BybitF, MarketType::Perp),
        };
        read_sized(exchange, market_type, quote, symbol, tick, step)
    }
}

/// What the document of the listing comes to.
pub open spec fn bybit_listing(v: JsonView, category: BybitCategory) -> Result<
    Seq<SpecView>,
    ErrorView,
> {
    if v.signed_of("retCode"@) != Some(0i64) {
        Err(
            ErrorView::Parse(
                "bybit retCode != 0: "@ + match v.text_of("retMsg"@) {
                    Some(m) => m,
                    None => "?"@,
                },
            ),
        )
    } else {
        match result_list(v) {
            None => Err(ErrorView::Parse("missing result.list"@)),
            Some(items) => gathered(items, |row: JsonView| bybit_row(row, category)),
        }
    }
}

fn ret_code_is_zero(v: &Json) -> (r: bool)
    ensures
        r == (v@.signed_of("retCode"@) == Some(0i64)),
{
    match v.i64_at("retCode") {
        Some(c) => c == 0,
        None => false,
    }
}

/// Reads the document of the listing.
pub fn read_instruments_info(v: &Json, category: BybitCategory) -> (r: Result<
    Vec<SymbolSpec>,
    ExchangeError,
>)
    ensures
        listing_outcome(r) == bybit_listing(v@, category),
{
    if !ret_code_is_zero(v) {
        let msg = match v.text_at("retMsg") {
            Some(m) => m,
            None => "?",
        };
        return Err(ExchangeError::Parse("bybit retCode != 0: ".to_owned().concat(msg)));
    }
    let list = match v.get("result") {
        Some(g) => g.array_at("list"),
        None => None,
    };
    match list {
        None => Err(ExchangeError::Parse("missing result.list".to_owned())),
        Some(items) => {
            let reader = BybitRows { category };
            assert((|row: JsonView| reader.row_view(row)) =~= (|row: JsonView|
                bybit_row(row, category)));
            gather(&reader, items)
        },
    }
}

/// Reads the body of the listing.
pub fn parse_instruments_info(json: &str, category: BybitCategory) -> (r: Result<
    Vec<SymbolSpec>,
    ExchangeError,
>)
    ensures
        listing_outcome(r) == read_or_fail(
            json_document(json.spec_bytes()),
            |v: JsonView| bybit_listing(v, category),
        ),
{
    match parse_json(json.as_bytes()) {
        Ok(v) => read_instruments_info(&v, category),
        Err(m) => Err(ExchangeError::Parse(m)),
    }
}

struct BybitTurnover;

impl VolumeReader for BybitTurnover {
    open spec fn volume_view(&self, v: JsonView) -> Option<VolumeView> {
        text_pair(v, "symbol"@, "turnover24h"@)
    }

    fn read(&self, v: &Json) -> (r: Option<(String, String)>) {
        match v.text_at("symbol") {
            Some(a) => match v.text_at("turnover24h") {
                Some(b) => Some((a.to_owned(), b.to_owned())),
                None => None,
            },
            None => None,
        }
    }
}

/// What the document of the tickers comes to.
pub open spec fn bybit_turnover(v: JsonView) -> Result<Seq<VolumeView>, ErrorView> {
    if v.signed_of("retCode"@) != Some(0i64) {
        Err(ErrorView::Parse("bybit tickers retCode != 0"@))
    } else {
        match result_list(v) {
            None => Err(ErrorView::Parse("missing result.list"@)),
            Some(items) => Ok(
                volumes(items, |row: JsonView| text_pair(row, "symbol"@, "turnover24h"@)),
            ),
        }
    }
}

/// Reads the document of the tickers.
pub fn read_24h_turnover(v: &Json) -> (r: Result<Vec<(String, String)>, ExchangeError>)
    ensures
        volumes_outcome(r) == bybit_turnover(v@),
{
    if !ret_code_is_zero(v) {
        return Err(ExchangeError::Parse("bybit tickers retCode != 0".to_owned()));
    }
    let list = match v.get("result") {
        Some(g) => g.array_at("list"),
        None => None,
    };
    match list {
        None => Err(ExchangeError::Parse("missing result.list".to_owned())),
        Some(items) => {
            let reader = BybitTurnover;
            assert((|row: JsonView| reader.volume_view(row)) =~= (|row: JsonView|
                text_pair(row, "symbol"@, "turnover24h"@)));
            Ok(gather_volumes(&reader, items))
        },
    }
}

/// Reads the body of the tickers: instruments with their turnover over 24 hours in the quote
/// currency, as texts. A row without one of the two is skipped.
pub fn parse_24h_turnover(json: &str) -> (r: Result<Vec<(String, String)>, ExchangeError>)
    ensures
        volumes_outcome(r) == match json_document(json.spec_bytes()) {
            Ok(v) => bybit_turnover(v),
            Err(m) => Err(ErrorView::Parse(m)),
        },
{
    match parse_json(json.as_bytes()) {
        Ok(v) => read_24h_turnover(&v),
        Err(m) => Err(ExchangeError::Parse(m)),
    }
}

/// Every listed instrument has a tick and a step of at least one unit.
pub proof fn law_listed_sizes(v: JsonView, category: BybitCategory)
    ensures
        bybit_listing(v, category) is Ok ==> forall|i: int|
            0 <= i < bybit_listing(v, category)->Ok_0.len() ==> has_sizes(
                #[trigger] bybit_listing(v, category)->Ok_0[i],
            ),
{
    let row = |x: JsonView| bybit_row(x, category);
    assert forall|x: JsonView| #[trigger] row(x) is Keep implies has_sizes(row(x)->Keep_0) by {
    }
    match result_list(v) {
        Some(items) => lemma_gathered_sizes(items, row),
        None => {},
    }
}

/// An instrument is listed only where it trades against USDT or USDC, by its own symbol, with the tick
/// of its price filter and the step of its lot filter, which has another name on spot. One that
/// trades so and has both sizes is listed, and no row is refused.
pub proof fn law_listed_instruments(v: JsonView, category: BybitCategory)
    ensures
        ({
            let linear = category == BybitCategory::Linear;
            let trades = {
                &&& v.text_of("status"@) == Some("Trading"@)
                &&& v.text_of("quoteCoin"@) == Some("USDT"@) || v.text_of("quoteCoin"@) == Some(
                    "USDC"@,
                )
                &&& v.text_of("symbol"@) is Some
            };
            &&& !trades ==> bybit_row(v, category) is Skip
            &&& trades ==> bybit_row(v, category) == sized_row(
                if linear {
                    Exchange::BybitF
                } else {
                    Exchange::Bybit
                },
                if linear {
                    MarketType::Perp
                } else {
                    MarketType::Spot
                },
                if v.text_of("quoteCoin"@) == Some("USDT"@) {
                    Quote::Usdt
                } else {
                    Quote::Usdc
                },
                v.text_of("symbol"@)->0,
                nested_text(v, "priceFilter"@, "tickSize"@),
                nested_text(
                    v,
                    "lotSizeFilter"@,
                    if linear {
                        "qtyStep"@
                    } else {
                        "basePrecision"@
                    },
                ),
            )
        }),
{
    crate::listing::law_quotes_are_named(v.text_of("quoteCoin"@));
    reveal_strlit("");
    reveal_strlit("Trading");
    reveal_strlit("USDT");
    reveal_strlit("USDC");
    assert(""@.len() == 0 && "Trading"@.len() == 7);
    assert("USDT"@[3] == 'T' && "USDC"@[3] == 'C');
}

/// A nested text is that of the field of the group, and empty where one of them is missing.
pub proof fn law_nested_texts(v: JsonView, group: Seq<char>, field: Seq<char>, t: Seq<char>)
    ensures
        t.len() > 0 ==> (nested_text(v, group, field) == t <==> v.member(group) is Some && v.member(
            group,
        )->0.text_of(field) == Some(t)),
{
    reveal_strlit("");
}

/// An answer is refused exactly where its code is not zero or it has no list.
pub proof fn law_answers_are_refused(v: JsonView, category: BybitCategory)
    ensures
        v.signed_of("retCode"@) != Some(0i64) ==> bybit_listing(v, category) is Err
            && bybit_turnover(v) is Err,
        v.signed_of("retCode"@) == Some(0i64) ==> (bybit_turnover(v) is Err <==> v.member(
            "result"@,
        ) is None || v.member("result"@)->0.items_of("list"@) is None),
        v.signed_of("retCode"@) == Some(0i64) && bybit_turnover(v) is Err ==> bybit_listing(
            v,
            category,
        ) is Err,
{
}

/// The listing holds exactly the instruments that the rows of its document keep.
pub proof fn law_bybit_listing_holds_its_rows(v: JsonView, category: BybitCategory, s: SpecView)
    requires
        bybit_listing(v, category) is Ok,
    ensures
        v.signed_of("retCode"@) == Some(0i64),
        v.member("result"@) is Some && v.member("result"@)->0.items_of("list"@) is Some,
        bybit_listing(v, category)->Ok_0.contains(s) <==> exists|i: int|
            0 <= i < v.member("result"@)->0.items_of("list"@)->0.len() && bybit_row(#[trigger] v.member("result"@)->0.items_of("list"@)->0[i], category) == RowView::Keep(s),
{
    law_listing_holds_what_is_kept(v.member("result"@)->0.items_of("list"@)->0, |x: JsonView| bybit_row(x, category), s);
}

} // verus!
