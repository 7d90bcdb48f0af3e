//! The listing of Binance spot.

use vstd::prelude::*;
use vstd::string::*;

use crate::binance::futures_info::filters_missing;
use crate::json::{json_document, json_list, parse_json, Json, JsonView};
use crate::listing::{
    filter_field, filter_text, gather, gathered, has_sizes, law_listing_holds_what_is_kept,
    lemma_gathered_sizes, listing_outcome, parse_quote_volumes, quote_named, quote_of,
    quote_volumes, read_or_fail, read_sized, sized_row, text_or_default, text_or_empty,
    volumes_outcome, Row, RowReader, RowView,
};
use crate::text::same_text;
use crate::traits::{ErrorView, ExchangeError};
use crate::types::{Exchange, MarketType, Quote, SpecView, SymbolSpec};

verus! {

/// The REST side of Binance spot.
pub struct BinanceSpotInfo {
    pub base_url: String,
}

impl BinanceSpotInfo {
    pub fn new() -> (r: Self)
        ensures
            r.base_url@ == "https://api.binance.com"@,
    {
        BinanceSpotInfo { base_url: "https://api.binance.com".to_owned() }
    }

    pub fn with_base_url(base_url: &str) -> (r: Self)
        ensures
            r.base_url@ == base_url@,
    {
        BinanceSpotInfo { base_url: base_url.to_owned() }
    }

    /// Where the listing is.
    pub fn instruments_url(&self) -> (r: String)
        ensures
            r@ == self.base_url@ + "/api/v3/exchangeInfo"@,
    {
        self.base_url.clone().concat("/api/v3/exchangeInfo")
    }

    /// Where the volumes over 24 hours are.
    pub fn tickers_url(&self) -> (r: String)
        ensures
            r@ == self.base_url@ + "/api/v3/ticker/24hr"@,
    {
        self.base_url.clone().concat("/api/v3/ticker/24hr")
    }
}

impl Default for BinanceSpotInfo {
    fn default() -> (r: Self)
        ensures
            r.base_url@ == "https://api.binance.com"@,
    {
        BinanceSpotInfo::new()
    }
}

/// A row of the listing: pairs that trade against USDT or USDC. Other quotes are skipped, and so is
/// a pair that is barred from spot trading or whose tick or step is missing or no positive number;
/// one without a symbol or without filters is refused.
pub open spec fn spot_row(v: JsonView) -> RowView {
    if text_or_empty(v.text_of("status"@)) != "TRADING"@ {
        RowView::Skip
    } else {
        match quote_named(v.text_of("quoteAsset"@)) {
            None => RowView::Skip,
            Some(quote) => if v.boolean_of("isSpotTradingAllowed"@) == Some(false) {
                RowView::Skip
            } else {
                match v.text_of("symbol"@) {
                    None => RowView::Fail(ErrorView::Parse("symbol missing"@)),
                    Some(symbol) => match v.items_of("filters"@) {
                        None => RowView::Fail(ErrorView::Parse(filters_missing(symbol))),
                        Some(filters) => sized_row(
                            Exchange::Binance,
                            MarketType::Spot,
                            quote,
                            symbol,
                            filter_text(filters, "PRICE_FILTER"@, "tickSize"@),
                            filter_text(filters, "LOT_SIZE"@, "stepSize"@),
                        ),
                    },
                }
            },
        }
    }
}

struct SpotRows;

impl RowReader for SpotRows {
    open spec fn row_view(&self, v: JsonView) -> RowView {
        spot_row(v)
    }

    fn read(&self, v: &Json) -> (r: Row) {
        if !same_text(text_or_default(v, "status"), "TRADING") {
            return Row::Skip;
        }
        let quote = match quote_of(v.text_at("quoteAsset")) {
            Some(q) => q,
            None => {
                return Row::Skip;
            },
        };
        match v.bool_at("isSpotTradingAllowed") {
            Some(allowed) => {
                if !allowed {
                    return Row::Skip;
                }
            },
            None => {},
        }
        let symbol = match v.text_at("symbol") {
            Some(s) => s.to_owned(),
            None => {
                return Row::Fail(ExchangeError::Parse("symbol missing".to_owned()));
            },
        };
        let filters = match v.array_at("filters") {
            Some(f) => f,
            None => {
                return Row::Fail(ExchangeError::Parse(symbol.concat(": filters missing")));
            },
        };
        let tick = filter_field(filters, "PRICE_FILTER", "tickSize");
        let step = filter_field(filters, "LOT_SIZE", "stepSize");
        read_sized(Exchange::Binance, MarketType::Spot, quote, symbol, tick, step)
    }
}

/// What the document of the listing comes to.
pub open spec fn spot_listing(v: JsonView) -> Result<Seq<SpecView>, ErrorView> {
    match v.items_of("symbols"@) {
        None => Err(ErrorView::Parse("missing 'symbols' array"@)),
        Some(items) => gathered(items, |row: JsonView| spot_row(row)),
    }
}

/// Reads the document of the listing.
pub fn read_exchange_info(v: &Json) -> (r: Result<Vec<SymbolSpec>, ExchangeError>)
    ensures
        listing_outcome(r) == spot_listing(v@),
{
    match v.array_at("symbols") {
        None => Err(ExchangeError::Parse("missing 'symbols' array".to_owned())),
        Some(items) => {
            let reader = SpotRows;
            assert((|row: JsonView| reader.row_view(row)) =~= (|row: JsonView| spot_row(row)));
            gather(&reader, items)
        },
    }
}

/// Reads the body of the listing.
pub fn parse_exchange_info(json: &str) -> (r: Result<Vec<SymbolSpec>, ExchangeError>)
    ensures
        listing_outcome(r) == read_or_fail(
            json_document(json.spec_bytes()),
            |v: JsonView| spot_listing(v),
        ),
{
    match parse_json(json.as_bytes()) {
        Ok(v) => read_exchange_info(&v),
        Err(m) => Err(ExchangeError::Parse(m)),
    }
}

/// Reads the body of the 24-hour tickers: instruments with their volumes in the quote currency, as
/// texts. A row without one of the two is skipped.
pub fn parse_24h_quote_volumes(json: &str) -> (r: Result<Vec<(String, String)>, ExchangeError>)
    ensures
        volumes_outcome(r) == quote_volumes(json_list(json.spec_bytes())),
{
    parse_quote_volumes(json)
}

/// Every listed instrument has a tick and a step of at least one unit.
pub proof fn law_listed_sizes(v: JsonView)
    ensures
        spot_listing(v) is Ok ==> forall|i: int|
            0 <= i < spot_listing(v)->Ok_0.len() ==> has_sizes(
                #[trigger] spot_listing(v)->Ok_0[i],
            ),
{
    let row = |x: JsonView| spot_row(x);
    assert forall|x: JsonView| #[trigger] row(x) is Keep implies has_sizes(row(x)->Keep_0) by {
    }
    match v.items_of("symbols"@) {
        Some(items) => lemma_gathered_sizes(items, row),
        None => {},
    }
}

/// A pair is listed only where it trades against USDT or USDC and is not barred from spot trading, by
/// its own symbol, with the sizes of its price filter and its lot filter. One that trades so and
/// has both sizes is listed.
pub proof fn law_listed_pairs(v: JsonView)
    ensures
        ({
            let trades = {
                &&& v.text_of("status"@) == Some("TRADING"@)
                &&& v.text_of("quoteAsset"@) == Some("USDT"@) || v.text_of("quoteAsset"@) == Some(
                    "USDC"@,
                )
                &&& v.boolean_of("isSpotTradingAllowed"@) != Some(false)
            };
            &&& !trades ==> spot_row(v) is Skip
            &&& trades ==> (spot_row(v) is Fail <==> v.text_of("symbol"@) is None || v.items_of(
                "filters"@,
            ) is None)
            &&& trades && v.text_of("symbol"@) is Some && v.items_of("filters"@) is Some ==> spot_row(
                v,
            ) == sized_row(
                Exchange::Binance,
                MarketType::Spot,
                if v.text_of("quoteAsset"@) == Some("USDT"@) {
                    Quote::Usdt
                } else {
                    Quote::Usdc
                },
                v.text_of("symbol"@)->0,
                filter_text(v.items_of("filters"@)->0, "PRICE_FILTER"@, "tickSize"@),
                filter_text(v.items_of("filters"@)->0, "LOT_SIZE"@, "stepSize"@),
            )
        }),
{
    crate::listing::law_quotes_are_named(v.text_of("quoteAsset"@));
    reveal_strlit("");
    reveal_strlit("TRADING");
    reveal_strlit("USDT");
    reveal_strlit("USDC");
    assert(""@.len() == 0 && "TRADING"@.len() == 7);
    assert("USDT"@[3] == 'T' && "USDC"@[3] == 'C');
}

/// The listing holds exactly the instruments that the rows of its document keep.
pub proof fn law_spot_listing_holds_its_rows(v: JsonView, s: SpecView)
    requires
        spot_listing(v) is Ok,
    ensures
        v.items_of("symbols"@) is Some,
        spot_listing(v)->Ok_0.contains(s) <==> exists|i: int|
            0 <= i < v.items_of("symbols"@)->0.len() && spot_row(#[trigger] v.items_of("symbols"@)->0[i]) == RowView::Keep(s),
{
    law_listing_holds_what_is_kept(v.items_of("symbols"@)->0, |x: JsonView| spot_row(x), s);
}

} // verus!
