//! The listing of Binance USD-M futures.

use vstd::prelude::*;
use vstd::string::*;

use crate::json::{json_document, json_list, parse_json, Json, JsonView};
use crate::listing::{
    filter_field, filter_text, gather, gathered, has_sizes, law_listing_holds_what_is_kept,
    lemma_gathered_sizes, listing_outcome, parse_quote_volumes, quote_named, quote_of,
    quote_volumes, read_or_fail, read_sized, sized_row, text_or_default, text_or_empty,
    volumes_outcome, Row, RowReader, RowView,
};
use crate::text::same_text;
use crate::traits::{ErrorView, ExchangeError};
use crate::types::{Exchange, MarketType, Quote, SpecView, SymbolSpec};

verus! {

/// The REST side of Binance USD-M futures.
pub struct BinanceFuturesInfo {
    pub base_url: String,
}

impl BinanceFuturesInfo {
    pub fn new() -> (r: Self)
        ensures
            r.base_url@ == "https://fapi.binance.com"@,
    {
        BinanceFuturesInfo { base_url: "https://fapi.binance.com".to_owned() }
    }

    pub fn with_base_url(base_url: &str) -> (r: Self)
        ensures
            r.base_url@ == base_url@,
    {
        BinanceFuturesInfo { base_url: base_url.to_owned() }
    }

    /// Where the listing is.
    pub fn instruments_url(&self) -> (r: String)
        ensures
            r@ == self.base_url@ + "/fapi/v1/exchangeInfo"@,
    {
        self.base_url.clone().concat("/fapi/v1/exchangeInfo")
    }

    /// Where the volumes over 24 hours are.
    pub fn tickers_url(&self) -> (r: String)
        ensures
            r@ == self.base_url@ + "/fapi/v1/ticker/24hr"@,
    {
        self.base_url.clone().concat("/fapi/v1/ticker/24hr")
    }
}

impl Default for BinanceFuturesInfo {
    fn default() -> (r: Self)
        ensures
            r.base_url@ == "https://fapi.binance.com"@,
    {
        BinanceFuturesInfo::new()
    }
}

/// The text that names an instrument whose listing lacks its filters.
pub open spec fn filters_missing(symbol: Seq<char>) -> Seq<char> {
    symbol + ": filters missing"@
}

/// A row of the listing: perpetual contracts that trade against USDT or USDC, "TradFi" perpetuals
/// among them. Dated contracts and other quotes are skipped, and so is a contract whose tick or step
/// is missing or no positive number; one without a symbol or without filters is refused.
pub open spec fn futures_row(v: JsonView) -> RowView {
    let contract = text_or_empty(v.text_of("contractType"@));
    let status = text_or_empty(v.text_of("status"@));
    if !(contract == "PERPETUAL"@ || contract == "TRADIFI_PERPETUAL"@) || status != "TRADING"@ {
        RowView::Skip
    } else {
        match quote_named(v.text_of("quoteAsset"@)) {
            None => RowView::Skip,
            Some(quote) => match v.text_of("symbol"@) {
                None => RowView::Fail(ErrorView::Parse("symbol missing"@)),
                Some(symbol) => match v.items_of("filters"@) {
                    None => RowView::Fail(ErrorView::Parse(filters_missing(symbol))),
                    Some(filters) => sized_row(
                        Exchange::BinanceF,
                        MarketType::Perp,
                        quote,
                        symbol,
                        filter_text(filters, "PRICE_FILTER"@, "tickSize"@),
                        filter_text(filters, "LOT_SIZE"@, "stepSize"@),
                    ),
                },
            },
        }
    }
}

struct FuturesRows;

impl RowReader for FuturesRows {
    open spec fn row_view(&self, v: JsonView) -> RowView {
        futures_row(v)
    }

    fn read(&self, v: &Json) -> (r: Row) {
        let contract = text_or_default(v, "contractType");
        let status = text_or_default(v, "status");
        let is_perp = same_text(contract, "PERPETUAL") || same_text(contract, "TRADIFI_PERPETUAL");
        if !is_perp || !same_text(status, "TRADING") {
            return Row::Skip;
        }
        let quote = match quote_of(v.text_at("quoteAsset")) {
            Some(q) => q,
            None => {
                return Row::Skip;
            },
        };
        let symbol = match v.text_at("symbol") {
            Some(s) => s.to_owned(),
            None => {
                return Row::Fail(ExchangeError::Parse("symbol missing".to_owned()));
            },
        };
        let filters = match v.array_at("filters") {
            Some(f) => f,
            None => {
                return Row::Fail(ExchangeError::Parse(symbol.concat(": filters missing")));
            },
        };
        let tick = filter_field(filters, "PRICE_FILTER", "tickSize");
        let step = filter_field(filters, "LOT_SIZE", "stepSize");
        read_sized(Exchange::BinanceF, MarketType::Perp, quote, symbol, tick, step)
    }
}

/// What the document of the listing comes to.
pub open spec fn futures_listing(v: JsonView) -> Result<Seq<SpecView>, ErrorView> {
    match v.items_of("symbols"@) {
        None => Err(ErrorView::Parse("missing 'symbols' array"@)),
        Some(items) => gathered(items, |row: JsonView| futures_row(row)),
    }
}

/// Reads the document of the listing.
pub fn read_exchange_info(v: &Json) -> (r: Result<Vec<SymbolSpec>, ExchangeError>)
    ensures
        listing_outcome(r) == futures_listing(v@),
{
    match v.array_at("symbols") {
        None => Err(ExchangeError::Parse("missing 'symbols' array".to_owned())),
        Some(items) => {
            let reader = FuturesRows;
            assert((|row: JsonView| reader.row_view(row)) =~= (|row: JsonView| futures_row(row)));
            gather(&reader, items)
        },
    }
}

/// Reads the body of the listing.
pub fn parse_exchange_info(json: &str) -> (r: Result<Vec<SymbolSpec>, ExchangeError>)
    ensures
        listing_outcome(r) == read_or_fail(
            json_document(json.spec_bytes()),
            |v: JsonView| futures_listing(v),
        ),
{
    match parse_json(json.as_bytes()) {
        Ok(v) => read_exchange_info(&v),
        Err(m) => Err(ExchangeError::Parse(m)),
    }
}

/// Reads the body of the 24-hour tickers: instruments with their volumes in the quote currency, as
/// texts. A row without one of the two is skipped.
pub fn parse_24h_quote_volumes(json: &str) -> (r: Result<Vec<(String, String)>, ExchangeError>)
    ensures
        volumes_outcome(r) == quote_volumes(json_list(json.spec_bytes())),
{
    parse_quote_volumes(json)
}

/// Every listed instrument has a tick and a step of at least one unit.
pub proof fn law_listed_sizes(v: JsonView)
    ensures
        futures_listing(v) is Ok ==> forall|i: int|
            0 <= i < futures_listing(v)->Ok_0.len() ==> has_sizes(
                #[trigger] futures_listing(v)->Ok_0[i],
            ),
{
    let row = |x: JsonView| futures_row(x);
    assert forall|x: JsonView| #[trigger] row(x) is Keep implies has_sizes(row(x)->Keep_0) by {
    }
    match v.items_of("symbols"@) {
        Some(items) => lemma_gathered_sizes(items, row),
        None => {},
    }
}

/// A contract is listed only where it is a perpetual that trades against USDT or USDC, by its own
/// symbol, with the sizes of its price filter and its lot filter. One that trades so and has both
/// sizes is listed.
pub proof fn law_listed_contracts(v: JsonView)
    ensures
        ({
            let trades = {
                &&& v.text_of("contractType"@) == Some("PERPETUAL"@) || v.text_of("contractType"@)
                    == Some("TRADIFI_PERPETUAL"@)
                &&& v.text_of("status"@) == Some("TRADING"@)
                &&& v.text_of("quoteAsset"@) == Some("USDT"@) || v.text_of("quoteAsset"@) == Some(
                    "USDC"@,
                )
            };
            &&& !trades ==> futures_row(v) is Skip
            &&& trades ==> (futures_row(v) is Fail <==> v.text_of("symbol"@) is None || v.items_of(
                "filters"@,
            ) is None)
            &&& trades && v.text_of("symbol"@) is Some && v.items_of("filters"@) is Some
                ==> futures_row(v) == sized_row(
                Exchange::BinanceF,
                MarketType::Perp,
                if v.text_of("quoteAsset"@) == Some("USDT"@) {
                    Quote::Usdt
                } else {
                    Quote::Usdc
                },
                v.text_of("symbol"@)->0,
                filter_text(v.items_of("filters"@)->0, "PRICE_FILTER"@, "tickSize"@),
                filter_text(v.items_of("filters"@)->0, "LOT_SIZE"@, "stepSize"@),
            )
        }),
{
    crate::listing::law_quotes_are_named(v.text_of("quoteAsset"@));
    lemma_words();
}

proof fn lemma_words()
    ensures
        ""@.len() == 0,
        "PERPETUAL"@.len() > 0,
        "TRADIFI_PERPETUAL"@.len() > 0,
        "TRADING"@.len() > 0,
        "USDT"@ != "USDC"@,
{
    reveal_strlit("");
    reveal_strlit("PERPETUAL");
    reveal_strlit("TRADIFI_PERPETUAL");
    reveal_strlit("TRADING");
    reveal_strlit("USDT");
    reveal_strlit("USDC");
    assert("USDT"@[3] == 'T' && "USDC"@[3] == 'C');
}

/// The listing holds exactly the instruments that the rows of its document keep.
pub proof fn law_futures_listing_holds_its_rows(v: JsonView, s: SpecView)
    requires
        futures_listing(v) is Ok,
    ensures
        v.items_of("symbols"@) is Some,
        futures_listing(v)->Ok_0.contains(s) <==> exists|i: int|
            0 <= i < v.items_of("symbols"@)->0.len() && futures_row(#[trigger] v.items_of("symbols"@)->0[i]) == RowView::Keep(s),
{
    law_listing_holds_what_is_kept(v.items_of("symbols"@)->0, |x: JsonView| futures_row(x), s);
}

} // verus!
