//! The listings of Aster, perpetuals and spot.

use vstd::prelude::*;
use vstd::string::*;

use crate::json::{
    items_view, json_document, json_list, parse_json, parse_json_list, Json, JsonView,
};
use crate::listing::{
    filter_field, filter_text, gather, gather_volumes, gathered, has_sizes,
    law_listing_holds_what_is_kept, lemma_gathered_sizes, listing_outcome, quote_named, quote_of,
    read_or_fail, read_sized, sized_row, text_or_default, text_or_empty, text_pair, volume_views,
    volumes, volumes_outcome, Row, RowReader, RowView, VolumeReader, VolumeView,
};
use crate::text::{same_text, to_uppercase, upper};
use crate::traits::{ErrorView, ExchangeError};
use crate::types::{Exchange, MarketType, Quote, SpecView, SymbolSpec};

verus! {

#[derive(Debug, Clone, Copy, PartialEq, Eq, Structural)]
pub enum AsterCategory {
    /// Linear perpetuals against USDT or USDC.
    Perp,
    /// Spot pairs against USDT or USDC.
    Spot,
}

impl AsterCategory {
    pub fn is_perp(self) -> (r: bool)
        ensures
            r == (self == AsterCategory::Perp),
    {
        match self {
            AsterCategory::Perp => true,
            AsterCategory::Spot => false,
        }
    }
}

/// The REST side of Aster.
pub struct AsterInstrumentsInfo {
    pub futures_base_url: String,
    pub spot_base_url: String,
    pub category: AsterCategory,
}

impl AsterInstrumentsInfo {
    pub fn new(category: AsterCategory) -> (r: Self)
        ensures
            r.futures_base_url@ == "https://fapi.asterdex.com"@,
            r.spot_base_url@ == "https://sapi.asterdex.com"@,
            r.category == category,
    {
        AsterInstrumentsInfo {
            futures_base_url: "https://fapi.asterdex.com".to_owned(),
            spot_base_url: "https://sapi.asterdex.com".to_owned(),
            category,
        }
    }

    /// Where the listing is.
    pub fn instruments_url(&self) -> (r: String)
        ensures
            r@ == match self.category {
                AsterCategory::Perp => self.futures_base_url@ + "/fapi/v1/exchangeInfo"@,
                AsterCategory::Spot => self.spot_base_url@ + "/api/v1/exchangeInfo"@,
            },
    {
        match self.category {
            AsterCategory::Perp => self.futures_base_url.clone().concat("/fapi/v1/exchangeInfo"),
            AsterCategory::Spot => self.spot_base_url.clone().concat("/api/v1/exchangeInfo"),
        }
    }

    /// Where the volumes over 24 hours are.
    pub fn tickers_url(&self) -> (r: String)
        ensures
            r@ == match self.category {
                AsterCategory::Perp => self.futures_base_url@ + "/fapi/v1/ticker/24hr"@,
                AsterCategory::Spot => self.spot_base_url@ + "/api/v1/ticker/24hr"@,
            },
    {
        match self.category {
            AsterCategory::Perp => self.futures_base_url.clone().concat("/fapi/v1/ticker/24hr"),
            AsterCategory::Spot => self.spot_base_url.clone().concat("/api/v1/ticker/24hr"),
        }
    }
}

/// The row is open for trading in its category: a contract that is no dated one, a pair that is not
/// barred from spot trading.
pub open spec fn trades_in(v: JsonView, category: AsterCategory) -> bool {
    &&& text_or_empty(v.text_of("status"@)) == "TRADING"@
    &&& match category {
        AsterCategory::Perp => v.text_of("contractType"@) is Some ==> v.text_of("contractType"@)->0
            == "PERPETUAL"@,
        AsterCategory::Spot => v.boolean_of("isSpotTradingAllowed"@) != Some(false),
    }
}

/// A row of the listing. Nothing is refused: a row that does not trade against USDT or USDC, lacks a
/// member or has a tick or step that is no positive number is skipped.
pub open spec fn aster_row(v: JsonView, category: AsterCategory) -> RowView {
    if !trades_in(v, category) {
        RowView::Skip
    } else {
        match quote_named(v.text_of("quoteAsset"@)) {
            None => RowView::Skip,
            Some(quote) => match v.text_of("symbol"@) {
                None => RowView::Skip,
                Some(symbol) => match v.items_of("filters"@) {
                    None => RowView::Skip,
                    Some(filters) => sized_row(
                        match category {
                            AsterCategory::Perp => Exchange::AsterF,
                            AsterCategory::Spot => Exchange::Aster,
                        },
                        match category {
                            AsterCategory::Perp => MarketType::Perp,
                            AsterCategory::Spot => MarketType::Spot,
                        },
                        quote,
                        upper(symbol),
                        filter_text(filters, "PRICE_FILTER"@, "tickSize"@),
                        filter_text(filters, "LOT_SIZE"@, "stepSize"@),
                    ),
                },
            },
        }
    }
}

struct AsterRows {
    category: AsterCategory,
}

impl RowReader for AsterRows {
    closed spec fn row_view(&self, v: JsonView) -> RowView {
        aster_row(v, self.category)
    }

    fn read(&self, v: &Json) -> (r: Row) {
        if !same_text(text_or_default(v, "status"), "TRADING") {
            return Row::Skip;
        }
        let is_perp = self.category.is_perp();
        if is_perp {
            match v.text_at("contractType") {
                Some(ct) => {
                    if !same_text(ct, "PERPETUAL") {
                        return Row::Skip;
                    }
                },
                None => {},
            }
        } else {
            match v.bool_at("isSpotTradingAllowed") {
                Some(allowed) => {
                    if !allowed {
                        return Row::Skip;
                    }
                },
                None => {},
            }
        }
        let quote = match quote_of(v.text_at("quoteAsset")) {
            Some(q) => q,
            None => {
                return Row::Skip;
            },
        };
        let symbol = match v.text_at("symbol") {
            Some(s) => to_uppercase(s),
            None => {
                return Row::Skip;
            },
        };
        let filters = match v.array_at("filters") {
            Some(f) => f,
            None => {
                return Row::Skip;
            },
        };
        let tick = filter_field(filters, "PRICE_FILTER", "tickSize");
        let step = filter_field(filters, "LOT_SIZE", "stepSize");
        let (exchange, market_type) = if is_perp {
            (Exchange::AsterF, MarketType::Perp)
        } else {
            (Exchange::Aster, MarketType::Spot)
        };
        read_sized(exchange, market_type, quote, symbol, tick, step)
    }
}

/// What the document of the listing comes to.
pub open spec fn aster_listing(v: JsonView, category: AsterCategory) -> Result<
    Seq<SpecView>,
    ErrorView,
> {
    match v.items_of("symbols"@) {
        None => Err(ErrorView::Parse("missing 'symbols' array"@)),
        Some(items) => gathered(items, |row: JsonView| aster_row(row, category)),
    }
}

/// Reads the document of the listing.
pub fn read_exchange_info(v: &Json, category: AsterCategory) -> (r: Result<
    Vec<SymbolSpec>,
    ExchangeError,
>)
    ensures
        listing_outcome(r) == aster_listing(v@, category),
{
    match v.array_at("symbols") {
        None => Err(ExchangeError::Parse("missing 'symbols' array".to_owned())),
        Some(items) => {
            let reader = AsterRows { category };
            assert((|row: JsonView| reader.row_view(row)) =~= (|row: JsonView|
                aster_row(row, category)));
            gather(&reader, items)
        },
    }
}

/// Reads the body of the listing.
pub fn parse_exchange_info(json: &str, category: AsterCategory) -> (r: Result<
    Vec<SymbolSpec>,
    ExchangeError,
>)
    ensures
        listing_outcome(r) == read_or_fail(
            json_document(json.spec_bytes()),
            |v: JsonView| aster_listing(v, category),
        ),
{
    match parse_json(json.as_bytes()) {
        Ok(v) => read_exchange_info(&v, category),
        Err(m) => Err(ExchangeError::Parse(m)),
    }
}

/// The instrument, in uppercase, and the volume of a row that has both.
pub open spec fn aster_volume(v: JsonView) -> Option<VolumeView> {
    match text_pair(v, "symbol"@, "quoteVolume"@) {
        Some(p) => Some((upper(p.0), p.1)),
        None => None,
    }
}

struct AsterVolumes;

impl VolumeReader for AsterVolumes {
    open spec fn volume_view(&self, v: JsonView) -> Option<VolumeView> {
        aster_volume(v)
    }

    fn read(&self, v: &Json) -> (r: Option<(String, String)>) {
        match v.text_at("symbol") {
            Some(a) => match v.text_at("quoteVolume") {
                Some(b) => Some((to_uppercase(a), b.to_owned())),
                None => None,
            },
            None => None,
        }
    }
}

/// Reads the rows of the 24-hour tickers.
pub fn read_24h_quote_volumes(items: &Vec<Json>) -> (r: Vec<(String, String)>)
    ensures
        volume_views(r@) == volumes(items_view(items@), |v: JsonView| aster_volume(v)),
{
    let reader = AsterVolumes;
    assert((|v: JsonView| reader.volume_view(v)) =~= (|v: JsonView| aster_volume(v)));
    gather_volumes(&reader, items)
}

/// Reads the body of the 24-hour tickers: instruments with their volumes in the quote currency, as
/// texts. A row without one of the two is skipped.
pub fn parse_24h_quote_volumes(json: &str) -> (r: Result<Vec<(String, String)>, ExchangeError>)
    ensures
        volumes_outcome(r) == match json_list(json.spec_bytes()) {
            Ok(items) => Ok(volumes(items, |v: JsonView| aster_volume(v))),
            Err(m) => Err(ErrorView::Parse(m)),
        },
{
    match parse_json_list(json.as_bytes()) {
        Ok(items) => Ok(read_24h_quote_volumes(&items)),
        Err(m) => Err(ExchangeError::Parse(m)),
    }
}

/// Every listed instrument has a tick and a step of at least one unit.
pub proof fn law_listed_sizes(v: JsonView, category: AsterCategory)
    ensures
        aster_listing(v, category) is Ok ==> forall|i: int|
            0 <= i < aster_listing(v, category)->Ok_0.len() ==> has_sizes(
                #[trigger] aster_listing(v, category)->Ok_0[i],
            ),
{
    let row = |x: JsonView| aster_row(x, category);
    assert forall|x: JsonView| #[trigger] row(x) is Keep implies has_sizes(row(x)->Keep_0) by {
    }
    match v.items_of("symbols"@) {
        Some(items) => lemma_gathered_sizes(items, row),
        None => {},
    }
}

/// An instrument is listed only where it trades against USDT or USDC, as a perpetual or on spot as
/// asked for, by its symbol in uppercase, with the sizes of its price filter and its lot filter.
/// One that trades so and has both sizes is listed, and no row is refused.
pub proof fn law_listed_instruments(v: JsonView, category: AsterCategory)
    ensures
        ({
            let perp = category == AsterCategory::Perp;
            let trades = {
                &&& v.text_of("status"@) == Some("TRADING"@)
                &&& perp ==> v.text_of("contractType"@) is None || v.text_of("contractType"@) == Some(
                    "PERPETUAL"@,
                )
                &&& !perp ==> v.boolean_of("isSpotTradingAllowed"@) != Some(false)
                &&& v.text_of("quoteAsset"@) == Some("USDT"@) || v.text_of("quoteAsset"@) == Some(
                    "USDC"@,
                )
                &&& v.text_of("symbol"@) is Some
                &&& v.items_of("filters"@) is Some
            };
            &&& !trades ==> aster_row(v, category) is Skip
            &&& trades ==> aster_row(v, category) == sized_row(
                if perp {
                    Exchange::AsterF
                } else {
                    Exchange::Aster
                },
                if perp {
                    MarketType::Perp
                } else {
                    MarketType::Spot
                },
                if v.text_of("quoteAsset"@) == Some("USDT"@) {
                    Quote::Usdt
                } else {
                    Quote::Usdc
                },
                upper(v.text_of("symbol"@)->0),
                filter_text(v.items_of("filters"@)->0, "PRICE_FILTER"@, "tickSize"@),
                filter_text(v.items_of("filters"@)->0, "LOT_SIZE"@, "stepSize"@),
            )
        }),
{
    crate::listing::law_quotes_are_named(v.text_of("quoteAsset"@));
    reveal_strlit("");
    reveal_strlit("TRADING");
    reveal_strlit("USDT");
    reveal_strlit("USDC");
    assert(""@.len() == 0 && "TRADING"@.len() == 7);
    assert("USDT"@[3] == 'T' && "USDC"@[3] == 'C');
}

/// The listing holds exactly the instruments that the rows of its document keep.
pub proof fn law_aster_listing_holds_its_rows(v: JsonView, category: AsterCategory, s: SpecView)
    requires
        aster_listing(v, category) is Ok,
    ensures
        v.items_of("symbols"@) is Some,
        aster_listing(v, category)->Ok_0.contains(s) <==> exists|i: int|
            0 <= i < v.items_of("symbols"@)->0.len() && aster_row(#[trigger] v.items_of("symbols"@)->0[i], category) == RowView::Keep(s),
{
    law_listing_holds_what_is_kept(v.items_of("symbols"@)->0, |x: JsonView| aster_row(x, category), s);
}

} // verus!
