//! The listings of Bitget, perpetuals and spot. Numbers come as texts.

use vstd::prelude::*;
use vstd::string::*;

use crate::json::{json_document, parse_json, Json, JsonView};
use crate::listing::{
    at_least_one, gather, gather_volumes, gathered, has_sizes, law_listing_holds_what_is_kept,
    lemma_gathered_sizes, listing_outcome, one_or_more, quote_named, quote_of, read_or_fail,
    text_or_default, text_or_empty, volumes, volumes_outcome, Row, RowReader, RowView, VolumeReader,
    VolumeView,
};
use crate::scale::{parse_scaled, scaled};
use crate::text::{i64_value, parse_i64, parse_u8, same_text, to_uppercase, u8_value, upper};
use crate::traits::{ErrorView, ExchangeError};
use crate::types::{Exchange, MarketType, Quote, SpecView, SymbolSpec};

verus! {

#[derive(Debug, Clone, Copy, PartialEq, Eq, Structural)]
pub enum BitgetCategory {
    /// USDT-margined linear perpetuals.
    Perp,
    /// Spot pairs against USDT or USDC.
    Spot,
}

impl BitgetCategory {
    pub fn is_perp(self) -> (r: bool)
        ensures
            r == (self == BitgetCategory::Perp),
    {
        match self {
            BitgetCategory::Perp => true,
            BitgetCategory::Spot => false,
        }
    }
}

/// The REST side of Bitget.
pub struct BitgetInstrumentsInfo {
    pub base_url: String,
    pub category: BitgetCategory,
}

impl BitgetInstrumentsInfo {
    pub fn new(category: BitgetCategory) -> (r: Self)
        ensures
            r.base_url@ == "https://api.bitget.com"@,
            r.category == category,
    {
        BitgetInstrumentsInfo { base_url: "https://api.bitget.com".to_owned(), category }
    }

    pub fn with_base_url(self, url: &str) -> (r: Self)
        ensures
            r.base_url@ == url@,
            r.category == self.category,
    {
        BitgetInstrumentsInfo { base_url: url.to_owned(), category: self.category }
    }

    /// Where the listing is.
    pub fn instruments_url(&self) -> (r: String)
        ensures
            r@ == self.base_url@ + match self.category {
                BitgetCategory::Perp => "/api/v2/mix/market/contracts?productType=USDT-FUTURES"@,
                BitgetCategory::Spot => "/api/v2/spot/public/symbols"@,
            },
    {
        self.base_url.clone().concat(
            match self.category {
                BitgetCategory::Perp => "/api/v2/mix/market/contracts?productType=USDT-FUTURES",
                BitgetCategory::Spot => "/api/v2/spot/public/symbols",
            },
        )
    }

    /// Where the volumes over 24 hours are.
    pub fn tickers_url(&self) -> (r: String)
        ensures
            r@ == self.base_url@ + match self.category {
                BitgetCategory::Perp => "/api/v2/mix/market/tickers?productType=USDT-FUTURES"@,
                BitgetCategory::Spot => "/api/v2/spot/market/tickers"@,
            },
    {
        self.base_url.clone().concat(
            match self.category {
                BitgetCategory::Perp => "/api/v2/mix/market/tickers?productType=USDT-FUTURES",
                BitgetCategory::Spot => "/api/v2/spot/market/tickers",
            },
        )
    }
}

/// The `u8` that the text of a member writes.
pub open spec fn u8_member(v: JsonView, key: Seq<char>) -> Option<u8> {
    match v.text_of(key) {
        Some(t) => u8_value(t),
        None => None,
    }
}

fn u8_field(v: &Json, key: &str) -> (r: Option<u8>)
    ensures
        r == u8_member(v@, key@),
{
    match v.text_at(key) {
        Some(t) => parse_u8(t),
        None => None,
    }
}

/// The tick of a perpetual, already in scaled units.
pub open spec fn perp_tick(v: JsonView) -> i64 {
    at_least_one(
        match v.text_of("priceEndStep"@) {
            Some(t) => i64_value(t),
            None => None,
        },
    )
}

/// The step of a perpetual at the given scale.
pub open spec fn perp_step(v: JsonView, qty_scale: u8) -> i64 {
    at_least_one(
        match v.text_of("minTradeNum"@) {
            Some(t) => match scaled(t, qty_scale) {
                Ok(n) => Some(n),
                Err(_) => None,
            },
            None => None,
        },
    )
}

/// A perpetual: the places are the scales as they stand.
pub open spec fn perp_row(v: JsonView, symbol: Seq<char>, quote: Quote) -> RowView {
    let status = v.text_of("symbolStatus"@);
    if status == Some("off"@) || status == Some("maintain"@) {
        RowView::Skip
    } else {
        match u8_member(v, "pricePlace"@) {
            None => RowView::Skip,
            Some(price_scale) => match u8_member(v, "volumePlace"@) {
                None => RowView::Skip,
                Some(qty_scale) => RowView::Keep(
                    SpecView {
                        exchange: Exchange::BitgetF,
                        market_type: MarketType::Perp,
                        quote,
                        symbol,
                        price_scale,
                        qty_scale,
                        tick_size: perp_tick(v),
                        step_size: perp_step(v, qty_scale),
                    },
                ),
            },
        }
    }
}

/// A spot pair: the precisions are the scales, tick and step are one unit.
pub open spec fn spot_row(v: JsonView, symbol: Seq<char>, quote: Quote) -> RowView {
    if v.text_of("status"@) == Some("offline"@) {
        RowView::Skip
    } else {
        match u8_member(v, "pricePrecision"@) {
            None => RowView::Skip,
            Some(price_scale) => match u8_member(v, "quantityPrecision"@) {
                None => RowView::Skip,
                Some(qty_scale) => RowView::Keep(
                    SpecView {
                        exchange: Exchange::Bitget,
                        market_type: MarketType::Spot,
                        quote,
                        symbol,
                        price_scale,
                        qty_scale,
                        tick_size: 1,
                        step_size: 1,
                    },
                ),
            },
        }
    }
}

/// A row of the listing. Nothing is refused.
pub open spec fn bitget_row(v: JsonView, category: BitgetCategory) -> RowView {
    match v.text_of("symbol"@) {
        None => RowView::Skip,
        Some(symbol) => match quote_named(v.text_of("quoteCoin"@)) {
            None => RowView::Skip,
            Some(quote) => match category {
                BitgetCategory::Perp => perp_row(v, upper(symbol), quote),
                BitgetCategory::Spot => spot_row(v, upper(symbol), quote),
            },
        },
    }
}

struct BitgetRows {
    category: BitgetCategory,
}

impl RowReader for BitgetRows {
    closed spec fn row_view(&self, v: JsonView) -> RowView {
        bitget_row(v, self.category)
    }

    fn read(&self, v: &Json) -> (r: Row) {
        let symbol = match v.text_at("symbol") {
            Some(s) => to_uppercase(s),
            None => {
                return Row::Skip;
            },
        };
        let quote = match quote_of(v.text_at("quoteCoin")) {
            Some(q) => q,
            None => {
                return Row::Skip;
            },
        };
        if self.category.is_perp() {
            read_perp(v, symbol, quote)
        } else {
            read_spot(v, symbol, quote)
        }
    }
}

fn read_perp(v: &Json, symbol: String, quote: Quote) -> (r: Row)
    ensures
        r@ == perp_row(v@, symbol@, quote),
{
    match v.text_at("symbolStatus") {
        Some(s) => {
            if same_text(s, "off") || same_text(s, "maintain") {
                return Row::Skip;
            }
        },
        None => {},
    }
    let price_scale: u8 = match u8_field(v, "pricePlace") {
        Some(n) => n,
        None => {
            return Row::Skip;
        },
    };
    let qty_scale: u8 = match u8_field(v, "volumePlace") {
        Some(n) => n,
        None => {
            return Row::Skip;
        },
    };
    let tick_size: i64 = one_or_more(
        match v.text_at("priceEndStep") {
            Some(t) => parse_i64(t),
            None => None,
        },
    );
    let step_size: i64 = one_or_more(
        match v.text_at("minTradeNum") {
            Some(t) => match parse_scaled(t, qty_scale) {
                Ok(n) => Some(n),
                Err(_) => None,
            },
            None => None,
        },
    );
    Row::Keep(
        SymbolSpec {
            exchange: Exchange::BitgetF,
            market_type: MarketType::Perp,
            quote,
            symbol,
            price_scale,
            qty_scale,
            tick_size,
            step_size,
        },
    )
}

fn read_spot(v: &Json, symbol: String, quote: Quote) -> (r: Row)
    ensures
        r@ == spot_row(v@, symbol@, quote),
{
    match v.text_at("status") {
        Some(s) => {
            if same_text(s, "offline") {
                return Row::Skip;
            }
        },
        None => {},
    }
    let price_scale: u8 = match u8_field(v, "pricePrecision") {
        Some(n) => n,
        None => {
            return Row::Skip;
        },
    };
    let qty_scale: u8 = match u8_field(v, "quantityPrecision") {
        Some(n) => n,
        None => {
            return Row::Skip;
        },
    };
    Row::Keep(
        SymbolSpec {
            exchange: Exchange::Bitget,
            market_type: MarketType::Spot,
            quote,
            symbol,
            price_scale,
            qty_scale,
            tick_size: 1,
            step_size: 1,
        },
    )
}

/// What the document of the listing comes to.
pub open spec fn bitget_listing(v: JsonView, category: BitgetCategory) -> Result<
    Seq<SpecView>,
    ErrorView,
> {
    if text_or_empty(v.text_of("code"@)) != "00000"@ {
        Err(
            ErrorView::Parse(
                "bitget code != 00000: "@ + match v.text_of("msg"@) {
                    Some(m) => m,
                    None => "?"@,
                },
            ),
        )
    } else {
        match v.items_of("data"@) {
            None => Err(ErrorView::Parse("missing data"@)),
            Some(items) => gathered(items, |row: JsonView| bitget_row(row, category)),
        }
    }
}

/// Reads the document of the listing.
pub fn read_instruments(v: &Json, category: BitgetCategory) -> (r: Result<
    Vec<SymbolSpec>,
    ExchangeError,
>)
    ensures
        listing_outcome(r) == bitget_listing(v@, category),
{
    if !same_text(text_or_default(v, "code"), "00000") {
        let msg = match v.text_at("msg") {
            Some(m) => m,
            None => "?",
        };
        return Err(ExchangeError::Parse("bitget code != 00000: ".to_owned().concat(msg)));
    }
    match v.array_at("data") {
        None => Err(ExchangeError::Parse("missing data".to_owned())),
        Some(items) => {
            let reader = BitgetRows { category };
            assert((|row: JsonView| reader.row_view(row)) =~= (|row: JsonView|
                bitget_row(row, category)));
            gather(&reader, items)
        },
    }
}

/// Reads the body of the listing.
pub fn parse_instruments(json: &str, category: BitgetCategory) -> (r: Result<
    Vec<SymbolSpec>,
    ExchangeError,
>)
    ensures
        listing_outcome(r) == read_or_fail(
            json_document(json.spec_bytes()),
            |v: JsonView| bitget_listing(v, category),
        ),
{
    match parse_json(json.as_bytes()) {
        Ok(v) => read_instruments(&v, category),
        Err(m) => Err(ExchangeError::Parse(m)),
    }
}

/// The volume of a row: the first of four members that is a text, "0" where none is.
pub open spec fn volume_text(v: JsonView) -> Seq<char> {
    match v.text_of("quoteVolume"@) {
        Some(t) => t,
        None => match v.text_of("quoteVol"@) {
            Some(t) => t,
            None => match v.text_of("usdtVolume"@) {
                Some(t) => t,
                None => match v.text_of("usdtVol"@) {
                    Some(t) => t,
                    None => "0"@,
                },
            },
        },
    }
}

fn volume_field<'a>(v: &'a Json) -> (r: &'a str)
    ensures
        r@ == volume_text(v@),
{
    match v.text_at("quoteVolume") {
        Some(t) => t,
        None => match v.text_at("quoteVol") {
            Some(t) => t,
            None => match v.text_at("usdtVolume") {
                Some(t) => t,
                None => match v.text_at("usdtVol") {
                    Some(t) => t,
                    None => "0",
                },
            },
        },
    }
}

/// The instrument, in uppercase, and the volume of a row that has a symbol.
pub open spec fn bitget_volume(v: JsonView) -> Option<VolumeView> {
    match v.text_of("symbol"@) {
        Some(s) => Some((upper(s), volume_text(v))),
        None => None,
    }
}

struct BitgetVolumes;

impl VolumeReader for BitgetVolumes {
    open spec fn volume_view(&self, v: JsonView) -> Option<VolumeView> {
        bitget_volume(v)
    }

    fn read(&self, v: &Json) -> (r: Option<(String, String)>) {
        match v.text_at("symbol") {
            Some(s) => Some((to_uppercase(s), volume_field(v).to_owned())),
            None => None,
        }
    }
}

/// What the document of the tickers comes to.
pub open spec fn bitget_volumes(v: JsonView) -> Result<Seq<VolumeView>, ErrorView> {
    if v.text_of("code"@) != Some("00000"@) {
        Err(ErrorView::Parse("bitget tickers code != 00000"@))
    } else {
        match v.items_of("data"@) {
            None => Err(ErrorView::Parse("missing data"@)),
            Some(items) => Ok(volumes(items, |row: JsonView| bitget_volume(row))),
        }
    }
}

/// Reads the document of the tickers.
pub fn read_24h_volumes(v: &Json) -> (r: Result<Vec<(String, String)>, ExchangeError>)
    ensures
        volumes_outcome(r) == bitget_volumes(v@),
{
    let ok = match v.text_at("code") {
        Some(c) => same_text(c, "00000"),
        None => false,
    };
    if !ok {
        return Err(ExchangeError::Parse("bitget tickers code != 00000".to_owned()));
    }
    match v.array_at("data") {
        None => Err(ExchangeError::Parse("missing data".to_owned())),
        Some(items) => {
            let reader = BitgetVolumes;
            assert((|row: JsonView| reader.volume_view(row)) =~= (|row: JsonView|
                bitget_volume(row)));
            Ok(gather_volumes(&reader, items))
        },
    }
}

/// Reads the body of the tickers: instruments in uppercase with their volumes over 24 hours, as
/// texts. A row without a symbol is skipped; a volume that is no number counts as zero.
pub fn parse_24h_volumes(json: &str) -> (r: Result<Vec<(String, String)>, ExchangeError>)
    ensures
        volumes_outcome(r) == match json_document(json.spec_bytes()) {
            Ok(v) => bitget_volumes(v),
            Err(m) => Err(ErrorView::Parse(m)),
        },
{
    match parse_json(json.as_bytes()) {
        Ok(v) => read_24h_volumes(&v),
        Err(m) => Err(ExchangeError::Parse(m)),
    }
}

/// Every listed instrument has a tick and a step of at least one unit.
pub proof fn law_listed_sizes(v: JsonView, category: BitgetCategory)
    ensures
        bitget_listing(v, category) is Ok ==> forall|i: int|
            0 <= i < bitget_listing(v, category)->Ok_0.len() ==> has_sizes(
                #[trigger] bitget_listing(v, category)->Ok_0[i],
            ),
{
    let row = |x: JsonView| bitget_row(x, category);
    assert forall|x: JsonView| #[trigger] row(x) is Keep implies has_sizes(row(x)->Keep_0) by {
    }
    match v.items_of("data"@) {
        Some(items) => lemma_gathered_sizes(items, row),
        None => {},
    }
}

/// A perpetual is listed exactly where it is neither off nor under maintenance, is quoted in USDT or
/// USDC, and has both numbers of decimals, by its symbol in uppercase. Its tick is the end step of
/// its price and its step the least quantity that trades, at least one unit each.
pub proof fn law_listed_perpetuals(v: JsonView)
    ensures
        ({
            let r = bitget_row(v, BitgetCategory::Perp);
            &&& r is Keep <==> {
                &&& v.text_of("symbol"@) is Some
                &&& v.text_of("quoteCoin"@) == Some("USDT"@) || v.text_of("quoteCoin"@) == Some(
                    "USDC"@,
                )
                &&& v.text_of("symbolStatus"@) != Some("off"@)
                &&& v.text_of("symbolStatus"@) != Some("maintain"@)
                &&& v.text_of("pricePlace"@) is Some && u8_value(v.text_of("pricePlace"@)->0) is Some
                &&& v.text_of("volumePlace"@) is Some && u8_value(
                    v.text_of("volumePlace"@)->0,
                ) is Some
            }
            &&& !(r is Fail)
            &&& r is Keep ==> {
                let s = r->Keep_0;
                &&& s.symbol == upper(v.text_of("symbol"@)->0)
                &&& (s.quote == Quote::Usdt) == (v.text_of("quoteCoin"@) == Some("USDT"@))
                &&& (s.exchange, s.market_type) == (Exchange::BitgetF, MarketType::Perp)
                &&& u8_value(v.text_of("pricePlace"@)->0) == Some(s.price_scale)
                &&& u8_value(v.text_of("volumePlace"@)->0) == Some(s.qty_scale)
                &&& v.text_of("priceEndStep"@) is Some && i64_value(
                    v.text_of("priceEndStep"@)->0,
                ) is Some && i64_value(v.text_of("priceEndStep"@)->0)->0 >= 1 ==> Some(s.tick_size)
                    == i64_value(v.text_of("priceEndStep"@)->0)
                &&& v.text_of("priceEndStep"@) is None ==> s.tick_size == 1
                &&& v.text_of("minTradeNum"@) is Some && scaled(
                    v.text_of("minTradeNum"@)->0,
                    s.qty_scale,
                ) is Ok && scaled(v.text_of("minTradeNum"@)->0, s.qty_scale)->Ok_0 >= 1 ==> Ok::<
                    i64,
                    Seq<char>,
                >(s.step_size) == scaled(v.text_of("minTradeNum"@)->0, s.qty_scale)
                &&& v.text_of("minTradeNum"@) is None ==> s.step_size == 1
            }
        }),
{
    crate::listing::law_quotes_are_named(v.text_of("quoteCoin"@));
}

/// A pair is listed exactly where it is not offline, is quoted in USDT or USDC, and has both numbers of
/// decimals, by its symbol in uppercase, in steps of one unit.
pub proof fn law_listed_pairs(v: JsonView)
    ensures
        ({
            let r = bitget_row(v, BitgetCategory::Spot);
            &&& r is Keep <==> {
                &&& v.text_of("symbol"@) is Some
                &&& v.text_of("quoteCoin"@) == Some("USDT"@) || v.text_of("quoteCoin"@) == Some(
                    "USDC"@,
                )
                &&& v.text_of("status"@) != Some("offline"@)
                &&& v.text_of("pricePrecision"@) is Some && u8_value(
                    v.text_of("pricePrecision"@)->0,
                ) is Some
                &&& v.text_of("quantityPrecision"@) is Some && u8_value(
                    v.text_of("quantityPrecision"@)->0,
                ) is Some
            }
            &&& !(r is Fail)
            &&& r is Keep ==> {
                let s = r->Keep_0;
                &&& s.symbol == upper(v.text_of("symbol"@)->0)
                &&& (s.quote == Quote::Usdt) == (v.text_of("quoteCoin"@) == Some("USDT"@))
                &&& (s.exchange, s.market_type) == (Exchange::Bitget, MarketType::Spot)
                &&& u8_value(v.text_of("pricePrecision"@)->0) == Some(s.price_scale)
                &&& u8_value(v.text_of("quantityPrecision"@)->0) == Some(s.qty_scale)
                &&& (s.tick_size, s.step_size) == (1i64, 1i64)
            }
        }),
{
    crate::listing::law_quotes_are_named(v.text_of("quoteCoin"@));
}

/// A volume is the first of the four texts that is there, and zero where none is.
pub proof fn law_volume_is_the_first_there(v: JsonView)
    ensures
        ({
            let (a, b, c, d) = (
                v.text_of("quoteVolume"@),
                v.text_of("quoteVol"@),
                v.text_of("usdtVolume"@),
                v.text_of("usdtVol"@),
            );
            &&& a is Some ==> Some(volume_text(v)) == a
            &&& a is None && b is Some ==> Some(volume_text(v)) == b
            &&& a is None && b is None && c is Some ==> Some(volume_text(v)) == c
            &&& a is None && b is None && c is None && d is Some ==> Some(volume_text(v)) == d
            &&& a is None && b is None && c is None && d is None ==> volume_text(v) == "0"@
            &&& bitget_volume(v) is Some <==> v.text_of("symbol"@) is Some
            &&& bitget_volume(v) is Some ==> bitget_volume(v) == Some(
                (upper(v.text_of("symbol"@)->0), volume_text(v)),
            )
        }),
{
}

/// The listing holds exactly the instruments that the rows of its document keep.
pub proof fn law_bitget_listing_holds_its_rows(v: JsonView, category: BitgetCategory, s: SpecView)
    requires
        bitget_listing(v, category) is Ok,
    ensures
        v.text_of("code"@) == Some("00000"@),
        v.items_of("data"@) is Some,
        bitget_listing(v, category)->Ok_0.contains(s) <==> exists|i: int|
            0 <= i < v.items_of("data"@)->0.len() && bitget_row(#[trigger] v.items_of("data"@)->0[i], category) == RowView::Keep(s),
{
    reveal_strlit("");
    reveal_strlit("00000");
    assert(""@.len() == 0 && "00000"@.len() == 5);
    law_listing_holds_what_is_kept(v.items_of("data"@)->0, |x: JsonView| bitget_row(x, category), s);
}

} // verus!
