//! The listings of BingX, swaps and spot.

use vstd::prelude::*;
use vstd::string::*;
use vstd::utf8::*;

use crate::json::{
    double_fixed, fixed_point, integer_fixed, integer_fixed_point, json_document, parse_json, Json,
    JsonNumber, JsonView, NumberView,
};
use crate::listing::{
    at_least_one, gather, gathered, has_sizes, law_listing_holds_what_is_kept, lemma_gathered_sizes,
    listing_outcome, one_or_more, read_or_fail, Row, RowReader, RowView,
};
use crate::scale::{
    count_decimals_trimmed, fmt_decimal, lemma_tail_is_dropped, parse_scaled, plain_decimal, scaled,
    significant_decimals, DECIMAL_PLACES,
};
use crate::text::{ends_with, has_suffix, replace_char, replaced, to_uppercase, upper};
use crate::traits::{ErrorView, ExchangeError};
use crate::types::{Exchange, MarketType, Quote, SpecView, SymbolSpec};

verus! {

pub const BINGX_BASE: &'static str = "https://open-api.bingx.com";

#[derive(Debug, Clone, Copy, PartialEq, Eq, Structural)]
pub enum BingxCategory {
    Swap,
    Spot,
}

impl BingxCategory {
    pub fn is_swap(self) -> (r: bool)
        ensures
            r == (self == BingxCategory::Swap),
    {
        match self {
            BingxCategory::Swap => true,
            BingxCategory::Spot => false,
        }
    }
}

/// The REST side of BingX.
pub struct BingxInstrumentsInfo {
    pub category: BingxCategory,
}

impl BingxInstrumentsInfo {
    pub fn new(category: BingxCategory) -> (r: Self)
        ensures
            r.category == category,
    {
        BingxInstrumentsInfo { category }
    }

    /// Where the listing is.
    pub fn url(&self) -> (r: String)
        ensures
            r@ == BINGX_BASE@ + match self.category {
                BingxCategory::Swap => "/openApi/swap/v2/quote/contracts"@,
                BingxCategory::Spot => "/openApi/spot/v1/common/symbols"@,
            },
    {
        BINGX_BASE.to_owned().concat(
            match self.category {
                BingxCategory::Swap => "/openApi/swap/v2/quote/contracts",
                BingxCategory::Spot => "/openApi/spot/v1/common/symbols",
            },
        )
    }

    /// Reads the body of the listing of the category.
    pub fn parse(&self, json: &str) -> (r: Result<Vec<SymbolSpec>, ExchangeError>)
        ensures
            listing_outcome(r) == read_or_fail(
                json_document(json.spec_bytes()),
                |v: JsonView|
                    match self.category {
                        BingxCategory::Swap => swap_listing(v),
                        BingxCategory::Spot => spot_listing(v),
                    },
            ),
    {
        if self.category.is_swap() {
            parse_swap(json)
        } else {
            parse_spot(json)
        }
    }
}

/// The quote currency behind the dash of a symbol.
pub open spec fn venue_quote(venue: Seq<char>) -> Option<Quote> {
    if has_suffix(venue, "-USDT"@) {
        Some(Quote::Usdt)
    } else if has_suffix(venue, "-USDC"@) {
        Some(Quote::Usdc)
    } else {
        None
    }
}

/// Reads the quote currency of a symbol.
pub fn quote_of(venue: &str) -> (r: Option<Quote>)
    ensures
        r == venue_quote(venue@),
{
    if ends_with(venue, "-USDT") {
        Some(Quote::Usdt)
    } else if ends_with(venue, "-USDC") {
        Some(Quote::Usdc)
    } else {
        None
    }
}

/// A number that comes as a text or as a JSON number, as a decimal text.
pub open spec fn number_text(v: Option<JsonView>) -> Option<Seq<char>> {
    match v {
        Some(JsonView::Text(t)) => Some(t),
        Some(JsonView::Number(NumberView::PosInt(n))) => Some(
            plain_decimal(integer_fixed(n, DECIMAL_PLACES)),
        ),
        Some(JsonView::Number(NumberView::NegInt(n))) => Some("0"@),
        Some(JsonView::Number(NumberView::Float(written))) => Some(
            plain_decimal(double_fixed(written, DECIMAL_PLACES)),
        ),
        _ => None,
    }
}

/// Reads a number that comes as a text or as a JSON number.
pub fn num_str(v: Option<&Json>) -> (r: Option<String>)
    ensures
        (match r {
            Some(t) => Some(t@),
            None => None,
        }) == number_text(crate::json::found(v)),
{
    match v {
        Some(Json::Text(t)) => Some(t.clone()),
        Some(Json::Number(JsonNumber::PosInt(n))) => {
            let fixed = integer_fixed_point(*n, DECIMAL_PLACES);
            Some(fmt_decimal(fixed.as_str()))
        },
        Some(Json::Number(JsonNumber::NegInt(_))) => Some("0".to_owned()),
        Some(Json::Number(JsonNumber::Float(n))) => {
            let fixed = fixed_point(n, DECIMAL_PLACES);
            Some(fmt_decimal(fixed.as_str()))
        },
        _ => None,
    }
}

/// The unsigned member, or `default`, at most 18.
pub open spec fn precision(v: JsonView, key: Seq<char>, default: u64) -> u8 {
    let n = match v.unsigned_of(key) {
        Some(n) => n,
        None => default,
    };
    if n > 18 {
        18
    } else {
        n as u8
    }
}

fn precision_at(v: &Json, key: &str, default: u64) -> (r: u8)
    ensures
        r == precision(v@, key@, default),
{
    let n: u64 = match v.u64_at(key) {
        Some(n) => n,
        None => default,
    };
    if n > 18 {
        18
    } else {
        n as u8
    }
}

/// The value of a decimal text at a scale, at least one unit.
pub open spec fn units(text: Seq<char>, scale: u8) -> i64 {
    at_least_one(
        match scaled(text, scale) {
            Ok(n) => Some(n),
            Err(_) => None,
        },
    )
}

fn units_of(text: &str, scale: u8) -> (r: i64)
    ensures
        r == units(text@, scale),
{
    one_or_more(
        match parse_scaled(text, scale) {
            Ok(n) => Some(n),
            Err(_) => None,
        },
    )
}

/// The symbol of a row that is online, in uppercase, with its quote currency.
pub open spec fn online_symbol(v: JsonView) -> Option<(Seq<char>, Quote)> {
    if v.signed_of("status"@) != Some(1i64) {
        None
    } else {
        match v.text_of("symbol"@) {
            None => None,
            Some(s) => match venue_quote(upper(s)) {
                None => None,
                Some(quote) => Some((upper(s), quote)),
            },
        }
    }
}

fn read_online_symbol(v: &Json) -> (r: Option<(String, Quote)>)
    ensures
        (match r {
            Some(p) => Some((p.0@, p.1)),
            None => None,
        }) == online_symbol(v@),
{
    match v.i64_at("status") {
        Some(s) => {
            if s != 1 {
                return None;
            }
        },
        None => {
            return None;
        },
    }
    match v.text_at("symbol") {
        None => None,
        Some(s) => {
            let venue = to_uppercase(s);
            match quote_of(venue.as_str()) {
                None => None,
                Some(quote) => Some((venue, quote)),
            }
        },
    }
}

/// The symbol without its dashes.
pub open spec fn undashed(venue: Seq<char>) -> Seq<char> {
    replaced(venue, '-', ""@)
}

/// A swap: the precisions are the scales, the tick is one unit.
pub open spec fn swap_row(v: JsonView) -> RowView {
    match online_symbol(v) {
        None => RowView::Skip,
        Some((venue, quote)) => {
            let qty_scale = precision(v, "quantityPrecision"@, 0);
            RowView::Keep(
                SpecView {
                    exchange: Exchange::BingxF,
                    market_type: MarketType::Perp,
                    quote,
                    symbol: undashed(venue),
                    price_scale: precision(v, "pricePrecision"@, 2),
                    qty_scale,
                    tick_size: 1,
                    step_size: match number_text(v.member("size"@)) {
                        Some(t) => units(t, qty_scale),
                        None => 1,
                    },
                },
            )
        },
    }
}

/// The decimal text of a member, or `default`.
pub open spec fn number_or(v: JsonView, key: Seq<char>, default: Seq<char>) -> Seq<char> {
    match number_text(v.member(key)) {
        Some(t) => t,
        None => default,
    }
}

/// A spot pair: the scales are the decimals of the tick and the step.
pub open spec fn spot_row(v: JsonView) -> RowView {
    match online_symbol(v) {
        None => RowView::Skip,
        Some((venue, quote)) => {
            let tick = number_or(v, "tickSize"@, "0.01"@);
            let step = number_or(v, "stepSize"@, "0.000001"@);
            let price_scale = significant_decimals(encode_utf8(tick));
            let qty_scale = significant_decimals(encode_utf8(step));
            RowView::Keep(
                SpecView {
                    exchange: Exchange::Bingx,
                    market_type: MarketType::Spot,
                    quote,
                    symbol: undashed(venue),
                    price_scale,
                    qty_scale,
                    tick_size: units(tick, price_scale),
                    step_size: units(step, qty_scale),
                },
            )
        },
    }
}

struct SwapRows;

impl RowReader for SwapRows {
    open spec fn row_view(&self, v: JsonView) -> RowView {
        swap_row(v)
    }

    fn read(&self, v: &Json) -> (r: Row) {
        let (venue, quote) = match read_online_symbol(v) {
            Some(p) => p,
            None => {
                return Row::Skip;
            },
        };
        let price_scale: u8 = precision_at(v, "pricePrecision", 2);
        let qty_scale: u8 = precision_at(v, "quantityPrecision", 0);
        let step_size: i64 = match num_str(v.get("size")) {
            Some(t) => units_of(t.as_str(), qty_scale),
            None => 1,
        };
        Row::Keep(
            SymbolSpec {
                exchange: Exchange::BingxF,
                market_type: MarketType::Perp,
                quote,
                symbol: replace_char(venue.as_str(), '-', ""),
                price_scale,
                qty_scale,
                tick_size: 1,
                step_size,
            },
        )
    }
}

struct SpotRows;

impl RowReader for SpotRows {
    open spec fn row_view(&self, v: JsonView) -> RowView {
        spot_row(v)
    }

    fn read(&self, v: &Json) -> (r: Row) {
        let (venue, quote) = match read_online_symbol(v) {
            Some(p) => p,
            None => {
                return Row::Skip;
            },
        };
        let tick = match num_str(v.get("tickSize")) {
            Some(t) => t,
            None => "0.01".to_owned(),
        };
        let step = match num_str(v.get("stepSize")) {
            Some(t) => t,
            None => "0.000001".to_owned(),
        };
        let price_scale: u8 = count_decimals_trimmed(tick.as_str());
        let tick_size: i64 = units_of(tick.as_str(), price_scale);
        let qty_scale: u8 = count_decimals_trimmed(step.as_str());
        let step_size: i64 = units_of(step.as_str(), qty_scale);
        Row::Keep(
            SymbolSpec {
                exchange: Exchange::Bingx,
                market_type: MarketType::Spot,
                quote,
                symbol: replace_char(venue.as_str(), '-', ""),
                price_scale,
                qty_scale,
                tick_size,
                step_size,
            },
        )
    }
}

/// The error that the document reports, where its code is not zero.
pub open spec fn api_error(v: JsonView) -> Option<ErrorView> {
    if v.signed_of("code"@) == Some(0i64) {
        None
    } else {
        Some(
            ErrorView::Parse(
                "BingX API error: "@ + match v.text_of("msg"@) {
                    Some(m) => m,
                    None => "unknown"@,
                },
            ),
        )
    }
}

fn read_api_error(v: &Json) -> (r: Option<ExchangeError>)
    ensures
        (match r {
            Some(e) => Some(e@),
            None => None,
        }) == api_error(v@),
{
    let ok = match v.i64_at("code") {
        Some(c) => c == 0,
        None => false,
    };
    if ok {
        return None;
    }
    let msg = match v.text_at("msg") {
        Some(m) => m,
        None => "unknown",
    };
    Some(ExchangeError::Parse("BingX API error: ".to_owned().concat(msg)))
}

/// What the document of the swap listing comes to.
pub open spec fn swap_listing(v: JsonView) -> Result<Seq<SpecView>, ErrorView> {
    match api_error(v) {
        Some(e) => Err(e),
        None => match v.items_of("data"@) {
            None => Err(ErrorView::Parse("missing data array"@)),
            Some(items) => gathered(items, |row: JsonView| swap_row(row)),
        },
    }
}

/// What the document of the spot listing comes to.
pub open spec fn spot_listing(v: JsonView) -> Result<Seq<SpecView>, ErrorView> {
    match api_error(v) {
        Some(e) => Err(e),
        None => match v.member("data"@) {
            None => Err(ErrorView::Parse("missing data.symbols array"@)),
            Some(data) => match data.items_of("symbols"@) {
                None => Err(ErrorView::Parse("missing data.symbols array"@)),
                Some(items) => gathered(items, |row: JsonView| spot_row(row)),
            },
        },
    }
}

/// Reads the document of the swap listing.
pub fn read_swap(v: &Json) -> (r: Result<Vec<SymbolSpec>, ExchangeError>)
    ensures
        listing_outcome(r) == swap_listing(v@),
{
    match read_api_error(v) {
        Some(e) => {
            return Err(e);
        },
        None => {},
    }
    match v.array_at("data") {
        None => Err(ExchangeError::Parse("missing data array".to_owned())),
        Some(items) => {
            let reader = SwapRows;
            assert((|row: JsonView| reader.row_view(row)) =~= (|row: JsonView| swap_row(row)));
            gather(&reader, items)
        },
    }
}

/// Reads the document of the spot listing.
pub fn read_spot(v: &Json) -> (r: Result<Vec<SymbolSpec>, ExchangeError>)
    ensures
        listing_outcome(r) == spot_listing(v@),
{
    match read_api_error(v) {
        Some(e) => {
            return Err(e);
        },
        None => {},
    }
    let list = match v.get("data") {
        Some(data) => data.array_at("symbols"),
        None => None,
    };
    match list {
        None => Err(ExchangeError::Parse("missing data.symbols array".to_owned())),
        Some(items) => {
            let reader = SpotRows;
            assert((|row: JsonView| reader.row_view(row)) =~= (|row: JsonView| spot_row(row)));
            gather(&reader, items)
        },
    }
}

/// Reads the body of the swap listing.
pub fn parse_swap(json: &str) -> (r: Result<Vec<SymbolSpec>, ExchangeError>)
    ensures
        listing_outcome(r) == read_or_fail(
            json_document(json.spec_bytes()),
            |v: JsonView| swap_listing(v),
        ),
{
    match parse_json(json.as_bytes()) {
        Ok(v) => read_swap(&v),
        Err(m) => Err(ExchangeError::Parse(m)),
    }
}

/// Reads the body of the spot listing.
pub fn parse_spot(json: &str) -> (r: Result<Vec<SymbolSpec>, ExchangeError>)
    ensures
        listing_outcome(r) == read_or_fail(
            json_document(json.spec_bytes()),
            |v: JsonView| spot_listing(v),
        ),
{
    match parse_json(json.as_bytes()) {
        Ok(v) => read_spot(&v),
        Err(m) => Err(ExchangeError::Parse(m)),
    }
}

/// Every listed instrument has a tick and a step of at least one unit.
pub proof fn law_listed_sizes(v: JsonView)
    ensures
        swap_listing(v) is Ok ==> forall|i: int|
            0 <= i < swap_listing(v)->Ok_0.len() ==> has_sizes(#[trigger] swap_listing(v)->Ok_0[i]),
        spot_listing(v) is Ok ==> forall|i: int|
            0 <= i < spot_listing(v)->Ok_0.len() ==> has_sizes(#[trigger] spot_listing(v)->Ok_0[i]),
{
    let swap = |x: JsonView| swap_row(x);
    let spot = |x: JsonView| spot_row(x);
    assert forall|x: JsonView| #[trigger] swap(x) is Keep implies has_sizes(swap(x)->Keep_0) by {
    }
    assert forall|x: JsonView| #[trigger] spot(x) is Keep implies has_sizes(spot(x)->Keep_0) by {
    }
    match v.items_of("data"@) {
        Some(items) => lemma_gathered_sizes(items, swap),
        None => {},
    }
    match v.member("data"@) {
        Some(data) => match data.items_of("symbols"@) {
            Some(items) => lemma_gathered_sizes(items, spot),
            None => {},
        },
        None => {},
    }
}

/// A swap is listed exactly where it is online and quoted in USDT or USDC, by its symbol in uppercase
/// without the dash, with the decimals that it says, at most 18.
pub proof fn law_listed_swaps(v: JsonView)
    ensures
        swap_row(v) is Keep <==> {
            &&& v.signed_of("status"@) == Some(1i64)
            &&& v.text_of("symbol"@) is Some
            &&& has_suffix(upper(v.text_of("symbol"@)->0), "-USDT"@) || has_suffix(
                upper(v.text_of("symbol"@)->0),
                "-USDC"@,
            )
        },
        !(swap_row(v) is Fail),
        swap_row(v) is Keep ==> ({
            let s = swap_row(v)->Keep_0;
            let venue = upper(v.text_of("symbol"@)->0);
            &&& s.symbol == replaced(venue, '-', ""@)
            &&& (s.quote == Quote::Usdt) == has_suffix(venue, "-USDT"@)
            &&& (s.exchange, s.market_type) == (Exchange::BingxF, MarketType::Perp)
            &&& s.tick_size == 1
            &&& v.unsigned_of("pricePrecision"@) is Some && v.unsigned_of("pricePrecision"@)->0 <= 18
                ==> s.price_scale == v.unsigned_of("pricePrecision"@)->0
            &&& v.unsigned_of("pricePrecision"@) is None ==> s.price_scale == 2
            &&& v.unsigned_of("quantityPrecision"@) is Some && v.unsigned_of(
                "quantityPrecision"@,
            )->0 <= 18 ==> s.qty_scale == v.unsigned_of("quantityPrecision"@)->0
            &&& v.unsigned_of("quantityPrecision"@) is None ==> s.qty_scale == 0
            &&& s.price_scale <= 18 && s.qty_scale <= 18
            &&& v.text_of("size"@) is Some && scaled(v.text_of("size"@)->0, s.qty_scale) is Ok
                && scaled(v.text_of("size"@)->0, s.qty_scale)->Ok_0 >= 1 ==> scaled(
                v.text_of("size"@)->0,
                s.qty_scale,
            ) == Ok::<i64, Seq<char>>(s.step_size)
            &&& v.member("size"@) is None ==> s.step_size == 1
        }),
{
}

/// A pair is listed exactly where it is online and quoted in USDT or USDC, by its symbol in uppercase
/// without the dash, with the tick and the step that it says, at their own scales.
pub proof fn law_listed_pairs(v: JsonView)
    ensures
        spot_row(v) is Keep <==> {
            &&& v.signed_of("status"@) == Some(1i64)
            &&& v.text_of("symbol"@) is Some
            &&& has_suffix(upper(v.text_of("symbol"@)->0), "-USDT"@) || has_suffix(
                upper(v.text_of("symbol"@)->0),
                "-USDC"@,
            )
        },
        !(spot_row(v) is Fail),
        spot_row(v) is Keep ==> ({
            let s = spot_row(v)->Keep_0;
            let venue = upper(v.text_of("symbol"@)->0);
            let (tick, step) = (v.text_of("tickSize"@), v.text_of("stepSize"@));
            &&& s.symbol == replaced(venue, '-', ""@)
            &&& (s.quote == Quote::Usdt) == has_suffix(venue, "-USDT"@)
            &&& (s.exchange, s.market_type) == (Exchange::Bingx, MarketType::Spot)
            &&& tick is Some ==> s.price_scale == significant_decimals(encode_utf8(tick->0))
            &&& tick is Some && scaled(tick->0, s.price_scale) is Ok && scaled(
                tick->0,
                s.price_scale,
            )->Ok_0 >= 1 ==> scaled(tick->0, s.price_scale) == Ok::<i64, Seq<char>>(s.tick_size)
            &&& step is Some ==> s.qty_scale == significant_decimals(encode_utf8(step->0))
            &&& step is Some && scaled(step->0, s.qty_scale) is Ok && scaled(
                step->0,
                s.qty_scale,
            )->Ok_0 >= 1 ==> scaled(step->0, s.qty_scale) == Ok::<i64, Seq<char>>(s.step_size)
        }),
{
}

/// A number counts the same whether it comes as a text or as an integer that a double holds exactly.
pub proof fn law_integers_keep_their_text(n: u64)
    requires
        n <= 0x20_0000_0000_0000,
    ensures
        number_text(Some(JsonView::Number(NumberView::PosInt(n)))) == Some(
            crate::text::decimal(n as nat),
        ),
        number_text(Some(JsonView::Text(crate::text::decimal(n as nat)))) == Some(
            crate::text::decimal(n as nat),
        ),
{
    let d = crate::text::decimal(n as nat);
    let fixed = integer_fixed(n, DECIMAL_PLACES);
    crate::text::lemma_decimal_value(n as nat);
    reveal_strlit(".");
    let zeros = Seq::new(DECIMAL_PLACES as nat, |i: int| '0');
    let head = d + "."@;
    assert(fixed == head + zeros);
    assert(head.last() == '.');
    lemma_tail_is_dropped(head, zeros, '0');
    assert(d.len() > 0 && crate::text::is_digit(d.last()) && crate::text::is_digit(d[0]));
    assert(head.drop_last() =~= d);
    assert(crate::text::without_trailing(d, '.') == d);
    assert(crate::text::without_trailing(head, '.') == d);
    assert(fixed[0] == d[0]);
}

/// The listing holds exactly the instruments that the rows of its document keep.
pub proof fn law_swap_listing_holds_its_rows(v: JsonView, s: SpecView)
    requires
        swap_listing(v) is Ok,
    ensures
        v.signed_of("code"@) == Some(0i64),
        v.items_of("data"@) is Some,
        swap_listing(v)->Ok_0.contains(s) <==> exists|i: int|
            0 <= i < v.items_of("data"@)->0.len() && swap_row(#[trigger] v.items_of("data"@)->0[i]) == RowView::Keep(s),
{
    law_listing_holds_what_is_kept(v.items_of("data"@)->0, |x: JsonView| swap_row(x), s);
}

/// The listing holds exactly the instruments that the rows of its document keep.
pub proof fn law_spot_listing_holds_its_rows(v: JsonView, s: SpecView)
    requires
        spot_listing(v) is Ok,
    ensures
        v.signed_of("code"@) == Some(0i64),
        v.member("data"@) is Some && v.member("data"@)->0.items_of("symbols"@) is Some,
        spot_listing(v)->Ok_0.contains(s) <==> exists|i: int|
            0 <= i < v.member("data"@)->0.items_of("symbols"@)->0.len() && spot_row(#[trigger] v.member("data"@)->0.items_of("symbols"@)->0[i]) == RowView::Keep(s),
{
    law_listing_holds_what_is_kept(v.member("data"@)->0.items_of("symbols"@)->0, |x: JsonView| spot_row(x), s);
}

} // verus!
