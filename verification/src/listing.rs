//! What the venues' listings have in common: rows that are kept, skipped or refused.

use vstd::prelude::*;
use vstd::string::*;
use vstd::utf8::*;

use crate::json::{items_view, json_list, lemma_items_view, parse_json_list, Json, JsonView};
use crate::scale::{count_decimals_trimmed, parse_scaled, scaled, significant_decimals};
use crate::text::same_text;
use crate::traits::{ErrorView, ExchangeError};
use crate::types::{spec_views, Exchange, MarketType, Quote, SpecView, SymbolSpec};

verus! {

/// What one row of a listing comes to.
pub enum Row {
    Skip,
    Keep(SymbolSpec),
    Fail(ExchangeError),
}

/// What a `Row` says.
pub enum RowView {
    Skip,
    Keep(SpecView),
    Fail(ErrorView),
}

impl View for Row {
    type V = RowView;

    open spec fn view(&self) -> RowView {
        match self {
            Row::Skip => RowView::Skip,
            Row::Keep(s) => RowView::Keep(s@),
            Row::Fail(e) => RowView::Fail(e@),
        }
    }
}

/// The kept rows in order, or the error of the first row that is refused.
pub open spec fn gathered(items: Seq<JsonView>, row: spec_fn(JsonView) -> RowView) -> Result<
    Seq<SpecView>,
    ErrorView,
>
    decreases items.len(),
{
    if items.len() == 0 {
        Ok(Seq::empty())
    } else {
        match gathered(items.drop_last(), row) {
            Err(e) => Err(e),
            Ok(kept) => match row(items.last()) {
                RowView::Skip => Ok(kept),
                RowView::Keep(s) => Ok(kept.push(s)),
                RowView::Fail(e) => Err(e),
            },
        }
    }
}

/// What a listing function returns.
pub open spec fn listing_outcome(r: Result<Vec<SymbolSpec>, ExchangeError>) -> Result<
    Seq<SpecView>,
    ErrorView,
> {
    match r {
        Ok(v) => Ok(spec_views(v@)),
        Err(e) => Err(e@),
    }
}

/// A document that could be read goes on to `f`; one that could not is an error of parsing.
pub open spec fn read_or_fail(
    doc: Result<JsonView, Seq<char>>,
    f: spec_fn(JsonView) -> Result<Seq<SpecView>, ErrorView>,
) -> Result<Seq<SpecView>, ErrorView> {
    match doc {
        Ok(v) => f(v),
        Err(m) => Err(ErrorView::Parse(m)),
    }
}

/// How one venue reads a row of its listing.
pub trait RowReader {
    /// What a row comes to.
    spec fn row_view(&self, v: JsonView) -> RowView;

    fn read(&self, v: &Json) -> (r: Row)
        ensures
            r@ == self.row_view(v@),
    ;
}

proof fn lemma_gathered_prefix(
    items: Seq<JsonView>,
    row: spec_fn(JsonView) -> RowView,
    n: int,
    e: ErrorView,
)
    requires
        0 <= n <= items.len(),
        gathered(items.take(n), row) == Err::<Seq<SpecView>, ErrorView>(e),
    ensures
        gathered(items, row) == Err::<Seq<SpecView>, ErrorView>(e),
    decreases items.len(),
{
    if n < items.len() {
        assert(items.drop_last().take(n) =~= items.take(n));
        lemma_gathered_prefix(items.drop_last(), row, n, e);
    } else {
        assert(items.take(n) =~= items);
    }
}

/// Reads the rows of a listing.
pub fn gather<R: RowReader>(reader: &R, items: &Vec<Json>) -> (r: Result<
    Vec<SymbolSpec>,
    ExchangeError,
>)
    ensures
        listing_outcome(r) == gathered(items_view(items@), |v: JsonView| reader.row_view(v)),
{
    let ghost row = |v: JsonView| reader.row_view(v);
    let ghost rows = items_view(items@);
    proof {
        lemma_items_view(items@);
    }
    let mut out: Vec<SymbolSpec> = Vec::new();
    let mut i: usize = 0;
    assert(spec_views(out@) =~= Seq::<SpecView>::empty());
    while i < items.len()
        invariant
            i <= items@.len(),
            rows.len() == items@.len(),
            rows == items_view(items@),
            row == (|v: JsonView| reader.row_view(v)),
            forall|j: int| 0 <= j < items@.len() ==> #[trigger] rows[j] == items@[j]@,
            gathered(rows.take(i as int), row) == Ok::<Seq<SpecView>, ErrorView>(spec_views(out@)),
        decreases items@.len() - i,
    {
        let ghost next = rows.take(i as int + 1);
        assert(next.drop_last() =~= rows.take(i as int));
        assert(next.last() == items@[i as int]@);
        match reader.read(&items[i]) {
            Row::Skip => {},
            Row::Keep(s) => {
                let ghost before = out@;
                out.push(s);
                assert(spec_views(out@) =~= spec_views(before).push(s@));
            },
            Row::Fail(e) => {
                proof {
                    lemma_gathered_prefix(rows, row, i as int + 1, e@);
                }
                return Err(e);
            },
        }
        i = i + 1;
    }
    assert(rows.take(i as int) =~= rows);
    Ok(out)
}

/// The quote currency that a text names.
pub open spec fn quote_named(s: Option<Seq<char>>) -> Option<Quote> {
    match s {
        Some(t) => if t == "USDT"@ {
            Some(Quote::Usdt)
        } else if t == "USDC"@ {
            Some(Quote::Usdc)
        } else {
            None
        },
        None => None,
    }
}

/// Reads the name of a quote currency.
pub fn quote_of(s: Option<&str>) -> (r: Option<Quote>)
    ensures
        r == quote_named(crate::json::found_text(s)),
{
    match s {
        Some(t) => if same_text(t, "USDT") {
            Some(Quote::Usdt)
        } else if same_text(t, "USDC") {
            Some(Quote::Usdc)
        } else {
            None
        },
        None => None,
    }
}

/// The text, or the empty text where there is none.
pub open spec fn text_or_empty(s: Option<Seq<char>>) -> Seq<char> {
    match s {
        Some(t) => t,
        None => ""@,
    }
}

/// The text of the member `key`, or the empty text.
pub fn text_or_default<'a>(v: &'a Json, key: &str) -> (r: &'a str)
    ensures
        r@ == text_or_empty(v@.text_of(key@)),
{
    match v.text_at(key) {
        Some(t) => t,
        None => "",
    }
}

/// The text `field` of the last filter of the given kind that has one, or the empty text.
pub open spec fn filter_text(
    filters: Seq<JsonView>,
    kind: Seq<char>,
    field: Seq<char>,
) -> Seq<char>
    decreases filters.len(),
{
    if filters.len() == 0 {
        ""@
    } else {
        let f = filters.last();
        if text_or_empty(f.text_of("filterType"@)) == kind && f.text_of(field) is Some {
            f.text_of(field)->0
        } else {
            filter_text(filters.drop_last(), kind, field)
        }
    }
}

/// Looks up the text `field` of the last filter of the given kind that has one.
pub fn filter_field<'a>(filters: &'a Vec<Json>, kind: &str, field: &str) -> (r: &'a str)
    ensures
        r@ == filter_text(items_view(filters@), kind@, field@),
{
    let ghost all = items_view(filters@);
    proof {
        lemma_items_view(filters@);
        assert(all.take(all.len() as int) =~= all);
    }
    let mut n: usize = filters.len();
    while n > 0
        invariant
            n <= filters@.len(),
            all.len() == filters@.len(),
            forall|j: int| 0 <= j < filters@.len() ==> #[trigger] all[j] == filters@[j]@,
            filter_text(all, kind@, field@) == filter_text(all.take(n as int), kind@, field@),
            all == items_view(filters@),
        decreases n,
    {
        let f = &filters[n - 1];
        assert(all.take(n as int).last() == f@);
        assert(all.take(n as int).drop_last() =~= all.take(n as int - 1));
        if same_text(text_or_default(f, "filterType"), kind) {
            match f.text_at(field) {
                Some(t) => {
                    return t;
                },
                None => {},
            }
        }
        n = n - 1;
    }
    ""
}

/// A row with the tick and the step as decimal texts. It is skipped where one of them is missing, no
/// number or not positive.
pub open spec fn sized_row(
    exchange: Exchange,
    market_type: MarketType,
    quote: Quote,
    symbol: Seq<char>,
    tick: Seq<char>,
    step: Seq<char>,
) -> RowView {
    let price_scale = significant_decimals(encode_utf8(tick));
    let qty_scale = significant_decimals(encode_utf8(step));
    if tick.len() == 0 || step.len() == 0 {
        RowView::Skip
    } else {
        match scaled(tick, price_scale) {
            Err(_) => RowView::Skip,
            Ok(tick_size) => match scaled(step, qty_scale) {
                Err(_) => RowView::Skip,
                Ok(step_size) => if tick_size <= 0 || step_size <= 0 {
                    RowView::Skip
                } else {
                    RowView::Keep(
                        SpecView {
                            exchange,
                            market_type,
                            quote,
                            symbol,
                            price_scale,
                            qty_scale,
                            tick_size,
                            step_size,
                        },
                    )
                },
            },
        }
    }
}

/// Makes a row from the tick and the step as decimal texts.
pub fn read_sized(
    exchange: Exchange,
    market_type: MarketType,
    quote: Quote,
    symbol: String,
    tick: &str,
    step: &str,
) -> (r: Row)
    ensures
        r@ == sized_row(exchange, market_type, quote, symbol@, tick@, step@),
{
    if tick.is_empty() || step.is_empty() {
        return Row::Skip;
    }
    let price_scale: u8 = count_decimals_trimmed(tick);
    let qty_scale: u8 = count_decimals_trimmed(step);
    let tick_size: i64 = match parse_scaled(tick, price_scale) {
        Ok(v) => v,
        Err(_) => {
            return Row::Skip;
        },
    };
    let step_size: i64 = match parse_scaled(step, qty_scale) {
        Ok(v) => v,
        Err(_) => {
            return Row::Skip;
        },
    };
    if tick_size <= 0 || step_size <= 0 {
        return Row::Skip;
    }
    Row::Keep(
        SymbolSpec {
            exchange,
            market_type,
            quote,
            symbol,
            price_scale,
            qty_scale,
            tick_size,
            step_size,
        },
    )
}

/// The value, or 1 where there is none or it is below 1.
pub open spec fn at_least_one(x: Option<i64>) -> i64 {
    match x {
        Some(n) => if n > 1 {
            n
        } else {
            1
        },
        None => 1,
    }
}

pub fn one_or_more(x: Option<i64>) -> (r: i64)
    ensures
        r == at_least_one(x),
{
    match x {
        Some(n) => if n > 1 {
            n
        } else {
            1
        },
        None => 1,
    }
}

/// A kept row whose sizes come to at least one unit.
pub open spec fn has_sizes(s: SpecView) -> bool {
    s.tick_size >= 1 && s.step_size >= 1
}

/// A listing whose rows all have sizes keeps only instruments with sizes.
pub proof fn lemma_gathered_sizes(items: Seq<JsonView>, row: spec_fn(JsonView) -> RowView)
    requires
        forall|v: JsonView| #[trigger] row(v) is Keep ==> has_sizes(row(v)->Keep_0),
    ensures
        gathered(items, row) is Ok ==> forall|i: int|
            0 <= i < gathered(items, row)->Ok_0.len() ==> has_sizes(
                #[trigger] gathered(items, row)->Ok_0[i],
            ),
        gathered(items, row) is Ok ==> gathered(items, row)->Ok_0.len() <= items.len(),
    decreases items.len(),
{
    if items.len() > 0 {
        lemma_gathered_sizes(items.drop_last(), row);
    }
}

/// One instrument and the text of its volume over 24 hours.
pub type VolumeView = (Seq<char>, Seq<char>);

/// The instruments and volumes of the rows that have both, in order.
pub open spec fn volumes(
    items: Seq<JsonView>,
    row: spec_fn(JsonView) -> Option<VolumeView>,
) -> Seq<VolumeView>
    decreases items.len(),
{
    if items.len() == 0 {
        Seq::empty()
    } else {
        match row(items.last()) {
            Some(p) => volumes(items.drop_last(), row).push(p),
            None => volumes(items.drop_last(), row),
        }
    }
}

/// The views of instruments and volumes.
pub open spec fn volume_views(v: Seq<(String, String)>) -> Seq<VolumeView> {
    v.map_values(|p: (String, String)| (p.0@, p.1@))
}

/// What a function that reads volumes returns.
pub open spec fn volumes_outcome(r: Result<Vec<(String, String)>, ExchangeError>) -> Result<
    Seq<VolumeView>,
    ErrorView,
> {
    match r {
        Ok(v) => Ok(volume_views(v@)),
        Err(e) => Err(e@),
    }
}

/// How one venue reads a row of its volumes.
pub trait VolumeReader {
    /// The instrument and the volume of a row, where it has both.
    spec fn volume_view(&self, v: JsonView) -> Option<VolumeView>;

    fn read(&self, v: &Json) -> (r: Option<(String, String)>)
        ensures
            (match r {
                Some(p) => Some((p.0@, p.1@)),
                None => None,
            }) == self.volume_view(v@),
    ;
}

/// Reads the rows of a list of volumes.
pub fn gather_volumes<R: VolumeReader>(reader: &R, items: &Vec<Json>) -> (r: Vec<(String, String)>)
    ensures
        volume_views(r@) == volumes(items_view(items@), |v: JsonView| reader.volume_view(v)),
{
    let ghost row = |v: JsonView| reader.volume_view(v);
    let ghost rows = items_view(items@);
    proof {
        lemma_items_view(items@);
    }
    let mut out: Vec<(String, String)> = Vec::new();
    let mut i: usize = 0;
    assert(volume_views(out@) =~= Seq::<VolumeView>::empty());
    while i < items.len()
        invariant
            i <= items@.len(),
            rows.len() == items@.len(),
            row == (|v: JsonView| reader.volume_view(v)),
            forall|j: int| 0 <= j < items@.len() ==> #[trigger] rows[j] == items@[j]@,
            volume_views(out@) == volumes(rows.take(i as int), row),
        decreases items@.len() - i,
    {
        let ghost next = rows.take(i as int + 1);
        assert(next.drop_last() =~= rows.take(i as int));
        assert(next.last() == items@[i as int]@);
        match reader.read(&items[i]) {
            Some(p) => {
                let ghost before = out@;
                out.push(p);
                assert(volume_views(out@) =~= volume_views(before).push((p.0@, p.1@)));
            },
            None => {},
        }
        i = i + 1;
    }
    assert(rows.take(i as int) =~= rows);
    out
}

/// The texts of two members of a row, where it has both.
pub open spec fn text_pair(v: JsonView, name: Seq<char>, volume: Seq<char>) -> Option<VolumeView> {
    match v.text_of(name) {
        Some(a) => match v.text_of(volume) {
            Some(b) => Some((a, b)),
            None => None,
        },
        None => None,
    }
}

/// The instrument and the volume of a row with the members "symbol" and "quoteVolume".
pub struct QuoteVolumes;

impl VolumeReader for QuoteVolumes {
    open spec fn volume_view(&self, v: JsonView) -> Option<VolumeView> {
        text_pair(v, "symbol"@, "quoteVolume"@)
    }

    fn read(&self, v: &Json) -> (r: Option<(String, String)>) {
        match v.text_at("symbol") {
            Some(a) => match v.text_at("quoteVolume") {
                Some(b) => Some((a.to_owned(), b.to_owned())),
                None => None,
            },
            None => None,
        }
    }
}

/// The volumes of a list whose rows have the members "symbol" and "quoteVolume".
pub open spec fn quote_volumes(list: Result<Seq<JsonView>, Seq<char>>) -> Result<
    Seq<VolumeView>,
    ErrorView,
> {
    match list {
        Ok(items) => Ok(volumes(items, |v: JsonView| text_pair(v, "symbol"@, "quoteVolume"@))),
        Err(m) => Err(ErrorView::Parse(m)),
    }
}

/// Reads the volumes of rows that have the members "symbol" and "quoteVolume". A row without one of
/// them is skipped; a volume stays a text.
pub fn read_quote_volumes(items: &Vec<Json>) -> (r: Vec<(String, String)>)
    ensures
        Ok::<Seq<VolumeView>, ErrorView>(volume_views(r@)) == quote_volumes(Ok(items_view(items@))),
{
    let reader = QuoteVolumes;
    assert((|v: JsonView| reader.volume_view(v)) =~= (|v: JsonView|
        text_pair(v, "symbol"@, "quoteVolume"@)));
    gather_volumes(&reader, items)
}

/// Reads the body of a list of volumes.
pub fn parse_quote_volumes(json: &str) -> (r: Result<Vec<(String, String)>, ExchangeError>)
    ensures
        volumes_outcome(r) == quote_volumes(json_list(json.spec_bytes())),
{
    match parse_json_list(json.as_bytes()) {
        Ok(items) => Ok(read_quote_volumes(&items)),
        Err(m) => Err(ExchangeError::Parse(m)),
    }
}

/// The error of a response whose status is no success.
pub fn http_failure(status: &str, body: &str) -> (r: ExchangeError)
    ensures
        r@ == ErrorView::Network("HTTP "@ + status@ + ": "@ + body@),
{
    ExchangeError::Network("HTTP ".to_owned().concat(status).concat(": ").concat(body))
}

/// What two rows of a listing one behind the other keep is what the first keeps and then what the
/// second keeps; a row that is refused refuses all, the first one with its reason.
pub proof fn law_rows_add_up(
    a: Seq<JsonView>,
    b: Seq<JsonView>,
    row: spec_fn(JsonView) -> RowView,
    v: JsonView,
)
    ensures
        gathered(a + b, row) == match (gathered(a, row), gathered(b, row)) {
            (Err(e), _) => Err::<Seq<SpecView>, ErrorView>(e),
            (Ok(_), Err(e)) => Err(e),
            (Ok(x), Ok(y)) => Ok(x + y),
        },
        gathered(Seq::empty(), row) == Ok::<Seq<SpecView>, ErrorView>(Seq::empty()),
        row(v) is Skip ==> gathered(seq![v], row) == Ok::<Seq<SpecView>, ErrorView>(Seq::empty()),
        row(v) is Keep ==> gathered(seq![v], row) == Ok::<Seq<SpecView>, ErrorView>(
            seq![row(v)->Keep_0],
        ),
        row(v) is Fail ==> gathered(seq![v], row) == Err::<Seq<SpecView>, ErrorView>(row(v)->Fail_0),
    decreases b.len(),
{
    let one = seq![v];
    assert(one.drop_last() =~= Seq::<JsonView>::empty());
    assert(one.last() == v);
    assert(Seq::<SpecView>::empty().push(row(v)->Keep_0) =~= seq![row(v)->Keep_0]);
    if b.len() == 0 {
        assert(a + b =~= a);
        assert(b =~= Seq::<JsonView>::empty());
        match gathered(a, row) {
            Ok(x) => assert(x + Seq::<SpecView>::empty() =~= x),
            Err(_) => {},
        }
    } else {
        law_rows_add_up(a, b.drop_last(), row, v);
        assert((a + b).drop_last() =~= a + b.drop_last());
        assert((a + b).last() == b.last());
        match (gathered(a, row), gathered(b.drop_last(), row), row(b.last())) {
            (Ok(x), Ok(y), RowView::Keep(t)) => assert((x + y).push(t) =~= x + y.push(t)),
            _ => {},
        }
    }
}

/// The volumes of two rows of entries one behind the other are those of the first and then those of the
/// second; an entry that has no volume is passed over.
pub proof fn law_volumes_add_up(
    a: Seq<JsonView>,
    b: Seq<JsonView>,
    row: spec_fn(JsonView) -> Option<VolumeView>,
    v: JsonView,
)
    ensures
        volumes(a + b, row) == volumes(a, row) + volumes(b, row),
        row(v) is Some ==> volumes(seq![v], row) == seq![row(v)->0],
        row(v) is None ==> volumes(seq![v], row) == Seq::<VolumeView>::empty(),
    decreases b.len(),
{
    let one = seq![v];
    assert(one.drop_last() =~= Seq::<JsonView>::empty());
    assert(one.last() == v);
    assert(volumes(one.drop_last(), row) =~= Seq::<VolumeView>::empty());
    assert(Seq::<VolumeView>::empty().push(row(v)->0) =~= seq![row(v)->0]);
    if b.len() == 0 {
        assert(a + b =~= a);
        assert(volumes(a, row) + volumes(b, row) =~= volumes(a, row));
    } else {
        law_volumes_add_up(a, b.drop_last(), row, v);
        assert((a + b).drop_last() =~= a + b.drop_last());
        assert((a + b).last() == b.last());
        assert(volumes(a + b, row) =~= volumes(a, row) + volumes(b, row));
    }
}

/// An entry has a volume exactly where it has both texts, and then it is those two.
pub proof fn law_volume_is_that_of_the_symbol(
    v: JsonView,
    name: Seq<char>,
    volume: Seq<char>,
    p: VolumeView,
)
    ensures
        text_pair(v, name, volume) == Some(p) <==> v.text_of(name) == Some(p.0) && v.text_of(volume)
            == Some(p.1),
{
}

/// The filter has the kind and the field.
pub open spec fn has_field(f: JsonView, kind: Seq<char>, field: Seq<char>) -> bool {
    f.text_of("filterType"@) == Some(kind) && f.text_of(field) is Some
}

/// The text of a field is that of the last filter of its kind that has it, and empty where none has.
pub proof fn law_last_filter_counts(
    filters: Seq<JsonView>,
    kind: Seq<char>,
    field: Seq<char>,
    i: int,
)
    requires
        kind.len() > 0,
    ensures
        0 <= i < filters.len() && has_field(filters[i], kind, field) && (forall|j: int|
            i < j < filters.len() ==> !has_field(#[trigger] filters[j], kind, field))
            ==> Some(filter_text(filters, kind, field)) == filters[i].text_of(field),
        (forall|j: int| 0 <= j < filters.len() ==> !has_field(#[trigger] filters[j], kind, field))
            ==> filter_text(filters, kind, field).len() == 0,
    decreases filters.len(),
{
    reveal_strlit("");
    if filters.len() > 0 {
        let init = filters.drop_last();
        let n = filters.len() - 1;
        law_last_filter_counts(init, kind, field, i);
        assert(filters[n] == filters.last());
        assert forall|j: int| 0 <= j < n implies #[trigger] init[j] == filters[j] by {
        }
        if forall|j: int| 0 <= j < filters.len() ==> !has_field(#[trigger] filters[j], kind, field) {
            assert(!has_field(filters[n], kind, field));
            assert forall|j: int| 0 <= j < init.len() implies !has_field(
                #[trigger] init[j],
                kind,
                field,
            ) by {
                assert(!has_field(filters[j], kind, field));
            }
        }
        if 0 <= i < n && has_field(filters[i], kind, field) && (forall|j: int|
            i < j < filters.len() ==> !has_field(#[trigger] filters[j], kind, field)) {
            assert(!has_field(filters[n], kind, field));
            assert forall|j: int| i < j < init.len() implies !has_field(
                #[trigger] init[j],
                kind,
                field,
            ) by {
                assert(!has_field(filters[j], kind, field));
            }
        }
    }
}

/// An instrument is listed with the given venue, market, quote and symbol, and with the tick and the
/// step that its texts say at their own scales; it is left out exactly where one of them is
/// missing, no number, or zero.
pub proof fn law_sizes_are_those_of_the_texts(
    exchange: Exchange,
    market_type: MarketType,
    quote: Quote,
    symbol: Seq<char>,
    tick: Seq<char>,
    step: Seq<char>,
)
    ensures
        ({
            let r = sized_row(exchange, market_type, quote, symbol, tick, step);
            let (p, q) = (
                significant_decimals(encode_utf8(tick)),
                significant_decimals(encode_utf8(step)),
            );
            &&& r is Keep ==> {
                let s = r->Keep_0;
                &&& (s.exchange, s.market_type, s.quote, s.symbol) == (
                    exchange,
                    market_type,
                    quote,
                    symbol,
                )
                &&& (s.price_scale, s.qty_scale) == (p, q)
                &&& scaled(tick, s.price_scale) == Ok::<i64, Seq<char>>(s.tick_size)
                &&& scaled(step, s.qty_scale) == Ok::<i64, Seq<char>>(s.step_size)
            }
            &&& !(r is Fail)
            &&& r is Keep <==> {
                &&& tick.len() > 0 && scaled(tick, p) is Ok && scaled(tick, p)->Ok_0 > 0
                &&& step.len() > 0 && scaled(step, q) is Ok && scaled(step, q)->Ok_0 > 0
            }
        }),
{
}

/// The quotes are named by their own words, and nothing else is one.
pub proof fn law_quotes_are_named(s: Option<Seq<char>>)
    ensures
        quote_named(s) == Some(Quote::Usdt) <==> s == Some("USDT"@),
        quote_named(s) == Some(Quote::Usdc) <==> s == Some("USDC"@),
{
    reveal_strlit("USDT");
    reveal_strlit("USDC");
    assert("USDT"@[3] == 'T' && "USDC"@[3] == 'C');
}

/// A listing holds exactly what its rows keep.
pub proof fn law_listing_holds_what_is_kept(
    items: Seq<JsonView>,
    row: spec_fn(JsonView) -> RowView,
    s: SpecView,
)
    requires
        gathered(items, row) is Ok,
    ensures
        gathered(items, row)->Ok_0.contains(s) <==> exists|i: int|
            0 <= i < items.len() && row(#[trigger] items[i]) == RowView::Keep(s),
        forall|i: int| 0 <= i < items.len() ==> !(row(#[trigger] items[i]) is Fail),
    decreases items.len(),
{
    if items.len() > 0 {
        let init = items.drop_last();
        let last = items.last();
        let n = items.len() - 1;
        law_listing_holds_what_is_kept(init, row, s);
        let (x, y) = (gathered(init, row)->Ok_0, gathered(items, row)->Ok_0);
        assert(items[n] == last);
        assert forall|i: int| 0 <= i < n implies #[trigger] items[i] == init[i] by {
        }
        if x.contains(s) {
            let k = x.index_of(s);
            assert(y[k] == s);
            let i = choose|i: int|
                0 <= i < init.len() && row(#[trigger] init[i]) == RowView::Keep(s);
            assert(row(items[i]) == RowView::Keep(s));
        }
        if row(last) == RowView::Keep(s) {
            assert(y[y.len() - 1] == s);
            assert(row(items[n]) == RowView::Keep(s));
        }
        if y.contains(s) && !x.contains(s) {
            let k = y.index_of(s);
            if k < x.len() {
                assert(x[k] == s);
            }
            assert(row(items[n]) == RowView::Keep(s));
        }
        if exists|i: int| 0 <= i < items.len() && row(#[trigger] items[i]) == RowView::Keep(s) {
            let i = choose|i: int|
                0 <= i < items.len() && row(#[trigger] items[i]) == RowView::Keep(s);
            if i < n {
                assert(row(init[i]) == RowView::Keep(s));
            }
        }
        assert forall|i: int| 0 <= i < items.len() implies !(row(#[trigger] items[i]) is Fail) by {
            if i < n {
                assert(!(row(init[i]) is Fail));
            }
        }
    }
}

} // verus!
