//! Stored bars over a range of time: the query, and what its answer comes to.

use vstd::prelude::*;
use vstd::string::*;
use vstd::utf8::*;

use crate::json::{
    json_document, lemma_items_view, parse_json, Json, JsonNumber, JsonView, NumberView,
};
use crate::retention::{law_quoting_is_reversible, quoted, sql_escape_single};
use crate::text::{
    chars_of, decimal, decimal_int, holds_text, i64_text, i64_value, joined, law_i64_round_trip,
    lemma_holds_text, lines, parse_i64, parse_u32, same_text, split_lines, sub_chars, text_of,
    u32_value, u64_text, views,
};
use crate::timeframes::{is_supported_interval, supported, table_name, table_name_for};
use crate::url::{query_target, query_url};

verus! {

/// Most rows in one answer.
pub const MAX_BARS: u64 = 500_000;

/// Rows that one window is taken to hold in an estimate.
pub const BUCKETS_PER_WINDOW: u64 = 50;

/// A range of stored bars of one instrument, from `from_ms` up to but not including `to_ms`.
#[derive(Debug)]
pub struct RangeParams {
    pub exchange: String,
    pub market_type: String,
    pub symbol: String,
    pub interval_seconds: u32,
    pub from_ms: i64,
    pub to_ms: i64,
}

/// What `RangeParams` say.
pub struct ParamsView {
    pub exchange: Seq<char>,
    pub market_type: Seq<char>,
    pub symbol: Seq<char>,
    pub interval_seconds: u32,
    pub from_ms: i64,
    pub to_ms: i64,
}

impl View for RangeParams {
    type V = ParamsView;

    open spec fn view(&self) -> ParamsView {
        ParamsView {
            exchange: self.exchange@,
            market_type: self.market_type@,
            symbol: self.symbol@,
            interval_seconds: self.interval_seconds,
            from_ms: self.from_ms,
            to_ms: self.to_ms,
        }
    }
}

/// Doubles the single quotes of a text.
pub fn sql_escape(s: &str) -> (r: String)
    ensures
        r@ == quoted(s@),
{
    sql_escape_single(s)
}

/// The condition on the rows, part 1.
pub const FILTER_1: &'static str = "' AND window_start >= fromUnixTimestamp64Milli(";

/// The condition on the rows, part 2.
pub const FILTER_2: &'static str = ") AND window_start <  fromUnixTimestamp64Milli(";

/// The query that reads a table as it is, part 1.
pub const DIRECT_1: &'static str =
    "SELECT toUnixTimestamp64Milli(t.window_start) AS ts_ms, t.price, t.bid_qty, t.ask_qty, \
    t.trades, w.ps, w.qs, w.o, w.c, w.h, w.l FROM ";

/// The query that reads a table as it is, part 2.
pub const DIRECT_2: &'static str =
    " AS t FINAL INNER JOIN ( SELECT window_start, maxIf(price_scale, price_scale > 0) AS \
    ps, maxIf(qty_scale, qty_scale > 0)     AS qs, maxIf(open, open > 0)               AS \
    o, argMaxIf(close, ingested_at, close > 0) AS c, maxIf(high, high > 0)               AS \
    h, minIf(low, low > 0)                 AS l FROM ";

/// The query that reads a table as it is, part 3.
pub const DIRECT_3: &'static str =
    " GROUP BY window_start ) AS w ON t.window_start = w.window_start WHERE ";

/// The query that reads a table as it is, part 4.
pub const DIRECT_4: &'static str = " ORDER BY t.window_start, t.price FORMAT JSONCompactEachRow";

/// The query that rolls one-minute bars up, part 1.
pub const ROLLUP_1: &'static str =
    "SELECT toUnixTimestamp(b.rw) * 1000 AS ts_ms, b.price, b.bid_qty, b.ask_qty, b.trades, \
    b.ps, b.qs, w.o, w.c, w.h, w.l FROM ( SELECT toStartOfInterval(window_start, INTERVAL ";

/// The query that rolls one-minute bars up, part 2.
pub const ROLLUP_2: &'static str =
    " SECOND, 'UTC') AS rw, price, sum(bid_qty) AS bid_qty, sum(ask_qty) AS ask_qty, \
    sum(trades) AS trades, maxIf(price_scale, price_scale > 0) AS ps, maxIf(qty_scale, \
    qty_scale > 0) AS qs FROM ";

/// The query that rolls one-minute bars up, part 3.
pub const ROLLUP_3: &'static str =
    " GROUP BY rw, price ) AS b INNER JOIN ( SELECT rw, argMinIf(sub_open,  sub_ws, \
    sub_open  > 0) AS o, argMaxIf(sub_close, sub_ws, sub_close > 0) AS c, maxIf(sub_high, \
    sub_high > 0) AS h, minIf(sub_low,  sub_low  > 0) AS l FROM ( SELECT \
    toStartOfInterval(window_start, INTERVAL ";

/// The query that rolls one-minute bars up, part 4.
pub const ROLLUP_4: &'static str = " SECOND, 'UTC') AS rw, window_start AS sub_ws, maxIf(open, open > \
    0)                    AS sub_open, argMaxIf(close, ingested_at, close > 0) AS \
    sub_close, maxIf(high, high > 0)                    AS sub_high, minIf(low, low > \
    0)                      AS sub_low FROM ";

/// The query that rolls one-minute bars up, part 5.
pub const ROLLUP_5: &'static str =
    " GROUP BY rw, window_start ) GROUP BY rw ) AS w ON b.rw = w.rw ORDER BY ts_ms, b.price \
    FORMAT JSONCompactEachRow";

/// The condition that picks the rows of a range.
pub open spec fn range_filter(q: ParamsView) -> Seq<char> {
    "exchange = '"@ + quoted(q.exchange) + "' AND market_type = '"@ + quoted(q.market_type)
        + "' AND symbol = '"@ + quoted(q.symbol) + FILTER_1@ + decimal_int(q.from_ms as int)
        + FILTER_2@ + decimal_int(q.to_ms as int) + ")"@
}

/// The query of a range. Bars of 30 seconds and of one minute have tables of their own; longer bars
/// are rolled up from those of one minute. Both ways give the same eleven columns.
pub open spec fn range_sql(db: Seq<char>, q: ParamsView) -> Seq<char> {
    if q.interval_seconds == 30 || q.interval_seconds == 60 {
        DIRECT_1@ + db + "."@ + table_name(q.interval_seconds) + DIRECT_2@ + db + "."@
            + table_name(q.interval_seconds) + " FINAL WHERE "@ + range_filter(q) + DIRECT_3@
            + range_filter(q) + DIRECT_4@
    } else {
        ROLLUP_1@ + decimal(q.interval_seconds as nat) + ROLLUP_2@ + db + "."@ + table_name(60)
            + " FINAL WHERE "@ + range_filter(q) + ROLLUP_3@ + decimal(q.interval_seconds as nat)
            + ROLLUP_4@ + db + "."@ + table_name(60) + " FINAL WHERE "@ + range_filter(q)
            + ROLLUP_5@
    }
}

/// Makes the query of a range.
pub fn build_range_sql(db: &str, q: &RangeParams) -> (r: String)
    ensures
        r@ == range_sql(db@, q@),
{
    let ex = sql_escape(q.exchange.as_str());
    let mt = sql_escape(q.market_type.as_str());
    let sym = sql_escape(q.symbol.as_str());
    let from = i64_text(q.from_ms);
    let to = i64_text(q.to_ms);
    let filter = "exchange = '".to_owned().concat(ex.as_str()).concat("' AND market_type = '")
        .concat(mt.as_str()).concat("' AND symbol = '").concat(sym.as_str()).concat(FILTER_1)
        .concat(from.as_str()).concat(FILTER_2).concat(to.as_str()).concat(")");
    if q.interval_seconds == 30 || q.interval_seconds == 60 {
        let table = table_name_for(q.interval_seconds);
        DIRECT_1.to_owned().concat(db).concat(".").concat(table.as_str()).concat(DIRECT_2)
            .concat(db).concat(".").concat(table.as_str()).concat(" FINAL WHERE ")
            .concat(filter.as_str()).concat(DIRECT_3).concat(filter.as_str()).concat(DIRECT_4)
    } else {
        let n = u64_text(q.interval_seconds as u64);
        let base = table_name_for(60);
        ROLLUP_1.to_owned().concat(n.as_str()).concat(ROLLUP_2).concat(db).concat(".")
            .concat(base.as_str()).concat(" FINAL WHERE ").concat(filter.as_str())
            .concat(ROLLUP_3).concat(n.as_str()).concat(ROLLUP_4).concat(db).concat(".")
            .concat(base.as_str()).concat(" FINAL WHERE ").concat(filter.as_str())
            .concat(ROLLUP_5)
    }
}

/// The URL that asks ClickHouse for a range.
pub fn range_url(ch_url: &str, db: &str, q: &RangeParams) -> (r: String)
    ensures
        r@ == query_target(ch_url@, range_sql(db@, q@)),
{
    query_url(ch_url, build_range_sql(db, q).as_str())
}

/// An ASCII letter or digit.
pub open spec fn is_alphanumeric(c: char) -> bool {
    'A' <= c <= 'Z' || 'a' <= c <= 'z' || '0' <= c <= '9'
}

/// All characters are ASCII letters, digits or, where `marks` allows them, `_` and `-`.
pub open spec fn is_name(s: Seq<char>, marks: bool) -> bool {
    forall|i: int|
        0 <= i < s.len() ==> is_alphanumeric(#[trigger] s[i]) || (marks && (s[i] == '_' || s[i]
            == '-'))
}

fn name_only(s: &str, marks: bool) -> (r: bool)
    ensures
        r == is_name(s@, marks),
{
    let cs = chars_of(s);
    let mut i: usize = 0;
    while i < cs.len()
        invariant
            i <= cs@.len(),
            cs@ == s@,
            forall|j: int|
                0 <= j < i ==> is_alphanumeric(#[trigger] s@[j]) || (marks && (s@[j] == '_' || s@[j]
                    == '-')),
        decreases cs@.len() - i,
    {
        let c = cs[i];
        let letter = ('A' <= c && c <= 'Z') || ('a' <= c && c <= 'z') || ('0' <= c && c <= '9');
        if !letter && !(marks && (c == '_' || c == '-')) {
            assert(!is_alphanumeric(s@[i as int]));
            return false;
        }
        i = i + 1;
    }
    true
}

/// The text is empty or longer than 32 bytes.
pub open spec fn bad_length(s: Seq<char>) -> bool {
    s.len() == 0 || encode_utf8(s).len() > 32
}

fn has_bad_length(s: &str) -> (r: bool)
    ensures
        r == bad_length(s@),
{
    s.is_empty() || s.as_bytes().len() > 32
}

/// What is wrong with a range, where something is.
pub open spec fn params_fault(q: ParamsView) -> Option<Seq<char>> {
    if bad_length(q.symbol) {
        Some("symbol: required, max 32 chars"@)
    } else if !is_name(q.symbol, true) {
        Some("symbol: ASCII alphanumeric + _- only"@)
    } else if q.market_type != "spot"@ && q.market_type != "perp"@ {
        Some("market_type: 'spot' | 'perp'"@)
    } else if bad_length(q.exchange) {
        Some("exchange: required, max 32 chars"@)
    } else if !is_name(q.exchange, false) {
        Some("exchange: ASCII alphanumeric only (e.g. BINANCEF)"@)
    } else if !supported(q.interval_seconds) {
        Some(
            "interval_seconds: "@ + decimal(q.interval_seconds as nat)
                + " not supported; use one of 30/60/300/900/3600/14400/86400"@,
        )
    } else if q.from_ms < 0 || q.to_ms < 0 {
        Some("from_ms/to_ms: must be >= 0"@)
    } else if q.to_ms <= q.from_ms {
        Some("to_ms must be > from_ms"@)
    } else {
        None
    }
}

/// Refuses a range that names no instrument, no table or no time.
pub fn validate_params(q: &RangeParams) -> (r: Result<(), String>)
    ensures
        (match r {
            Ok(_) => None,
            Err(m) => Some(m@),
        }) == params_fault(q@),
{
    if has_bad_length(q.symbol.as_str()) {
        return Err("symbol: required, max 32 chars".to_owned());
    }
    if !name_only(q.symbol.as_str(), true) {
        return Err("symbol: ASCII alphanumeric + _- only".to_owned());
    }
    if !same_text(q.market_type.as_str(), "spot") && !same_text(q.market_type.as_str(), "perp") {
        return Err("market_type: 'spot' | 'perp'".to_owned());
    }
    if has_bad_length(q.exchange.as_str()) {
        return Err("exchange: required, max 32 chars".to_owned());
    }
    if !name_only(q.exchange.as_str(), false) {
        return Err("exchange: ASCII alphanumeric only (e.g. BINANCEF)".to_owned());
    }
    if !is_supported_interval(q.interval_seconds) {
        let n = u64_text(q.interval_seconds as u64);
        return Err(
            "interval_seconds: ".to_owned().concat(n.as_str()).concat(
                " not supported; use one of 30/60/300/900/3600/14400/86400",
            ),
        );
    }
    if q.from_ms < 0 || q.to_ms < 0 {
        return Err("from_ms/to_ms: must be >= 0".to_owned());
    }
    if q.to_ms <= q.from_ms {
        return Err("to_ms must be > from_ms".to_owned());
    }
    Ok(())
}

/// The windows of a range times the rows that one is taken to hold, up to `u64::MAX`.
pub open spec fn estimated_rows(q: ParamsView) -> u64 {
    let span = if q.to_ms > q.from_ms {
        q.to_ms - q.from_ms
    } else {
        0
    };
    let tf = if q.interval_seconds == 0 {
        1
    } else {
        q.interval_seconds * 1000
    };
    let rows = (span / tf) * BUCKETS_PER_WINDOW;
    if rows > u64::MAX {
        u64::MAX
    } else {
        rows as u64
    }
}

/// Estimates the rows of a range.
pub fn estimate_max_rows(q: &RangeParams) -> (r: u64)
    requires
        i64::MIN <= q.to_ms - q.from_ms <= i64::MAX,
    ensures
        r == estimated_rows(q@),
{
    let span: u64 = if q.to_ms > q.from_ms {
        (q.to_ms - q.from_ms) as u64
    } else {
        0
    };
    let tf: u64 = if q.interval_seconds == 0 {
        1
    } else {
        q.interval_seconds as u64 * 1000
    };
    let windows: u64 = span / tf;
    match windows.checked_mul(BUCKETS_PER_WINDOW) {
        Some(n) => n,
        None => u64::MAX,
    }
}

/// How a request is answered before ClickHouse is asked.
#[derive(Debug)]
pub enum RangeCheck {
    /// The request goes on.
    Go,
    /// The request is malformed.
    BadRequest(String),
    /// The answer would be too large.
    TooLarge(String),
}

/// What a `RangeCheck` says.
pub enum RangeCheckView {
    Go,
    BadRequest(Seq<char>),
    TooLarge(Seq<char>),
}

impl View for RangeCheck {
    type V = RangeCheckView;

    open spec fn view(&self) -> RangeCheckView {
        match self {
            RangeCheck::Go => RangeCheckView::Go,
            RangeCheck::BadRequest(m) => RangeCheckView::BadRequest(m@),
            RangeCheck::TooLarge(m) => RangeCheckView::TooLarge(m@),
        }
    }
}

/// What a request comes to before ClickHouse is asked.
pub open spec fn range_check(q: ParamsView) -> RangeCheckView {
    match params_fault(q) {
        Some(m) => RangeCheckView::BadRequest(m),
        None => if estimated_rows(q) > MAX_BARS {
            RangeCheckView::TooLarge(
                "estimated rows ("@ + decimal(estimated_rows(q) as nat) + ") exceed cap ("@
                    + decimal(MAX_BARS as nat)
                    + "); narrow the range or use a larger interval_seconds"@,
            )
        } else {
            RangeCheckView::Go
        },
    }
}

/// Refuses a malformed request and one whose answer would be too large.
pub fn check_range(q: &RangeParams) -> (r: RangeCheck)
    ensures
        r@ == range_check(q@),
{
    match validate_params(q) {
        Err(m) => {
            return RangeCheck::BadRequest(m);
        },
        Ok(_) => {},
    }
    let rows: u64 = estimate_max_rows(q);
    if rows > MAX_BARS {
        let estimate = u64_text(rows);
        let cap = u64_text(MAX_BARS);
        return RangeCheck::TooLarge(
            "estimated rows (".to_owned().concat(estimate.as_str()).concat(
                ") exceed cap (",
            ).concat(cap.as_str()).concat(
                "); narrow the range or use a larger interval_seconds",
            ),
        );
    }
    RangeCheck::Go
}

/// A request that goes on can hold no quote in its texts, has a table, and asks for a range of time
/// that is not empty.
pub proof fn law_checked_range(q: ParamsView)
    requires
        range_check(q) is Go,
    ensures
        !q.symbol.contains('\''),
        !q.exchange.contains('\''),
        quoted(q.symbol) == q.symbol,
        quoted(q.exchange) == q.exchange,
        supported(q.interval_seconds),
        0 <= q.from_ms < q.to_ms,
        estimated_rows(q) <= MAX_BARS,
{
    lemma_no_quote(q.symbol, true);
    lemma_no_quote(q.exchange, false);
}

proof fn lemma_no_quote(s: Seq<char>, marks: bool)
    requires
        is_name(s, marks),
    ensures
        !s.contains('\''),
        quoted(s) == s,
    decreases s.len(),
{
    if s.contains('\'') {
        let i = s.index_of('\'');
        assert(is_alphanumeric(s[i]) || s[i] == '_' || s[i] == '-');
    }
    if s.len() > 0 {
        let init = s.drop_last();
        assert forall|i: int| 0 <= i < init.len() implies is_alphanumeric(#[trigger] init[i]) || (
        marks && (init[i] == '_' || init[i] == '-')) by {
            assert(init[i] == s[i]);
        }
        lemma_no_quote(init, marks);
        assert(s.last() == s[s.len() - 1]);
        assert(init + seq![s.last()] =~= s);
    }
}

/// An integer that comes as a number or as a text.
pub open spec fn loose_i64(v: JsonView) -> Option<i64> {
    match v {
        JsonView::Number(_) => v.signed(),
        JsonView::Text(t) => i64_value(t),
        _ => None,
    }
}

/// A 32-bit unsigned integer that comes as a number or as a text.
pub open spec fn loose_u32(v: JsonView) -> Option<u32> {
    match v {
        JsonView::Number(NumberView::PosInt(n)) => if n <= u32::MAX {
            Some(n as u32)
        } else {
            None
        },
        JsonView::Text(t) => u32_value(t),
        _ => None,
    }
}

/// Reads an integer that comes as a number or as a text.
pub fn json_i64(v: &Json) -> (r: Option<i64>)
    ensures
        r == loose_i64(v@),
{
    match v {
        Json::Number(_) => v.as_i64(),
        Json::Text(t) => parse_i64(t.as_str()),
        _ => None,
    }
}

/// Reads a 32-bit unsigned integer that comes as a number or as a text.
pub fn json_u32(v: &Json) -> (r: Option<u32>)
    ensures
        r == loose_u32(v@),
{
    match v {
        Json::Number(JsonNumber::PosInt(n)) => if *n <= u32::MAX as u64 {
            Some(*n as u32)
        } else {
            None
        },
        Json::Text(t) => parse_u32(t.as_str()),
        _ => None,
    }
}

/// The answer to a range: parallel columns, one entry for each window and price, and one entry of
/// `windows` and its prices for each window.
#[derive(Debug)]
pub struct RangeResponse {
    pub interval_seconds: u32,
    pub symbol: String,
    pub exchange: String,
    pub market_type: String,
    pub price_scale: u8,
    pub qty_scale: u8,
    pub n: usize,
    pub window_start_ms: Vec<i64>,
    pub price: Vec<i64>,
    pub bid_qty: Vec<i64>,
    pub ask_qty: Vec<i64>,
    pub trades: Vec<u32>,
    pub windows_n: usize,
    pub windows: Vec<i64>,
    pub open: Vec<i64>,
    pub close: Vec<i64>,
    pub high: Vec<i64>,
    pub low: Vec<i64>,
}

/// The columns of an answer.
#[verifier::ext_equal]
pub struct RangeView {
    pub price_scale: u8,
    pub qty_scale: u8,
    pub window_start_ms: Seq<i64>,
    pub price: Seq<i64>,
    pub bid_qty: Seq<i64>,
    pub ask_qty: Seq<i64>,
    pub trades: Seq<u32>,
    pub windows: Seq<i64>,
    pub open: Seq<i64>,
    pub close: Seq<i64>,
    pub high: Seq<i64>,
    pub low: Seq<i64>,
}

impl View for RangeResponse {
    type V = RangeView;

    open spec fn view(&self) -> RangeView {
        RangeView {
            price_scale: self.price_scale,
            qty_scale: self.qty_scale,
            window_start_ms: self.window_start_ms@,
            price: self.price@,
            bid_qty: self.bid_qty@,
            ask_qty: self.ask_qty@,
            trades: self.trades@,
            windows: self.windows@,
            open: self.open@,
            close: self.close@,
            high: self.high@,
            low: self.low@,
        }
    }
}

impl RangeView {
    /// The columns of the rows have one length, those of the windows another, and no window is
    /// without a row.
    pub open spec fn wf(self) -> bool {
        &&& self.price.len() == self.window_start_ms.len()
        &&& self.bid_qty.len() == self.window_start_ms.len()
        &&& self.ask_qty.len() == self.window_start_ms.len()
        &&& self.trades.len() == self.window_start_ms.len()
        &&& self.open.len() == self.windows.len()
        &&& self.close.len() == self.windows.len()
        &&& self.high.len() == self.windows.len()
        &&& self.low.len() == self.windows.len()
        &&& self.windows.len() <= self.window_start_ms.len() <= MAX_BARS
        &&& self.window_start_ms.len() > 0 ==> self.windows.len() > 0 && self.windows.last()
            == self.window_start_ms.last()
    }
}

impl RangeResponse {
    /// The counts are the lengths of the columns.
    pub open spec fn wf(&self) -> bool {
        &&& self@.wf()
        &&& self.n == self.window_start_ms@.len()
        &&& self.windows_n == self.windows@.len()
    }
}

/// No rows.
pub open spec fn no_rows() -> RangeView {
    RangeView {
        price_scale: 0,
        qty_scale: 0,
        window_start_ms: Seq::empty(),
        price: Seq::empty(),
        bid_qty: Seq::empty(),
        ask_qty: Seq::empty(),
        trades: Seq::empty(),
        windows: Seq::empty(),
        open: Seq::empty(),
        close: Seq::empty(),
        high: Seq::empty(),
        low: Seq::empty(),
    }
}

/// A number of at most eight bits, the largest for a larger one.
pub open spec fn scale_of(v: JsonView, default: u8) -> u8 {
    match loose_u32(v) {
        Some(n) => if n > u8::MAX {
            u8::MAX
        } else {
            n as u8
        },
        None => default,
    }
}

/// The integer at an index of a row, zero where it is none.
pub open spec fn at_or_zero(a: Seq<JsonView>, i: int) -> i64 {
    match loose_i64(a[i]) {
        Some(n) => n,
        None => 0,
    }
}

/// A row has its five leading numbers.
pub open spec fn is_range_row(a: Seq<JsonView>) -> bool {
    &&& a.len() >= 5
    &&& loose_i64(a[0]) is Some
    &&& loose_i64(a[1]) is Some
    &&& loose_i64(a[2]) is Some
    &&& loose_i64(a[3]) is Some
    &&& loose_u32(a[4]) is Some
}

/// The row opens a window.
pub open spec fn opens_window(out: RangeView, ts: i64) -> bool {
    out.windows.len() == 0 || out.windows.last() != ts
}

/// The columns after one more row. The scales come from the first row; a row that opens a window
/// brings its prices, zeros where it has none.
pub open spec fn with_row(out: RangeView, a: Seq<JsonView>) -> RangeView {
    let ts = loose_i64(a[0])->0;
    let first = out.window_start_ms.len() == 0 && a.len() >= 7;
    let opens = opens_window(out, ts);
    let priced = a.len() >= 11;
    RangeView {
        price_scale: if first {
            scale_of(a[5], out.price_scale)
        } else {
            out.price_scale
        },
        qty_scale: if first {
            scale_of(a[6], out.qty_scale)
        } else {
            out.qty_scale
        },
        window_start_ms: out.window_start_ms.push(ts),
        price: out.price.push(loose_i64(a[1])->0),
        bid_qty: out.bid_qty.push(loose_i64(a[2])->0),
        ask_qty: out.ask_qty.push(loose_i64(a[3])->0),
        trades: out.trades.push(loose_u32(a[4])->0),
        windows: if opens {
            out.windows.push(ts)
        } else {
            out.windows
        },
        open: if opens {
            out.open.push(
                if priced {
                    at_or_zero(a, 7)
                } else {
                    0
                },
            )
        } else {
            out.open
        },
        close: if opens {
            out.close.push(
                if priced {
                    at_or_zero(a, 8)
                } else {
                    0
                },
            )
        } else {
            out.close
        },
        high: if opens {
            out.high.push(
                if priced {
                    at_or_zero(a, 9)
                } else {
                    0
                },
            )
        } else {
            out.high
        },
        low: if opens {
            out.low.push(
                if priced {
                    at_or_zero(a, 10)
                } else {
                    0
                },
            )
        } else {
            out.low
        },
    }
}

/// The columns after one more document: a row with its numbers counts until the answer is full, and
/// anything else is passed over.
pub open spec fn with_document(out: RangeView, v: JsonView) -> RangeView {
    match v.items() {
        Some(a) => if is_range_row(a) && out.window_start_ms.len() < MAX_BARS {
            with_row(out, a)
        } else {
            out
        },
        None => out,
    }
}

/// The columns after one more line.
pub open spec fn with_line(out: RangeView, line: Seq<char>) -> RangeView {
    if line.len() == 0 {
        out
    } else {
        match json_document(encode_utf8(line)) {
            Ok(v) => with_document(out, v),
            Err(_) => out,
        }
    }
}

/// The columns of a row of lines.
pub open spec fn columns(ls: Seq<Seq<char>>) -> RangeView
    decreases ls.len(),
{
    if ls.len() == 0 {
        no_rows()
    } else {
        with_line(columns(ls.drop_last()), ls.last())
    }
}

fn read_scale(v: &Json, default: u8) -> (r: u8)
    ensures
        r == scale_of(v@, default),
{
    match json_u32(v) {
        Some(n) => if n > u8::MAX as u32 {
            u8::MAX
        } else {
            n as u8
        },
        None => default,
    }
}

fn i64_or_zero(v: &Json) -> (r: i64)
    ensures
        r == (match loose_i64(v@) {
            Some(n) => n,
            None => 0,
        }),
{
    match json_i64(v) {
        Some(n) => n,
        None => 0,
    }
}

impl RangeResponse {
    /// An answer without rows.
    pub fn new(q: &RangeParams) -> (r: Self)
        ensures
            r@ == no_rows(),
            r.wf(),
            r.interval_seconds == q.interval_seconds,
            r.symbol@ == q.symbol@,
            r.exchange@ == q.exchange@,
            r.market_type@ == q.market_type@,
    {
        RangeResponse {
            interval_seconds: q.interval_seconds,
            symbol: q.symbol.clone(),
            exchange: q.exchange.clone(),
            market_type: q.market_type.clone(),
            price_scale: 0,
            qty_scale: 0,
            n: 0,
            window_start_ms: Vec::new(),
            price: Vec::new(),
            bid_qty: Vec::new(),
            ask_qty: Vec::new(),
            trades: Vec::new(),
            windows_n: 0,
            windows: Vec::new(),
            open: Vec::new(),
            close: Vec::new(),
            high: Vec::new(),
            low: Vec::new(),
        }
    }

    /// The answer is about the same instrument and bar length.
    pub open spec fn same_subject(&self, other: &RangeResponse) -> bool {
        &&& self.interval_seconds == other.interval_seconds
        &&& self.symbol@ == other.symbol@
        &&& self.exchange@ == other.exchange@
        &&& self.market_type@ == other.market_type@
    }

    /// Takes one document in.
    pub fn push_document(&mut self, v: &Json)
        requires
            old(self).wf(),
        ensures
            final(self)@ == with_document(old(self)@, v@),
            final(self).wf(),
            final(self).same_subject(old(self)),
    {
        let a = match v.as_array() {
            Some(a) => a,
            None => {
                return;
            },
        };
        proof {
            lemma_items_view(a@);
        }
        if a.len() < 5 || self.n as u64 >= MAX_BARS {
            return;
        }
        let (ts, price, bid, ask, trades) = match (
            json_i64(&a[0]),
            json_i64(&a[1]),
            json_i64(&a[2]),
            json_i64(&a[3]),
            json_u32(&a[4]),
        ) {
            (Some(ts), Some(price), Some(bid), Some(ask), Some(trades)) => (
                ts,
                price,
                bid,
                ask,
                trades,
            ),
            _ => {
                return;
            },
        };
        if self.n == 0 && a.len() >= 7 {
            self.price_scale = read_scale(&a[5], self.price_scale);
            self.qty_scale = read_scale(&a[6], self.qty_scale);
        }
        let opens = self.windows.len() == 0 || self.windows[self.windows.len() - 1] != ts;
        if opens {
            self.windows.push(ts);
            if a.len() >= 11 {
                self.open.push(i64_or_zero(&a[7]));
                self.close.push(i64_or_zero(&a[8]));
                self.high.push(i64_or_zero(&a[9]));
                self.low.push(i64_or_zero(&a[10]));
            } else {
                self.open.push(0);
                self.close.push(0);
                self.high.push(0);
                self.low.push(0);
            }
            self.windows_n = self.windows_n + 1;
        }
        self.window_start_ms.push(ts);
        self.price.push(price);
        self.bid_qty.push(bid);
        self.ask_qty.push(ask);
        self.trades.push(trades);
        self.n = self.n + 1;
        assert(self@ =~= with_document(old(self)@, v@));
    }
}

/// Reads the body of the answer to a range, one row on each line. Lines that are no rows are passed
/// over, and rows beyond `MAX_BARS` are cut off.
pub fn parse_range_body(q: &RangeParams, body: &str) -> (r: RangeResponse)
    ensures
        r@ == columns(lines(body@)),
        r.wf(),
        r.interval_seconds == q.interval_seconds,
        r.symbol@ == q.symbol@,
        r.exchange@ == q.exchange@,
        r.market_type@ == q.market_type@,
{
    let ls = split_lines(body);
    let ghost all = views(ls@);
    let mut out = RangeResponse::new(q);
    let mut i: usize = 0;
    while i < ls.len()
        invariant
            i <= ls@.len(),
            all == views(ls@),
            out@ == columns(all.take(i as int)),
            out.wf(),
            out.interval_seconds == q.interval_seconds,
            out.symbol@ == q.symbol@,
            out.exchange@ == q.exchange@,
            out.market_type@ == q.market_type@,
        decreases ls@.len() - i,
    {
        let line = ls[i].as_str();
        assert(all.take(i as int + 1).drop_last() =~= all.take(i as int));
        assert(all.take(i as int + 1).last() == line@);
        if !line.is_empty() && (out.n as u64) < MAX_BARS {
            match parse_json(line.as_bytes()) {
                Ok(v) => out.push_document(&v),
                Err(_) => {},
            }
        }
        i = i + 1;
    }
    assert(all.take(i as int) =~= all);
    out
}

/// What ClickHouse answered in place of rows: its status and the first 500 characters.
pub fn upstream_failure(status: &str, body: &str) -> (r: String)
    ensures
        r@ == "CH "@ + status@ + ": "@ + (if body@.len() > 500 {
            body@.take(500)
        } else {
            body@
        }),
{
    let cs = chars_of(body);
    let head = "CH ".to_owned().concat(status).concat(": ");
    if cs.len() > 500 {
        head.concat(text_of(&sub_chars(&cs, 0, 500)).as_str())
    } else {
        head.concat(body)
    }
}

/// The range is over: it ended more than two bars ago, and its bars will not change.
pub open spec fn is_settled(q: ParamsView, now_ms: i64) -> bool {
    q.to_ms + 2 * (q.interval_seconds * 1000) < now_ms
}

/// The range has an open end: it ended at most one bar ago, or is still to end.
pub open spec fn has_open_end(q: ParamsView, now_ms: i64) -> bool {
    q.to_ms >= now_ms - q.interval_seconds * 1000
}

/// How an answer may be kept by others: for a day where the range is settled, not without asking
/// again where it has an open end, and not at all in between.
pub open spec fn cache_text(q: ParamsView, now_ms: i64) -> Seq<char> {
    if is_settled(q, now_ms) {
        "public, max-age=86400"@
    } else if has_open_end(q, now_ms) {
        "no-cache"@
    } else {
        "no-store"@
    }
}

/// Decides how an answer may be kept by others.
pub fn cache_control(q: &RangeParams, now_ms: i64) -> (r: &'static str)
    ensures
        r@ == cache_text(q@, now_ms),
{
    let bar: i128 = q.interval_seconds as i128 * 1000;
    let to: i128 = q.to_ms as i128;
    let now: i128 = now_ms as i128;
    if to + 2 * bar < now {
        "public, max-age=86400"
    } else if to >= now - bar {
        "no-cache"
    } else {
        "no-store"
    }
}

/// What ClickHouse did when it was asked for a range.
#[derive(Debug)]
pub enum Upstream {
    /// It could not be reached.
    Unreachable(String),
    /// Its answer could not be read to its end.
    Unreadable(String),
    /// It answered with a status that is no success.
    Failed { status: String, body: String },
    /// It answered with rows.
    Rows(String),
}

/// How a request that went on is answered.
pub enum RangeAnswer {
    /// The rows, and how they may be kept by others.
    Rows(RangeResponse, &'static str),
    /// ClickHouse failed.
    BadGateway(String),
}

/// The text of a failure of ClickHouse.
pub open spec fn gateway_error(u: Upstream) -> Option<Seq<char>> {
    match u {
        Upstream::Unreachable(e) => Some("ch unreachable: "@ + e@),
        Upstream::Unreadable(e) => Some("ch body read: "@ + e@),
        Upstream::Failed { status, body } => Some(
            "CH "@ + status@ + ": "@ + (if body@.len() > 500 {
                body@.take(500)
            } else {
                body@
            }),
        ),
        Upstream::Rows(_) => None,
    }
}

/// Answers a request from what ClickHouse did.
pub fn answer_range(q: &RangeParams, upstream: &Upstream, now_ms: i64) -> (r: RangeAnswer)
    ensures
        match r {
            RangeAnswer::BadGateway(m) => gateway_error(*upstream) == Some(m@),
            RangeAnswer::Rows(response, cache) => {
                &&& *upstream is Rows
                &&& response@ == columns(lines(upstream->Rows_0@))
                &&& response.wf()
                &&& response.interval_seconds == q.interval_seconds
                &&& response.symbol@ == q.symbol@
                &&& response.exchange@ == q.exchange@
                &&& response.market_type@ == q.market_type@
                &&& cache@ == cache_text(q@, now_ms)
            },
        },
{
    match upstream {
        Upstream::Unreachable(e) => RangeAnswer::BadGateway(
            "ch unreachable: ".to_owned().concat(e.as_str()),
        ),
        Upstream::Unreadable(e) => RangeAnswer::BadGateway(
            "ch body read: ".to_owned().concat(e.as_str()),
        ),
        Upstream::Failed { status, body } => RangeAnswer::BadGateway(
            upstream_failure(status.as_str(), body.as_str()),
        ),
        Upstream::Rows(body) => RangeAnswer::Rows(
            parse_range_body(q, body.as_str()),
            cache_control(q, now_ms),
        ),
    }
}

/// Whatever the lines hold, the answer is well-formed: columns of equal length, at most `MAX_BARS`
/// rows.
pub proof fn law_columns_are_parallel(ls: Seq<Seq<char>>)
    ensures
        columns(ls).wf(),
    decreases ls.len(),
{
    if ls.len() > 0 {
        law_columns_are_parallel(ls.drop_last());
    }
}

/// The windows of rows that come in order of time are in order too, each once, and each row's window
/// is among them.
pub proof fn law_windows_in_order(ls: Seq<Seq<char>>)
    ensures
        (forall|i: int, j: int|
            0 <= i < j < columns(ls).window_start_ms.len() ==> (#[trigger] columns(
                ls,
            ).window_start_ms[i]) <= (#[trigger] columns(ls).window_start_ms[j])) ==> {
            &&& forall|i: int, j: int|
                0 <= i < j < columns(ls).windows.len() ==> (#[trigger] columns(ls).windows[i]) < (
                #[trigger] columns(ls).windows[j])
        },
        forall|i: int|
            0 <= i < columns(ls).window_start_ms.len() ==> columns(ls).windows.contains(
                #[trigger] columns(ls).window_start_ms[i],
            ),
        forall|i: int|
            0 <= i < columns(ls).windows.len() ==> columns(ls).window_start_ms.contains(
                #[trigger] columns(ls).windows[i],
            ),
    decreases ls.len(),
{
    if ls.len() > 0 {
        law_windows_in_order(ls.drop_last());
        law_columns_are_parallel(ls.drop_last());
        let a = columns(ls.drop_last());
        let b = columns(ls);
        if b.window_start_ms.len() > a.window_start_ms.len() {
            let ts = b.window_start_ms.last();
            assert(b.window_start_ms =~= a.window_start_ms.push(ts));
            assert(b.windows.last() == ts);
            assert(b.windows[b.windows.len() - 1] == ts);
            assert(b.window_start_ms[b.window_start_ms.len() - 1] == ts);
            assert forall|i: int| 0 <= i < a.windows.len() implies #[trigger] b.windows[i]
                == a.windows[i] by {
            }
            assert forall|i: int| 0 <= i < b.window_start_ms.len() implies b.windows.contains(
                #[trigger] b.window_start_ms[i],
            ) by {
                if i < a.window_start_ms.len() {
                    assert(a.window_start_ms[i] == b.window_start_ms[i]);
                    let k = a.windows.index_of(a.window_start_ms[i]);
                    assert(b.windows[k] == a.window_start_ms[i]);
                }
            }
            assert forall|i: int| 0 <= i < b.windows.len() implies b.window_start_ms.contains(
                #[trigger] b.windows[i],
            ) by {
                if i < a.windows.len() {
                    assert(a.windows[i] == b.windows[i]);
                    let k = a.window_start_ms.index_of(a.windows[i]);
                    assert(b.window_start_ms[k] == b.windows[i]);
                }
            }
            if forall|i: int, j: int|
                0 <= i < j < b.window_start_ms.len() ==> (#[trigger] b.window_start_ms[i]) <= (
                #[trigger] b.window_start_ms[j]) {
                assert forall|i: int, j: int|
                    0 <= i < j < a.window_start_ms.len() implies (#[trigger] a.window_start_ms[i])
                    <= (#[trigger] a.window_start_ms[j]) by {
                    assert(b.window_start_ms[i] <= b.window_start_ms[j]);
                }
                assert forall|i: int, j: int| 0 <= i < j < b.windows.len() implies (
                #[trigger] b.windows[i]) < (#[trigger] b.windows[j]) by {
                    if j < a.windows.len() {
                        assert(a.windows[i] < a.windows[j]);
                    } else {
                        if i < a.windows.len() - 1 {
                            assert(a.windows[i] < a.windows[a.windows.len() - 1]);
                        }
                        let m = a.window_start_ms.len() - 1;
                        assert(b.window_start_ms[m] <= b.window_start_ms[m + 1]);
                        assert(a.windows.last() == a.window_start_ms.last());
                    }
                }
            }
        }
    }
}

/// A stored row, as far as a range picks rows by it.
pub struct StoredRow {
    pub exchange: Seq<char>,
    pub market_type: Seq<char>,
    pub symbol: Seq<char>,
    pub window_start_ms: i64,
}

/// A clause of a condition holds of a row: it names the row's own exchange, market or symbol, or a
/// bound that the start of the row's window keeps.
pub open spec fn clause_holds(c: Seq<char>, row: StoredRow) -> bool {
    ||| c == "exchange = '"@ + quoted(row.exchange) + "'"@
    ||| c == "market_type = '"@ + quoted(row.market_type) + "'"@
    ||| c == "symbol = '"@ + quoted(row.symbol) + "'"@
    ||| exists|n: i64| #[trigger] not_before(n) == c && row.window_start_ms >= n
    ||| exists|n: i64| #[trigger] before(n) == c && row.window_start_ms < n
}

/// The clause "not before `n`".
pub open spec fn not_before(n: i64) -> Seq<char> {
    "window_start >= fromUnixTimestamp64Milli("@ + decimal_int(n as int) + ")"@
}

/// The clause "before `n`".
pub open spec fn before(n: i64) -> Seq<char> {
    "window_start <  fromUnixTimestamp64Milli("@ + decimal_int(n as int) + ")"@
}

/// A condition, a row of clauses joined by `AND`, picks a row.
pub open spec fn picks(condition: Seq<char>, clauses: Seq<Seq<char>>, row: StoredRow) -> bool {
    &&& condition == joined(clauses, " AND "@)
    &&& forall|i: int| 0 <= i < clauses.len() ==> clause_holds(#[trigger] clauses[i], row)
}

proof fn lemma_between(head: Seq<char>, a: Seq<char>, b: Seq<char>, tail: Seq<char>)
    requires
        head + a + tail == head + b + tail,
    ensures
        a == b,
{
    let (x, y) = (head + a + tail, head + b + tail);
    assert(x.len() == y.len());
    assert(a =~= x.subrange(head.len() as int, (head.len() + a.len()) as int));
    assert(b =~= y.subrange(head.len() as int, (head.len() + b.len()) as int));
}

proof fn lemma_clause_starts(x: Seq<char>, n: i64)
    ensures
        ("exchange = '"@ + x + "'"@)[0] == 'e',
        ("market_type = '"@ + x + "'"@)[0] == 'm',
        ("symbol = '"@ + x + "'"@)[0] == 's',
        not_before(n).len() > 13,
        not_before(n)[0] == 'w',
        not_before(n)[13] == '>',
        before(n).len() > 13,
        before(n)[0] == 'w',
        before(n)[13] == '<',
{
    reveal_strlit("exchange = '");
    reveal_strlit("market_type = '");
    reveal_strlit("symbol = '");
    reveal_strlit("window_start >= fromUnixTimestamp64Milli(");
    reveal_strlit("window_start <  fromUnixTimestamp64Milli(");
}

proof fn lemma_bounds_differ(m: i64, n: i64)
    ensures
        not_before(m) == not_before(n) ==> m == n,
        before(m) == before(n) ==> m == n,
        not_before(m) != before(n),
{
    law_i64_round_trip(m);
    law_i64_round_trip(n);
    lemma_clause_starts(Seq::empty(), m);
    lemma_clause_starts(Seq::empty(), n);
    if not_before(m) == not_before(n) {
        lemma_between(
            "window_start >= fromUnixTimestamp64Milli("@,
            decimal_int(m as int),
            decimal_int(n as int),
            ")"@,
        );
    }
    if before(m) == before(n) {
        lemma_between(
            "window_start <  fromUnixTimestamp64Milli("@,
            decimal_int(m as int),
            decimal_int(n as int),
            ")"@,
        );
    }
}

/// What each of the two clauses on time holds of.
pub proof fn lemma_bounds_hold(n: i64, row: StoredRow)
    ensures
        clause_holds(not_before(n), row) <==> row.window_start_ms >= n,
        clause_holds(before(n), row) <==> row.window_start_ms < n,
{
    lemma_clause_starts(quoted(row.exchange), n);
    lemma_clause_starts(quoted(row.market_type), n);
    lemma_clause_starts(quoted(row.symbol), n);
    assert forall|m: i64| #[trigger] not_before(m) == not_before(n) implies m == n by {
        lemma_bounds_differ(m, n);
    }
    assert forall|m: i64| #[trigger] before(m) == before(n) implies m == n by {
        lemma_bounds_differ(m, n);
    }
    assert forall|m: i64| #[trigger] before(m) != not_before(n) by {
        lemma_bounds_differ(n, m);
    }
    assert forall|m: i64| #[trigger] not_before(m) != before(n) by {
        lemma_bounds_differ(m, n);
    }
}

proof fn lemma_names_hold(x: Seq<char>, row: StoredRow)
    ensures
        clause_holds("exchange = '"@ + quoted(x) + "'"@, row) <==> row.exchange == x,
        clause_holds("market_type = '"@ + quoted(x) + "'"@, row) <==> row.market_type == x,
        clause_holds("symbol = '"@ + quoted(x) + "'"@, row) <==> row.symbol == x,
{
    let e = "exchange = '"@ + quoted(x) + "'"@;
    let m = "market_type = '"@ + quoted(x) + "'"@;
    let s = "symbol = '"@ + quoted(x) + "'"@;
    lemma_clause_starts(quoted(x), 0);
    lemma_clause_starts(quoted(row.exchange), 0);
    lemma_clause_starts(quoted(row.market_type), 0);
    lemma_clause_starts(quoted(row.symbol), 0);
    law_quoting_is_reversible(x);
    law_quoting_is_reversible(row.exchange);
    law_quoting_is_reversible(row.market_type);
    law_quoting_is_reversible(row.symbol);
    assert forall|n: i64| #[trigger] not_before(n) != e && not_before(n) != m && not_before(n)
        != s by {
        lemma_clause_starts(Seq::empty(), n);
    }
    assert forall|n: i64| #[trigger] before(n) != e && before(n) != m && before(n) != s by {
        lemma_clause_starts(Seq::empty(), n);
    }
    if e == "exchange = '"@ + quoted(row.exchange) + "'"@ {
        lemma_between("exchange = '"@, quoted(x), quoted(row.exchange), "'"@);
    }
    if m == "market_type = '"@ + quoted(row.market_type) + "'"@ {
        lemma_between("market_type = '"@, quoted(x), quoted(row.market_type), "'"@);
    }
    if s == "symbol = '"@ + quoted(row.symbol) + "'"@ {
        lemma_between("symbol = '"@, quoted(x), quoted(row.symbol), "'"@);
    }
}

/// The clauses of the condition of a range.
pub open spec fn range_clauses(q: ParamsView) -> Seq<Seq<char>> {
    seq![
        "exchange = '"@ + quoted(q.exchange) + "'"@,
        "market_type = '"@ + quoted(q.market_type) + "'"@,
        "symbol = '"@ + quoted(q.symbol) + "'"@,
        not_before(q.from_ms),
        before(q.to_ms),
    ]
}

proof fn lemma_filter_texts()
    ensures
        "' AND market_type = '"@ == "'"@ + " AND "@ + "market_type = '"@,
        "' AND symbol = '"@ == "'"@ + " AND "@ + "symbol = '"@,
        FILTER_1@ == "'"@ + " AND "@ + "window_start >= fromUnixTimestamp64Milli("@,
        FILTER_2@ == ")"@ + " AND "@ + "window_start <  fromUnixTimestamp64Milli("@,
{
    reveal_strlit(" AND ");
    reveal_strlit("'");
    reveal_strlit(")");
    reveal_strlit("market_type = '");
    reveal_strlit("symbol = '");
    reveal_strlit("window_start >= fromUnixTimestamp64Milli(");
    reveal_strlit("window_start <  fromUnixTimestamp64Milli(");
    reveal_strlit("' AND market_type = '");
    reveal_strlit("' AND symbol = '");
    reveal_strlit("' AND window_start >= fromUnixTimestamp64Milli(");
    reveal_strlit(") AND window_start <  fromUnixTimestamp64Milli(");
    assert("' AND market_type = '"@ =~= "'"@ + " AND "@ + "market_type = '"@);
    assert("' AND symbol = '"@ =~= "'"@ + " AND "@ + "symbol = '"@);
    assert(FILTER_1@ =~= "'"@ + " AND "@ + "window_start >= fromUnixTimestamp64Milli("@);
    assert(FILTER_2@ =~= ")"@ + " AND "@ + "window_start <  fromUnixTimestamp64Milli("@);
}

proof fn lemma_regroup(
    x: Seq<char>,
    head: Seq<char>,
    middle: Seq<char>,
    tail: Seq<char>,
    sep: Seq<char>,
    next: Seq<char>,
)
    ensures
        (x + head) + middle + (tail + sep + next) == (x + (head + middle + tail) + sep) + next,
{
    assert((x + head) + middle + (tail + sep + next) =~= (x + (head + middle + tail) + sep) + next);
}

proof fn lemma_joined_five(c: Seq<Seq<char>>, sep: Seq<char>)
    requires
        c.len() == 5,
    ensures
        joined(c, sep) == c[0] + sep + c[1] + sep + c[2] + sep + c[3] + sep + c[4],
{
    reveal_with_fuel(joined, 6);
    assert(c.drop_last().last() == c[3]);
    assert(c.drop_last().drop_last().last() == c[2]);
    assert(c.drop_last().drop_last().drop_last().last() == c[1]);
    assert(c.drop_last().drop_last().drop_last().drop_last()[0] == c[0]);
}

proof fn lemma_filter_is_joined(q: ParamsView)
    ensures
        range_filter(q) == joined(range_clauses(q), " AND "@),
{
    let c = range_clauses(q);
    let and = " AND "@;
    lemma_joined_five(c, and);
    lemma_filter_texts();
    let none = Seq::<char>::empty();
    let (e, m, s) = ("exchange = '"@, "market_type = '"@, "symbol = '"@);
    let (g, l) = (
        "window_start >= fromUnixTimestamp64Milli("@,
        "window_start <  fromUnixTimestamp64Milli("@,
    );
    let x1 = c[0] + and;
    let x2 = x1 + c[1] + and;
    let x3 = x2 + c[2] + and;
    let x4 = x3 + c[3] + and;
    lemma_regroup(none, e, quoted(q.exchange), "'"@, and, m);
    assert(none + e =~= e);
    assert(none + (e + quoted(q.exchange) + "'"@) =~= c[0]);
    lemma_regroup(x1, m, quoted(q.market_type), "'"@, and, s);
    lemma_regroup(x2, s, quoted(q.symbol), "'"@, and, g);
    lemma_regroup(x3, g, decimal_int(q.from_ms as int), ")"@, and, l);
    assert(range_filter(q) == (x4 + l) + decimal_int(q.to_ms as int) + ")"@);
    assert((x4 + l) + decimal_int(q.to_ms as int) + ")"@ =~= x4 + c[4]);
}

/// The condition of a range picks exactly the rows of its instrument whose window starts in the
/// range: at `from_ms` or later, and before `to_ms`.
pub proof fn law_range_picks_its_rows(q: ParamsView, row: StoredRow)
    ensures
        exists|clauses: Seq<Seq<char>>|
            #![trigger joined(clauses, " AND "@)]
            range_filter(q) == joined(clauses, " AND "@) && (picks(range_filter(q), clauses, row)
                <==> {
                &&& row.exchange == q.exchange
                &&& row.market_type == q.market_type
                &&& row.symbol == q.symbol
                &&& q.from_ms <= row.window_start_ms < q.to_ms
            }),
{
    let c = range_clauses(q);
    lemma_filter_is_joined(q);
    lemma_names_hold(q.exchange, row);
    lemma_names_hold(q.market_type, row);
    lemma_names_hold(q.symbol, row);
    lemma_bounds_hold(q.from_ms, row);
    lemma_bounds_hold(q.to_ms, row);
    assert(picks(range_filter(q), c, row) <==> {
        &&& clause_holds(c[0], row)
        &&& clause_holds(c[1], row)
        &&& clause_holds(c[2], row)
        &&& clause_holds(c[3], row)
        &&& clause_holds(c[4], row)
    });
    assert(range_filter(q) == joined(c, " AND "@));
}

/// The text has no clause of its own that picks rows.
pub open spec fn picks_nothing(part: Seq<char>) -> bool {
    !part.contains('W')
}

/// A query reads a table under the condition of a range.
pub open spec fn reads(db: Seq<char>, table: Seq<char>, q: ParamsView) -> Seq<char> {
    db + "."@ + table + " FINAL WHERE "@ + range_filter(q)
}

/// A query that reads a table as it is: twice the same table, twice the condition of the range, and
/// no other condition.
pub open spec fn is_direct_query(
    sql: Seq<char>,
    db: Seq<char>,
    table: Seq<char>,
    q: ParamsView,
    parts: Seq<Seq<char>>,
) -> bool {
    &&& parts.len() == 4
    &&& forall|i: int| 0 <= i < 4 ==> picks_nothing(#[trigger] parts[i])
    &&& sql == parts[0] + db + "."@ + table + parts[1] + reads(db, table, q) + parts[2] + " WHERE "@
        + range_filter(q) + parts[3]
}

/// A query that rolls a table up: twice the same length of bars, twice the same table under the
/// condition of the range, and no other condition.
pub open spec fn is_rollup_query(
    sql: Seq<char>,
    db: Seq<char>,
    table: Seq<char>,
    q: ParamsView,
    parts: Seq<Seq<char>>,
) -> bool {
    let bar = decimal(q.interval_seconds as nat);
    &&& parts.len() == 5
    &&& forall|i: int| 0 <= i < 5 ==> picks_nothing(#[trigger] parts[i])
    &&& sql == parts[0] + "INTERVAL "@ + bar + " SECOND"@ + parts[1] + reads(db, table, q) + parts[2]
        + "INTERVAL "@ + bar + " SECOND"@ + parts[3] + reads(db, table, q) + parts[4]
}

/// The query of a range reads the table of its bars, or that of one-minute bars for longer bars, and
/// every condition in it is that of the range. Longer bars are grouped by their own length, the
/// levels and the prices alike.
pub proof fn law_query_reads_the_range(db: Seq<char>, q: ParamsView)
    ensures
        q.interval_seconds == 30 ==> exists|parts: Seq<Seq<char>>| #[trigger]
            is_direct_query(range_sql(db, q), db, "clusters_30s"@, q, parts),
        q.interval_seconds == 60 ==> exists|parts: Seq<Seq<char>>| #[trigger]
            is_direct_query(range_sql(db, q), db, "clusters_1m"@, q, parts),
        q.interval_seconds != 30 && q.interval_seconds != 60 ==> exists|parts: Seq<Seq<char>>|
            #[trigger] is_rollup_query(range_sql(db, q), db, "clusters_1m"@, q, parts),
{
    let f = range_filter(q);
    let fw = " FINAL WHERE "@;
    lemma_base_tables();
    if q.interval_seconds == 30 || q.interval_seconds == 60 {
        let t = table_name(q.interval_seconds);
        let c = DIRECT_3@.take(DIRECT_3@.len() - 7);
        lemma_direct_texts();
        let x = DIRECT_1@ + db + "."@ + t + DIRECT_2@;
        lemma_source(x, db, "."@, t, fw, f);
        lemma_add_pair(x + reads(db, t, q), c, " WHERE "@);
        assert(is_direct_query(range_sql(db, q), db, t, q, seq![DIRECT_1@, DIRECT_2@, c, DIRECT_4@]));
    } else {
        let n = decimal(q.interval_seconds as nat);
        let t = table_name(60);
        let a = ROLLUP_1@.take(ROLLUP_1@.len() - 9);
        let b = ROLLUP_2@.skip(7);
        let c = ROLLUP_3@.take(ROLLUP_3@.len() - 9);
        let d = ROLLUP_4@.skip(7);
        lemma_rollup_texts();
        let r = reads(db, t, q);
        lemma_add_pair(a + "INTERVAL "@ + n, " SECOND"@, b);
        let x = a + "INTERVAL "@ + n + " SECOND"@ + b;
        lemma_source(x, db, "."@, t, fw, f);
        lemma_add_pair(x + r, c, "INTERVAL "@);
        let y = x + r + c + "INTERVAL "@ + n;
        lemma_add_pair(y, " SECOND"@, d);
        lemma_source(y + " SECOND"@ + d, db, "."@, t, fw, f);
        assert(is_rollup_query(range_sql(db, q), db, t, q, seq![a, b, c, d, ROLLUP_5@]));
    }
}

proof fn lemma_add_pair(x: Seq<char>, a: Seq<char>, b: Seq<char>)
    ensures
        x + (a + b) == x + a + b,
{
    assert(x + (a + b) =~= x + a + b);
}

proof fn lemma_source(
    x: Seq<char>,
    a: Seq<char>,
    b: Seq<char>,
    c: Seq<char>,
    d: Seq<char>,
    e: Seq<char>,
)
    ensures
        x + a + b + c + d + e == x + (a + b + c + d + e),
{
    assert(x + a + b + c + d + e =~= x + (a + b + c + d + e));
}

proof fn lemma_base_tables()
    ensures
        table_name(30) == "clusters_30s"@,
        table_name(60) == "clusters_1m"@,
{
    reveal_strlit("clusters_30s");
    reveal_strlit("clusters_1m");
    reveal_strlit("clusters_");
    reveal_strlit("m");
    reveal_strlit("s");
    reveal_with_fuel(decimal, 3);
    assert(table_name(30) =~= "clusters_30s"@);
    assert(table_name(60) =~= "clusters_1m"@);
}

proof fn lemma_direct_texts()
    ensures
        picks_nothing(DIRECT_1@),
        picks_nothing(DIRECT_2@),
        picks_nothing(DIRECT_3@.take(DIRECT_3@.len() - 7)),
        picks_nothing(DIRECT_4@),
        DIRECT_3@ == DIRECT_3@.take(DIRECT_3@.len() - 7) + " WHERE "@,
{
    reveal_strlit("SELECT toUnixTimestamp64Milli(t.window_start) AS ts_ms, t.price, t.bid_qty, t.ask_qty, t.trades, w.ps, w.qs, w.o, w.c, w.h, w.l FROM ");
    reveal_strlit(" AS t FINAL INNER JOIN ( SELECT window_start, maxIf(price_scale, price_scale > 0) AS ps, maxIf(qty_scale, qty_scale > 0)     AS qs, maxIf(open, open > 0)               AS o, argMaxIf(close, ingested_at, close > 0) AS c, maxIf(high, high > 0)               AS h, minIf(low, low > 0)                 AS l FROM ");
    reveal_strlit(" GROUP BY window_start ) AS w ON t.window_start = w.window_start WHERE ");
    reveal_strlit(" ORDER BY t.window_start, t.price FORMAT JSONCompactEachRow");
    reveal_strlit(" WHERE ");
    assert(DIRECT_3@ =~= DIRECT_3@.take(DIRECT_3@.len() - 7) + " WHERE "@);
}

proof fn lemma_rollup_texts()
    ensures
        picks_nothing(ROLLUP_1@.take(ROLLUP_1@.len() - 9)),
        picks_nothing(ROLLUP_2@.skip(7)),
        picks_nothing(ROLLUP_3@.take(ROLLUP_3@.len() - 9)),
        picks_nothing(ROLLUP_4@.skip(7)),
        picks_nothing(ROLLUP_5@),
        ROLLUP_1@ == ROLLUP_1@.take(ROLLUP_1@.len() - 9) + "INTERVAL "@,
        ROLLUP_2@ == " SECOND"@ + ROLLUP_2@.skip(7),
        ROLLUP_3@ == ROLLUP_3@.take(ROLLUP_3@.len() - 9) + "INTERVAL "@,
        ROLLUP_4@ == " SECOND"@ + ROLLUP_4@.skip(7),
{
    reveal_strlit("SELECT toUnixTimestamp(b.rw) * 1000 AS ts_ms, b.price, b.bid_qty, b.ask_qty, b.trades, b.ps, b.qs, w.o, w.c, w.h, w.l FROM ( SELECT toStartOfInterval(window_start, INTERVAL ");
    reveal_strlit(" SECOND, 'UTC') AS rw, price, sum(bid_qty) AS bid_qty, sum(ask_qty) AS ask_qty, sum(trades) AS trades, maxIf(price_scale, price_scale > 0) AS ps, maxIf(qty_scale, qty_scale > 0) AS qs FROM ");
    reveal_strlit(" GROUP BY rw, price ) AS b INNER JOIN ( SELECT rw, argMinIf(sub_open,  sub_ws, sub_open  > 0) AS o, argMaxIf(sub_close, sub_ws, sub_close > 0) AS c, maxIf(sub_high, sub_high > 0) AS h, minIf(sub_low,  sub_low  > 0) AS l FROM ( SELECT toStartOfInterval(window_start, INTERVAL ");
    reveal_strlit(" SECOND, 'UTC') AS rw, window_start AS sub_ws, maxIf(open, open > 0)                    AS sub_open, argMaxIf(close, ingested_at, close > 0) AS sub_close, maxIf(high, high > 0)                    AS sub_high, minIf(low, low > 0)                      AS sub_low FROM ");
    reveal_strlit(" GROUP BY rw, window_start ) GROUP BY rw ) AS w ON b.rw = w.rw ORDER BY ts_ms, b.price FORMAT JSONCompactEachRow");
    reveal_strlit("INTERVAL ");
    reveal_strlit(" SECOND");
    assert(ROLLUP_1@ =~= ROLLUP_1@.take(ROLLUP_1@.len() - 9) + "INTERVAL "@);
    assert(ROLLUP_2@ =~= " SECOND"@ + ROLLUP_2@.skip(7));
    assert(ROLLUP_3@ =~= ROLLUP_3@.take(ROLLUP_3@.len() - 9) + "INTERVAL "@);
    assert(ROLLUP_4@ =~= " SECOND"@ + ROLLUP_4@.skip(7));
}

/// Every character of the text is one of those allowed.
pub open spec fn made_of(s: Seq<char>, allowed: spec_fn(char) -> bool) -> bool {
    forall|i: int| 0 <= i < s.len() ==> allowed(#[trigger] s[i])
}

/// A request goes on exactly where it names an instrument in plain characters, one of the two
/// markets, a length of bars that is kept, and a range of time that is not empty and whose windows,
/// at fifty rows each, come to no more than half a million rows. Where only the last of these fails
/// it is too large, and otherwise it is malformed.
pub proof fn law_accepted_ranges(q: ParamsView)
    ensures
        ({
            let named = {
                &&& 0 < q.symbol.len()
                &&& encode_utf8(q.symbol).len() <= 32
                &&& made_of(
                    q.symbol,
                    |c: char|
                        'A' <= c <= 'Z' || 'a' <= c <= 'z' || '0' <= c <= '9' || c == '_' || c == '-',
                )
                &&& 0 < q.exchange.len()
                &&& encode_utf8(q.exchange).len() <= 32
                &&& made_of(
                    q.exchange,
                    |c: char| 'A' <= c <= 'Z' || 'a' <= c <= 'z' || '0' <= c <= '9',
                )
                &&& q.market_type == "spot"@ || q.market_type == "perp"@
            };
            let timed = {
                &&& seq![30u32, 60, 300, 900, 1800, 3600, 14400, 86400].contains(q.interval_seconds)
                &&& 0 <= q.from_ms < q.to_ms
            };
            let rows = ((q.to_ms - q.from_ms) / (q.interval_seconds * 1000)) * 50;
            &&& range_check(q) is Go <==> named && timed && rows <= 500_000
            &&& range_check(q) is TooLarge <==> named && timed && rows > 500_000
        }),
{
    let symbol = |c: char|
        'A' <= c <= 'Z' || 'a' <= c <= 'z' || '0' <= c <= '9' || c == '_' || c == '-';
    let exchange = |c: char| 'A' <= c <= 'Z' || 'a' <= c <= 'z' || '0' <= c <= '9';
    assert(is_name(q.symbol, true) <==> made_of(q.symbol, symbol)) by {
        if made_of(q.symbol, symbol) {
            assert forall|i: int| 0 <= i < q.symbol.len() implies is_alphanumeric(
                #[trigger] q.symbol[i],
            ) || q.symbol[i] == '_' || q.symbol[i] == '-' by {
                assert(symbol(q.symbol[i]));
            }
        }
    }
    assert(is_name(q.exchange, false) <==> made_of(q.exchange, exchange)) by {
        if made_of(q.exchange, exchange) {
            assert forall|i: int| 0 <= i < q.exchange.len() implies is_alphanumeric(
                #[trigger] q.exchange[i],
            ) by {
                assert(exchange(q.exchange[i]));
            }
        }
    }
    let list = seq![30u32, 60, 300, 900, 1800, 3600, 14400, 86400];
    assert(list.contains(q.interval_seconds) <==> supported(q.interval_seconds)) by {
        if supported(q.interval_seconds) {
            assert(list[0] == 30 && list[1] == 60 && list[2] == 300 && list[3] == 900 && list[4]
                == 1800 && list[5] == 3600 && list[6] == 14400 && list[7] == 86400);
        }
    }
}

/// An answer may be kept for a day exactly where the range ended more than two bars ago; it is to be
/// asked for again where the range ended at most one bar ago, and is not kept in between.
pub proof fn law_cache_follows_the_end(q: ParamsView, now_ms: i64)
    ensures
        ({
            let age = now_ms - q.to_ms;
            let bar = q.interval_seconds * 1000;
            &&& age > 2 * bar ==> cache_text(q, now_ms) == "public, max-age=86400"@
            &&& bar < age <= 2 * bar ==> cache_text(q, now_ms) == "no-store"@
            &&& age <= bar ==> cache_text(q, now_ms) == "no-cache"@
        }),
{
}

/// A number reads the same whether it comes as a JSON number or as its text; nothing else is one.
pub proof fn law_loose_numbers(n: i64, u: u32, b: bool, items: Seq<JsonView>)
    ensures
        loose_i64(JsonView::Text(decimal_int(n as int))) == Some(n),
        n >= 0 ==> loose_i64(JsonView::Number(NumberView::PosInt(n as u64))) == Some(n),
        n < 0 ==> loose_i64(JsonView::Number(NumberView::NegInt(n))) == Some(n),
        loose_u32(JsonView::Text(decimal(u as nat))) == Some(u),
        loose_u32(JsonView::Number(NumberView::PosInt(u as u64))) == Some(u),
        n < 0 ==> loose_u32(JsonView::Number(NumberView::NegInt(n))) is None,
        loose_i64(JsonView::Null) is None,
        loose_i64(JsonView::Bool(b)) is None,
        loose_i64(JsonView::Array(items)) is None,
        loose_u32(JsonView::Null) is None,
        loose_u32(JsonView::Bool(b)) is None,
        loose_u32(JsonView::Array(items)) is None,
{
    law_i64_round_trip(n);
    crate::text::law_u64_round_trip(u as u64);
}

/// The rows among the lines of an answer, in order: arrays that begin with four integers and a
/// count.
pub open spec fn rows_among(ls: Seq<Seq<char>>) -> Seq<Seq<JsonView>>
    decreases ls.len(),
{
    if ls.len() == 0 {
        Seq::empty()
    } else {
        let rows = rows_among(ls.drop_last());
        let line = ls.last();
        match json_document(encode_utf8(line)) {
            Ok(JsonView::Array(a)) => if line.len() > 0 && a.len() >= 5 && (forall|i: int|
                0 <= i < 4 ==> loose_i64(#[trigger] a[i]) is Some) && loose_u32(a[4]) is Some {
                rows.push(a)
            } else {
                rows
            },
            _ => rows,
        }
    }
}

/// The row opens a window: it is the first, or its time is another than that of the row before.
pub open spec fn begins_window(rows: Seq<Seq<JsonView>>, k: int) -> bool {
    0 <= k < rows.len() && (k == 0 || loose_i64(rows[k - 1][0]) != loose_i64(rows[k][0]))
}

/// The prices of a window are the last four numbers of a row of eleven, and zeros where they are not
/// there.
pub open spec fn price_at(a: Seq<JsonView>, i: int) -> i64 {
    if a.len() >= 11 && loose_i64(a[i]) is Some {
        loose_i64(a[i])->0
    } else {
        0
    }
}

/// Each entry of the columns is a row of the answer: the first numbers of the row, in order, up to
/// half a million rows. Each window is one that a row opens, with the prices of that row. The
/// scales are those of the first row.
pub proof fn law_entries_are_rows(ls: Seq<Seq<char>>, k: int, w: int)
    ensures
        ({
            let c = columns(ls);
            let rows = rows_among(ls);
            &&& c.window_start_ms.len() == (if rows.len() > 500_000 {
                500_000
            } else {
                rows.len()
            })
            &&& 0 <= k < c.window_start_ms.len() ==> {
                &&& loose_i64(rows[k][0]) == Some(c.window_start_ms[k])
                &&& loose_i64(rows[k][1]) == Some(c.price[k])
                &&& loose_i64(rows[k][2]) == Some(c.bid_qty[k])
                &&& loose_i64(rows[k][3]) == Some(c.ask_qty[k])
                &&& loose_u32(rows[k][4]) == Some(c.trades[k])
            }
            &&& 0 <= w < c.windows.len() ==> exists|i: int|
                {
                    &&& #[trigger] begins_window(rows, i)
                    &&& loose_i64(rows[i][0]) == Some(c.windows[w])
                    &&& c.open[w] == price_at(rows[i], 7)
                    &&& c.close[w] == price_at(rows[i], 8)
                    &&& c.high[w] == price_at(rows[i], 9)
                    &&& c.low[w] == price_at(rows[i], 10)
                }
            &&& rows.len() > 0 && rows[0].len() >= 7 ==> {
                &&& loose_u32(rows[0][5]) is Some && loose_u32(rows[0][5])->0 <= 255
                    ==> c.price_scale == loose_u32(rows[0][5])->0
                &&& loose_u32(rows[0][6]) is Some && loose_u32(rows[0][6])->0 <= 255
                    ==> c.qty_scale == loose_u32(rows[0][6])->0
            }
            &&& rows.len() == 0 || rows[0].len() < 7 ==> c.price_scale == 0 && c.qty_scale == 0
        }),
    decreases ls.len(),
{
    law_columns_are_parallel(ls);
    if ls.len() > 0 {
        let init = ls.drop_last();
        law_entries_are_rows(init, k, w);
        law_columns_are_parallel(init);
        let (c0, c) = (columns(init), columns(ls));
        let (r0, rows) = (rows_among(init), rows_among(ls));
        match json_document(encode_utf8(ls.last())) {
            Ok(JsonView::Array(a)) => {
                if a.len() >= 5 {
                    assert(is_range_row(a) <==> (forall|i: int|
                        0 <= i < 4 ==> loose_i64(#[trigger] a[i]) is Some) && loose_u32(
                        a[4],
                    ) is Some);
                }
                if rows.len() > r0.len() {
                    assert(rows == r0.push(a));
                    assert forall|i: int| #[trigger] begins_window(r0, i) implies begins_window(
                        rows,
                        i,
                    ) && rows[i] == r0[i] by {
                        assert(rows[i] == r0[i]);
                        if i > 0 {
                            assert(rows[i - 1] == r0[i - 1]);
                        }
                    }
                    if rows.len() > 1 {
                        assert(rows[0] == r0[0]);
                    }
                    if c.window_start_ms.len() > c0.window_start_ms.len() {
                        let n = r0.len() as int;
                        assert(rows[n] == a);
                        if c.windows.len() > c0.windows.len() {
                            if n > 0 {
                                law_entries_are_rows(init, n - 1, w);
                                assert(rows[n - 1] == r0[n - 1]);
                                assert(c0.windows.last() == c0.window_start_ms[n - 1]);
                            }
                            assert(begins_window(rows, n));
                        }
                    }
                }
            },
            _ => {},
        }
    }
}

/// A query that reads a table as it is asks for the eleven columns in order, by window and price; the
/// prices of a window are its first open, its last close, its highest high and its lowest low.
pub proof fn law_direct_query_columns(db: Seq<char>, q: ParamsView)
    requires
        q.interval_seconds == 30 || q.interval_seconds == 60,
    ensures
        holds_text(range_sql(db, q), "SELECT toUnixTimestamp64Milli(t.window_start) AS ts_ms, t.price, t.bid_qty, t.ask_qty, t.trades, w.ps, w.qs, w.o, w.c, w.h, w.l FROM "@),
        holds_text(range_sql(db, q), "maxIf(open, open > 0)               AS o, argMaxIf(close, ingested_at, close > 0) AS c, maxIf(high, high > 0)               AS h, minIf(low, low > 0)                 AS l FROM "@),
        holds_text(range_sql(db, q), "GROUP BY window_start ) AS w ON t.window_start = w.window_start WHERE "@),
        holds_text(range_sql(db, q), "ORDER BY t.window_start, t.price FORMAT JSONCompactEachRow"@),
{
    lemma_direct_columns();
    let x0 = DIRECT_1@;
    let x1 = x0 + db;
    let x2 = x1 + "."@;
    let x3 = x2 + table_name(q.interval_seconds);
    let x4 = x3 + DIRECT_2@;
    let x5 = x4 + db;
    let x6 = x5 + "."@;
    let x7 = x6 + table_name(q.interval_seconds);
    let x8 = x7 + " FINAL WHERE "@;
    let x9 = x8 + range_filter(q);
    let x10 = x9 + DIRECT_3@;
    let x11 = x10 + range_filter(q);
    let x12 = x11 + DIRECT_4@;
    assert(range_sql(db, q) == x12);
    lemma_holds_text(x0, db, "SELECT toUnixTimestamp64Milli(t.window_start) AS ts_ms, t.price, t.bid_qty, t.ask_qty, t.trades, w.ps, w.qs, w.o, w.c, w.h, w.l FROM "@);
    lemma_holds_text(x1, "."@, "SELECT toUnixTimestamp64Milli(t.window_start) AS ts_ms, t.price, t.bid_qty, t.ask_qty, t.trades, w.ps, w.qs, w.o, w.c, w.h, w.l FROM "@);
    lemma_holds_text(x2, table_name(q.interval_seconds), "SELECT toUnixTimestamp64Milli(t.window_start) AS ts_ms, t.price, t.bid_qty, t.ask_qty, t.trades, w.ps, w.qs, w.o, w.c, w.h, w.l FROM "@);
    lemma_holds_text(x3, DIRECT_2@, "SELECT toUnixTimestamp64Milli(t.window_start) AS ts_ms, t.price, t.bid_qty, t.ask_qty, t.trades, w.ps, w.qs, w.o, w.c, w.h, w.l FROM "@);
    lemma_holds_text(x4, db, "SELECT toUnixTimestamp64Milli(t.window_start) AS ts_ms, t.price, t.bid_qty, t.ask_qty, t.trades, w.ps, w.qs, w.o, w.c, w.h, w.l FROM "@);
    lemma_holds_text(x5, "."@, "SELECT toUnixTimestamp64Milli(t.window_start) AS ts_ms, t.price, t.bid_qty, t.ask_qty, t.trades, w.ps, w.qs, w.o, w.c, w.h, w.l FROM "@);
    lemma_holds_text(x6, table_name(q.interval_seconds), "SELECT toUnixTimestamp64Milli(t.window_start) AS ts_ms, t.price, t.bid_qty, t.ask_qty, t.trades, w.ps, w.qs, w.o, w.c, w.h, w.l FROM "@);
    lemma_holds_text(x7, " FINAL WHERE "@, "SELECT toUnixTimestamp64Milli(t.window_start) AS ts_ms, t.price, t.bid_qty, t.ask_qty, t.trades, w.ps, w.qs, w.o, w.c, w.h, w.l FROM "@);
    lemma_holds_text(x8, range_filter(q), "SELECT toUnixTimestamp64Milli(t.window_start) AS ts_ms, t.price, t.bid_qty, t.ask_qty, t.trades, w.ps, w.qs, w.o, w.c, w.h, w.l FROM "@);
    lemma_holds_text(x9, DIRECT_3@, "SELECT toUnixTimestamp64Milli(t.window_start) AS ts_ms, t.price, t.bid_qty, t.ask_qty, t.trades, w.ps, w.qs, w.o, w.c, w.h, w.l FROM "@);
    lemma_holds_text(x10, range_filter(q), "SELECT toUnixTimestamp64Milli(t.window_start) AS ts_ms, t.price, t.bid_qty, t.ask_qty, t.trades, w.ps, w.qs, w.o, w.c, w.h, w.l FROM "@);
    lemma_holds_text(x11, DIRECT_4@, "SELECT toUnixTimestamp64Milli(t.window_start) AS ts_ms, t.price, t.bid_qty, t.ask_qty, t.trades, w.ps, w.qs, w.o, w.c, w.h, w.l FROM "@);
    lemma_holds_text(x3, DIRECT_2@, "maxIf(open, open > 0)               AS o, argMaxIf(close, ingested_at, close > 0) AS c, maxIf(high, high > 0)               AS h, minIf(low, low > 0)                 AS l FROM "@);
    lemma_holds_text(x4, db, "maxIf(open, open > 0)               AS o, argMaxIf(close, ingested_at, close > 0) AS c, maxIf(high, high > 0)               AS h, minIf(low, low > 0)                 AS l FROM "@);
    lemma_holds_text(x5, "."@, "maxIf(open, open > 0)               AS o, argMaxIf(close, ingested_at, close > 0) AS c, maxIf(high, high > 0)               AS h, minIf(low, low > 0)                 AS l FROM "@);
    lemma_holds_text(x6, table_name(q.interval_seconds), "maxIf(open, open > 0)               AS o, argMaxIf(close, ingested_at, close > 0) AS c, maxIf(high, high > 0)               AS h, minIf(low, low > 0)                 AS l FROM "@);
    lemma_holds_text(x7, " FINAL WHERE "@, "maxIf(open, open > 0)               AS o, argMaxIf(close, ingested_at, close > 0) AS c, maxIf(high, high > 0)               AS h, minIf(low, low > 0)                 AS l FROM "@);
    lemma_holds_text(x8, range_filter(q), "maxIf(open, open > 0)               AS o, argMaxIf(close, ingested_at, close > 0) AS c, maxIf(high, high > 0)               AS h, minIf(low, low > 0)                 AS l FROM "@);
    lemma_holds_text(x9, DIRECT_3@, "maxIf(open, open > 0)               AS o, argMaxIf(close, ingested_at, close > 0) AS c, maxIf(high, high > 0)               AS h, minIf(low, low > 0)                 AS l FROM "@);
    lemma_holds_text(x10, range_filter(q), "maxIf(open, open > 0)               AS o, argMaxIf(close, ingested_at, close > 0) AS c, maxIf(high, high > 0)               AS h, minIf(low, low > 0)                 AS l FROM "@);
    lemma_holds_text(x11, DIRECT_4@, "maxIf(open, open > 0)               AS o, argMaxIf(close, ingested_at, close > 0) AS c, maxIf(high, high > 0)               AS h, minIf(low, low > 0)                 AS l FROM "@);
    lemma_holds_text(x9, DIRECT_3@, "GROUP BY window_start ) AS w ON t.window_start = w.window_start WHERE "@);
    lemma_holds_text(x10, range_filter(q), "GROUP BY window_start ) AS w ON t.window_start = w.window_start WHERE "@);
    lemma_holds_text(x11, DIRECT_4@, "GROUP BY window_start ) AS w ON t.window_start = w.window_start WHERE "@);
    lemma_holds_text(x11, DIRECT_4@, "ORDER BY t.window_start, t.price FORMAT JSONCompactEachRow"@);
}

proof fn lemma_direct_columns()
    ensures
        holds_text(DIRECT_1@, "SELECT toUnixTimestamp64Milli(t.window_start) AS ts_ms, t.price, t.bid_qty, t.ask_qty, t.trades, w.ps, w.qs, w.o, w.c, w.h, w.l FROM "@),
        holds_text(DIRECT_2@, "maxIf(open, open > 0)               AS o, argMaxIf(close, ingested_at, close > 0) AS c, maxIf(high, high > 0)               AS h, minIf(low, low > 0)                 AS l FROM "@),
        holds_text(DIRECT_3@, "GROUP BY window_start ) AS w ON t.window_start = w.window_start WHERE "@),
        holds_text(DIRECT_4@, "ORDER BY t.window_start, t.price FORMAT JSONCompactEachRow"@),
{
    reveal_strlit("SELECT toUnixTimestamp64Milli(t.window_start) AS ts_ms, t.price, t.bid_qty, t.ask_qty, t.trades, w.ps, w.qs, w.o, w.c, w.h, w.l FROM ");
    reveal_strlit(" AS t FINAL INNER JOIN ( SELECT window_start, maxIf(price_scale, price_scale > 0) AS ps, maxIf(qty_scale, qty_scale > 0)     AS qs, maxIf(open, open > 0)               AS o, argMaxIf(close, ingested_at, close > 0) AS c, maxIf(high, high > 0)               AS h, minIf(low, low > 0)                 AS l FROM ");
    reveal_strlit(" GROUP BY window_start ) AS w ON t.window_start = w.window_start WHERE ");
    reveal_strlit(" ORDER BY t.window_start, t.price FORMAT JSONCompactEachRow");
    reveal_strlit("SELECT toUnixTimestamp64Milli(t.window_start) AS ts_ms, t.price, t.bid_qty, t.ask_qty, t.trades, w.ps, w.qs, w.o, w.c, w.h, w.l FROM ");
    assert(DIRECT_1@ =~= DIRECT_1@.take(0) + "SELECT toUnixTimestamp64Milli(t.window_start) AS ts_ms, t.price, t.bid_qty, t.ask_qty, t.trades, w.ps, w.qs, w.o, w.c, w.h, w.l FROM "@ + DIRECT_1@.skip(133));
    reveal_strlit("maxIf(open, open > 0)               AS o, argMaxIf(close, ingested_at, close > 0) AS c, maxIf(high, high > 0)               AS h, minIf(low, low > 0)                 AS l FROM ");
    assert(DIRECT_2@ =~= DIRECT_2@.take(132) + "maxIf(open, open > 0)               AS o, argMaxIf(close, ingested_at, close > 0) AS c, maxIf(high, high > 0)               AS h, minIf(low, low > 0)                 AS l FROM "@ + DIRECT_2@.skip(308));
    reveal_strlit("GROUP BY window_start ) AS w ON t.window_start = w.window_start WHERE ");
    assert(DIRECT_3@ =~= DIRECT_3@.take(1) + "GROUP BY window_start ) AS w ON t.window_start = w.window_start WHERE "@ + DIRECT_3@.skip(71));
    reveal_strlit("ORDER BY t.window_start, t.price FORMAT JSONCompactEachRow");
    assert(DIRECT_4@ =~= DIRECT_4@.take(1) + "ORDER BY t.window_start, t.price FORMAT JSONCompactEachRow"@ + DIRECT_4@.skip(59));
}

/// A query that rolls one-minute bars up asks for the same eleven columns, in order, by window and price:
/// the sums of the minutes on each level, and the prices of the window from those of its minutes.
pub proof fn law_rollup_query_columns(db: Seq<char>, q: ParamsView)
    requires
        q.interval_seconds != 30 && q.interval_seconds != 60,
    ensures
        holds_text(range_sql(db, q), "SELECT toUnixTimestamp(b.rw) * 1000 AS ts_ms, b.price, b.bid_qty, b.ask_qty, b.trades, b.ps, b.qs, w.o, w.c, w.h, w.l FROM "@),
        holds_text(range_sql(db, q), "sum(bid_qty) AS bid_qty, sum(ask_qty) AS ask_qty, sum(trades) AS trades"@),
        holds_text(range_sql(db, q), "GROUP BY rw, price ) AS b INNER JOIN ( SELECT rw, argMinIf(sub_open,  sub_ws, sub_open  > 0) AS o, argMaxIf(sub_close, sub_ws, sub_close > 0) AS c, maxIf(sub_high, sub_high > 0) AS h, minIf(sub_low,  sub_low  > 0) AS l FROM "@),
        holds_text(range_sql(db, q), "GROUP BY rw, window_start ) GROUP BY rw ) AS w ON b.rw = w.rw ORDER BY ts_ms, b.price FORMAT JSONCompactEachRow"@),
{
    lemma_rollup_columns();
    let x0 = ROLLUP_1@;
    let x1 = x0 + decimal(q.interval_seconds as nat);
    let x2 = x1 + ROLLUP_2@;
    let x3 = x2 + db;
    let x4 = x3 + "."@;
    let x5 = x4 + table_name(60);
    let x6 = x5 + " FINAL WHERE "@;
    let x7 = x6 + range_filter(q);
    let x8 = x7 + ROLLUP_3@;
    let x9 = x8 + decimal(q.interval_seconds as nat);
    let x10 = x9 + ROLLUP_4@;
    let x11 = x10 + db;
    let x12 = x11 + "."@;
    let x13 = x12 + table_name(60);
    let x14 = x13 + " FINAL WHERE "@;
    let x15 = x14 + range_filter(q);
    let x16 = x15 + ROLLUP_5@;
    assert(range_sql(db, q) == x16);
    lemma_holds_text(x0, decimal(q.interval_seconds as nat), "SELECT toUnixTimestamp(b.rw) * 1000 AS ts_ms, b.price, b.bid_qty, b.ask_qty, b.trades, b.ps, b.qs, w.o, w.c, w.h, w.l FROM "@);
    lemma_holds_text(x1, ROLLUP_2@, "SELECT toUnixTimestamp(b.rw) * 1000 AS ts_ms, b.price, b.bid_qty, b.ask_qty, b.trades, b.ps, b.qs, w.o, w.c, w.h, w.l FROM "@);
    lemma_holds_text(x2, db, "SELECT toUnixTimestamp(b.rw) * 1000 AS ts_ms, b.price, b.bid_qty, b.ask_qty, b.trades, b.ps, b.qs, w.o, w.c, w.h, w.l FROM "@);
    lemma_holds_text(x3, "."@, "SELECT toUnixTimestamp(b.rw) * 1000 AS ts_ms, b.price, b.bid_qty, b.ask_qty, b.trades, b.ps, b.qs, w.o, w.c, w.h, w.l FROM "@);
    lemma_holds_text(x4, table_name(60), "SELECT toUnixTimestamp(b.rw) * 1000 AS ts_ms, b.price, b.bid_qty, b.ask_qty, b.trades, b.ps, b.qs, w.o, w.c, w.h, w.l FROM "@);
    lemma_holds_text(x5, " FINAL WHERE "@, "SELECT toUnixTimestamp(b.rw) * 1000 AS ts_ms, b.price, b.bid_qty, b.ask_qty, b.trades, b.ps, b.qs, w.o, w.c, w.h, w.l FROM "@);
    lemma_holds_text(x6, range_filter(q), "SELECT toUnixTimestamp(b.rw) * 1000 AS ts_ms, b.price, b.bid_qty, b.ask_qty, b.trades, b.ps, b.qs, w.o, w.c, w.h, w.l FROM "@);
    lemma_holds_text(x7, ROLLUP_3@, "SELECT toUnixTimestamp(b.rw) * 1000 AS ts_ms, b.price, b.bid_qty, b.ask_qty, b.trades, b.ps, b.qs, w.o, w.c, w.h, w.l FROM "@);
    lemma_holds_text(x8, decimal(q.interval_seconds as nat), "SELECT toUnixTimestamp(b.rw) * 1000 AS ts_ms, b.price, b.bid_qty, b.ask_qty, b.trades, b.ps, b.qs, w.o, w.c, w.h, w.l FROM "@);
    lemma_holds_text(x9, ROLLUP_4@, "SELECT toUnixTimestamp(b.rw) * 1000 AS ts_ms, b.price, b.bid_qty, b.ask_qty, b.trades, b.ps, b.qs, w.o, w.c, w.h, w.l FROM "@);
    lemma_holds_text(x10, db, "SELECT toUnixTimestamp(b.rw) * 1000 AS ts_ms, b.price, b.bid_qty, b.ask_qty, b.trades, b.ps, b.qs, w.o, w.c, w.h, w.l FROM "@);
    lemma_holds_text(x11, "."@, "SELECT toUnixTimestamp(b.rw) * 1000 AS ts_ms, b.price, b.bid_qty, b.ask_qty, b.trades, b.ps, b.qs, w.o, w.c, w.h, w.l FROM "@);
    lemma_holds_text(x12, table_name(60), "SELECT toUnixTimestamp(b.rw) * 1000 AS ts_ms, b.price, b.bid_qty, b.ask_qty, b.trades, b.ps, b.qs, w.o, w.c, w.h, w.l FROM "@);
    lemma_holds_text(x13, " FINAL WHERE "@, "SELECT toUnixTimestamp(b.rw) * 1000 AS ts_ms, b.price, b.bid_qty, b.ask_qty, b.trades, b.ps, b.qs, w.o, w.c, w.h, w.l FROM "@);
    lemma_holds_text(x14, range_filter(q), "SELECT toUnixTimestamp(b.rw) * 1000 AS ts_ms, b.price, b.bid_qty, b.ask_qty, b.trades, b.ps, b.qs, w.o, w.c, w.h, w.l FROM "@);
    lemma_holds_text(x15, ROLLUP_5@, "SELECT toUnixTimestamp(b.rw) * 1000 AS ts_ms, b.price, b.bid_qty, b.ask_qty, b.trades, b.ps, b.qs, w.o, w.c, w.h, w.l FROM "@);
    lemma_holds_text(x1, ROLLUP_2@, "sum(bid_qty) AS bid_qty, sum(ask_qty) AS ask_qty, sum(trades) AS trades"@);
    lemma_holds_text(x2, db, "sum(bid_qty) AS bid_qty, sum(ask_qty) AS ask_qty, sum(trades) AS trades"@);
    lemma_holds_text(x3, "."@, "sum(bid_qty) AS bid_qty, sum(ask_qty) AS ask_qty, sum(trades) AS trades"@);
    lemma_holds_text(x4, table_name(60), "sum(bid_qty) AS bid_qty, sum(ask_qty) AS ask_qty, sum(trades) AS trades"@);
    lemma_holds_text(x5, " FINAL WHERE "@, "sum(bid_qty) AS bid_qty, sum(ask_qty) AS ask_qty, sum(trades) AS trades"@);
    lemma_holds_text(x6, range_filter(q), "sum(bid_qty) AS bid_qty, sum(ask_qty) AS ask_qty, sum(trades) AS trades"@);
    lemma_holds_text(x7, ROLLUP_3@, "sum(bid_qty) AS bid_qty, sum(ask_qty) AS ask_qty, sum(trades) AS trades"@);
    lemma_holds_text(x8, decimal(q.interval_seconds as nat), "sum(bid_qty) AS bid_qty, sum(ask_qty) AS ask_qty, sum(trades) AS trades"@);
    lemma_holds_text(x9, ROLLUP_4@, "sum(bid_qty) AS bid_qty, sum(ask_qty) AS ask_qty, sum(trades) AS trades"@);
    lemma_holds_text(x10, db, "sum(bid_qty) AS bid_qty, sum(ask_qty) AS ask_qty, sum(trades) AS trades"@);
    lemma_holds_text(x11, "."@, "sum(bid_qty) AS bid_qty, sum(ask_qty) AS ask_qty, sum(trades) AS trades"@);
    lemma_holds_text(x12, table_name(60), "sum(bid_qty) AS bid_qty, sum(ask_qty) AS ask_qty, sum(trades) AS trades"@);
    lemma_holds_text(x13, " FINAL WHERE "@, "sum(bid_qty) AS bid_qty, sum(ask_qty) AS ask_qty, sum(trades) AS trades"@);
    lemma_holds_text(x14, range_filter(q), "sum(bid_qty) AS bid_qty, sum(ask_qty) AS ask_qty, sum(trades) AS trades"@);
    lemma_holds_text(x15, ROLLUP_5@, "sum(bid_qty) AS bid_qty, sum(ask_qty) AS ask_qty, sum(trades) AS trades"@);
    lemma_holds_text(x7, ROLLUP_3@, "GROUP BY rw, price ) AS b INNER JOIN ( SELECT rw, argMinIf(sub_open,  sub_ws, sub_open  > 0) AS o, argMaxIf(sub_close, sub_ws, sub_close > 0) AS c, maxIf(sub_high, sub_high > 0) AS h, minIf(sub_low,  sub_low  > 0) AS l FROM "@);
    lemma_holds_text(x8, decimal(q.interval_seconds as nat), "GROUP BY rw, price ) AS b INNER JOIN ( SELECT rw, argMinIf(sub_open,  sub_ws, sub_open  > 0) AS o, argMaxIf(sub_close, sub_ws, sub_close > 0) AS c, maxIf(sub_high, sub_high > 0) AS h, minIf(sub_low,  sub_low  > 0) AS l FROM "@);
    lemma_holds_text(x9, ROLLUP_4@, "GROUP BY rw, price ) AS b INNER JOIN ( SELECT rw, argMinIf(sub_open,  sub_ws, sub_open  > 0) AS o, argMaxIf(sub_close, sub_ws, sub_close > 0) AS c, maxIf(sub_high, sub_high > 0) AS h, minIf(sub_low,  sub_low  > 0) AS l FROM "@);
    lemma_holds_text(x10, db, "GROUP BY rw, price ) AS b INNER JOIN ( SELECT rw, argMinIf(sub_open,  sub_ws, sub_open  > 0) AS o, argMaxIf(sub_close, sub_ws, sub_close > 0) AS c, maxIf(sub_high, sub_high > 0) AS h, minIf(sub_low,  sub_low  > 0) AS l FROM "@);
    lemma_holds_text(x11, "."@, "GROUP BY rw, price ) AS b INNER JOIN ( SELECT rw, argMinIf(sub_open,  sub_ws, sub_open  > 0) AS o, argMaxIf(sub_close, sub_ws, sub_close > 0) AS c, maxIf(sub_high, sub_high > 0) AS h, minIf(sub_low,  sub_low  > 0) AS l FROM "@);
    lemma_holds_text(x12, table_name(60), "GROUP BY rw, price ) AS b INNER JOIN ( SELECT rw, argMinIf(sub_open,  sub_ws, sub_open  > 0) AS o, argMaxIf(sub_close, sub_ws, sub_close > 0) AS c, maxIf(sub_high, sub_high > 0) AS h, minIf(sub_low,  sub_low  > 0) AS l FROM "@);
    lemma_holds_text(x13, " FINAL WHERE "@, "GROUP BY rw, price ) AS b INNER JOIN ( SELECT rw, argMinIf(sub_open,  sub_ws, sub_open  > 0) AS o, argMaxIf(sub_close, sub_ws, sub_close > 0) AS c, maxIf(sub_high, sub_high > 0) AS h, minIf(sub_low,  sub_low  > 0) AS l FROM "@);
    lemma_holds_text(x14, range_filter(q), "GROUP BY rw, price ) AS b INNER JOIN ( SELECT rw, argMinIf(sub_open,  sub_ws, sub_open  > 0) AS o, argMaxIf(sub_close, sub_ws, sub_close > 0) AS c, maxIf(sub_high, sub_high > 0) AS h, minIf(sub_low,  sub_low  > 0) AS l FROM "@);
    lemma_holds_text(x15, ROLLUP_5@, "GROUP BY rw, price ) AS b INNER JOIN ( SELECT rw, argMinIf(sub_open,  sub_ws, sub_open  > 0) AS o, argMaxIf(sub_close, sub_ws, sub_close > 0) AS c, maxIf(sub_high, sub_high > 0) AS h, minIf(sub_low,  sub_low  > 0) AS l FROM "@);
    lemma_holds_text(x15, ROLLUP_5@, "GROUP BY rw, window_start ) GROUP BY rw ) AS w ON b.rw = w.rw ORDER BY ts_ms, b.price FORMAT JSONCompactEachRow"@);
}

proof fn lemma_rollup_columns()
    ensures
        holds_text(ROLLUP_1@, "SELECT toUnixTimestamp(b.rw) * 1000 AS ts_ms, b.price, b.bid_qty, b.ask_qty, b.trades, b.ps, b.qs, w.o, w.c, w.h, w.l FROM "@),
        holds_text(ROLLUP_2@, "sum(bid_qty) AS bid_qty, sum(ask_qty) AS ask_qty, sum(trades) AS trades"@),
        holds_text(ROLLUP_3@, "GROUP BY rw, price ) AS b INNER JOIN ( SELECT rw, argMinIf(sub_open,  sub_ws, sub_open  > 0) AS o, argMaxIf(sub_close, sub_ws, sub_close > 0) AS c, maxIf(sub_high, sub_high > 0) AS h, minIf(sub_low,  sub_low  > 0) AS l FROM "@),
        holds_text(ROLLUP_5@, "GROUP BY rw, window_start ) GROUP BY rw ) AS w ON b.rw = w.rw ORDER BY ts_ms, b.price FORMAT JSONCompactEachRow"@),
{
    reveal_strlit("SELECT toUnixTimestamp(b.rw) * 1000 AS ts_ms, b.price, b.bid_qty, b.ask_qty, b.trades, b.ps, b.qs, w.o, w.c, w.h, w.l FROM ( SELECT toStartOfInterval(window_start, INTERVAL ");
    reveal_strlit(" SECOND, 'UTC') AS rw, price, sum(bid_qty) AS bid_qty, sum(ask_qty) AS ask_qty, sum(trades) AS trades, maxIf(price_scale, price_scale > 0) AS ps, maxIf(qty_scale, qty_scale > 0) AS qs FROM ");
    reveal_strlit(" GROUP BY rw, price ) AS b INNER JOIN ( SELECT rw, argMinIf(sub_open,  sub_ws, sub_open  > 0) AS o, argMaxIf(sub_close, sub_ws, sub_close > 0) AS c, maxIf(sub_high, sub_high > 0) AS h, minIf(sub_low,  sub_low  > 0) AS l FROM ( SELECT toStartOfInterval(window_start, INTERVAL ");
    reveal_strlit(" GROUP BY rw, window_start ) GROUP BY rw ) AS w ON b.rw = w.rw ORDER BY ts_ms, b.price FORMAT JSONCompactEachRow");
    reveal_strlit("SELECT toUnixTimestamp(b.rw) * 1000 AS ts_ms, b.price, b.bid_qty, b.ask_qty, b.trades, b.ps, b.qs, w.o, w.c, w.h, w.l FROM ");
    assert(ROLLUP_1@ =~= ROLLUP_1@.take(0) + "SELECT toUnixTimestamp(b.rw) * 1000 AS ts_ms, b.price, b.bid_qty, b.ask_qty, b.trades, b.ps, b.qs, w.o, w.c, w.h, w.l FROM "@ + ROLLUP_1@.skip(123));
    reveal_strlit("sum(bid_qty) AS bid_qty, sum(ask_qty) AS ask_qty, sum(trades) AS trades");
    assert(ROLLUP_2@ =~= ROLLUP_2@.take(30) + "sum(bid_qty) AS bid_qty, sum(ask_qty) AS ask_qty, sum(trades) AS trades"@ + ROLLUP_2@.skip(101));
    reveal_strlit("GROUP BY rw, price ) AS b INNER JOIN ( SELECT rw, argMinIf(sub_open,  sub_ws, sub_open  > 0) AS o, argMaxIf(sub_close, sub_ws, sub_close > 0) AS c, maxIf(sub_high, sub_high > 0) AS h, minIf(sub_low,  sub_low  > 0) AS l FROM ");
    assert(ROLLUP_3@ =~= ROLLUP_3@.take(1) + "GROUP BY rw, price ) AS b INNER JOIN ( SELECT rw, argMinIf(sub_open,  sub_ws, sub_open  > 0) AS o, argMaxIf(sub_close, sub_ws, sub_close > 0) AS c, maxIf(sub_high, sub_high > 0) AS h, minIf(sub_low,  sub_low  > 0) AS l FROM "@ + ROLLUP_3@.skip(225));
    reveal_strlit("GROUP BY rw, window_start ) GROUP BY rw ) AS w ON b.rw = w.rw ORDER BY ts_ms, b.price FORMAT JSONCompactEachRow");
    assert(ROLLUP_5@ =~= ROLLUP_5@.take(1) + "GROUP BY rw, window_start ) GROUP BY rw ) AS w ON b.rw = w.rw ORDER BY ts_ms, b.price FORMAT JSONCompactEachRow"@ + ROLLUP_5@.skip(112));
}

} // verus!
