//! Rows for ClickHouse: one for each price level of a closing snapshot, written in batches.

use vstd::prelude::*;
use vstd::string::*;

use crate::json::{json_text, text, write_json, JsonView};
use crate::text::{
    decimal, decimal_int, i64_text, join, joined, lemma_decimal_value, lemma_index_of_is, lines,
    trim_end_char, u64_text, views, without_trailing,
};
use crate::types::{
    wire_name, AnalyticsSnapshot, ClusterBucket, ClusterFrame, MarketType, Quote, SpecView,
    SymbolSpec,
};
use crate::url::{query_target, query_url};

verus! {

/// One price level of one window, as it is stored. `window_start` is in milliseconds.
#[derive(Debug, Clone)]
pub struct ClusterRow {
    pub exchange: &'static str,
    pub market_type: &'static str,
    pub quote: &'static str,
    pub symbol: String,
    pub window_start: i64,
    pub price: i64,
    pub price_scale: u8,
    pub bid_qty: i64,
    pub ask_qty: i64,
    pub trades: u32,
    pub qty_scale: u8,
    pub ingest_region: String,
}

/// What a `ClusterRow` says.
pub struct RowData {
    pub exchange: Seq<char>,
    pub market_type: Seq<char>,
    pub quote: Seq<char>,
    pub symbol: Seq<char>,
    pub window_start: i64,
    pub price: i64,
    pub price_scale: u8,
    pub bid_qty: i64,
    pub ask_qty: i64,
    pub trades: u32,
    pub qty_scale: u8,
    pub ingest_region: Seq<char>,
}

impl View for ClusterRow {
    type V = RowData;

    open spec fn view(&self) -> RowData {
        RowData {
            exchange: self.exchange@,
            market_type: self.market_type@,
            quote: self.quote@,
            symbol: self.symbol@,
            window_start: self.window_start,
            price: self.price,
            price_scale: self.price_scale,
            bid_qty: self.bid_qty,
            ask_qty: self.ask_qty,
            trades: self.trades,
            qty_scale: self.qty_scale,
            ingest_region: self.ingest_region@,
        }
    }
}

/// The views of a row of rows.
pub open spec fn row_views(rows: Seq<ClusterRow>) -> Seq<RowData> {
    rows.map_values(|r: ClusterRow| r@)
}

/// The name of a market in stored rows.
pub open spec fn market_name(m: MarketType) -> Seq<char> {
    match m {
        MarketType::Spot => "spot"@,
        MarketType::Perp => "perp"@,
    }
}

/// The name of a quote currency in stored rows.
pub open spec fn quote_name(q: Quote) -> Seq<char> {
    match q {
        Quote::Usdt => "USDT"@,
        Quote::Usdc => "USDC"@,
    }
}

/// Nanoseconds as milliseconds, rounded towards zero.
pub open spec fn ns_to_ms(ns: i64) -> i64 {
    if ns >= 0 {
        (ns / 1_000_000) as i64
    } else {
        (-((-ns) / 1_000_000)) as i64
    }
}

/// The row of one bucket.
pub open spec fn stored_row(
    window_start_ns: i64,
    b: ClusterBucket,
    spec: SpecView,
    region: Seq<char>,
) -> RowData {
    RowData {
        exchange: wire_name(spec.exchange),
        market_type: market_name(spec.market_type),
        quote: quote_name(spec.quote),
        symbol: spec.symbol,
        window_start: ns_to_ms(window_start_ns),
        price: b.price,
        price_scale: spec.price_scale,
        bid_qty: b.bid_qty,
        ask_qty: b.ask_qty,
        trades: b.trades,
        qty_scale: spec.qty_scale,
        ingest_region: region,
    }
}

/// The rows of a snapshot, one for each bucket.
pub open spec fn snapshot_rows(
    snap: AnalyticsSnapshot,
    spec: SpecView,
    region: Seq<char>,
) -> Seq<RowData> {
    snap.clusters@.map_values(
        |b: ClusterBucket| stored_row(snap.window_start_ns, b, spec, region),
    )
}

/// Makes the rows of a snapshot.
pub fn rows_from_snapshot(snap: &AnalyticsSnapshot, spec: &SymbolSpec, region: &str) -> (r: Vec<
    ClusterRow,
>)
    ensures
        row_views(r@) == snapshot_rows(*snap, spec@, region@),
{
    let market_type = match spec.market_type {
        MarketType::Spot => "spot",
        MarketType::Perp => "perp",
    };
    let quote = match spec.quote {
        Quote::Usdt => "USDT",
        Quote::Usdc => "USDC",
    };
    let window_start: i64 = snap.window_start_ns / 1_000_000;
    let mut out: Vec<ClusterRow> = Vec::new();
    let mut i: usize = 0;
    while i < snap.clusters.len()
        invariant
            i <= snap.clusters@.len(),
            out@.len() == i,
            market_type@ == market_name(spec.market_type),
            quote@ == quote_name(spec.quote),
            window_start == ns_to_ms(snap.window_start_ns),
            forall|k: int|
                0 <= k < i ==> (#[trigger] out@[k])@ == stored_row(
                    snap.window_start_ns,
                    snap.clusters@[k],
                    spec@,
                    region@,
                ),
        decreases snap.clusters@.len() - i,
    {
        let b: ClusterBucket = snap.clusters[i];
        out.push(
            ClusterRow {
                exchange: spec.exchange.wire_id(),
                market_type,
                quote,
                symbol: spec.symbol.clone(),
                window_start,
                price: b.price,
                price_scale: spec.price_scale,
                bid_qty: b.bid_qty,
                ask_qty: b.ask_qty,
                trades: b.trades,
                qty_scale: spec.qty_scale,
                ingest_region: region.to_owned(),
            },
        );
        i = i + 1;
    }
    assert(row_views(out@) =~= snapshot_rows(*snap, spec@, region@));
    out
}

/// The rows of a frame: a snapshot is stored, a diff is for live subscribers alone.
pub open spec fn frame_rows(f: ClusterFrame, spec: SpecView, region: Seq<char>) -> Seq<RowData> {
    match f {
        ClusterFrame::Snapshot(s) => snapshot_rows(*s, spec, region),
        ClusterFrame::Diff(_) => Seq::empty(),
    }
}

/// Makes the rows of a frame.
pub fn rows_from_frame(frame: &ClusterFrame, spec: &SymbolSpec, region: &str) -> (r: Vec<
    ClusterRow,
>)
    ensures
        row_views(r@) == frame_rows(*frame, spec@, region@),
{
    match frame {
        ClusterFrame::Snapshot(s) => rows_from_snapshot(s, spec, region),
        ClusterFrame::Diff(_) => {
            let out: Vec<ClusterRow> = Vec::new();
            assert(row_views(out@) =~= Seq::<RowData>::empty());
            out
        },
    }
}

/// A text as a JSON string.
pub open spec fn json_string(s: Seq<char>) -> Seq<char> {
    json_text(JsonView::Text(s))
}

/// A row as one JSON object, its members in the order of the fields.
pub open spec fn row_json(r: RowData) -> Seq<char> {
    "{\"exchange\":"@ + json_string(r.exchange) + ",\"market_type\":"@ + json_string(r.market_type)
        + ",\"quote\":"@ + json_string(r.quote) + ",\"symbol\":"@ + json_string(r.symbol)
        + ",\"window_start\":"@ + decimal_int(r.window_start as int) + ",\"price\":"@ + decimal_int(
        r.price as int,
    ) + ",\"price_scale\":"@ + decimal(r.price_scale as nat) + ",\"bid_qty\":"@ + decimal_int(
        r.bid_qty as int,
    ) + ",\"ask_qty\":"@ + decimal_int(r.ask_qty as int) + ",\"trades\":"@ + decimal(
        r.trades as nat,
    ) + ",\"qty_scale\":"@ + decimal(r.qty_scale as nat) + ",\"ingest_region\":"@ + json_string(
        r.ingest_region,
    ) + "}"@
}

/// The JSON objects of a row of rows.
pub open spec fn row_texts(rows: Seq<RowData>) -> Seq<Seq<char>> {
    rows.map_values(|r: RowData| row_json(r))
}

fn string_json(s: &str) -> (r: String)
    ensures
        r@ == json_string(s@),
        !r@.contains('\n'),
{
    write_json(&text(s))
}

/// The text has no line feed.
pub open spec fn one_line(s: Seq<char>) -> bool {
    !s.contains('\n')
}

proof fn lemma_one_line_concat(a: Seq<char>, b: Seq<char>)
    requires
        one_line(a),
        one_line(b),
    ensures
        one_line(a + b),
{
    if (a + b).contains('\n') {
        let i = (a + b).index_of('\n');
        if i < a.len() {
            assert(a[i] == '\n');
        } else {
            assert(b[i - a.len()] == '\n');
        }
    }
}

proof fn lemma_one_line_decimal(n: int)
    ensures
        one_line(decimal_int(n)),
        n >= 0 ==> one_line(decimal(n as nat)),
{
    let m = if n < 0 {
        -n
    } else {
        n
    };
    lemma_decimal_value(m as nat);
    let d = decimal(m as nat);
    if d.contains('\n') {
        let i = d.index_of('\n');
        assert(crate::text::is_digit(d[i]));
    }
    if n < 0 {
        let s = seq!['-'];
        assert(one_line(s));
        lemma_one_line_concat(s, d);
    }
}

/// Every text of the row's members is one line.
pub open spec fn texts_are_lines(r: RowData) -> bool {
    &&& one_line(json_string(r.exchange))
    &&& one_line(json_string(r.market_type))
    &&& one_line(json_string(r.quote))
    &&& one_line(json_string(r.symbol))
    &&& one_line(json_string(r.ingest_region))
}

proof fn lemma_row_is_line(r: RowData)
    requires
        texts_are_lines(r),
    ensures
        one_line(row_json(r)),
        row_json(r).len() > 0,
        row_json(r).last() == '}',
{
    reveal_strlit("{\"exchange\":");
    reveal_strlit(",\"market_type\":");
    reveal_strlit(",\"quote\":");
    reveal_strlit(",\"symbol\":");
    reveal_strlit(",\"window_start\":");
    reveal_strlit(",\"price\":");
    reveal_strlit(",\"price_scale\":");
    reveal_strlit(",\"bid_qty\":");
    reveal_strlit(",\"ask_qty\":");
    reveal_strlit(",\"trades\":");
    reveal_strlit(",\"qty_scale\":");
    reveal_strlit(",\"ingest_region\":");
    reveal_strlit("}");
    lemma_one_line_decimal(r.window_start as int);
    lemma_one_line_decimal(r.price as int);
    lemma_one_line_decimal(r.price_scale as int);
    lemma_one_line_decimal(r.bid_qty as int);
    lemma_one_line_decimal(r.ask_qty as int);
    lemma_one_line_decimal(r.trades as int);
    lemma_one_line_decimal(r.qty_scale as int);
    let s0 = "{\"exchange\":"@;
    let s1 = s0 + json_string(r.exchange);
    lemma_one_line_concat(s0, json_string(r.exchange));
    let s2 = s1 + ",\"market_type\":"@;
    lemma_one_line_concat(s1, ",\"market_type\":"@);
    let s3 = s2 + json_string(r.market_type);
    lemma_one_line_concat(s2, json_string(r.market_type));
    let s4 = s3 + ",\"quote\":"@;
    lemma_one_line_concat(s3, ",\"quote\":"@);
    let s5 = s4 + json_string(r.quote);
    lemma_one_line_concat(s4, json_string(r.quote));
    let s6 = s5 + ",\"symbol\":"@;
    lemma_one_line_concat(s5, ",\"symbol\":"@);
    let s7 = s6 + json_string(r.symbol);
    lemma_one_line_concat(s6, json_string(r.symbol));
    let s8 = s7 + ",\"window_start\":"@;
    lemma_one_line_concat(s7, ",\"window_start\":"@);
    let s9 = s8 + decimal_int(r.window_start as int);
    lemma_one_line_concat(s8, decimal_int(r.window_start as int));
    let s10 = s9 + ",\"price\":"@;
    lemma_one_line_concat(s9, ",\"price\":"@);
    let s11 = s10 + decimal_int(r.price as int);
    lemma_one_line_concat(s10, decimal_int(r.price as int));
    let s12 = s11 + ",\"price_scale\":"@;
    lemma_one_line_concat(s11, ",\"price_scale\":"@);
    let s13 = s12 + decimal(r.price_scale as nat);
    lemma_one_line_concat(s12, decimal(r.price_scale as nat));
    let s14 = s13 + ",\"bid_qty\":"@;
    lemma_one_line_concat(s13, ",\"bid_qty\":"@);
    let s15 = s14 + decimal_int(r.bid_qty as int);
    lemma_one_line_concat(s14, decimal_int(r.bid_qty as int));
    let s16 = s15 + ",\"ask_qty\":"@;
    lemma_one_line_concat(s15, ",\"ask_qty\":"@);
    let s17 = s16 + decimal_int(r.ask_qty as int);
    lemma_one_line_concat(s16, decimal_int(r.ask_qty as int));
    let s18 = s17 + ",\"trades\":"@;
    lemma_one_line_concat(s17, ",\"trades\":"@);
    let s19 = s18 + decimal(r.trades as nat);
    lemma_one_line_concat(s18, decimal(r.trades as nat));
    let s20 = s19 + ",\"qty_scale\":"@;
    lemma_one_line_concat(s19, ",\"qty_scale\":"@);
    let s21 = s20 + decimal(r.qty_scale as nat);
    lemma_one_line_concat(s20, decimal(r.qty_scale as nat));
    let s22 = s21 + ",\"ingest_region\":"@;
    lemma_one_line_concat(s21, ",\"ingest_region\":"@);
    let s23 = s22 + json_string(r.ingest_region);
    lemma_one_line_concat(s22, json_string(r.ingest_region));
    lemma_one_line_concat(s23, "}"@);
    assert(row_json(r) == s23 + "}"@);
}

proof fn lemma_joined_front(parts: Seq<Seq<char>>, sep: Seq<char>)
    requires
        parts.len() >= 2,
    ensures
        joined(parts, sep) == parts[0] + sep + joined(parts.skip(1), sep),
    decreases parts.len(),
{
    let init = parts.drop_last();
    if parts.len() == 2 {
        assert(joined(init, sep) == parts[0]);
        assert(joined(parts.skip(1), sep) == parts[1]);
    } else {
        lemma_joined_front(init, sep);
        assert(init.skip(1) =~= parts.skip(1).drop_last());
        assert(parts.skip(1).last() == parts.last());
        assert(joined(parts, sep) =~= parts[0] + sep + joined(parts.skip(1), sep));
    }
}

/// Texts of one line each, joined by line feeds, are the lines of the result.
pub proof fn law_joined_lines(parts: Seq<Seq<char>>)
    requires
        forall|i: int|
            0 <= i < parts.len() ==> one_line(#[trigger] parts[i]) && parts[i].len() > 0
                && parts[i].last() != '\r',
    ensures
        lines(joined(parts, "\n"@)) == parts,
    decreases parts.len(),
{
    reveal_strlit("\n");
    let sep = "\n"@;
    let s = joined(parts, sep);
    if parts.len() == 0 {
        assert(lines(s) =~= parts);
    } else {
        let head = parts[0];
        assert(one_line(head));
        if parts.len() == 1 {
            assert forall|i: int| 0 <= i < head.len() implies head[i] != '\n' by {
                if head[i] == '\n' {
                    assert(head.contains('\n'));
                }
            }
            lemma_index_of_is(s, '\n', s.len() as int);
            assert(lines(s) =~= parts);
        } else {
            let rest = parts.skip(1);
            lemma_joined_front(parts, sep);
            assert forall|i: int| 0 <= i < rest.len() implies one_line(#[trigger] rest[i])
                && rest[i].len() > 0 && rest[i].last() != '\r' by {
                assert(rest[i] == parts[i + 1]);
            }
            law_joined_lines(rest);
            assert forall|i: int| 0 <= i < head.len() implies s[i] != '\n' by {
                assert(s[i] == head[i]);
                if head[i] == '\n' {
                    assert(head.contains('\n'));
                }
            }
            assert(s[head.len() as int] == '\n');
            lemma_index_of_is(s, '\n', head.len() as int);
            assert(s.take(head.len() as int) =~= head);
            assert(s.skip(head.len() as int + 1) =~= joined(rest, sep));
            assert(seq![head] + rest =~= parts);
        }
    }
}

/// Writes one row as a JSON object.
pub fn row_to_json(row: &ClusterRow) -> (r: String)
    ensures
        r@ == row_json(row@),
        one_line(r@),
        r@.len() > 0,
        r@.last() == '}',
{
    let exchange = string_json(row.exchange);
    let market_type = string_json(row.market_type);
    let quote = string_json(row.quote);
    let symbol = string_json(row.symbol.as_str());
    let region = string_json(row.ingest_region.as_str());
    proof {
        lemma_row_is_line(row@);
    }
    "{\"exchange\":".to_owned().concat(exchange.as_str()).concat(",\"market_type\":").concat(
        market_type.as_str(),
    ).concat(",\"quote\":").concat(quote.as_str()).concat(",\"symbol\":").concat(
        symbol.as_str(),
    ).concat(",\"window_start\":").concat(i64_text(row.window_start).as_str()).concat(
        ",\"price\":",
    ).concat(i64_text(row.price).as_str()).concat(",\"price_scale\":").concat(
        u64_text(row.price_scale as u64).as_str(),
    ).concat(",\"bid_qty\":").concat(i64_text(row.bid_qty).as_str()).concat(
        ",\"ask_qty\":",
    ).concat(i64_text(row.ask_qty).as_str()).concat(",\"trades\":").concat(
        u64_text(row.trades as u64).as_str(),
    ).concat(",\"qty_scale\":").concat(u64_text(row.qty_scale as u64).as_str()).concat(
        ",\"ingest_region\":",
    ).concat(region.as_str()).concat("}")
}

/// Writes rows one JSON object to a line, without a line end after the last.
pub fn serialize_jsoneachrow(rows: &[ClusterRow]) -> (r: Result<String, String>)
    ensures
        r is Ok,
        r->Ok_0@ == joined(row_texts(row_views(rows@)), "\n"@),
        lines(r->Ok_0@) == row_texts(row_views(rows@)),
{
    let mut texts: Vec<String> = Vec::new();
    let mut i: usize = 0;
    while i < rows.len()
        invariant
            i <= rows@.len(),
            texts@.len() == i,
            forall|k: int|
                0 <= k < i ==> (#[trigger] texts@[k])@ == row_json(rows@[k]@) && one_line(
                    texts@[k]@,
                ) && texts@[k]@.len() > 0 && texts@[k]@.last() == '}',
        decreases rows@.len() - i,
    {
        texts.push(row_to_json(&rows[i]));
        i = i + 1;
    }
    proof {
        let parts = row_texts(row_views(rows@));
        assert(views(texts@) =~= parts);
        assert forall|k: int| 0 <= k < parts.len() implies one_line(#[trigger] parts[k])
            && parts[k].len() > 0 && parts[k].last() != '\r' by {
            assert(parts[k] == texts@[k]@);
        }
        law_joined_lines(parts);
    }
    Ok(join(&texts, "\n"))
}

/// Where and how rows are written. The batch goes out when it is full, and otherwise once in each
/// flush interval.
#[derive(Debug, Clone)]
pub struct ChWriterConfig {
    pub url: String,
    pub database: String,
    pub table: String,
    pub batch_size: usize,
    pub flush_interval_ms: u64,
    pub request_timeout_ms: u64,
}

impl Default for ChWriterConfig {
    fn default() -> (r: ChWriterConfig)
        ensures
            r.url@ == "http://127.0.0.1:8123"@,
            r.database@ == "clusters"@,
            r.table@ == "clusters_1m"@,
            r.batch_size == 5000,
            r.flush_interval_ms == 2000,
            r.request_timeout_ms == 15_000,
    {
        ChWriterConfig {
            url: "http://127.0.0.1:8123".to_owned(),
            database: "clusters".to_owned(),
            table: "clusters_1m".to_owned(),
            batch_size: 5000,
            flush_interval_ms: 2000,
            request_timeout_ms: 15_000,
        }
    }
}

/// What has been written.
#[derive(Debug, Clone, Copy, PartialEq, Eq, Structural)]
pub struct WriterStats {
    pub batches_ok: u64,
    pub batches_err: u64,
    pub rows_ok: u64,
}

impl Default for WriterStats {
    fn default() -> (r: WriterStats)
        ensures
            r == (WriterStats { batches_ok: 0, batches_err: 0, rows_ok: 0 }),
    {
        WriterStats { batches_ok: 0, batches_err: 0, rows_ok: 0 }
    }
}

/// Rows that wait for ClickHouse, with what has been written.
pub struct ChWriter {
    cfg: ChWriterConfig,
    batch: Vec<ClusterRow>,
    stats: WriterStats,
}

/// The state of a writer.
pub struct WriterView {
    pub batch_size: nat,
    pub batch: Seq<ClusterRow>,
    pub stats: WriterStats,
}

impl View for ChWriter {
    type V = WriterView;

    closed spec fn view(&self) -> WriterView {
        WriterView {
            batch_size: self.cfg.batch_size as nat,
            batch: self.batch@,
            stats: self.stats,
        }
    }
}

impl WriterView {
    /// The state after a row came in.
    pub open spec fn after_row(self, row: ClusterRow) -> WriterView {
        WriterView { batch: self.batch.push(row), ..self }
    }

    /// The batch is full.
    pub open spec fn is_full(self) -> bool {
        self.batch.len() >= self.batch_size
    }

    /// The state after the batch was sent. A batch that could not be sent is kept, to be sent again.
    pub open spec fn after_flush(self, ok: bool) -> WriterView {
        if ok {
            WriterView {
                batch: Seq::empty(),
                stats: WriterStats {
                    batches_ok: (self.stats.batches_ok + 1) as u64,
                    rows_ok: (self.stats.rows_ok + self.batch.len()) as u64,
                    ..self.stats
                },
                ..self
            }
        } else {
            WriterView {
                stats: WriterStats {
                    batches_err: (self.stats.batches_err + 1) as u64,
                    ..self.stats
                },
                ..self
            }
        }
    }

    /// The counters can take one more batch.
    pub open spec fn has_room(self) -> bool {
        &&& self.stats.batches_ok < u64::MAX
        &&& self.stats.batches_err < u64::MAX
        &&& self.stats.rows_ok + self.batch.len() <= u64::MAX
    }
}

impl ChWriter {
    /// What the writer was made with.
    pub closed spec fn settings(&self) -> ChWriterConfig {
        self.cfg
    }

    pub fn new(cfg: ChWriterConfig) -> (r: Self)
        ensures
            r.settings() == cfg,
            r@.batch_size == cfg.batch_size,
            r@.batch == Seq::<ClusterRow>::empty(),
            r@.stats == (WriterStats { batches_ok: 0, batches_err: 0, rows_ok: 0 }),
    {
        ChWriter { cfg, batch: Vec::new(), stats: WriterStats::default() }
    }

    pub fn config(&self) -> (r: &ChWriterConfig)
        ensures
            *r == self.settings(),
    {
        &self.cfg
    }

    pub fn stats(&self) -> (r: WriterStats)
        ensures
            r == self@.stats,
    {
        self.stats
    }

    /// The rows that wait.
    pub fn pending(&self) -> (r: &Vec<ClusterRow>)
        ensures
            r@ == self@.batch,
    {
        &self.batch
    }

    /// Takes a row in; whether the batch is to be sent now.
    pub fn push(&mut self, row: ClusterRow) -> (r: bool)
        ensures
            final(self)@ == old(self)@.after_row(row),
            final(self).settings() == old(self).settings(),
            r == final(self)@.is_full(),
    {
        self.batch.push(row);
        self.batch.len() >= self.cfg.batch_size
    }

    /// Whether a batch is to be sent when the flush interval is over or no more rows come.
    pub fn flush_due(&self) -> (r: bool)
        ensures
            r == (self@.batch.len() > 0),
    {
        self.batch.len() > 0
    }

    /// Whether the counters can take one more batch.
    pub fn room(&self) -> (r: bool)
        ensures
            r == self@.has_room(),
    {
        self.stats.batches_ok < u64::MAX && self.stats.batches_err < u64::MAX
            && self.batch.len() as u64 <= u64::MAX - self.stats.rows_ok
    }

    /// Settles a batch that was sent, or could not be.
    pub fn settle(&mut self, ok: bool)
        requires
            old(self)@.has_room(),
        ensures
            final(self)@ == old(self)@.after_flush(ok),
            final(self).settings() == old(self).settings(),
    {
        if ok {
            self.stats.batches_ok = self.stats.batches_ok + 1;
            self.stats.rows_ok = self.stats.rows_ok + self.batch.len() as u64;
            self.batch.clear();
        } else {
            self.stats.batches_err = self.stats.batches_err + 1;
        }
    }

    /// The body that sends the rows that wait.
    pub fn insert_body(&self) -> (r: Result<String, String>)
        ensures
            r is Ok,
            r->Ok_0@ == joined(row_texts(row_views(self@.batch)), "\n"@),
    {
        serialize_jsoneachrow(&self.batch)
    }

    /// Where batches are sent.
    pub fn insert_url(&self) -> (r: String)
        ensures
            r@ == query_target(
                self.settings().url@,
                "INSERT INTO "@ + self.settings().database@ + "."@ + self.settings().table@
                    + " FORMAT JSONEachRow"@,
            ),
    {
        let query = "INSERT INTO ".to_owned().concat(self.cfg.database.as_str()).concat(
            ".",
        ).concat(self.cfg.table.as_str()).concat(" FORMAT JSONEachRow");
        query_url(self.cfg.url.as_str(), query.as_str())
    }

    /// Where statements are sent.
    pub fn ddl_url(&self) -> (r: String)
        ensures
            r@ == without_trailing(self.settings().url@, '/'),
    {
        trim_end_char(self.cfg.url.as_str(), '/')
    }
}

/// What drives a writer.
pub enum WriterEvent {
    /// A row came in.
    Row(ClusterRow),
    /// The flush interval is over.
    Tick,
    /// No more rows will come.
    Closed,
}

/// What a writer does next: send the batch or not, then go on or stop.
#[derive(Debug, Clone, Copy, PartialEq, Eq, Structural)]
pub struct WriterStep {
    pub flush: bool,
    pub stop: bool,
}

impl ChWriter {
    /// Takes an event in and says what it calls for.
    pub fn on_event(&mut self, event: WriterEvent) -> (r: WriterStep)
        ensures
            final(self).settings() == old(self).settings(),
            match event {
                WriterEvent::Row(row) => {
                    &&& final(self)@ == old(self)@.after_row(row)
                    &&& r == (WriterStep { flush: final(self)@.is_full(), stop: false })
                },
                WriterEvent::Tick => {
                    &&& final(self)@ == old(self)@
                    &&& r == (WriterStep { flush: old(self)@.batch.len() > 0, stop: false })
                },
                WriterEvent::Closed => {
                    &&& final(self)@ == old(self)@
                    &&& r == (WriterStep { flush: old(self)@.batch.len() > 0, stop: true })
                },
            },
    {
        match event {
            WriterEvent::Row(row) => {
                let flush = self.push(row);
                WriterStep { flush, stop: false }
            },
            WriterEvent::Tick => WriterStep { flush: self.flush_due(), stop: false },
            WriterEvent::Closed => WriterStep { flush: self.flush_due(), stop: true },
        }
    }
}

/// No row is lost or written twice: each that came in is either counted as written or waits, and a
/// failed batch changes neither.
pub proof fn law_rows_are_kept(w: WriterView, row: ClusterRow, ok: bool)
    requires
        w.has_room(),
    ensures
        w.after_row(row).stats.rows_ok + w.after_row(row).batch.len() == w.stats.rows_ok
            + w.batch.len() + 1,
        w.after_flush(ok).stats.rows_ok + w.after_flush(ok).batch.len() == w.stats.rows_ok
            + w.batch.len(),
        w.after_flush(false).batch == w.batch,
        w.after_flush(true).batch.len() == 0,
{
}

/// A stored row says what its bucket and its instrument say, and its window starts at the start of the
/// window in whole milliseconds.
pub proof fn law_row_says_what_the_bucket_says(
    snap: AnalyticsSnapshot,
    spec: SpecView,
    region: Seq<char>,
    i: int,
)
    ensures
        snapshot_rows(snap, spec, region).len() == snap.clusters@.len(),
        0 <= i < snap.clusters@.len() ==> ({
            let r = snapshot_rows(snap, spec, region)[i];
            let b = snap.clusters@[i];
            &&& (r.price, r.bid_qty, r.ask_qty, r.trades) == (b.price, b.bid_qty, b.ask_qty, b.trades)
            &&& (r.price_scale, r.qty_scale) == (spec.price_scale, spec.qty_scale)
            &&& r.exchange == wire_name(spec.exchange)
            &&& r.symbol == spec.symbol
            &&& r.ingest_region == region
            &&& r.market_type == (if spec.market_type == MarketType::Spot {
                "spot"@
            } else {
                "perp"@
            })
            &&& r.quote == (if spec.quote == Quote::Usdt {
                "USDT"@
            } else {
                "USDC"@
            })
            &&& snap.window_start_ns >= 0 ==> r.window_start * 1_000_000 <= snap.window_start_ns < (
            r.window_start + 1) * 1_000_000
            &&& snap.window_start_ns < 0 ==> (r.window_start - 1) * 1_000_000 < snap.window_start_ns
                <= r.window_start * 1_000_000
        }),
{
}

/// A snapshot is stored and a diff is not.
pub proof fn law_only_snapshots_are_stored(f: ClusterFrame, spec: SpecView, region: Seq<char>)
    ensures
        f is Diff ==> frame_rows(f, spec, region).len() == 0,
        f is Snapshot ==> frame_rows(f, spec, region) == snapshot_rows(
            *f->Snapshot_0,
            spec,
            region,
        ),
{
}

/// The text names a member with a value, and something else stands before and behind it.
pub open spec fn names(text: Seq<char>, name: Seq<char>, value: Seq<char>) -> bool {
    exists|a: Seq<char>, b: Seq<char>| text == #[trigger] (a + name + value + b)
}

proof fn lemma_names(a: Seq<char>, name: Seq<char>, value: Seq<char>, b: Seq<char>, text: Seq<char>)
    requires
        text == a + name + value + b,
    ensures
        names(text, name, value),
{
}

/// The text of a row names each of its numbers by its own column.
pub proof fn law_row_text_names_its_numbers(r: RowData)
    ensures
        names(row_json(r), ",\"window_start\":"@, decimal_int(r.window_start as int) + ","@),
        names(row_json(r), ",\"price\":"@, decimal_int(r.price as int) + ","@),
        names(row_json(r), ",\"price_scale\":"@, decimal(r.price_scale as nat) + ","@),
        names(row_json(r), ",\"bid_qty\":"@, decimal_int(r.bid_qty as int) + ","@),
        names(row_json(r), ",\"ask_qty\":"@, decimal_int(r.ask_qty as int) + ","@),
        names(row_json(r), ",\"trades\":"@, decimal(r.trades as nat) + ","@),
        names(row_json(r), ",\"qty_scale\":"@, decimal(r.qty_scale as nat) + ","@),
{
    let s = row_json(r);
    let w = decimal_int(r.window_start as int);
    let p = decimal_int(r.price as int);
    let ps = decimal(r.price_scale as nat);
    let b = decimal_int(r.bid_qty as int);
    let k = decimal_int(r.ask_qty as int);
    let t = decimal(r.trades as nat);
    let qs = decimal(r.qty_scale as nat);
    let x0 = "{\"exchange\":"@ + json_string(r.exchange) + ",\"market_type\":"@ + json_string(
        r.market_type,
    ) + ",\"quote\":"@ + json_string(r.quote) + ",\"symbol\":"@ + json_string(r.symbol);
    let x1 = x0 + ",\"window_start\":"@ + w;
    let x2 = x1 + ",\"price\":"@ + p;
    let x3 = x2 + ",\"price_scale\":"@ + ps;
    let x4 = x3 + ",\"bid_qty\":"@ + b;
    let x5 = x4 + ",\"ask_qty\":"@ + k;
    let x6 = x5 + ",\"trades\":"@ + t;
    let x7 = x6 + ",\"qty_scale\":"@ + qs;
    let end = ",\"ingest_region\":"@ + json_string(r.ingest_region) + "}"@;
    assert(s =~= x7 + end);
    lemma_commas();
    let e6 = ",\"qty_scale\":"@ + qs + end;
    let e5 = ",\"trades\":"@ + t + e6;
    let e4 = ",\"ask_qty\":"@ + k + e5;
    let e3 = ",\"bid_qty\":"@ + b + e4;
    let e2 = ",\"price_scale\":"@ + ps + e3;
    let e1 = ",\"price\":"@ + p + e2;
    assert(s =~= x6 + e6);
    assert(s =~= x5 + e5);
    assert(s =~= x4 + e4);
    assert(s =~= x3 + e3);
    assert(s =~= x2 + e2);
    assert(s =~= x1 + e1);
    lemma_named_then(x6, ",\"qty_scale\":"@, qs, end, s);
    lemma_named_then(x5, ",\"trades\":"@, t, e6, s);
    lemma_named_then(x4, ",\"ask_qty\":"@, k, e5, s);
    lemma_named_then(x3, ",\"bid_qty\":"@, b, e4, s);
    lemma_named_then(x2, ",\"price_scale\":"@, ps, e3, s);
    lemma_named_then(x1, ",\"price\":"@, p, e2, s);
    lemma_named_then(x0, ",\"window_start\":"@, w, e1, s);
}

proof fn lemma_named_then(
    x: Seq<char>,
    name: Seq<char>,
    value: Seq<char>,
    rest: Seq<char>,
    text: Seq<char>,
)
    requires
        text == x + name + value + rest,
        rest.len() > 0,
        rest[0] == ',',
    ensures
        names(text, name, value + ","@),
{
    reveal_strlit(",");
    assert(rest =~= ","@ + rest.skip(1));
    assert(text =~= x + name + (value + ","@) + rest.skip(1));
    lemma_names(x, name, value + ","@, rest.skip(1), text);
}

proof fn lemma_commas()
    ensures
        ",\"price\":"@.len() > 0 && ",\"price\":"@[0] == ',',
        ",\"price_scale\":"@.len() > 0 && ",\"price_scale\":"@[0] == ',',
        ",\"bid_qty\":"@.len() > 0 && ",\"bid_qty\":"@[0] == ',',
        ",\"ask_qty\":"@.len() > 0 && ",\"ask_qty\":"@[0] == ',',
        ",\"trades\":"@.len() > 0 && ",\"trades\":"@[0] == ',',
        ",\"qty_scale\":"@.len() > 0 && ",\"qty_scale\":"@[0] == ',',
        ",\"ingest_region\":"@.len() > 0 && ",\"ingest_region\":"@[0] == ',',
{
    reveal_strlit(",\"price\":");
    reveal_strlit(",\"price_scale\":");
    reveal_strlit(",\"bid_qty\":");
    reveal_strlit(",\"ask_qty\":");
    reveal_strlit(",\"trades\":");
    reveal_strlit(",\"qty_scale\":");
    reveal_strlit(",\"ingest_region\":");
}

/// A batch is sent as soon as it has as many rows as it may have; rows go in behind those that wait.
pub proof fn law_batches_fill_up(w: WriterView, row: ClusterRow)
    ensures
        w.after_row(row).batch == w.batch.push(row),
        w.after_row(row).is_full() <==> w.batch.len() + 1 >= w.batch_size,
        w.after_row(row).stats == w.stats,
{
}

/// The text of a row names each of its texts by its own column, in order.
pub proof fn law_row_text_names_its_texts(r: RowData)
    ensures
        exists|numbers: Seq<char>|
            row_json(r) == #[trigger] ("{\"exchange\":"@ + json_string(r.exchange)
                + ",\"market_type\":"@ + json_string(r.market_type) + ",\"quote\":"@ + json_string(
                r.quote,
            ) + ",\"symbol\":"@ + json_string(r.symbol) + numbers + ",\"ingest_region\":"@
                + json_string(r.ingest_region) + "}"@),
{
    let numbers = ",\"window_start\":"@ + decimal_int(r.window_start as int) + ",\"price\":"@
        + decimal_int(r.price as int) + ",\"price_scale\":"@ + decimal(r.price_scale as nat)
        + ",\"bid_qty\":"@ + decimal_int(r.bid_qty as int) + ",\"ask_qty\":"@ + decimal_int(
        r.ask_qty as int,
    ) + ",\"trades\":"@ + decimal(r.trades as nat) + ",\"qty_scale\":"@ + decimal(
        r.qty_scale as nat,
    );
    assert(row_json(r) =~= "{\"exchange\":"@ + json_string(r.exchange) + ",\"market_type\":"@
        + json_string(r.market_type) + ",\"quote\":"@ + json_string(r.quote) + ",\"symbol\":"@
        + json_string(r.symbol) + numbers + ",\"ingest_region\":"@ + json_string(r.ingest_region)
        + "}"@);
}

/// Each try to send a batch is counted once, as one that went through or as one that failed.
pub proof fn law_batches_are_counted(w: WriterView, ok: bool)
    requires
        w.has_room(),
    ensures
        w.after_flush(true).stats.batches_ok == w.stats.batches_ok + 1,
        w.after_flush(true).stats.batches_err == w.stats.batches_err,
        w.after_flush(false).stats.batches_err == w.stats.batches_err + 1,
        w.after_flush(false).stats.batches_ok == w.stats.batches_ok,
        w.after_flush(false).stats.rows_ok == w.stats.rows_ok,
        w.after_flush(ok).batch_size == w.batch_size,
{
}

/// Each row has its own text, in order.
pub proof fn law_each_row_has_its_text(rows: Seq<RowData>, i: int)
    ensures
        row_texts(rows).len() == rows.len(),
        0 <= i < rows.len() ==> row_texts(rows)[i] == row_json(rows[i]),
{
}

} // verus!
