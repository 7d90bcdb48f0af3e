//! Rolling one-minute bars up into tables of longer bars, over the last days once and over the last
//! minutes again and again. Writing a bar again replaces it.

use vstd::prelude::*;
use vstd::string::*;

use crate::text::{
    decimal, decimal_int, holds_text, i64_text, lemma_holds_text, trim_end_char, u64_text,
    without_trailing,
};

verus! {

/// The venues whose longer bars are rolled up.
pub const EXCHANGES_SQL: &'static str = "'BINANCE','BINANCEF','OKX','OKXF','BYBIT','BYBITF'";

/// The bar lengths that are rolled up, in seconds.
pub const TFS: [u32; 4] = [300, 900, 1800, 3600];

/// How far back the first roll-up reaches.
pub const BACKFILL_DAYS: i64 = 7;

/// How often the last minutes are rolled up again.
pub const REFRESH_SECS: u64 = 60;

/// The statement that rolls one-minute bars up into a table, part 1.
pub const MATERIALIZE_1: &'static str = " \
    (exchange,market_type,quote,symbol,window_start,price,price_scale,bid_qty,ask_qty,trades,qty_scale,ingest_region,open,close,high,low) \
    SELECT \
    b.exchange,b.market_type,b.quote,b.symbol,b.rw,b.price,b.ps,b.bid_qty,b.ask_qty,b.trades,b.qs,'rollup',w.o,w.c,w.h,w.l \
    FROM ( SELECT exchange,market_type,quote,symbol, toStartOfInterval(window_start, \
    INTERVAL ";

/// The statement that rolls one-minute bars up into a table, part 2.
pub const MATERIALIZE_2: &'static str =
    " SECOND, 'UTC') AS rw, price, sum(bid_qty) AS bid_qty, sum(ask_qty) AS ask_qty, \
    sum(trades) AS trades, any(price_scale) AS ps, any(qty_scale) AS qs FROM ";

/// The statement that rolls one-minute bars up into a table, part 3.
pub const MATERIALIZE_3: &'static str = ") AND window_start >= fromUnixTimestamp64Milli(";

/// The statement that rolls one-minute bars up into a table, part 4.
pub const MATERIALIZE_4: &'static str = ") AND window_start < fromUnixTimestamp64Milli(";

/// The statement that rolls one-minute bars up into a table, part 5.
pub const MATERIALIZE_5: &'static str =
    ") GROUP BY exchange,market_type,quote,symbol,rw,price ) AS b INNER JOIN ( SELECT \
    exchange,market_type,quote,symbol, toStartOfInterval(window_start, INTERVAL ";

/// The statement that rolls one-minute bars up into a table, part 6.
pub const MATERIALIZE_6: &'static str =
    " SECOND, 'UTC') AS rw, argMin(open,window_start) AS o, argMax(close,window_start) AS c, \
    max(high) AS h, min(low) AS l FROM ";

/// The statement that rolls one-minute bars up into a table, part 7.
pub const MATERIALIZE_7: &'static str =
    ") GROUP BY exchange,market_type,quote,symbol,rw ) AS w ON b.exchange=w.exchange AND \
    b.market_type=w.market_type AND b.quote=w.quote AND b.symbol=w.symbol AND b.rw=w.rw";

/// The table of a bar length that is rolled up.
pub open spec fn materialized_table(tf: u32) -> Seq<char> {
    if tf == 300 {
        "clusters_5m"@
    } else if tf == 900 {
        "clusters_15m"@
    } else if tf == 1800 {
        "clusters_30m"@
    } else if tf == 3600 {
        "clusters_1h"@
    } else {
        "clusters_1m"@
    }
}

pub fn table_for(tf: u32) -> (r: &'static str)
    ensures
        r@ == materialized_table(tf),
{
    if tf == 300 {
        "clusters_5m"
    } else if tf == 900 {
        "clusters_15m"
    } else if tf == 1800 {
        "clusters_30m"
    } else if tf == 3600 {
        "clusters_1h"
    } else {
        "clusters_1m"
    }
}

/// Where the first roll-up begins.
pub fn backfill_from(now_ms: i64) -> (r: i64)
    requires
        now_ms >= 0,
    ensures
        r == now_ms - 7 * 86_400_000,
{
    now_ms - BACKFILL_DAYS * 86_400_000
}

/// Where a repeated roll-up begins: two bars ago, at least fifteen minutes.
pub open spec fn refresh_start(now_ms: i64, tf: u32) -> int {
    now_ms - (if tf * 2 > 900 {
        tf * 2
    } else {
        900
    }) * 1000
}

pub fn refresh_from(now_ms: i64, tf: u32) -> (r: i64)
    requires
        now_ms >= 0,
    ensures
        r == refresh_start(now_ms, tf),
{
    let bars: i64 = tf as i64 * 2;
    let span: i64 = if bars > 900 {
        bars
    } else {
        900
    };
    now_ms - span * 1000
}

/// The start of the bar of the given length that a time lies in.
pub open spec fn bar_start(ms: int, step: int) -> int {
    ms - ms % step
}

/// Writes the start of the bar that a time lies in.
fn bar_start_text(ms: i64, step: i64) -> (r: String)
    requires
        0 < step <= 0x1_0000_0000 * 1000,
    ensures
        r@ == decimal_int(bar_start(ms as int, step as int)),
{
    if ms >= 0 {
        i64_text(ms - ms % step)
    } else {
        let magnitude: i128 = -(ms as i128);
        let over: i128 = magnitude % step as i128;
        let down: i128 = if over == 0 {
            magnitude
        } else {
            magnitude - over + step as i128
        };
        proof {
            let (x, d) = (magnitude as int, step as int);
            vstd::arithmetic::div_mod::lemma_fundamental_div_mod(x, d);
            let q = if over == 0 {
                x / d
            } else {
                x / d + 1
            };
            let rest = if over == 0 {
                0
            } else {
                d - over
            };
            assert(ms == d * (-q) + rest) by (nonlinear_arith)
                requires
                    x == d * (x / d) + over,
                    x == -(ms as int),
                    over == 0 ==> q == x / d && rest == 0,
                    over != 0 ==> q == x / d + 1 && rest == d - over,
            ;
            vstd::arithmetic::div_mod::lemma_fundamental_div_mod_converse(
                ms as int,
                d,
                -q,
                rest,
            );
            assert(down == -bar_start(ms as int, d));
        }
        let text = "-".to_owned().concat(u64_text(down as u64).as_str());
        assert(text@ =~= decimal_int(bar_start(ms as int, step as int))) by {
            reveal_strlit("-");
        }
        text
    }
}

/// The statement that rolls a range up. It begins at the bar that `from_ms` lies in, so that no bar
/// is rolled up in part.
pub open spec fn rollup_sql(db: Seq<char>, tf: u32, from_ms: i64, to_ms: i64) -> Seq<char> {
    "INSERT INTO "@ + db + "."@ + materialized_table(tf) + MATERIALIZE_1@ + decimal(tf as nat)
        + MATERIALIZE_2@ + db + ".clusters_1m FINAL WHERE exchange IN ("@ + EXCHANGES_SQL@
        + MATERIALIZE_3@ + decimal_int(bar_start(from_ms as int, tf * 1000)) + MATERIALIZE_4@
        + decimal_int(to_ms as int) + MATERIALIZE_5@ + decimal(tf as nat) + MATERIALIZE_6@ + db
        + ".clusters_1m FINAL WHERE exchange IN ("@ + EXCHANGES_SQL@ + MATERIALIZE_3@
        + decimal_int(bar_start(from_ms as int, tf * 1000)) + MATERIALIZE_4@
        + decimal_int(to_ms as int) + MATERIALIZE_7@
}

/// Makes the statement that rolls a range up.
pub fn materialize_sql(db: &str, tf: u32, from_ms: i64, to_ms: i64) -> (r: String)
    requires
        tf > 0,
    ensures
        r@ == rollup_sql(db@, tf, from_ms, to_ms),
{
    let tf_ms: i64 = tf as i64 * 1000;
    let from = bar_start_text(from_ms, tf_ms);
    let to = i64_text(to_ms);
    let n = u64_text(tf as u64);
    let table = table_for(tf);
    "INSERT INTO ".to_owned().concat(db).concat(".").concat(table).concat(MATERIALIZE_1)
        .concat(n.as_str()).concat(MATERIALIZE_2).concat(db)
        .concat(".clusters_1m FINAL WHERE exchange IN (").concat(EXCHANGES_SQL)
        .concat(MATERIALIZE_3).concat(from.as_str()).concat(MATERIALIZE_4).concat(to.as_str())
        .concat(MATERIALIZE_5).concat(n.as_str()).concat(MATERIALIZE_6).concat(db)
        .concat(".clusters_1m FINAL WHERE exchange IN (").concat(EXCHANGES_SQL)
        .concat(MATERIALIZE_3).concat(from.as_str()).concat(MATERIALIZE_4).concat(to.as_str())
        .concat(MATERIALIZE_7)
}

/// Where the statement is sent, with bounds on what it may use.
pub fn materialize_url(ch_url: &str) -> (r: String)
    ensures
        r@ == without_trailing(ch_url@, '/') + "/?max_threads=4&max_execution_time=600"@,
{
    trim_end_char(ch_url, '/').concat("/?max_threads=4&max_execution_time=600")
}

/// A roll-up begins at a bar, the one that its first millisecond lies in.
pub proof fn law_rollup_begins_at_a_bar(from_ms: i64, tf: u32)
    requires
        tf > 0,
    ensures
        bar_start(from_ms as int, tf * 1000) % (tf * 1000) == 0,
        bar_start(from_ms as int, tf * 1000) <= from_ms < bar_start(from_ms as int, tf * 1000) + tf
            * 1000,
{
    lemma_bar_start(from_ms as int, tf * 1000);
}

proof fn lemma_bar_start(ms: int, step: int)
    requires
        step > 0,
    ensures
        bar_start(ms, step) % step == 0,
        bar_start(ms, step) <= ms < bar_start(ms, step) + step,
{
    vstd::arithmetic::div_mod::lemma_fundamental_div_mod(ms, step);
    vstd::arithmetic::div_mod::lemma_mod_bound(ms, step);
    vstd::arithmetic::div_mod::lemma_mod_multiples_basic(ms / step, step);
    assert(bar_start(ms, step) == (ms / step) * step) by (nonlinear_arith)
        requires
            ms == step * (ms / step) + ms % step,
            bar_start(ms, step) == ms - ms % step,
    ;
}

/// A repeated roll-up covers the bar that is open and the one before it.
pub proof fn law_refresh_covers_last_bars(now_ms: i64, tf: u32)
    requires
        tf > 0,
    ensures
        bar_start(refresh_start(now_ms, tf), tf * 1000) <= bar_start(now_ms as int, tf * 1000) - tf
            * 1000,
        bar_start(refresh_start(now_ms, tf), tf * 1000) % (tf * 1000) == 0,
{
    lemma_bar_start(refresh_start(now_ms, tf), tf * 1000);
    lemma_bar_start(now_ms as int, tf * 1000);
}

/// The one-minute bars of the venues that start at `from` or later, and before `to`.
pub open spec fn minutes_between(db: Seq<char>, from: int, to: int) -> Seq<char> {
    db
        + ".clusters_1m FINAL WHERE exchange IN ('BINANCE','BINANCEF','OKX','OKXF','BYBIT','BYBITF') \
        AND window_start >= fromUnixTimestamp64Milli("@
        + decimal_int(from) + ") AND window_start < fromUnixTimestamp64Milli("@ + decimal_int(to)
        + ")"@
}

/// A statement that writes the bars of one length into a table from one-minute bars, the levels and
/// the prices from the same ones, under no other condition.
pub open spec fn is_rollup(
    sql: Seq<char>,
    db: Seq<char>,
    table: Seq<char>,
    tf: u32,
    minutes: Seq<char>,
    parts: Seq<Seq<char>>,
) -> bool {
    let bar = decimal(tf as nat);
    &&& parts.len() == 5
    &&& forall|i: int| 0 <= i < 5 ==> !(#[trigger] parts[i]).contains('W')
    &&& sql == "INSERT INTO "@ + db + "."@ + table + parts[0] + "INTERVAL "@ + bar + " SECOND"@
        + parts[1] + minutes + parts[2] + "INTERVAL "@ + bar + " SECOND"@ + parts[3] + minutes
        + parts[4]
}

/// A roll-up reads, for the levels and for the prices alike, the one-minute bars from the start of the
/// bar that `from_ms` lies in up to `to_ms`, and writes the bars of its length into their table.
pub proof fn law_rollup_reads_whole_bars(db: Seq<char>, tf: u32, from_ms: i64, to_ms: i64)
    requires
        tf > 0,
    ensures
        exists|start: int, parts: Seq<Seq<char>>|
            {
                &&& start % (tf * 1000) == 0
                &&& start <= from_ms < start + tf * 1000
                &&& #[trigger] is_rollup(
                    rollup_sql(db, tf, from_ms, to_ms),
                    db,
                    materialized_table(tf),
                    tf,
                    minutes_between(db, start, to_ms as int),
                    parts,
                )
            },
{
    law_rollup_begins_at_a_bar(from_ms, tf);
    lemma_rollup_texts();
    let start = bar_start(from_ms as int, tf * 1000);
    let n = decimal(tf as nat);
    let (a, b) = (decimal_int(start), decimal_int(to_ms as int));
    let p0 = MATERIALIZE_1@.take(MATERIALIZE_1@.len() - 9);
    let p1 = MATERIALIZE_2@.skip(7);
    let p2 = MATERIALIZE_5@.subrange(1, MATERIALIZE_5@.len() - 9);
    let p3 = MATERIALIZE_6@.skip(7);
    let p4 = MATERIALIZE_7@.skip(1);
    let x = "INSERT INTO "@ + db + "."@ + materialized_table(tf);
    let m = minutes_between(db, start, to_ms as int);
    lemma_add_pair(x, p0, "INTERVAL "@);
    let y = x + p0 + "INTERVAL "@ + n;
    lemma_add_pair(y, " SECOND"@, p1);
    let z = y + " SECOND"@ + p1;
    lemma_minutes(z, db, start, to_ms as int, p2 + "INTERVAL "@);
    lemma_add_pair(z + m, p2, "INTERVAL "@);
    let u = z + m + p2 + "INTERVAL "@ + n;
    lemma_add_pair(u, " SECOND"@, p3);
    lemma_minutes(u + " SECOND"@ + p3, db, start, to_ms as int, p4);
    assert(is_rollup(
        rollup_sql(db, tf, from_ms, to_ms),
        db,
        materialized_table(tf),
        tf,
        m,
        seq![p0, p1, p2, p3, p4],
    ));
}

proof fn lemma_add_pair(x: Seq<char>, a: Seq<char>, b: Seq<char>)
    ensures
        x + (a + b) == x + a + b,
{
    assert(x + (a + b) =~= x + a + b);
}

proof fn lemma_minutes(z: Seq<char>, db: Seq<char>, from: int, to: int, rest: Seq<char>)
    ensures
        z + db + ".clusters_1m FINAL WHERE exchange IN ("@ + EXCHANGES_SQL@ + MATERIALIZE_3@
            + decimal_int(from) + MATERIALIZE_4@ + decimal_int(to) + (")"@ + rest) == z
            + minutes_between(db, from, to) + rest,
{
    lemma_minute_texts();
    let (e, f, g) = (".clusters_1m FINAL WHERE exchange IN ("@, EXCHANGES_SQL@, MATERIALIZE_3@);
    let (a, b, l, k) = (decimal_int(from), decimal_int(to), MATERIALIZE_4@, ")"@);
    assert(z + db + e + f + g =~= z + db + (e + f + g));
    let h = e + f + g;
    assert(z + db + h + a =~= z + (db + h + a));
    assert(z + (db + h + a) + l + b + (k + rest) =~= z + (db + h + a + l + b + k) + rest);
}

proof fn lemma_minute_texts()
    ensures
        ".clusters_1m FINAL WHERE exchange IN ("@ + EXCHANGES_SQL@ + MATERIALIZE_3@
            == ".clusters_1m FINAL WHERE exchange IN ('BINANCE','BINANCEF','OKX','OKXF','BYBIT','BYBITF') \
        AND window_start >= fromUnixTimestamp64Milli("@,
        MATERIALIZE_4@ == ") AND window_start < fromUnixTimestamp64Milli("@,
{
    reveal_strlit(".clusters_1m FINAL WHERE exchange IN (");
    reveal_strlit("'BINANCE','BINANCEF','OKX','OKXF','BYBIT','BYBITF'");
    reveal_strlit(") AND window_start >= fromUnixTimestamp64Milli(");
    reveal_strlit(".clusters_1m FINAL WHERE exchange IN ('BINANCE','BINANCEF','OKX','OKXF','BYBIT','BYBITF') AND window_start >= fromUnixTimestamp64Milli(");
    assert(".clusters_1m FINAL WHERE exchange IN ("@ + EXCHANGES_SQL@ + MATERIALIZE_3@
        =~= ".clusters_1m FINAL WHERE exchange IN ('BINANCE','BINANCEF','OKX','OKXF','BYBIT','BYBITF') \
        AND window_start >= fromUnixTimestamp64Milli("@);
}

proof fn lemma_rollup_texts()
    ensures
        !MATERIALIZE_1@.take(MATERIALIZE_1@.len() - 9).contains('W'),
        !MATERIALIZE_2@.skip(7).contains('W'),
        !MATERIALIZE_5@.subrange(1, MATERIALIZE_5@.len() - 9).contains('W'),
        !MATERIALIZE_6@.skip(7).contains('W'),
        !MATERIALIZE_7@.skip(1).contains('W'),
        MATERIALIZE_1@ == MATERIALIZE_1@.take(MATERIALIZE_1@.len() - 9) + "INTERVAL "@,
        MATERIALIZE_2@ == " SECOND"@ + MATERIALIZE_2@.skip(7),
        MATERIALIZE_5@ == ")"@ + (MATERIALIZE_5@.subrange(1, MATERIALIZE_5@.len() - 9)
            + "INTERVAL "@),
        MATERIALIZE_6@ == " SECOND"@ + MATERIALIZE_6@.skip(7),
        MATERIALIZE_7@ == ")"@ + MATERIALIZE_7@.skip(1),
{
    reveal_strlit(" (exchange,market_type,quote,symbol,window_start,price,price_scale,bid_qty,ask_qty,trades,qty_scale,ingest_region,open,close,high,low) SELECT b.exchange,b.market_type,b.quote,b.symbol,b.rw,b.price,b.ps,b.bid_qty,b.ask_qty,b.trades,b.qs,'rollup',w.o,w.c,w.h,w.l FROM ( SELECT exchange,market_type,quote,symbol, toStartOfInterval(window_start, INTERVAL ");
    reveal_strlit(" SECOND, 'UTC') AS rw, price, sum(bid_qty) AS bid_qty, sum(ask_qty) AS ask_qty, sum(trades) AS trades, any(price_scale) AS ps, any(qty_scale) AS qs FROM ");
    reveal_strlit(") GROUP BY exchange,market_type,quote,symbol,rw,price ) AS b INNER JOIN ( SELECT exchange,market_type,quote,symbol, toStartOfInterval(window_start, INTERVAL ");
    reveal_strlit(" SECOND, 'UTC') AS rw, argMin(open,window_start) AS o, argMax(close,window_start) AS c, max(high) AS h, min(low) AS l FROM ");
    reveal_strlit(") GROUP BY exchange,market_type,quote,symbol,rw ) AS w ON b.exchange=w.exchange AND b.market_type=w.market_type AND b.quote=w.quote AND b.symbol=w.symbol AND b.rw=w.rw");
    reveal_strlit("INTERVAL ");
    reveal_strlit(" SECOND");
    reveal_strlit(")");
    assert(MATERIALIZE_1@ =~= MATERIALIZE_1@.take(MATERIALIZE_1@.len() - 9) + "INTERVAL "@);
    assert(MATERIALIZE_2@ =~= " SECOND"@ + MATERIALIZE_2@.skip(7));
    assert(MATERIALIZE_5@ =~= ")"@ + (MATERIALIZE_5@.subrange(1, MATERIALIZE_5@.len() - 9)
        + "INTERVAL "@));
    assert(MATERIALIZE_6@ =~= " SECOND"@ + MATERIALIZE_6@.skip(7));
    assert(MATERIALIZE_7@ =~= ")"@ + MATERIALIZE_7@.skip(1));
}

/// A minute is read exactly where the whole bar that it lies in begins in the range, so no bar is
/// rolled up from a part of its minutes.
pub proof fn law_no_bar_is_split(from_ms: i64, tf: u32, minute_ms: int)
    requires
        tf > 0,
    ensures
        minute_ms >= bar_start(from_ms as int, tf * 1000) <==> bar_start(minute_ms, tf * 1000)
            >= bar_start(from_ms as int, tf * 1000),
{
    let step = (tf * 1000) as int;
    let b = bar_start(from_ms as int, step);
    lemma_bar_start(from_ms as int, step);
    lemma_bar_start(minute_ms, step);
    if minute_ms >= b && bar_start(minute_ms, step) < b {
        let c = bar_start(minute_ms, step);
        vstd::arithmetic::div_mod::lemma_fundamental_div_mod(b, step);
        vstd::arithmetic::div_mod::lemma_fundamental_div_mod(c, step);
        assert(b - c >= step) by (nonlinear_arith)
            requires
                b == step * (b / step),
                c == step * (c / step),
                c < b,
                step > 0,
        ;
    }
}

/// The bars of each length that is rolled up go into the table that holds bars of that length.
pub proof fn law_rollup_tables(i: int)
    requires
        0 <= i < TFS@.len(),
    ensures
        materialized_table(TFS@[i]) == crate::timeframes::table_name(TFS@[i]),
{
    reveal_strlit("clusters_5m");
    reveal_strlit("clusters_15m");
    reveal_strlit("clusters_30m");
    reveal_strlit("clusters_1h");
    reveal_strlit("clusters_");
    reveal_strlit("m");
    reveal_strlit("h");
    reveal_with_fuel(decimal, 3);
    assert(crate::timeframes::table_name(300) =~= "clusters_5m"@);
    assert(crate::timeframes::table_name(900) =~= "clusters_15m"@);
    assert(crate::timeframes::table_name(1800) =~= "clusters_30m"@);
    assert(crate::timeframes::table_name(3600) =~= "clusters_1h"@);
}

/// A rolled-up bar is the sum of its minutes on each price level, by side and by number of trades; its
/// open is that of its first minute, its close that of its last, and its high and low are the
/// extremes. Each goes into the column of its own name, and levels and prices meet by instrument
/// and bar.
pub proof fn law_rollup_adds_the_minutes_up(db: Seq<char>, tf: u32, from_ms: i64, to_ms: i64)
    ensures
        holds_text(rollup_sql(db, tf, from_ms, to_ms), "(exchange,market_type,quote,symbol,window_start,price,price_scale,bid_qty,ask_qty,trades,qty_scale,ingest_region,open,close,high,low) SELECT b.exchange,b.market_type,b.quote,b.symbol,b.rw,b.price,b.ps,b.bid_qty,b.ask_qty,b.trades,b.qs,'rollup',w.o,w.c,w.h,w.l FROM"@),
        holds_text(rollup_sql(db, tf, from_ms, to_ms), "sum(bid_qty) AS bid_qty, sum(ask_qty) AS ask_qty, sum(trades) AS trades, any(price_scale) AS ps, any(qty_scale) AS qs"@),
        holds_text(rollup_sql(db, tf, from_ms, to_ms), "GROUP BY exchange,market_type,quote,symbol,rw,price ) AS b INNER JOIN"@),
        holds_text(rollup_sql(db, tf, from_ms, to_ms), "argMin(open,window_start) AS o, argMax(close,window_start) AS c, max(high) AS h, min(low) AS l"@),
        holds_text(rollup_sql(db, tf, from_ms, to_ms), "GROUP BY exchange,market_type,quote,symbol,rw ) AS w ON b.exchange=w.exchange AND b.market_type=w.market_type AND b.quote=w.quote AND b.symbol=w.symbol AND b.rw=w.rw"@),
{
    lemma_rollup_columns();
    let x0 = "INSERT INTO "@;
    let x1 = x0 + db;
    let x2 = x1 + "."@;
    let x3 = x2 + materialized_table(tf);
    let x4 = x3 + MATERIALIZE_1@;
    let x5 = x4 + decimal(tf as nat);
    let x6 = x5 + MATERIALIZE_2@;
    let x7 = x6 + db;
    let x8 = x7 + ".clusters_1m FINAL WHERE exchange IN ("@;
    let x9 = x8 + EXCHANGES_SQL@;
    let x10 = x9 + MATERIALIZE_3@;
    let x11 = x10 + decimal_int(bar_start(from_ms as int, tf * 1000));
    let x12 = x11 + MATERIALIZE_4@;
    let x13 = x12 + decimal_int(to_ms as int);
    let x14 = x13 + MATERIALIZE_5@;
    let x15 = x14 + decimal(tf as nat);
    let x16 = x15 + MATERIALIZE_6@;
    let x17 = x16 + db;
    let x18 = x17 + ".clusters_1m FINAL WHERE exchange IN ("@;
    let x19 = x18 + EXCHANGES_SQL@;
    let x20 = x19 + MATERIALIZE_3@;
    let x21 = x20 + decimal_int(bar_start(from_ms as int, tf * 1000));
    let x22 = x21 + MATERIALIZE_4@;
    let x23 = x22 + decimal_int(to_ms as int);
    let x24 = x23 + MATERIALIZE_7@;
    assert(rollup_sql(db, tf, from_ms, to_ms) == x24);
    lemma_holds_text(x3, MATERIALIZE_1@, "(exchange,market_type,quote,symbol,window_start,price,price_scale,bid_qty,ask_qty,trades,qty_scale,ingest_region,open,close,high,low) SELECT b.exchange,b.market_type,b.quote,b.symbol,b.rw,b.price,b.ps,b.bid_qty,b.ask_qty,b.trades,b.qs,'rollup',w.o,w.c,w.h,w.l FROM"@);
    lemma_holds_text(x4, decimal(tf as nat), "(exchange,market_type,quote,symbol,window_start,price,price_scale,bid_qty,ask_qty,trades,qty_scale,ingest_region,open,close,high,low) SELECT b.exchange,b.market_type,b.quote,b.symbol,b.rw,b.price,b.ps,b.bid_qty,b.ask_qty,b.trades,b.qs,'rollup',w.o,w.c,w.h,w.l FROM"@);
    lemma_holds_text(x5, MATERIALIZE_2@, "(exchange,market_type,quote,symbol,window_start,price,price_scale,bid_qty,ask_qty,trades,qty_scale,ingest_region,open,close,high,low) SELECT b.exchange,b.market_type,b.quote,b.symbol,b.rw,b.price,b.ps,b.bid_qty,b.ask_qty,b.trades,b.qs,'rollup',w.o,w.c,w.h,w.l FROM"@);
    lemma_holds_text(x6, db, "(exchange,market_type,quote,symbol,window_start,price,price_scale,bid_qty,ask_qty,trades,qty_scale,ingest_region,open,close,high,low) SELECT b.exchange,b.market_type,b.quote,b.symbol,b.rw,b.price,b.ps,b.bid_qty,b.ask_qty,b.trades,b.qs,'rollup',w.o,w.c,w.h,w.l FROM"@);
    lemma_holds_text(x7, ".clusters_1m FINAL WHERE exchange IN ("@, "(exchange,market_type,quote,symbol,window_start,price,price_scale,bid_qty,ask_qty,trades,qty_scale,ingest_region,open,close,high,low) SELECT b.exchange,b.market_type,b.quote,b.symbol,b.rw,b.price,b.ps,b.bid_qty,b.ask_qty,b.trades,b.qs,'rollup',w.o,w.c,w.h,w.l FROM"@);
    lemma_holds_text(x8, EXCHANGES_SQL@, "(exchange,market_type,quote,symbol,window_start,price,price_scale,bid_qty,ask_qty,trades,qty_scale,ingest_region,open,close,high,low) SELECT b.exchange,b.market_type,b.quote,b.symbol,b.rw,b.price,b.ps,b.bid_qty,b.ask_qty,b.trades,b.qs,'rollup',w.o,w.c,w.h,w.l FROM"@);
    lemma_holds_text(x9, MATERIALIZE_3@, "(exchange,market_type,quote,symbol,window_start,price,price_scale,bid_qty,ask_qty,trades,qty_scale,ingest_region,open,close,high,low) SELECT b.exchange,b.market_type,b.quote,b.symbol,b.rw,b.price,b.ps,b.bid_qty,b.ask_qty,b.trades,b.qs,'rollup',w.o,w.c,w.h,w.l FROM"@);
    lemma_holds_text(x10, decimal_int(bar_start(from_ms as int, tf * 1000)), "(exchange,market_type,quote,symbol,window_start,price,price_scale,bid_qty,ask_qty,trades,qty_scale,ingest_region,open,close,high,low) SELECT b.exchange,b.market_type,b.quote,b.symbol,b.rw,b.price,b.ps,b.bid_qty,b.ask_qty,b.trades,b.qs,'rollup',w.o,w.c,w.h,w.l FROM"@);
    lemma_holds_text(x11, MATERIALIZE_4@, "(exchange,market_type,quote,symbol,window_start,price,price_scale,bid_qty,ask_qty,trades,qty_scale,ingest_region,open,close,high,low) SELECT b.exchange,b.market_type,b.quote,b.symbol,b.rw,b.price,b.ps,b.bid_qty,b.ask_qty,b.trades,b.qs,'rollup',w.o,w.c,w.h,w.l FROM"@);
    lemma_holds_text(x12, decimal_int(to_ms as int), "(exchange,market_type,quote,symbol,window_start,price,price_scale,bid_qty,ask_qty,trades,qty_scale,ingest_region,open,close,high,low) SELECT b.exchange,b.market_type,b.quote,b.symbol,b.rw,b.price,b.ps,b.bid_qty,b.ask_qty,b.trades,b.qs,'rollup',w.o,w.c,w.h,w.l FROM"@);
    lemma_holds_text(x13, MATERIALIZE_5@, "(exchange,market_type,quote,symbol,window_start,price,price_scale,bid_qty,ask_qty,trades,qty_scale,ingest_region,open,close,high,low) SELECT b.exchange,b.market_type,b.quote,b.symbol,b.rw,b.price,b.ps,b.bid_qty,b.ask_qty,b.trades,b.qs,'rollup',w.o,w.c,w.h,w.l FROM"@);
    lemma_holds_text(x14, decimal(tf as nat), "(exchange,market_type,quote,symbol,window_start,price,price_scale,bid_qty,ask_qty,trades,qty_scale,ingest_region,open,close,high,low) SELECT b.exchange,b.market_type,b.quote,b.symbol,b.rw,b.price,b.ps,b.bid_qty,b.ask_qty,b.trades,b.qs,'rollup',w.o,w.c,w.h,w.l FROM"@);
    lemma_holds_text(x15, MATERIALIZE_6@, "(exchange,market_type,quote,symbol,window_start,price,price_scale,bid_qty,ask_qty,trades,qty_scale,ingest_region,open,close,high,low) SELECT b.exchange,b.market_type,b.quote,b.symbol,b.rw,b.price,b.ps,b.bid_qty,b.ask_qty,b.trades,b.qs,'rollup',w.o,w.c,w.h,w.l FROM"@);
    lemma_holds_text(x16, db, "(exchange,market_type,quote,symbol,window_start,price,price_scale,bid_qty,ask_qty,trades,qty_scale,ingest_region,open,close,high,low) SELECT b.exchange,b.market_type,b.quote,b.symbol,b.rw,b.price,b.ps,b.bid_qty,b.ask_qty,b.trades,b.qs,'rollup',w.o,w.c,w.h,w.l FROM"@);
    lemma_holds_text(x17, ".clusters_1m FINAL WHERE exchange IN ("@, "(exchange,market_type,quote,symbol,window_start,price,price_scale,bid_qty,ask_qty,trades,qty_scale,ingest_region,open,close,high,low) SELECT b.exchange,b.market_type,b.quote,b.symbol,b.rw,b.price,b.ps,b.bid_qty,b.ask_qty,b.trades,b.qs,'rollup',w.o,w.c,w.h,w.l FROM"@);
    lemma_holds_text(x18, EXCHANGES_SQL@, "(exchange,market_type,quote,symbol,window_start,price,price_scale,bid_qty,ask_qty,trades,qty_scale,ingest_region,open,close,high,low) SELECT b.exchange,b.market_type,b.quote,b.symbol,b.rw,b.price,b.ps,b.bid_qty,b.ask_qty,b.trades,b.qs,'rollup',w.o,w.c,w.h,w.l FROM"@);
    lemma_holds_text(x19, MATERIALIZE_3@, "(exchange,market_type,quote,symbol,window_start,price,price_scale,bid_qty,ask_qty,trades,qty_scale,ingest_region,open,close,high,low) SELECT b.exchange,b.market_type,b.quote,b.symbol,b.rw,b.price,b.ps,b.bid_qty,b.ask_qty,b.trades,b.qs,'rollup',w.o,w.c,w.h,w.l FROM"@);
    lemma_holds_text(x20, decimal_int(bar_start(from_ms as int, tf * 1000)), "(exchange,market_type,quote,symbol,window_start,price,price_scale,bid_qty,ask_qty,trades,qty_scale,ingest_region,open,close,high,low) SELECT b.exchange,b.market_type,b.quote,b.symbol,b.rw,b.price,b.ps,b.bid_qty,b.ask_qty,b.trades,b.qs,'rollup',w.o,w.c,w.h,w.l FROM"@);
    lemma_holds_text(x21, MATERIALIZE_4@, "(exchange,market_type,quote,symbol,window_start,price,price_scale,bid_qty,ask_qty,trades,qty_scale,ingest_region,open,close,high,low) SELECT b.exchange,b.market_type,b.quote,b.symbol,b.rw,b.price,b.ps,b.bid_qty,b.ask_qty,b.trades,b.qs,'rollup',w.o,w.c,w.h,w.l FROM"@);
    lemma_holds_text(x22, decimal_int(to_ms as int), "(exchange,market_type,quote,symbol,window_start,price,price_scale,bid_qty,ask_qty,trades,qty_scale,ingest_region,open,close,high,low) SELECT b.exchange,b.market_type,b.quote,b.symbol,b.rw,b.price,b.ps,b.bid_qty,b.ask_qty,b.trades,b.qs,'rollup',w.o,w.c,w.h,w.l FROM"@);
    lemma_holds_text(x23, MATERIALIZE_7@, "(exchange,market_type,quote,symbol,window_start,price,price_scale,bid_qty,ask_qty,trades,qty_scale,ingest_region,open,close,high,low) SELECT b.exchange,b.market_type,b.quote,b.symbol,b.rw,b.price,b.ps,b.bid_qty,b.ask_qty,b.trades,b.qs,'rollup',w.o,w.c,w.h,w.l FROM"@);
    lemma_holds_text(x5, MATERIALIZE_2@, "sum(bid_qty) AS bid_qty, sum(ask_qty) AS ask_qty, sum(trades) AS trades, any(price_scale) AS ps, any(qty_scale) AS qs"@);
    lemma_holds_text(x6, db, "sum(bid_qty) AS bid_qty, sum(ask_qty) AS ask_qty, sum(trades) AS trades, any(price_scale) AS ps, any(qty_scale) AS qs"@);
    lemma_holds_text(x7, ".clusters_1m FINAL WHERE exchange IN ("@, "sum(bid_qty) AS bid_qty, sum(ask_qty) AS ask_qty, sum(trades) AS trades, any(price_scale) AS ps, any(qty_scale) AS qs"@);
    lemma_holds_text(x8, EXCHANGES_SQL@, "sum(bid_qty) AS bid_qty, sum(ask_qty) AS ask_qty, sum(trades) AS trades, any(price_scale) AS ps, any(qty_scale) AS qs"@);
    lemma_holds_text(x9, MATERIALIZE_3@, "sum(bid_qty) AS bid_qty, sum(ask_qty) AS ask_qty, sum(trades) AS trades, any(price_scale) AS ps, any(qty_scale) AS qs"@);
    lemma_holds_text(x10, decimal_int(bar_start(from_ms as int, tf * 1000)), "sum(bid_qty) AS bid_qty, sum(ask_qty) AS ask_qty, sum(trades) AS trades, any(price_scale) AS ps, any(qty_scale) AS qs"@);
    lemma_holds_text(x11, MATERIALIZE_4@, "sum(bid_qty) AS bid_qty, sum(ask_qty) AS ask_qty, sum(trades) AS trades, any(price_scale) AS ps, any(qty_scale) AS qs"@);
    lemma_holds_text(x12, decimal_int(to_ms as int), "sum(bid_qty) AS bid_qty, sum(ask_qty) AS ask_qty, sum(trades) AS trades, any(price_scale) AS ps, any(qty_scale) AS qs"@);
    lemma_holds_text(x13, MATERIALIZE_5@, "sum(bid_qty) AS bid_qty, sum(ask_qty) AS ask_qty, sum(trades) AS trades, any(price_scale) AS ps, any(qty_scale) AS qs"@);
    lemma_holds_text(x14, decimal(tf as nat), "sum(bid_qty) AS bid_qty, sum(ask_qty) AS ask_qty, sum(trades) AS trades, any(price_scale) AS ps, any(qty_scale) AS qs"@);
    lemma_holds_text(x15, MATERIALIZE_6@, "sum(bid_qty) AS bid_qty, sum(ask_qty) AS ask_qty, sum(trades) AS trades, any(price_scale) AS ps, any(qty_scale) AS qs"@);
    lemma_holds_text(x16, db, "sum(bid_qty) AS bid_qty, sum(ask_qty) AS ask_qty, sum(trades) AS trades, any(price_scale) AS ps, any(qty_scale) AS qs"@);
    lemma_holds_text(x17, ".clusters_1m FINAL WHERE exchange IN ("@, "sum(bid_qty) AS bid_qty, sum(ask_qty) AS ask_qty, sum(trades) AS trades, any(price_scale) AS ps, any(qty_scale) AS qs"@);
    lemma_holds_text(x18, EXCHANGES_SQL@, "sum(bid_qty) AS bid_qty, sum(ask_qty) AS ask_qty, sum(trades) AS trades, any(price_scale) AS ps, any(qty_scale) AS qs"@);
    lemma_holds_text(x19, MATERIALIZE_3@, "sum(bid_qty) AS bid_qty, sum(ask_qty) AS ask_qty, sum(trades) AS trades, any(price_scale) AS ps, any(qty_scale) AS qs"@);
    lemma_holds_text(x20, decimal_int(bar_start(from_ms as int, tf * 1000)), "sum(bid_qty) AS bid_qty, sum(ask_qty) AS ask_qty, sum(trades) AS trades, any(price_scale) AS ps, any(qty_scale) AS qs"@);
    lemma_holds_text(x21, MATERIALIZE_4@, "sum(bid_qty) AS bid_qty, sum(ask_qty) AS ask_qty, sum(trades) AS trades, any(price_scale) AS ps, any(qty_scale) AS qs"@);
    lemma_holds_text(x22, decimal_int(to_ms as int), "sum(bid_qty) AS bid_qty, sum(ask_qty) AS ask_qty, sum(trades) AS trades, any(price_scale) AS ps, any(qty_scale) AS qs"@);
    lemma_holds_text(x23, MATERIALIZE_7@, "sum(bid_qty) AS bid_qty, sum(ask_qty) AS ask_qty, sum(trades) AS trades, any(price_scale) AS ps, any(qty_scale) AS qs"@);
    lemma_holds_text(x13, MATERIALIZE_5@, "GROUP BY exchange,market_type,quote,symbol,rw,price ) AS b INNER JOIN"@);
    lemma_holds_text(x14, decimal(tf as nat), "GROUP BY exchange,market_type,quote,symbol,rw,price ) AS b INNER JOIN"@);
    lemma_holds_text(x15, MATERIALIZE_6@, "GROUP BY exchange,market_type,quote,symbol,rw,price ) AS b INNER JOIN"@);
    lemma_holds_text(x16, db, "GROUP BY exchange,market_type,quote,symbol,rw,price ) AS b INNER JOIN"@);
    lemma_holds_text(x17, ".clusters_1m FINAL WHERE exchange IN ("@, "GROUP BY exchange,market_type,quote,symbol,rw,price ) AS b INNER JOIN"@);
    lemma_holds_text(x18, EXCHANGES_SQL@, "GROUP BY exchange,market_type,quote,symbol,rw,price ) AS b INNER JOIN"@);
    lemma_holds_text(x19, MATERIALIZE_3@, "GROUP BY exchange,market_type,quote,symbol,rw,price ) AS b INNER JOIN"@);
    lemma_holds_text(x20, decimal_int(bar_start(from_ms as int, tf * 1000)), "GROUP BY exchange,market_type,quote,symbol,rw,price ) AS b INNER JOIN"@);
    lemma_holds_text(x21, MATERIALIZE_4@, "GROUP BY exchange,market_type,quote,symbol,rw,price ) AS b INNER JOIN"@);
    lemma_holds_text(x22, decimal_int(to_ms as int), "GROUP BY exchange,market_type,quote,symbol,rw,price ) AS b INNER JOIN"@);
    lemma_holds_text(x23, MATERIALIZE_7@, "GROUP BY exchange,market_type,quote,symbol,rw,price ) AS b INNER JOIN"@);
    lemma_holds_text(x15, MATERIALIZE_6@, "argMin(open,window_start) AS o, argMax(close,window_start) AS c, max(high) AS h, min(low) AS l"@);
    lemma_holds_text(x16, db, "argMin(open,window_start) AS o, argMax(close,window_start) AS c, max(high) AS h, min(low) AS l"@);
    lemma_holds_text(x17, ".clusters_1m FINAL WHERE exchange IN ("@, "argMin(open,window_start) AS o, argMax(close,window_start) AS c, max(high) AS h, min(low) AS l"@);
    lemma_holds_text(x18, EXCHANGES_SQL@, "argMin(open,window_start) AS o, argMax(close,window_start) AS c, max(high) AS h, min(low) AS l"@);
    lemma_holds_text(x19, MATERIALIZE_3@, "argMin(open,window_start) AS o, argMax(close,window_start) AS c, max(high) AS h, min(low) AS l"@);
    lemma_holds_text(x20, decimal_int(bar_start(from_ms as int, tf * 1000)), "argMin(open,window_start) AS o, argMax(close,window_start) AS c, max(high) AS h, min(low) AS l"@);
    lemma_holds_text(x21, MATERIALIZE_4@, "argMin(open,window_start) AS o, argMax(close,window_start) AS c, max(high) AS h, min(low) AS l"@);
    lemma_holds_text(x22, decimal_int(to_ms as int), "argMin(open,window_start) AS o, argMax(close,window_start) AS c, max(high) AS h, min(low) AS l"@);
    lemma_holds_text(x23, MATERIALIZE_7@, "argMin(open,window_start) AS o, argMax(close,window_start) AS c, max(high) AS h, min(low) AS l"@);
    lemma_holds_text(x23, MATERIALIZE_7@, "GROUP BY exchange,market_type,quote,symbol,rw ) AS w ON b.exchange=w.exchange AND b.market_type=w.market_type AND b.quote=w.quote AND b.symbol=w.symbol AND b.rw=w.rw"@);
}

proof fn lemma_rollup_columns()
    ensures
        holds_text(MATERIALIZE_1@, "(exchange,market_type,quote,symbol,window_start,price,price_scale,bid_qty,ask_qty,trades,qty_scale,ingest_region,open,close,high,low) SELECT b.exchange,b.market_type,b.quote,b.symbol,b.rw,b.price,b.ps,b.bid_qty,b.ask_qty,b.trades,b.qs,'rollup',w.o,w.c,w.h,w.l FROM"@),
        holds_text(MATERIALIZE_2@, "sum(bid_qty) AS bid_qty, sum(ask_qty) AS ask_qty, sum(trades) AS trades, any(price_scale) AS ps, any(qty_scale) AS qs"@),
        holds_text(MATERIALIZE_5@, "GROUP BY exchange,market_type,quote,symbol,rw,price ) AS b INNER JOIN"@),
        holds_text(MATERIALIZE_6@, "argMin(open,window_start) AS o, argMax(close,window_start) AS c, max(high) AS h, min(low) AS l"@),
        holds_text(MATERIALIZE_7@, "GROUP BY exchange,market_type,quote,symbol,rw ) AS w ON b.exchange=w.exchange AND b.market_type=w.market_type AND b.quote=w.quote AND b.symbol=w.symbol AND b.rw=w.rw"@),
{
    reveal_strlit(" (exchange,market_type,quote,symbol,window_start,price,price_scale,bid_qty,ask_qty,trades,qty_scale,ingest_region,open,close,high,low) SELECT b.exchange,b.market_type,b.quote,b.symbol,b.rw,b.price,b.ps,b.bid_qty,b.ask_qty,b.trades,b.qs,'rollup',w.o,w.c,w.h,w.l FROM ( SELECT exchange,market_type,quote,symbol, toStartOfInterval(window_start, INTERVAL ");
    reveal_strlit(" SECOND, 'UTC') AS rw, price, sum(bid_qty) AS bid_qty, sum(ask_qty) AS ask_qty, sum(trades) AS trades, any(price_scale) AS ps, any(qty_scale) AS qs FROM ");
    reveal_strlit(") GROUP BY exchange,market_type,quote,symbol,rw,price ) AS b INNER JOIN ( SELECT exchange,market_type,quote,symbol, toStartOfInterval(window_start, INTERVAL ");
    reveal_strlit(" SECOND, 'UTC') AS rw, argMin(open,window_start) AS o, argMax(close,window_start) AS c, max(high) AS h, min(low) AS l FROM ");
    reveal_strlit(") GROUP BY exchange,market_type,quote,symbol,rw ) AS w ON b.exchange=w.exchange AND b.market_type=w.market_type AND b.quote=w.quote AND b.symbol=w.symbol AND b.rw=w.rw");
    reveal_strlit("(exchange,market_type,quote,symbol,window_start,price,price_scale,bid_qty,ask_qty,trades,qty_scale,ingest_region,open,close,high,low) SELECT b.exchange,b.market_type,b.quote,b.symbol,b.rw,b.price,b.ps,b.bid_qty,b.ask_qty,b.trades,b.qs,'rollup',w.o,w.c,w.h,w.l FROM");
    assert(MATERIALIZE_1@ =~= MATERIALIZE_1@.take(1) + "(exchange,market_type,quote,symbol,window_start,price,price_scale,bid_qty,ask_qty,trades,qty_scale,ingest_region,open,close,high,low) SELECT b.exchange,b.market_type,b.quote,b.symbol,b.rw,b.price,b.ps,b.bid_qty,b.ask_qty,b.trades,b.qs,'rollup',w.o,w.c,w.h,w.l FROM"@ + MATERIALIZE_1@.skip(265));
    reveal_strlit("sum(bid_qty) AS bid_qty, sum(ask_qty) AS ask_qty, sum(trades) AS trades, any(price_scale) AS ps, any(qty_scale) AS qs");
    assert(MATERIALIZE_2@ =~= MATERIALIZE_2@.take(30) + "sum(bid_qty) AS bid_qty, sum(ask_qty) AS ask_qty, sum(trades) AS trades, any(price_scale) AS ps, any(qty_scale) AS qs"@ + MATERIALIZE_2@.skip(147));
    reveal_strlit("GROUP BY exchange,market_type,quote,symbol,rw,price ) AS b INNER JOIN");
    assert(MATERIALIZE_5@ =~= MATERIALIZE_5@.take(2) + "GROUP BY exchange,market_type,quote,symbol,rw,price ) AS b INNER JOIN"@ + MATERIALIZE_5@.skip(71));
    reveal_strlit("argMin(open,window_start) AS o, argMax(close,window_start) AS c, max(high) AS h, min(low) AS l");
    assert(MATERIALIZE_6@ =~= MATERIALIZE_6@.take(23) + "argMin(open,window_start) AS o, argMax(close,window_start) AS c, max(high) AS h, min(low) AS l"@ + MATERIALIZE_6@.skip(117));
    reveal_strlit("GROUP BY exchange,market_type,quote,symbol,rw ) AS w ON b.exchange=w.exchange AND b.market_type=w.market_type AND b.quote=w.quote AND b.symbol=w.symbol AND b.rw=w.rw");
    assert(MATERIALIZE_7@ =~= MATERIALIZE_7@.take(2) + "GROUP BY exchange,market_type,quote,symbol,rw ) AS w ON b.exchange=w.exchange AND b.market_type=w.market_type AND b.quote=w.quote AND b.symbol=w.symbol AND b.rw=w.rw"@ + MATERIALIZE_7@.skip(167));
}

/// A repeated roll-up reaches back two bars or fifteen minutes, whichever is more, and no further.
pub proof fn law_refresh_reaches_back(now_ms: i64, tf: u32)
    ensures
        ({
            let back = now_ms - refresh_start(now_ms, tf);
            &&& back >= 2 * tf * 1000
            &&& back >= 15 * 60 * 1000
            &&& back == 2 * tf * 1000 || back == 15 * 60 * 1000
        }),
{
}

} // verus!
