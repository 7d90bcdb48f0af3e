//! What a machine and its tables take up.

use vstd::prelude::*;
use vstd::string::*;
use vstd::utf8::*;

use crate::json::{json_document, parse_json, Json, JsonNumber, JsonView, NumberView};
use crate::retention::{quoted, sql_escape_single};
use crate::text::{lines, parse_u64, split_lines, trim, trimmed, u64_value, views};
use crate::url::{query_target, query_url};

verus! {

/// The query for the sizes of the tables, part 1.
pub const TABLE_SIZES_1: &'static str =
    "SELECT table, sum(rows) AS rows, sum(bytes_on_disk) AS compressed_bytes, \
    sum(data_uncompressed_bytes) AS uncompressed_bytes FROM system.parts WHERE active AND \
    database = '";

/// The query for the sizes of the tables, part 2.
pub const TABLE_SIZES_2: &'static str =
    "' GROUP BY table ORDER BY compressed_bytes DESC FORMAT JSONEachRow";

/// The query for the sizes of the tables of a database, largest first.
pub open spec fn table_sizes_sql(db: Seq<char>) -> Seq<char> {
    TABLE_SIZES_1@ + quoted(db) + TABLE_SIZES_2@
}

/// The URL that asks ClickHouse for the sizes of the tables of a database.
pub fn table_sizes_url(ch_url: &str, db: &str) -> (r: String)
    ensures
        r@ == query_target(ch_url@, table_sizes_sql(db@)),
{
    let name = sql_escape_single(db);
    let sql = TABLE_SIZES_1.to_owned().concat(name.as_str()).concat(TABLE_SIZES_2);
    query_url(ch_url, sql.as_str())
}

/// What one table takes up.
#[derive(Debug)]
pub struct TableUsage {
    pub table: String,
    pub rows: u64,
    pub compressed_bytes: u64,
    pub uncompressed_bytes: u64,
}

/// What a `TableUsage` says.
pub struct UsageView {
    pub table: Seq<char>,
    pub rows: u64,
    pub compressed_bytes: u64,
    pub uncompressed_bytes: u64,
}

impl View for TableUsage {
    type V = UsageView;

    open spec fn view(&self) -> UsageView {
        UsageView {
            table: self.table@,
            rows: self.rows,
            compressed_bytes: self.compressed_bytes,
            uncompressed_bytes: self.uncompressed_bytes,
        }
    }
}

/// The views of a row of tables.
pub open spec fn usage_views(s: Seq<TableUsage>) -> Seq<UsageView> {
    s.map_values(|x: TableUsage| x@)
}

/// An unsigned integer that comes as a number or as a text.
pub open spec fn loose_u64(v: Option<JsonView>) -> Option<u64> {
    match v {
        Some(JsonView::Number(NumberView::PosInt(n))) => Some(n),
        Some(JsonView::Text(t)) => u64_value(t),
        _ => None,
    }
}

/// Reads an unsigned integer that comes as a number or as a text.
pub fn json_u64(v: Option<&Json>) -> (r: Option<u64>)
    ensures
        r == loose_u64(crate::json::found(v)),
{
    match v {
        Some(Json::Number(JsonNumber::PosInt(n))) => Some(*n),
        Some(Json::Text(t)) => parse_u64(t.as_str()),
        _ => None,
    }
}

/// The table of a document, where it has all members.
pub open spec fn usage_of(v: JsonView) -> Option<UsageView> {
    match (
        v.text_of("table"@),
        loose_u64(v.member("rows"@)),
        loose_u64(v.member("compressed_bytes"@)),
        loose_u64(v.member("uncompressed_bytes"@)),
    ) {
        (Some(table), Some(rows), Some(compressed_bytes), Some(uncompressed_bytes)) => Some(
            UsageView { table, rows, compressed_bytes, uncompressed_bytes },
        ),
        _ => None,
    }
}

/// Reads the table of a document.
pub fn read_usage(v: &Json) -> (r: Option<TableUsage>)
    ensures
        (match r {
            Some(t) => Some(t@),
            None => None,
        }) == usage_of(v@),
{
    let table = match v.text_at("table") {
        Some(t) => t.to_owned(),
        None => {
            return None;
        },
    };
    let rows: u64 = match json_u64(v.get("rows")) {
        Some(n) => n,
        None => {
            return None;
        },
    };
    let compressed_bytes: u64 = match json_u64(v.get("compressed_bytes")) {
        Some(n) => n,
        None => {
            return None;
        },
    };
    let uncompressed_bytes: u64 = match json_u64(v.get("uncompressed_bytes")) {
        Some(n) => n,
        None => {
            return None;
        },
    };
    Some(TableUsage { table, rows, compressed_bytes, uncompressed_bytes })
}

/// The tables after one more line. Blank lines and lines that are no JSON are passed over; a
/// document that lacks a member spoils the whole.
pub open spec fn with_usage(before: Option<Seq<UsageView>>, line: Seq<char>) -> Option<
    Seq<UsageView>,
> {
    match before {
        None => None,
        Some(list) => if trimmed(line).len() == 0 {
            Some(list)
        } else {
            match json_document(encode_utf8(line)) {
                Err(_) => Some(list),
                Ok(v) => match usage_of(v) {
                    Some(u) => Some(list.push(u)),
                    None => None,
                },
            }
        },
    }
}

/// The tables of a row of lines.
pub open spec fn usages(ls: Seq<Seq<char>>) -> Option<Seq<UsageView>>
    decreases ls.len(),
{
    if ls.len() == 0 {
        Some(Seq::empty())
    } else {
        with_usage(usages(ls.drop_last()), ls.last())
    }
}

proof fn lemma_spoiled(ls: Seq<Seq<char>>, n: int)
    requires
        0 <= n <= ls.len(),
        usages(ls.take(n)) is None,
    ensures
        usages(ls) is None,
    decreases ls.len(),
{
    if n < ls.len() {
        assert(ls.drop_last().take(n) =~= ls.take(n));
        lemma_spoiled(ls.drop_last(), n);
    } else {
        assert(ls.take(n) =~= ls);
    }
}

/// Reads the sizes of the tables, one on each line.
pub fn parse_table_sizes(body: &str) -> (r: Option<Vec<TableUsage>>)
    ensures
        (match r {
            Some(v) => Some(usage_views(v@)),
            None => None,
        }) == usages(lines(body@)),
{
    let ls = split_lines(body);
    let ghost all = views(ls@);
    let mut out: Vec<TableUsage> = Vec::new();
    let mut i: usize = 0;
    assert(usage_views(out@) =~= Seq::<UsageView>::empty());
    while i < ls.len()
        invariant
            i <= ls@.len(),
            all == views(ls@),
            all == lines(body@),
            usages(all.take(i as int)) == Some(usage_views(out@)),
        decreases ls@.len() - i,
    {
        let line = ls[i].as_str();
        assert(all.take(i as int + 1).drop_last() =~= all.take(i as int));
        assert(all.take(i as int + 1).last() == line@);
        if trim(line).len() > 0 {
            match parse_json(line.as_bytes()) {
                Ok(v) => match read_usage(&v) {
                    Some(u) => {
                        let ghost before = usage_views(out@);
                        out.push(u);
                        assert(usage_views(out@) =~= before.push(u@));
                    },
                    None => {
                        proof {
                            lemma_spoiled(all, i as int + 1);
                        }
                        return None;
                    },
                },
                Err(_) => {},
            }
        }
        i = i + 1;
    }
    assert(all.take(i as int) =~= all);
    Some(out)
}

/// The space of one mounted disk, in bytes.
#[derive(Debug, Clone, Copy, PartialEq, Eq, Structural)]
pub struct DiskSpace {
    pub total: u64,
    pub free: u64,
}

/// What is not free; nothing where more is free than there is.
pub fn used_bytes(total: u64, free: u64) -> (r: u64)
    ensures
        r == (if total > free {
            total - free
        } else {
            0
        }),
{
    if total > free {
        total - free
    } else {
        0
    }
}

/// Picks the largest disk, the first of those that are equally large.
pub fn largest_disk(disks: &[DiskSpace]) -> (r: Option<usize>)
    ensures
        r is Some == (disks@.len() > 0),
        r is Some ==> {
            &&& r->0 < disks@.len()
            &&& forall|j: int|
                0 <= j < disks@.len() ==> (#[trigger] disks@[j]).total <= disks@[r->0 as int].total
            &&& forall|j: int|
                0 <= j < r->0 ==> (#[trigger] disks@[j]).total < disks@[r->0 as int].total
        },
{
    if disks.len() == 0 {
        return None;
    }
    let mut best: usize = 0;
    let mut i: usize = 1;
    while i < disks.len()
        invariant
            best < i <= disks@.len(),
            forall|j: int|
                0 <= j < i ==> (#[trigger] disks@[j]).total <= disks@[best as int].total,
            forall|j: int|
                0 <= j < best ==> (#[trigger] disks@[j]).total < disks@[best as int].total,
        decreases disks@.len() - i,
    {
        if disks[i].total > disks[best].total {
            best = i;
        }
        i = i + 1;
    }
    Some(best)
}

/// The number of cores, at least one.
pub fn num_cpus(seen: usize) -> (r: usize)
    ensures
        r == (if seen == 0 {
            1
        } else {
            seen
        }),
{
    if seen == 0 {
        1
    } else {
        seen
    }
}

/// The highest usage so far, in hundredths of a percent.
pub fn cpu_peak(so_far: u32, now: u32) -> (r: u32)
    ensures
        r == so_far || r == now,
        r >= so_far,
        r >= now,
{
    if now > so_far {
        now
    } else {
        so_far
    }
}

/// The usage of a table is that of its row: all four members have to be there, and each number is the
/// one of its own name.
pub proof fn law_usage_is_that_of_the_row(v: JsonView, u: UsageView)
    ensures
        usage_of(v) == Some(u) <==> {
            &&& v.text_of("table"@) == Some(u.table)
            &&& loose_u64(v.member("rows"@)) == Some(u.rows)
            &&& loose_u64(v.member("compressed_bytes"@)) == Some(u.compressed_bytes)
            &&& loose_u64(v.member("uncompressed_bytes"@)) == Some(u.uncompressed_bytes)
        },
{
}

/// A number reads the same whether it comes as a JSON number or as its text.
pub proof fn law_loose_numbers(n: u64)
    ensures
        loose_u64(Some(JsonView::Number(NumberView::PosInt(n)))) == Some(n),
        loose_u64(Some(JsonView::Text(crate::text::decimal(n as nat)))) == Some(n),
        loose_u64(Some(JsonView::Null)) is None,
        loose_u64(None) is None,
{
    crate::text::law_u64_round_trip(n);
}

/// The usages of two rows of lines one behind the other are those of the first and then those of the
/// second; one row without its members leaves nothing at all.
pub proof fn law_usages_add_up(a: Seq<Seq<char>>, b: Seq<Seq<char>>)
    ensures
        usages(a + b) == match (usages(a), usages(b)) {
            (Some(x), Some(y)) => Some(x + y),
            _ => None,
        },
    decreases b.len(),
{
    if b.len() == 0 {
        assert(a + b =~= a);
        match usages(a) {
            Some(x) => assert(x + Seq::<UsageView>::empty() =~= x),
            None => {},
        }
    } else {
        law_usages_add_up(a, b.drop_last());
        assert((a + b).drop_last() =~= a + b.drop_last());
        assert((a + b).last() == b.last());
        match (usages(a), usages(b.drop_last())) {
            (Some(x), Some(y)) => {
                assert forall|u: UsageView| (x + y).push(u) == #[trigger] (x + y.push(u)) by {
                    assert((x + y).push(u) =~= x + y.push(u));
                }
                match json_document(encode_utf8(b.last())) {
                    Ok(v) => match usage_of(v) {
                        Some(u) => assert((x + y).push(u) =~= x + y.push(u)),
                        None => {},
                    },
                    Err(_) => {},
                }
            },
            _ => {},
        }
    }
}

/// A line that is blank or no JSON is passed over; any other has to be the usage of a table.
pub proof fn law_lines_are_usages(line: Seq<char>)
    ensures
        trimmed(line).len() == 0 || json_document(encode_utf8(line)) is Err ==> usages(seq![line])
            == Some(Seq::<UsageView>::empty()),
        trimmed(line).len() > 0 && json_document(encode_utf8(line)) is Ok ==> usages(seq![line])
            == match usage_of(json_document(encode_utf8(line))->Ok_0) {
            Some(u) => Some(seq![u]),
            None => None,
        },
{
    let one = seq![line];
    assert(one.drop_last() =~= Seq::<Seq<char>>::empty());
    assert(one.last() == line);
    assert(usages(one.drop_last()) == Some(Seq::<UsageView>::empty()));
    match json_document(encode_utf8(line)) {
        Ok(v) => match usage_of(v) {
            Some(u) => assert(Seq::<UsageView>::empty().push(u) =~= seq![u]),
            None => {},
        },
        Err(_) => {},
    }
}

} // verus!
