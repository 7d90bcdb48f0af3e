//! The bar lengths and the tables that hold them.

use vstd::prelude::*;
use vstd::string::*;

use crate::text::{decimal, lemma_decimal_value, u64_text};

verus! {

/// The bar lengths that have a table, in seconds.
pub const SUPPORTED_INTERVALS: [u32; 8] = [30, 60, 300, 900, 1800, 3600, 14400, 86400];

/// The bar length in its largest unit that divides it.
pub open spec fn unit_text(n: u32) -> Seq<char> {
    if n % 86400 == 0 {
        decimal((n / 86400) as nat) + "d"@
    } else if n % 3600 == 0 {
        decimal((n / 3600) as nat) + "h"@
    } else if n % 60 == 0 {
        decimal((n / 60) as nat) + "m"@
    } else {
        decimal(n as nat) + "s"@
    }
}

/// The name of the table of a bar length.
pub open spec fn table_name(n: u32) -> Seq<char> {
    "clusters_"@ + unit_text(n)
}

/// The name of the table of a bar length: `clusters_30s`, `clusters_1m`, `clusters_1h` and so on.
pub fn table_name_for(interval_seconds: u32) -> (r: String)
    ensures
        r@ == table_name(interval_seconds),
{
    let (count, unit) = if interval_seconds % 86400 == 0 {
        (interval_seconds / 86400, "d")
    } else if interval_seconds % 3600 == 0 {
        (interval_seconds / 3600, "h")
    } else if interval_seconds % 60 == 0 {
        (interval_seconds / 60, "m")
    } else {
        (interval_seconds, "s")
    };
    let human = u64_text(count as u64).concat(unit);
    "clusters_".to_owned().concat(human.as_str())
}

/// The bar length has a table.
pub open spec fn supported(n: u32) -> bool {
    n == 30 || n == 60 || n == 300 || n == 900 || n == 1800 || n == 3600 || n == 14400 || n == 86400
}

/// Whether a bar length has a table.
pub fn is_supported_interval(interval_seconds: u32) -> (r: bool)
    ensures
        r == supported(interval_seconds),
        r == SUPPORTED_INTERVALS@.contains(interval_seconds),
{
    let all: [u32; 8] = SUPPORTED_INTERVALS;
    let mut i: usize = 0;
    while i < 8
        invariant
            i <= 8,
            all == SUPPORTED_INTERVALS,
            forall|j: int| 0 <= j < i ==> all@[j] != interval_seconds,
        decreases 8 - i,
    {
        if all[i] == interval_seconds {
            assert(all@[i as int] == interval_seconds);
            return true;
        }
        i = i + 1;
    }
    false
}

/// The number and the unit of a bar length in its largest unit.
pub open spec fn count_and_unit(n: u32) -> (nat, char) {
    if n % 86400 == 0 {
        ((n / 86400) as nat, 'd')
    } else if n % 3600 == 0 {
        ((n / 3600) as nat, 'h')
    } else if n % 60 == 0 {
        ((n / 60) as nat, 'm')
    } else {
        (n as nat, 's')
    }
}

proof fn lemma_unit_text(n: u32)
    ensures
        unit_text(n) == decimal(count_and_unit(n).0).push(count_and_unit(n).1),
{
    reveal_strlit("d");
    reveal_strlit("h");
    reveal_strlit("m");
    reveal_strlit("s");
    assert(unit_text(n) =~= decimal(count_and_unit(n).0).push(count_and_unit(n).1));
}

/// Different bar lengths have different tables.
pub proof fn law_tables_are_distinct(a: u32, b: u32)
    requires
        a != b,
    ensures
        table_name(a) != table_name(b),
{
    lemma_unit_text(a);
    lemma_unit_text(b);
    let (na, ua) = count_and_unit(a);
    let (nb, ub) = count_and_unit(b);
    lemma_decimal_value(na);
    lemma_decimal_value(nb);
    if table_name(a) == table_name(b) {
        let k = "clusters_"@.len() as int;
        assert(table_name(a).skip(k) =~= unit_text(a));
        assert(table_name(b).skip(k) =~= unit_text(b));
        assert(unit_text(a).last() == ua);
        assert(unit_text(b).last() == ub);
        assert(unit_text(a).drop_last() =~= decimal(na));
        assert(unit_text(b).drop_last() =~= decimal(nb));
        assert(na == nb);
    }
}

/// The seconds of a unit of time.
pub open spec fn unit_seconds(unit: char) -> nat {
    if unit == 'd' {
        86400
    } else if unit == 'h' {
        3600
    } else if unit == 'm' {
        60
    } else {
        1
    }
}

/// The name of a table tells the length of its bars: a count and the largest unit that divides the
/// length.
pub proof fn law_table_name_tells_the_length(n: u32)
    ensures
        exists|count: nat, unit: char|
            {
                &&& table_name(n) == #[trigger] ("clusters_"@ + decimal(count) + seq![unit])
                &&& count * unit_seconds(unit) == n
                &&& unit == 'd' <==> n % 86400 == 0
                &&& unit == 'h' <==> n % 3600 == 0 && n % 86400 != 0
                &&& unit == 'm' <==> n % 60 == 0 && n % 3600 != 0
                &&& unit == 's' <==> n % 60 != 0
            },
{
    reveal_strlit("d");
    reveal_strlit("h");
    reveal_strlit("m");
    reveal_strlit("s");
    assert("d"@ =~= seq!['d'] && "h"@ =~= seq!['h'] && "m"@ =~= seq!['m'] && "s"@ =~= seq!['s']);
    let (count, unit) = count_and_unit(n);
    assert(table_name(n) =~= "clusters_"@ + decimal(count) + seq![unit]);
    if n % 86400 == 0 {
        assert(unit_seconds(unit) == 86400 && (n / 86400) * 86400 == n);
    } else if n % 3600 == 0 {
        assert(unit_seconds(unit) == 3600 && (n / 3600) * 3600 == n);
    } else if n % 60 == 0 {
        assert(unit_seconds(unit) == 60 && (n / 60) * 60 == n);
    } else {
        assert(unit_seconds(unit) == 1);
    }
}

} // verus!
