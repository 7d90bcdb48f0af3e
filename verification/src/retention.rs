//! How long stored rows are kept, as the body of a ClickHouse TTL.

use vstd::prelude::*;
use vstd::string::*;

use crate::text::{
    ascii_lower, decimal, join, joined, lower, replace_char, replaced, same_text, to_lowercase,
    to_uppercase, u64_text, upper, views,
};

verus! {

/// How long to keep the rows of one venue and market. Without `interval_seconds` the rule holds for
/// every bar length, with it only for that one. Zero days keep the rows for ever.
#[derive(Debug)]
pub struct RetentionOverride {
    pub exchange: String,
    pub market_type: String,
    pub interval_seconds: Option<u32>,
    pub days: u64,
}

/// What a `RetentionOverride` says.
pub struct OverrideView {
    pub exchange: Seq<char>,
    pub market_type: Seq<char>,
    pub interval_seconds: Option<u32>,
    pub days: u64,
}

impl View for RetentionOverride {
    type V = OverrideView;

    open spec fn view(&self) -> OverrideView {
        OverrideView {
            exchange: self.exchange@,
            market_type: self.market_type@,
            interval_seconds: self.interval_seconds,
            days: self.days,
        }
    }
}

impl Clone for RetentionOverride {
    fn clone(&self) -> (r: RetentionOverride)
        ensures
            r@ == self@,
    {
        RetentionOverride {
            exchange: self.exchange.clone(),
            market_type: self.market_type.clone(),
            interval_seconds: self.interval_seconds,
            days: self.days,
        }
    }
}

/// How long stored rows are kept: `default_days` (zero: for ever) but for the overrides. Before its
/// deletion a row may move to the cold volume.
#[derive(Debug, Clone)]
pub struct RetentionConfig {
    pub default_days: u64,
    pub move_to_cold_days: Option<u64>,
    pub apply_on_start: bool,
    pub overrides: Vec<RetentionOverride>,
}

impl Default for RetentionConfig {
    fn default() -> (r: RetentionConfig)
        ensures
            r.default_days == 7,
            r.move_to_cold_days is None,
            r.apply_on_start,
            r.overrides@.len() == 0,
    {
        RetentionConfig {
            default_days: 7,
            move_to_cold_days: None,
            apply_on_start: true,
            overrides: Vec::new(),
        }
    }
}

/// The views of a row of rules.
pub open spec fn override_views(s: Seq<RetentionOverride>) -> Seq<OverrideView> {
    s.map_values(|x: RetentionOverride| x@)
}

/// Two rules are for the same venue and market.
pub open spec fn same_pair(a: OverrideView, b: OverrideView) -> bool {
    a.exchange == b.exchange && a.market_type == b.market_type
}

/// The rule holds for the table of the given bar length.
pub open spec fn applies(ov: OverrideView, tf: u32) -> bool {
    ov.interval_seconds is None || ov.interval_seconds == Some(tf)
}

/// The index of the first rule for the venue and market of `ov`, or the length.
pub open spec fn pair_index(list: Seq<OverrideView>, ov: OverrideView) -> int
    decreases list.len(),
{
    if list.len() == 0 {
        0
    } else if same_pair(list[0], ov) {
        0
    } else {
        1 + pair_index(list.skip(1), ov)
    }
}

/// The rules with one more, which takes the place of a general rule for its pair where it is
/// specific itself.
pub open spec fn with_rule(list: Seq<OverrideView>, ov: OverrideView) -> Seq<OverrideView> {
    let i = pair_index(list, ov);
    if i == list.len() {
        list.push(ov)
    } else if list[i].interval_seconds is None && ov.interval_seconds is Some {
        list.update(i, ov)
    } else {
        list
    }
}

/// The rules that hold for a bar length, one for each venue and market.
pub open spec fn effective(rules: Seq<OverrideView>, tf: u32) -> Seq<OverrideView>
    decreases rules.len(),
{
    if rules.len() == 0 {
        Seq::empty()
    } else {
        let before = effective(rules.drop_last(), tf);
        if applies(rules.last(), tf) {
            with_rule(before, rules.last())
        } else {
            before
        }
    }
}

/// The text inside an SQL literal.
pub open spec fn quoted(s: Seq<char>) -> Seq<char> {
    replaced(s, '\'', "''"@)
}

/// Doubles the single quotes of a text.
pub fn sql_escape_single(s: &str) -> (r: String)
    ensures
        r@ == quoted(s@),
{
    replace_char(s, '\'', "''")
}

/// The condition that picks the rows of a rule.
pub open spec fn condition(ov: OverrideView) -> Seq<char> {
    "exchange = '"@ + quoted(ov.exchange) + "' AND market_type = '"@ + quoted(ov.market_type) + "'"@
}

/// The clause that deletes the rows of a rule.
pub open spec fn delete_clause(ov: OverrideView) -> Seq<char> {
    "toDateTime(window_start) + INTERVAL "@ + decimal(ov.days as nat) + " DAY DELETE WHERE "@
        + condition(ov)
}

/// The conditions of a row of rules.
pub open spec fn conditions(list: Seq<OverrideView>) -> Seq<Seq<char>> {
    list.map_values(|ov: OverrideView| condition(ov))
}

/// The clauses of the rules that delete.
pub open spec fn delete_clauses(list: Seq<OverrideView>) -> Seq<Seq<char>>
    decreases list.len(),
{
    if list.len() == 0 {
        Seq::empty()
    } else if list.last().days > 0 {
        delete_clauses(list.drop_last()).push(delete_clause(list.last()))
    } else {
        delete_clauses(list.drop_last())
    }
}

/// What keeps the default clauses away from the rows of the rules.
pub open spec fn default_where(list: Seq<OverrideView>) -> Seq<char> {
    if list.len() == 0 {
        Seq::empty()
    } else {
        " WHERE NOT ("@ + joined(conditions(list), " OR "@) + ")"@
    }
}

/// The clauses for the rows that no rule is for. The move to the cold volume comes before the
/// deletion, and only where it is due earlier.
pub open spec fn default_clauses(
    default_days: u64,
    cold: Option<u64>,
    list: Seq<OverrideView>,
) -> Seq<Seq<char>> {
    let delete = "toDateTime(window_start) + INTERVAL "@ + decimal(default_days as nat)
        + " DAY DELETE"@ + default_where(list);
    if default_days == 0 {
        Seq::empty()
    } else if cold is Some && 0 < cold->0 < default_days {
        seq![
            "toDateTime(window_start) + INTERVAL "@ + decimal(cold->0 as nat)
                + " DAY TO VOLUME 'cold'"@ + default_where(list),
            delete,
        ]
    } else {
        seq![delete]
    }
}

impl RetentionConfig {
    /// The rules that hold for a bar length.
    pub open spec fn rules_for(self, tf: u32) -> Seq<OverrideView> {
        effective(override_views(self.overrides@), tf)
    }

    /// All clauses of the TTL of a bar length.
    pub open spec fn clauses_for(self, tf: u32) -> Seq<Seq<char>> {
        delete_clauses(self.rules_for(tf)) + default_clauses(
            self.default_days,
            self.move_to_cold_days,
            self.rules_for(tf),
        )
    }
}

proof fn lemma_pair_index(list: Seq<OverrideView>, ov: OverrideView, k: int)
    requires
        0 <= k <= list.len(),
        k < list.len() ==> same_pair(list[k], ov),
        forall|i: int| 0 <= i < k ==> !same_pair(#[trigger] list[i], ov),
    ensures
        pair_index(list, ov) == k,
    decreases list.len(),
{
    if k > 0 {
        assert(!same_pair(list[0], ov));
        assert forall|i: int| 0 <= i < k - 1 implies !same_pair(
            #[trigger] list.skip(1)[i],
            ov,
        ) by {
            assert(list.skip(1)[i] == list[i + 1]);
        }
        lemma_pair_index(list.skip(1), ov, k - 1);
    }
}

fn find_pair(list: &Vec<RetentionOverride>, ov: &RetentionOverride) -> (r: usize)
    ensures
        r == pair_index(override_views(list@), ov@),
        r <= list@.len(),
{
    let mut i: usize = 0;
    while i < list.len()
        invariant
            i <= list@.len(),
            forall|j: int| 0 <= j < i ==> !same_pair((#[trigger] list@[j])@, ov@),
        decreases list@.len() - i,
    {
        if same_text(list[i].exchange.as_str(), ov.exchange.as_str()) && same_text(
            list[i].market_type.as_str(),
            ov.market_type.as_str(),
        ) {
            proof {
                lemma_pair_index(override_views(list@), ov@, i as int);
            }
            return i;
        }
        i = i + 1;
    }
    proof {
        lemma_pair_index(override_views(list@), ov@, i as int);
    }
    i
}

fn rule_applies(ov: &RetentionOverride, tf: u32) -> (r: bool)
    ensures
        r == applies(ov@, tf),
{
    match ov.interval_seconds {
        Some(t) => t == tf,
        None => true,
    }
}

impl RetentionConfig {
    /// Picks the rules that hold for a bar length.
    fn effective_rules(&self, tf: u32) -> (r: Vec<RetentionOverride>)
        ensures
            override_views(r@) == self.rules_for(tf),
    {
        let ghost all = override_views(self.overrides@);
        let mut out: Vec<RetentionOverride> = Vec::new();
        let mut i: usize = 0;
        assert(override_views(out@) =~= Seq::<OverrideView>::empty());
        while i < self.overrides.len()
            invariant
                i <= self.overrides@.len(),
                all == override_views(self.overrides@),
                override_views(out@) == effective(all.take(i as int), tf),
            decreases self.overrides@.len() - i,
        {
            let ov = &self.overrides[i];
            let ghost next = all.take(i as int + 1);
            let ghost before = override_views(out@);
            assert(next.drop_last() =~= all.take(i as int));
            assert(next.last() == ov@);
            if rule_applies(ov, tf) {
                let k: usize = find_pair(&out, ov);
                if k == out.len() {
                    out.push(ov.clone());
                    assert(override_views(out@) =~= before.push(ov@));
                } else if out[k].interval_seconds.is_none() && ov.interval_seconds.is_some() {
                    assert(before[k as int] == out@[k as int]@);
                    out[k] = ov.clone();
                    assert(override_views(out@) =~= before.update(k as int, ov@));
                } else {
                    assert(before[k as int] == out@[k as int]@);
                }
            }
            i = i + 1;
        }
        assert(all.take(i as int) =~= all);
        out
    }

    /// The body of the TTL of a bar length: one clause for each rule that deletes, then those for
    /// all other rows. `None` where nothing is ever deleted.
    pub fn ttl_clause_for(&self, interval_seconds: u32) -> (r: Option<String>)
        ensures
            r is Some == (self.clauses_for(interval_seconds).len() > 0),
            r is Some ==> r->0@ == joined(self.clauses_for(interval_seconds), ", "@),
    {
        let rules = self.effective_rules(interval_seconds);
        let ghost list = override_views(rules@);
        let mut clauses: Vec<String> = Vec::new();
        let mut excluded: Vec<String> = Vec::new();
        let mut i: usize = 0;
        assert(views(clauses@) =~= Seq::<Seq<char>>::empty());
        while i < rules.len()
            invariant
                i <= rules@.len(),
                list == override_views(rules@),
                views(clauses@) == delete_clauses(list.take(i as int)),
                excluded@.len() == i,
                forall|k: int| 0 <= k < i ==> (#[trigger] excluded@[k])@ == condition(list[k]),
            decreases rules@.len() - i,
        {
            let ov = &rules[i];
            let ghost next = list.take(i as int + 1);
            assert(next.drop_last() =~= list.take(i as int));
            assert(next.last() == ov@);
            let exchange = sql_escape_single(ov.exchange.as_str());
            let market = sql_escape_single(ov.market_type.as_str());
            let cond = "exchange = '".to_owned().concat(exchange.as_str()).concat(
                "' AND market_type = '",
            ).concat(market.as_str()).concat("'");
            if ov.days > 0 {
                let days = u64_text(ov.days);
                let clause = "toDateTime(window_start) + INTERVAL ".to_owned().concat(
                    days.as_str(),
                ).concat(" DAY DELETE WHERE ").concat(cond.as_str());
                let ghost before = views(clauses@);
                clauses.push(clause);
                assert(views(clauses@) =~= before.push(delete_clause(ov@)));
            }
            excluded.push(cond);
            i = i + 1;
        }
        assert(list.take(i as int) =~= list);
        assert(views(excluded@) =~= conditions(list));
        let tail = if excluded.len() == 0 {
            String::new()
        } else {
            let any = join(&excluded, " OR ");
            " WHERE NOT (".to_owned().concat(any.as_str()).concat(")")
        };
        assert(tail@ == default_where(list));
        let ghost own = views(clauses@);
        assert(own == delete_clauses(list));
        if self.default_days > 0 {
            match self.move_to_cold_days {
                Some(cold) => {
                    if cold > 0 && cold < self.default_days {
                        let days = u64_text(cold);
                        clauses.push(
                            "toDateTime(window_start) + INTERVAL ".to_owned().concat(
                                days.as_str(),
                            ).concat(" DAY TO VOLUME 'cold'").concat(tail.as_str()),
                        );
                    }
                },
                None => {},
            }
            let days = u64_text(self.default_days);
            clauses.push(
                "toDateTime(window_start) + INTERVAL ".to_owned().concat(days.as_str()).concat(
                    " DAY DELETE",
                ).concat(tail.as_str()),
            );
        }
        assert(views(clauses@) =~= own + default_clauses(
            self.default_days,
            self.move_to_cold_days,
            list,
        ));
        if clauses.len() == 0 {
            None
        } else {
            Some(join(&clauses, ", "))
        }
    }
}

/// How an optional bar length is written in messages.
pub open spec fn interval_text(x: Option<u32>) -> Seq<char> {
    match x {
        Some(n) => "Some("@ + decimal(n as nat) + ")"@,
        None => "None"@,
    }
}

/// What is wrong with a rule, given those before it.
pub open spec fn rule_fault(before: Seq<OverrideView>, ov: OverrideView) -> Option<Seq<char>> {
    if exists|i: int|
        0 <= i < before.len() && same_pair(#[trigger] before[i], ov) && before[i].interval_seconds
            == ov.interval_seconds {
        Some(
            "retention.override: дубликат для ("@ + ov.exchange + ", "@ + ov.market_type
                + ", interval_seconds="@ + interval_text(ov.interval_seconds)
                + ") — оставь одно правило"@,
        )
    } else if ov.exchange != upper(ov.exchange) {
        Some(
            "retention.override.exchange = '"@ + ov.exchange
                + "' — ожидается UPPER (как Exchange::wire_id, например 'BINANCEF')"@,
        )
    } else if ov.market_type != lower(ov.market_type) {
        Some(
            "retention.override.market_type = '"@ + ov.market_type
                + "' — ожидается lowercase ('spot' | 'perp')"@,
        )
    } else if ov.market_type != "spot"@ && ov.market_type != "perp"@ {
        Some(
            "retention.override.market_type = '"@ + ov.market_type
                + "' — поддерживаются 'spot' | 'perp'"@,
        )
    } else {
        None
    }
}

/// What is wrong with the first rule that is at fault.
pub open spec fn first_fault(rules: Seq<OverrideView>) -> Option<Seq<char>>
    decreases rules.len(),
{
    if rules.len() == 0 {
        None
    } else {
        match first_fault(rules.drop_last()) {
            Some(m) => Some(m),
            None => rule_fault(rules.drop_last(), rules.last()),
        }
    }
}

proof fn lemma_first_fault(rules: Seq<OverrideView>, n: int)
    requires
        0 <= n <= rules.len(),
        first_fault(rules.take(n)) is Some,
    ensures
        first_fault(rules) == first_fault(rules.take(n)),
    decreases rules.len(),
{
    if n < rules.len() {
        assert(rules.drop_last().take(n) =~= rules.take(n));
        lemma_first_fault(rules.drop_last(), n);
    } else {
        assert(rules.take(n) =~= rules);
    }
}

fn interval_display(x: Option<u32>) -> (r: String)
    ensures
        r@ == interval_text(x),
{
    match x {
        Some(n) => {
            let digits = u64_text(n as u64);
            "Some(".to_owned().concat(digits.as_str()).concat(")")
        },
        None => "None".to_owned(),
    }
}

fn same_interval(a: Option<u32>, b: Option<u32>) -> (r: bool)
    ensures
        r == (a == b),
{
    match (a, b) {
        (Some(x), Some(y)) => x == y,
        (None, None) => true,
        _ => false,
    }
}

impl RetentionConfig {
    /// Whether a rule before position `i` has the same three keys.
    fn repeats(&self, i: usize) -> (r: bool)
        requires
            i < self.overrides@.len(),
        ensures
            r == exists|j: int|
                0 <= j < i && same_pair(
                    (#[trigger] override_views(self.overrides@).take(i as int)[j]),
                    self.overrides@[i as int]@,
                ) && override_views(self.overrides@).take(i as int)[j].interval_seconds
                    == self.overrides@[i as int]@.interval_seconds,
    {
        let ghost before = override_views(self.overrides@).take(i as int);
        let ov = &self.overrides[i];
        let mut j: usize = 0;
        while j < i
            invariant
                j <= i < self.overrides@.len(),
                before == override_views(self.overrides@).take(i as int),
                *ov == self.overrides@[i as int],
                forall|k: int|
                    0 <= k < j ==> !(same_pair(#[trigger] before[k], ov@)
                        && before[k].interval_seconds == ov@.interval_seconds),
            decreases i - j,
        {
            let prev = &self.overrides[j];
            assert(before[j as int] == prev@);
            if same_text(prev.exchange.as_str(), ov.exchange.as_str()) && same_text(
                prev.market_type.as_str(),
                ov.market_type.as_str(),
            ) && same_interval(prev.interval_seconds, ov.interval_seconds) {
                return true;
            }
            j = j + 1;
        }
        false
    }

    fn fault_at(&self, i: usize) -> (r: Option<String>)
        requires
            i < self.overrides@.len(),
        ensures
            (match r {
                Some(m) => Some(m@),
                None => None,
            }) == rule_fault(
                override_views(self.overrides@).take(i as int),
                self.overrides@[i as int]@,
            ),
    {
        let ov = &self.overrides[i];
        let ghost before = override_views(self.overrides@).take(i as int);
        assert(before.len() == i);
        if self.repeats(i) {
            let interval = interval_display(ov.interval_seconds);
            return Some(
                "retention.override: дубликат для (".to_owned().concat(
                    ov.exchange.as_str(),
                ).concat(", ").concat(ov.market_type.as_str()).concat(
                    ", interval_seconds=",
                ).concat(interval.as_str()).concat(") — оставь одно правило"),
            );
        }
        let up = to_uppercase(ov.exchange.as_str());
        if !same_text(ov.exchange.as_str(), up.as_str()) {
            return Some(
                "retention.override.exchange = '".to_owned().concat(ov.exchange.as_str()).concat(
                    "' — ожидается UPPER (как Exchange::wire_id, например 'BINANCEF')",
                ),
            );
        }
        let low = to_lowercase(ov.market_type.as_str());
        if !same_text(ov.market_type.as_str(), low.as_str()) {
            return Some(
                "retention.override.market_type = '".to_owned().concat(
                    ov.market_type.as_str(),
                ).concat("' — ожидается lowercase ('spot' | 'perp')"),
            );
        }
        if !same_text(ov.market_type.as_str(), "spot") && !same_text(
            ov.market_type.as_str(),
            "perp",
        ) {
            return Some(
                "retention.override.market_type = '".to_owned().concat(
                    ov.market_type.as_str(),
                ).concat("' — поддерживаются 'spot' | 'perp'"),
            );
        }
        None
    }

    /// Refuses a rule that repeats an earlier one, names its venue in anything but uppercase or its
    /// market in anything but "spot" and "perp".
    pub fn validate(&self) -> (r: Result<(), String>)
        ensures
            (match r {
                Ok(_) => None,
                Err(m) => Some(m@),
            }) == first_fault(override_views(self.overrides@)),
    {
        let ghost all = override_views(self.overrides@);
        let mut i: usize = 0;
        while i < self.overrides.len()
            invariant
                i <= self.overrides@.len(),
                all == override_views(self.overrides@),
                first_fault(all.take(i as int)) is None,
            decreases self.overrides@.len() - i,
        {
            let ghost next = all.take(i as int + 1);
            assert(next.drop_last() =~= all.take(i as int));
            assert(next.last() == self.overrides@[i as int]@);
            match self.fault_at(i) {
                Some(m) => {
                    proof {
                        lemma_first_fault(all, i as int + 1);
                    }
                    return Err(m);
                },
                None => {},
            }
            i = i + 1;
        }
        assert(all.take(i as int) =~= all);
        Ok(())
    }
}

/// No two rules are for the same venue and market.
pub open spec fn unique_pairs(list: Seq<OverrideView>) -> bool {
    forall|i: int, j: int|
        0 <= i < j < list.len() ==> !same_pair(#[trigger] list[i], #[trigger] list[j])
}

/// Some rule is for the venue and market of `ov`, and a specific one if `ov` is specific.
pub open spec fn covers(list: Seq<OverrideView>, ov: OverrideView) -> bool {
    exists|i: int|
        0 <= i < list.len() && same_pair(#[trigger] list[i], ov) && (ov.interval_seconds is Some
            ==> list[i].interval_seconds is Some)
}

proof fn lemma_pair_index_holds(list: Seq<OverrideView>, ov: OverrideView)
    ensures
        0 <= pair_index(list, ov) <= list.len(),
        pair_index(list, ov) < list.len() ==> same_pair(list[pair_index(list, ov)], ov),
        forall|i: int| 0 <= i < pair_index(list, ov) ==> !same_pair(#[trigger] list[i], ov),
    decreases list.len(),
{
    if list.len() > 0 && !same_pair(list[0], ov) {
        lemma_pair_index_holds(list.skip(1), ov);
        assert forall|i: int| 0 <= i < pair_index(list, ov) implies !same_pair(
            #[trigger] list[i],
            ov,
        ) by {
            if i > 0 {
                assert(list.skip(1)[i - 1] == list[i]);
            }
        }
    }
}

proof fn lemma_with_rule(list: Seq<OverrideView>, ov: OverrideView, x: OverrideView)
    requires
        unique_pairs(list),
    ensures
        unique_pairs(with_rule(list, ov)),
        covers(with_rule(list, ov), ov),
        covers(list, x) ==> covers(with_rule(list, ov), x),
{
    lemma_pair_index_holds(list, ov);
    let k = pair_index(list, ov);
    let after = with_rule(list, ov);
    assert forall|i: int, j: int| 0 <= i < j < after.len() implies !same_pair(
        #[trigger] after[i],
        #[trigger] after[j],
    ) by {
        if k == list.len() {
            if j == list.len() {
                assert(!same_pair(list[i], ov));
            } else {
                assert(!same_pair(list[i], list[j]));
            }
        } else {
            assert(!same_pair(list[i], list[j]));
        }
    }
    assert(same_pair(after[k], ov));
    if covers(list, x) {
        let i = choose|i: int|
            0 <= i < list.len() && same_pair(#[trigger] list[i], x) && (x.interval_seconds is Some
                ==> list[i].interval_seconds is Some);
        assert(same_pair(after[i], x));
    }
}

/// For every bar length there is one rule for each venue and market that a rule is for, and a
/// specific rule beats a general one.
pub proof fn law_effective_rules(rules: Seq<OverrideView>, tf: u32)
    ensures
        unique_pairs(effective(rules, tf)),
        forall|i: int|
            0 <= i < rules.len() && applies(#[trigger] rules[i], tf) ==> covers(
                effective(rules, tf),
                rules[i],
            ),
    decreases rules.len(),
{
    if rules.len() > 0 {
        let init = rules.drop_last();
        law_effective_rules(init, tf);
        lemma_with_rule(effective(init, tf), rules.last(), rules.last());
        assert forall|i: int| 0 <= i < rules.len() && applies(#[trigger] rules[i], tf) implies covers(
            effective(rules, tf),
            rules[i],
        ) by {
            if i < init.len() {
                assert(init[i] == rules[i]);
                lemma_with_rule(effective(init, tf), rules.last(), rules[i]);
            }
        }
    }
}

/// A rule for ever has no clause that deletes: each deleting clause comes from a rule with days.
pub proof fn law_forever_is_kept(list: Seq<OverrideView>, clause: Seq<char>)
    requires
        delete_clauses(list).contains(clause),
    ensures
        exists|i: int|
            0 <= i < list.len() && (#[trigger] list[i]).days > 0 && clause == delete_clause(list[i]),
    decreases list.len(),
{
    let init = list.drop_last();
    let k = delete_clauses(list).index_of(clause);
    if list.len() > 0 {
        if list.last().days > 0 && k == delete_clauses(list).len() - 1 {
            assert(list[list.len() - 1].days > 0);
        } else {
            assert(delete_clauses(init)[k] == clause);
            law_forever_is_kept(init, clause);
            let i = choose|i: int|
                0 <= i < init.len() && (#[trigger] init[i]).days > 0 && clause == delete_clause(
                    init[i],
                );
            assert(list[i] == init[i]);
        }
    }
}

/// Nothing is written where the default keeps for ever and so does every rule.
pub proof fn law_all_forever_means_no_ttl(c: RetentionConfig, tf: u32)
    requires
        c.default_days == 0,
        forall|i: int| 0 <= i < c.rules_for(tf).len() ==> (#[trigger] c.rules_for(tf)[i]).days == 0,
    ensures
        c.clauses_for(tf).len() == 0,
{
    lemma_no_delete(c.rules_for(tf));
}

proof fn lemma_no_delete(list: Seq<OverrideView>)
    requires
        forall|i: int| 0 <= i < list.len() ==> (#[trigger] list[i]).days == 0,
    ensures
        delete_clauses(list).len() == 0,
    decreases list.len(),
{
    if list.len() > 0 {
        let init = list.drop_last();
        assert(list[list.len() - 1].days == 0);
        assert forall|i: int| 0 <= i < init.len() implies (#[trigger] init[i]).days == 0 by {
            assert(init[i] == list[i]);
        }
        lemma_no_delete(init);
    }
}

/// Every rule's rows, those kept for ever among them, are out of reach of the default clauses.
pub proof fn law_rules_are_excluded_from_default(list: Seq<OverrideView>, i: int)
    requires
        0 <= i < list.len(),
    ensures
        default_where(list) == " WHERE NOT ("@ + joined(conditions(list), " OR "@) + ")"@,
        conditions(list)[i] == condition(list[i]),
{
}

impl RetentionConfig {
    /// The statement that sets the TTL of the table of a bar length. `None` where nothing is ever
    /// deleted.
    pub fn ttl_statement(&self, database: &str, table: &str, interval_seconds: u32) -> (r: Option<
        String,
    >)
        ensures
            r is Some == (self.clauses_for(interval_seconds).len() > 0),
            r is Some ==> r->0@ == "ALTER TABLE "@ + database@ + "."@ + table@ + " MODIFY TTL "@
                + joined(self.clauses_for(interval_seconds), ", "@),
    {
        match self.ttl_clause_for(interval_seconds) {
            Some(clause) => Some(
                "ALTER TABLE ".to_owned().concat(database).concat(".").concat(table).concat(
                    " MODIFY TTL ",
                ).concat(clause.as_str()),
            ),
            None => None,
        }
    }
}

/// The text that an SQL literal stands for.
pub open spec fn unquoted(s: Seq<char>) -> Seq<char>
    decreases s.len(),
{
    if s.len() == 0 {
        Seq::empty()
    } else if s.len() >= 2 && s.last() == '\'' && s[s.len() - 2] == '\'' {
        unquoted(s.take(s.len() - 2)).push('\'')
    } else {
        unquoted(s.drop_last()).push(s.last())
    }
}

/// Quoting loses nothing, and every quote of a quoted text stands doubled: the literal reads back as
/// the text.
pub proof fn law_quoting_is_reversible(s: Seq<char>)
    ensures
        unquoted(quoted(s)) == s,
    decreases s.len(),
{
    reveal_strlit("''");
    if s.len() > 0 {
        let init = quoted(s.drop_last());
        law_quoting_is_reversible(s.drop_last());
        if s.last() == '\'' {
            assert(quoted(s) =~= init + seq!['\'', '\'']);
            assert(quoted(s).take(quoted(s).len() - 2) =~= init);
        } else {
            assert(quoted(s) =~= init.push(s.last()));
            assert(quoted(s).drop_last() =~= init);
        }
        assert(unquoted(quoted(s)) =~= s);
    } else {
        assert(unquoted(quoted(s)) =~= s);
    }
}

/// The rule at `j` is the one that counts for its venue and market at one bar length: no rule before
/// it is for the same pair, unless that one is for all bar lengths and this one is not; and if it is
/// for all bar lengths, no rule of the pair is for this one.
pub open spec fn counts(rules: Seq<OverrideView>, tf: u32, j: int) -> bool {
    &&& 0 <= j < rules.len()
    &&& applies(rules[j], tf)
    &&& forall|k: int|
        0 <= k < j && same_pair(#[trigger] rules[k], rules[j]) && applies(rules[k], tf)
            ==> rules[k].interval_seconds is None && rules[j].interval_seconds is Some
    &&& rules[j].interval_seconds is None ==> forall|k: int|
        0 <= k < rules.len() && same_pair(#[trigger] rules[k], rules[j])
            ==> rules[k].interval_seconds != Some(tf)
}

/// Each effective rule is the one that counts for its venue and market: the first that is for this
/// bar length alone, and without one the first that is for all.
pub proof fn law_most_specific_rule_counts(rules: Seq<OverrideView>, tf: u32, i: int)
    requires
        0 <= i < effective(rules, tf).len(),
    ensures
        exists|j: int| #[trigger] counts(rules, tf, j) && effective(rules, tf)[i] == rules[j],
    decreases rules.len(),
{
    if rules.len() > 0 {
        let init = rules.drop_last();
        let ov = rules.last();
        let n = rules.len() - 1;
        let old = effective(init, tf);
        let e = effective(rules, tf)[i];
        assert(rules[n] == ov);
        assert forall|k: int| 0 <= k < n implies #[trigger] rules[k] == init[k] by {
        }
        law_effective_rules(init, tf);
        lemma_pair_index_holds(old, ov);
        let p = pair_index(old, ov);
        if !applies(ov, tf) {
            law_most_specific_rule_counts(init, tf, i);
            let j = choose|j: int| #[trigger] counts(init, tf, j) && old[i] == init[j];
            assert(counts(rules, tf, j));
        } else if p < old.len() && !(old[p].interval_seconds is None && ov.interval_seconds is Some)
            || i != p {
            assert(i < old.len() && e == old[i]);
            law_most_specific_rule_counts(init, tf, i);
            let j = choose|j: int| #[trigger] counts(init, tf, j) && old[i] == init[j];
            if same_pair(ov, rules[j]) && i != p {
                assert(same_pair(old[i], ov));
                if p < old.len() {
                    if i < p {
                        assert(!same_pair(old[i], old[p]));
                    } else {
                        assert(!same_pair(old[p], old[i]));
                    }
                }
                assert(false);
            }
            assert(counts(rules, tf, j));
        } else {
            assert(e == ov);
            if p < old.len() {
                law_most_specific_rule_counts(init, tf, p);
                let j = choose|j: int| #[trigger] counts(init, tf, j) && old[p] == init[j];
                assert forall|k: int|
                    0 <= k < n && same_pair(#[trigger] rules[k], rules[n]) && applies(
                        rules[k],
                        tf,
                    ) implies rules[k].interval_seconds is None && rules[n].interval_seconds is Some by {
                    assert(same_pair(init[k], init[j]));
                }
            } else {
                assert forall|k: int|
                    0 <= k < n && same_pair(#[trigger] rules[k], rules[n]) && applies(
                        rules[k],
                        tf,
                    ) implies false by {
                    assert(applies(init[k], tf));
                    assert(covers(old, init[k]));
                    let m = choose|m: int|
                        0 <= m < old.len() && same_pair(#[trigger] old[m], init[k]) && (
                        init[k].interval_seconds is Some ==> old[m].interval_seconds is Some);
                    assert(!same_pair(old[m], ov));
                }
            }
            assert(counts(rules, tf, n));
        }
    }
}

/// Every rule that has days leaves one clause, and no other rule does: the rows of its venue and
/// market are deleted after its days.
pub proof fn law_each_rule_has_its_clause(list: Seq<OverrideView>, i: int)
    requires
        0 <= i < list.len(),
    ensures
        list[i].days > 0 ==> delete_clauses(list).contains(
            "toDateTime(window_start) + INTERVAL "@ + decimal(list[i].days as nat)
                + " DAY DELETE WHERE "@ + ("exchange = '"@ + quoted(list[i].exchange)
                + "' AND market_type = '"@ + quoted(list[i].market_type) + "'"@),
        ),
        delete_clauses(list).len() == list.filter(|ov: OverrideView| ov.days > 0).len(),
    decreases list.len(),
{
    reveal(Seq::filter);
    let init = list.drop_last();
    if i < init.len() {
        law_each_rule_has_its_clause(init, i);
        let c = delete_clause(list[i]);
        if list[i].days > 0 {
            assert(init[i] == list[i]);
            let k = delete_clauses(init).index_of(c);
            assert(delete_clauses(list)[k] == c);
        }
    } else {
        if init.len() > 0 {
            law_each_rule_has_its_clause(init, 0);
        }
        if list[i].days > 0 {
            assert(delete_clauses(list).last() == delete_clause(list[i]));
            assert(delete_clauses(list)[delete_clauses(list).len() - 1] == delete_clause(list[i]));
        }
    }
}

/// The rows that no rule is for are deleted after the default days, and moved to the cold volume
/// before that where the days for it are fewer; without default days they stay. The condition
/// leaves out the venue and market of every rule.
pub proof fn law_default_is_for_the_rest(
    default_days: u64,
    cold: Option<u64>,
    list: Seq<OverrideView>,
)
    ensures
        ({
            let rest = if list.len() == 0 {
                ""@
            } else {
                " WHERE NOT ("@ + joined(
                    list.map_values(
                        |ov: OverrideView|
                            "exchange = '"@ + quoted(ov.exchange) + "' AND market_type = '"@ + quoted(
                                ov.market_type,
                            ) + "'"@,
                    ),
                    " OR "@,
                ) + ")"@
            };
            let clauses = default_clauses(default_days, cold, list);
            let moves = cold is Some && 0 < cold->0 < default_days;
            &&& clauses.len() == (if default_days == 0 {
                0int
            } else if moves {
                2
            } else {
                1
            })
            &&& default_days > 0 ==> clauses.last() == "toDateTime(window_start) + INTERVAL "@
                + decimal(default_days as nat) + " DAY DELETE"@ + rest
            &&& moves ==> clauses[0] == "toDateTime(window_start) + INTERVAL "@ + decimal(
                cold->0 as nat,
            ) + " DAY TO VOLUME 'cold'"@ + rest
        }),
{
    reveal_strlit("");
    assert(""@ =~= Seq::<char>::empty());
    assert(conditions(list) =~= list.map_values(
        |ov: OverrideView|
            "exchange = '"@ + quoted(ov.exchange) + "' AND market_type = '"@ + quoted(ov.market_type)
                + "'"@,
    ));
}

/// The rules are valid exactly where no two are for the same venue, market and bar length, each venue
/// is in uppercase, and each market is one of the two.
pub proof fn law_valid_rules(rules: Seq<OverrideView>)
    ensures
        first_fault(rules) is None <==> {
            &&& forall|i: int, j: int|
                0 <= i < j < rules.len() ==> !(same_pair(#[trigger] rules[i], #[trigger] rules[j])
                    && rules[i].interval_seconds == rules[j].interval_seconds)
            &&& forall|i: int|
                0 <= i < rules.len() ==> (#[trigger] rules[i]).exchange == upper(rules[i].exchange)
            &&& forall|i: int|
                0 <= i < rules.len() ==> (#[trigger] rules[i]).market_type == "spot"@
                    || rules[i].market_type == "perp"@
        },
    decreases rules.len(),
{
    if rules.len() > 0 {
        let init = rules.drop_last();
        let last = rules.last();
        let n = rules.len() - 1;
        law_valid_rules(init);
        assert(rules[n] == last);
        assert forall|k: int| 0 <= k < n implies #[trigger] rules[k] == init[k] by {
        }
        lemma_market_words();
        if first_fault(rules) is None {
            assert forall|i: int, j: int| 0 <= i < j < rules.len() implies !(same_pair(
                #[trigger] rules[i],
                #[trigger] rules[j],
            ) && rules[i].interval_seconds == rules[j].interval_seconds) by {
                if j == n {
                    assert(init[i] == rules[i]);
                } else {
                    assert(init[i] == rules[i] && init[j] == rules[j]);
                }
            }
        }
        if forall|i: int, j: int|
            0 <= i < j < rules.len() ==> !(same_pair(#[trigger] rules[i], #[trigger] rules[j])
                && rules[i].interval_seconds == rules[j].interval_seconds) {
            assert forall|i: int, j: int| 0 <= i < j < init.len() implies !(same_pair(
                #[trigger] init[i],
                #[trigger] init[j],
            ) && init[i].interval_seconds == init[j].interval_seconds) by {
                assert(init[i] == rules[i] && init[j] == rules[j]);
            }
            assert forall|i: int| 0 <= i < init.len() implies !(same_pair(#[trigger] init[i], last)
                && init[i].interval_seconds == last.interval_seconds) by {
                assert(init[i] == rules[i]);
                assert(!(same_pair(rules[i], rules[n]) && rules[i].interval_seconds
                    == rules[n].interval_seconds));
            }
        }
        if forall|i: int|
            0 <= i < rules.len() ==> (#[trigger] rules[i]).exchange == upper(rules[i].exchange) {
            assert forall|i: int| 0 <= i < init.len() implies (#[trigger] init[i]).exchange == upper(
                init[i].exchange,
            ) by {
                assert(init[i] == rules[i]);
            }
        }
        if forall|i: int|
            0 <= i < rules.len() ==> (#[trigger] rules[i]).market_type == "spot"@
                || rules[i].market_type == "perp"@ {
            assert forall|i: int| 0 <= i < init.len() implies (#[trigger] init[i]).market_type
                == "spot"@ || init[i].market_type == "perp"@ by {
                assert(init[i] == rules[i]);
            }
        }
    }
}

proof fn lemma_market_words()
    ensures
        lower("spot"@) == "spot"@,
        lower("perp"@) == "perp"@,
{
    reveal_strlit("spot");
    reveal_strlit("perp");
    assert(ascii_lower("spot"@) =~= "spot"@);
    assert(ascii_lower("perp"@) =~= "perp"@);
}

/// The TTL of a bar length has a clause for every rule that counts there and has days, and ends with the
/// clauses of the rest; nothing else is in it.
pub proof fn law_ttl_has_every_clause(c: RetentionConfig, tf: u32, i: int, clause: Seq<char>)
    ensures
        ({
            let rules = effective(override_views(c.overrides@), tf);
            let rest = default_clauses(c.default_days, c.move_to_cold_days, rules);
            let all = c.clauses_for(tf);
            &&& 0 <= i < rules.len() && rules[i].days > 0 ==> all.contains(delete_clause(rules[i]))
            &&& rest.contains(clause) ==> all.contains(clause)
            &&& rest.len() > 0 ==> all.len() > 0 && all.last() == rest.last()
            &&& all.contains(clause) ==> rest.contains(clause) || exists|j: int|
                0 <= j < rules.len() && (#[trigger] rules[j]).days > 0 && clause == delete_clause(
                    rules[j],
                )
        }),
{
    let rules = effective(override_views(c.overrides@), tf);
    let rest = default_clauses(c.default_days, c.move_to_cold_days, rules);
    let own = delete_clauses(rules);
    let all = c.clauses_for(tf);
    assert(all == own + rest);
    if 0 <= i < rules.len() {
        law_each_rule_has_its_clause(rules, i);
        if rules[i].days > 0 {
            let k = own.index_of(delete_clause(rules[i]));
            assert(all[k] == delete_clause(rules[i]));
        }
    }
    if rest.contains(clause) {
        let k = rest.index_of(clause);
        assert(all[own.len() + k] == clause);
    }
    if all.contains(clause) && !rest.contains(clause) {
        let k = all.index_of(clause);
        if k < own.len() {
            assert(own[k] == clause);
        } else {
            assert(rest[k - own.len()] == clause);
        }
        law_forever_is_kept(rules, clause);
    }
}

} // verus!
