//! Which instruments a venue's pipeline runs: filtered, ranked, cut off, and brought in line with
//! those that run already.

use vstd::prelude::*;
use vstd::string::*;

use crate::aggregator::{new_state, Aggregator};
use crate::config::{BinancePerpConfig, RankBy};
use crate::stream::key_views;
use crate::text::{is_listed, same_text, views};
use crate::types::{
    spec_views, Exchange, KeyView, MarketType, Quote, SpecView, SymbolKey, SymbolSpec,
};

verus! {

/// Which protocol a venue's session speaks.
#[derive(Debug, Clone, Copy, PartialEq, Eq, Structural)]
pub enum SessionFlavor {
    Binance,
    Bybit,
    Okx,
    Bitget,
    Aster,
    Kucoin,
    Mexc,
}

impl SessionFlavor {
    /// Most instruments on one connection, where the session spreads them over several.
    pub fn shard_size(self) -> (r: Option<usize>)
        ensures
            r == (match self {
                SessionFlavor::Aster => Some(crate::aster::aster_ws::SHARD_SIZE),
                SessionFlavor::Kucoin => Some(crate::kucoin::SHARD_SIZE),
                SessionFlavor::Mexc => Some(crate::mexc::SHARD_SIZE),
                _ => None,
            }),
    {
        match self {
            SessionFlavor::Aster => Some(crate::aster::aster_ws::SHARD_SIZE),
            SessionFlavor::Kucoin => Some(crate::kucoin::SHARD_SIZE),
            SessionFlavor::Mexc => Some(crate::mexc::SHARD_SIZE),
            _ => None,
        }
    }
}

/// The name of a quote currency in the configuration.
pub open spec fn quote_text(q: Quote) -> Seq<char> {
    match q {
        Quote::Usdt => "USDT"@,
        Quote::Usdc => "USDC"@,
    }
}

/// The instrument passes: it is of the venue and market, its quote currency is included, it is not
/// denied, and it is allowed where there is a list of those.
pub open spec fn passes(
    s: SpecView,
    cfg: BinancePerpConfig,
    exchange: Exchange,
    market_type: MarketType,
) -> bool {
    &&& s.exchange == exchange
    &&& s.market_type == market_type
    &&& views(cfg.include_quotes@).contains(quote_text(s.quote))
    &&& !views(cfg.deny@).contains(s.symbol)
    &&& cfg.allow@.len() == 0 || views(cfg.allow@).contains(s.symbol)
}

/// The instruments that pass, in order.
pub open spec fn passing(
    specs: Seq<SpecView>,
    cfg: BinancePerpConfig,
    exchange: Exchange,
    market_type: MarketType,
) -> Seq<SpecView> {
    specs.filter(|s: SpecView| passes(s, cfg, exchange, market_type))
}

fn spec_passes(
    s: &SymbolSpec,
    cfg: &BinancePerpConfig,
    exchange: Exchange,
    market_type: MarketType,
) -> (r: bool)
    ensures
        r == passes(s@, *cfg, exchange, market_type),
{
    let quote = match s.quote {
        Quote::Usdt => "USDT",
        Quote::Usdc => "USDC",
    };
    s.exchange == exchange && s.market_type == market_type && is_listed(&cfg.include_quotes, quote)
        && !is_listed(&cfg.deny, s.symbol.as_str()) && (cfg.allow.len() == 0 || is_listed(
        &cfg.allow,
        s.symbol.as_str(),
    ))
}

/// Keeps the instruments that pass. The number of them is not cut off here: that follows the ranking.
pub fn filter_symbols(
    specs: &[SymbolSpec],
    cfg: &BinancePerpConfig,
    exchange: Exchange,
    market_type: MarketType,
) -> (r: Vec<SymbolSpec>)
    ensures
        spec_views(r@) == passing(spec_views(specs@), *cfg, exchange, market_type),
{
    let ghost all = spec_views(specs@);
    let ghost pred = |s: SpecView| passes(s, *cfg, exchange, market_type);
    let mut out: Vec<SymbolSpec> = Vec::new();
    let mut i: usize = 0;
    proof {
        assert(all.take(0).filter(pred) =~= Seq::<SpecView>::empty()) by {
            reveal(Seq::filter);
        }
        assert(spec_views(out@) =~= Seq::<SpecView>::empty());
    }
    while i < specs.len()
        invariant
            i <= specs@.len(),
            all == spec_views(specs@),
            pred == (|s: SpecView| passes(s, *cfg, exchange, market_type)),
            spec_views(out@) == all.take(i as int).filter(pred),
        decreases specs@.len() - i,
    {
        let ghost next = all.take(i as int + 1);
        proof {
            reveal(Seq::filter);
            assert(next.drop_last() =~= all.take(i as int));
            assert(next.last() == specs@[i as int]@);
        }
        if spec_passes(&specs[i], cfg, exchange, market_type) {
            let ghost before = spec_views(out@);
            out.push(specs[i].clone());
            assert(spec_views(out@) =~= before.push(specs@[i as int]@));
        }
        i = i + 1;
    }
    assert(all.take(i as int) =~= all);
    out
}

/// Filtering keeps nothing of another venue or market and nothing that is denied, and filtering
/// again changes nothing.
pub proof fn law_filter(
    specs: Seq<SpecView>,
    cfg: BinancePerpConfig,
    exchange: Exchange,
    market_type: MarketType,
)
    ensures
        forall|i: int|
            0 <= i < passing(specs, cfg, exchange, market_type).len() ==> {
                let s = #[trigger] passing(specs, cfg, exchange, market_type)[i];
                &&& passes(s, cfg, exchange, market_type)
                &&& specs.contains(s)
            },
        passing(passing(specs, cfg, exchange, market_type), cfg, exchange, market_type) == passing(
            specs,
            cfg,
            exchange,
            market_type,
        ),
    decreases specs.len(),
{
    let pred = |s: SpecView| passes(s, cfg, exchange, market_type);
    reveal(Seq::filter);
    let kept = specs.filter(pred);
    if specs.len() > 0 {
        let init = specs.drop_last();
        law_filter(init, cfg, exchange, market_type);
        assert forall|i: int| 0 <= i < kept.len() implies passes(
            #[trigger] kept[i],
            cfg,
            exchange,
            market_type,
        ) && specs.contains(kept[i]) by {
            let before = init.filter(pred);
            if i < before.len() {
                assert(before[i] == kept[i]);
                assert(init.contains(before[i]));
                let k = init.index_of(before[i]);
                assert(specs[k] == kept[i]);
            } else {
                assert(specs[specs.len() - 1] == kept[i]);
            }
        }
        if pred(specs.last()) {
            assert(kept.drop_last() =~= init.filter(pred));
        }
    }
}

/// The volume of a symbol: that of its last entry, zero where it has none.
pub open spec fn volume_of(volumes: Seq<(Seq<char>, i64)>, symbol: Seq<char>) -> i64
    decreases volumes.len(),
{
    if volumes.len() == 0 {
        0
    } else if volumes.last().0 == symbol {
        volumes.last().1
    } else {
        volume_of(volumes.drop_last(), symbol)
    }
}

/// The views of a row of volumes.
pub open spec fn volume_keys(v: Seq<(String, i64)>) -> Seq<(Seq<char>, i64)> {
    v.map_values(|p: (String, i64)| (p.0@, p.1))
}

fn find_volume(volumes: &Vec<(String, i64)>, symbol: &str) -> (r: i64)
    ensures
        r == volume_of(volume_keys(volumes@), symbol@),
{
    let ghost all = volume_keys(volumes@);
    let mut n: usize = volumes.len();
    assert(all.take(n as int) =~= all);
    while n > 0
        invariant
            n <= volumes@.len(),
            all == volume_keys(volumes@),
            volume_of(all, symbol@) == volume_of(all.take(n as int), symbol@),
        decreases n,
    {
        assert(all.take(n as int).last() == (volumes@[n - 1].0@, volumes@[n - 1].1));
        assert(all.take(n as int).drop_last() =~= all.take(n as int - 1));
        if same_text(volumes[n - 1].0.as_str(), symbol) {
            return volumes[n - 1].1;
        }
        n = n - 1;
    }
    0
}

/// Item `i` comes before item `j`: its key is larger, or the keys are equal and it was first.
pub open spec fn precedes(keys: Seq<i64>, i: int, j: int) -> bool {
    keys[i] > keys[j] || (keys[i] == keys[j] && i < j)
}

/// `order` holds every index of `keys` once, by descending key, equal keys in their first order.
pub open spec fn is_ranking(order: Seq<int>, keys: Seq<i64>) -> bool {
    &&& order.len() == keys.len()
    &&& forall|k: int| 0 <= k < keys.len() ==> #[trigger] order.contains(k)
    &&& forall|a: int| 0 <= a < order.len() ==> 0 <= #[trigger] order[a] < keys.len()
    &&& forall|a: int, b: int|
        0 <= a < b < order.len() ==> precedes(keys, #[trigger] order[a], #[trigger] order[b])
}

/// The indices as mathematical integers.
pub open spec fn as_ints(order: Seq<usize>) -> Seq<int> {
    order.map_values(|x: usize| x as int)
}

/// Orders items by descending key; equal keys keep their order.
pub fn rank_order(keys: &Vec<i64>) -> (r: Vec<usize>)
    ensures
        is_ranking(as_ints(r@), keys@),
{
    let mut order: Vec<usize> = Vec::new();
    let mut i: usize = 0;
    while i < keys.len()
        invariant
            i <= keys@.len(),
            order@.len() == i,
            forall|k: int| 0 <= k < i ==> #[trigger] order@.contains(k as usize),
            forall|a: int| 0 <= a < i ==> (#[trigger] order@[a]) < i,
            forall|a: int, b: int|
                0 <= a < b < i ==> precedes(
                    keys@,
                    #[trigger] order@[a] as int,
                    #[trigger] order@[b] as int,
                ),
        decreases keys@.len() - i,
    {
        let mut pos: usize = 0;
        while pos < order.len() && keys[order[pos]] >= keys[i]
            invariant
                i < keys@.len(),
                pos <= order@.len() == i,
                forall|a: int| 0 <= a < i ==> (#[trigger] order@[a]) < i,
                forall|a: int|
                    0 <= a < pos ==> keys@[(#[trigger] order@[a]) as int] >= keys@[i as int],
            decreases order@.len() - pos,
        {
            pos = pos + 1;
        }
        let ghost before = order@;
        order.insert(pos, i);
        proof {
            let after = order@;
            assert(after =~= before.insert(pos as int, i));
            assert forall|k: int| 0 <= k < i + 1 implies #[trigger] after.contains(k as usize) by {
                if k < i {
                    assert(before.contains(k as usize));
                    let a = before.index_of(k as usize);
                    if a < pos {
                        assert(after[a] == k as usize);
                    } else {
                        assert(after[a + 1] == k as usize);
                    }
                } else {
                    assert(after[pos as int] == i);
                }
            }
            assert forall|a: int, b: int| 0 <= a < b < i + 1 implies precedes(
                keys@,
                #[trigger] after[a] as int,
                #[trigger] after[b] as int,
            ) by {
                if b == pos {
                    assert(after[a] == before[a]);
                } else if a == pos {
                    assert(after[b] == before[b - 1]);
                    if b - 1 > pos {
                        assert(precedes(
                            keys@,
                            before[pos as int] as int,
                            before[b - 1] as int,
                        ));
                    }
                } else {
                    let a0 = if a < pos {
                        a
                    } else {
                        a - 1
                    };
                    let b0 = if b < pos {
                        b
                    } else {
                        b - 1
                    };
                    assert(after[a] == before[a0]);
                    assert(after[b] == before[b0]);
                }
            }
        }
        i = i + 1;
    }
    proof {
        let o = as_ints(order@);
        assert forall|k: int| 0 <= k < keys@.len() implies #[trigger] o.contains(k) by {
            assert(order@.contains(k as usize));
            let a = order@.index_of(k as usize);
            assert(o[a] == k);
        }
        assert forall|a: int, b: int| 0 <= a < b < o.len() implies precedes(
            keys@,
            #[trigger] o[a],
            #[trigger] o[b],
        ) by {
            assert(o[a] == order@[a] as int);
            assert(o[b] == order@[b] as int);
        }
    }
    order
}

/// There is only one ranking.
pub proof fn law_ranking_is_unique(p: Seq<int>, q: Seq<int>, keys: Seq<i64>)
    requires
        is_ranking(p, keys),
        is_ranking(q, keys),
    ensures
        p == q,
{
    assert forall|i: int| 0 <= i < p.len() implies p[i] == q[i] by {
        lemma_ranking_at(p, q, keys, i);
    }
    assert(p =~= q);
}

proof fn lemma_ranking_at(p: Seq<int>, q: Seq<int>, keys: Seq<i64>, i: int)
    requires
        is_ranking(p, keys),
        is_ranking(q, keys),
        0 <= i < p.len(),
    ensures
        p[i] == q[i],
    decreases i,
{
    if p[i] != q[i] {
        assert(q.contains(p[i]));
        let j = q.index_of(p[i]);
        assert(p.contains(q[i]));
        let k = p.index_of(q[i]);
        if j < i {
            lemma_ranking_at(p, q, keys, j);
            assert(precedes(keys, p[j], p[i]));
        }
        if k < i {
            lemma_ranking_at(p, q, keys, k);
            assert(precedes(keys, q[k], q[i]));
        }
        assert(precedes(keys, q[i], q[j]));
        assert(precedes(keys, p[i], p[k]));
    }
}

/// The volumes of a row of instruments.
pub open spec fn rank_keys(specs: Seq<SpecView>, volumes: Seq<(Seq<char>, i64)>) -> Seq<i64> {
    specs.map_values(|s: SpecView| volume_of(volumes, s.symbol))
}

/// `ranked` is the row of instruments by descending volume, equal volumes in their first order.
pub open spec fn is_ranked(
    ranked: Seq<SpecView>,
    specs: Seq<SpecView>,
    volumes: Seq<(Seq<char>, i64)>,
) -> bool {
    exists|order: Seq<int>| #[trigger]
        is_ranking(order, rank_keys(specs, volumes)) && ranked =~= order.map_values(
            |k: int| specs[k],
        )
}

/// Orders instruments as configured. Volumes are numbers that order as the volumes do, zero for
/// none; without volumes the order stays.
pub fn rank_specs(
    specs: Vec<SymbolSpec>,
    rank_by: RankBy,
    volumes: Option<&Vec<(String, i64)>>,
) -> (r: Vec<SymbolSpec>)
    ensures
        rank_by == RankBy::Alphabetical || volumes is None ==> r@ == specs@,
        rank_by == RankBy::Volume24h && volumes is Some ==> is_ranked(
            spec_views(r@),
            spec_views(specs@),
            volume_keys(volumes->0@),
        ),
{
    match (rank_by, volumes) {
        (RankBy::Volume24h, Some(volumes)) => {
            let ghost keys_view = rank_keys(spec_views(specs@), volume_keys(volumes@));
            let mut keys: Vec<i64> = Vec::new();
            let mut i: usize = 0;
            while i < specs.len()
                invariant
                    i <= specs@.len(),
                    keys@.len() == i,
                    forall|k: int|
                        0 <= k < i ==> #[trigger] keys@[k] == volume_of(
                            volume_keys(volumes@),
                            specs@[k].symbol@,
                        ),
                decreases specs@.len() - i,
            {
                keys.push(find_volume(volumes, specs[i].symbol.as_str()));
                i = i + 1;
            }
            assert(keys@ =~= keys_view);
            let order = rank_order(&keys);
            let ghost o = as_ints(order@);
            let mut out: Vec<SymbolSpec> = Vec::new();
            let mut j: usize = 0;
            while j < order.len()
                invariant
                    j <= order@.len(),
                    o == as_ints(order@),
                    is_ranking(o, keys_view),
                    keys_view.len() == specs@.len(),
                    out@.len() == j,
                    forall|k: int| 0 <= k < j ==> (#[trigger] out@[k])@ == specs@[o[k]]@,
                decreases order@.len() - j,
            {
                assert(o[j as int] == order@[j as int] as int);
                out.push(specs[order[j]].clone());
                j = j + 1;
            }
            assert(spec_views(out@) =~= o.map_values(|k: int| spec_views(specs@)[k]));
            out
        },
        _ => specs,
    }
}

/// Cuts a row of instruments off.
pub fn take_top(specs: Vec<SymbolSpec>, top_n: Option<usize>) -> (r: Vec<SymbolSpec>)
    ensures
        r@ == (if top_n is Some && top_n->0 < specs@.len() {
            specs@.take(top_n->0 as int)
        } else {
            specs@
        }),
{
    let mut out = specs;
    match top_n {
        Some(n) => {
            if n < out.len() {
                out.truncate(n);
            }
        },
        None => {},
    }
    assert(top_n is Some && top_n->0 < specs@.len() ==> out@ =~= specs@.take(top_n->0 as int));
    out
}

/// The first `top_n` of a row of instruments, all of them without a limit.
pub open spec fn top(specs: Seq<SpecView>, top_n: Option<usize>) -> Seq<SpecView> {
    if top_n is Some && top_n->0 < specs.len() {
        specs.take(top_n->0 as int)
    } else {
        specs
    }
}

/// The instruments that a venue's pipeline is to run: those that pass, ranked, and cut off.
pub fn wanted_specs(
    specs: &[SymbolSpec],
    cfg: &BinancePerpConfig,
    exchange: Exchange,
    market_type: MarketType,
    volumes: Option<&Vec<(String, i64)>>,
) -> (r: Vec<SymbolSpec>)
    ensures
        ({
            let kept = passing(spec_views(specs@), *cfg, exchange, market_type);
            &&& cfg.rank_by == RankBy::Alphabetical || volumes is None ==> spec_views(r@) == top(
                kept,
                cfg.top_n,
            )
            &&& cfg.rank_by == RankBy::Volume24h && volumes is Some ==> exists|ranked: Seq<SpecView>|
                is_ranked(ranked, kept, volume_keys(volumes->0@)) && spec_views(r@)
                    == #[trigger] top(ranked, cfg.top_n)
        }),
{
    let kept = filter_symbols(specs, cfg, exchange, market_type);
    let ranked = rank_specs(kept, cfg.rank_by, volumes);
    let r = take_top(ranked, cfg.top_n);
    assert(spec_views(r@) =~= top(spec_views(ranked@), cfg.top_n));
    r
}

/// An aggregator can be made for an instrument.
pub open spec fn can_aggregate(s: SpecView, tf_secs: u32, diff_interval_ms: i64) -> bool {
    s.tick_size > 0 && tf_secs > 0 && 0 < diff_interval_ms <= i64::MAX / 1_000_000
}

/// Makes the aggregator of an instrument at one bar length: its buckets are one tick wide. `None`
/// where the tick, the bar length or the interval of diffs is not positive, or the interval has no
/// end in nanoseconds.
pub fn aggregator_for(spec: &SymbolSpec, tf_secs: u32, diff_interval_ms: i64) -> (r: Option<
    Aggregator,
>)
    ensures
        r is Some == can_aggregate(spec@, tf_secs, diff_interval_ms),
        r is Some ==> {
            &&& r->0@.wf()
            &&& r->0@ == new_state(
                key_of(spec@),
                spec.tick_size as int,
                tf_secs * 1_000_000_000,
                diff_interval_ms * 1_000_000,
            )
        },
{
    if spec.tick_size <= 0 || tf_secs == 0 || diff_interval_ms <= 0 || diff_interval_ms > i64::MAX
        / 1_000_000 {
        return None;
    }
    let key = SymbolKey::new(spec.exchange, spec.market_type, spec.symbol.as_str());
    let window_ms: i64 = tf_secs as i64 * 1000;
    Some(Aggregator::new(key, spec.tick_size, window_ms, diff_interval_ms))
}

/// The key of an instrument.
pub open spec fn key_of(s: SpecView) -> KeyView {
    KeyView { exchange: s.exchange, market_type: s.market_type, symbol: s.symbol }
}

/// The keys of a row of instruments.
pub open spec fn keys_of(specs: Seq<SpecView>) -> Seq<KeyView> {
    specs.map_values(|s: SpecView| key_of(s))
}

/// The keys that run and are not wanted.
pub open spec fn unwanted(current: Seq<KeyView>, wanted: Seq<SpecView>) -> Seq<KeyView> {
    current.filter(|k: KeyView| !keys_of(wanted).contains(k))
}

/// The instruments that are wanted and do not run, each once.
pub open spec fn newcomers(current: Seq<KeyView>, wanted: Seq<SpecView>) -> Seq<SpecView>
    decreases wanted.len(),
{
    if wanted.len() == 0 {
        Seq::empty()
    } else {
        let init = wanted.drop_last();
        let k = key_of(wanted.last());
        if current.contains(k) || keys_of(init).contains(k) {
            newcomers(current, init)
        } else {
            newcomers(current, init).push(wanted.last())
        }
    }
}

/// What brings the running instruments in line with the wanted ones.
pub struct Plan {
    pub remove: Vec<SymbolKey>,
    pub add: Vec<SymbolSpec>,
}

fn wants(wanted: &Vec<SymbolSpec>, n: usize, key: &SymbolKey) -> (r: bool)
    requires
        n <= wanted@.len(),
    ensures
        r == keys_of(spec_views(wanted@).take(n as int)).contains(key@),
{
    let ghost head = spec_views(wanted@).take(n as int);
    let mut i: usize = 0;
    while i < n
        invariant
            i <= n <= wanted@.len(),
            head == spec_views(wanted@).take(n as int),
            forall|j: int| 0 <= j < i ==> key_of((#[trigger] wanted@[j])@) != key@,
        decreases n - i,
    {
        let s = &wanted[i];
        if s.exchange == key.exchange && s.market_type == key.market_type && same_text(
            s.symbol.as_str(),
            &key.symbol,
        ) {
            assert(keys_of(head)[i as int] == key@);
            return true;
        }
        i = i + 1;
    }
    proof {
        if keys_of(head).contains(key@) {
            let j = keys_of(head).index_of(key@);
            assert(key_of(wanted@[j]@) == key@);
        }
    }
    false
}

fn runs(current: &Vec<SymbolKey>, key: &SymbolKey) -> (r: bool)
    ensures
        r == key_views(current@).contains(key@),
{
    let mut i: usize = 0;
    while i < current.len()
        invariant
            i <= current@.len(),
            forall|j: int| 0 <= j < i ==> (#[trigger] current@[j])@ != key@,
        decreases current@.len() - i,
    {
        if current[i].same_as(key) {
            assert(key_views(current@)[i as int] == key@);
            return true;
        }
        i = i + 1;
    }
    proof {
        if key_views(current@).contains(key@) {
            let j = key_views(current@).index_of(key@);
            assert(current@[j]@ == key@);
        }
    }
    false
}

/// Plans what to stop and what to start.
pub fn plan(current: &Vec<SymbolKey>, wanted: &Vec<SymbolSpec>) -> (r: Plan)
    ensures
        key_views(r.remove@) == unwanted(key_views(current@), spec_views(wanted@)),
        spec_views(r.add@) == newcomers(key_views(current@), spec_views(wanted@)),
{
    let ghost cur = key_views(current@);
    let ghost want = spec_views(wanted@);
    let ghost gone = |k: KeyView| !keys_of(want).contains(k);
    let mut remove: Vec<SymbolKey> = Vec::new();
    let mut i: usize = 0;
    proof {
        assert(want.take(want.len() as int) =~= want);
        reveal(Seq::filter);
        assert(cur.take(0).filter(gone) =~= Seq::<KeyView>::empty());
        assert(key_views(remove@) =~= Seq::<KeyView>::empty());
    }
    while i < current.len()
        invariant
            i <= current@.len(),
            cur == key_views(current@),
            want == spec_views(wanted@),
            want.take(want.len() as int) == want,
            gone == (|k: KeyView| !keys_of(want).contains(k)),
            key_views(remove@) == cur.take(i as int).filter(gone),
        decreases current@.len() - i,
    {
        let ghost next = cur.take(i as int + 1);
        proof {
            reveal(Seq::filter);
            assert(next.drop_last() =~= cur.take(i as int));
            assert(next.last() == current@[i as int]@);
        }
        if !wants(wanted, wanted.len(), &current[i]) {
            let ghost before = key_views(remove@);
            remove.push(current[i].clone());
            assert(key_views(remove@) =~= before.push(current@[i as int]@));
        }
        i = i + 1;
    }
    assert(cur.take(i as int) =~= cur);
    let mut add: Vec<SymbolSpec> = Vec::new();
    let mut j: usize = 0;
    assert(spec_views(add@) =~= Seq::<SpecView>::empty());
    while j < wanted.len()
        invariant
            j <= wanted@.len(),
            cur == key_views(current@),
            want == spec_views(wanted@),
            spec_views(add@) == newcomers(cur, want.take(j as int)),
        decreases wanted@.len() - j,
    {
        let s = &wanted[j];
        let ghost next = want.take(j as int + 1);
        assert(next.drop_last() =~= want.take(j as int));
        assert(next.last() == s@);
        let key = SymbolKey::new(s.exchange, s.market_type, s.symbol.as_str());
        if !runs(current, &key) && !wants(wanted, j, &key) {
            let ghost before = spec_views(add@);
            add.push(s.clone());
            assert(spec_views(add@) =~= before.push(s@));
        }
        j = j + 1;
    }
    assert(want.take(j as int) =~= want);
    Plan { remove, add }
}

/// The keys that run once a plan has been carried out.
pub open spec fn carried_out(current: Seq<KeyView>, wanted: Seq<SpecView>) -> Seq<KeyView> {
    current.filter(|k: KeyView| keys_of(wanted).contains(k)) + keys_of(newcomers(current, wanted))
}

proof fn lemma_newcomers(current: Seq<KeyView>, wanted: Seq<SpecView>, k: KeyView)
    ensures
        keys_of(newcomers(current, wanted)).contains(k) <==> keys_of(wanted).contains(k)
            && !current.contains(k),
    decreases wanted.len(),
{
    if wanted.len() == 0 {
        assert(keys_of(wanted) =~= Seq::<KeyView>::empty());
        assert(keys_of(newcomers(current, wanted)) =~= Seq::<KeyView>::empty());
    } else {
        let init = wanted.drop_last();
        let last = key_of(wanted.last());
        lemma_newcomers(current, init, k);
        assert(keys_of(wanted) =~= keys_of(init).push(last));
        lemma_push_contains(keys_of(init), last, k);
        if current.contains(last) || keys_of(init).contains(last) {
        } else {
            assert(keys_of(newcomers(current, wanted)) =~= keys_of(
                newcomers(current, init),
            ).push(last));
            lemma_push_contains(keys_of(newcomers(current, init)), last, k);
        }
    }
}

proof fn lemma_push_contains(s: Seq<KeyView>, x: KeyView, k: KeyView)
    ensures
        s.push(x).contains(k) <==> s.contains(k) || x == k,
{
    if s.contains(k) {
        let i = s.index_of(k);
        assert(s.push(x)[i] == k);
    }
    if x == k {
        assert(s.push(x)[s.len() as int] == k);
    }
    if s.push(x).contains(k) {
        let i = s.push(x).index_of(k);
        if i < s.len() {
            assert(s[i] == k);
        }
    }
}

proof fn lemma_filter_contains(s: Seq<KeyView>, f: spec_fn(KeyView) -> bool, k: KeyView)
    ensures
        s.filter(f).contains(k) <==> s.contains(k) && f(k),
    decreases s.len(),
{
    reveal(Seq::filter);
    if s.len() > 0 {
        let init = s.drop_last();
        lemma_filter_contains(init, f, k);
        assert(s =~= init.push(s.last()));
        lemma_push_contains(init, s.last(), k);
        if f(s.last()) {
            lemma_push_contains(init.filter(f), s.last(), k);
        }
    }
}

/// Once a plan has been carried out, exactly the wanted instruments run.
pub proof fn law_plan_reaches_wanted(current: Seq<KeyView>, wanted: Seq<SpecView>, k: KeyView)
    ensures
        carried_out(current, wanted).contains(k) <==> keys_of(wanted).contains(k),
{
    let stay = current.filter(|x: KeyView| keys_of(wanted).contains(x));
    let come = keys_of(newcomers(current, wanted));
    lemma_filter_contains(current, |x: KeyView| keys_of(wanted).contains(x), k);
    lemma_newcomers(current, wanted, k);
    let all = stay + come;
    if stay.contains(k) {
        let i = stay.index_of(k);
        assert(all[i] == k);
    }
    if come.contains(k) {
        let i = come.index_of(k);
        assert(all[stay.len() + i] == k);
    }
    if all.contains(k) {
        let i = all.index_of(k);
        if i < stay.len() {
            assert(stay[i] == k);
        } else {
            assert(come[i - stay.len()] == k);
        }
    }
}

/// A plan leaves alone what runs and is wanted: it stops only what is not wanted and starts only
/// what does not run.
pub proof fn law_plan_spares_the_rest(current: Seq<KeyView>, wanted: Seq<SpecView>, k: KeyView)
    ensures
        unwanted(current, wanted).contains(k) <==> current.contains(k) && !keys_of(wanted).contains(
            k,
        ),
        keys_of(newcomers(current, wanted)).contains(k) <==> keys_of(wanted).contains(k)
            && !current.contains(k),
{
    lemma_filter_contains(current, |x: KeyView| !keys_of(wanted).contains(x), k);
    lemma_newcomers(current, wanted, k);
}

/// Planning again for the same instruments changes nothing.
pub proof fn law_plan_is_stable(current: Seq<KeyView>, wanted: Seq<SpecView>)
    ensures
        unwanted(carried_out(current, wanted), wanted).len() == 0,
        newcomers(carried_out(current, wanted), wanted).len() == 0,
{
    let now = carried_out(current, wanted);
    if unwanted(now, wanted).len() > 0 {
        let k = unwanted(now, wanted)[0];
        assert(unwanted(now, wanted).contains(k));
        law_plan_spares_the_rest(now, wanted, k);
        law_plan_reaches_wanted(current, wanted, k);
    }
    if newcomers(now, wanted).len() > 0 {
        let k = key_of(newcomers(now, wanted)[0]);
        assert(keys_of(newcomers(now, wanted))[0] == k);
        assert(keys_of(newcomers(now, wanted)).contains(k));
        law_plan_spares_the_rest(now, wanted, k);
        law_plan_reaches_wanted(current, wanted, k);
    }
}

/// An instrument is kept exactly where it is of the venue and the market, its quote is one of those
/// included, it is not denied, and it is allowed where only some are. What is kept stays in order.
pub proof fn law_filter_is_exact(
    specs: Seq<SpecView>,
    cfg: BinancePerpConfig,
    exchange: Exchange,
    market_type: MarketType,
    s: SpecView,
)
    ensures
        passing(specs, cfg, exchange, market_type).contains(s) <==> {
            &&& specs.contains(s)
            &&& s.exchange == exchange
            &&& s.market_type == market_type
            &&& views(cfg.include_quotes@).contains(
                if s.quote == Quote::Usdt {
                    "USDT"@
                } else {
                    "USDC"@
                },
            )
            &&& !views(cfg.deny@).contains(s.symbol)
            &&& cfg.allow@.len() > 0 ==> views(cfg.allow@).contains(s.symbol)
        },
    decreases specs.len(),
{
    reveal(Seq::filter);
    if specs.len() > 0 {
        let init = specs.drop_last();
        law_filter_is_exact(init, cfg, exchange, market_type, s);
        let before = passing(init, cfg, exchange, market_type);
        let last = specs.last();
        assert(specs =~= init.push(last));
        lemma_pushed(init, last, s);
        lemma_pushed(before, last, s);
    }
}

proof fn lemma_pushed(list: Seq<SpecView>, last: SpecView, s: SpecView)
    ensures
        list.push(last).contains(s) <==> list.contains(s) || last == s,
{
    if list.contains(s) {
        let i = list.index_of(s);
        assert(list.push(last)[i] == s);
    }
    if last == s {
        assert(list.push(last)[list.len() as int] == s);
    }
    if list.push(last).contains(s) {
        let i = list.push(last).index_of(s);
        if i < list.len() {
            assert(list[i] == s);
        }
    }
}

/// What two rows of instruments one behind the other keep is what the first keeps and then what the
/// second keeps.
pub proof fn law_filter_keeps_order(
    a: Seq<SpecView>,
    b: Seq<SpecView>,
    cfg: BinancePerpConfig,
    exchange: Exchange,
    market_type: MarketType,
)
    ensures
        passing(a + b, cfg, exchange, market_type) == passing(a, cfg, exchange, market_type)
            + passing(b, cfg, exchange, market_type),
{
    Seq::filter_distributes_over_add(a, b, |s: SpecView| passes(s, cfg, exchange, market_type));
}

/// The volume of a symbol is that of its last entry, and zero where it has none.
pub proof fn law_last_volume_counts(volumes: Seq<(Seq<char>, i64)>, symbol: Seq<char>, i: int)
    ensures
        0 <= i < volumes.len() && volumes[i].0 == symbol && (forall|j: int|
            i < j < volumes.len() ==> (#[trigger] volumes[j]).0 != symbol) ==> volume_of(
            volumes,
            symbol,
        ) == volumes[i].1,
        (forall|j: int| 0 <= j < volumes.len() ==> (#[trigger] volumes[j]).0 != symbol) ==> volume_of(
            volumes,
            symbol,
        ) == 0,
    decreases volumes.len(),
{
    if volumes.len() > 0 {
        let init = volumes.drop_last();
        let n = volumes.len() - 1;
        law_last_volume_counts(init, symbol, i);
        assert(volumes[n] == volumes.last());
        assert forall|j: int| 0 <= j < n implies #[trigger] init[j] == volumes[j] by {
        }
        if forall|j: int| 0 <= j < volumes.len() ==> (#[trigger] volumes[j]).0 != symbol {
            assert forall|j: int| 0 <= j < init.len() implies (#[trigger] init[j]).0 != symbol by {
                assert(volumes[j].0 != symbol);
            }
        }
        if 0 <= i < n && volumes[i].0 == symbol && (forall|j: int|
            i < j < volumes.len() ==> (#[trigger] volumes[j]).0 != symbol) {
            assert(volumes[n].0 != symbol);
            assert forall|j: int| i < j < init.len() implies (#[trigger] init[j]).0 != symbol by {
                assert(volumes[j].0 != symbol);
            }
        }
    }
}

/// Ranked instruments are those that there were, each once, by falling volume, and those of one volume
/// in the order in which they came.
pub proof fn law_ranked_by_volume(
    ranked: Seq<SpecView>,
    specs: Seq<SpecView>,
    volumes: Seq<(Seq<char>, i64)>,
)
    requires
        is_ranked(ranked, specs, volumes),
    ensures
        ranked.len() == specs.len(),
        exists|place: Seq<int>|
            {
                &&& place.len() == specs.len()
                &&& forall|a: int|
                    0 <= a < place.len() ==> 0 <= #[trigger] place[a] < specs.len() && ranked[a]
                        == specs[place[a]]
                &&& forall|k: int| 0 <= k < specs.len() ==> #[trigger] place.contains(k)
                &&& forall|a: int, b: int|
                    0 <= a < b < place.len() ==> {
                        let x = volume_of(volumes, specs[#[trigger] place[a]].symbol);
                        let y = volume_of(volumes, specs[#[trigger] place[b]].symbol);
                        x > y || (x == y && place[a] < place[b])
                    }
            },
{
    let keys = rank_keys(specs, volumes);
    let order = choose|order: Seq<int>| #[trigger]
        is_ranking(order, keys) && ranked =~= order.map_values(|k: int| specs[k]);
    assert forall|a: int, b: int| 0 <= a < b < order.len() implies {
        let x = volume_of(volumes, specs[#[trigger] order[a]].symbol);
        let y = volume_of(volumes, specs[#[trigger] order[b]].symbol);
        x > y || (x == y && order[a] < order[b])
    } by {
        assert(precedes(keys, order[a], order[b]));
    }
}

/// The top of a ranking is its beginning, as many as asked for or as there are.
pub proof fn law_top_is_the_beginning(specs: Seq<SpecView>, n: usize, i: int)
    ensures
        top(specs, None) == specs,
        top(specs, Some(n)).len() == (if n < specs.len() {
            n as nat
        } else {
            specs.len()
        }),
        0 <= i < top(specs, Some(n)).len() ==> top(specs, Some(n))[i] == specs[i],
{
}

/// An instrument that is added is one of those wanted, and none is added twice.
pub proof fn law_newcomers_are_wanted(current: Seq<KeyView>, wanted: Seq<SpecView>)
    ensures
        forall|i: int|
            0 <= i < newcomers(current, wanted).len() ==> wanted.contains(
                #[trigger] newcomers(current, wanted)[i],
            ),
        keys_of(newcomers(current, wanted)).no_duplicates(),
    decreases wanted.len(),
{
    if wanted.len() > 0 {
        let init = wanted.drop_last();
        let last = wanted.last();
        law_newcomers_are_wanted(current, init);
        let old = newcomers(current, init);
        let new = newcomers(current, wanted);
        assert(wanted[wanted.len() - 1] == last);
        assert forall|i: int| 0 <= i < new.len() implies wanted.contains(#[trigger] new[i]) by {
            if i < old.len() {
                assert(new[i] == old[i]);
                let k = init.index_of(old[i]);
                assert(wanted[k] == old[i]);
            }
        }
        if new.len() > old.len() {
            law_plan_spares_the_rest(current, init, key_of(last));
            assert(!keys_of(old).contains(key_of(last)));
            assert(keys_of(new) =~= keys_of(old).push(key_of(last)));
            assert forall|i: int, j: int| 0 <= i < j < keys_of(new).len() implies keys_of(new)[i]
                != keys_of(new)[j] by {
                if j == old.len() {
                    assert(keys_of(old).contains(keys_of(old)[i]));
                }
            }
        }
    }
}

} // verus!
