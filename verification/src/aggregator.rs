//! The footprint aggregator of one instrument: trades in, frames out.

use std::collections::{HashMap, HashSet};
use std::sync::Arc;

use vstd::prelude::*;
use vstd::std_specs::iter::IteratorSpec;

use crate::num::{clamp_i64, saturating_add, saturating_sub};
use crate::types::{
    AggressorSide, AnalyticsDiff, AnalyticsSnapshot, ClusterBucket, ClusterFrame, KeyView,
    SymbolKey, TradePrint,
};

verus! {

broadcast use vstd::std_specs::hash::group_hash_axioms;

/// What one price level of a window has accumulated.
#[derive(Debug, Clone, Copy, PartialEq, Eq, Structural)]
pub struct ClusterAccum {
    pub bid_qty: i64,
    pub ask_qty: i64,
    pub trades: u32,
}

/// `x` rounded towards zero to a multiple of `step`.
pub open spec fn aligned(x: int, step: int) -> int {
    if x >= 0 {
        (x / step) * step
    } else {
        -(((-x) / step) * step)
    }
}

/// Rounds towards zero to a multiple of `step`.
pub fn align(x: i64, step: i64) -> (r: i64)
    requires
        step > 0,
    ensures
        r == aligned(x as int, step as int),
{
    proof {
        lemma_aligned(x as int, step as int);
    }
    let q: i64 = x / step;
    assert(q * step == aligned(x as int, step as int)) by (nonlinear_arith)
        requires
            q == if x >= 0 { x as int / step as int } else { -((-x) / step as int) },
    ;
    q * step
}

/// Alignment moves towards zero, by less than one step, onto a multiple of the step.
pub proof fn lemma_aligned(x: int, step: int)
    requires
        step > 0,
    ensures
        x >= 0 ==> 0 <= aligned(x, step) <= x,
        x < 0 ==> x <= aligned(x, step) <= 0,
        -step < x - aligned(x, step) < step,
        aligned(x, step) % step == 0,
{
    let y = if x >= 0 {
        x
    } else {
        -x
    };
    vstd::arithmetic::div_mod::lemma_fundamental_div_mod(y, step);
    vstd::arithmetic::div_mod::lemma_mod_bound(y, step);
    let q = y / step;
    assert(q * step == step * q) by (nonlinear_arith);
    vstd::arithmetic::div_mod::lemma_div_pos_is_pos(y, step);
    assert(q * step >= 0) by (nonlinear_arith)
        requires
            q >= 0,
            step > 0,
    ;
    vstd::arithmetic::div_mod::lemma_mod_multiples_basic(q, step);
    vstd::arithmetic::div_mod::lemma_mod_multiples_basic(-q, step);
    assert((-q) * step == -(q * step)) by (nonlinear_arith);
}

/// One more trade on a price level; quantities and the count saturate.
pub open spec fn accumulate(acc: ClusterAccum, t: TradePrint) -> ClusterAccum {
    ClusterAccum {
        bid_qty: if t.aggressor == AggressorSide::Bid {
            clamp_i64(acc.bid_qty + t.qty)
        } else {
            acc.bid_qty
        },
        ask_qty: if t.aggressor == AggressorSide::Ask {
            clamp_i64(acc.ask_qty + t.qty)
        } else {
            acc.ask_qty
        },
        trades: if acc.trades == u32::MAX {
            acc.trades
        } else {
            (acc.trades + 1) as u32
        },
    }
}

pub open spec fn zero_accum() -> ClusterAccum {
    ClusterAccum { bid_qty: 0, ask_qty: 0, trades: 0 }
}

/// The bucket that reports a price level.
pub open spec fn bucket_at(price: i64, acc: ClusterAccum) -> ClusterBucket {
    ClusterBucket { price, bid_qty: acc.bid_qty, ask_qty: acc.ask_qty, trades: acc.trades }
}

/// `list` reports every price level of `levels` exactly once, in any order.
pub open spec fn lists_levels(list: Seq<ClusterBucket>, levels: Map<i64, ClusterAccum>) -> bool {
    &&& list.len() == levels.dom().len()
    &&& forall|i: int|
        0 <= i < list.len() ==> levels.contains_key((#[trigger] list[i]).price) && list[i]
            == bucket_at(list[i].price, levels[list[i].price])
    &&& forall|i: int, j: int| 0 <= i < j < list.len() ==> list[i].price != list[j].price
    &&& forall|p: i64| #[trigger]
        levels.contains_key(p) ==> list.contains(bucket_at(p, levels[p]))
}

/// The state of an aggregator.
#[verifier::ext_equal]
pub struct AggregatorView {
    pub key: KeyView,
    pub bucket_step: int,
    pub window_ns: int,
    pub diff_interval_ns: int,
    pub window: Option<i64>,
    pub sequence: int,
    pub levels: Map<i64, ClusterAccum>,
    pub dirty: Set<i64>,
    pub last_diff_emit_ns: i64,
    pub dropped: nat,
    pub open: i64,
    pub close: i64,
    pub high: i64,
    pub low: i64,
}

impl AggregatorView {
    /// What holds of every reachable state.
    pub open spec fn wf(self) -> bool {
        &&& 0 < self.bucket_step <= i64::MAX
        &&& 0 < self.window_ns <= i64::MAX
        &&& 0 < self.diff_interval_ns <= i64::MAX
        &&& self.levels.dom().finite()
        &&& self.dirty.subset_of(self.levels.dom())
        &&& self.window is Some <==> self.levels.dom().len() > 0
        &&& self.window is Some ==> (self.window->0 as int) % self.window_ns == 0
        &&& forall|p: i64| #[trigger]
            self.levels.contains_key(p) ==> (p as int) % self.bucket_step == 0
                && self.levels[p].trades >= 1
        &&& self.sequence >= 0
        &&& self.low <= self.open <= self.high
        &&& self.low <= self.close <= self.high
    }

    /// The start of the window that a trade belongs to.
    pub open spec fn window_of(self, t: TradePrint) -> i64 {
        aligned(t.exchange_ts_ns as int, self.window_ns) as i64
    }

    /// The price level that a trade belongs to.
    pub open spec fn level_of(self, t: TradePrint) -> i64 {
        aligned(t.price as int, self.bucket_step) as i64
    }

    /// The trade belongs to a window that is already closed.
    pub open spec fn is_late(self, t: TradePrint) -> bool {
        self.window is Some && self.window_of(t) < self.window->0
    }

    /// The trade opens a later window than the current one.
    pub open spec fn rolls(self, t: TradePrint) -> bool {
        self.window is Some && self.window_of(t) > self.window->0
    }

    /// No window, nothing accumulated.
    pub open spec fn emptied(self) -> AggregatorView {
        AggregatorView {
            window: None,
            sequence: 0,
            levels: Map::empty(),
            dirty: Set::empty(),
            last_diff_emit_ns: 0,
            open: 0,
            close: 0,
            high: 0,
            low: 0,
            ..self
        }
    }

    /// The trade counted in the window that it belongs to.
    pub open spec fn counted(self, t: TradePrint) -> AggregatorView {
        let p = self.level_of(t);
        let before = if self.levels.contains_key(p) {
            self.levels[p]
        } else {
            zero_accum()
        };
        AggregatorView {
            window: Some(self.window_of(t)),
            levels: self.levels.insert(p, accumulate(before, t)),
            dirty: self.dirty.insert(p),
            open: if self.open == 0 {
                t.price
            } else {
                self.open
            },
            close: t.price,
            high: if self.open == 0 || t.price > self.high {
                t.price
            } else {
                self.high
            },
            low: if self.open == 0 || t.price < self.low {
                t.price
            } else {
                self.low
            },
            ..self
        }
    }

    /// The state after a trade came in.
    pub open spec fn after_trade(self, t: TradePrint) -> AggregatorView {
        if self.is_late(t) {
            AggregatorView { dropped: self.dropped + 1, ..self }
        } else if self.rolls(t) {
            self.emptied().counted(t)
        } else {
            self.counted(t)
        }
    }

    /// The state after a frame of the current window went out.
    pub open spec fn after_frame(self) -> AggregatorView {
        AggregatorView { sequence: self.sequence + 1, ..self }
    }

    /// `frame` is the snapshot of the current window, numbered next.
    pub open spec fn is_snapshot(self, frame: ClusterFrame) -> bool {
        match frame {
            ClusterFrame::Snapshot(s) => {
                &&& s.window_start_ns == (if self.window is Some {
                    self.window->0
                } else {
                    0
                })
                &&& s.sequence == self.sequence + 1
                &&& s.open == self.open
                &&& s.close == self.close
                &&& s.high == self.high
                &&& s.low == self.low
                &&& lists_levels(s.clusters@, self.levels)
            },
            ClusterFrame::Diff(_) => false,
        }
    }

    /// A timer pulse at `now_ns` owes a diff.
    pub open spec fn diff_due(self, now_ns: i64) -> bool {
        &&& self.dirty.len() > 0
        &&& clamp_i64(now_ns - self.last_diff_emit_ns) >= self.diff_interval_ns
    }

    /// `frame` is the diff of the levels that changed since the last one, numbered next.
    pub open spec fn is_diff(self, frame: ClusterFrame) -> bool {
        match frame {
            ClusterFrame::Snapshot(_) => false,
            ClusterFrame::Diff(d) => {
                &&& self.window == Some(d.window_start_ns)
                &&& d.sequence == self.sequence + 1
                &&& lists_levels(d.upserts@, self.levels.restrict(self.dirty))
                &&& d.removes@ == Seq::<i64>::empty()
            },
        }
    }

    /// The state after a diff went out.
    pub open spec fn after_diff(self, now_ns: i64) -> AggregatorView {
        AggregatorView {
            sequence: self.sequence + 1,
            dirty: Set::empty(),
            last_diff_emit_ns: now_ns,
            ..self
        }
    }
}

/// The state of an aggregator that has seen no trade.
pub open spec fn new_state(
    key: KeyView,
    bucket_step: int,
    window_ns: int,
    diff_interval_ns: int,
) -> AggregatorView {
    AggregatorView {
        key,
        bucket_step,
        window_ns,
        diff_interval_ns,
        window: None,
        sequence: 0,
        levels: Map::empty(),
        dirty: Set::empty(),
        last_diff_emit_ns: 0,
        dropped: 0,
        open: 0,
        close: 0,
        high: 0,
        low: 0,
    }
}

/// Footprint aggregator of one instrument. It pulls no clock: trades and timer pulses come in, and
/// each call may return a frame.
///
/// A window rolls on the first trade of a later window, and that call returns the closing snapshot.
/// A trade of a window that is already closed is dropped and counted.
pub struct Aggregator {
    key: SymbolKey,
    bucket_step: i64,
    window_ns: i64,
    diff_interval_ns: i64,
    current_window_start_ns: Option<i64>,
    sequence: i64,
    accum: HashMap<i64, ClusterAccum>,
    dirty: HashSet<i64>,
    last_diff_emit_ns: i64,
    dropped_late_trades: u64,
    open: i64,
    close: i64,
    high: i64,
    low: i64,
}

impl View for Aggregator {
    type V = AggregatorView;

    closed spec fn view(&self) -> AggregatorView {
        AggregatorView {
            key: self.key@,
            bucket_step: self.bucket_step as int,
            window_ns: self.window_ns as int,
            diff_interval_ns: self.diff_interval_ns as int,
            window: self.current_window_start_ns,
            sequence: self.sequence as int,
            levels: self.accum@,
            dirty: self.dirty@,
            last_diff_emit_ns: self.last_diff_emit_ns,
            dropped: self.dropped_late_trades as nat,
            open: self.open,
            close: self.close,
            high: self.high,
            low: self.low,
        }
    }
}

impl Aggregator {
    /// An aggregator of `key` with nothing accumulated.
    pub fn new(key: SymbolKey, bucket_step: i64, window_ms: i64, diff_interval_ms: i64) -> (r: Self)
        requires
            bucket_step > 0,
            window_ms > 0,
            diff_interval_ms > 0,
            window_ms * 1_000_000 <= i64::MAX,
            diff_interval_ms * 1_000_000 <= i64::MAX,
        ensures
            r@ == new_state(
                key@,
                bucket_step as int,
                window_ms * 1_000_000,
                diff_interval_ms * 1_000_000,
            ),
            r@.wf(),
    {
        Aggregator {
            key,
            bucket_step,
            window_ns: window_ms * 1_000_000,
            diff_interval_ns: diff_interval_ms * 1_000_000,
            current_window_start_ns: None,
            sequence: 0,
            accum: HashMap::new(),
            dirty: HashSet::new(),
            last_diff_emit_ns: 0,
            dropped_late_trades: 0,
            open: 0,
            close: 0,
            high: 0,
            low: 0,
        }
    }

    pub fn key(&self) -> (r: &SymbolKey)
        ensures
            r@ == self@.key,
    {
        &self.key
    }

    pub fn dropped_late_trades(&self) -> (r: u64)
        ensures
            r == self@.dropped,
    {
        self.dropped_late_trades
    }

    /// Whether one more frame can be numbered and one more dropped trade counted.
    pub fn room(&self) -> (r: bool)
        ensures
            r == (self@.sequence < i64::MAX && self@.dropped < u64::MAX),
    {
        self.sequence < i64::MAX && self.dropped_late_trades < u64::MAX
    }

    /// Takes a trade in. The closing snapshot of the current window comes back where the trade
    /// opens a later one.
    pub fn ingest(&mut self, trade: TradePrint) -> (r: Option<ClusterFrame>)
        requires
            old(self)@.wf(),
            old(self)@.rolls(trade) ==> old(self)@.sequence < i64::MAX,
            old(self)@.is_late(trade) ==> old(self)@.dropped < u64::MAX,
        ensures
            final(self)@ == old(self)@.after_trade(trade),
            final(self)@.wf(),
            r is Some == old(self)@.rolls(trade),
            r is Some ==> old(self)@.is_snapshot(r->0),
    {
        let trade_window: i64 = align(trade.exchange_ts_ns, self.window_ns);
        proof {
            lemma_aligned(trade.exchange_ts_ns as int, self.window_ns as int);
            lemma_aligned(trade.price as int, self.bucket_step as int);
        }
        let mut closing: Option<ClusterFrame> = None;
        match self.current_window_start_ns {
            None => {
                self.current_window_start_ns = Some(trade_window);
            },
            Some(curr) => {
                if trade_window > curr {
                    closing = Some(self.build_closing_snapshot());
                    self.current_window_start_ns = Some(trade_window);
                    self.accum.clear();
                    self.dirty.clear();
                    self.sequence = 0;
                    self.last_diff_emit_ns = 0;
                    self.open = 0;
                    self.close = 0;
                    self.high = 0;
                    self.low = 0;
                } else if trade_window < curr {
                    self.dropped_late_trades = self.dropped_late_trades + 1;
                    return None;
                }
            },
        }
        let bucket_price: i64 = align(trade.price, self.bucket_step);
        let acc = self.accum.entry(bucket_price).or_insert(
            ClusterAccum { bid_qty: 0, ask_qty: 0, trades: 0 },
        );
        match trade.aggressor {
            AggressorSide::Bid => {
                acc.bid_qty = saturating_add(acc.bid_qty, trade.qty);
            },
            AggressorSide::Ask => {
                acc.ask_qty = saturating_add(acc.ask_qty, trade.qty);
            },
        }
        acc.trades = acc.trades.saturating_add(1);
        self.dirty.insert(bucket_price);
        if self.open == 0 {
            self.open = trade.price;
            self.high = trade.price;
            self.low = trade.price;
        } else {
            if trade.price > self.high {
                self.high = trade.price;
            }
            if trade.price < self.low {
                self.low = trade.price;
            }
        }
        self.close = trade.price;
        assert(self@ =~= old(self)@.after_trade(trade));
        assert(self@.levels.contains_key(bucket_price));
        closing
    }

    /// A timer pulse. A diff comes back where levels changed and the last diff is at least one
    /// interval old.
    pub fn tick(&mut self, now_ns: i64) -> (r: Option<ClusterFrame>)
        requires
            old(self)@.wf(),
            old(self)@.diff_due(now_ns) ==> old(self)@.sequence < i64::MAX,
        ensures
            r is Some == old(self)@.diff_due(now_ns),
            r is Some ==> old(self)@.is_diff(r->0),
            final(self)@ == (if old(self)@.diff_due(now_ns) {
                old(self)@.after_diff(now_ns)
            } else {
                old(self)@
            }),
            final(self)@.wf(),
    {
        if self.dirty.is_empty() {
            return None;
        }
        if saturating_sub(now_ns, self.last_diff_emit_ns) < self.diff_interval_ns {
            return None;
        }
        let window_start_ns: i64 = match self.current_window_start_ns {
            Some(w) => w,
            None => {
                return None;
            },
        };
        self.sequence = self.sequence + 1;
        let upserts = marked_levels(&self.accum, &self.dirty);
        self.dirty.clear();
        self.last_diff_emit_ns = now_ns;
        Some(
            ClusterFrame::Diff(
                Arc::new(
                    AnalyticsDiff {
                        window_start_ns,
                        sequence: self.sequence,
                        upserts,
                        removes: Vec::new(),
                    },
                ),
            ),
        )
    }

    /// A snapshot of the window that is still open, numbered next; nothing but the sequence number
    /// changes. `None` where the window has no trades.
    pub fn current_window_snapshot(&mut self) -> (r: Option<ClusterFrame>)
        requires
            old(self)@.wf(),
            old(self)@.window is Some ==> old(self)@.sequence < i64::MAX,
        ensures
            r is Some == (old(self)@.window is Some),
            r is Some ==> old(self)@.is_snapshot(r->0),
            final(self)@ == (if old(self)@.window is Some {
                old(self)@.after_frame()
            } else {
                old(self)@
            }),
            final(self)@.wf(),
    {
        if self.accum.is_empty() || self.current_window_start_ns.is_none() {
            return None;
        }
        Some(self.build_closing_snapshot())
    }

    /// The current window as a snapshot; afterwards nothing is accumulated. `None` where the window
    /// has no trades.
    pub fn flush(&mut self) -> (r: Option<ClusterFrame>)
        requires
            old(self)@.wf(),
            old(self)@.window is Some ==> old(self)@.sequence < i64::MAX,
        ensures
            r is Some == (old(self)@.window is Some),
            r is Some ==> old(self)@.is_snapshot(r->0),
            final(self)@ == (if old(self)@.window is Some {
                old(self)@.emptied()
            } else {
                old(self)@
            }),
            final(self)@.wf(),
    {
        if self.accum.is_empty() {
            return None;
        }
        let frame = self.build_closing_snapshot();
        self.accum.clear();
        self.dirty.clear();
        self.current_window_start_ns = None;
        self.sequence = 0;
        self.last_diff_emit_ns = 0;
        self.open = 0;
        self.close = 0;
        self.high = 0;
        self.low = 0;
        Some(frame)
    }

    fn build_closing_snapshot(&mut self) -> (r: ClusterFrame)
        requires
            old(self)@.wf(),
            old(self)@.sequence < i64::MAX,
        ensures
            final(self)@ == old(self)@.after_frame(),
            final(self)@.wf(),
            old(self)@.is_snapshot(r),
    {
        self.sequence = self.sequence + 1;
        let clusters = all_levels(&self.accum);
        ClusterFrame::Snapshot(
            Arc::new(
                AnalyticsSnapshot {
                    window_start_ns: match self.current_window_start_ns {
                        Some(w) => w,
                        None => 0,
                    },
                    sequence: self.sequence,
                    clusters,
                    open: self.open,
                    close: self.close,
                    high: self.high,
                    low: self.low,
                },
            ),
        )
    }
}

/// Reports the levels of the map that are marked.
fn marked_levels(levels: &HashMap<i64, ClusterAccum>, marked: &HashSet<i64>) -> (r: Vec<
    ClusterBucket,
>)
    requires
        marked@.subset_of(levels@.dom()),
        levels@.dom().finite(),
    ensures
        lists_levels(r@, levels@.restrict(marked@)),
{
    let mut out: Vec<ClusterBucket> = Vec::new();
    let iter = marked.iter();
    let ghost all = iter.remaining();
    let ghost kept = levels@.restrict(marked@);
    assert(all.no_duplicates());
    assert(kept.dom() =~= marked@);
    proof {
        assert(all.unref().to_set() == marked@);
        assert forall|j: int| 0 <= j < all.len() implies marked@.contains(
            *(#[trigger] all[j]),
        ) by {
            assert(all.unref()[j] == *all[j]);
            assert(all.unref().contains(all.unref()[j]));
        }
    }
    for price in it: iter
        invariant
            it.seq() == all,
            kept == levels@.restrict(marked@),
            forall|j: int| 0 <= j < all.len() ==> marked@.contains(*(#[trigger] all[j])),
            marked@.subset_of(levels@.dom()),
            out@.len() == it.index(),
            forall|j: int|
                0 <= j < out@.len() ==> out@[j] == bucket_at(
                    *(#[trigger] all[j]),
                    levels@[*all[j]],
                ),
    {
        assert(levels@.contains_key(*all[it.index()]));
        match levels.get(price) {
            Some(acc) => out.push(
                ClusterBucket {
                    price: *price,
                    bid_qty: acc.bid_qty,
                    ask_qty: acc.ask_qty,
                    trades: acc.trades,
                },
            ),
            None => {},
        }
    }
    proof {
        assert forall|i: int, j: int| 0 <= i < j < out@.len() implies out@[i].price
            != out@[j].price by {
            if out@[i].price == out@[j].price {
                assert(all[i] == all[j]);
            }
        }
        assert forall|p: i64| #[trigger] kept.contains_key(p) implies out@.contains(
            bucket_at(p, kept[p]),
        ) by {
            assert(marked@.contains(p));
            assert(all.unref().to_set().contains(p));
            let i = all.unref().index_of(p);
            assert(all.unref()[i] == p);
            assert(out@[i] == bucket_at(p, kept[p]));
        }
        assert forall|i: int| 0 <= i < out@.len() implies kept.contains_key(
            (#[trigger] out@[i]).price,
        ) && out@[i] == bucket_at(out@[i].price, kept[out@[i].price]) by {
            assert(marked@.contains(*all[i]));
        }
    }
    out
}

/// Reports every level of the map.
fn all_levels(levels: &HashMap<i64, ClusterAccum>) -> (r: Vec<ClusterBucket>)
    ensures
        lists_levels(r@, levels@),
{
    let mut out: Vec<ClusterBucket> = Vec::new();
    let iter = levels.iter();
    let ghost all = iter.remaining();
    assert(all.no_duplicates());
    for (price, acc) in it: iter
        invariant
            it.seq() == all,
            out@.len() == it.index(),
            forall|j: int|
                0 <= j < out@.len() ==> out@[j] == bucket_at(*(#[trigger] all[j]).0, *all[j].1),
    {
        out.push(
            ClusterBucket {
                price: *price,
                bid_qty: acc.bid_qty,
                ask_qty: acc.ask_qty,
                trades: acc.trades,
            },
        );
    }
    proof {
        assert forall|i: int, j: int| 0 <= i < j < out@.len() implies out@[i].price
            != out@[j].price by {
            assert(levels@.contains_key(*all[i].0));
            assert(levels@.contains_key(*all[j].0));
            if out@[i].price == out@[j].price {
                assert(all[i] == all[j]);
            }
        }
        assert forall|p: i64| #[trigger] levels@.contains_key(p) implies out@.contains(
            bucket_at(p, levels@[p]),
        ) by {
            assert(all.contains((&p, &levels@[p])));
            let i = all.index_of((&p, &levels@[p]));
            assert(out@[i] == bucket_at(p, levels@[p]));
        }
        assert forall|i: int| 0 <= i < out@.len() implies levels@.contains_key(
            (#[trigger] out@[i]).price,
        ) && out@[i] == bucket_at(out@[i].price, levels@[out@[i].price]) by {
            assert(levels@.contains_key(*all[i].0));
        }
    }
    out
}

/// What drives an aggregator.
pub enum EngineEvent {
    /// A trade came in.
    Trade(TradePrint),
    /// The timer of diffs went off.
    Tick(i64),
    /// The timer of snapshots of the open window went off.
    Partial,
    /// No more trades will come.
    Closed,
}

impl AggregatorView {
    /// The state after an event.
    pub open spec fn after_event(self, e: EngineEvent) -> AggregatorView {
        match e {
            EngineEvent::Trade(t) => self.after_trade(t),
            EngineEvent::Tick(now_ns) => if self.diff_due(now_ns) {
                self.after_diff(now_ns)
            } else {
                self
            },
            EngineEvent::Partial => if self.window is Some {
                self.after_frame()
            } else {
                self
            },
            EngineEvent::Closed => if self.window is Some {
                self.emptied()
            } else {
                self
            },
        }
    }

    /// An event owes a frame.
    pub open spec fn owes_frame(self, e: EngineEvent) -> bool {
        match e {
            EngineEvent::Trade(t) => self.rolls(t),
            EngineEvent::Tick(now_ns) => self.diff_due(now_ns),
            EngineEvent::Partial => self.window is Some,
            EngineEvent::Closed => self.window is Some,
        }
    }

    /// `r` is what an event brings out: a frame where one is owed, a diff on a timer pulse and a
    /// snapshot otherwise.
    pub open spec fn answers(self, e: EngineEvent, r: Option<ClusterFrame>) -> bool {
        &&& r is Some == self.owes_frame(e)
        &&& r is Some ==> if e is Tick {
            self.is_diff(r->0)
        } else {
            self.is_snapshot(r->0)
        }
    }
}

impl Aggregator {
    /// Does what an event calls for and returns the frame to publish.
    pub fn on_event(&mut self, event: EngineEvent) -> (r: Option<ClusterFrame>)
        requires
            old(self)@.wf(),
            old(self)@.sequence < i64::MAX,
            old(self)@.dropped < u64::MAX,
        ensures
            final(self)@.wf(),
            final(self)@ == old(self)@.after_event(event),
            old(self)@.answers(event, r),
    {
        match event {
            EngineEvent::Trade(t) => self.ingest(t),
            EngineEvent::Tick(now_ns) => self.tick(now_ns),
            EngineEvent::Partial => self.current_window_snapshot(),
            EngineEvent::Closed => self.flush(),
        }
    }
}

impl AggregatorView {
    /// The state after a row of trades came in.
    pub open spec fn after_trades(self, ts: Seq<TradePrint>) -> AggregatorView
        decreases ts.len(),
    {
        if ts.len() == 0 {
            self
        } else {
            self.after_trades(ts.drop_last()).after_trade(ts.last())
        }
    }
}

/// All trades belong to the window that starts at `w`.
pub open spec fn in_window(s: AggregatorView, ts: Seq<TradePrint>, w: i64) -> bool {
    forall|i: int| 0 <= i < ts.len() ==> s.window_of(#[trigger] ts[i]) == w
}

/// The summed quantity of the trades on one side of one price level.
pub open spec fn side_sum(ts: Seq<TradePrint>, side: AggressorSide, step: int, p: i64) -> int
    decreases ts.len(),
{
    if ts.len() == 0 {
        0
    } else {
        let t = ts.last();
        side_sum(ts.drop_last(), side, step, p) + (if t.aggressor == side && aligned(
            t.price as int,
            step,
        ) == p {
            t.qty as int
        } else {
            0
        })
    }
}

/// The number of the trades on one price level.
pub open spec fn level_count(ts: Seq<TradePrint>, step: int, p: i64) -> nat
    decreases ts.len(),
{
    if ts.len() == 0 {
        0
    } else {
        level_count(ts.drop_last(), step, p) + (if aligned(ts.last().price as int, step) == p {
            1nat
        } else {
            0
        })
    }
}

/// Every operation keeps the invariant of a state.
pub proof fn law_invariant_kept(s: AggregatorView, t: TradePrint, now_ns: i64)
    requires
        s.wf(),
    ensures
        s.after_trade(t).wf(),
        s.after_frame().wf(),
        s.after_diff(now_ns).wf(),
        s.emptied().wf(),
{
    lemma_aligned(t.exchange_ts_ns as int, s.window_ns);
    lemma_aligned(t.price as int, s.bucket_step);
    let p = s.level_of(t);
    assert(s.counted(t).levels.contains_key(p));
    assert(s.emptied().counted(t).levels.contains_key(p));
}

/// A trade of a window that is already closed changes nothing but the counter of dropped trades.
pub proof fn law_late_trade_does_not_count(s: AggregatorView, t: TradePrint)
    requires
        s.wf(),
        s.is_late(t),
    ensures
        s.after_trade(t) == (AggregatorView { dropped: s.dropped + 1, ..s }),
        !s.rolls(t),
{
}

/// From an empty state, the trades of one window leave on each price level exactly their summed
/// quantities and their number, up to the largest machine number.
pub proof fn law_window_totals(s: AggregatorView, ts: Seq<TradePrint>, w: i64, p: i64)
    requires
        s.wf(),
        s.window is None,
        s.levels == Map::<i64, ClusterAccum>::empty(),
        in_window(s, ts, w),
        forall|i: int| 0 <= i < ts.len() ==> (#[trigger] ts[i]).qty >= 0,
    ensures
        s.after_trades(ts).window == (if ts.len() > 0 {
            Some(w)
        } else {
            None
        }),
        s.after_trades(ts).levels.contains_key(p) <==> level_count(ts, s.bucket_step, p) > 0,
        level_count(ts, s.bucket_step, p) > 0 ==> s.after_trades(ts).levels[p] == (ClusterAccum {
            bid_qty: clamp_i64(side_sum(ts, AggressorSide::Bid, s.bucket_step, p)),
            ask_qty: clamp_i64(side_sum(ts, AggressorSide::Ask, s.bucket_step, p)),
            trades: if level_count(ts, s.bucket_step, p) > u32::MAX {
                u32::MAX
            } else {
                level_count(ts, s.bucket_step, p) as u32
            },
        }),
    decreases ts.len(),
{
    lemma_window_totals(s, ts, w, p);
}

proof fn lemma_window_totals(s: AggregatorView, ts: Seq<TradePrint>, w: i64, p: i64)
    requires
        s.wf(),
        s.window is None,
        s.levels == Map::<i64, ClusterAccum>::empty(),
        in_window(s, ts, w),
        forall|i: int| 0 <= i < ts.len() ==> (#[trigger] ts[i]).qty >= 0,
    ensures
        ({
            let e = s.after_trades(ts);
            let n = level_count(ts, s.bucket_step, p);
            let bid = side_sum(ts, AggressorSide::Bid, s.bucket_step, p);
            let ask = side_sum(ts, AggressorSide::Ask, s.bucket_step, p);
            &&& e.window_ns == s.window_ns
            &&& e.bucket_step == s.bucket_step
            &&& e.window == (if ts.len() > 0 {
                Some(w)
            } else {
                None
            })
            &&& bid >= 0
            &&& ask >= 0
            &&& n == 0 ==> bid == 0 && ask == 0
            &&& e.levels.contains_key(p) <==> n > 0
            &&& n > 0 ==> e.levels[p] == (ClusterAccum {
                bid_qty: clamp_i64(bid),
                ask_qty: clamp_i64(ask),
                trades: if n > u32::MAX {
                    u32::MAX
                } else {
                    n as u32
                },
            })
        }),
    decreases ts.len(),
{
    if ts.len() > 0 {
        let init = ts.drop_last();
        let t = ts.last();
        assert forall|i: int| 0 <= i < init.len() implies s.window_of(#[trigger] init[i]) == w by {
            assert(init[i] == ts[i]);
        }
        assert forall|i: int| 0 <= i < init.len() implies (#[trigger] init[i]).qty >= 0 by {
            assert(init[i] == ts[i]);
        }
        lemma_window_totals(s, init, w, p);
        assert(t == ts[ts.len() - 1]);
        assert(s.window_of(t) == w);
        lemma_aligned(t.price as int, s.bucket_step);
    }
}

/// The highest price of a row of trades.
pub open spec fn highest(ts: Seq<TradePrint>) -> i64
    recommends
        ts.len() > 0,
    decreases ts.len(),
{
    if ts.len() <= 1 || ts.last().price > highest(ts.drop_last()) {
        ts.last().price
    } else {
        highest(ts.drop_last())
    }
}

/// The lowest price of a row of trades.
pub open spec fn lowest(ts: Seq<TradePrint>) -> i64
    recommends
        ts.len() > 0,
    decreases ts.len(),
{
    if ts.len() <= 1 || ts.last().price < lowest(ts.drop_last()) {
        ts.last().price
    } else {
        lowest(ts.drop_last())
    }
}

/// From an empty state, the trades of one window with prices above zero leave the first price as
/// the open, the last as the close, and their extremes as the high and the low.
pub proof fn law_window_ohlc(s: AggregatorView, ts: Seq<TradePrint>, w: i64)
    requires
        s.window is None,
        s.open == 0,
        ts.len() > 0,
        in_window(s, ts, w),
        forall|i: int| 0 <= i < ts.len() ==> (#[trigger] ts[i]).price > 0,
    ensures
        s.after_trades(ts).open == ts[0].price,
        s.after_trades(ts).close == ts.last().price,
        s.after_trades(ts).high == highest(ts),
        s.after_trades(ts).low == lowest(ts),
{
    lemma_window_ohlc(s, ts, w);
}

proof fn lemma_window_ohlc(s: AggregatorView, ts: Seq<TradePrint>, w: i64)
    requires
        s.window is None,
        s.open == 0,
        ts.len() > 0,
        in_window(s, ts, w),
        forall|i: int| 0 <= i < ts.len() ==> (#[trigger] ts[i]).price > 0,
    ensures
        s.after_trades(ts).window_ns == s.window_ns,
        s.after_trades(ts).window == Some(w),
        s.after_trades(ts).open == ts[0].price,
        s.after_trades(ts).close == ts.last().price,
        s.after_trades(ts).high == highest(ts),
        s.after_trades(ts).low == lowest(ts),
    decreases ts.len(),
{
    let init = ts.drop_last();
    let t = ts.last();
    assert(t == ts[ts.len() - 1]);
    assert(s.window_of(t) == w);
    assert(t.price > 0);
    if init.len() > 0 {
        assert forall|i: int| 0 <= i < init.len() implies s.window_of(#[trigger] init[i]) == w by {
            assert(init[i] == ts[i]);
        }
        assert forall|i: int| 0 <= i < init.len() implies (#[trigger] init[i]).price > 0 by {
            assert(init[i] == ts[i]);
        }
        lemma_window_ohlc(s, init, w);
        assert(ts[0].price > 0);
    } else {
        assert(s.after_trades(init) == s);
    }
}

/// A trade within the window keeps the sequence number and a roll resets it, so that the frames of
/// one window are numbered 1, 2, 3 and so on.
pub proof fn law_sequence(s: AggregatorView, t: TradePrint, now_ns: i64, frame: ClusterFrame)
    requires
        s.wf(),
    ensures
        !s.rolls(t) ==> s.after_trade(t).sequence == s.sequence,
        s.rolls(t) ==> s.after_trade(t).sequence == 0,
        s.after_frame().sequence == s.sequence + 1,
        s.after_diff(now_ns).sequence == s.sequence + 1,
        s.emptied().sequence == 0,
        s.is_snapshot(frame) || s.is_diff(frame) ==> crate::types::frame_sequence(frame)
            == s.sequence + 1,
{
}

/// After a diff no pulse owes another until a trade is counted.
pub proof fn law_diff_needs_change(s: AggregatorView, now_ns: i64, later_ns: i64)
    ensures
        !s.after_diff(now_ns).diff_due(later_ns),
{
}

/// The levels that a consumer holds once it has applied the buckets of a diff.
pub open spec fn upserted(held: Map<i64, ClusterAccum>, list: Seq<ClusterBucket>) -> Map<
    i64,
    ClusterAccum,
>
    decreases list.len(),
{
    if list.len() == 0 {
        held
    } else {
        let b = list.last();
        upserted(held, list.drop_last()).insert(
            b.price,
            ClusterAccum { bid_qty: b.bid_qty, ask_qty: b.ask_qty, trades: b.trades },
        )
    }
}

/// The consumer holds every level as it is, but for those that changed since the last diff.
pub open spec fn in_step(held: Map<i64, ClusterAccum>, s: AggregatorView) -> bool {
    &&& held.dom().subset_of(s.levels.dom())
    &&& forall|p: i64| #[trigger]
        s.levels.contains_key(p) && !s.dirty.contains(p) ==> held.contains_key(p) && held[p]
            == s.levels[p]
}

proof fn lemma_upserted(held: Map<i64, ClusterAccum>, list: Seq<ClusterBucket>, p: i64)
    requires
        forall|i: int, j: int| 0 <= i < j < list.len() ==> list[i].price != list[j].price,
    ensures
        upserted(held, list).contains_key(p) <==> held.contains_key(p) || exists|i: int|
            0 <= i < list.len() && (#[trigger] list[i]).price == p,
        forall|i: int|
            0 <= i < list.len() && (#[trigger] list[i]).price == p ==> list[i] == bucket_at(
                p,
                upserted(held, list)[p],
            ),
        (forall|i: int| 0 <= i < list.len() ==> (#[trigger] list[i]).price != p)
            && held.contains_key(p) ==> upserted(held, list)[p] == held[p],
    decreases list.len(),
{
    if list.len() > 0 {
        let init = list.drop_last();
        lemma_upserted(held, init, p);
        assert forall|i: int| 0 <= i < list.len() && (#[trigger] list[i]).price == p implies list[i]
            == bucket_at(p, upserted(held, list)[p]) by {
            if i < init.len() {
                assert(init[i] == list[i]);
            }
        }
        if exists|i: int| 0 <= i < list.len() && (#[trigger] list[i]).price == p {
            let i = choose|i: int| 0 <= i < list.len() && (#[trigger] list[i]).price == p;
            if i < init.len() {
                assert(init[i] == list[i]);
            }
        }
        if upserted(held, init).contains_key(p) && !held.contains_key(p) {
            let i = choose|i: int| 0 <= i < init.len() && (#[trigger] init[i]).price == p;
            assert(list[i] == init[i]);
        }
        assert(list[list.len() - 1] == list.last());
        if (forall|i: int| 0 <= i < list.len() ==> (#[trigger] list[i]).price != p) {
            assert forall|i: int| 0 <= i < init.len() implies (#[trigger] init[i]).price != p by {
                assert(init[i] == list[i]);
            }
        }
    }
}

/// A consumer that starts from a snapshot and applies each diff holds, after each of them, exactly
/// the levels of the window.
pub proof fn law_diff_catches_up(
    held: Map<i64, ClusterAccum>,
    s: AggregatorView,
    t: TradePrint,
    frame: ClusterFrame,
)
    requires
        s.wf(),
        in_step(held, s),
    ensures
        in_step(s.levels, s),
        !s.rolls(t) ==> in_step(held, s.after_trade(t)),
        s.is_diff(frame) ==> upserted(held, frame->Diff_0.upserts@) == s.levels,
{
    if s.is_diff(frame) {
        let after = upserted(held, frame->Diff_0.upserts@);
        assert forall|p: i64| #[trigger]
            after.dom().contains(p) == s.levels.dom().contains(p) by {
            lemma_caught_up(held, s, frame, p);
        }
        assert forall|p: i64| #[trigger] s.levels.contains_key(p) implies after[p]
            == s.levels[p] by {
            lemma_caught_up(held, s, frame, p);
        }
        assert(after =~= s.levels);
    }
}

proof fn lemma_caught_up(
    held: Map<i64, ClusterAccum>,
    s: AggregatorView,
    frame: ClusterFrame,
    p: i64,
)
    requires
        s.wf(),
        in_step(held, s),
        s.is_diff(frame),
    ensures
        ({
            let after = upserted(held, frame->Diff_0.upserts@);
            &&& after.contains_key(p) <==> s.levels.contains_key(p)
            &&& s.levels.contains_key(p) ==> after[p] == s.levels[p]
        }),
{
    let list = frame->Diff_0.upserts@;
    let changed = s.levels.restrict(s.dirty);
    assert(changed.dom() =~= s.dirty.intersect(s.levels.dom()));
    lemma_upserted(held, list, p);
    if s.levels.contains_key(p) && s.dirty.contains(p) {
        assert(changed.contains_key(p));
        assert(list.contains(bucket_at(p, changed[p])));
        let i = list.index_of(bucket_at(p, changed[p]));
        assert(list[i].price == p);
    } else {
        assert forall|i: int| 0 <= i < list.len() implies (#[trigger] list[i]).price != p by {
            assert(changed.contains_key(list[i].price));
        }
    }
}

/// Windows nest: the short window that a trade belongs to lies in the long window that it belongs
/// to, where the long one is a multiple of the short one.
pub proof fn law_windows_nest(t: int, short: int, factor: int)
    requires
        t >= 0,
        short > 0,
        factor > 0,
    ensures
        aligned(aligned(t, short), short * factor) == aligned(t, short * factor),
{
    let long = short * factor;
    assert(long > 0) by (nonlinear_arith)
        requires
            short > 0,
            factor > 0,
            long == short * factor,
    ;
    lemma_aligned(t, short);
    lemma_aligned(t, long);
    let a = aligned(t, short);
    let b = aligned(t, long);
    lemma_aligned(a, long);
    let q = t / long;
    assert(b == q * long);
    assert(q * long == (q * factor) * short) by (nonlinear_arith)
        requires
            long == short * factor,
    ;
    let m = t / short;
    assert(a == m * short);
    vstd::arithmetic::div_mod::lemma_fundamental_div_mod(t, short);
    vstd::arithmetic::div_mod::lemma_mod_bound(t, short);
    assert(short * m == m * short) by (nonlinear_arith);
    assert(q * factor < m + 1) by (nonlinear_arith)
        requires
            (q * factor) * short <= t,
            t < m * short + short,
            short > 0,
    ;
    assert((q * factor) * short <= m * short) by (nonlinear_arith)
        requires
            q * factor <= m,
            short > 0,
    ;
    assert(b <= a <= t);
    vstd::arithmetic::div_mod::lemma_fundamental_div_mod(t, long);
    vstd::arithmetic::div_mod::lemma_mod_bound(t, long);
    assert(long * q == q * long) by (nonlinear_arith);
    vstd::arithmetic::div_mod::lemma_fundamental_div_mod_converse(a, long, q, a - q * long);
}

/// Totals add up: the totals of a row of trades are the sums of those of its parts, so that the
/// levels of a long window are the sums of the levels of the short windows in it.
pub proof fn law_totals_add(
    a: Seq<TradePrint>,
    b: Seq<TradePrint>,
    side: AggressorSide,
    step: int,
    p: i64,
)
    ensures
        side_sum(a + b, side, step, p) == side_sum(a, side, step, p) + side_sum(b, side, step, p),
        level_count(a + b, step, p) == level_count(a, step, p) + level_count(b, step, p),
    decreases b.len(),
{
    if b.len() == 0 {
        assert(a + b =~= a);
    } else {
        law_totals_add(a, b.drop_last(), side, step, p);
        assert((a + b).drop_last() =~= a + b.drop_last());
        assert((a + b).last() == b.last());
    }
}

impl AggregatorView {
    /// The state after a row of events.
    pub open spec fn after_events(self, es: Seq<EngineEvent>) -> AggregatorView
        decreases es.len(),
    {
        if es.len() == 0 {
            self
        } else {
            self.after_events(es.drop_last()).after_event(es.last())
        }
    }

    /// `rs` are what the events of a row bring out, one after the other.
    pub open spec fn answers_all(
        self,
        es: Seq<EngineEvent>,
        rs: Seq<Option<ClusterFrame>>,
    ) -> bool
        decreases es.len(),
    {
        &&& es.len() == rs.len()
        &&& es.len() > 0 ==> {
            &&& self.answers_all(es.drop_last(), rs.drop_last())
            &&& self.after_events(es.drop_last()).answers(es.last(), rs.last())
        }
    }

    /// What a consumer holds that overlays, one after the other, the diffs that came out since the
    /// open window began.
    pub open spec fn overlaid(
        self,
        es: Seq<EngineEvent>,
        rs: Seq<Option<ClusterFrame>>,
    ) -> Map<i64, ClusterAccum>
        decreases es.len(),
    {
        if es.len() == 0 {
            Map::empty()
        } else {
            let held = self.overlaid(es.drop_last(), rs.drop_last());
            match es.last() {
                EngineEvent::Trade(t) => if self.after_events(es.drop_last()).rolls(t) {
                    Map::empty()
                } else {
                    held
                },
                EngineEvent::Tick(_) => match rs.last() {
                    Some(ClusterFrame::Diff(d)) => upserted(held, d.upserts@),
                    _ => held,
                },
                EngineEvent::Partial => held,
                EngineEvent::Closed => Map::empty(),
            }
        }
    }

    /// No event of the row closes the window that is open before it.
    pub open spec fn stays_open(self, es: Seq<EngineEvent>) -> bool
        decreases es.len(),
    {
        es.len() > 0 ==> {
            &&& self.stays_open(es.drop_last())
            &&& match es.last() {
                EngineEvent::Trade(t) => !self.after_events(es.drop_last()).rolls(t),
                EngineEvent::Closed => false,
                _ => true,
            }
        }
    }

    /// No event of the row brings a frame out.
    pub open spec fn stays_quiet(self, es: Seq<EngineEvent>) -> bool
        decreases es.len(),
    {
        es.len() > 0 ==> {
            &&& self.stays_quiet(es.drop_last())
            &&& !self.after_events(es.drop_last()).owes_frame(es.last())
        }
    }

    /// The same state, its frames numbered `n` higher.
    pub open spec fn renumbered(self, n: int) -> AggregatorView {
        AggregatorView { sequence: self.sequence + n, ..self }
    }
}

/// A trade stands in the row behind the last end of the trades.
pub open spec fn holds_trade(es: Seq<EngineEvent>) -> bool
    decreases es.len(),
{
    es.len() > 0 && match es.last() {
        EngineEvent::Trade(_) => true,
        EngineEvent::Closed => false,
        _ => holds_trade(es.drop_last()),
    }
}

/// The two outcomes are equal but for the number of the frame, which is `n` higher in the second.
pub open spec fn numbered_higher(
    r: Option<ClusterFrame>,
    q: Option<ClusterFrame>,
    n: int,
) -> bool {
    match (r, q) {
        (None, None) => true,
        (Some(ClusterFrame::Snapshot(a)), Some(ClusterFrame::Snapshot(b))) => {
            &&& b.window_start_ns == a.window_start_ns
            &&& b.sequence == a.sequence + n
            &&& b.clusters@ == a.clusters@
            &&& b.open == a.open
            &&& b.close == a.close
            &&& b.high == a.high
            &&& b.low == a.low
        },
        (Some(ClusterFrame::Diff(a)), Some(ClusterFrame::Diff(b))) => {
            &&& b.window_start_ns == a.window_start_ns
            &&& b.sequence == a.sequence + n
            &&& b.upserts@ == a.upserts@
            &&& b.removes@ == a.removes@
        },
        _ => false,
    }
}

/// Whatever events come, the invariant of a state is kept, and so are its settings.
pub proof fn law_events_keep_invariant(s: AggregatorView, es: Seq<EngineEvent>)
    requires
        s.wf(),
    ensures
        s.after_events(es).wf(),
        s.after_events(es).key == s.key,
        s.after_events(es).bucket_step == s.bucket_step,
        s.after_events(es).window_ns == s.window_ns,
        s.after_events(es).diff_interval_ns == s.diff_interval_ns,
    decreases es.len(),
{
    if es.len() > 0 {
        law_events_keep_invariant(s, es.drop_last());
        let before = s.after_events(es.drop_last());
        match es.last() {
            EngineEvent::Trade(t) => law_invariant_kept(before, t, 0),
            EngineEvent::Tick(now_ns) => law_invariant_kept(before, arbitrary(), now_ns),
            _ => law_invariant_kept(before, arbitrary(), 0),
        }
    }
}

/// A window is open, and a snapshot of it comes back, exactly where a trade has come in since the
/// trades last ended.
pub proof fn law_open_window_holds_trades(
    s: AggregatorView,
    es: Seq<EngineEvent>,
    r: Option<ClusterFrame>,
)
    requires
        s.window is None,
    ensures
        s.after_events(es).window is Some <==> holds_trade(es),
        s.after_events(es).answers(EngineEvent::Partial, r) ==> (r is Some <==> holds_trade(es)),
        s.after_events(es).answers(EngineEvent::Closed, r) ==> (r is Some <==> holds_trade(es)),
    decreases es.len(),
{
    if es.len() > 0 {
        law_open_window_holds_trades(s, es.drop_last(), r);
    }
}

proof fn lemma_no_window_no_levels(s: AggregatorView)
    requires
        s.wf(),
        s.window is None,
    ensures
        s.levels.dom() =~= Set::<i64>::empty(),
{
    vstd::set_lib::lemma_set_empty_equivalency_len(s.levels.dom());
}

/// The diffs that came out since the open window began, overlaid one after the other on nothing,
/// give after each of them exactly the levels of the window, and so the buckets of a snapshot taken
/// right then. The prices of one diff are distinct.
pub proof fn law_diffs_make_the_window(
    s: AggregatorView,
    es: Seq<EngineEvent>,
    rs: Seq<Option<ClusterFrame>>,
    snapshot: ClusterFrame,
)
    requires
        s.wf(),
        s.window is None,
        s.answers_all(es, rs),
    ensures
        in_step(s.overlaid(es, rs), s.after_events(es)),
        es.len() > 0 && es.last() is Tick && rs.last() is Some ==> {
            let upserts = rs.last()->0->Diff_0.upserts@;
            &&& rs.last()->0 is Diff
            &&& s.overlaid(es, rs) == s.after_events(es).levels
            &&& forall|i: int, j: int|
                0 <= i < j < upserts.len() ==> upserts[i].price != upserts[j].price
            &&& s.after_events(es).answers(EngineEvent::Partial, Some(snapshot)) ==> lists_levels(
                snapshot->Snapshot_0.clusters@,
                s.overlaid(es, rs),
            )
        },
    decreases es.len(),
{
    if es.len() == 0 {
        lemma_no_window_no_levels(s);
    } else {
        let init = es.drop_last();
        let before = s.after_events(init);
        let held = s.overlaid(init, rs.drop_last());
        law_diffs_make_the_window(s, init, rs.drop_last(), snapshot);
        law_events_keep_invariant(s, init);
        match es.last() {
            EngineEvent::Trade(t) => {
                law_diff_catches_up(held, before, t, snapshot);
                if before.rolls(t) {
                    assert(in_step(Map::<i64, ClusterAccum>::empty(), before.after_trade(t)));
                }
            },
            EngineEvent::Tick(_) => {
                if rs.last() is Some {
                    law_diff_catches_up(held, before, arbitrary(), rs.last()->0);
                }
            },
            EngineEvent::Partial => {},
            EngineEvent::Closed => {
                if before.window is None {
                    lemma_no_window_no_levels(before);
                }
            },
        }
    }
}

/// A snapshot of the open window, taken anywhere between events, changes nothing in the outcome of
/// any later event but that the frames of the same window are numbered one higher. Where no window
/// is open it changes nothing at all.
pub proof fn law_extra_snapshot_is_harmless(
    s: AggregatorView,
    es: Seq<EngineEvent>,
    e: EngineEvent,
    r: Option<ClusterFrame>,
    q: Option<ClusterFrame>,
)
    ensures
        s.window is None ==> s.after_event(EngineEvent::Partial) == s,
        s.window is Some ==> ({
            let n: int = if s.stays_open(es) {
                1
            } else {
                0
            };
            let plain = s.after_events(es);
            let extra = s.after_event(EngineEvent::Partial).after_events(es);
            &&& extra == plain.renumbered(n)
            &&& numbered_higher(r, q, n) ==> plain.answers(e, r) == extra.answers(e, q)
        }),
{
    if s.window is Some {
        lemma_renumbered_run(s, es);
    }
}

proof fn lemma_renumbered_run(s: AggregatorView, es: Seq<EngineEvent>)
    requires
        s.window is Some,
    ensures
        s.stays_open(es) ==> s.after_events(es).window is Some,
        s.after_frame().after_events(es) == s.after_events(es).renumbered(
            if s.stays_open(es) {
                1
            } else {
                0
            },
        ),
    decreases es.len(),
{
    if es.len() > 0 {
        lemma_renumbered_run(s, es.drop_last());
    }
}

/// After a flush that gave a snapshot nothing is held: another flush, a pulse and a snapshot give
/// nothing, the next trade is taken in whatever its time and gives nothing, and the next frame that
/// comes out is numbered 1. The key and the count of dropped trades are as before. A flush without
/// an open window changes nothing.
pub proof fn law_flush_starts_anew(
    s: AggregatorView,
    t: TradePrint,
    now_ns: i64,
    es: Seq<EngineEvent>,
    e: EngineEvent,
    frame: ClusterFrame,
)
    requires
        s.wf(),
    ensures
        s.window is None ==> s.after_event(EngineEvent::Closed) == s && s.answers(
            EngineEvent::Closed,
            None,
        ),
        s.window is Some ==> ({
            let z = s.after_event(EngineEvent::Closed);
            &&& z.wf()
            &&& z.key == s.key
            &&& z.dropped == s.dropped
            &&& z.answers(EngineEvent::Closed, None)
            &&& z.answers(EngineEvent::Tick(now_ns), None)
            &&& z.answers(EngineEvent::Partial, None)
            &&& z.answers(EngineEvent::Trade(t), None)
            &&& z.after_trade(t).dropped == s.dropped
            &&& z.after_trade(t).window == Some(s.window_of(t))
            &&& z.stays_quiet(es) && z.after_events(es).answers(e, Some(frame))
                ==> crate::types::frame_sequence(frame) == 1
        }),
{
    if s.window is Some {
        let z = s.after_event(EngineEvent::Closed);
        law_invariant_kept(s, t, now_ns);
        if z.stays_quiet(es) {
            lemma_quiet_run(z, es);
        }
    }
}

proof fn lemma_quiet_run(z: AggregatorView, es: Seq<EngineEvent>)
    requires
        z.stays_quiet(es),
    ensures
        z.after_events(es).sequence == z.sequence,
    decreases es.len(),
{
    if es.len() > 0 {
        lemma_quiet_run(z, es.drop_last());
    }
}

/// The trades of a row of events that are in the open window: those that came in, since the trades
/// last ended, in the latest window of all, in order.
pub open spec fn kept_trades(es: Seq<EngineEvent>, window_ns: int) -> Seq<TradePrint>
    decreases es.len(),
{
    if es.len() == 0 {
        Seq::empty()
    } else {
        let kept = kept_trades(es.drop_last(), window_ns);
        match es.last() {
            EngineEvent::Trade(t) => if kept.len() == 0 || start_of(t, window_ns) > start_of(
                kept.last(),
                window_ns,
            ) {
                seq![t]
            } else if start_of(t, window_ns) == start_of(kept.last(), window_ns) {
                kept.push(t)
            } else {
                kept
            },
            EngineEvent::Closed => Seq::empty(),
            _ => kept,
        }
    }
}

/// The start of the window that a trade's time lies in.
pub open spec fn start_of(t: TradePrint, window_ns: int) -> int {
    aligned(t.exchange_ts_ns as int, window_ns)
}

/// How many trades of a row of events came in behind a later window.
pub open spec fn late_trades(es: Seq<EngineEvent>, window_ns: int) -> nat
    decreases es.len(),
{
    if es.len() == 0 {
        0
    } else {
        let kept = kept_trades(es.drop_last(), window_ns);
        late_trades(es.drop_last(), window_ns) + (match es.last() {
            EngineEvent::Trade(t) => if kept.len() > 0 && start_of(t, window_ns) < start_of(
                kept.last(),
                window_ns,
            ) {
                1nat
            } else {
                0
            },
            _ => 0,
        })
    }
}

/// The trades of the open window that no diff has reported.
pub open spec fn unreported_trades(
    es: Seq<EngineEvent>,
    rs: Seq<Option<ClusterFrame>>,
    window_ns: int,
) -> Seq<TradePrint>
    decreases es.len(),
{
    if es.len() == 0 {
        Seq::empty()
    } else {
        let kept = kept_trades(es.drop_last(), window_ns);
        let open = unreported_trades(es.drop_last(), rs.drop_last(), window_ns);
        match es.last() {
            EngineEvent::Trade(t) => if kept.len() == 0 || start_of(t, window_ns) > start_of(
                kept.last(),
                window_ns,
            ) {
                seq![t]
            } else if start_of(t, window_ns) == start_of(kept.last(), window_ns) {
                open.push(t)
            } else {
                open
            },
            EngineEvent::Tick(_) => if rs.last() is Some {
                Seq::empty()
            } else {
                open
            },
            EngineEvent::Partial => open,
            EngineEvent::Closed => Seq::empty(),
        }
    }
}

/// A state that holds nothing.
pub open spec fn holds_nothing(s: AggregatorView) -> bool {
    s.wf() && s.window is None && s.open == 0 && s.dirty =~= Set::<i64>::empty()
}

/// What a price level of the open window has accumulated is the summed quantities and the number of
/// its trades.
pub open spec fn level_totals(ts: Seq<TradePrint>, step: int, p: i64) -> ClusterAccum {
    ClusterAccum {
        bid_qty: clamp_i64(side_sum(ts, AggressorSide::Bid, step, p)),
        ask_qty: clamp_i64(side_sum(ts, AggressorSide::Ask, step, p)),
        trades: if level_count(ts, step, p) > u32::MAX {
            u32::MAX
        } else {
            level_count(ts, step, p) as u32
        },
    }
}

/// Whatever events come, the state is that of the trades in the open window alone: a window is open
/// where there are any, it is the window of all of them, each price level holds the sums of the trades
/// on it, the open is the first price, the close the last, and the high and the low are the
/// extremes, whether the window was opened first, after an end of the trades or by a roll. Each
/// trade behind a later window is counted as dropped.
pub proof fn law_state_is_its_trades(s: AggregatorView, es: Seq<EngineEvent>, p: i64)
    requires
        holds_nothing(s),
    ensures
        ({
            let z = s.after_events(es);
            let ts = kept_trades(es, s.window_ns);
            &&& z.dropped == s.dropped + late_trades(es, s.window_ns)
            &&& z.window is Some <==> ts.len() > 0
            &&& forall|i: int|
                0 <= i < ts.len() ==> z.window->0 == start_of(#[trigger] ts[i], s.window_ns)
            &&& z.levels.contains_key(p) <==> level_count(ts, s.bucket_step, p) > 0
            &&& (forall|i: int| 0 <= i < ts.len() ==> (#[trigger] ts[i]).qty >= 0) && level_count(
                ts,
                s.bucket_step,
                p,
            ) > 0 ==> z.levels[p] == level_totals(ts, s.bucket_step, p)
            &&& (forall|i: int| 0 <= i < ts.len() ==> (#[trigger] ts[i]).price > 0) && ts.len() > 0
                ==> {
                &&& z.open == ts[0].price
                &&& z.close == ts.last().price
                &&& z.high == highest(ts)
                &&& z.low == lowest(ts)
            }
        }),
{
    lemma_state_is_its_trades(s, es, p);
}

/// Everything that is known of the trades of the open window.
pub open spec fn is_state_of(
    z: AggregatorView,
    ts: Seq<TradePrint>,
    window_ns: int,
    step: int,
    p: i64,
) -> bool {
    let n = level_count(ts, step, p);
    let bid = side_sum(ts, AggressorSide::Bid, step, p);
    let ask = side_sum(ts, AggressorSide::Ask, step, p);
    &&& z.window_ns == window_ns
    &&& z.bucket_step == step
    &&& z.window is Some <==> ts.len() > 0
    &&& forall|i: int| 0 <= i < ts.len() ==> z.window->0 == start_of(#[trigger] ts[i], window_ns)
    &&& ts.len() == 0 ==> z.open == 0 && !z.levels.contains_key(p)
    &&& n == 0 ==> bid == 0 && ask == 0
    &&& z.levels.contains_key(p) <==> n > 0
    &&& (forall|i: int| 0 <= i < ts.len() ==> (#[trigger] ts[i]).qty >= 0) ==> bid >= 0 && ask >= 0
        && (n > 0 ==> z.levels[p] == level_totals(ts, step, p))
    &&& (forall|i: int| 0 <= i < ts.len() ==> (#[trigger] ts[i]).price > 0) && ts.len() > 0 ==> {
        &&& z.open == ts[0].price
        &&& z.close == ts.last().price
        &&& z.high == highest(ts)
        &&& z.low == lowest(ts)
    }
}

proof fn lemma_state_is_its_trades(s: AggregatorView, es: Seq<EngineEvent>, p: i64)
    requires
        holds_nothing(s),
    ensures
        s.after_events(es).wf(),
        s.after_events(es).dropped == s.dropped + late_trades(es, s.window_ns),
        is_state_of(
            s.after_events(es),
            kept_trades(es, s.window_ns),
            s.window_ns,
            s.bucket_step,
            p,
        ),
    decreases es.len(),
{
    law_events_keep_invariant(s, es);
    if es.len() == 0 {
        lemma_no_window_no_levels(s);
    } else {
        let init = es.drop_last();
        let before = s.after_events(init);
        let kept = kept_trades(init, s.window_ns);
        lemma_state_is_its_trades(s, init, p);
        match es.last() {
            EngineEvent::Trade(t) => {
                lemma_aligned(t.exchange_ts_ns as int, s.window_ns);
                lemma_aligned(t.price as int, s.bucket_step);
                if kept.len() > 0 {
                    assert(kept[kept.len() - 1] == kept.last());
                }
                let one = seq![t];
                assert(one.drop_last() =~= Seq::<TradePrint>::empty());
                if kept.len() == 0 {
                    lemma_counted(before, Seq::empty(), t, s.window_ns, s.bucket_step, p);
                    assert(Seq::<TradePrint>::empty().push(t) =~= one);
                    assert(kept =~= Seq::<TradePrint>::empty());
                } else if before.rolls(t) {
                    assert(before.emptied().wf()) by {
                        law_invariant_kept(before, t, 0);
                    }
                    lemma_counted(before.emptied(), Seq::empty(), t, s.window_ns, s.bucket_step, p);
                    assert(Seq::<TradePrint>::empty().push(t) =~= one);
                } else if !before.is_late(t) {
                    lemma_counted(before, kept, t, s.window_ns, s.bucket_step, p);
                }
            },
            EngineEvent::Closed => {
                assert(kept_trades(es, s.window_ns) =~= Seq::<TradePrint>::empty());
                if before.window is None {
                    assert(kept =~= Seq::<TradePrint>::empty());
                }
            },
            _ => {},
        }
    }
}

proof fn lemma_counted(
    z: AggregatorView,
    ts: Seq<TradePrint>,
    t: TradePrint,
    window_ns: int,
    step: int,
    p: i64,
)
    requires
        z.wf(),
        is_state_of(z, ts, window_ns, step, p),
        ts.len() > 0 ==> z.window->0 == z.window_of(t),
    ensures
        is_state_of(z.counted(t), ts.push(t), window_ns, step, p),
{
    let all = ts.push(t);
    assert(all.drop_last() =~= ts);
    assert(all.last() == t);
    lemma_aligned(t.exchange_ts_ns as int, window_ns);
    lemma_aligned(t.price as int, step);
    assert forall|i: int| 0 <= i < all.len() implies z.counted(t).window->0 == start_of(
        #[trigger] all[i],
        window_ns,
    ) by {
        if i < ts.len() {
            assert(all[i] == ts[i]);
        }
    }
    if forall|i: int| 0 <= i < all.len() ==> (#[trigger] all[i]).qty >= 0 {
        assert forall|i: int| 0 <= i < ts.len() implies (#[trigger] ts[i]).qty >= 0 by {
            assert(all[i] == ts[i]);
        }
        assert(all[ts.len() as int] == t);
    }
    if forall|i: int| 0 <= i < all.len() ==> (#[trigger] all[i]).price > 0 {
        assert forall|i: int| 0 <= i < ts.len() implies (#[trigger] ts[i]).price > 0 by {
            assert(all[i] == ts[i]);
        }
        assert(all[ts.len() as int] == t);
        if ts.len() > 0 {
            assert(all[0] == ts[0]);
            assert(ts[0].price > 0);
        }
    }
}

/// From any state with an open window, a row of trades that all lie in one later window leaves a state
/// of these trades alone: nothing of the window before is left in its levels or its prices.
pub proof fn law_roll_starts_anew(
    s: AggregatorView,
    ts: Seq<TradePrint>,
    w: i64,
    p: i64,
)
    requires
        s.wf(),
        s.window is Some,
        ts.len() > 0,
        in_window(s, ts, w),
        w > s.window->0,
        forall|i: int| 0 <= i < ts.len() ==> (#[trigger] ts[i]).qty >= 0 && ts[i].price > 0,
    ensures
        ({
            let z = s.after_trades(ts);
            &&& z.window == Some(w)
            &&& z.dropped == s.dropped
            &&& z.open == ts[0].price
            &&& z.close == ts.last().price
            &&& z.high == highest(ts)
            &&& z.low == lowest(ts)
            &&& z.levels.contains_key(p) <==> level_count(ts, s.bucket_step, p) > 0
            &&& level_count(ts, s.bucket_step, p) > 0 ==> z.levels[p] == level_totals(
                ts,
                s.bucket_step,
                p,
            )
        }),
{
    lemma_roll(s, ts, w, p);
}

proof fn lemma_roll(s: AggregatorView, ts: Seq<TradePrint>, w: i64, p: i64)
    requires
        s.wf(),
        s.window is Some,
        ts.len() > 0,
        in_window(s, ts, w),
        w > s.window->0,
    ensures
        s.after_trades(ts).wf(),
        s.after_trades(ts).dropped == s.dropped,
        s.after_trades(ts).window == Some(w),
        is_state_of(s.after_trades(ts), ts, s.window_ns, s.bucket_step, p),
    decreases ts.len(),
{
    let init = ts.drop_last();
    let t = ts.last();
    assert(t == ts[ts.len() - 1]);
    lemma_aligned(t.exchange_ts_ns as int, s.window_ns);
    if init.len() == 0 {
        assert(s.after_trades(init) == s);
        law_invariant_kept(s, t, 0);
        assert(s.rolls(t));
        lemma_counted(s.emptied(), Seq::empty(), t, s.window_ns, s.bucket_step, p);
        assert(Seq::<TradePrint>::empty().push(t) =~= ts);
    } else {
        assert forall|i: int| 0 <= i < init.len() implies s.window_of(#[trigger] init[i]) == w by {
            assert(init[i] == ts[i]);
        }
        lemma_roll(s, init, w, p);
        let before = s.after_trades(init);
        law_invariant_kept(before, t, 0);
        lemma_counted(before, init, t, s.window_ns, s.bucket_step, p);
        assert(init.push(t) =~= ts);
    }
}

/// The frame that an event brings out reports the trades of the open window: each bucket the sums and
/// the number of the trades on its price level, and a snapshot every level that has trades, the
/// first and the last price, and the extremes.
pub proof fn law_frames_report_the_trades(
    s: AggregatorView,
    es: Seq<EngineEvent>,
    e: EngineEvent,
    frame: ClusterFrame,
    i: int,
    p: i64,
)
    requires
        holds_nothing(s),
        s.after_events(es).answers(e, Some(frame)),
        ({
            let ts = kept_trades(es, s.window_ns);
            forall|k: int| 0 <= k < ts.len() ==> (#[trigger] ts[k]).qty >= 0 && ts[k].price > 0
        }),
    ensures
        ({
            let ts = kept_trades(es, s.window_ns);
            &&& ts.len() > 0
            &&& match frame {
                ClusterFrame::Snapshot(f) => {
                    &&& f.window_start_ns == start_of(ts[0], s.window_ns)
                    &&& f.open == ts[0].price
                    &&& f.close == ts.last().price
                    &&& f.high == highest(ts)
                    &&& f.low == lowest(ts)
                    &&& 0 <= i < f.clusters@.len() ==> reports(f.clusters@[i], ts, s.bucket_step)
                    &&& level_count(ts, s.bucket_step, p) > 0 ==> exists|j: int|
                        0 <= j < f.clusters@.len() && (#[trigger] f.clusters@[j]).price == p
                },
                ClusterFrame::Diff(f) => {
                    &&& f.window_start_ns == start_of(ts[0], s.window_ns)
                    &&& 0 <= i < f.upserts@.len() ==> reports(f.upserts@[i], ts, s.bucket_step)
                    &&& f.removes@.len() == 0
                },
            }
        }),
{
    let z = s.after_events(es);
    let ts = kept_trades(es, s.window_ns);
    lemma_state_is_its_trades(s, es, p);
    match frame {
        ClusterFrame::Snapshot(f) => {
            if 0 <= i < f.clusters@.len() {
                lemma_state_is_its_trades(s, es, f.clusters@[i].price);
            }
            if level_count(ts, s.bucket_step, p) > 0 {
                assert(f.clusters@.contains(bucket_at(p, z.levels[p])));
                let j = f.clusters@.index_of(bucket_at(p, z.levels[p]));
                assert(f.clusters@[j].price == p);
            }
        },
        ClusterFrame::Diff(f) => {
            if 0 <= i < f.upserts@.len() {
                lemma_state_is_its_trades(s, es, f.upserts@[i].price);
                assert(z.levels.restrict(z.dirty).contains_key(f.upserts@[i].price));
            }
        },
    }
}

/// The bucket holds what the trades on its price level come to, and there are some.
pub open spec fn reports(b: ClusterBucket, ts: Seq<TradePrint>, step: int) -> bool {
    let n = level_count(ts, step, b.price);
    &&& n > 0
    &&& b.bid_qty == clamp_i64(side_sum(ts, AggressorSide::Bid, step, b.price))
    &&& b.ask_qty == clamp_i64(side_sum(ts, AggressorSide::Ask, step, b.price))
    &&& b.trades == (if n > u32::MAX {
        u32::MAX as nat
    } else {
        n
    })
}

/// A diff reports exactly the price levels that have a trade which no diff of the window reported
/// before.
pub proof fn law_diff_reports_what_changed(
    s: AggregatorView,
    es: Seq<EngineEvent>,
    rs: Seq<Option<ClusterFrame>>,
    now_ns: i64,
    frame: ClusterFrame,
    p: i64,
)
    requires
        holds_nothing(s),
        s.answers_all(es, rs),
        s.after_events(es).answers(EngineEvent::Tick(now_ns), Some(frame)),
    ensures
        frame is Diff,
        (exists|j: int|
            0 <= j < frame->Diff_0.upserts@.len() && (#[trigger] frame->Diff_0.upserts@[j]).price
                == p) <==> level_count(unreported_trades(es, rs, s.window_ns), s.bucket_step, p) > 0,
{
    let z = s.after_events(es);
    lemma_dirty(s, es, rs, p);
    law_events_keep_invariant(s, es);
    let list = frame->Diff_0.upserts@;
    let changed = z.levels.restrict(z.dirty);
    if z.dirty.contains(p) {
        assert(changed.contains_key(p));
        assert(list.contains(bucket_at(p, changed[p])));
        let j = list.index_of(bucket_at(p, changed[p]));
        assert(list[j].price == p);
    }
    if exists|j: int| 0 <= j < list.len() && (#[trigger] list[j]).price == p {
        let j = choose|j: int| 0 <= j < list.len() && (#[trigger] list[j]).price == p;
        assert(changed.contains_key(list[j].price));
    }
}

proof fn lemma_dirty(
    s: AggregatorView,
    es: Seq<EngineEvent>,
    rs: Seq<Option<ClusterFrame>>,
    p: i64,
)
    requires
        holds_nothing(s),
        s.answers_all(es, rs),
    ensures
        s.after_events(es).dirty.contains(p) <==> level_count(
            unreported_trades(es, rs, s.window_ns),
            s.bucket_step,
            p,
        ) > 0,
    decreases es.len(),
{
    if es.len() > 0 {
        let init = es.drop_last();
        let before = s.after_events(init);
        let kept = kept_trades(init, s.window_ns);
        let open = unreported_trades(init, rs.drop_last(), s.window_ns);
        lemma_dirty(s, init, rs.drop_last(), p);
        lemma_state_is_its_trades(s, init, p);
        match es.last() {
            EngineEvent::Trade(t) => {
                lemma_aligned(t.exchange_ts_ns as int, s.window_ns);
                lemma_aligned(t.price as int, s.bucket_step);
                if kept.len() > 0 {
                    assert(kept[kept.len() - 1] == kept.last());
                }
                assert(seq![t].drop_last() =~= Seq::<TradePrint>::empty());
                assert(level_count(seq![t].drop_last(), s.bucket_step, p) == 0);
                assert(open.push(t).drop_last() =~= open);
                if kept.len() == 0 {
                    lemma_no_window_no_levels(before);
                }
            },
            EngineEvent::Closed => {
                if before.window is None {
                    lemma_no_window_no_levels(before);
                }
            },
            _ => {},
        }
    }
}

/// Behind a diff the next one is owed as soon as a trade was counted and the interval is over, and
/// not before.
pub proof fn law_diff_cadence(s: AggregatorView, t: TradePrint, then_ns: i64, now_ns: i64)
    requires
        s.wf(),
        s.window is Some,
        !s.rolls(t),
        i64::MIN <= now_ns - then_ns <= i64::MAX,
    ensures
        s.after_diff(then_ns).after_trade(t).diff_due(now_ns) <==> !s.is_late(t) && now_ns - then_ns
            >= s.diff_interval_ns,
{
    let z = s.after_diff(then_ns);
    let after = z.after_trade(t);
    if !z.is_late(t) {
        assert(after.dirty.contains(s.level_of(t)));
        assert(after.dirty =~= Set::<i64>::empty().insert(s.level_of(t)));
    }
}

/// A roll and an end of the trades leave nothing behind but the count of dropped trades: from there on
/// the state is that of a new aggregator with the same settings.
pub proof fn law_nothing_is_carried_over(s: AggregatorView, t: TradePrint)
    ensures
        ({
            let new = new_state(s.key, s.bucket_step, s.window_ns, s.diff_interval_ns);
            &&& s.rolls(t) ==> s.after_trade(t) == (AggregatorView {
                dropped: s.dropped,
                ..new.after_trade(t)
            })
            &&& s.window is Some ==> s.after_event(EngineEvent::Closed) == (AggregatorView {
                dropped: s.dropped,
                ..new
            })
        }),
{
    let new = new_state(s.key, s.bucket_step, s.window_ns, s.diff_interval_ns);
    assert(s.emptied() == (AggregatorView { dropped: s.dropped, ..new }));
}

} // verus!
