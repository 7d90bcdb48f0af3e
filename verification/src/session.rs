//! What a streaming session does with what it reads: which instrument a frame is for, which trades
//! it holds, and what is counted.

use vstd::prelude::*;
use vstd::string::*;

use crate::binance::futures_trade::{event_symbol, message_trade, BinanceFuturesTradeParser};
use crate::bingx::bingx_trade::{bingx_trades, data_symbol, BingxTradeParser};
use crate::bitget::bitget_trade::{bitget_trades, channel_symbol, BitgetTradeParser};
use crate::bybit::bybit_trade::{bybit_trades, topic_symbol, BybitTradeParser};
use crate::hyperliquid::hyperliquid_trade::{first_coin, hyperliquid_trades, HyperliquidTradeParser};
use crate::hyperliquid::native::{native_of, NativeCoins};
use crate::json::{json_document, parse_json, Json, JsonView};
use crate::text::{
    ascii_upper, is_listed, same_text, text_of, to_ascii_uppercase, to_uppercase, trim_front,
    trim_start, upper, views,
};
use crate::trade::trades_outcome;
use crate::traits::{ErrorView, ExchangeError};
use crate::types::{spec_views, SpecView, SymbolSpec, TradePrint};

verus! {

/// What a session has counted.
#[derive(Debug, Clone, Copy, PartialEq, Eq, Structural)]
pub struct SessionStats {
    pub trades_emitted: u64,
    pub trades_dropped_backpressure: u64,
    pub trades_dropped_closed: u64,
    pub parse_errors: u64,
    pub frames_undecodable: u64,
    pub pongs_sent: u64,
}

impl Default for SessionStats {
    fn default() -> (r: SessionStats)
        ensures
            r == no_stats(),
    {
        SessionStats {
            trades_emitted: 0,
            trades_dropped_backpressure: 0,
            trades_dropped_closed: 0,
            parse_errors: 0,
            frames_undecodable: 0,
            pongs_sent: 0,
        }
    }
}

pub open spec fn no_stats() -> SessionStats {
    SessionStats {
        trades_emitted: 0,
        trades_dropped_backpressure: 0,
        trades_dropped_closed: 0,
        parse_errors: 0,
        frames_undecodable: 0,
        pongs_sent: 0,
    }
}

/// What became of a trade that was handed to its aggregator.
#[derive(Debug, Clone, Copy, PartialEq, Eq, Structural)]
pub enum SendOutcome {
    Sent,
    /// The aggregator lags behind.
    Full,
    /// The aggregator is gone.
    Closed,
}

/// The counters after one more trade.
pub open spec fn counted_send(s: SessionStats, outcome: SendOutcome) -> SessionStats {
    match outcome {
        SendOutcome::Sent => SessionStats { trades_emitted: (s.trades_emitted + 1) as u64, ..s },
        SendOutcome::Full => SessionStats {
            trades_dropped_backpressure: (s.trades_dropped_backpressure + 1) as u64,
            ..s
        },
        SendOutcome::Closed => SessionStats {
            trades_dropped_closed: (s.trades_dropped_closed + 1) as u64,
            ..s
        },
    }
}

/// Every counter can take one more.
pub open spec fn has_room(s: SessionStats) -> bool {
    &&& s.trades_emitted < u64::MAX
    &&& s.trades_dropped_backpressure < u64::MAX
    &&& s.trades_dropped_closed < u64::MAX
    &&& s.parse_errors < u64::MAX
    &&& s.frames_undecodable < u64::MAX
    &&& s.pongs_sent < u64::MAX
}

impl SessionStats {
    /// Counts a trade that was handed over.
    pub fn record_send(&mut self, outcome: SendOutcome)
        requires
            has_room(*old(self)),
        ensures
            *final(self) == counted_send(*old(self), outcome),
    {
        match outcome {
            SendOutcome::Sent => {
                self.trades_emitted = self.trades_emitted + 1;
            },
            SendOutcome::Full => {
                self.trades_dropped_backpressure = self.trades_dropped_backpressure + 1;
            },
            SendOutcome::Closed => {
                self.trades_dropped_closed = self.trades_dropped_closed + 1;
            },
        }
    }

    /// Counts a pong, or a ping of the client's own.
    pub fn record_pong(&mut self)
        requires
            has_room(*old(self)),
        ensures
            *final(self) == (SessionStats {
                pongs_sent: (old(self).pongs_sent + 1) as u64,
                ..*old(self)
            }),
    {
        self.pongs_sent = self.pongs_sent + 1;
    }

    /// Whether every counter can take one more.
    pub fn room(&self) -> (r: bool)
        ensures
            r == has_room(*self),
    {
        self.trades_emitted < u64::MAX && self.trades_dropped_backpressure < u64::MAX
            && self.trades_dropped_closed < u64::MAX && self.parse_errors < u64::MAX
            && self.frames_undecodable < u64::MAX && self.pongs_sent < u64::MAX
    }
}

/// Each trade that is handed over counts exactly once, as emitted or as dropped.
pub proof fn law_sends_count_once(s: SessionStats, outcome: SendOutcome)
    requires
        has_room(s),
    ensures
        ({
            let t = counted_send(s, outcome);
            t.trades_emitted + t.trades_dropped_backpressure + t.trades_dropped_closed
                == s.trades_emitted + s.trades_dropped_backpressure + s.trades_dropped_closed + 1
        }),
{
}

/// The instruments of a session, each under the key that its frames carry.
pub struct Routing {
    pub keys: Vec<String>,
    pub specs: Vec<SymbolSpec>,
}

/// The index of the last key that is equal to `key`.
pub open spec fn last_index(keys: Seq<Seq<char>>, key: Seq<char>) -> Option<int>
    decreases keys.len(),
{
    if keys.len() == 0 {
        None
    } else if keys.last() == key {
        Some(keys.len() - 1)
    } else {
        last_index(keys.drop_last(), key)
    }
}

/// The position of the instrument of a frame, where it carries a key that is there.
pub open spec fn route_for(keys: Seq<Seq<char>>, key: Option<Seq<char>>) -> Option<int> {
    match key {
        Some(k) => last_index(keys, k),
        None => None,
    }
}

/// `last_index` finds a key that is there, and only one that is equal.
pub proof fn lemma_last_index(keys: Seq<Seq<char>>, key: Seq<char>)
    ensures
        last_index(keys, key) is Some <==> keys.contains(key),
        last_index(keys, key) is Some ==> 0 <= last_index(keys, key)->0 < keys.len()
            && keys[last_index(keys, key)->0] == key,
    decreases keys.len(),
{
    if keys.len() > 0 {
        if keys.last() == key {
            assert(keys[keys.len() - 1] == key);
        } else {
            let init = keys.drop_last();
            lemma_last_index(init, key);
            if keys.contains(key) {
                let i = keys.index_of(key);
                assert(init[i] == key);
            }
            if init.contains(key) {
                let i = init.index_of(key);
                assert(keys[i] == key);
            }
        }
    }
}

impl Routing {
    /// One key for each instrument.
    pub open spec fn wf(&self) -> bool {
        self.keys@.len() == self.specs@.len()
    }

    /// The position of the instrument under a key; of two under one key, the later.
    pub fn find(&self, key: &str) -> (r: Option<usize>)
        ensures
            (match r {
                Some(i) => Some(i as int),
                None => None,
            }) == last_index(views(self.keys@), key@),
            r is Some ==> r->0 < self.keys@.len(),
    {
        let ghost all = views(self.keys@);
        let mut n: usize = self.keys.len();
        assert(all.take(n as int) =~= all);
        while n > 0
            invariant
                n <= self.keys@.len(),
                all == views(self.keys@),
                last_index(all, key@) == last_index(all.take(n as int), key@),
            decreases n,
        {
            assert(all.take(n as int).last() == self.keys@[n - 1]@);
            assert(all.take(n as int).drop_last() =~= all.take(n as int - 1));
            if same_text(self.keys[n - 1].as_str(), key) {
                return Some(n - 1);
            }
            n = n - 1;
        }
        None
    }

    /// The position of the instrument of a frame that carries `key`.
    pub fn route_of(&self, key: Option<&str>) -> (r: Option<usize>)
        ensures
            (match r {
                Some(i) => Some(i as int),
                None => None,
            }) == route_for(views(self.keys@), crate::json::found_text(key)),
            r is Some ==> r->0 < self.keys@.len(),
    {
        match key {
            Some(k) => self.find(k),
            None => None,
        }
    }

    /// The keys in order of first appearance, each once.
    pub fn distinct_keys(&self) -> (r: Vec<String>)
        ensures
            views(r@) == distinct(views(self.keys@)),
    {
        let ghost all = views(self.keys@);
        let mut out: Vec<String> = Vec::new();
        let mut i: usize = 0;
        assert(views(out@) =~= Seq::<Seq<char>>::empty());
        while i < self.keys.len()
            invariant
                i <= self.keys@.len(),
                all == views(self.keys@),
                views(out@) == distinct(all.take(i as int)),
            decreases self.keys@.len() - i,
        {
            let key = self.keys[i].as_str();
            let ghost before = views(out@);
            assert(all.take(i as int + 1).drop_last() =~= all.take(i as int));
            assert(all.take(i as int + 1).last() == key@);
            if !is_listed(&out, key) {
                out.push(self.keys[i].clone());
                assert(views(out@) =~= before.push(key@));
            }
            i = i + 1;
        }
        assert(all.take(i as int) =~= all);
        out
    }
}

/// The texts in order of first appearance, each once.
pub open spec fn distinct(keys: Seq<Seq<char>>) -> Seq<Seq<char>>
    decreases keys.len(),
{
    if keys.len() == 0 {
        Seq::empty()
    } else {
        let before = distinct(keys.drop_last());
        if before.contains(keys.last()) {
            before
        } else {
            before.push(keys.last())
        }
    }
}

/// Each key is subscribed to once, and none is left out.
pub proof fn law_distinct_keys(keys: Seq<Seq<char>>)
    ensures
        distinct(keys).no_duplicates(),
        forall|k: Seq<char>| distinct(keys).contains(k) <==> keys.contains(k),
    decreases keys.len(),
{
    if keys.len() > 0 {
        let init = keys.drop_last();
        law_distinct_keys(init);
        assert(keys =~= init.push(keys.last()));
        assert forall|k: Seq<char>| distinct(keys).contains(k) <==> keys.contains(k) by {
            lemma_push_contains(init, keys.last(), k);
            lemma_push_contains(distinct(init), keys.last(), k);
        }
    }
}

proof fn lemma_push_contains(s: Seq<Seq<char>>, x: Seq<char>, k: Seq<char>)
    ensures
        s.push(x).contains(k) <==> s.contains(k) || x == k,
{
    if s.contains(k) {
        let i = s.index_of(k);
        assert(s.push(x)[i] == k);
    }
    if x == k {
        assert(s.push(x)[s.len() as int] == k);
    }
    if s.push(x).contains(k) {
        let i = s.push(x).index_of(k);
        if i < s.len() {
            assert(s[i] == k);
        }
    }
}

/// The keys of a row of instruments by a rule.
pub open spec fn keys_by(specs: Seq<SpecView>, rule: spec_fn(Seq<char>) -> Seq<char>) -> Seq<
    Seq<char>,
> {
    specs.map_values(|s: SpecView| rule(s.symbol))
}

/// Routes by keys that are given, one for each instrument.
pub fn route_by_keys(specs: Vec<SymbolSpec>, keys: Vec<String>) -> (r: Routing)
    requires
        specs@.len() == keys@.len(),
    ensures
        r.wf(),
        r.specs@ == specs@,
        r.keys@ == keys@,
{
    Routing { keys, specs }
}

/// Routes by the symbol in ASCII uppercase.
pub fn route_by_ascii_upper(specs: Vec<SymbolSpec>) -> (r: Routing)
    ensures
        r.wf(),
        r.specs@ == specs@,
        views(r.keys@) == keys_by(spec_views(specs@), |s: Seq<char>| ascii_upper(s)),
{
    let mut keys: Vec<String> = Vec::new();
    let mut i: usize = 0;
    while i < specs.len()
        invariant
            i <= specs@.len(),
            keys@.len() == i,
            forall|k: int| 0 <= k < i ==> (#[trigger] keys@[k])@ == ascii_upper(specs@[k].symbol@),
        decreases specs@.len() - i,
    {
        keys.push(to_ascii_uppercase(specs[i].symbol.as_str()));
        i = i + 1;
    }
    assert(views(keys@) =~= keys_by(spec_views(specs@), |s: Seq<char>| ascii_upper(s)));
    Routing { keys, specs }
}

/// Routes by the symbol in uppercase.
pub fn route_by_upper(specs: Vec<SymbolSpec>) -> (r: Routing)
    ensures
        r.wf(),
        r.specs@ == specs@,
        views(r.keys@) == keys_by(spec_views(specs@), |s: Seq<char>| upper(s)),
{
    let mut keys: Vec<String> = Vec::new();
    let mut i: usize = 0;
    while i < specs.len()
        invariant
            i <= specs@.len(),
            keys@.len() == i,
            forall|k: int| 0 <= k < i ==> (#[trigger] keys@[k])@ == upper(specs@[k].symbol@),
        decreases specs@.len() - i,
    {
        keys.push(to_uppercase(specs[i].symbol.as_str()));
        i = i + 1;
    }
    assert(views(keys@) =~= keys_by(spec_views(specs@), |s: Seq<char>| upper(s)));
    Routing { keys, specs }
}

/// Routes by the coin of the symbol.
pub fn route_by_native(specs: Vec<SymbolSpec>, natives: &NativeCoins) -> (r: Routing)
    ensures
        r.wf(),
        r.specs@ == specs@,
        views(r.keys@) == keys_by(spec_views(specs@), |s: Seq<char>| native_of(natives@, s)),
{
    let mut keys: Vec<String> = Vec::new();
    let mut i: usize = 0;
    while i < specs.len()
        invariant
            i <= specs@.len(),
            keys@.len() == i,
            forall|k: int|
                0 <= k < i ==> (#[trigger] keys@[k])@ == native_of(natives@, specs@[k].symbol@),
        decreases specs@.len() - i,
    {
        keys.push(natives.get_native(specs[i].symbol.as_str()));
        i = i + 1;
    }
    assert(views(keys@) =~= keys_by(spec_views(specs@), |s: Seq<char>| native_of(natives@, s)));
    Routing { keys, specs }
}

/// How a venue's frames name an instrument and hold its trades.
pub trait FrameParser {
    /// The key of the instrument that a frame of trades is for.
    spec fn key_view(&self, v: JsonView) -> Option<Seq<char>>;

    /// The trades of a frame.
    spec fn trades_view(&self, v: JsonView, spec: SpecView) -> Result<Seq<TradePrint>, ErrorView>;

    fn key(&self, v: &Json) -> (r: Option<String>)
        ensures
            (match r {
                Some(k) => Some(k@),
                None => None,
            }) == self.key_view(v@),
    ;

    fn trades(&self, v: &Json, spec: &SymbolSpec) -> (r: Result<Vec<TradePrint>, ExchangeError>)
        ensures
            trades_outcome(r) == self.trades_view(v@, spec@),
    ;
}

/// The symbol of an `aggTrade` frame in ASCII uppercase.
pub open spec fn binance_key(v: JsonView) -> Option<Seq<char>> {
    match event_symbol(v) {
        Some(s) => Some(ascii_upper(s)),
        None => None,
    }
}

/// The trade of an `aggTrade` frame, as a row of at most one.
pub open spec fn binance_trades(v: JsonView, spec: SpecView) -> Result<Seq<TradePrint>, ErrorView> {
    match message_trade(v, spec) {
        Ok(Some(t)) => Ok(seq![t]),
        Ok(None) => Ok(Seq::empty()),
        Err(e) => Err(e),
    }
}

impl FrameParser for BinanceFuturesTradeParser {
    open spec fn key_view(&self, v: JsonView) -> Option<Seq<char>> {
        binance_key(v)
    }

    open spec fn trades_view(&self, v: JsonView, spec: SpecView) -> Result<
        Seq<TradePrint>,
        ErrorView,
    > {
        binance_trades(v, spec)
    }

    fn key(&self, v: &Json) -> (r: Option<String>) {
        match self.peek_symbol(v) {
            Some(s) => Some(to_ascii_uppercase(s)),
            None => None,
        }
    }

    fn trades(&self, v: &Json, spec: &SymbolSpec) -> (r: Result<Vec<TradePrint>, ExchangeError>) {
        match self.parse_value(v, spec) {
            Ok(Some(t)) => {
                let mut out: Vec<TradePrint> = Vec::new();
                out.push(t);
                assert(out@ =~= seq![t]);
                Ok(out)
            },
            Ok(None) => Ok(Vec::new()),
            Err(e) => Err(e),
        }
    }
}

/// The symbol of a Bybit frame in ASCII uppercase.
pub open spec fn bybit_key(v: JsonView) -> Option<Seq<char>> {
    match topic_symbol(v) {
        Some(s) => Some(ascii_upper(s)),
        None => None,
    }
}

impl FrameParser for BybitTradeParser {
    open spec fn key_view(&self, v: JsonView) -> Option<Seq<char>> {
        bybit_key(v)
    }

    open spec fn trades_view(&self, v: JsonView, spec: SpecView) -> Result<
        Seq<TradePrint>,
        ErrorView,
    > {
        bybit_trades(v, spec)
    }

    fn key(&self, v: &Json) -> (r: Option<String>) {
        match self.peek_symbol(v) {
            Some(s) => Some(to_ascii_uppercase(s)),
            None => None,
        }
    }

    fn trades(&self, v: &Json, spec: &SymbolSpec) -> (r: Result<Vec<TradePrint>, ExchangeError>) {
        self.parse_value(v, spec)
    }
}

impl FrameParser for BitgetTradeParser {
    open spec fn key_view(&self, v: JsonView) -> Option<Seq<char>> {
        channel_symbol(v)
    }

    open spec fn trades_view(&self, v: JsonView, spec: SpecView) -> Result<
        Seq<TradePrint>,
        ErrorView,
    > {
        bitget_trades(v, spec)
    }

    fn key(&self, v: &Json) -> (r: Option<String>) {
        self.peek_symbol(v)
    }

    fn trades(&self, v: &Json, spec: &SymbolSpec) -> (r: Result<Vec<TradePrint>, ExchangeError>) {
        self.parse_value(v, spec)
    }
}

impl FrameParser for BingxTradeParser {
    open spec fn key_view(&self, v: JsonView) -> Option<Seq<char>> {
        data_symbol(v)
    }

    open spec fn trades_view(&self, v: JsonView, spec: SpecView) -> Result<
        Seq<TradePrint>,
        ErrorView,
    > {
        bingx_trades(v, spec)
    }

    fn key(&self, v: &Json) -> (r: Option<String>) {
        self.peek_symbol(v)
    }

    fn trades(&self, v: &Json, spec: &SymbolSpec) -> (r: Result<Vec<TradePrint>, ExchangeError>) {
        self.parse_value(v, spec)
    }
}

impl FrameParser for HyperliquidTradeParser {
    open spec fn key_view(&self, v: JsonView) -> Option<Seq<char>> {
        first_coin(v)
    }

    open spec fn trades_view(&self, v: JsonView, spec: SpecView) -> Result<
        Seq<TradePrint>,
        ErrorView,
    > {
        hyperliquid_trades(v, spec)
    }

    fn key(&self, v: &Json) -> (r: Option<String>) {
        match self.peek_symbol(v) {
            Some(s) => Some(s.to_owned()),
            None => None,
        }
    }

    fn trades(&self, v: &Json, spec: &SymbolSpec) -> (r: Result<Vec<TradePrint>, ExchangeError>) {
        self.parse_value(v, spec)
    }
}

/// What a frame comes to.
pub enum Delivery {
    /// The frame is no JSON.
    Undecodable,
    /// The frame holds no trades, or trades of an instrument that is not subscribed to.
    Ignored,
    /// The trades of the frame cannot be read.
    Unparsed(ExchangeError),
    /// Trades for the instrument at position `route`.
    Trades { route: usize, trades: Vec<TradePrint> },
}

/// What a `Delivery` says.
pub enum DeliveryView {
    Undecodable,
    Ignored,
    Unparsed(ErrorView),
    Trades { route: int, trades: Seq<TradePrint> },
}

impl View for Delivery {
    type V = DeliveryView;

    open spec fn view(&self) -> DeliveryView {
        match self {
            Delivery::Undecodable => DeliveryView::Undecodable,
            Delivery::Ignored => DeliveryView::Ignored,
            Delivery::Unparsed(e) => DeliveryView::Unparsed(e@),
            Delivery::Trades { route, trades } => DeliveryView::Trades {
                route: *route as int,
                trades: trades@,
            },
        }
    }
}

/// What a document comes to, given the key that it carries and how its trades are read.
pub open spec fn delivered(
    keys: Seq<Seq<char>>,
    specs: Seq<SpecView>,
    key: Option<Seq<char>>,
    trades: spec_fn(SpecView) -> Result<Seq<TradePrint>, ErrorView>,
) -> DeliveryView {
    match key {
        None => DeliveryView::Ignored,
        Some(k) => match last_index(keys, k) {
            None => DeliveryView::Ignored,
            Some(i) => match trades(specs[i]) {
                Ok(ts) => DeliveryView::Trades { route: i, trades: ts },
                Err(e) => DeliveryView::Unparsed(e),
            },
        },
    }
}

/// The counters after a frame that came to `d`.
pub open spec fn counted_frame(s: SessionStats, d: DeliveryView) -> SessionStats {
    match d {
        DeliveryView::Undecodable => SessionStats {
            frames_undecodable: (s.frames_undecodable + 1) as u64,
            ..s
        },
        DeliveryView::Unparsed(_) => SessionStats { parse_errors: (s.parse_errors + 1) as u64, ..s },
        _ => s,
    }
}

/// What a document comes to.
pub open spec fn document_delivery<P: FrameParser>(
    parser: P,
    routing: Routing,
    v: JsonView,
) -> DeliveryView {
    delivered(
        views(routing.keys@),
        spec_views(routing.specs@),
        parser.key_view(v),
        |s: SpecView| parser.trades_view(v, s),
    )
}

/// Finds the instrument of a document and reads its trades.
pub fn deliver<P: FrameParser>(parser: &P, routing: &Routing, v: &Json) -> (r: Delivery)
    requires
        routing.wf(),
    ensures
        r@ == document_delivery(*parser, *routing, v@),
{
    let key = match parser.key(v) {
        Some(k) => k,
        None => {
            return Delivery::Ignored;
        },
    };
    match routing.find(key.as_str()) {
        None => Delivery::Ignored,
        Some(i) => {
            assert(spec_views(routing.specs@)[i as int] == routing.specs@[i as int]@);
            match parser.trades(v, &routing.specs[i]) {
                Ok(trades) => Delivery::Trades { route: i, trades },
                Err(e) => Delivery::Unparsed(e),
            }
        },
    }
}

/// What the trades of the instrument at `route` come to, once they were read.
pub open spec fn read_outcome(
    route: int,
    read: Result<Seq<TradePrint>, ErrorView>,
) -> DeliveryView {
    match read {
        Ok(trades) => DeliveryView::Trades { route, trades },
        Err(e) => DeliveryView::Unparsed(e),
    }
}

/// Delivers trades that were read for the instrument at `route`, and counts the frame.
pub fn deliver_read(
    route: usize,
    read: Result<Vec<TradePrint>, ExchangeError>,
    stats: &mut SessionStats,
) -> (r: Delivery)
    requires
        has_room(*old(stats)),
    ensures
        r@ == read_outcome(route as int, trades_outcome(read)),
        *final(stats) == counted_frame(*old(stats), r@),
{
    let d = match read {
        Ok(trades) => Delivery::Trades { route, trades },
        Err(e) => Delivery::Unparsed(e),
    };
    stats.record_frame(&d);
    d
}

/// Finding the instrument first and reading its trades afterwards comes to the same as both at
/// once.
pub proof fn law_two_steps_deliver(
    keys: Seq<Seq<char>>,
    specs: Seq<SpecView>,
    key: Option<Seq<char>>,
    trades: spec_fn(SpecView) -> Result<Seq<TradePrint>, ErrorView>,
)
    requires
        keys.len() == specs.len(),
    ensures
        delivered(keys, specs, key, trades) == match route_for(keys, key) {
            None => DeliveryView::Ignored,
            Some(i) => read_outcome(i, trades(specs[i])),
        },
{
}

/// What a frame comes to.
pub open spec fn frame_delivery<P: FrameParser>(
    parser: P,
    routing: Routing,
    doc: Result<JsonView, Seq<char>>,
) -> DeliveryView {
    match doc {
        Ok(v) => document_delivery(parser, routing, v),
        Err(_) => DeliveryView::Undecodable,
    }
}

impl SessionStats {
    /// Counts a frame.
    pub fn record_frame(&mut self, d: &Delivery)
        requires
            has_room(*old(self)),
        ensures
            *final(self) == counted_frame(*old(self), d@),
    {
        match d {
            Delivery::Undecodable => {
                self.frames_undecodable = self.frames_undecodable + 1;
            },
            Delivery::Unparsed(_) => {
                self.parse_errors = self.parse_errors + 1;
            },
            _ => {},
        }
    }
}

/// Reads one frame and counts it. The trades that come back are to be handed to the instrument at
/// `route`.
pub fn handle_payload<P: FrameParser>(
    parser: &P,
    routing: &Routing,
    raw: &[u8],
    stats: &mut SessionStats,
) -> (r: Delivery)
    requires
        routing.wf(),
        has_room(*old(stats)),
    ensures
        r@ == frame_delivery(*parser, *routing, json_document(raw@)),
        *final(stats) == counted_frame(*old(stats), r@),
{
    let d = match parse_json(raw) {
        Ok(v) => deliver(parser, routing, &v),
        Err(_) => Delivery::Undecodable,
    };
    stats.record_frame(&d);
    d
}

/// Reads one text frame of Bitget, which answers pings with the bare text "pong".
pub fn handle_bitget_text(
    parser: &BitgetTradeParser,
    routing: &Routing,
    text: &str,
    stats: &mut SessionStats,
) -> (r: Delivery)
    requires
        routing.wf(),
        has_room(*old(stats)),
    ensures
        r@ == (if text@ == "pong"@ {
            DeliveryView::Ignored
        } else {
            frame_delivery(*parser, *routing, json_document(text.spec_bytes()))
        }),
        *final(stats) == counted_frame(*old(stats), r@),
{
    if same_text(text, "pong") {
        return Delivery::Ignored;
    }
    handle_payload(parser, routing, text.as_bytes(), stats)
}

/// Trades go to the instrument whose key the frame carries.
pub proof fn law_trades_reach_their_instrument<P: FrameParser>(
    parser: P,
    routing: Routing,
    v: JsonView,
)
    requires
        routing.wf(),
        document_delivery(parser, routing, v) is Trades,
    ensures
        ({
            let i = document_delivery(parser, routing, v)->route;
            &&& 0 <= i < routing.specs@.len()
            &&& parser.key_view(v) == Some(routing.keys@[i]@)
            &&& parser.trades_view(v, routing.specs@[i]@) == Ok::<Seq<TradePrint>, ErrorView>(
                document_delivery(parser, routing, v)->trades,
            )
        }),
{
    lemma_last_index(views(routing.keys@), parser.key_view(v)->0);
}

/// What `flate2` makes of gzip-compressed bytes: the text, or nothing where they are no gzip stream
/// of UTF-8.
pub uninterp spec fn inflated(data: Seq<u8>) -> Option<Seq<char>>;

/// `flate2::read::GzDecoder` read to its end as UTF-8: the outcome depends on the bytes alone.
#[verifier::external_body]
fn inflate(data: &[u8]) -> (r: Option<String>)
    ensures
        inflated(data@) == match r {
            Some(t) => Some(t@),
            None => None,
        },
{
    let mut text = String::new();
    let mut decoder = flate2::read::GzDecoder::new(data);
    std::io::Read::read_to_string(&mut decoder, &mut text).ok().map(|_| text)
}

/// What a frame of BingX comes to: a heartbeat to answer, or a delivery.
pub enum BingxFrame {
    Pong(String),
    Data(Delivery),
}

/// What a `BingxFrame` says.
pub enum BingxFrameView {
    Pong(Seq<char>),
    Data(DeliveryView),
}

impl View for BingxFrame {
    type V = BingxFrameView;

    open spec fn view(&self) -> BingxFrameView {
        match self {
            BingxFrame::Pong(t) => BingxFrameView::Pong(t@),
            BingxFrame::Data(d) => BingxFrameView::Data(d@),
        }
    }
}

/// The answer to a heartbeat.
pub open spec fn pong_text(ping: Seq<char>, time: Option<Seq<char>>) -> Seq<char> {
    match time {
        Some(t) => "{\"pong\":\""@ + ping + "\",\"time\":\""@ + t + "\"}"@,
        None => "{\"pong\":\""@ + ping + "\"}"@,
    }
}

/// What a document of BingX comes to.
pub open spec fn bingx_document(routing: Routing, v: JsonView) -> BingxFrameView {
    match v.text_of("ping"@) {
        Some(ping) => BingxFrameView::Pong(pong_text(ping, v.text_of("time"@))),
        None => BingxFrameView::Data(document_delivery(BingxTradeParser, routing, v)),
    }
}

/// What a frame of BingX comes to.
pub open spec fn bingx_frame(routing: Routing, doc: Result<JsonView, Seq<char>>) -> BingxFrameView {
    match doc {
        Ok(v) => bingx_document(routing, v),
        Err(_) => BingxFrameView::Data(DeliveryView::Undecodable),
    }
}

/// The counters after a frame of BingX.
pub open spec fn counted_bingx(s: SessionStats, f: BingxFrameView) -> SessionStats {
    match f {
        BingxFrameView::Pong(_) => s,
        BingxFrameView::Data(d) => counted_frame(s, d),
    }
}

/// Answers a heartbeat, or finds the instrument of a document and reads its trades.
pub fn deliver_bingx(parser: &BingxTradeParser, routing: &Routing, v: &Json) -> (r: BingxFrame)
    requires
        routing.wf(),
    ensures
        r@ == bingx_document(*routing, v@),
{
    match v.text_at("ping") {
        Some(ping) => {
            let head = "{\"pong\":\"".to_owned().concat(ping);
            match v.text_at("time") {
                Some(t) => BingxFrame::Pong(head.concat("\",\"time\":\"").concat(t).concat("\"}")),
                None => BingxFrame::Pong(head.concat("\"}")),
            }
        },
        None => BingxFrame::Data(deliver(parser, routing, v)),
    }
}

/// Reads one inflated frame of BingX and counts it.
pub fn process_frame(
    parser: &BingxTradeParser,
    routing: &Routing,
    text: &str,
    stats: &mut SessionStats,
) -> (r: BingxFrame)
    requires
        routing.wf(),
        has_room(*old(stats)),
    ensures
        r@ == bingx_frame(
            *routing,
            json_document(vstd::utf8::encode_utf8(trim_front(text@))),
        ),
        *final(stats) == counted_bingx(*old(stats), r@),
{
    let body = text_of(&trim_start(text));
    let frame = match parse_json(body.as_str().as_bytes()) {
        Ok(v) => deliver_bingx(parser, routing, &v),
        Err(_) => BingxFrame::Data(Delivery::Undecodable),
    };
    match &frame {
        BingxFrame::Pong(_) => {},
        BingxFrame::Data(d) => {
            stats.record_frame(d);
        },
    }
    frame
}

/// Reads one compressed frame of BingX and counts it.
pub fn process_binary(
    parser: &BingxTradeParser,
    routing: &Routing,
    data: &[u8],
    stats: &mut SessionStats,
) -> (r: BingxFrame)
    requires
        routing.wf(),
        has_room(*old(stats)),
    ensures
        r@ == (match inflated(data@) {
            Some(text) => bingx_frame(
                *routing,
                json_document(vstd::utf8::encode_utf8(trim_front(text))),
            ),
            None => BingxFrameView::Data(DeliveryView::Undecodable),
        }),
        *final(stats) == counted_bingx(*old(stats), r@),
{
    match inflate(data) {
        Some(text) => process_frame(parser, routing, text.as_str(), stats),
        None => {
            let d = Delivery::Undecodable;
            stats.record_frame(&d);
            BingxFrame::Data(d)
        },
    }
}

/// Why reading from a connection failed.
#[derive(Debug, Clone, Copy, PartialEq, Eq, Structural)]
pub enum WsFault {
    ConnectionClosed,
    AlreadyClosed,
    Io(IoFault),
    Other,
}

/// The kind of an I/O failure.
#[derive(Debug, Clone, Copy, PartialEq, Eq, Structural)]
pub enum IoFault {
    ConnectionReset,
    ConnectionAborted,
    UnexpectedEof,
    BrokenPipe,
    Other,
}

/// The peer hung up, which calls for a reconnect and is no failure.
pub open spec fn hung_up(e: WsFault) -> bool {
    match e {
        WsFault::ConnectionClosed => true,
        WsFault::AlreadyClosed => true,
        WsFault::Io(io) => io != IoFault::Other,
        WsFault::Other => false,
    }
}

/// Whether a failure only says that the peer hung up.
pub fn is_soft_close(e: WsFault) -> (r: bool)
    ensures
        r == hung_up(e),
{
    match e {
        WsFault::ConnectionClosed => true,
        WsFault::AlreadyClosed => true,
        WsFault::Io(io) => io != IoFault::Other,
        WsFault::Other => false,
    }
}

/// What a connection delivers next.
#[derive(Debug, Clone, Copy, PartialEq, Eq, Structural)]
pub enum Incoming {
    End,
    Text,
    Binary,
    Ping,
    Pong,
    Close,
    Fault(WsFault),
}

/// What a session does next.
#[derive(Debug, Clone, Copy, PartialEq, Eq, Structural)]
pub enum Step {
    Handle,
    AnswerPing,
    Wait,
    Stop,
    Fail,
}

/// The step that what came in calls for.
pub open spec fn step_for(incoming: Incoming) -> Step {
    match incoming {
        Incoming::End => Step::Stop,
        Incoming::Text => Step::Handle,
        Incoming::Binary => Step::Handle,
        Incoming::Ping => Step::AnswerPing,
        Incoming::Pong => Step::Wait,
        Incoming::Close => Step::Stop,
        Incoming::Fault(e) => if hung_up(e) {
            Step::Stop
        } else {
            Step::Fail
        },
    }
}

/// Decides what a session does next.
pub fn next_step(incoming: Incoming) -> (r: Step)
    ensures
        r == step_for(incoming),
{
    match incoming {
        Incoming::End => Step::Stop,
        Incoming::Text => Step::Handle,
        Incoming::Binary => Step::Handle,
        Incoming::Ping => Step::AnswerPing,
        Incoming::Pong => Step::Wait,
        Incoming::Close => Step::Stop,
        Incoming::Fault(e) => if is_soft_close(e) {
            Step::Stop
        } else {
            Step::Fail
        },
    }
}

/// Each outcome of a send has its own counter, which goes up by one, and no other counter changes.
pub proof fn law_each_outcome_has_its_counter(s: SessionStats, outcome: SendOutcome)
    requires
        has_room(s),
    ensures
        ({
            let t = counted_send(s, outcome);
            &&& t.trades_emitted == s.trades_emitted + (if outcome == SendOutcome::Sent {
                1int
            } else {
                0
            })
            &&& t.trades_dropped_backpressure == s.trades_dropped_backpressure + (if outcome
                == SendOutcome::Full {
                1int
            } else {
                0
            })
            &&& t.trades_dropped_closed == s.trades_dropped_closed + (if outcome
                == SendOutcome::Closed {
                1int
            } else {
                0
            })
            &&& (t.parse_errors, t.frames_undecodable, t.pongs_sent) == (
                s.parse_errors,
                s.frames_undecodable,
                s.pongs_sent,
            )
        }),
{
}

/// A frame that is no JSON and one whose trades cannot be read are counted, each by its own counter;
/// any other frame changes no counter.
pub proof fn law_faulty_frames_are_counted(s: SessionStats, d: DeliveryView)
    requires
        has_room(s),
    ensures
        ({
            let t = counted_frame(s, d);
            &&& t.frames_undecodable == s.frames_undecodable + (if d is Undecodable {
                1int
            } else {
                0
            })
            &&& t.parse_errors == s.parse_errors + (if d is Unparsed {
                1int
            } else {
                0
            })
            &&& (t.trades_emitted, t.trades_dropped_backpressure, t.trades_dropped_closed, t.pongs_sent)
                == (
                s.trades_emitted,
                s.trades_dropped_backpressure,
                s.trades_dropped_closed,
                s.pongs_sent,
            )
        }),
{
}

/// A frame is passed over exactly where it carries no key or one that no instrument has. Otherwise
/// it is read as a frame of the last instrument with that key: its trades are delivered there, or
/// the reason why they cannot be read comes back.
pub proof fn law_frames_are_routed(
    keys: Seq<Seq<char>>,
    specs: Seq<SpecView>,
    key: Option<Seq<char>>,
    trades: spec_fn(SpecView) -> Result<Seq<TradePrint>, ErrorView>,
    i: int,
)
    requires
        keys.len() == specs.len(),
    ensures
        delivered(keys, specs, key, trades) is Ignored <==> key is None || !keys.contains(key->0),
        !(delivered(keys, specs, key, trades) is Undecodable),
        0 <= i < keys.len() && key == Some(keys[i]) && (forall|j: int|
            i < j < keys.len() ==> #[trigger] keys[j] != keys[i]) ==> match trades(specs[i]) {
            Ok(ts) => delivered(keys, specs, key, trades) == (DeliveryView::Trades {
                route: i,
                trades: ts,
            }),
            Err(e) => delivered(keys, specs, key, trades) == DeliveryView::Unparsed(e),
        },
{
    match key {
        Some(k) => {
            lemma_last_index(keys, k);
            if 0 <= i < keys.len() && k == keys[i] && (forall|j: int|
                i < j < keys.len() ==> #[trigger] keys[j] != keys[i]) {
                lemma_last_of(keys, i);
            }
        },
        None => {},
    }
}

proof fn lemma_last_of(keys: Seq<Seq<char>>, i: int)
    requires
        0 <= i < keys.len(),
        forall|j: int| i < j < keys.len() ==> #[trigger] keys[j] != keys[i],
    ensures
        last_index(keys, keys[i]) == Some(i),
    decreases keys.len(),
{
    if i < keys.len() - 1 {
        let init = keys.drop_last();
        assert(keys[keys.len() - 1] != keys[i]);
        assert(init[i] == keys[i]);
        assert forall|j: int| i < j < init.len() implies #[trigger] init[j] != init[i] by {
            assert(init[j] == keys[j]);
        }
        lemma_last_of(init, i);
    }
}

/// Where instruments are routed by their symbols in uppercase, a frame of Binance that names one of
/// them, in any case of letters, is routed to an instrument of that name.
pub proof fn law_case_does_not_matter(specs: Seq<SpecView>, v: JsonView, i: int)
    requires
        0 <= i < specs.len(),
        event_symbol(v) is Some,
        ascii_upper(event_symbol(v)->0) == ascii_upper(specs[i].symbol),
    ensures
        ({
            let keys = keys_by(specs, |s: Seq<char>| ascii_upper(s));
            let r = route_for(keys, binance_key(v));
            &&& r is Some
            &&& 0 <= r->0 < specs.len()
            &&& ascii_upper(specs[r->0].symbol) == ascii_upper(specs[i].symbol)
        }),
{
    let keys = keys_by(specs, |s: Seq<char>| ascii_upper(s));
    assert(keys[i] == ascii_upper(specs[i].symbol));
    lemma_last_index(keys, ascii_upper(specs[i].symbol));
}

/// A heartbeat is answered with what it said, and with its time where it had one; a frame without
/// one is read as data.
pub proof fn law_heartbeats_are_answered(routing: Routing, v: JsonView, ping: Seq<char>, t: Seq<char>)
    ensures
        v.text_of("ping"@) == Some(ping) && v.text_of("time"@) == Some(t) ==> bingx_document(
            routing,
            v,
        ) == BingxFrameView::Pong("{\"pong\":\""@ + ping + "\",\"time\":\""@ + t + "\"}"@),
        v.text_of("ping"@) == Some(ping) && v.text_of("time"@) is None ==> bingx_document(
            routing,
            v,
        ) == BingxFrameView::Pong("{\"pong\":\""@ + ping + "\"}"@),
        v.text_of("ping"@) is None ==> bingx_document(routing, v) is Data,
{
}

/// Every message with a payload is handled and every ping answered. A session ends in peace exactly
/// where the other side closed or hung up, and fails on every other fault.
pub proof fn law_no_message_is_passed_over(incoming: Incoming)
    ensures
        step_for(incoming) == Step::Handle <==> incoming is Text || incoming is Binary,
        step_for(incoming) == Step::AnswerPing <==> incoming is Ping,
        step_for(incoming) == Step::Wait <==> incoming is Pong,
        step_for(incoming) == Step::Fail <==> incoming is Fault && (incoming->Fault_0 is Other
            || incoming->Fault_0 == WsFault::Io(IoFault::Other)),
{
}

/// A message of Binance gives its one trade, or none.
pub proof fn law_one_message_one_trade(v: JsonView, spec: SpecView, t: TradePrint)
    ensures
        message_trade(v, spec) == Ok::<Option<TradePrint>, ErrorView>(Some(t)) ==> binance_trades(
            v,
            spec,
        ) == Ok::<Seq<TradePrint>, ErrorView>(seq![t]),
        message_trade(v, spec) == Ok::<Option<TradePrint>, ErrorView>(None) ==> binance_trades(
            v,
            spec,
        ) == Ok::<Seq<TradePrint>, ErrorView>(Seq::empty()),
        message_trade(v, spec) is Err ==> binance_trades(v, spec) is Err,
{
}

/// A frame that is no JSON is told apart from one that is, and one that is comes to what its document comes
/// to.
pub proof fn law_frames_come_to_their_documents<P: FrameParser>(
    parser: P,
    routing: Routing,
    doc: Result<JsonView, Seq<char>>,
)
    ensures
        doc is Err <==> frame_delivery(parser, routing, doc) is Undecodable,
        doc is Ok ==> frame_delivery(parser, routing, doc) == delivered(
            views(routing.keys@),
            spec_views(routing.specs@),
            parser.key_view(doc->Ok_0),
            |s: SpecView| parser.trades_view(doc->Ok_0, s),
        ),
{
}

/// A frame of BingX is counted as any other, but for a heartbeat, which is not counted.
pub proof fn law_bingx_frames(routing: Routing, doc: Result<JsonView, Seq<char>>, s: SessionStats)
    ensures
        ({
            let f = bingx_frame(routing, doc);
            &&& doc is Err ==> f == BingxFrameView::Data(DeliveryView::Undecodable)
            &&& f is Pong <==> doc is Ok && doc->Ok_0.text_of("ping"@) is Some
            &&& doc is Ok && doc->Ok_0.text_of("ping"@) is None ==> f == BingxFrameView::Data(
                document_delivery(BingxTradeParser, routing, doc->Ok_0),
            )
            &&& f is Pong ==> counted_bingx(s, f) == s
            &&& f is Data ==> counted_bingx(s, f) == counted_frame(s, f->Data_0)
        }),
{
}

/// A message of Bybit carries the symbol of its topic, in uppercase.
pub proof fn law_bybit_key(v: JsonView, symbol: Seq<char>)
    ensures
        v.text_of("topic"@) == Some("publicTrade."@ + symbol) ==> bybit_key(v) == Some(
            ascii_upper(symbol),
        ),
        v.text_of("topic"@) is None ==> bybit_key(v) is None,
{
    crate::bybit::bybit_trade::law_topic_names_its_symbol(v, symbol);
}

/// A message of Binance carries the symbol of its trade, in uppercase; no other message carries one.
pub proof fn law_binance_key(v: JsonView, d: JsonView, symbol: Seq<char>)
    requires
        v.member("data"@) == Some(d) || (v.member("data"@) is None && d == v),
    ensures
        d.text_of("e"@) == Some("aggTrade"@) && d.text_of("s"@) == Some(symbol) ==> binance_key(v)
            == Some(ascii_upper(symbol)),
        d.text_of("e"@) != Some("aggTrade"@) || d.text_of("s"@) is None ==> binance_key(v) is None,
{
}

/// Each venue's frames carry the symbol that its messages name, and give all the trades that its messages
/// hold.
pub proof fn law_each_venue_reads_its_own(v: JsonView, spec: SpecView)
    ensures
        BinanceFuturesTradeParser.key_view(v) == binance_key(v),
        BinanceFuturesTradeParser.trades_view(v, spec) == binance_trades(v, spec),
        BybitTradeParser.key_view(v) == bybit_key(v),
        BybitTradeParser.trades_view(v, spec) == bybit_trades(v, spec),
        BitgetTradeParser.key_view(v) == channel_symbol(v),
        BitgetTradeParser.trades_view(v, spec) == bitget_trades(v, spec),
        BingxTradeParser.key_view(v) == data_symbol(v),
        BingxTradeParser.trades_view(v, spec) == bingx_trades(v, spec),
        HyperliquidTradeParser.key_view(v) == first_coin(v),
        HyperliquidTradeParser.trades_view(v, spec) == hyperliquid_trades(v, spec),
{
}

} // verus!
