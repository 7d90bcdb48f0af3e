//! Instruments, trades and footprint frames.

use std::sync::Arc;

use vstd::prelude::*;
use vstd::string::*;

use crate::text::same_text;

verus! {

/// A venue, spot and derivatives markets apart.
#[derive(Debug, Clone, Copy, PartialEq, Eq, Hash, Structural)]
pub enum Exchange {
    Binance,
    BinanceF,
    Bybit,
    BybitF,
    Bitget,
    BitgetF,
    Okx,
    OkxF,
    Hyperliquid,
    Kucoin,
    KucoinF,
    Gate,
    GateF,
    Aster,
    AsterF,
    Bingx,
    BingxF,
}

/// The identifier of a venue in stored rows and on the wire.
pub open spec fn wire_name(e: Exchange) -> Seq<char> {
    match e {
        Exchange::Binance => "BINANCE"@,
        Exchange::BinanceF => "BINANCEF"@,
        Exchange::Bybit => "BYBIT"@,
        Exchange::BybitF => "BYBITF"@,
        Exchange::Bitget => "BITGET"@,
        Exchange::BitgetF => "BITGETF"@,
        Exchange::Okx => "OKX"@,
        Exchange::OkxF => "OKXF"@,
        Exchange::Hyperliquid => "HYPERLIQUID"@,
        Exchange::Kucoin => "KUCOIN"@,
        Exchange::KucoinF => "KUCOINF"@,
        Exchange::Gate => "GATE"@,
        Exchange::GateF => "GATEF"@,
        Exchange::Aster => "ASTER"@,
        Exchange::AsterF => "ASTERF"@,
        Exchange::Bingx => "BINGX"@,
        Exchange::BingxF => "BINGXF"@,
    }
}

/// Whether a venue trades derivatives.
pub open spec fn trades_futures(e: Exchange) -> bool {
    match e {
        Exchange::BinanceF => true,
        Exchange::BybitF => true,
        Exchange::BitgetF => true,
        Exchange::OkxF => true,
        Exchange::Hyperliquid => true,
        Exchange::KucoinF => true,
        Exchange::GateF => true,
        Exchange::AsterF => true,
        Exchange::BingxF => true,
        _ => false,
    }
}

impl Exchange {
    pub fn wire_id(self) -> (r: &'static str)
        ensures
            r@ == wire_name(self),
    {
        match self {
            Exchange::Binance => "BINANCE",
            Exchange::BinanceF => "BINANCEF",
            Exchange::Bybit => "BYBIT",
            Exchange::BybitF => "BYBITF",
            Exchange::Bitget => "BITGET",
            Exchange::BitgetF => "BITGETF",
            Exchange::Okx => "OKX",
            Exchange::OkxF => "OKXF",
            Exchange::Hyperliquid => "HYPERLIQUID",
            Exchange::Kucoin => "KUCOIN",
            Exchange::KucoinF => "KUCOINF",
            Exchange::Gate => "GATE",
            Exchange::GateF => "GATEF",
            Exchange::Aster => "ASTER",
            Exchange::AsterF => "ASTERF",
            Exchange::Bingx => "BINGX",
            Exchange::BingxF => "BINGXF",
        }
    }

    pub fn is_futures(self) -> (r: bool)
        ensures
            r == trades_futures(self),
    {
        match self {
            Exchange::BinanceF => true,
            Exchange::BybitF => true,
            Exchange::BitgetF => true,
            Exchange::OkxF => true,
            Exchange::Hyperliquid => true,
            Exchange::KucoinF => true,
            Exchange::GateF => true,
            Exchange::AsterF => true,
            Exchange::BingxF => true,
            _ => false,
        }
    }
}

#[derive(Debug, Clone, Copy, PartialEq, Eq, Hash, Structural)]
pub enum MarketType {
    Spot,
    Perp,
}

#[derive(Debug, Clone, Copy, PartialEq, Eq, Hash, Structural)]
pub enum Quote {
    Usdt,
    Usdc,
}

/// The direction of the aggressor: `Bid` bought (lifted the ask), `Ask` sold (hit the bid).
#[derive(Debug, Clone, Copy, PartialEq, Eq, Structural)]
pub enum AggressorSide {
    Bid,
    Ask,
}

/// A listed instrument. `tick_size` is scaled by `10^price_scale`, `step_size` by
/// `10^qty_scale`.
#[derive(Debug)]
pub struct SymbolSpec {
    pub exchange: Exchange,
    pub market_type: MarketType,
    pub quote: Quote,
    pub symbol: String,
    pub price_scale: u8,
    pub qty_scale: u8,
    pub tick_size: i64,
    pub step_size: i64,
}

/// What a `SymbolSpec` says, its symbol as a sequence of characters.
pub struct SpecView {
    pub exchange: Exchange,
    pub market_type: MarketType,
    pub quote: Quote,
    pub symbol: Seq<char>,
    pub price_scale: u8,
    pub qty_scale: u8,
    pub tick_size: i64,
    pub step_size: i64,
}

impl View for SymbolSpec {
    type V = SpecView;

    open spec fn view(&self) -> SpecView {
        SpecView {
            exchange: self.exchange,
            market_type: self.market_type,
            quote: self.quote,
            symbol: self.symbol@,
            price_scale: self.price_scale,
            qty_scale: self.qty_scale,
            tick_size: self.tick_size,
            step_size: self.step_size,
        }
    }
}

/// The views of a sequence of specs.
pub open spec fn spec_views(s: Seq<SymbolSpec>) -> Seq<SpecView> {
    s.map_values(|x: SymbolSpec| x@)
}

impl Clone for SymbolSpec {
    fn clone(&self) -> (r: SymbolSpec)
        ensures
            r@ == self@,
    {
        SymbolSpec {
            exchange: self.exchange,
            market_type: self.market_type,
            quote: self.quote,
            symbol: self.symbol.clone(),
            price_scale: self.price_scale,
            qty_scale: self.qty_scale,
            tick_size: self.tick_size,
            step_size: self.step_size,
        }
    }
}

/// One executed trade, price and quantity scaled to integers.
#[derive(Debug, Clone, Copy, PartialEq, Eq, Structural)]
pub struct TradePrint {
    pub exchange_ts_ns: i64,
    pub aggressor: AggressorSide,
    pub price: i64,
    pub qty: i64,
    pub trade_id: u64,
}

/// One footprint bucket: one price level within one time window.
#[derive(Debug, Clone, Copy, PartialEq, Eq, Structural)]
pub struct ClusterBucket {
    pub price: i64,
    pub bid_qty: i64,
    pub ask_qty: i64,
    pub trades: u32,
}

/// The identity of a subscribed instrument, cheap to clone.
#[derive(Debug, PartialEq, Eq, Hash)]
pub struct SymbolKey {
    pub exchange: Exchange,
    pub market_type: MarketType,
    pub symbol: Arc<str>,
}

/// What a `SymbolKey` says.
pub struct KeyView {
    pub exchange: Exchange,
    pub market_type: MarketType,
    pub symbol: Seq<char>,
}

impl View for SymbolKey {
    type V = KeyView;

    open spec fn view(&self) -> KeyView {
        KeyView {
            exchange: self.exchange,
            market_type: self.market_type,
            symbol: self.symbol@,
        }
    }
}

/// `Arc::<str>::from`: a shared copy of the text.
#[verifier::external_body]
fn shared_text(s: &str) -> (r: Arc<str>)
    ensures
        r@ == s@,
{
    Arc::from(s)
}

impl SymbolKey {
    pub fn new(exchange: Exchange, market_type: MarketType, symbol: &str) -> (r: SymbolKey)
        ensures
            r@ == (KeyView { exchange, market_type, symbol: symbol@ }),
    {
        SymbolKey { exchange, market_type, symbol: shared_text(symbol) }
    }

    /// Whether two keys name the same instrument.
    pub fn same_as(&self, other: &SymbolKey) -> (r: bool)
        ensures
            r == (self@ == other@),
    {
        self.exchange == other.exchange && self.market_type == other.market_type && same_text(
            &self.symbol,
            &other.symbol,
        )
    }
}

impl Clone for SymbolKey {
    fn clone(&self) -> (r: SymbolKey)
        ensures
            r@ == self@,
    {
        SymbolKey {
            exchange: self.exchange,
            market_type: self.market_type,
            symbol: self.symbol.clone(),
        }
    }
}

/// One broadcast stream: an instrument at one bar length.
#[derive(Debug, PartialEq, Eq, Hash)]
pub struct StreamKey {
    pub symbol: SymbolKey,
    pub interval_seconds: u32,
}

impl StreamKey {
    pub fn new(symbol: SymbolKey, interval_seconds: u32) -> (r: StreamKey)
        ensures
            r.symbol == symbol,
            r.interval_seconds == interval_seconds,
    {
        StreamKey { symbol, interval_seconds }
    }
}

impl Clone for StreamKey {
    fn clone(&self) -> (r: StreamKey)
        ensures
            r.symbol@ == self.symbol@,
            r.interval_seconds == self.interval_seconds,
    {
        StreamKey { symbol: self.symbol.clone(), interval_seconds: self.interval_seconds }
    }
}

/// Full state of one time window of one instrument.
#[derive(Debug, Clone)]
pub struct AnalyticsSnapshot {
    pub window_start_ns: i64,
    pub sequence: i64,
    pub clusters: Vec<ClusterBucket>,
    pub open: i64,
    pub close: i64,
    pub high: i64,
    pub low: i64,
}

impl Default for AnalyticsSnapshot {
    fn default() -> (r: AnalyticsSnapshot)
        ensures
            r.window_start_ns == 0,
            r.sequence == 0,
            r.clusters@ == Seq::<ClusterBucket>::empty(),
            r.open == 0,
            r.close == 0,
            r.high == 0,
            r.low == 0,
    {
        AnalyticsSnapshot {
            window_start_ns: 0,
            sequence: 0,
            clusters: Vec::new(),
            open: 0,
            close: 0,
            high: 0,
            low: 0,
        }
    }
}

/// Change since the last frame of the same window.
#[derive(Debug, Clone)]
pub struct AnalyticsDiff {
    pub window_start_ns: i64,
    pub sequence: i64,
    pub upserts: Vec<ClusterBucket>,
    pub removes: Vec<i64>,
}

/// Unit of broadcast, shared so that a fan-out does not copy its buckets.
#[derive(Debug, Clone)]
pub enum ClusterFrame {
    Snapshot(Arc<AnalyticsSnapshot>),
    Diff(Arc<AnalyticsDiff>),
}

/// The sequence number of a frame.
pub open spec fn frame_sequence(f: ClusterFrame) -> i64 {
    match f {
        ClusterFrame::Snapshot(s) => s.sequence,
        ClusterFrame::Diff(d) => d.sequence,
    }
}

impl ClusterFrame {
    pub fn sequence(&self) -> (r: i64)
        ensures
            r == frame_sequence(*self),
    {
        match self {
            ClusterFrame::Snapshot(s) => s.sequence,
            ClusterFrame::Diff(d) => d.sequence,
        }
    }
}

/// Different venues have different identifiers.
pub proof fn law_wire_names_are_distinct(a: Exchange, b: Exchange)
    requires
        a != b,
    ensures
        wire_name(a) != wire_name(b),
{
    reveal_strlit("BINANCE");
    reveal_strlit("BINANCEF");
    reveal_strlit("BYBIT");
    reveal_strlit("BYBITF");
    reveal_strlit("BITGET");
    reveal_strlit("BITGETF");
    reveal_strlit("OKX");
    reveal_strlit("OKXF");
    reveal_strlit("HYPERLIQUID");
    reveal_strlit("KUCOIN");
    reveal_strlit("KUCOINF");
    reveal_strlit("GATE");
    reveal_strlit("GATEF");
    reveal_strlit("ASTER");
    reveal_strlit("ASTERF");
    reveal_strlit("BINGX");
    reveal_strlit("BINGXF");
    assert("BINANCE"@.len() == 7);
    assert("BINANCEF"@.len() == 8);
    assert("BYBIT"@.len() == 5);
    assert("BYBITF"@.len() == 6);
    assert("BITGET"@.len() == 6);
    assert("BITGETF"@.len() == 7);
    assert("OKX"@.len() == 3);
    assert("OKXF"@.len() == 4);
    assert("HYPERLIQUID"@.len() == 11);
    assert("KUCOIN"@.len() == 6);
    assert("KUCOINF"@.len() == 7);
    assert("GATE"@.len() == 4);
    assert("GATEF"@.len() == 5);
    assert("ASTER"@.len() == 5);
    assert("ASTERF"@.len() == 6);
    assert("BINGX"@.len() == 5);
    assert("BINGXF"@.len() == 6);
    assert("BINANCE"@[2] != "BITGETF"@[2]);
    assert("BINANCE"@[0] != "KUCOINF"@[0]);
    assert("BYBIT"@[0] != "GATEF"@[0]);
    assert("BYBIT"@[0] != "ASTER"@[0]);
    assert("BYBIT"@[1] != "BINGX"@[1]);
    assert("BYBITF"@[1] != "BITGET"@[1]);
    assert("BYBITF"@[0] != "KUCOIN"@[0]);
    assert("BYBITF"@[0] != "ASTERF"@[0]);
    assert("BYBITF"@[1] != "BINGXF"@[1]);
    assert("BITGET"@[0] != "KUCOIN"@[0]);
    assert("BITGET"@[0] != "ASTERF"@[0]);
    assert("BITGET"@[2] != "BINGXF"@[2]);
    assert("BITGETF"@[0] != "KUCOINF"@[0]);
    assert("OKXF"@[0] != "GATE"@[0]);
    assert("KUCOIN"@[0] != "ASTERF"@[0]);
    assert("KUCOIN"@[0] != "BINGXF"@[0]);
    assert("GATEF"@[0] != "ASTER"@[0]);
    assert("GATEF"@[0] != "BINGX"@[0]);
    assert("ASTER"@[0] != "BINGX"@[0]);
    assert("ASTERF"@[0] != "BINGXF"@[0]);
}

/// The futures side of a venue is named after its spot side, with an "F" behind, and is the one that
/// trades futures.
pub proof fn law_futures_names()
    ensures
        wire_name(Exchange::BinanceF) == wire_name(Exchange::Binance) + "F"@,
        wire_name(Exchange::BybitF) == wire_name(Exchange::Bybit) + "F"@,
        wire_name(Exchange::BitgetF) == wire_name(Exchange::Bitget) + "F"@,
        wire_name(Exchange::OkxF) == wire_name(Exchange::Okx) + "F"@,
        wire_name(Exchange::KucoinF) == wire_name(Exchange::Kucoin) + "F"@,
        wire_name(Exchange::GateF) == wire_name(Exchange::Gate) + "F"@,
        wire_name(Exchange::AsterF) == wire_name(Exchange::Aster) + "F"@,
        wire_name(Exchange::BingxF) == wire_name(Exchange::Bingx) + "F"@,
        forall|e: Exchange| #[trigger]
            trades_futures(e) <==> e == Exchange::Hyperliquid || wire_name(e).last() == 'F',
{
    reveal_strlit("F");
    reveal_strlit("BINANCE");
    reveal_strlit("BINANCEF");
    reveal_strlit("BYBIT");
    reveal_strlit("BYBITF");
    reveal_strlit("BITGET");
    reveal_strlit("BITGETF");
    reveal_strlit("OKX");
    reveal_strlit("OKXF");
    reveal_strlit("HYPERLIQUID");
    reveal_strlit("KUCOIN");
    reveal_strlit("KUCOINF");
    reveal_strlit("GATE");
    reveal_strlit("GATEF");
    reveal_strlit("ASTER");
    reveal_strlit("ASTERF");
    reveal_strlit("BINGX");
    reveal_strlit("BINGXF");
    assert("BINANCEF"@ =~= "BINANCE"@ + "F"@);
    assert("BYBITF"@ =~= "BYBIT"@ + "F"@);
    assert("BITGETF"@ =~= "BITGET"@ + "F"@);
    assert("OKXF"@ =~= "OKX"@ + "F"@);
    assert("KUCOINF"@ =~= "KUCOIN"@ + "F"@);
    assert("GATEF"@ =~= "GATE"@ + "F"@);
    assert("ASTERF"@ =~= "ASTER"@ + "F"@);
    assert("BINGXF"@ =~= "BINGX"@ + "F"@);
    assert forall|e: Exchange| #[trigger] trades_futures(e) <==> e == Exchange::Hyperliquid
        || wire_name(e).last() == 'F' by {
        match e {
            Exchange::Binance => {},
            Exchange::BinanceF => {},
            _ => {},
        }
    }
}

} // verus!
