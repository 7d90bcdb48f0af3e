//! The stream of frames to subscribers: its names for instruments, and its limits.

use vstd::prelude::*;
use vstd::string::*;

use crate::text::{same_text, split, split_char, text_of, trim, trimmed, views};
use crate::types::{wire_name, Exchange, KeyView, MarketType, SymbolKey};

verus! {

/// An instrument as a subscriber names it.
#[derive(Debug)]
pub struct WireKey {
    pub exchange: String,
    pub market_type: String,
    pub symbol: String,
}

/// What a `WireKey` says.
pub struct WireKeyView {
    pub exchange: Seq<char>,
    pub market_type: Seq<char>,
    pub symbol: Seq<char>,
}

impl View for WireKey {
    type V = WireKeyView;

    open spec fn view(&self) -> WireKeyView {
        WireKeyView {
            exchange: self.exchange@,
            market_type: self.market_type@,
            symbol: self.symbol@,
        }
    }
}

/// The venue that a subscriber names.
pub open spec fn exchange_named(s: Seq<char>) -> Option<Exchange> {
    if s == "BINANCE"@ {
        Some(Exchange::Binance)
    } else if s == "BINANCEF"@ {
        Some(Exchange::BinanceF)
    } else if s == "BYBIT"@ {
        Some(Exchange::Bybit)
    } else if s == "BYBITF"@ {
        Some(Exchange::BybitF)
    } else if s == "BITGET"@ {
        Some(Exchange::Bitget)
    } else if s == "BITGETF"@ {
        Some(Exchange::BitgetF)
    } else if s == "OKX"@ {
        Some(Exchange::Okx)
    } else if s == "OKXF"@ {
        Some(Exchange::OkxF)
    } else if s == "HYPERLIQUID"@ {
        Some(Exchange::Hyperliquid)
    } else if s == "KUCOIN"@ {
        Some(Exchange::Kucoin)
    } else if s == "KUCOINF"@ {
        Some(Exchange::KucoinF)
    } else if s == "GATE"@ {
        Some(Exchange::Gate)
    } else if s == "GATEF"@ {
        Some(Exchange::GateF)
    } else {
        None
    }
}

/// Reads the name of a venue.
pub fn parse_exchange(s: &str) -> (r: Option<Exchange>)
    ensures
        r == exchange_named(s@),
{
    if same_text(s, "BINANCE") {
        Some(Exchange::Binance)
    } else if same_text(s, "BINANCEF") {
        Some(Exchange::BinanceF)
    } else if same_text(s, "BYBIT") {
        Some(Exchange::Bybit)
    } else if same_text(s, "BYBITF") {
        Some(Exchange::BybitF)
    } else if same_text(s, "BITGET") {
        Some(Exchange::Bitget)
    } else if same_text(s, "BITGETF") {
        Some(Exchange::BitgetF)
    } else if same_text(s, "OKX") {
        Some(Exchange::Okx)
    } else if same_text(s, "OKXF") {
        Some(Exchange::OkxF)
    } else if same_text(s, "HYPERLIQUID") {
        Some(Exchange::Hyperliquid)
    } else if same_text(s, "KUCOIN") {
        Some(Exchange::Kucoin)
    } else if same_text(s, "KUCOINF") {
        Some(Exchange::KucoinF)
    } else if same_text(s, "GATE") {
        Some(Exchange::Gate)
    } else if same_text(s, "GATEF") {
        Some(Exchange::GateF)
    } else {
        None
    }
}

/// The market that a subscriber names.
pub open spec fn market_named(s: Seq<char>) -> Option<MarketType> {
    if s == "SPOT"@ {
        Some(MarketType::Spot)
    } else if s == "PERP"@ {
        Some(MarketType::Perp)
    } else {
        None
    }
}

/// Reads the name of a market.
pub fn parse_market_type(s: &str) -> (r: Option<MarketType>)
    ensures
        r == market_named(s@),
{
    if same_text(s, "SPOT") {
        Some(MarketType::Spot)
    } else if same_text(s, "PERP") {
        Some(MarketType::Perp)
    } else {
        None
    }
}

/// The name of a market on the stream.
pub open spec fn market_wire_name(m: MarketType) -> Seq<char> {
    match m {
        MarketType::Spot => "SPOT"@,
        MarketType::Perp => "PERP"@,
    }
}

pub fn market_type_wire(m: MarketType) -> (r: &'static str)
    ensures
        r@ == market_wire_name(m),
{
    match m {
        MarketType::Spot => "SPOT",
        MarketType::Perp => "PERP",
    }
}

/// The instrument that a subscriber names, or why it names none.
pub open spec fn key_named(k: WireKeyView) -> Result<KeyView, Seq<char>> {
    match exchange_named(k.exchange) {
        None => Err("unknown exchange: "@ + k.exchange),
        Some(exchange) => match market_named(k.market_type) {
            None => Err("unknown market_type: "@ + k.market_type),
            Some(market_type) => if k.symbol.len() == 0 {
                Err("empty symbol"@)
            } else {
                Ok(KeyView { exchange, market_type, symbol: k.symbol })
            },
        },
    }
}

/// Reads the instrument that a subscriber names.
pub fn symbol_key_from_wire(k: &WireKey) -> (r: Result<SymbolKey, String>)
    ensures
        (match r {
            Ok(key) => Ok(key@),
            Err(m) => Err(m@),
        }) == key_named(k@),
{
    let exchange = match parse_exchange(k.exchange.as_str()) {
        Some(e) => e,
        None => {
            return Err("unknown exchange: ".to_owned().concat(k.exchange.as_str()));
        },
    };
    let market_type = match parse_market_type(k.market_type.as_str()) {
        Some(m) => m,
        None => {
            return Err("unknown market_type: ".to_owned().concat(k.market_type.as_str()));
        },
    };
    if k.symbol.as_str().is_empty() {
        return Err("empty symbol".to_owned());
    }
    Ok(SymbolKey::new(exchange, market_type, k.symbol.as_str()))
}

/// How the stream names an instrument.
pub open spec fn wire_key(k: KeyView) -> WireKeyView {
    WireKeyView {
        exchange: wire_name(k.exchange),
        market_type: market_wire_name(k.market_type),
        symbol: k.symbol,
    }
}

/// Names an instrument for subscribers.
pub fn wire_key_from_symbol(k: &SymbolKey) -> (r: WireKey)
    ensures
        r@ == wire_key(k@),
{
    WireKey {
        exchange: k.exchange.wire_id().to_owned(),
        market_type: market_type_wire(k.market_type).to_owned(),
        symbol: (&*k.symbol).to_owned(),
    }
}

/// Most instruments in one subscription.
pub const MAX_SYMBOLS: usize = 1024;

/// Why a subscription of so many instruments is refused, where it is.
pub open spec fn size_fault(count: int) -> Option<Seq<char>> {
    if count == 0 {
        Some("subscribe with empty symbol list"@)
    } else if count > MAX_SYMBOLS {
        Some("too many symbols in one subscribe (max 1024)"@)
    } else {
        None
    }
}

/// What the keys of a subscription come to: all of them, or the first fault.
pub open spec fn keys_named(keys: Seq<WireKeyView>) -> Result<Seq<KeyView>, Seq<char>>
    decreases keys.len(),
{
    if keys.len() == 0 {
        Ok(Seq::empty())
    } else {
        match keys_named(keys.drop_last()) {
            Err(m) => Err(m),
            Ok(ks) => match key_named(keys.last()) {
                Err(m) => Err(m),
                Ok(k) => Ok(ks.push(k)),
            },
        }
    }
}

/// What a subscription comes to.
pub open spec fn subscription(keys: Seq<WireKeyView>) -> Result<Seq<KeyView>, Seq<char>> {
    match size_fault(keys.len() as int) {
        Some(m) => Err(m),
        None => keys_named(keys),
    }
}

/// The views of a row of named keys.
pub open spec fn wire_views(s: Seq<WireKey>) -> Seq<WireKeyView> {
    s.map_values(|k: WireKey| k@)
}

/// The views of a row of keys.
pub open spec fn key_views(s: Seq<SymbolKey>) -> Seq<KeyView> {
    s.map_values(|k: SymbolKey| k@)
}

proof fn lemma_keys_named_prefix(keys: Seq<WireKeyView>, n: int, m: Seq<char>)
    requires
        0 <= n <= keys.len(),
        keys_named(keys.take(n)) == Err::<Seq<KeyView>, Seq<char>>(m),
    ensures
        keys_named(keys) == Err::<Seq<KeyView>, Seq<char>>(m),
    decreases keys.len(),
{
    if n < keys.len() {
        assert(keys.drop_last().take(n) =~= keys.take(n));
        lemma_keys_named_prefix(keys.drop_last(), n, m);
    } else {
        assert(keys.take(n) =~= keys);
    }
}

/// Reads the instruments of a subscription. An empty one, one of more than 1024 instruments and one
/// that names no instrument somewhere is refused.
pub fn read_subscription(keys: &Vec<WireKey>) -> (r: Result<Vec<SymbolKey>, String>)
    ensures
        (match r {
            Ok(v) => Ok(key_views(v@)),
            Err(m) => Err(m@),
        }) == subscription(wire_views(keys@)),
{
    let ghost all = wire_views(keys@);
    if keys.len() == 0 {
        return Err("subscribe with empty symbol list".to_owned());
    }
    if keys.len() > MAX_SYMBOLS {
        return Err("too many symbols in one subscribe (max 1024)".to_owned());
    }
    let mut out: Vec<SymbolKey> = Vec::new();
    let mut i: usize = 0;
    assert(key_views(out@) =~= Seq::<KeyView>::empty());
    while i < keys.len()
        invariant
            i <= keys@.len(),
            0 < keys@.len() <= MAX_SYMBOLS,
            all == wire_views(keys@),
            keys_named(all.take(i as int)) == Ok::<Seq<KeyView>, Seq<char>>(key_views(out@)),
        decreases keys@.len() - i,
    {
        assert(all.take(i as int + 1).drop_last() =~= all.take(i as int));
        assert(all.take(i as int + 1).last() == keys@[i as int]@);
        match symbol_key_from_wire(&keys[i]) {
            Ok(k) => {
                let ghost before = key_views(out@);
                out.push(k);
                assert(key_views(out@) =~= before.push(k@));
            },
            Err(m) => {
                proof {
                    lemma_keys_named_prefix(all, i as int + 1, m@);
                }
                return Err(m);
            },
        }
        i = i + 1;
    }
    assert(all.take(i as int) =~= all);
    Ok(out)
}

/// The keys of the symbols in a comma-separated row, blank ones left out.
pub open spec fn listed_keys(
    exchange: Seq<char>,
    market_type: Seq<char>,
    parts: Seq<Seq<char>>,
) -> Seq<WireKeyView>
    decreases parts.len(),
{
    if parts.len() == 0 {
        Seq::empty()
    } else {
        let before = listed_keys(exchange, market_type, parts.drop_last());
        let symbol = trimmed(parts.last());
        if symbol.len() == 0 {
            before
        } else {
            before.push(WireKeyView { exchange, market_type, symbol })
        }
    }
}

/// Reads a comma-separated row of symbols of one venue and market.
pub fn keys_from_csv(exchange: &str, market_type: &str, csv: &str) -> (r: Vec<WireKey>)
    ensures
        wire_views(r@) == listed_keys(exchange@, market_type@, split(csv@, ',')),
{
    let parts = split_char(csv, ',');
    let ghost all = views(parts@);
    let mut out: Vec<WireKey> = Vec::new();
    let mut i: usize = 0;
    assert(wire_views(out@) =~= Seq::<WireKeyView>::empty());
    while i < parts.len()
        invariant
            i <= parts@.len(),
            all == views(parts@),
            wire_views(out@) == listed_keys(exchange@, market_type@, all.take(i as int)),
        decreases parts@.len() - i,
    {
        assert(all.take(i as int + 1).drop_last() =~= all.take(i as int));
        assert(all.take(i as int + 1).last() == parts@[i as int]@);
        let symbol = trim(parts[i].as_str());
        if symbol.len() > 0 {
            let ghost before = wire_views(out@);
            let key = WireKey {
                exchange: exchange.to_owned(),
                market_type: market_type.to_owned(),
                symbol: text_of(&symbol),
            };
            out.push(key);
            assert(wire_views(out@) =~= before.push(key@));
        }
        i = i + 1;
    }
    assert(all.take(i as int) =~= all);
    out
}

/// The venue has a name on the stream that is read back.
pub open spec fn is_streamed(e: Exchange) -> bool {
    match e {
        Exchange::Aster => false,
        Exchange::AsterF => false,
        Exchange::Bingx => false,
        Exchange::BingxF => false,
        _ => true,
    }
}

/// The names of an instrument on the stream are read back as that instrument.
pub proof fn law_wire_key_round_trip(k: KeyView)
    requires
        is_streamed(k.exchange),
        k.symbol.len() > 0,
    ensures
        key_named(wire_key(k)) == Ok::<KeyView, Seq<char>>(k),
{
    reveal_strlit("BINANCE");
    reveal_strlit("BINANCEF");
    reveal_strlit("BYBIT");
    reveal_strlit("BYBITF");
    reveal_strlit("BITGET");
    reveal_strlit("BITGETF");
    reveal_strlit("OKX");
    reveal_strlit("OKXF");
    reveal_strlit("HYPERLIQUID");
    reveal_strlit("KUCOIN");
    reveal_strlit("KUCOINF");
    reveal_strlit("GATE");
    reveal_strlit("GATEF");
    reveal_strlit("SPOT");
    reveal_strlit("PERP");
    assert("SPOT"@[0] != "PERP"@[0]);
    assert("BINANCE"@.len() == 7);
    assert("BINANCEF"@.len() == 8);
    assert("BYBIT"@.len() == 5);
    assert("BYBITF"@.len() == 6);
    assert("BITGET"@.len() == 6);
    assert("BITGETF"@.len() == 7);
    assert("OKX"@.len() == 3);
    assert("OKXF"@.len() == 4);
    assert("HYPERLIQUID"@.len() == 11);
    assert("KUCOIN"@.len() == 6);
    assert("KUCOINF"@.len() == 7);
    assert("GATE"@.len() == 4);
    assert("GATEF"@.len() == 5);
    assert("BINANCE"@[2] != "BITGETF"@[2]);
    assert("BINANCE"@[0] != "KUCOINF"@[0]);
    assert("BITGETF"@[0] != "KUCOINF"@[0]);
    assert("BYBITF"@[1] != "BITGET"@[1]);
    assert("BYBITF"@[0] != "KUCOIN"@[0]);
    assert("BITGET"@[0] != "KUCOIN"@[0]);
    assert("BYBIT"@[0] != "GATEF"@[0]);
    assert("OKXF"@[0] != "GATE"@[0]);
}

/// An accepted subscription names every instrument that was asked for, in order. It is refused exactly
/// where it asks for none, for more than 1024, or for one that cannot be named.
pub proof fn law_subscription_names_all(keys: Seq<WireKeyView>)
    ensures
        subscription(keys) is Ok ==> {
            &&& subscription(keys)->Ok_0.len() == keys.len()
            &&& forall|i: int|
                0 <= i < keys.len() ==> key_named(#[trigger] keys[i]) == Ok::<KeyView, Seq<char>>(
                    subscription(keys)->Ok_0[i],
                )
        },
        subscription(keys) is Err <==> {
            ||| keys.len() == 0
            ||| keys.len() > 1024
            ||| exists|i: int| 0 <= i < keys.len() && key_named(#[trigger] keys[i]) is Err
        },
{
    lemma_keys_named(keys);
}

proof fn lemma_keys_named(keys: Seq<WireKeyView>)
    ensures
        keys_named(keys) is Ok ==> {
            &&& keys_named(keys)->Ok_0.len() == keys.len()
            &&& forall|i: int|
                0 <= i < keys.len() ==> key_named(#[trigger] keys[i]) == Ok::<KeyView, Seq<char>>(
                    keys_named(keys)->Ok_0[i],
                )
        },
        keys_named(keys) is Err <==> exists|i: int|
            0 <= i < keys.len() && key_named(#[trigger] keys[i]) is Err,
    decreases keys.len(),
{
    if keys.len() > 0 {
        let init = keys.drop_last();
        lemma_keys_named(init);
        assert(keys.last() == keys[keys.len() - 1]);
        if exists|i: int| 0 <= i < init.len() && key_named(#[trigger] init[i]) is Err {
            let i = choose|i: int| 0 <= i < init.len() && key_named(#[trigger] init[i]) is Err;
            assert(keys[i] == init[i]);
        }
        if exists|i: int| 0 <= i < keys.len() && key_named(#[trigger] keys[i]) is Err {
            let i = choose|i: int| 0 <= i < keys.len() && key_named(#[trigger] keys[i]) is Err;
            if i < init.len() {
                assert(init[i] == keys[i]);
            }
        }
        if keys_named(keys) is Ok {
            assert forall|i: int| 0 <= i < keys.len() implies key_named(#[trigger] keys[i]) == Ok::<
                KeyView,
                Seq<char>,
            >(keys_named(keys)->Ok_0[i]) by {
                if i < init.len() {
                    assert(init[i] == keys[i]);
                }
            }
        }
    }
}

/// A name that is read is the name of what was read: it has the wire name of the venue, the wire name of
/// the market, and the symbol itself, which is not empty.
pub proof fn law_named_key_has_that_name(k: WireKeyView)
    ensures
        key_named(k) is Ok ==> wire_key(key_named(k)->Ok_0) == k && k.symbol.len() > 0,
        key_named(k) is Err && k.symbol.len() > 0 ==> forall|x: KeyView|
            is_streamed(x.exchange) ==> #[trigger] wire_key(x) != k,
{
    if key_named(k) is Err && k.symbol.len() > 0 {
        assert forall|x: KeyView| is_streamed(x.exchange) implies #[trigger] wire_key(x) != k by {
            if wire_key(x) == k {
                law_wire_key_round_trip(x);
            }
        }
    }
}

/// The keys of two rows of symbols one behind the other are those of the first and then those of the
/// second; a single symbol gives one key, with the given venue and market and without the blanks
/// around it, and a blank one gives none.
pub proof fn law_listed_keys_add_up(
    exchange: Seq<char>,
    market_type: Seq<char>,
    a: Seq<Seq<char>>,
    b: Seq<Seq<char>>,
    part: Seq<char>,
)
    ensures
        listed_keys(exchange, market_type, a + b) == listed_keys(exchange, market_type, a)
            + listed_keys(exchange, market_type, b),
        trimmed(part).len() > 0 ==> listed_keys(exchange, market_type, seq![part]) == seq![
            WireKeyView { exchange, market_type, symbol: trimmed(part) },
        ],
        trimmed(part).len() == 0 ==> listed_keys(exchange, market_type, seq![part]) == Seq::<
            WireKeyView,
        >::empty(),
    decreases b.len(),
{
    let one = seq![part];
    assert(one.drop_last() =~= Seq::<Seq<char>>::empty());
    assert(one.last() == part);
    assert(listed_keys(exchange, market_type, one.drop_last()) =~= Seq::<WireKeyView>::empty());
    if trimmed(part).len() > 0 {
        assert(listed_keys(exchange, market_type, one) =~= seq![
            WireKeyView { exchange, market_type, symbol: trimmed(part) },
        ]);
    }
    if b.len() == 0 {
        assert(a + b =~= a);
        assert(listed_keys(exchange, market_type, a) + listed_keys(exchange, market_type, b)
            =~= listed_keys(exchange, market_type, a));
    } else {
        law_listed_keys_add_up(exchange, market_type, a, b.drop_last(), part);
        assert((a + b).drop_last() =~= a + b.drop_last());
        assert((a + b).last() == b.last());
        assert(listed_keys(exchange, market_type, a + b) =~= listed_keys(exchange, market_type, a)
            + listed_keys(exchange, market_type, b));
    }
}

} // verus!
