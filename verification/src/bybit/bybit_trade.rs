//! The public trades of Bybit: each message holds an array of them.

use vstd::prelude::*;
use vstd::string::*;

use crate::json::{found_text, Json, JsonView};
use crate::num::{is_ms_in_ns, ms_to_ns, nanoseconds};
use crate::scale::{parse_scaled, scaled, scaled_or_error};
use crate::text::{has_prefix, parse_u64, same_text, starts_with, u64_value};
use crate::trade::{
    dealt, lemma_all_kept, missing, read_deals, trades_outcome, Deal, DealReader,
    DealView,
};
use crate::traits::{ErrorView, ExchangeError};
use crate::types::{AggressorSide, SpecView, SymbolSpec, TradePrint};

verus! {

pub struct BybitTradeParser;

/// The symbol behind the topic of a message of trades.
pub open spec fn topic_symbol(v: JsonView) -> Option<Seq<char>> {
    match v.text_of("topic"@) {
        Some(t) => if has_prefix(t, "publicTrade."@) {
            Some(t.skip("publicTrade."@.len() as int))
        } else {
            None
        },
        None => None,
    }
}

/// The number that the text of a member writes, or zero.
pub open spec fn id_or_zero(v: JsonView, key: Seq<char>) -> u64 {
    match v.text_of(key) {
        Some(t) => match u64_value(t) {
            Some(n) => n,
            None => 0,
        },
        None => 0,
    }
}

/// Reads the number that the text of a member writes; zero where it writes none.
pub fn read_id(v: &Json, key: &str) -> (r: u64)
    ensures
        r == id_or_zero(v@, key@),
{
    match v.text_at(key) {
        Some(t) => match parse_u64(t) {
            Some(n) => n,
            None => 0,
        },
        None => 0,
    }
}

/// The side of the taker: "Buy" or "Sell".
pub open spec fn taker_side(s: Seq<char>) -> Option<AggressorSide> {
    if s == "Buy"@ {
        Some(AggressorSide::Bid)
    } else if s == "Sell"@ {
        Some(AggressorSide::Ask)
    } else {
        None
    }
}

/// One trade of a message.
pub open spec fn bybit_trade(t: JsonView, spec: SpecView) -> Result<TradePrint, ErrorView> {
    match (t.signed_of("T"@), t.text_of("S"@)) {
        (None, _) => Err(ErrorView::Parse("trade: missing T"@)),
        (_, None) => Err(ErrorView::Parse("trade: missing S"@)),
        (Some(ts), Some(side)) => match taker_side(side) {
            None => Err(ErrorView::Parse("trade: unknown S="@ + side)),
            Some(aggressor) => match (t.text_of("p"@), t.text_of("v"@)) {
                (None, _) => Err(ErrorView::Parse("trade: missing p"@)),
                (_, None) => Err(ErrorView::Parse("trade: missing v"@)),
                (Some(p), Some(q)) => match scaled_or_error(p, spec.price_scale) {
                    Err(e) => Err(e),
                    Ok(price) => match scaled_or_error(q, spec.qty_scale) {
                        Err(e) => Err(e),
                        Ok(qty) => Ok(
                            TradePrint {
                                exchange_ts_ns: ms_to_ns(ts),
                                aggressor,
                                price,
                                qty,
                                trade_id: id_or_zero(t, "i"@),
                            },
                        ),
                    },
                },
            },
        },
    }
}

/// Reads one trade of a message.
pub fn parse_trade(t: &Json, spec: &SymbolSpec) -> (r: Result<TradePrint, ExchangeError>)
    ensures
        (match r {
            Ok(x) => Ok(x),
            Err(e) => Err(e@),
        }) == bybit_trade(t@, spec@),
{
    let ts_ms: i64 = match t.i64_at("T") {
        Some(x) => x,
        None => {
            return Err(missing("trade: missing T"));
        },
    };
    let side = match t.text_at("S") {
        Some(x) => x,
        None => {
            return Err(missing("trade: missing S"));
        },
    };
    let aggressor = if same_text(side, "Buy") {
        AggressorSide::Bid
    } else if same_text(side, "Sell") {
        AggressorSide::Ask
    } else {
        return Err(ExchangeError::Parse("trade: unknown S=".to_owned().concat(side)));
    };
    let price_str = match t.text_at("p") {
        Some(x) => x,
        None => {
            return Err(missing("trade: missing p"));
        },
    };
    let qty_str = match t.text_at("v") {
        Some(x) => x,
        None => {
            return Err(missing("trade: missing v"));
        },
    };
    let price: i64 = match parse_scaled(price_str, spec.price_scale) {
        Ok(x) => x,
        Err(e) => {
            return Err(e);
        },
    };
    let qty: i64 = match parse_scaled(qty_str, spec.qty_scale) {
        Ok(x) => x,
        Err(e) => {
            return Err(e);
        },
    };
    Ok(
        TradePrint {
            exchange_ts_ns: nanoseconds(ts_ms),
            aggressor,
            price,
            qty,
            trade_id: read_id(t, "i"),
        },
    )
}

/// `bybit_trade` as a deal of a message.
pub open spec fn bybit_deal(t: JsonView, spec: SpecView) -> DealView {
    match bybit_trade(t, spec) {
        Ok(x) => DealView::Keep(x),
        Err(e) => DealView::Fail(e),
    }
}

struct BybitDeals<'a> {
    spec: &'a SymbolSpec,
}

impl<'a> DealReader for BybitDeals<'a> {
    closed spec fn deal_view(&self, v: JsonView) -> DealView {
        bybit_deal(v, self.spec@)
    }

    fn read(&self, v: &Json) -> (r: Deal) {
        match parse_trade(v, self.spec) {
            Ok(t) => Deal::Keep(t),
            Err(e) => Deal::Fail(e),
        }
    }
}

/// The trades of a message; none where it holds no array of them.
pub open spec fn bybit_trades(v: JsonView, spec: SpecView) -> Result<Seq<TradePrint>, ErrorView> {
    match v.items_of("data"@) {
        None => Ok(Seq::empty()),
        Some(items) => dealt(items, |t: JsonView| bybit_deal(t, spec)),
    }
}

impl BybitTradeParser {
    /// The symbol of a message of trades.
    pub fn peek_symbol<'a>(&self, v: &'a Json) -> (r: Option<&'a str>)
        ensures
            found_text(r) == topic_symbol(v@),
    {
        match v.text_at("topic") {
            Some(t) => if starts_with(t, "publicTrade.") {
                let head: usize = "publicTrade.".unicode_len();
                let all: usize = t.unicode_len();
                Some(t.substring_char(head, all))
            } else {
                None
            },
            None => None,
        }
    }

    /// All trades of a message that has been read already.
    pub fn parse_value(&self, v: &Json, spec: &SymbolSpec) -> (r: Result<
        Vec<TradePrint>,
        ExchangeError,
    >)
        ensures
            trades_outcome(r) == bybit_trades(v@, spec@),
    {
        match v.array_at("data") {
            None => Ok(Vec::new()),
            Some(items) => {
                let reader = BybitDeals { spec };
                assert((|t: JsonView| reader.deal_view(t)) =~= (|t: JsonView|
                    bybit_deal(t, spec@)));
                read_deals(&reader, items)
            },
        }
    }
}

/// A trade says what its deal says: the venue's time in nanoseconds, the side of the taker, the
/// scaled price and quantity. A deal gives a trade exactly where it has them all.
pub proof fn law_trade_says_what_the_deal_says(d: JsonView, spec: SpecView)
    ensures
        bybit_trade(d, spec) is Ok ==> ({
            let t = bybit_trade(d, spec)->Ok_0;
            &&& d.text_of("S"@) == Some(
                if t.aggressor == AggressorSide::Bid {
                    "Buy"@
                } else {
                    "Sell"@
                },
            )
            &&& d.text_of("p"@) is Some
            &&& scaled(d.text_of("p"@)->0, spec.price_scale) == Ok::<i64, Seq<char>>(t.price)
            &&& d.text_of("v"@) is Some
            &&& scaled(d.text_of("v"@)->0, spec.qty_scale) == Ok::<i64, Seq<char>>(t.qty)
            &&& d.signed_of("T"@) is Some
            &&& is_ms_in_ns(d.signed_of("T"@)->0, t.exchange_ts_ns)
            &&& forall|n: u64|
                d.text_of("i"@) == Some(#[trigger] crate::text::decimal(n as nat)) ==> t.trade_id
                    == n
        }),
        bybit_trade(d, spec) is Ok <==> {
            &&& d.text_of("S"@) == Some("Buy"@) || d.text_of("S"@) == Some("Sell"@)
            &&& d.text_of("p"@) is Some && scaled(d.text_of("p"@)->0, spec.price_scale) is Ok
            &&& d.text_of("v"@) is Some && scaled(d.text_of("v"@)->0, spec.qty_scale) is Ok
            &&& d.signed_of("T"@) is Some
        },
{
    reveal_strlit("Buy");
    reveal_strlit("Sell");
    assert forall|n: u64|
        d.text_of("i"@) == Some(#[trigger] crate::text::decimal(n as nat)) implies id_or_zero(
        d,
        "i"@,
    ) == n by {
        crate::text::law_u64_round_trip(n);
    }
}

/// Where a message is read, each of its deals gives its trade, in order.
pub proof fn law_every_deal_gives_its_trade(v: JsonView, spec: SpecView, i: int)
    requires
        v.items_of("data"@) is Some,
        0 <= i < v.items_of("data"@)->0.len(),
        bybit_trades(v, spec) is Ok,
    ensures
        bybit_trades(v, spec)->Ok_0.len() == v.items_of("data"@)->0.len(),
        bybit_trade(v.items_of("data"@)->0[i], spec) == Ok::<TradePrint, ErrorView>(
            bybit_trades(v, spec)->Ok_0[i],
        ),
{
    lemma_all_kept(v.items_of("data"@)->0, |t: JsonView| bybit_deal(t, spec), i);
}

/// The symbol of a topic is what stands behind "publicTrade.".
pub proof fn law_topic_names_its_symbol(v: JsonView, symbol: Seq<char>)
    ensures
        topic_symbol(v) == Some(symbol) <==> v.text_of("topic"@) == Some("publicTrade."@ + symbol),
{
    let p = "publicTrade."@;
    match v.text_of("topic"@) {
        Some(t) => {
            if t == p + symbol {
                assert(t.take(p.len() as int) =~= p);
                assert(t.skip(p.len() as int) =~= symbol);
            }
            if has_prefix(t, p) {
                assert(t =~= p + t.skip(p.len() as int));
            }
        },
        None => {},
    }
}

} // verus!
