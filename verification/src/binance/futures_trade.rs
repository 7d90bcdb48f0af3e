//! The aggregated trades of Binance and of the venues that speak its dialect.

use vstd::prelude::*;
use vstd::string::*;

use crate::json::{found_text, json_document, parse_json, Json, JsonView};
use crate::num::{is_ms_in_ns, ms_to_ns, nanoseconds};
use crate::scale::{parse_scaled, scaled, scaled_or_error};
use crate::text::{ascii_upper, eq_ignore_ascii_case, same_text};
use crate::trade::missing;
use crate::traits::{ErrorView, ExchangeError, TradeParser};
use crate::types::{AggressorSide, SpecView, SymbolSpec, TradePrint};

verus! {

/// Reads `aggTrade` events, as they are or inside a combined-stream wrapper.
///
/// `m` says whether the buyer is the maker: then the seller is the aggressor.
pub struct BinanceFuturesTradeParser;

/// The event itself, out of its wrapper where it has one.
pub open spec fn event(v: JsonView) -> JsonView {
    match v.member("data"@) {
        Some(d) => d,
        None => v,
    }
}

/// The symbol of an `aggTrade` event.
pub open spec fn event_symbol(v: JsonView) -> Option<Seq<char>> {
    if event(v).text_of("e"@) == Some("aggTrade"@) {
        event(v).text_of("s"@)
    } else {
        None
    }
}

/// A 64-bit pattern read without its sign.
pub open spec fn as_unsigned(n: i64) -> u64 {
    if n >= 0 {
        n as u64
    } else {
        (n + 0x1_0000_0000_0000_0000) as u64
    }
}

fn unsigned(n: i64) -> (r: u64)
    ensures
        r == as_unsigned(n),
{
    if n >= 0 {
        n as u64
    } else {
        (n as i128 + 0x1_0000_0000_0000_0000) as u64
    }
}

/// The trade of an event's members.
pub open spec fn agg_trade(d: JsonView, spec: SpecView) -> Result<TradePrint, ErrorView> {
    match (d.signed_of("a"@), d.signed_of("T"@), d.text_of("p"@), d.text_of("q"@), d.boolean_of("m"@)) {
        (None, _, _, _, _) => Err(ErrorView::Parse("aggTrade: missing 'a'"@)),
        (_, None, _, _, _) => Err(ErrorView::Parse("aggTrade: missing 'T'"@)),
        (_, _, None, _, _) => Err(ErrorView::Parse("aggTrade: missing 'p'"@)),
        (_, _, _, None, _) => Err(ErrorView::Parse("aggTrade: missing 'q'"@)),
        (_, _, _, _, None) => Err(ErrorView::Parse("aggTrade: missing 'm'"@)),
        (Some(a), Some(t), Some(p), Some(q), Some(m)) => match scaled_or_error(p, spec.price_scale) {
            Err(e) => Err(e),
            Ok(price) => match scaled_or_error(q, spec.qty_scale) {
                Err(e) => Err(e),
                Ok(qty) => Ok(
                    TradePrint {
                        exchange_ts_ns: ms_to_ns(t),
                        aggressor: if m {
                            AggressorSide::Ask
                        } else {
                            AggressorSide::Bid
                        },
                        price,
                        qty,
                        trade_id: as_unsigned(a),
                    },
                ),
            },
        },
    }
}

/// The trade of a message for the given instrument; nothing where the message is another event or
/// names another symbol.
pub open spec fn message_trade(v: JsonView, spec: SpecView) -> Result<
    Option<TradePrint>,
    ErrorView,
> {
    match event_symbol(v) {
        None => Ok(None),
        Some(s) => if ascii_upper(s) != ascii_upper(spec.symbol) {
            Ok(None)
        } else {
            match agg_trade(event(v), spec) {
                Ok(t) => Ok(Some(t)),
                Err(e) => Err(e),
            }
        },
    }
}

/// What `parse_value` returns.
pub open spec fn trade_outcome(r: Result<Option<TradePrint>, ExchangeError>) -> Result<
    Option<TradePrint>,
    ErrorView,
> {
    match r {
        Ok(t) => Ok(t),
        Err(e) => Err(e@),
    }
}

fn read_event<'a>(v: &'a Json) -> (r: &'a Json)
    ensures
        r@ == event(v@),
{
    match v.get("data") {
        Some(d) => d,
        None => v,
    }
}

fn read_agg_trade(d: &Json, spec: &SymbolSpec) -> (r: Result<TradePrint, ExchangeError>)
    ensures
        (match r {
            Ok(t) => Ok(t),
            Err(e) => Err(e@),
        }) == agg_trade(d@, spec@),
{
    let trade_id: i64 = match d.i64_at("a") {
        Some(x) => x,
        None => {
            return Err(missing("aggTrade: missing 'a'"));
        },
    };
    let time_ms: i64 = match d.i64_at("T") {
        Some(x) => x,
        None => {
            return Err(missing("aggTrade: missing 'T'"));
        },
    };
    let price_str = match d.text_at("p") {
        Some(x) => x,
        None => {
            return Err(missing("aggTrade: missing 'p'"));
        },
    };
    let qty_str = match d.text_at("q") {
        Some(x) => x,
        None => {
            return Err(missing("aggTrade: missing 'q'"));
        },
    };
    let buyer_is_maker = match d.bool_at("m") {
        Some(x) => x,
        None => {
            return Err(missing("aggTrade: missing 'm'"));
        },
    };
    let price: i64 = match parse_scaled(price_str, spec.price_scale) {
        Ok(x) => x,
        Err(e) => {
            return Err(e);
        },
    };
    let qty: i64 = match parse_scaled(qty_str, spec.qty_scale) {
        Ok(x) => x,
        Err(e) => {
            return Err(e);
        },
    };
    Ok(
        TradePrint {
            exchange_ts_ns: nanoseconds(time_ms),
            aggressor: if buyer_is_maker {
                AggressorSide::Ask
            } else {
                AggressorSide::Bid
            },
            price,
            qty,
            trade_id: unsigned(trade_id),
        },
    )
}

impl BinanceFuturesTradeParser {
    /// The symbol of an `aggTrade` message.
    pub fn peek_symbol<'a>(&self, v: &'a Json) -> (r: Option<&'a str>)
        ensures
            found_text(r) == event_symbol(v@),
    {
        let data = read_event(v);
        match data.text_at("e") {
            Some(e) => if same_text(e, "aggTrade") {
                data.text_at("s")
            } else {
                None
            },
            None => None,
        }
    }

    /// The trade of a message that has been read already.
    pub fn parse_value(&self, v: &Json, spec: &SymbolSpec) -> (r: Result<
        Option<TradePrint>,
        ExchangeError,
    >)
        ensures
            trade_outcome(r) == message_trade(v@, spec@),
    {
        match self.peek_symbol(v) {
            None => Ok(None),
            Some(s) => {
                if !eq_ignore_ascii_case(s, spec.symbol.as_str()) {
                    return Ok(None);
                }
                match read_agg_trade(read_event(v), spec) {
                    Ok(t) => Ok(Some(t)),
                    Err(e) => Err(e),
                }
            },
        }
    }
}

impl TradeParser for BinanceFuturesTradeParser {
    fn parse(&self, raw: &[u8], spec: &SymbolSpec) -> (r: Result<
        Option<TradePrint>,
        ExchangeError,
    >)
        ensures
            trade_outcome(r) == match json_document(raw@) {
                Ok(v) => message_trade(v, spec@),
                Err(m) => Err(ErrorView::Parse(m)),
            },
    {
        match parse_json(raw) {
            Ok(v) => self.parse_value(&v, spec),
            Err(m) => Err(ExchangeError::Parse(m)),
        }
    }
}

/// A trade says what its message says: the venue's time in nanoseconds, the scaled price and
/// quantity, and as the aggressor the seller where the buyer was the maker and the buyer otherwise.
pub proof fn law_trade_says_what_the_message_says(v: JsonView, d: JsonView, spec: SpecView)
    requires
        v.member("data"@) == Some(d) || (v.member("data"@) is None && d == v),
    ensures
        message_trade(v, spec) is Ok && message_trade(v, spec)->Ok_0 is Some ==> ({
            let t = message_trade(v, spec)->Ok_0->0;
            &&& d.text_of("e"@) == Some("aggTrade"@)
            &&& d.text_of("s"@) is Some
            &&& ascii_upper(d.text_of("s"@)->0) == ascii_upper(spec.symbol)
            &&& d.boolean_of("m"@) == Some(t.aggressor == AggressorSide::Ask)
            &&& d.text_of("p"@) is Some
            &&& scaled(d.text_of("p"@)->0, spec.price_scale) == Ok::<i64, Seq<char>>(t.price)
            &&& d.text_of("q"@) is Some
            &&& scaled(d.text_of("q"@)->0, spec.qty_scale) == Ok::<i64, Seq<char>>(t.qty)
            &&& d.signed_of("T"@) is Some
            &&& is_ms_in_ns(d.signed_of("T"@)->0, t.exchange_ts_ns)
            &&& d.signed_of("a"@) is Some
            &&& d.signed_of("a"@)->0 >= 0 ==> t.trade_id == d.signed_of("a"@)->0
            &&& d.signed_of("a"@)->0 < 0 ==> t.trade_id == d.signed_of("a"@)->0
                + 0x1_0000_0000_0000_0000
        }),
{
}

/// A message of the instrument that has all its members gives a trade; one of another instrument or
/// of another kind gives none, and no error.
pub proof fn law_whole_messages_give_trades(v: JsonView, d: JsonView, spec: SpecView)
    requires
        v.member("data"@) == Some(d) || (v.member("data"@) is None && d == v),
    ensures
        ({
            let ours = {
                &&& d.text_of("e"@) == Some("aggTrade"@)
                &&& d.text_of("s"@) is Some
                &&& ascii_upper(d.text_of("s"@)->0) == ascii_upper(spec.symbol)
            };
            let whole = {
                &&& d.text_of("p"@) is Some && scaled(d.text_of("p"@)->0, spec.price_scale) is Ok
                &&& d.text_of("q"@) is Some && scaled(d.text_of("q"@)->0, spec.qty_scale) is Ok
                &&& d.boolean_of("m"@) is Some
                &&& d.signed_of("T"@) is Some
                &&& d.signed_of("a"@) is Some
            };
            &&& message_trade(v, spec) == Ok::<Option<TradePrint>, ErrorView>(None) <==> !ours
            &&& message_trade(v, spec) is Err <==> ours && !whole
        }),
{
}

} // verus!
