//! The public trades of Bitget: each message holds an array of them.

use vstd::prelude::*;
use vstd::string::*;

use crate::bybit::bybit_trade::{id_or_zero, read_id};
use crate::json::{Json, JsonView};
use crate::num::{is_ms_in_ns, ms_to_ns, nanoseconds};
use crate::scale::{parse_scaled, scaled, scaled_or_error};
use crate::text::{
    ascii_upper, eq_ignore_ascii_case, i64_value, parse_i64, same_text, to_uppercase, upper,
};
use crate::trade::{
    dealt, lemma_all_kept, missing, read_deals, trades_outcome, Deal, DealReader, DealView,
};
use crate::traits::{ErrorView, ExchangeError};
use crate::types::{AggressorSide, SpecView, SymbolSpec, TradePrint};

verus! {

pub struct BitgetTradeParser;

/// The symbol that a message of the trade channel names, in uppercase.
pub open spec fn channel_symbol(v: JsonView) -> Option<Seq<char>> {
    match v.member("arg"@) {
        Some(arg) => if arg.text_of("channel"@) == Some("trade"@) {
            match arg.text_of("instId"@) {
                Some(s) => Some(upper(s)),
                None => None,
            }
        } else {
            None
        },
        None => None,
    }
}

/// The integer of a member that comes as a text or as a number.
pub open spec fn integer_member(v: JsonView, key: Seq<char>) -> Option<i64> {
    match v.member(key) {
        Some(x) => match x.text() {
            Some(t) => i64_value(t),
            None => x.signed(),
        },
        None => None,
    }
}

fn integer_field(v: &Json, key: &str) -> (r: Option<i64>)
    ensures
        r == integer_member(v@, key@),
{
    match v.get(key) {
        Some(x) => match x.as_str() {
            Some(t) => parse_i64(t),
            None => x.as_i64(),
        },
        None => None,
    }
}

/// The side of the taker, in any letter case.
pub open spec fn side_of(s: Seq<char>) -> Option<AggressorSide> {
    if ascii_upper(s) == ascii_upper("buy"@) {
        Some(AggressorSide::Bid)
    } else if ascii_upper(s) == ascii_upper("sell"@) {
        Some(AggressorSide::Ask)
    } else {
        None
    }
}

/// One trade of a message.
pub open spec fn bitget_trade(t: JsonView, spec: SpecView) -> Result<TradePrint, ErrorView> {
    match (integer_member(t, "ts"@), t.text_of("side"@)) {
        (None, _) => Err(ErrorView::Parse("trade: missing ts"@)),
        (_, None) => Err(ErrorView::Parse("trade: missing side"@)),
        (Some(ts), Some(side)) => match side_of(side) {
            None => Err(ErrorView::Parse("trade: unknown side="@ + side)),
            Some(aggressor) => match (t.text_of("price"@), t.text_of("size"@)) {
                (None, _) => Err(ErrorView::Parse("trade: missing price"@)),
                (_, None) => Err(ErrorView::Parse("trade: missing size"@)),
                (Some(p), Some(q)) => match scaled_or_error(p, spec.price_scale) {
                    Err(e) => Err(e),
                    Ok(price) => match scaled_or_error(q, spec.qty_scale) {
                        Err(e) => Err(e),
                        Ok(qty) => Ok(
                            TradePrint {
                                exchange_ts_ns: ms_to_ns(ts),
                                aggressor,
                                price,
                                qty,
                                trade_id: id_or_zero(t, "tradeId"@),
                            },
                        ),
                    },
                },
            },
        },
    }
}

/// Reads one trade of a message.
pub fn parse_trade(t: &Json, spec: &SymbolSpec) -> (r: Result<TradePrint, ExchangeError>)
    ensures
        (match r {
            Ok(x) => Ok(x),
            Err(e) => Err(e@),
        }) == bitget_trade(t@, spec@),
{
    let ts_ms: i64 = match integer_field(t, "ts") {
        Some(x) => x,
        None => {
            return Err(missing("trade: missing ts"));
        },
    };
    let side = match t.text_at("side") {
        Some(x) => x,
        None => {
            return Err(missing("trade: missing side"));
        },
    };
    let aggressor = if eq_ignore_ascii_case(side, "buy") {
        AggressorSide::Bid
    } else if eq_ignore_ascii_case(side, "sell") {
        AggressorSide::Ask
    } else {
        return Err(ExchangeError::Parse("trade: unknown side=".to_owned().concat(side)));
    };
    let price_str = match t.text_at("price") {
        Some(x) => x,
        None => {
            return Err(missing("trade: missing price"));
        },
    };
    let qty_str = match t.text_at("size") {
        Some(x) => x,
        None => {
            return Err(missing("trade: missing size"));
        },
    };
    let price: i64 = match parse_scaled(price_str, spec.price_scale) {
        Ok(x) => x,
        Err(e) => {
            return Err(e);
        },
    };
    let qty: i64 = match parse_scaled(qty_str, spec.qty_scale) {
        Ok(x) => x,
        Err(e) => {
            return Err(e);
        },
    };
    Ok(
        TradePrint {
            exchange_ts_ns: nanoseconds(ts_ms),
            aggressor,
            price,
            qty,
            trade_id: read_id(t, "tradeId"),
        },
    )
}

/// `bitget_trade` as a deal of a message.
pub open spec fn bitget_deal(t: JsonView, spec: SpecView) -> DealView {
    match bitget_trade(t, spec) {
        Ok(x) => DealView::Keep(x),
        Err(e) => DealView::Fail(e),
    }
}

struct BitgetDeals<'a> {
    spec: &'a SymbolSpec,
}

impl<'a> DealReader for BitgetDeals<'a> {
    closed spec fn deal_view(&self, v: JsonView) -> DealView {
        bitget_deal(v, self.spec@)
    }

    fn read(&self, v: &Json) -> (r: Deal) {
        match parse_trade(v, self.spec) {
            Ok(t) => Deal::Keep(t),
            Err(e) => Deal::Fail(e),
        }
    }
}

/// The trades of a message; none where it holds no array of them.
pub open spec fn bitget_trades(v: JsonView, spec: SpecView) -> Result<Seq<TradePrint>, ErrorView> {
    match v.items_of("data"@) {
        None => Ok(Seq::empty()),
        Some(items) => dealt(items, |t: JsonView| bitget_deal(t, spec)),
    }
}

impl BitgetTradeParser {
    /// The symbol of a message of the trade channel.
    pub fn peek_symbol(&self, v: &Json) -> (r: Option<String>)
        ensures
            (match r {
                Some(s) => Some(s@),
                None => None,
            }) == channel_symbol(v@),
    {
        match v.get("arg") {
            Some(arg) => {
                let is_trade = match arg.text_at("channel") {
                    Some(c) => same_text(c, "trade"),
                    None => false,
                };
                if !is_trade {
                    return None;
                }
                match arg.text_at("instId") {
                    Some(s) => Some(to_uppercase(s)),
                    None => None,
                }
            },
            None => None,
        }
    }

    /// All trades of a message that has been read already.
    pub fn parse_value(&self, v: &Json, spec: &SymbolSpec) -> (r: Result<
        Vec<TradePrint>,
        ExchangeError,
    >)
        ensures
            trades_outcome(r) == bitget_trades(v@, spec@),
    {
        match v.array_at("data") {
            None => Ok(Vec::new()),
            Some(items) => {
                let reader = BitgetDeals { spec };
                assert((|t: JsonView| reader.deal_view(t)) =~= (|t: JsonView|
                    bitget_deal(t, spec@)));
                read_deals(&reader, items)
            },
        }
    }
}

/// A trade says what its deal says: the venue's time in nanoseconds, the side of the taker in any
/// case of letters, the scaled price and quantity. A deal gives a trade exactly where it has them
/// all.
pub proof fn law_trade_says_what_the_deal_says(d: JsonView, spec: SpecView, ms: i64)
    ensures
        bitget_trade(d, spec) is Ok ==> ({
            let t = bitget_trade(d, spec)->Ok_0;
            &&& d.text_of("side"@) is Some
            &&& ascii_upper(d.text_of("side"@)->0) == (if t.aggressor == AggressorSide::Bid {
                "BUY"@
            } else {
                "SELL"@
            })
            &&& d.text_of("price"@) is Some
            &&& scaled(d.text_of("price"@)->0, spec.price_scale) == Ok::<i64, Seq<char>>(t.price)
            &&& d.text_of("size"@) is Some
            &&& scaled(d.text_of("size"@)->0, spec.qty_scale) == Ok::<i64, Seq<char>>(t.qty)
            &&& d.signed_of("ts"@) == Some(ms) || d.text_of("ts"@) == Some(
                crate::text::decimal_int(ms as int),
            ) ==> is_ms_in_ns(ms, t.exchange_ts_ns)
        }),
        (d.signed_of("ts"@) == Some(ms) || d.text_of("ts"@) == Some(
            crate::text::decimal_int(ms as int),
        )) ==> (bitget_trade(d, spec) is Ok <==> {
            &&& d.text_of("side"@) is Some
            &&& ascii_upper(d.text_of("side"@)->0) == "BUY"@ || ascii_upper(
                d.text_of("side"@)->0,
            ) == "SELL"@
            &&& d.text_of("price"@) is Some && scaled(
                d.text_of("price"@)->0,
                spec.price_scale,
            ) is Ok
            &&& d.text_of("size"@) is Some && scaled(d.text_of("size"@)->0, spec.qty_scale) is Ok
        }),
        d.member("ts"@) is None ==> bitget_trade(d, spec) is Err,
{
    crate::text::law_i64_round_trip(ms);
    reveal_strlit("BUY");
    reveal_strlit("SELL");
    reveal_strlit("buy");
    reveal_strlit("sell");
    assert(ascii_upper("buy"@) =~= "BUY"@);
    assert(ascii_upper("sell"@) =~= "SELL"@);
}

/// Where a message is read, each of its deals gives its trade, in order.
pub proof fn law_every_deal_gives_its_trade(v: JsonView, spec: SpecView, i: int)
    requires
        v.items_of("data"@) is Some,
        0 <= i < v.items_of("data"@)->0.len(),
        bitget_trades(v, spec) is Ok,
    ensures
        bitget_trades(v, spec)->Ok_0.len() == v.items_of("data"@)->0.len(),
        bitget_trade(v.items_of("data"@)->0[i], spec) == Ok::<TradePrint, ErrorView>(
            bitget_trades(v, spec)->Ok_0[i],
        ),
{
    lemma_all_kept(v.items_of("data"@)->0, |t: JsonView| bitget_deal(t, spec), i);
}

/// A message has a symbol exactly where its argument is of the channel of trades and names one; it
/// comes in uppercase.
pub proof fn law_channel_names_its_symbol(v: JsonView, arg: JsonView)
    requires
        v.member("arg"@) == Some(arg),
    ensures
        channel_symbol(v) is Some <==> arg.text_of("channel"@) == Some("trade"@) && arg.text_of(
            "instId"@,
        ) is Some,
        channel_symbol(v) is Some ==> channel_symbol(v)->0 == upper(arg.text_of("instId"@)->0),
{
}

/// The number of a trade is that of its text, and zero without one.
pub proof fn law_number_of_the_trade(d: JsonView, spec: SpecView, n: u64)
    requires
        bitget_trade(d, spec) is Ok,
    ensures
        d.text_of("tradeId"@) == Some(crate::text::decimal(n as nat)) ==> bitget_trade(
            d,
            spec,
        )->Ok_0.trade_id == n,
        d.text_of("tradeId"@) is None ==> bitget_trade(d, spec)->Ok_0.trade_id == 0,
{
    crate::text::law_u64_round_trip(n);
}

} // verus!
