//! The trades of Hyperliquid: each message holds an array of deals in one coin.

use vstd::prelude::*;
use vstd::string::*;

use crate::bingx::bingx_trade::usable;
use crate::json::{found_text, lemma_items_view, Json, JsonView};
use crate::listing::{text_or_default, text_or_empty};
use crate::num::{is_ms_in_ns, ms_to_ns, nanoseconds};
use crate::scale::{parse_scaled, scaled, scaled_or_error};
use crate::text::same_text;
use crate::trade::{dealt, missing, read_deals, trades_outcome, Deal, DealReader, DealView};
use crate::traits::{ErrorView, ExchangeError};
use crate::types::{AggressorSide, SpecView, SymbolSpec, TradePrint};

verus! {

pub struct HyperliquidTradeParser;

/// The coin of the first deal of a message of trades.
pub open spec fn first_coin(v: JsonView) -> Option<Seq<char>> {
    if v.text_of("channel"@) != Some("trades"@) {
        None
    } else {
        match v.items_of("data"@) {
            Some(items) => if items.len() > 0 {
                items[0].text_of("coin"@)
            } else {
                None
            },
            None => None,
        }
    }
}

/// The side of the taker: "B" bought, "A" or "S" sold.
pub open spec fn taker_side(s: Seq<char>) -> Option<AggressorSide> {
    if s == "B"@ {
        Some(AggressorSide::Bid)
    } else if s == "A"@ || s == "S"@ {
        Some(AggressorSide::Ask)
    } else {
        None
    }
}

/// One deal of a message; it is skipped where its side is unknown or it lacks a price or a size.
pub open spec fn hyperliquid_deal(v: JsonView, spec: SpecView) -> DealView {
    match (taker_side(text_or_empty(v.text_of("side"@))), v.text_of("px"@), v.text_of("sz"@)) {
        (Some(aggressor), Some(p), Some(q)) => match scaled_or_error(p, spec.price_scale) {
            Err(e) => DealView::Fail(e),
            Ok(price) => match scaled_or_error(q, spec.qty_scale) {
                Err(e) => DealView::Fail(e),
                Ok(qty) => DealView::Keep(
                    TradePrint {
                        exchange_ts_ns: ms_to_ns(
                            match v.signed_of("time"@) {
                                Some(t) => t,
                                None => 0,
                            },
                        ),
                        aggressor,
                        price,
                        qty,
                        trade_id: match v.unsigned_of("tid"@) {
                            Some(n) => n,
                            None => 0,
                        },
                    },
                ),
            },
        },
        _ => DealView::Skip,
    }
}

/// The trades of a message; none where it holds no array of deals.
pub open spec fn hyperliquid_trades(v: JsonView, spec: SpecView) -> Result<
    Seq<TradePrint>,
    ErrorView,
> {
    match v.items_of("data"@) {
        None => Ok(Seq::empty()),
        Some(items) => usable(
            items,
            |t: JsonView| hyperliquid_deal(t, spec),
            "hyperliquid: no usable deals"@,
        ),
    }
}

struct HyperliquidDeals<'a> {
    spec: &'a SymbolSpec,
}

impl<'a> DealReader for HyperliquidDeals<'a> {
    closed spec fn deal_view(&self, v: JsonView) -> DealView {
        hyperliquid_deal(v, self.spec@)
    }

    fn read(&self, v: &Json) -> (r: Deal) {
        let side = text_or_default(v, "side");
        let aggressor = if same_text(side, "B") {
            AggressorSide::Bid
        } else if same_text(side, "A") || same_text(side, "S") {
            AggressorSide::Ask
        } else {
            return Deal::Skip;
        };
        let price_str = match v.text_at("px") {
            Some(x) => x,
            None => {
                return Deal::Skip;
            },
        };
        let qty_str = match v.text_at("sz") {
            Some(x) => x,
            None => {
                return Deal::Skip;
            },
        };
        let price: i64 = match parse_scaled(price_str, self.spec.price_scale) {
            Ok(x) => x,
            Err(e) => {
                return Deal::Fail(e);
            },
        };
        let qty: i64 = match parse_scaled(qty_str, self.spec.qty_scale) {
            Ok(x) => x,
            Err(e) => {
                return Deal::Fail(e);
            },
        };
        let time_ms: i64 = match v.i64_at("time") {
            Some(t) => t,
            None => 0,
        };
        let trade_id: u64 = match v.u64_at("tid") {
            Some(n) => n,
            None => 0,
        };
        Deal::Keep(
            TradePrint {
                exchange_ts_ns: nanoseconds(time_ms),
                aggressor,
                price,
                qty,
                trade_id,
            },
        )
    }
}

impl HyperliquidTradeParser {
    /// The coin of a message of trades.
    pub fn peek_symbol<'a>(&self, v: &'a Json) -> (r: Option<&'a str>)
        ensures
            found_text(r) == first_coin(v@),
    {
        let is_trades = match v.text_at("channel") {
            Some(c) => same_text(c, "trades"),
            None => false,
        };
        if !is_trades {
            return None;
        }
        match v.array_at("data") {
            Some(items) => {
                proof {
                    lemma_items_view(items@);
                }
                if items.len() > 0 {
                    items[0].text_at("coin")
                } else {
                    None
                }
            },
            None => None,
        }
    }

    /// All trades of a message that has been read already.
    pub fn parse_value(&self, v: &Json, spec: &SymbolSpec) -> (r: Result<
        Vec<TradePrint>,
        ExchangeError,
    >)
        ensures
            trades_outcome(r) == hyperliquid_trades(v@, spec@),
    {
        match v.array_at("data") {
            None => Ok(Vec::new()),
            Some(items) => {
                let reader = HyperliquidDeals { spec };
                proof {
                    lemma_items_view(items@);
                    assert((|t: JsonView| reader.deal_view(t)) =~= (|t: JsonView|
                        hyperliquid_deal(t, spec@)));
                }
                match read_deals(&reader, items) {
                    Ok(out) => if out.len() == 0 && items.len() > 0 {
                        Err(missing("hyperliquid: no usable deals"))
                    } else {
                        Ok(out)
                    },
                    Err(e) => Err(e),
                }
            },
        }
    }
}

/// A trade says what its deal says: the venue's time in nanoseconds, the side of the taker, the
/// scaled price and quantity. A deal that lacks a side, a price or a quantity is skipped, and one
/// with a price or a quantity that is no number is refused.
pub proof fn law_trade_says_what_the_deal_says(d: JsonView, spec: SpecView)
    ensures
        hyperliquid_deal(d, spec) is Keep ==> ({
            let t = hyperliquid_deal(d, spec)->Keep_0;
            &&& t.aggressor == AggressorSide::Bid <==> d.text_of("side"@) == Some("B"@)
            &&& t.aggressor == AggressorSide::Ask <==> d.text_of("side"@) == Some("A"@)
                || d.text_of("side"@) == Some("S"@)
            &&& d.text_of("px"@) is Some
            &&& scaled(d.text_of("px"@)->0, spec.price_scale) == Ok::<i64, Seq<char>>(t.price)
            &&& d.text_of("sz"@) is Some
            &&& scaled(d.text_of("sz"@)->0, spec.qty_scale) == Ok::<i64, Seq<char>>(t.qty)
            &&& d.signed_of("time"@) is Some ==> is_ms_in_ns(
                d.signed_of("time"@)->0,
                t.exchange_ts_ns,
            )
            &&& d.unsigned_of("tid"@) is Some ==> t.trade_id == d.unsigned_of("tid"@)->0
        }),
        hyperliquid_deal(d, spec) is Keep <==> {
            &&& d.text_of("side"@) == Some("A"@) || d.text_of("side"@) == Some("B"@) || d.text_of(
                "side"@,
            ) == Some("S"@)
            &&& d.text_of("px"@) is Some && scaled(d.text_of("px"@)->0, spec.price_scale) is Ok
            &&& d.text_of("sz"@) is Some && scaled(d.text_of("sz"@)->0, spec.qty_scale) is Ok
        },
        hyperliquid_deal(d, spec) is Fail ==> d.text_of("px"@) is Some && d.text_of("sz"@) is Some,
{
    reveal_strlit("A");
    reveal_strlit("B");
    reveal_strlit("S");
    reveal_strlit("");
    assert("A"@[0] == 'A' && "B"@[0] == 'B' && "S"@[0] == 'S');
    assert(""@.len() == 0 && "A"@.len() == 1 && "B"@.len() == 1 && "S"@.len() == 1);
}

/// The trades of a message are those of its deals, in order; a message none of whose deals gives a
/// trade is refused, and one without data gives none.
pub proof fn law_trades_are_those_of_the_deals(v: JsonView, spec: SpecView)
    ensures
        v.items_of("data"@) is None ==> hyperliquid_trades(v, spec) == Ok::<
            Seq<TradePrint>,
            ErrorView,
        >(Seq::empty()),
        v.items_of("data"@) is Some ==> ({
            let items = v.items_of("data"@)->0;
            let read = dealt(items, |t: JsonView| hyperliquid_deal(t, spec));
            &&& read is Err ==> hyperliquid_trades(v, spec) == read
            &&& read is Ok && (read->Ok_0.len() > 0 || items.len() == 0) ==> hyperliquid_trades(
                v,
                spec,
            ) == read
            &&& read is Ok && read->Ok_0.len() == 0 && items.len() > 0 ==> hyperliquid_trades(
                v,
                spec,
            ) is Err
        }),
{
}

/// A message has a coin exactly where it is of the channel of trades and its first deal names one.
pub proof fn law_first_deal_names_the_coin(v: JsonView, coin: Seq<char>)
    ensures
        first_coin(v) == Some(coin) <==> {
            &&& v.text_of("channel"@) == Some("trades"@)
            &&& v.items_of("data"@) is Some
            &&& v.items_of("data"@)->0.len() > 0
            &&& v.items_of("data"@)->0[0].text_of("coin"@) == Some(coin)
        },
{
}

/// A deal without a time has time zero, and one without a number has number zero.
pub proof fn law_missing_members_are_zero(d: JsonView, spec: SpecView)
    requires
        hyperliquid_deal(d, spec) is Keep,
    ensures
        d.signed_of("time"@) is None ==> hyperliquid_deal(d, spec)->Keep_0.exchange_ts_ns == 0,
        d.unsigned_of("tid"@) is None ==> hyperliquid_deal(d, spec)->Keep_0.trade_id == 0,
{
}

} // verus!
