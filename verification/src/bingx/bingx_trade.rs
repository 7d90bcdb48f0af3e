//! The trades of BingX.
//!
//! Swaps send an array of deals, spot a single one. `m` says whether the buyer is the maker; on
//! spot it is inverted.

use vstd::prelude::*;
use vstd::string::*;

use crate::bybit::bybit_trade::{id_or_zero, read_id};
use crate::json::{Json, JsonView};
use crate::num::{is_ms_in_ns, ms_to_ns, nanoseconds};
use crate::scale::{parse_scaled, scaled, scaled_or_error};
use crate::text::{
    chars_of, contains_text, find_char, index_of, occurs_in, replace_char, replaced, sub_chars,
    text_of, to_uppercase, upper,
};
use crate::trade::{dealt, missing, read_deals, trades_outcome, Deal, DealReader, DealView};
use crate::traits::{ErrorView, ExchangeError};
use crate::types::{AggressorSide, MarketType, SpecView, SymbolSpec, TradePrint};

verus! {

pub struct BingxTradeParser;

/// The symbol before the `@` of a trade message, in uppercase and without dashes.
pub open spec fn data_symbol(v: JsonView) -> Option<Seq<char>> {
    match v.text_of("dataType"@) {
        Some(t) => if occurs_in(t, "@trade"@) {
            Some(upper(replaced(t.take(index_of(t, '@')), '-', ""@)))
        } else {
            None
        },
        None => None,
    }
}

/// The aggressor of a deal.
pub open spec fn deal_side(v: JsonView, market: MarketType) -> AggressorSide {
    let maker = v.boolean_of("m"@) == Some(true);
    if maker == (market == MarketType::Perp) {
        AggressorSide::Ask
    } else {
        AggressorSide::Bid
    }
}

/// One deal of a message; it is skipped where it lacks a price or a quantity.
pub open spec fn bingx_deal(v: JsonView, spec: SpecView) -> DealView {
    match (v.text_of("p"@), v.text_of("q"@)) {
        (Some(p), Some(q)) => match scaled_or_error(p, spec.price_scale) {
            Err(e) => DealView::Fail(e),
            Ok(price) => match scaled_or_error(q, spec.qty_scale) {
                Err(e) => DealView::Fail(e),
                Ok(qty) => DealView::Keep(
                    TradePrint {
                        exchange_ts_ns: ms_to_ns(
                            match v.signed_of("T"@) {
                                Some(t) => t,
                                None => 0,
                            },
                        ),
                        aggressor: deal_side(v, spec.market_type),
                        price,
                        qty,
                        trade_id: id_or_zero(v, "t"@),
                    },
                ),
            },
        },
        _ => DealView::Skip,
    }
}

/// The trades, or an error where deals came and none was usable.
pub open spec fn usable(
    items: Seq<JsonView>,
    deal: spec_fn(JsonView) -> DealView,
    message: Seq<char>,
) -> Result<Seq<TradePrint>, ErrorView> {
    match dealt(items, deal) {
        Err(e) => Err(e),
        Ok(kept) => if kept.len() == 0 && items.len() > 0 {
            Err(ErrorView::Parse(message))
        } else {
            Ok(kept)
        },
    }
}

/// The deals of a message: the items of an array, or the one value that is no array.
pub open spec fn deals_of(data: JsonView) -> Seq<JsonView> {
    match data.items() {
        Some(items) => items,
        None => seq![data],
    }
}

/// The trades of a message; none where it holds no data.
pub open spec fn bingx_trades(v: JsonView, spec: SpecView) -> Result<Seq<TradePrint>, ErrorView> {
    match v.member("data"@) {
        None => Ok(Seq::empty()),
        Some(data) => usable(
            deals_of(data),
            |t: JsonView| bingx_deal(t, spec),
            "bingx: no usable deals"@,
        ),
    }
}

struct BingxDeals<'a> {
    spec: &'a SymbolSpec,
}

impl<'a> DealReader for BingxDeals<'a> {
    closed spec fn deal_view(&self, v: JsonView) -> DealView {
        bingx_deal(v, self.spec@)
    }

    fn read(&self, v: &Json) -> (r: Deal) {
        let price_str = match v.text_at("p") {
            Some(x) => x,
            None => {
                return Deal::Skip;
            },
        };
        let qty_str = match v.text_at("q") {
            Some(x) => x,
            None => {
                return Deal::Skip;
            },
        };
        let m = match v.bool_at("m") {
            Some(b) => b,
            None => false,
        };
        let is_sell = if self.spec.market_type == MarketType::Perp {
            m
        } else {
            !m
        };
        let price: i64 = match parse_scaled(price_str, self.spec.price_scale) {
            Ok(x) => x,
            Err(e) => {
                return Deal::Fail(e);
            },
        };
        let qty: i64 = match parse_scaled(qty_str, self.spec.qty_scale) {
            Ok(x) => x,
            Err(e) => {
                return Deal::Fail(e);
            },
        };
        let ts_ms: i64 = match v.i64_at("T") {
            Some(t) => t,
            None => 0,
        };
        Deal::Keep(
            TradePrint {
                exchange_ts_ns: nanoseconds(ts_ms),
                aggressor: if is_sell {
                    AggressorSide::Ask
                } else {
                    AggressorSide::Bid
                },
                price,
                qty,
                trade_id: read_id(v, "t"),
            },
        )
    }
}

impl BingxTradeParser {
    /// The symbol of a trade message.
    pub fn peek_symbol(&self, v: &Json) -> (r: Option<String>)
        ensures
            (match r {
                Some(s) => Some(s@),
                None => None,
            }) == data_symbol(v@),
    {
        match v.text_at("dataType") {
            Some(t) => {
                if !contains_text(t, "@trade") {
                    return None;
                }
                let cs = chars_of(t);
                let at: usize = find_char(&cs, '@');
                let venue = text_of(&sub_chars(&cs, 0, at));
                assert(venue@ =~= t@.take(index_of(t@, '@')));
                Some(to_uppercase(replace_char(venue.as_str(), '-', "").as_str()))
            },
            None => None,
        }
    }

    /// All trades of a message that has been read already.
    pub fn parse_value(&self, v: &Json, spec: &SymbolSpec) -> (r: Result<
        Vec<TradePrint>,
        ExchangeError,
    >)
        ensures
            trades_outcome(r) == bingx_trades(v@, spec@),
    {
        let data = match v.get("data") {
            Some(d) => d,
            None => {
                return Ok(Vec::new());
            },
        };
        let reader = BingxDeals { spec };
        let ghost deal = |t: JsonView| bingx_deal(t, spec@);
        assert((|t: JsonView| reader.deal_view(t)) =~= deal);
        match data.as_array() {
            Some(items) => {
                proof {
                    crate::json::lemma_items_view(items@);
                }
                match read_deals(&reader, items) {
                    Ok(out) => if out.len() == 0 && items.len() > 0 {
                        Err(missing("bingx: no usable deals"))
                    } else {
                        Ok(out)
                    },
                    Err(e) => Err(e),
                }
            },
            None => {
                proof {
                    let one = seq![data@];
                    assert(one.drop_last() =~= Seq::<JsonView>::empty());
                    assert(dealt(one.drop_last(), deal) == Ok::<Seq<TradePrint>, ErrorView>(
                        Seq::empty(),
                    ));
                }
                match reader.read(data) {
                    Deal::Keep(t) => {
                        let mut out: Vec<TradePrint> = Vec::new();
                        out.push(t);
                        assert(out@ =~= Seq::<TradePrint>::empty().push(t));
                        Ok(out)
                    },
                    Deal::Skip => Err(missing("bingx: no usable deals")),
                    Deal::Fail(e) => Err(e),
                }
            },
        }
    }
}

/// The same deal has opposite aggressors on the two markets.
pub proof fn law_polarity_is_inverted(v: JsonView)
    ensures
        deal_side(v, MarketType::Perp) != deal_side(v, MarketType::Spot),
{
}

/// The aggressor follows the flag "m" of a deal: on perpetuals a set flag is a sell and a cleared one
/// a buy, on spot the other way round, so two deals that differ in the flag have opposite
/// aggressors on either market. A deal without the flag counts as one with it cleared.
pub proof fn law_aggressor_follows_the_flag(v: JsonView)
    ensures
        v.boolean_of("m"@) == Some(true) ==> deal_side(v, MarketType::Perp) == AggressorSide::Ask
            && deal_side(v, MarketType::Spot) == AggressorSide::Bid,
        v.boolean_of("m"@) != Some(true) ==> deal_side(v, MarketType::Perp) == AggressorSide::Bid
            && deal_side(v, MarketType::Spot) == AggressorSide::Ask,
{
}

/// A trade says what its deal says: the venue's time in nanoseconds, the side by the flag and the
/// market, the scaled price and quantity. A deal without a price or a quantity is skipped, and one
/// with a price or a quantity that is no number is refused.
pub proof fn law_trade_says_what_the_deal_says(d: JsonView, spec: SpecView)
    ensures
        bingx_deal(d, spec) is Keep ==> ({
            let t = bingx_deal(d, spec)->Keep_0;
            &&& d.text_of("p"@) is Some
            &&& scaled(d.text_of("p"@)->0, spec.price_scale) == Ok::<i64, Seq<char>>(t.price)
            &&& d.text_of("q"@) is Some
            &&& scaled(d.text_of("q"@)->0, spec.qty_scale) == Ok::<i64, Seq<char>>(t.qty)
            &&& (t.aggressor == AggressorSide::Ask) == ((d.boolean_of("m"@) == Some(true)) == (
            spec.market_type == MarketType::Perp))
            &&& d.signed_of("T"@) is Some ==> is_ms_in_ns(d.signed_of("T"@)->0, t.exchange_ts_ns)
        }),
        bingx_deal(d, spec) is Skip <==> d.text_of("p"@) is None || d.text_of("q"@) is None,
        bingx_deal(d, spec) is Keep <==> {
            &&& d.text_of("p"@) is Some && scaled(d.text_of("p"@)->0, spec.price_scale) is Ok
            &&& d.text_of("q"@) is Some && scaled(d.text_of("q"@)->0, spec.qty_scale) is Ok
        },
{
}

/// The trades of a message are those of its deals, in order; a message none of whose deals gives a
/// trade is refused, and one without data gives none.
pub proof fn law_trades_are_those_of_the_deals(v: JsonView, spec: SpecView)
    ensures
        v.member("data"@) is None ==> bingx_trades(v, spec) == Ok::<Seq<TradePrint>, ErrorView>(
            Seq::empty(),
        ),
        v.items_of("data"@) is Some ==> ({
            let items = v.items_of("data"@)->0;
            let read = dealt(items, |t: JsonView| bingx_deal(t, spec));
            &&& read is Err ==> bingx_trades(v, spec) == read
            &&& read is Ok && (read->Ok_0.len() > 0 || items.len() == 0) ==> bingx_trades(v, spec)
                == read
            &&& read is Ok && read->Ok_0.len() == 0 && items.len() > 0 ==> bingx_trades(
                v,
                spec,
            ) is Err
        }),
        v.member("data"@) is Some && v.items_of("data"@) is None && bingx_deal(
            v.member("data"@)->0,
            spec,
        ) is Keep ==> bingx_trades(v, spec) == Ok::<Seq<TradePrint>, ErrorView>(
            seq![bingx_deal(v.member("data"@)->0, spec)->Keep_0],
        ),
{
    let deal = |t: JsonView| bingx_deal(t, spec);
    if v.member("data"@) is Some && v.items_of("data"@) is None {
        crate::trade::law_deals_add_up(Seq::empty(), Seq::empty(), deal, v.member("data"@)->0);
    }
}

/// A message of trades carries the symbol before "@trade", in uppercase and without the dash; a message
/// whose kind says nothing of trades carries none.
pub proof fn law_kind_names_its_symbol(v: JsonView, venue: Seq<char>)
    ensures
        v.text_of("dataType"@) == Some(venue + "@trade"@) && !venue.contains('@') ==> data_symbol(v)
            == Some(upper(replaced(venue, '-', ""@))),
        v.text_of("dataType"@) is None ==> data_symbol(v) is None,
        v.text_of("dataType"@) is Some && !occurs_in(v.text_of("dataType"@)->0, "@trade"@)
            ==> data_symbol(v) is None,
{
    reveal_strlit("@trade");
    let t = venue + "@trade"@;
    let n = venue.len() as int;
    if !venue.contains('@') {
        assert forall|i: int| 0 <= i < n implies t[i] != '@' by {
            assert(t[i] == venue[i]);
            assert(venue.contains(venue[i]));
        }
        assert(t[n] == '@');
        crate::text::lemma_index_of_is(t, '@', n);
        assert(t.take(n) =~= venue);
        assert(t.subrange(n, n + "@trade"@.len()) =~= "@trade"@);
        assert(crate::text::occurs_at(t, "@trade"@, n));
    }
}

/// A deal without a time has time zero, and the number of its trade is that of its text.
pub proof fn law_time_and_number(d: JsonView, spec: SpecView, n: u64)
    requires
        bingx_deal(d, spec) is Keep,
    ensures
        d.signed_of("T"@) is None ==> bingx_deal(d, spec)->Keep_0.exchange_ts_ns == 0,
        d.text_of("t"@) == Some(crate::text::decimal(n as nat)) ==> bingx_deal(
            d,
            spec,
        )->Keep_0.trade_id == n,
        d.text_of("t"@) is None ==> bingx_deal(d, spec)->Keep_0.trade_id == 0,
{
    crate::text::law_u64_round_trip(n);
}

} // verus!
