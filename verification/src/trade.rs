//! What the venues' trade messages have in common.

use vstd::prelude::*;
use vstd::string::*;

use crate::json::{items_view, lemma_items_view, Json, JsonView};
use crate::traits::{ErrorView, ExchangeError};
use crate::types::TradePrint;

verus! {

/// What one deal of a message comes to.
pub enum Deal {
    Skip,
    Keep(TradePrint),
    Fail(ExchangeError),
}

/// What a `Deal` says.
pub enum DealView {
    Skip,
    Keep(TradePrint),
    Fail(ErrorView),
}

impl View for Deal {
    type V = DealView;

    open spec fn view(&self) -> DealView {
        match self {
            Deal::Skip => DealView::Skip,
            Deal::Keep(t) => DealView::Keep(*t),
            Deal::Fail(e) => DealView::Fail(e@),
        }
    }
}

/// The kept deals in order, or the error of the first deal that is refused.
pub open spec fn dealt(items: Seq<JsonView>, deal: spec_fn(JsonView) -> DealView) -> Result<
    Seq<TradePrint>,
    ErrorView,
>
    decreases items.len(),
{
    if items.len() == 0 {
        Ok(Seq::empty())
    } else {
        match dealt(items.drop_last(), deal) {
            Err(e) => Err(e),
            Ok(kept) => match deal(items.last()) {
                DealView::Skip => Ok(kept),
                DealView::Keep(t) => Ok(kept.push(t)),
                DealView::Fail(e) => Err(e),
            },
        }
    }
}

/// What a function that reads trades returns.
pub open spec fn trades_outcome(r: Result<Vec<TradePrint>, ExchangeError>) -> Result<
    Seq<TradePrint>,
    ErrorView,
> {
    match r {
        Ok(v) => Ok(v@),
        Err(e) => Err(e@),
    }
}

/// How one venue reads a deal of a message.
pub trait DealReader {
    /// What a deal comes to.
    spec fn deal_view(&self, v: JsonView) -> DealView;

    fn read(&self, v: &Json) -> (r: Deal)
        ensures
            r@ == self.deal_view(v@),
    ;
}

proof fn lemma_dealt_prefix(
    items: Seq<JsonView>,
    deal: spec_fn(JsonView) -> DealView,
    n: int,
    e: ErrorView,
)
    requires
        0 <= n <= items.len(),
        dealt(items.take(n), deal) == Err::<Seq<TradePrint>, ErrorView>(e),
    ensures
        dealt(items, deal) == Err::<Seq<TradePrint>, ErrorView>(e),
    decreases items.len(),
{
    if n < items.len() {
        assert(items.drop_last().take(n) =~= items.take(n));
        lemma_dealt_prefix(items.drop_last(), deal, n, e);
    } else {
        assert(items.take(n) =~= items);
    }
}

/// Reads the deals of a message.
pub fn read_deals<R: DealReader>(reader: &R, items: &Vec<Json>) -> (r: Result<
    Vec<TradePrint>,
    ExchangeError,
>)
    ensures
        trades_outcome(r) == dealt(items_view(items@), |v: JsonView| reader.deal_view(v)),
{
    let ghost deal = |v: JsonView| reader.deal_view(v);
    let ghost rows = items_view(items@);
    proof {
        lemma_items_view(items@);
    }
    let mut out: Vec<TradePrint> = Vec::new();
    let mut i: usize = 0;
    assert(out@ =~= Seq::<TradePrint>::empty());
    while i < items.len()
        invariant
            i <= items@.len(),
            rows.len() == items@.len(),
            rows == items_view(items@),
            deal == (|v: JsonView| reader.deal_view(v)),
            forall|j: int| 0 <= j < items@.len() ==> #[trigger] rows[j] == items@[j]@,
            dealt(rows.take(i as int), deal) == Ok::<Seq<TradePrint>, ErrorView>(out@),
        decreases items@.len() - i,
    {
        let ghost next = rows.take(i as int + 1);
        assert(next.drop_last() =~= rows.take(i as int));
        assert(next.last() == items@[i as int]@);
        match reader.read(&items[i]) {
            Deal::Skip => {},
            Deal::Keep(t) => {
                out.push(t);
            },
            Deal::Fail(e) => {
                proof {
                    lemma_dealt_prefix(rows, deal, i as int + 1, e@);
                }
                return Err(e);
            },
        }
        i = i + 1;
    }
    assert(rows.take(i as int) =~= rows);
    Ok(out)
}

/// The error of a member that is missing.
pub fn missing(message: &str) -> (r: ExchangeError)
    ensures
        r@ == ErrorView::Parse(message@),
{
    ExchangeError::Parse(message.to_owned())
}

/// The trades of two rows of deals one behind the other are those of the first and then those of the
/// second; a deal that is refused refuses all, the first one with its reason.
pub proof fn law_deals_add_up(
    a: Seq<JsonView>,
    b: Seq<JsonView>,
    deal: spec_fn(JsonView) -> DealView,
    v: JsonView,
)
    ensures
        dealt(a + b, deal) == match (dealt(a, deal), dealt(b, deal)) {
            (Err(e), _) => Err::<Seq<TradePrint>, ErrorView>(e),
            (Ok(_), Err(e)) => Err(e),
            (Ok(x), Ok(y)) => Ok(x + y),
        },
        dealt(Seq::empty(), deal) == Ok::<Seq<TradePrint>, ErrorView>(Seq::empty()),
        deal(v) is Skip ==> dealt(seq![v], deal) == Ok::<Seq<TradePrint>, ErrorView>(Seq::empty()),
        deal(v) is Keep ==> dealt(seq![v], deal) == Ok::<Seq<TradePrint>, ErrorView>(
            seq![deal(v)->Keep_0],
        ),
        deal(v) is Fail ==> dealt(seq![v], deal) == Err::<Seq<TradePrint>, ErrorView>(
            deal(v)->Fail_0,
        ),
    decreases b.len(),
{
    let one = seq![v];
    assert(one.drop_last() =~= Seq::<JsonView>::empty());
    assert(one.last() == v);
    assert(Seq::<TradePrint>::empty().push(deal(v)->Keep_0) =~= seq![deal(v)->Keep_0]);
    if b.len() == 0 {
        assert(a + b =~= a);
        assert(b =~= Seq::<JsonView>::empty());
        match dealt(a, deal) {
            Ok(x) => assert(x + Seq::<TradePrint>::empty() =~= x),
            Err(_) => {},
        }
    } else {
        law_deals_add_up(a, b.drop_last(), deal, v);
        assert((a + b).drop_last() =~= a + b.drop_last());
        assert((a + b).last() == b.last());
        match (dealt(a, deal), dealt(b.drop_last(), deal), deal(b.last())) {
            (Ok(x), Ok(y), DealView::Keep(t)) => assert((x + y).push(t) =~= x + y.push(t)),
            _ => {},
        }
    }
}

/// Where no deal is skipped and none refused, each gives its trade, in order.
pub proof fn lemma_all_kept(items: Seq<JsonView>, deal: spec_fn(JsonView) -> DealView, i: int)
    requires
        dealt(items, deal) is Ok,
        forall|v: JsonView| !(#[trigger] deal(v) is Skip),
        0 <= i < items.len(),
    ensures
        dealt(items, deal)->Ok_0.len() == items.len(),
        deal(items[i]) == DealView::Keep(dealt(items, deal)->Ok_0[i]),
    decreases items.len(),
{
    if i < items.len() - 1 {
        lemma_all_kept(items.drop_last(), deal, i);
        assert(items.drop_last()[i] == items[i]);
    } else if items.len() > 1 {
        lemma_all_kept(items.drop_last(), deal, 0);
    }
    assert(!(deal(items.last()) is Skip));
}

} // verus!
