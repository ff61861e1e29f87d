//! What holds of every book that the order-by-order queue model keeps.

use vstd::prelude::*;

use crate::l3;
use crate::l3::{L3Book, L3Order, L3OrderId, L3OrderSource, Levels};
use crate::types::{BacktestError, Order, Side};

verus! {

/// Every order waits in the queue of its own price.
pub open spec fn levels_priced<N>(levels: Levels<N>) -> bool {
    forall|tick: i32, i: int|
        #![trigger levels[tick][i]]
        levels.contains_key(tick) && 0 <= i < levels[tick].len() ==> levels[tick][i].price_tick
            == tick
}

/// Every order waits in the queue of its own price.
pub open spec fn priced<N>(book: L3Book<N>) -> bool {
    levels_priced(book.bids) && levels_priced(book.asks)
}

/// The order with this id is in the queue once at most.
pub open spec fn unrepeated<N>(q: Seq<L3Order<N>>, id: L3OrderId) -> bool {
    forall|i: int, j: int|
        0 <= i < q.len() && 0 <= j < q.len() && id.names(#[trigger] q[i]) && id.names(
            #[trigger] q[j],
        ) ==> i == j
}

/// An order that was added is what cancelling it gives back, and the book is then as before, but
/// for a queue that may have been made at the order's price. This is for an order that is added
/// under its own id, while no other order with that id is in the index or waits at that price.
pub proof fn cancel_gives_back_what_was_added<N>(
    book: L3Book<N>,
    id: L3OrderId,
    order: L3Order<N>,
)
    requires
        order.side != Side::Unsupported,
        id.names(order),
        !book.index.contains_key(id),
        l3::place(l3::level(book.levels(order.side), order.price_tick), id) is None,
    ensures
        book.added(id, order).1 is Ok,
        ({
            let levels = book.levels(order.side);
            book.added(id, order).0.cancelled(id) == (
                book.with_levels(
                    order.side,
                    levels.insert(order.price_tick, l3::level(levels, order.price_tick)),
                ),
                Ok::<L3Order<N>, BacktestError>(order),
            )
        }),
{
    let levels = book.levels(order.side);
    let q = l3::level(levels, order.price_tick);
    let longer = q.push(order);
    let n = q.len() as int;
    assert forall|j: int| 0 <= j < n implies !id.names(#[trigger] longer[j]) by {
        if id.names(q[j]) {
            lemma_named_has_place(q, id, j);
        }
    }
    l3::lemma_place(longer, id, n);
    assert(longer.remove(n) =~= q);
    let after = book.added(id, order).0.cancelled(id).0;
    assert(after.index =~= book.index);
    assert(after.levels(order.side) =~= levels.insert(order.price_tick, q));
}

/// An order with the id is where the search for the id ends, or comes after that place.
proof fn lemma_named_has_place<N>(q: Seq<L3Order<N>>, id: L3OrderId, j: int)
    requires
        0 <= j < q.len(),
        id.names(q[j]),
    ensures
        l3::place(q, id) matches Some(i) && l3::is_first(q, id, i) && i <= j,
    decreases j,
{
    if l3::is_first(q, id, j) {
        l3::lemma_place(q, id, j);
    } else {
        let k = choose|k: int| 0 <= k < j && id.names(#[trigger] q[k]);
        lemma_named_has_place(q, id, k);
    }
}

/// An order that was cancelled or executed, with whatever outcome, is known no longer: cancelling,
/// modifying or executing it then fails, and leaves the book as it is.
pub proof fn a_removed_order_is_not_found<N>(
    book: L3Book<N>,
    id: L3OrderId,
    order: L3Order<N>,
    increased: bool,
    delete: bool,
    after: L3Book<N>,
)
    requires
        after == book.cancelled(id).0 || after == book.executed(id, delete),
    ensures
        after.cancelled(id) == (
            after,
            Err::<L3Order<N>, BacktestError>(BacktestError::OrderNotFound),
        ),
        after.modified(id, order, increased) == (
            after,
            Err::<(), BacktestError>(BacktestError::OrderNotFound),
        ),
        !after.holds(id),
        after.executed(id, delete) == after,
{
}

/// The queues of a side keep their orders at their prices when an order is put at the back of the
/// queue of its price, when one is taken out, or when one is replaced.
proof fn lemma_levels_priced<N>(levels: Levels<N>, tick: i32, q: Seq<L3Order<N>>)
    requires
        levels_priced(levels),
        forall|i: int| 0 <= i < q.len() ==> (#[trigger] q[i]).price_tick == tick,
    ensures
        levels_priced(levels.insert(tick, q)),
{
}

/// Every order waits in the queue of its own price, whatever is done to the book.
pub proof fn orders_wait_at_their_price<N>(
    book: L3Book<N>,
    id: L3OrderId,
    order: L3Order<N>,
    increased: bool,
    delete: bool,
)
    requires
        priced(book),
        book.wf(),
    ensures
        priced(L3Book::<N>::empty()),
        priced(book.added(id, order).0),
        priced(book.cancelled(id).0),
        book.holds(id) && book.levels(book.index[id].0).contains_key(order.price_tick) ==> priced(
            book.modified(id, order, increased).0,
        ),
        !book.holds(id) ==> priced(book.modified(id, order, increased).0),
        priced(book.executed(id, delete)),
{
    let levels = book.levels(order.side);
    let q = l3::level(levels, order.price_tick);
    lemma_levels_priced(levels, order.price_tick, q.push(order));
    if book.index.contains_key(id) {
        assert(book.sound(id));
        let (side, tick) = book.index[id];
        let levels = book.levels(side);
        let q = levels[tick];
        assert forall|i: int| 0 <= i < q.len() implies (#[trigger] q[i]).price_tick == tick by {
            assert(levels[tick][i].price_tick == tick);
        }
        if let Some(i) = l3::place(q, id) {
            assert(l3::is_first(q, id, i));
            lemma_levels_priced(levels, tick, q.remove(i));
            if levels.contains_key(order.price_tick) {
                lemma_replaced_priced(levels, tick, i, order, increased);
            }
        }
        let n = l3::ahead(q, id);
        let kept = q.take(n).filter(l3::from_source(L3OrderSource::Market));
        let left = l3::left_after_fill(q, id, delete);
        lemma_ahead(q, id);
        assert forall|i: int| 0 <= i < left.len() implies {
            (#[trigger] left[i]).price_tick == tick
        } by {
            if i < kept.len() {
                lemma_filtered(q.take(n), l3::from_source(L3OrderSource::Market), i);
            }
        }
        lemma_levels_priced(levels, tick, left);
    }
}

/// What is filtered out of a queue was in it.
proof fn lemma_filtered<N>(q: Seq<L3Order<N>>, pred: spec_fn(L3Order<N>) -> bool, i: int)
    requires
        0 <= i < q.filter(pred).len(),
    ensures
        pred(q.filter(pred)[i]),
        q.contains(q.filter(pred)[i]),
{
    q.lemma_filter_pred(pred, i);
    q.lemma_filter_contains_rev(pred, q.filter(pred)[i]);
}

/// At most the whole queue is ahead of an order.
proof fn lemma_ahead<N>(q: Seq<L3Order<N>>, id: L3OrderId)
    ensures
        0 <= l3::ahead(q, id) <= q.len(),
        l3::place(q, id) is Some ==> l3::is_first(q, id, l3::ahead(q, id)),
        l3::place(q, id) is Some <==> l3::ahead(q, id) < q.len(),
{
    if let Some(i) = l3::place(q, id) {
        assert(l3::is_first(q, id, i));
    }
}

/// Replacing an order keeps the orders at their prices.
proof fn lemma_replaced_priced<N>(
    levels: Levels<N>,
    tick: i32,
    i: int,
    order: L3Order<N>,
    increased: bool,
)
    requires
        levels_priced(levels),
        levels.contains_key(tick),
        levels.contains_key(order.price_tick),
        0 <= i < levels[tick].len(),
    ensures
        levels_priced(l3::replaced(levels, tick, i, order, increased)),
{
    let q = levels[tick];
    assert forall|j: int| 0 <= j < q.len() implies (#[trigger] q[j]).price_tick == tick by {
        assert(levels[tick][j].price_tick == tick);
    }
    if q[i].price_tick != order.price_tick {
        lemma_levels_priced(levels, tick, q.remove(i));
        let rest = levels.insert(tick, q.remove(i));
        let moved = rest[order.price_tick].push(order);
        assert forall|j: int| 0 <= j < moved.len() implies (#[trigger] moved[j]).price_tick
            == order.price_tick by {
            if j < moved.len() - 1 {
                assert(rest[order.price_tick][j].price_tick == order.price_tick);
            }
        }
        lemma_levels_priced(rest, order.price_tick, moved);
    } else if increased {
        lemma_levels_priced(levels, tick, q.remove(i).push(order));
    } else {
        lemma_levels_priced(
            levels,
            tick,
            q.update(i, Order { leaves_qty: order.leaves_qty, qty: order.qty, ..q[i] }),
        );
    }
}

/// A modification that neither changes the price nor increases the remaining quantity costs no
/// priority: every order keeps its place in the queue.
pub proof fn reducing_an_order_keeps_every_place<N>(
    book: L3Book<N>,
    id: L3OrderId,
    order: L3Order<N>,
    any: L3OrderId,
)
    requires
        book.holds(id),
        ({
            let q = book.queue_of(id);
            q[l3::place(q, id)->0].price_tick == order.price_tick
        }),
    ensures
        ({
            let after = book.modified(id, order, false).0;
            &&& after.index == book.index
            &&& after.queue_of(id).len() == book.queue_of(id).len()
            &&& l3::place(after.queue_of(id), any) == l3::place(book.queue_of(id), any)
        }),
{
    let q = book.queue_of(id);
    let i = l3::place(q, id)->0;
    assert(l3::is_first(q, id, i));
    let changed = Order { leaves_qty: order.leaves_qty, qty: order.qty, ..q[i] };
    let p = q.update(i, changed);
    assert(book.modified(id, order, false).0.queue_of(id) == p);
    assert forall|j: int| 0 <= j < q.len() implies {
        any.names(#[trigger] p[j]) == any.names(q[j])
    } by {}
    if let Some(k) = l3::place(q, any) {
        assert(l3::is_first(q, any, k));
        assert forall|j: int| 0 <= j < k implies !any.names(#[trigger] p[j]) by {
            assert(!any.names(q[j]));
        }
        assert(l3::is_first(p, any, k));
        l3::lemma_place(p, any, k);
    } else {
        assert forall|j: int| 0 <= j < p.len() implies !any.names(#[trigger] p[j]) by {
            if any.names(q[j]) {
                lemma_named_has_place(q, any, j);
            }
        }
        l3::lemma_no_place(p, any);
    }
}

/// A modification that changes the price or increases the remaining quantity costs the priority:
/// the order stands last in the queue of its price, and the others close up.
pub proof fn moving_or_increasing_an_order_puts_it_last<N>(
    book: L3Book<N>,
    id: L3OrderId,
    order: L3Order<N>,
    increased: bool,
)
    requires
        book.holds(id),
        priced(book),
        book.levels(book.index[id].0).contains_key(book.index[id].1),
        book.levels(book.index[id].0).contains_key(order.price_tick),
        ({
            let q = book.queue_of(id);
            q[l3::place(q, id)->0].price_tick != order.price_tick || increased
        }),
    ensures
        ({
            let (side, tick) = book.index[id];
            let q = book.queue_of(id);
            let levels = book.levels(side);
            let after = book.modified(id, order, increased).0.levels(side);
            let others = q.remove(l3::place(q, id)->0);
            if order.price_tick == tick {
                after[tick] == others.push(order)
            } else {
                &&& after[tick] == others
                &&& after[order.price_tick] == levels[order.price_tick].push(order)
            }
        }),
{
    let (side, tick) = book.index[id];
    let levels = book.levels(side);
    let q = levels[tick];
    let i = l3::place(q, id)->0;
    assert(l3::is_first(q, id, i));
    assert(levels[tick][i].price_tick == tick);
}

/// After a modification that leaves the price, cancelling gives back the order as it was modified.
/// This is for an order that is modified under its own id and waits in its queue once. (After a
/// change of price the index still points to the old queue, and the order is not found.)
pub proof fn cancel_gives_back_what_was_modified<N>(
    book: L3Book<N>,
    id: L3OrderId,
    order: L3Order<N>,
    increased: bool,
)
    requires
        book.holds(id),
        id.names(order),
        unrepeated(book.queue_of(id), id),
        ({
            let q = book.queue_of(id);
            q[l3::place(q, id)->0].price_tick == order.price_tick
        }),
    ensures
        ({
            let q = book.queue_of(id);
            let resting = q[l3::place(q, id)->0];
            book.modified(id, order, increased).0.cancelled(id).1 == Ok::<
                L3Order<N>,
                BacktestError,
            >(
                if increased {
                    order
                } else {
                    Order { leaves_qty: order.leaves_qty, qty: order.qty, ..resting }
                },
            )
        }),
{
    let q = book.queue_of(id);
    let i = l3::place(q, id)->0;
    assert(l3::is_first(q, id, i));
    if increased {
        let p = q.remove(i).push(order);
        let n = p.len() - 1;
        assert forall|j: int| 0 <= j < n implies !id.names(#[trigger] p[j]) by {
            assert(p[j] == if j < i { q[j] } else { q[j + 1] });
        }
        l3::lemma_place(p, id, n);
    } else {
        let changed = Order { leaves_qty: order.leaves_qty, qty: order.qty, ..q[i] };
        let p = q.update(i, changed);
        assert forall|j: int| 0 <= j < i implies !id.names(#[trigger] p[j]) by {
            assert(!id.names(q[j]));
        }
        l3::lemma_place(p, id, i);
    }
}

/// Every order is of the market or of the strategy.
proof fn lemma_sources<N>(q: Seq<L3Order<N>>)
    ensures
        q.filter(l3::from_source(L3OrderSource::Backtesting)).to_multiset().add(
            q.filter(l3::from_source(L3OrderSource::Market)).to_multiset(),
        ) == q.to_multiset(),
    decreases q.len(),
{
    reveal(Seq::filter);
    broadcast use vstd::seq_lib::group_to_multiset_ensures;
    broadcast use vstd::multiset::group_multiset_axioms;

    let market = l3::from_source::<N>(L3OrderSource::Market);
    let backtesting = l3::from_source::<N>(L3OrderSource::Backtesting);
    if q.len() > 0 {
        lemma_sources(q.drop_last());
        assert(q =~= q.drop_last().push(q.last()));
        assert(q.filter(backtesting).to_multiset().add(q.filter(market).to_multiset())
            =~= q.to_multiset());
    } else {
        assert(q.filter(backtesting).to_multiset().add(q.filter(market).to_multiset())
            =~= q.to_multiset());
    }
}

/// No order is lost or made when one is executed: what was in the queue is what was filled and what
/// is left, and the order itself if it was taken out.
pub proof fn execution_accounts_for_every_order<N>(
    q: Seq<L3Order<N>>,
    id: L3OrderId,
    delete: bool,
)
    requires
        l3::place(q, id) is Some,
    ensures
        ({
            let filled = l3::filled_ahead(q, id).to_multiset();
            let left = l3::left_after_fill(q, id, delete).to_multiset();
            q.to_multiset() == if delete {
                filled.add(left).insert(q[l3::place(q, id)->0])
            } else {
                filled.add(left)
            }
        }),
{
    broadcast use vstd::seq_lib::group_to_multiset_ensures;
    broadcast use vstd::multiset::group_multiset_axioms;

    lemma_ahead(q, id);
    let n = l3::ahead(q, id);
    let kept = q.take(n).filter(l3::from_source(L3OrderSource::Market));
    let rest = if delete {
        q.skip(n + 1)
    } else {
        q.skip(n)
    };
    lemma_sources(q.take(n));
    vstd::seq_lib::lemma_multiset_commutative(kept, rest);
    vstd::seq_lib::lemma_multiset_commutative(q.take(n), q.skip(n));
    assert(q =~= q.take(n) + q.skip(n));
    if delete {
        assert(q.skip(n).remove(0) =~= q.skip(n + 1));
        assert(q.skip(n).to_multiset() =~= q.skip(n + 1).to_multiset().insert(q[n]));
    }
    let filled = l3::filled_ahead(q, id).to_multiset();
    let left = l3::left_after_fill(q, id, delete).to_multiset();
    assert(q.to_multiset() =~= if delete {
        filled.add(left).insert(q[n])
    } else {
        filled.add(left)
    });
}

/// Executing an order fills orders of the strategy only, and passes over those of the market, which
/// stay ahead of it. What stands behind it stays as it is.
pub proof fn execution_fills_the_orders_ahead<N>(
    q: Seq<L3Order<N>>,
    id: L3OrderId,
    delete: bool,
)
    requires
        l3::place(q, id) is Some,
    ensures
        ({
            let i = l3::place(q, id)->0;
            let filled = l3::filled_ahead(q, id);
            let left = l3::left_after_fill(q, id, delete);
            let ahead = if delete {
                left.len() - (q.len() - i - 1)
            } else {
                left.len() - (q.len() - i)
            };
            &&& forall|j: int|
                0 <= j < filled.len() ==> (#[trigger] filled[j]).q == L3OrderSource::Backtesting
                    && q.take(i).contains(filled[j])
            &&& 0 <= ahead <= left.len()
            &&& forall|j: int|
                0 <= j < ahead ==> (#[trigger] left[j]).q == L3OrderSource::Market
            &&& left.skip(ahead) == if delete {
                q.skip(i + 1)
            } else {
                q.skip(i)
            }
        }),
{
    lemma_ahead(q, id);
    let i = l3::ahead(q, id);
    let market = l3::from_source::<N>(L3OrderSource::Market);
    let backtesting = l3::from_source::<N>(L3OrderSource::Backtesting);
    let kept = q.take(i).filter(market);
    let left = l3::left_after_fill(q, id, delete);
    assert forall|j: int| 0 <= j < kept.len() implies (#[trigger] left[j]).q
        == L3OrderSource::Market by {
        lemma_filtered(q.take(i), market, j);
    }
    let filled = l3::filled_ahead(q, id);
    assert forall|j: int| 0 <= j < filled.len() implies (#[trigger] filled[j]).q
        == L3OrderSource::Backtesting && q.take(i).contains(filled[j]) by {
        lemma_filtered(q.take(i), backtesting, j);
    }
    assert(left.skip(kept.len() as int) =~= if delete {
        q.skip(i + 1)
    } else {
        q.skip(i)
    });
}

/// `p` is made of the orders of `q` at the places `at`, in their order.
pub open spec fn picked_at<N>(p: Seq<L3Order<N>>, q: Seq<L3Order<N>>, at: Seq<int>) -> bool {
    &&& at.len() == p.len()
    &&& forall|j: int|
        #![trigger at[j]]
        0 <= j < at.len() ==> 0 <= at[j] < q.len() && p[j] == q[at[j]]
    &&& forall|i: int, j: int| 0 <= i < j < at.len() ==> #[trigger] at[i] < #[trigger] at[j]
}

/// `p` is made of orders of `q`, and they stand in the same order.
pub open spec fn in_order<N>(p: Seq<L3Order<N>>, q: Seq<L3Order<N>>) -> bool {
    exists|at: Seq<int>| picked_at(p, q, at)
}

/// The first orders of a queue, filtered, are in order.
proof fn lemma_filter_picks<N>(
    q: Seq<L3Order<N>>,
    n: int,
    pred: spec_fn(L3Order<N>) -> bool,
) -> (at: Seq<int>)
    requires
        0 <= n <= q.len(),
    ensures
        picked_at(q.take(n).filter(pred), q.take(n), at),
    decreases n,
{
    reveal(Seq::filter);
    if n == 0 {
        Seq::empty()
    } else {
        let at = lemma_filter_picks(q, n - 1, pred);
        l3::lemma_filter_next(q, n - 1, pred);
        if pred(q[n - 1]) {
            at.push(n - 1)
        } else {
            at
        }
    }
}

/// What is left of a queue after an order was executed is in order.
proof fn lemma_left_in_order<N>(q: Seq<L3Order<N>>, id: L3OrderId, delete: bool)
    ensures
        in_order(l3::left_after_fill(q, id, delete), q),
{
    lemma_ahead(q, id);
    let n = l3::ahead(q, id);
    let m = if delete && n < q.len() {
        n + 1
    } else {
        n
    };
    let front = lemma_filter_picks(q, n, l3::from_source(L3OrderSource::Market));
    let back = Seq::new((q.len() - m) as nat, |j: int| m + j);
    assert(picked_at(l3::left_after_fill(q, id, delete), q, front + back));
}

/// A queue without one of its orders is in order.
proof fn lemma_remove_in_order<N>(q: Seq<L3Order<N>>, i: int)
    requires
        0 <= i < q.len(),
    ensures
        in_order(q.remove(i), q),
{
    let at = Seq::new(
        (q.len() - 1) as nat,
        |j: int|
            if j < i {
                j
            } else {
                j + 1
            },
    );
    assert(picked_at(q.remove(i), q, at));
}

/// Orders are served first come, first served: in no queue does an order overtake another. An
/// order that is added stands behind all others, and the orders that are left when one is cancelled
/// or executed stand in the order in which they stood.
pub proof fn no_order_overtakes_another<N>(
    book: L3Book<N>,
    id: L3OrderId,
    order: L3Order<N>,
    delete: bool,
    side: Side,
    tick: i32,
)
    requires
        book.wf(),
    ensures
        ({
            let q = l3::level(book.levels(side), tick);
            let added = l3::level(book.added(id, order).0.levels(side), tick);
            let cancelled = l3::level(book.cancelled(id).0.levels(side), tick);
            let executed = l3::level(book.executed(id, delete).levels(side), tick);
            &&& added == q || added == q.push(order)
            &&& in_order(cancelled, q)
            &&& in_order(executed, q)
        }),
{
    let q = l3::level(book.levels(side), tick);
    assert(in_order(q, q)) by {
        assert(picked_at(q, q, Seq::new(q.len(), |j: int| j)));
    }
    lemma_left_in_order(q, id, delete);
    if book.index.contains_key(id) {
        assert(book.sound(id));
    }
    if let Some(i) = l3::place(q, id) {
        assert(l3::is_first(q, id, i));
        lemma_remove_in_order(q, i);
    }
}

} // verus!
