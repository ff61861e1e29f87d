//! What each call of the order-by-order queue model does to its queues and to its index.

use vstd::prelude::*;

use crate::l3;
use crate::l3::{L3Order, L3OrderId, L3OrderSource};
use crate::l3::{L3PriceTimePriorityQueueModel, L3QueueModel};
use crate::l3_laws;
use crate::quantity::Quantity;
use crate::types::{BacktestError, Side};

verus! {

/// There is a queue at the tick on the side: on that of the bids for buy orders, and on that of the
/// asks for sell orders.
pub open spec fn has_queue<N>(
    m: L3PriceTimePriorityQueueModel<N>,
    side: Side,
    tick: i32,
) -> bool {
    match side {
        Side::Buy => m.bid_priority@.contains_key(tick),
        Side::Sell => m.ask_priority@.contains_key(tick),
        Side::Unsupported => false,
    }
}

/// The orders that wait at the tick on the side, first to last.
pub open spec fn waiting_at<N>(
    m: L3PriceTimePriorityQueueModel<N>,
    side: Side,
    tick: i32,
) -> Seq<L3Order<N>> {
    match side {
        Side::Buy => if m.bid_priority@.contains_key(tick) {
            m.bid_priority@[tick]@
        } else {
            Seq::empty()
        },
        Side::Sell => if m.ask_priority@.contains_key(tick) {
            m.ask_priority@[tick]@
        } else {
            Seq::empty()
        },
        Side::Unsupported => Seq::empty(),
    }
}

/// Where the index says that the order waits.
pub open spec fn known_at<N>(
    m: L3PriceTimePriorityQueueModel<N>,
    id: L3OrderId,
) -> Option<(Side, i32)> {
    match id {
        L3OrderId::Market(i) => if m.orders.market@.contains_key(i) {
            Some(m.orders.market@[i])
        } else {
            None
        },
        L3OrderId::Backtesting(i) => if m.orders.backtesting@.contains_key(i) {
            Some(m.orders.backtesting@[i])
        } else {
            None
        },
    }
}

/// The order bears the id: it has this number, and comes from this source.
pub open spec fn bears<N>(order: L3Order<N>, id: L3OrderId) -> bool {
    match id {
        L3OrderId::Market(i) => order.order_id == i && order.q == L3OrderSource::Market,
        L3OrderId::Backtesting(i) => order.order_id == i && order.q == L3OrderSource::Backtesting,
    }
}

/// The first order of the queue that bears the id is the one at `i`.
pub open spec fn stands_at<N>(q: Seq<L3Order<N>>, id: L3OrderId, i: int) -> bool {
    &&& 0 <= i < q.len()
    &&& bears(q[i], id)
    &&& forall|j: int| 0 <= j < i ==> !bears(#[trigger] q[j], id)
}

/// No order of the queue bears the id.
pub open spec fn stands_nowhere<N>(q: Seq<L3Order<N>>, id: L3OrderId) -> bool {
    forall|j: int| 0 <= j < q.len() ==> !bears(#[trigger] q[j], id)
}

/// The queue that the index points to exists.
pub open spec fn points_to_a_queue<N>(
    m: L3PriceTimePriorityQueueModel<N>,
    id: L3OrderId,
) -> bool {
    known_at(m, id) matches Some((side, tick)) ==> has_queue(m, side, tick)
}

/// The index is as it was for all orders but `id`.
pub open spec fn others_known_as_before<N>(
    m: L3PriceTimePriorityQueueModel<N>,
    id: L3OrderId,
    m2: L3PriceTimePriorityQueueModel<N>,
) -> bool {
    forall|k: L3OrderId| k != id ==> #[trigger] known_at(m2, k) == known_at(m, k)
}

/// All queues are as they were but the ones at the tick and at the other tick on the side.
pub open spec fn others_wait_as_before<N>(
    m: L3PriceTimePriorityQueueModel<N>,
    side: Side,
    tick: i32,
    other: i32,
    m2: L3PriceTimePriorityQueueModel<N>,
) -> bool {
    forall|s: Side, t: i32|
        #![trigger waiting_at(m2, s, t)]
        !(s == side && (t == tick || t == other)) ==> {
            &&& waiting_at(m2, s, t) == waiting_at(m, s, t)
            &&& has_queue(m2, s, t) == has_queue(m, s, t)
        }
}

/// All queues are as they were.
pub open spec fn all_wait_as_before<N>(
    m: L3PriceTimePriorityQueueModel<N>,
    m2: L3PriceTimePriorityQueueModel<N>,
) -> bool {
    forall|s: Side, t: i32|
        #![trigger waiting_at(m2, s, t)]
        waiting_at(m2, s, t) == waiting_at(m, s, t) && has_queue(m2, s, t) == has_queue(m, s, t)
}

/// What the queues of one side hold.
proof fn lemma_waiting<N>(m: L3PriceTimePriorityQueueModel<N>, side: Side, tick: i32)
    requires
        side != Side::Unsupported,
    ensures
        waiting_at(m, side, tick) == l3::level(m@.levels(side), tick),
        has_queue(m, side, tick) == m@.levels(side).contains_key(tick),
        has_queue(m, side, tick) ==> waiting_at(m, side, tick) == m@.levels(side)[tick],
{
}

/// The queues in terms of those of the book.
proof fn lemma_all_waiting<N>(m: L3PriceTimePriorityQueueModel<N>)
    ensures
        forall|s: Side, t: i32|
            #![trigger waiting_at(m, s, t)]
            s != Side::Unsupported ==> {
                &&& waiting_at(m, s, t) == l3::level(m@.levels(s), t)
                &&& has_queue(m, s, t) == m@.levels(s).contains_key(t)
                &&& has_queue(m, s, t) ==> waiting_at(m, s, t) == m@.levels(s)[t]
            },
        forall|t: i32|
            #![trigger waiting_at(m, Side::Unsupported, t)]
            waiting_at(m, Side::Unsupported, t) == Seq::<L3Order<N>>::empty() && !has_queue(
                m,
                Side::Unsupported,
                t,
            ),
        forall|k: L3OrderId|
            #![trigger known_at(m, k)]
            known_at(m, k) == if m@.index.contains_key(k) {
                Some(m@.index[k])
            } else {
                None
            },
{
    assert forall|s: Side, t: i32|
        #![trigger waiting_at(m, s, t)]
        s != Side::Unsupported implies {
        &&& waiting_at(m, s, t) == l3::level(m@.levels(s), t)
        &&& has_queue(m, s, t) == m@.levels(s).contains_key(t)
        &&& has_queue(m, s, t) ==> waiting_at(m, s, t) == m@.levels(s)[t]
    } by {
        lemma_waiting(m, s, t);
    }
}

/// The other side of the book.
spec fn opposite(side: Side) -> Side {
    if side == Side::Buy {
        Side::Sell
    } else {
        Side::Buy
    }
}

/// Queues that the book keeps as they were.
proof fn lemma_others_wait<N>(
    m: L3PriceTimePriorityQueueModel<N>,
    side: Side,
    tick: i32,
    other: i32,
    m2: L3PriceTimePriorityQueueModel<N>,
)
    requires
        side != Side::Unsupported,
        m2@.levels(opposite(side)) == m@.levels(opposite(side)),
        forall|t: i32|
            #![trigger m2@.levels(side).contains_key(t)]
            t != tick && t != other ==> {
                &&& m2@.levels(side).contains_key(t) == m@.levels(side).contains_key(t)
                &&& m2@.levels(side)[t] == m@.levels(side)[t]
            },
    ensures
        others_wait_as_before(m, side, tick, other, m2),
{
    assert forall|s: Side, t: i32|
        #![trigger waiting_at(m2, s, t)]
        !(s == side && (t == tick || t == other)) implies {
        &&& waiting_at(m2, s, t) == waiting_at(m, s, t)
        &&& has_queue(m2, s, t) == has_queue(m, s, t)
    } by {
        if s != Side::Unsupported {
            lemma_waiting(m, s, t);
            lemma_waiting(m2, s, t);
            if s == side {
                assert(m2@.levels(side).contains_key(t) == m@.levels(side).contains_key(t));
            } else {
                assert(s == opposite(side));
            }
        }
    }
}

/// The place of an order.
proof fn lemma_stands<N>(q: Seq<L3Order<N>>, id: L3OrderId)
    ensures
        forall|i: int| #[trigger] stands_at(q, id, i) ==> l3::place(q, id) == Some(i),
        stands_nowhere(q, id) ==> l3::place(q, id) is None,
{
    assert forall|i: int| #[trigger] stands_at(q, id, i) implies l3::place(q, id) == Some(i) by {
        assert forall|j: int| 0 <= j < i implies !id.names(#[trigger] q[j]) by {
            assert(!bears(q[j], id));
        }
        l3::lemma_place(q, id, i);
    }
    if stands_nowhere(q, id) {
        assert forall|j: int| 0 <= j < q.len() implies !id.names(#[trigger] q[j]) by {
            assert(!bears(q[j], id));
        }
        l3::lemma_no_place(q, id);
    }
}

/// An id tells whether an order bears it.
pub proof fn an_id_names_the_order_that_bears_it<N>(id: &L3OrderId, order: &L3Order<N>, r: bool)
    requires
        call_ensures(L3OrderId::is::<N>, (id, order), r),
    ensures
        r == bears(*order, *id),
{
}

/// A new model holds no order.
pub proof fn a_new_model_holds_no_order<N>(r: L3PriceTimePriorityQueueModel<N>)
    requires
        call_ensures(L3PriceTimePriorityQueueModel::<N>::new, (), r),
    ensures
        forall|id: L3OrderId| #[trigger] known_at(r, id) is None,
        forall|s: Side, t: i32|
            #![trigger waiting_at(r, s, t)]
            waiting_at(r, s, t).len() == 0 && !has_queue(r, s, t),
{
    lemma_all_waiting(r);
}

/// Adding an order puts it at the back of the queue of its side and price, whatever else happens.
/// If its id is not known, it becomes known at this side and price; otherwise the call fails with
/// `OrderIdExist`, and the id stays known where it was. Nothing else changes.
pub proof fn add_order_queues_the_order<N: Quantity>(
    m: &mut L3PriceTimePriorityQueueModel<N>,
    id: L3OrderId,
    order: L3Order<N>,
    r: Result<(), BacktestError>,
)
    requires
        call_ensures(
            <L3PriceTimePriorityQueueModel<N> as L3QueueModel<N>>::add_order,
            (m, id, order),
            r,
        ),
        order.side != Side::Unsupported,
    ensures
        waiting_at(*final(m), order.side, order.price_tick) == waiting_at(
            *old(m),
            order.side,
            order.price_tick,
        ).push(order),
        has_queue(*final(m), order.side, order.price_tick),
        others_wait_as_before(*old(m), order.side, order.price_tick, order.price_tick, *final(m)),
        known_at(*old(m), id) is None ==> r is Ok && known_at(*final(m), id) == Some(
            (order.side, order.price_tick),
        ),
        known_at(*old(m), id) is Some ==> r == Err::<(), BacktestError>(BacktestError::OrderIdExist)
            && known_at(*final(m), id) == known_at(*old(m), id),
        others_known_as_before(*old(m), id, *final(m)),
{
    lemma_all_waiting(*old(m));
    lemma_all_waiting(*final(m));
    lemma_others_wait(*old(m), order.side, order.price_tick, order.price_tick, *final(m));
}

/// Cancelling an order takes it out of the index, and the first order that bears its id out of the
/// queue that the index points to, and returns that order. If there is none, the call fails with
/// `OrderNotFound`. Nothing else changes.
pub proof fn cancel_order_takes_the_order_out<N: Quantity>(
    m: &mut L3PriceTimePriorityQueueModel<N>,
    id: L3OrderId,
    side: Side,
    tick: i32,
    r: Result<L3Order<N>, BacktestError>,
)
    requires
        call_ensures(
            <L3PriceTimePriorityQueueModel<N> as L3QueueModel<N>>::cancel_order,
            (m, id),
            r,
        ),
        points_to_a_queue(*old(m), id),
    ensures
        known_at(*final(m), id) is None,
        others_known_as_before(*old(m), id, *final(m)),
        known_at(*old(m), id) is None ==> r == Err::<L3Order<N>, BacktestError>(
            BacktestError::OrderNotFound,
        ) && all_wait_as_before(*old(m), *final(m)),
        known_at(*old(m), id) == Some((side, tick)) ==> {
            let q = waiting_at(*old(m), side, tick);
            &&& others_wait_as_before(*old(m), side, tick, tick, *final(m))
            &&& has_queue(*final(m), side, tick)
            &&& forall|i: int| #[trigger]
                stands_at(q, id, i) ==> {
                    &&& r == Ok::<L3Order<N>, BacktestError>(q[i])
                    &&& waiting_at(*final(m), side, tick) == q.remove(i)
                }
            &&& stands_nowhere(q, id) ==> {
                &&& r == Err::<L3Order<N>, BacktestError>(BacktestError::OrderNotFound)
                &&& waiting_at(*final(m), side, tick) == q
            }
        },
{
    lemma_all_waiting(*old(m));
    lemma_all_waiting(*final(m));
    let q = waiting_at(*old(m), side, tick);
    lemma_stands(q, id);
    if known_at(*old(m), id) == Some((side, tick)) {
        assert(has_queue(*old(m), side, tick));
        assert(q == old(m)@.levels(side)[tick]);
        assert(final(m)@ == old(m)@.cancelled(id).0);
        assert(has_queue(*final(m), side, tick) == final(m)@.levels(side).contains_key(tick)) by {
            lemma_waiting(*final(m), side, tick);
        }
        assert forall|i: int| #[trigger] stands_at(q, id, i) implies {
            &&& r == Ok::<L3Order<N>, BacktestError>(q[i])
            &&& waiting_at(*final(m), side, tick) == q.remove(i)
        } by {
            assert(l3::place(q, id) == Some(i));
        }
        assert(stands_nowhere(q, id) ==> waiting_at(*final(m), side, tick) == q);
        lemma_others_wait(*old(m), side, tick, tick, *final(m));
    }
}

/// Modifying an order changes no more than the queues of its side. The first order that bears the
/// id in the queue that the index points to is found. If it has the price of `order`, and no less
/// quantity remaining, it keeps its place and all but its quantities. Otherwise it leaves its
/// place, and `order` goes to the back of the queue of its price. If there is none, the call fails
/// with `OrderNotFound`, and nothing changes.
pub proof fn modify_order_moves_what_grows<N: Quantity>(
    m: &mut L3PriceTimePriorityQueueModel<N>,
    id: L3OrderId,
    order: L3Order<N>,
    side: Side,
    tick: i32,
    i: int,
    r: Result<(), BacktestError>,
)
    requires
        call_ensures(
            <L3PriceTimePriorityQueueModel<N> as L3QueueModel<N>>::modify_order,
            (m, id, order),
            r,
        ),
        points_to_a_queue(*old(m), id),
        known_at(*old(m), id) == Some((side, tick)) && stands_at(
            waiting_at(*old(m), side, tick),
            id,
            i,
        ) ==> waiting_at(*old(m), side, tick)[i].price_tick == order.price_tick || has_queue(
            *old(m),
            side,
            order.price_tick,
        ),
        // The order stands at `i`, or nowhere.
        known_at(*old(m), id) == Some((side, tick)) ==> stands_at(
            waiting_at(*old(m), side, tick),
            id,
            i,
        ) || stands_nowhere(waiting_at(*old(m), side, tick), id),
        known_at(*old(m), id) matches Some(entry) ==> entry == (side, tick),
    ensures
        forall|k: L3OrderId| #[trigger] known_at(*final(m), k) == known_at(*old(m), k),
        known_at(*old(m), id) is None || stands_nowhere(waiting_at(*old(m), side, tick), id) ==> {
            &&& r == Err::<(), BacktestError>(BacktestError::OrderNotFound)
            &&& all_wait_as_before(*old(m), *final(m))
        },
        known_at(*old(m), id) is Some && stands_at(waiting_at(*old(m), side, tick), id, i) ==> {
            let q = waiting_at(*old(m), side, tick);
            let q2 = waiting_at(*final(m), side, tick);
            let new = order.price_tick;
            &&& r is Ok
            &&& others_wait_as_before(*old(m), side, tick, new, *final(m))
            &&& q[i].price_tick == new ==> {
                &&& waiting_at(*final(m), side, new) == if new == tick {
                    q2
                } else {
                    waiting_at(*old(m), side, new)
                }
                &&& exists|grows: bool| #[trigger]
                    call_ensures(N::less_than, (q[i].leaves_qty, order.leaves_qty), grows)
                    && if grows {
                        q2 == q.remove(i).push(order)
                    } else {
                        &&& q2.len() == q.len()
                        &&& forall|j: int| 0 <= j < q.len() && j != i ==> #[trigger] q2[j] == q[j]
                        &&& q2[i].order_id == q[i].order_id
                        &&& q2[i].side == q[i].side
                        &&& q2[i].price_tick == q[i].price_tick
                        &&& q2[i].q == q[i].q
                        &&& q2[i].qty == order.qty
                        &&& q2[i].leaves_qty == order.leaves_qty
                    }
            }
            &&& q[i].price_tick != new && new == tick ==> q2 == q.remove(i).push(order)
            &&& q[i].price_tick != new && new != tick ==> {
                &&& q2 == q.remove(i)
                &&& waiting_at(*final(m), side, new) == waiting_at(*old(m), side, new).push(order)
            }
        },
{
    lemma_all_waiting(*old(m));
    lemma_all_waiting(*final(m));
    let q = waiting_at(*old(m), side, tick);
    let new = order.price_tick;
    lemma_stands(q, id);
    if known_at(*old(m), id) is Some {
        assert(has_queue(*old(m), side, tick));
        assert(q == old(m)@.levels(side)[tick]);
        let _ = waiting_at(*old(m), side, new);
        lemma_waiting(*old(m), side, new);
        lemma_waiting(*final(m), side, new);
        lemma_waiting(*final(m), side, tick);
        assert(old(m)@.sound(id));
        assert(old(m).can_modify(id, order));
        let increased = choose|increased: bool|
            #![trigger old(m)@.modified(id, order, increased)]
            {
                &&& old(m)@.tells_increase(id, order, increased)
                &&& (final(m)@, r) == old(m)@.modified(id, order, increased)
            };
        if stands_at(q, id, i) {
            assert(l3::place(q, id) == Some(i));
            lemma_others_wait(*old(m), side, tick, new, *final(m));
            if q[i].price_tick == new {
                assert(call_ensures(
                    N::less_than,
                    (q[i].leaves_qty, order.leaves_qty),
                    increased,
                ));
            }
        }
    }
}

/// Executing an order takes it out of the index. The first order that bears the id in the queue
/// that the index points to is found. The strategy's orders ahead of it leave the queue and are
/// returned, and so does the order itself if `delete`, without being returned. Every other order
/// stays, where it stood. No order is lost or made by this. If there is none that bears the id, the
/// call fails with `OrderNotFound`, and the strategy's orders leave the queue all the same. Nothing
/// else changes.
pub proof fn fill_takes_the_orders_ahead<N: Quantity>(
    m: &mut L3PriceTimePriorityQueueModel<N>,
    id: L3OrderId,
    delete: bool,
    side: Side,
    tick: i32,
    r: Result<Vec<L3Order<N>>, BacktestError>,
)
    requires
        call_ensures(
            <L3PriceTimePriorityQueueModel<N> as L3QueueModel<N>>::fill,
            (m, id, delete),
            r,
        ),
        points_to_a_queue(*old(m), id),
    ensures
        known_at(*final(m), id) is None,
        others_known_as_before(*old(m), id, *final(m)),
        known_at(*old(m), id) is None ==> r is Err && all_wait_as_before(*old(m), *final(m)),
        r matches Err(e) ==> e == BacktestError::OrderNotFound,
        known_at(*old(m), id) == Some((side, tick)) ==> {
            let q = waiting_at(*old(m), side, tick);
            let q2 = waiting_at(*final(m), side, tick);
            &&& others_wait_as_before(*old(m), side, tick, tick, *final(m))
            &&& has_queue(*final(m), side, tick)
            &&& stands_nowhere(q, id) ==> {
                &&& r is Err
                &&& q2 == q.filter(|o: L3Order<N>| o.q == L3OrderSource::Market)
            }
            &&& forall|i: int| #[trigger]
                stands_at(q, id, i) ==> {
                    &&& r matches Ok(filled)
                    &&& filled@ == q.take(i).filter(
                        |o: L3Order<N>| o.q == L3OrderSource::Backtesting,
                    )
                    &&& q2 == q.take(i).filter(|o: L3Order<N>| o.q == L3OrderSource::Market)
                        + if delete {
                        q.skip(i + 1)
                    } else {
                        q.skip(i)
                    }
                    &&& q.to_multiset() == if delete {
                        filled@.to_multiset().add(q2.to_multiset()).insert(q[i])
                    } else {
                        filled@.to_multiset().add(q2.to_multiset())
                    }
                }
        },
{
    lemma_all_waiting(*old(m));
    lemma_all_waiting(*final(m));
    let q = waiting_at(*old(m), side, tick);
    lemma_stands(q, id);
    if known_at(*old(m), id) == Some((side, tick)) {
        assert(has_queue(*old(m), side, tick));
        assert(q == old(m)@.levels(side)[tick]);
        assert(final(m)@ == old(m)@.executed(id, delete));
        lemma_waiting(*final(m), side, tick);
        lemma_others_wait(*old(m), side, tick, tick, *final(m));
        let market = l3::from_source::<N>(L3OrderSource::Market);
        let backtesting = l3::from_source::<N>(L3OrderSource::Backtesting);
        assert(market =~= (|o: L3Order<N>| o.q == L3OrderSource::Market));
        assert(backtesting =~= (|o: L3Order<N>| o.q == L3OrderSource::Backtesting));
        assert(q.take(q.len() as int) =~= q);
        assert(q.filter(market) + q.skip(q.len() as int) =~= q.filter(market));
        assert forall|i: int| #[trigger] stands_at(q, id, i) implies {
            &&& r matches Ok(filled)
            &&& filled@ == q.take(i).filter(backtesting)
            &&& waiting_at(*final(m), side, tick) == q.take(i).filter(market) + if delete {
                q.skip(i + 1)
            } else {
                q.skip(i)
            }
            &&& q.to_multiset() == if delete {
                filled@.to_multiset().add(
                    waiting_at(*final(m), side, tick).to_multiset(),
                ).insert(q[i])
            } else {
                filled@.to_multiset().add(waiting_at(*final(m), side, tick).to_multiset())
            }
        } by {
            assert(l3::place(q, id) == Some(i));
            l3_laws::execution_accounts_for_every_order(q, id, delete);
        }
    }
}

} // verus!
