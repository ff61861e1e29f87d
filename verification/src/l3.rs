//! The order-by-order queue model: orders of the market and of the strategy wait in price-time
//! priority.

use std::collections::hash_map::Entry;
use std::collections::HashMap;

use vstd::prelude::*;

use crate::quantity;
use crate::quantity::Quantity;
use crate::types::{BacktestError, Order, Side};

verus! {

broadcast use vstd::std_specs::hash::group_hash_axioms;

/// Where an order in the book comes from.
#[derive(Clone, Copy, Debug, PartialEq, Eq, Structural)]
pub enum L3OrderSource {
    Market,
    Backtesting,
}

/// An order's id within its source.
#[derive(Clone, Copy, Debug, PartialEq, Eq, Hash, Structural)]
pub enum L3OrderId {
    Market(i64),
    Backtesting(i64),
}

/// An order that waits in a queue of the model.
pub type L3Order<N> = Order<N, L3OrderSource>;

impl L3OrderId {
    /// The order has this id and comes from this source.
    pub open spec fn names<N>(self, order: L3Order<N>) -> bool {
        match self {
            L3OrderId::Market(order_id) => order.order_id == order_id && order.q
                == L3OrderSource::Market,
            L3OrderId::Backtesting(order_id) => order.order_id == order_id && order.q
                == L3OrderSource::Backtesting,
        }
    }

    /// Whether the order has this id and comes from this source.
    pub fn is<N>(&self, order: &L3Order<N>) -> (r: bool)
        ensures
            r == self.names(*order),
    {
        match self {
            L3OrderId::Market(order_id) => {
                order.order_id == *order_id && order.q == L3OrderSource::Market
            },
            L3OrderId::Backtesting(order_id) => {
                order.order_id == *order_id && order.q == L3OrderSource::Backtesting
            },
        }
    }
}

/// The side and the price tick under which each order was added, by the order's id.
pub struct OrderIndex {
    pub market: HashMap<i64, (Side, i32)>,
    pub backtesting: HashMap<i64, (Side, i32)>,
}

impl View for OrderIndex {
    type V = Map<L3OrderId, (Side, i32)>;

    open spec fn view(&self) -> Map<L3OrderId, (Side, i32)> {
        Map::new(
            |id: L3OrderId|
                match id {
                    L3OrderId::Market(i) => self.market@.contains_key(i),
                    L3OrderId::Backtesting(i) => self.backtesting@.contains_key(i),
                },
            |id: L3OrderId|
                match id {
                    L3OrderId::Market(i) => self.market@[i],
                    L3OrderId::Backtesting(i) => self.backtesting@[i],
                },
        )
    }
}

impl OrderIndex {
    /// An index with no orders.
    pub fn new() -> (r: Self)
        ensures
            r@ == Map::<L3OrderId, (Side, i32)>::empty(),
    {
        let r = OrderIndex { market: HashMap::new(), backtesting: HashMap::new() };
        assert(r@ =~= Map::<L3OrderId, (Side, i32)>::empty());
        r
    }

    /// Looks the order up.
    pub fn get(&self, id: &L3OrderId) -> (r: Option<(Side, i32)>)
        ensures
            r == if self@.contains_key(*id) {
                Some(self@[*id])
            } else {
                None
            },
    {
        let found = match id {
            L3OrderId::Market(i) => self.market.get(i),
            L3OrderId::Backtesting(i) => self.backtesting.get(i),
        };
        match found {
            Some(entry) => Some(*entry),
            None => None,
        }
    }

    /// Enters the order.
    pub fn insert(&mut self, id: L3OrderId, entry: (Side, i32))
        ensures
            final(self)@ == old(self)@.insert(id, entry),
    {
        match id {
            L3OrderId::Market(i) => {
                self.market.insert(i, entry);
            },
            L3OrderId::Backtesting(i) => {
                self.backtesting.insert(i, entry);
            },
        }
        assert(self@ =~= old(self)@.insert(id, entry));
    }

    /// Takes the order out.
    pub fn remove(&mut self, id: &L3OrderId) -> (r: Option<(Side, i32)>)
        ensures
            final(self)@ == old(self)@.remove(*id),
            r == if old(self)@.contains_key(*id) {
                Some(old(self)@[*id])
            } else {
                None
            },
    {
        let r = match id {
            L3OrderId::Market(i) => self.market.remove(i),
            L3OrderId::Backtesting(i) => self.backtesting.remove(i),
        };
        assert(self@ =~= old(self)@.remove(*id));
        r
    }
}

/// The order at `i` is the first in the queue that has this id.
pub open spec fn is_first<N>(q: Seq<L3Order<N>>, id: L3OrderId, i: int) -> bool {
    &&& 0 <= i < q.len()
    &&& id.names(q[i])
    &&& forall|j: int| 0 <= j < i ==> !id.names(#[trigger] q[j])
}

/// Where the order with this id waits in the queue: the first place, should there be several.
pub open spec fn place<N>(q: Seq<L3Order<N>>, id: L3OrderId) -> Option<int> {
    if exists|i: int| is_first(q, id, i) {
        Some(choose|i: int| is_first(q, id, i))
    } else {
        None
    }
}

/// Tells the orders from one source.
pub open spec fn from_source<N>(source: L3OrderSource) -> spec_fn(L3Order<N>) -> bool {
    |order: L3Order<N>| order.q == source
}

/// How many orders of the queue are passed over to reach the order with this id: all, if it is not
/// there.
pub open spec fn ahead<N>(q: Seq<L3Order<N>>, id: L3OrderId) -> int {
    match place(q, id) {
        Some(i) => i,
        None => q.len() as int,
    }
}

/// The strategy's orders ahead of the order with this id, first to last.
pub open spec fn filled_ahead<N>(q: Seq<L3Order<N>>, id: L3OrderId) -> Seq<L3Order<N>> {
    q.take(ahead(q, id)).filter(from_source(L3OrderSource::Backtesting))
}

/// What is left of the queue once the order with this id is executed: the strategy's orders ahead
/// of it are gone, and so is the order itself if `delete`.
pub open spec fn left_after_fill<N>(q: Seq<L3Order<N>>, id: L3OrderId, delete: bool) -> Seq<
    L3Order<N>,
> {
    let n = ahead(q, id);
    q.take(n).filter(from_source(L3OrderSource::Market)) + if delete && n < q.len() {
        q.skip(n + 1)
    } else {
        q.skip(n)
    }
}

/// The queues of one side of the book by their price ticks.
pub type Levels<N> = Map<i32, Seq<L3Order<N>>>;

/// The queue at the tick, empty if there is none.
pub open spec fn level<N>(levels: Levels<N>, tick: i32) -> Seq<L3Order<N>> {
    if levels.contains_key(tick) {
        levels[tick]
    } else {
        Seq::empty()
    }
}

/// The queues after the order at place `i` of the queue at `tick` was replaced by `order`. An order
/// whose price changes, or whose remaining quantity is increased, loses its place and goes to the
/// back of the queue; otherwise only its quantities change.
pub open spec fn replaced<N>(
    levels: Levels<N>,
    tick: i32,
    i: int,
    order: L3Order<N>,
    increased: bool,
) -> Levels<N> {
    let q = levels[tick];
    if q[i].price_tick != order.price_tick {
        let rest = levels.insert(tick, q.remove(i));
        rest.insert(order.price_tick, rest[order.price_tick].push(order))
    } else if increased {
        levels.insert(tick, q.remove(i).push(order))
    } else {
        levels.insert(
            tick,
            q.update(i, Order { leaves_qty: order.leaves_qty, qty: order.qty, ..q[i] }),
        )
    }
}

/// `increased` says whether the remaining quantity of the resting order is less than that of
/// `order`. It is looked at only if the price stays.
pub open spec fn tells_increase<N: Quantity>(
    resting: L3Order<N>,
    order: L3Order<N>,
    increased: bool,
) -> bool {
    resting.price_tick == order.price_tick ==> quantity::tells_less_than(
        resting.leaves_qty,
        order.leaves_qty,
        increased,
    )
}

/// The book as the model holds it.
#[verifier::ext_equal]
#[verifier::reject_recursive_types(N)]
pub struct L3Book<N> {
    /// The side and the price tick under which each order was added.
    pub index: Map<L3OrderId, (Side, i32)>,
    pub bids: Levels<N>,
    pub asks: Levels<N>,
}

impl<N> L3Book<N> {
    /// A book without orders.
    pub open spec fn empty() -> Self {
        L3Book { index: Map::empty(), bids: Map::empty(), asks: Map::empty() }
    }

    /// The queues of the side.
    pub open spec fn levels(self, side: Side) -> Levels<N> {
        if side == Side::Buy {
            self.bids
        } else {
            self.asks
        }
    }

    /// The book with other queues on the side.
    pub open spec fn with_levels(self, side: Side, levels: Levels<N>) -> Self {
        if side == Side::Buy {
            L3Book { bids: levels, ..self }
        } else {
            L3Book { asks: levels, ..self }
        }
    }

    /// The book without the order in its index.
    pub open spec fn unindexed(self, id: L3OrderId) -> Self {
        L3Book { index: self.index.remove(id), ..self }
    }

    /// If the order is in the index, the queue that the index points to exists.
    pub open spec fn sound(self, id: L3OrderId) -> bool {
        self.index.contains_key(id) ==> {
            &&& self.index[id].0 != Side::Unsupported
            &&& self.levels(self.index[id].0).contains_key(self.index[id].1)
        }
    }

    /// The index points to queues that exist.
    pub open spec fn wf(self) -> bool {
        forall|id: L3OrderId| #[trigger] self.sound(id)
    }

    /// The queue in which the index says that the order waits.
    pub open spec fn queue_of(self, id: L3OrderId) -> Seq<L3Order<N>> {
        self.levels(self.index[id].0)[self.index[id].1]
    }

    /// The order is in the index and waits in the queue that the index points to.
    pub open spec fn holds(self, id: L3OrderId) -> bool {
        self.index.contains_key(id) && place(self.queue_of(id), id) is Some
    }

    /// The book with `order` at the back of the queue of its side and price, entered under `id`
    /// unless that id is in the index already.
    pub open spec fn added(self, id: L3OrderId, order: L3Order<N>) -> (Self, Result<
        (),
        BacktestError,
    >) {
        let levels = self.levels(order.side);
        let queued = self.with_levels(
            order.side,
            levels.insert(order.price_tick, level(levels, order.price_tick).push(order)),
        );
        if self.index.contains_key(id) {
            (queued, Err(BacktestError::OrderIdExist))
        } else {
            (
                L3Book { index: self.index.insert(id, (order.side, order.price_tick)), ..queued },
                Ok(()),
            )
        }
    }

    /// The book without the order, in its index and in its queue, and the order.
    pub open spec fn cancelled(self, id: L3OrderId) -> (Self, Result<L3Order<N>, BacktestError>) {
        if !self.index.contains_key(id) {
            (self, Err(BacktestError::OrderNotFound))
        } else {
            let (side, tick) = self.index[id];
            let levels = self.levels(side);
            match place(levels[tick], id) {
                Some(i) => (
                    self.unindexed(id).with_levels(
                        side,
                        levels.insert(tick, levels[tick].remove(i)),
                    ),
                    Ok(levels[tick][i]),
                ),
                None => (self.unindexed(id), Err(BacktestError::OrderNotFound)),
            }
        }
    }

    /// The book with the order replaced by `order`. `increased` says whether the order's remaining
    /// quantity is less than that of `order`.
    pub open spec fn modified(self, id: L3OrderId, order: L3Order<N>, increased: bool) -> (
        Self,
        Result<(), BacktestError>,
    ) {
        if !self.holds(id) {
            (self, Err(BacktestError::OrderNotFound))
        } else {
            let (side, tick) = self.index[id];
            let levels = self.levels(side);
            let i = place(levels[tick], id)->0;
            (self.with_levels(side, replaced(levels, tick, i, order, increased)), Ok(()))
        }
    }

    /// The book after the order was executed, with the strategy's orders ahead of it, which are
    /// executed too. If the order is not in the queue, the strategy's orders leave it all the same.
    pub open spec fn executed(self, id: L3OrderId, delete: bool) -> Self {
        if !self.index.contains_key(id) {
            self
        } else {
            let (side, tick) = self.index[id];
            let levels = self.levels(side);
            self.unindexed(id).with_levels(
                side,
                levels.insert(tick, left_after_fill(levels[tick], id, delete)),
            )
        }
    }
}

impl<N: Quantity> L3Book<N> {
    /// `increased` says whether the order's remaining quantity is less than that of `order`. It is
    /// looked at only if the order is found and its price stays.
    pub open spec fn tells_increase(
        self,
        id: L3OrderId,
        order: L3Order<N>,
        increased: bool,
    ) -> bool {
        self.holds(id) ==> {
            let q = self.queue_of(id);
            tells_increase(q[place(q, id)->0], order, increased)
        }
    }
}

/// The index points to queues that exist, whatever is done to the book: adding, cancelling,
/// modifying and executing an order keep this.
pub proof fn operations_keep_wf<N>(
    book: L3Book<N>,
    id: L3OrderId,
    order: L3Order<N>,
    increased: bool,
    delete: bool,
)
    requires
        book.wf(),
    ensures
        order.side != Side::Unsupported ==> book.added(id, order).0.wf(),
        book.cancelled(id).0.wf(),
        book.modified(id, order, increased).0.wf(),
        book.executed(id, delete).wf(),
{
    let added = book.added(id, order).0;
    let cancelled = book.cancelled(id).0;
    let modified = book.modified(id, order, increased).0;
    let executed = book.executed(id, delete);
    assert forall|k: L3OrderId|
        #![trigger added.sound(k)]
        #![trigger cancelled.sound(k)]
        #![trigger modified.sound(k)]
        #![trigger executed.sound(k)]
        {
            &&& order.side != Side::Unsupported ==> added.sound(k)
            &&& cancelled.sound(k)
            &&& modified.sound(k)
            &&& executed.sound(k)
        } by {
        assert(book.sound(k));
        assert(book.sound(id));
    }
}

/// Keeps the orders of the book, of the market and of the strategy, in their queues.
pub trait L3QueueModel<N> {
    type Error;

    /// The order can be added. A model that accepts any call leaves this and the three below as
    /// they are.
    open spec fn can_add(&self, order_id: L3OrderId, order: L3Order<N>) -> bool {
        true
    }

    /// The order can be cancelled.
    open spec fn can_cancel(&self, order_id: L3OrderId) -> bool {
        true
    }

    /// The order can be replaced by `order`.
    open spec fn can_modify(&self, order_id: L3OrderId, order: L3Order<N>) -> bool {
        true
    }

    /// The order can be executed.
    open spec fn can_fill(&self, order_id: L3OrderId) -> bool {
        true
    }

    /// Adds an order.
    fn add_order(&mut self, order_id: L3OrderId, order: L3Order<N>) -> Result<(), Self::Error>
        requires
            old(self).can_add(order_id, order),
    ;

    /// Cancels the order and returns it.
    fn cancel_order(&mut self, order_id: L3OrderId) -> Result<L3Order<N>, Self::Error>
        requires
            old(self).can_cancel(order_id),
    ;

    /// Replaces the order by `order`.
    fn modify_order(&mut self, order_id: L3OrderId, order: L3Order<N>) -> Result<(), Self::Error>
        requires
            old(self).can_modify(order_id, order),
    ;

    /// Executes the order, and takes it out if `delete`. Returns the strategy's orders that are
    /// filled by this.
    fn fill(&mut self, order_id: L3OrderId, delete: bool) -> Result<Vec<L3Order<N>>, Self::Error>
        requires
            old(self).can_fill(order_id),
    ;
}

/// The queues as sequences of orders.
pub open spec fn levels_view<N>(levels: Map<i32, Vec<L3Order<N>>>) -> Levels<N> {
    levels.map_values(|queue: Vec<L3Order<N>>| queue@)
}

/// The order at `i` is where the order with its id waits.
pub proof fn lemma_place<N>(q: Seq<L3Order<N>>, id: L3OrderId, i: int)
    requires
        is_first(q, id, i),
    ensures
        place(q, id) == Some(i),
{
    let k = choose|k: int| is_first(q, id, k);
    assert(is_first(q, id, k));
    assert(k == i) by {
        if k < i {
            assert(!id.names(q[k]));
        }
        if i < k {
            assert(!id.names(q[i]));
        }
    }
}

/// An order that no place of the queue holds waits nowhere in it.
pub proof fn lemma_no_place<N>(q: Seq<L3Order<N>>, id: L3OrderId)
    requires
        forall|j: int| 0 <= j < q.len() ==> !id.names(#[trigger] q[j]),
    ensures
        place(q, id) is None,
{
}

/// Filtering one order more.
pub(crate) proof fn lemma_filter_next<N>(
    q: Seq<L3Order<N>>,
    n: int,
    pred: spec_fn(L3Order<N>) -> bool,
)
    requires
        0 <= n < q.len(),
    ensures
        q.take(n + 1).filter(pred) == if pred(q[n]) {
            q.take(n).filter(pred).push(q[n])
        } else {
            q.take(n).filter(pred)
        },
{
    reveal(Seq::filter);
    assert(q.take(n + 1).drop_last() =~= q.take(n));
}

/// Looks for the order in the queue.
fn find<N>(queue: &Vec<L3Order<N>>, id: &L3OrderId) -> (r: Option<usize>)
    ensures
        match r {
            Some(i) => place(queue@, *id) == Some(i as int) && i < queue.len(),
            None => place(queue@, *id) is None,
        },
{
    let mut i: usize = 0;
    while i < queue.len()
        invariant
            i <= queue.len(),
            forall|j: int| 0 <= j < i ==> !id.names(#[trigger] queue@[j]),
        decreases queue.len() - i,
    {
        if id.is(&queue[i]) {
            proof {
                lemma_place(queue@, *id, i as int);
            }
            return Some(i);
        }
        i += 1;
    }
    proof {
        lemma_no_place(queue@, *id);
    }
    None
}

/// The queue at the tick, which is made if there is none.
fn queue_at<N>(levels: &mut HashMap<i32, Vec<L3Order<N>>>, tick: i32) -> (r: &mut Vec<L3Order<N>>)
    ensures
        r@ == level(levels_view(old(levels)@), tick),
        levels_view(final(levels)@) == levels_view(old(levels)@).insert(tick, final(r)@),
{
    levels.entry(tick).or_insert(Vec::new())
}

/// Takes the order out of the queue at the tick.
fn cancel_at<N>(levels: &mut HashMap<i32, Vec<L3Order<N>>>, tick: i32, id: &L3OrderId) -> (r:
    Option<L3Order<N>>)
    requires
        old(levels)@.contains_key(tick),
    ensures
        ({
            let pre = levels_view(old(levels)@);
            let post = levels_view(final(levels)@);
            match place(pre[tick], *id) {
                Some(i) => r == Some(pre[tick][i]) && post == pre.insert(
                    tick,
                    pre[tick].remove(i),
                ),
                None => r is None && post == pre,
            }
        }),
{
    let queue = queue_at(levels, tick);
    match find(queue, id) {
        Some(pos) => Some(queue.remove(pos)),
        None => None,
    }
}

/// Replaces the order in the queue at the tick. Returns whether it was there.
fn modify_at<N: Quantity>(
    levels: &mut HashMap<i32, Vec<L3Order<N>>>,
    tick: i32,
    id: &L3OrderId,
    order: L3Order<N>,
) -> (r: bool)
    requires
        old(levels)@.contains_key(tick),
        ({
            let q = levels_view(old(levels)@)[tick];
            place(q, *id) matches Some(i) ==> q[i].price_tick != order.price_tick
                ==> old(levels)@.contains_key(order.price_tick)
        }),
    ensures
        ({
            let pre = levels_view(old(levels)@);
            let post = levels_view(final(levels)@);
            match place(pre[tick], *id) {
                Some(i) => r && exists|increased: bool| #[trigger]
                    tells_increase(pre[tick][i], order, increased) && post == replaced(
                        pre,
                        tick,
                        i,
                        order,
                        increased,
                    ),
                None => !r && post == pre,
            }
        }),
{
    let ghost pre = levels_view(levels@);
    let queue = queue_at(levels, tick);
    let pos: usize = match find(queue, id) {
        Some(pos) => pos,
        None => {
            return false;
        },
    };
    let price_tick: i32 = queue[pos].price_tick;
    let ghost resting = queue@[pos as int];
    if price_tick != order.price_tick {
        queue.remove(pos);
        queue_at(levels, order.price_tick).push(order);
        assert(tells_increase(resting, order, false));
        assert(levels_view(levels@) =~= replaced(pre, tick, pos as int, order, false));
    } else {
        let increased: bool = queue[pos].leaves_qty.less_than(order.leaves_qty);
        if increased {
            queue.remove(pos);
            queue.push(order);
        } else {
            queue[pos].leaves_qty = order.leaves_qty;
            queue[pos].qty = order.qty;
            assert(queue@ =~= pre[tick].update(
                pos as int,
                Order { leaves_qty: order.leaves_qty, qty: order.qty, ..resting },
            ));
        }
        assert(tells_increase(resting, order, increased));
        assert(levels_view(levels@) =~= replaced(pre, tick, pos as int, order, increased));
    }
    true
}

/// Takes the strategy's orders ahead of the order out of the queue at the tick, and the order too
/// if `delete`. Returns the strategy's orders, or `None` if the order was not there.
fn fill_at<N>(
    levels: &mut HashMap<i32, Vec<L3Order<N>>>,
    tick: i32,
    id: &L3OrderId,
    delete: bool,
) -> (r: Option<Vec<L3Order<N>>>)
    requires
        old(levels)@.contains_key(tick),
    ensures
        ({
            let pre = levels_view(old(levels)@);
            &&& levels_view(final(levels)@) == pre.insert(
                tick,
                left_after_fill(pre[tick], *id, delete),
            )
            &&& r is Some <==> place(pre[tick], *id) is Some
            &&& r matches Some(filled) ==> filled@ == filled_ahead(pre[tick], *id)
        }),
{
    let queue = queue_at(levels, tick);
    let ghost q = queue@;
    let ghost market = from_source::<N>(L3OrderSource::Market);
    let ghost backtesting = from_source::<N>(L3OrderSource::Backtesting);
    let mut filled: Vec<L3Order<N>> = Vec::new();
    let mut i: usize = 0;
    // How many orders of the queue were passed over.
    let ghost mut n: int = 0;
    assert(queue@ =~= q.take(0).filter(market) + q.skip(0)) by {
        reveal(Seq::filter);
        assert(q.take(0) =~= Seq::<L3Order<N>>::empty());
    }
    assert(filled@ =~= q.take(0).filter(backtesting)) by {
        reveal(Seq::filter);
    }
    while i < queue.len()
        invariant
            0 <= n <= q.len(),
            market == from_source::<N>(L3OrderSource::Market),
            backtesting == from_source::<N>(L3OrderSource::Backtesting),
            i == q.take(n).filter(market).len(),
            queue@ == q.take(n).filter(market) + q.skip(n),
            filled@ == q.take(n).filter(backtesting),
            forall|j: int| 0 <= j < n ==> !id.names(#[trigger] q[j]),
        ensures
            0 <= n <= q.len(),
            i == q.take(n).filter(market).len(),
            queue@ == q.take(n).filter(market) + q.skip(n),
            filled@ == q.take(n).filter(backtesting),
            forall|j: int| 0 <= j < n ==> !id.names(#[trigger] q[j]),
            n < q.len() ==> id.names(q[n]),
        decreases q.len() - n,
    {
        assert(queue@[i as int] == q[n]);
        if id.is(&queue[i]) {
            break;
        }
        proof {
            lemma_filter_next(q, n, market);
            lemma_filter_next(q, n, backtesting);
        }
        if queue[i].q == L3OrderSource::Backtesting {
            let order = queue.remove(i);
            assert(queue@ =~= q.take(n + 1).filter(market) + q.skip(n + 1));
            filled.push(order);
        } else {
            assert(queue@ =~= q.take(n + 1).filter(market) + q.skip(n + 1));
            i += 1;
        }
        proof {
            n = n + 1;
        }
    }
    if i < queue.len() {
        proof {
            lemma_place(q, *id, n);
        }
        if delete {
            queue.remove(i);
            assert(queue@ =~= left_after_fill(q, *id, delete));
        }
        Some(filled)
    } else {
        proof {
            lemma_no_place(q, *id);
        }
        None
    }
}

/// Keeps the orders in price-time priority: the queue at a price is served first come, first
/// served.
#[verifier::reject_recursive_types(N)]
pub struct L3PriceTimePriorityQueueModel<N> {
    pub orders: OrderIndex,
    pub bid_priority: HashMap<i32, Vec<L3Order<N>>>,
    pub ask_priority: HashMap<i32, Vec<L3Order<N>>>,
}

impl<N> View for L3PriceTimePriorityQueueModel<N> {
    type V = L3Book<N>;

    open spec fn view(&self) -> L3Book<N> {
        L3Book {
            index: self.orders@,
            bids: levels_view(self.bid_priority@),
            asks: levels_view(self.ask_priority@),
        }
    }
}

impl<N> L3PriceTimePriorityQueueModel<N> {
    /// A model without orders.
    pub fn new() -> (r: Self)
        ensures
            r@ == L3Book::<N>::empty(),
            r@.wf(),
    {
        let r = L3PriceTimePriorityQueueModel {
            orders: OrderIndex::new(),
            bid_priority: HashMap::new(),
            ask_priority: HashMap::new(),
        };
        assert(r@.bids =~= Map::empty());
        assert(r@.asks =~= Map::empty());
        r
    }
}

impl<N: Quantity> L3QueueModel<N> for L3PriceTimePriorityQueueModel<N> {
    type Error = BacktestError;

    open spec fn can_add(&self, order_id: L3OrderId, order: L3Order<N>) -> bool {
        order.side != Side::Unsupported
    }

    open spec fn can_cancel(&self, order_id: L3OrderId) -> bool {
        self@.sound(order_id)
    }

    /// An order can be moved only to a price at which there is a queue.
    open spec fn can_modify(&self, order_id: L3OrderId, order: L3Order<N>) -> bool {
        &&& self@.sound(order_id)
        &&& self@.holds(order_id) ==> {
            let q = self@.queue_of(order_id);
            q[place(q, order_id)->0].price_tick != order.price_tick ==> self@.levels(
                self@.index[order_id].0,
            ).contains_key(order.price_tick)
        }
    }

    open spec fn can_fill(&self, order_id: L3OrderId) -> bool {
        self@.sound(order_id)
    }

    /// Adds an order at the back of the queue of its side and price. If the id is in the index
    /// already, this fails with `OrderIdExist`; the order stays in the queue.
    fn add_order(&mut self, order_id: L3OrderId, order: L3Order<N>) -> (r: Result<
        (),
        BacktestError,
    >)
        ensures
            (final(self)@, r) == old(self)@.added(order_id, order),
            old(self)@.wf() ==> final(self)@.wf(),
    {
        let price_tick: i32 = order.price_tick;
        let side: Side = order.side;
        match side {
            Side::Buy => {
                queue_at(&mut self.bid_priority, price_tick).push(order);
            },
            _ => {
                queue_at(&mut self.ask_priority, price_tick).push(order);
            },
        }
        let r: Result<(), BacktestError> = match self.orders.get(&order_id) {
            Some(_) => Err(BacktestError::OrderIdExist),
            None => {
                self.orders.insert(order_id, (side, price_tick));
                Ok(())
            },
        };
        proof {
            if old(self)@.wf() {
                operations_keep_wf(old(self)@, order_id, order, false, false);
            }
        }
        r
    }

    /// Takes the order out of the index and out of its queue, and returns it. This fails with
    /// `OrderNotFound` if the order is not in the index, or not in the queue that the index points
    /// to.
    fn cancel_order(&mut self, order_id: L3OrderId) -> (r: Result<L3Order<N>, BacktestError>)
        ensures
            (final(self)@, r) == old(self)@.cancelled(order_id),
            old(self)@.wf() ==> final(self)@.wf(),
    {
        let (side, price_tick): (Side, i32) = match self.orders.remove(&order_id) {
            Some(entry) => entry,
            None => {
                assert(self@.index =~= old(self)@.index);
                return Err(BacktestError::OrderNotFound);
            },
        };
        let cancelled = match side {
            Side::Buy => cancel_at(&mut self.bid_priority, price_tick, &order_id),
            _ => cancel_at(&mut self.ask_priority, price_tick, &order_id),
        };
        proof {
            if old(self)@.wf() {
                operations_keep_wf(old(self)@, order_id, arbitrary(), false, false);
            }
        }
        match cancelled {
            Some(order) => Ok(order),
            None => Err(BacktestError::OrderNotFound),
        }
    }

    /// Replaces the order by `order`. An order whose price changes, or whose remaining quantity is
    /// increased, goes to the back of the queue; otherwise it keeps its place, and only its
    /// quantities change. This fails with `OrderNotFound` if the order is not in the index, or not
    /// in the queue that the index points to.
    fn modify_order(&mut self, order_id: L3OrderId, order: L3Order<N>) -> (r: Result<
        (),
        BacktestError,
    >)
        ensures
            exists|increased: bool|
                #![trigger old(self)@.modified(order_id, order, increased)]
                {
                    &&& old(self)@.tells_increase(order_id, order, increased)
                    &&& (final(self)@, r) == old(self)@.modified(order_id, order, increased)
                },
            old(self)@.wf() ==> final(self)@.wf(),
    {
        let (side, price_tick): (Side, i32) = match self.orders.get(&order_id) {
            Some(entry) => entry,
            None => {
                assert((self@, Err::<(), BacktestError>(BacktestError::OrderNotFound)) == old(
                    self,
                )@.modified(order_id, order, false));
                return Err(BacktestError::OrderNotFound);
            },
        };
        let found: bool = match side {
            Side::Buy => modify_at(&mut self.bid_priority, price_tick, &order_id, order),
            _ => modify_at(&mut self.ask_priority, price_tick, &order_id, order),
        };
        let r: Result<(), BacktestError> = if found {
            Ok(())
        } else {
            Err(BacktestError::OrderNotFound)
        };
        proof {
            let pre = old(self)@.levels(side);
            let post = self@.levels(side);
            let i = place(pre[price_tick], order_id)->0;
            let increased = found && choose|increased: bool| #[trigger]
                tells_increase(pre[price_tick][i], order, increased) && post == replaced(
                    pre,
                    price_tick,
                    i,
                    order,
                    increased,
                );
            assert((self@, r) == old(self)@.modified(order_id, order, increased));
            if old(self)@.wf() {
                operations_keep_wf(old(self)@, order_id, order, increased, false);
            }
        }
        r
    }

    /// Executes the order: takes the strategy's orders ahead of it out of the queue and returns
    /// them, and takes the order itself out if `delete`. The order leaves the index either way.
    /// This fails with `OrderNotFound` if the order is not in the index, or not in the queue that
    /// the index points to.
    fn fill(&mut self, order_id: L3OrderId, delete: bool) -> (r: Result<
        Vec<L3Order<N>>,
        BacktestError,
    >)
        ensures
            final(self)@ == old(self)@.executed(order_id, delete),
            match r {
                Ok(filled) => old(self)@.holds(order_id) && filled@ == filled_ahead(
                    old(self)@.queue_of(order_id),
                    order_id,
                ),
                Err(e) => !old(self)@.holds(order_id) && e == BacktestError::OrderNotFound,
            },
            old(self)@.wf() ==> final(self)@.wf(),
    {
        let (side, price_tick): (Side, i32) = match self.orders.remove(&order_id) {
            Some(entry) => entry,
            None => {
                assert(self@.index =~= old(self)@.index);
                return Err(BacktestError::OrderNotFound);
            },
        };
        let filled = match side {
            Side::Buy => fill_at(&mut self.bid_priority, price_tick, &order_id, delete),
            _ => fill_at(&mut self.ask_priority, price_tick, &order_id, delete),
        };
        proof {
            if old(self)@.wf() {
                operations_keep_wf(old(self)@, order_id, arbitrary(), false, delete);
            }
        }
        match filled {
            Some(filled) => Ok(filled),
            None => Err(BacktestError::OrderNotFound),
        }
    }
}

} // verus!
