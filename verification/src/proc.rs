//! The two sides of the simulation of an asset: the local side, where the strategy runs, and the
//! exchange side.

use std::collections::HashMap;

use vstd::prelude::*;

use crate::depth::MarketDepth;
use crate::types::{BacktestError, OrdType, Side, TimeInForce};

verus! {

/// A call that the backtester made to a processor, with what the processor returned.
#[allow(inconsistent_fields)]
pub enum ProcessorCall {
    InitializeData { result: Result<i64, BacktestError> },
    ProcessData { result: Result<(i64, i64), BacktestError> },
    ProcessRecvOrder {
        timestamp: i64,
        wait_resp_order_id: i64,
        result: Result<bool, BacktestError>,
    },
}

/// A call that the backtester made to the local side on the strategy's behalf, with what the local
/// side returned. `N` is the number type of prices and quantities.
#[allow(inconsistent_fields)]
pub enum LocalCall<N> {
    SubmitOrder {
        order_id: i64,
        side: Side,
        price: N,
        qty: N,
        order_type: OrdType,
        time_in_force: TimeInForce,
        current_timestamp: i64,
        result: Result<(), BacktestError>,
    },
    Cancel { order_id: i64, current_timestamp: i64, result: Result<(), BacktestError> },
    ClearInactiveOrders,
    ClearLastTrades,
}

/// Processes the historical feed data and the order interaction.
///
/// `calls` and `supply` are there for what is proved of a backtester. A processor that is verified
/// must define both: the ones given here are fixed values, of which no implementation can show what
/// the methods ensure. They are there for a processor that is not verified, which need not define
/// them.
pub trait Processor {
    /// The calls made so far through this trait to prepare and to process events, oldest first.
    closed spec fn calls(&self) -> Seq<ProcessorCall> {
        arbitrary()
    }

    /// How many more rows of data, orders and responses the processor can handle. Each one that it
    /// handles uses some of this up: that is why a run over the pending events comes to an end, and
    /// nothing else rests on it.
    closed spec fn supply(&self) -> nat {
        arbitrary()
    }

    /// Prepares to process the data. This is invoked when the backtesting is initiated. If
    /// successful, it returns the timestamp of the first event.
    fn initialize_data(&mut self) -> (r: Result<i64, BacktestError>)
        ensures
            final(self).calls() == old(self).calls().push(
                ProcessorCall::InitializeData { result: r },
            ),
    ;

    /// Processes the data. If successful, it returns the timestamp of the next event.
    fn process_data(&mut self) -> (r: Result<(i64, i64), BacktestError>)
        ensures
            final(self).calls() == old(self).calls().push(ProcessorCall::ProcessData { result: r }),
            r is Ok ==> final(self).supply() < old(self).supply(),
            r == Err::<(i64, i64), BacktestError>(BacktestError::EndOfData)
                ==> final(self).supply() <= old(self).supply(),
    ;

    /// Processes an order upon receipt. It returns whether the response to the order
    /// `wait_resp_order_id` was received.
    fn process_recv_order(&mut self, timestamp: i64, wait_resp_order_id: i64) -> (r: Result<
        bool,
        BacktestError,
    >)
        ensures
            final(self).calls() == old(self).calls().push(
                ProcessorCall::ProcessRecvOrder { timestamp, wait_resp_order_id, result: r },
            ),
            r is Ok ==> final(self).supply() < old(self).supply(),
    ;

    /// Returns the foremost timestamp at which an order is to be received by this processor.
    fn earliest_recv_order_timestamp(&self) -> i64;

    /// Returns the foremost timestamp at which an order sent by this processor is to be received
    /// by the corresponding processor.
    fn earliest_send_order_timestamp(&self) -> i64;
}

/// The types in which a local side reports its orders and its account.
pub trait Account {
    /// An order as the local side knows it.
    type Order;

    /// The position, a number.
    type Position;

    /// Position, balance, fees and trading totals.
    type StateValues;
}

/// Provides local-specific interaction. `EventT` is the type of market events, and `A` names the
/// types that orders and the account are reported in. A local side that is verified must define
/// `requests`, as it must define `calls`.
pub trait LocalProcessor<MD: MarketDepth, EventT, A: Account>: Processor {
    /// The calls made so far on the strategy's behalf, oldest first.
    closed spec fn requests(&self) -> Seq<LocalCall<MD::Num>> {
        arbitrary()
    }

    /// Submits a new order.
    fn submit_order(
        &mut self,
        order_id: i64,
        side: Side,
        price: MD::Num,
        qty: MD::Num,
        order_type: OrdType,
        time_in_force: TimeInForce,
        current_timestamp: i64,
    ) -> (r: Result<(), BacktestError>)
        ensures
            final(self).requests() == old(self).requests().push(
                LocalCall::SubmitOrder {
                    order_id,
                    side,
                    price,
                    qty,
                    order_type,
                    time_in_force,
                    current_timestamp,
                    result: r,
                },
            ),
            final(self).calls() == old(self).calls(),
    ;

    /// Cancels an open order.
    fn cancel(&mut self, order_id: i64, current_timestamp: i64) -> (r: Result<(), BacktestError>)
        ensures
            final(self).requests() == old(self).requests().push(
                LocalCall::Cancel { order_id, current_timestamp, result: r },
            ),
            final(self).calls() == old(self).calls(),
    ;

    /// Clears inactive orders from the orders that the local side knows.
    fn clear_inactive_orders(&mut self)
        ensures
            final(self).requests() == old(self).requests().push(LocalCall::ClearInactiveOrders),
            final(self).calls() == old(self).calls(),
    ;

    /// Clears the last market trades.
    fn clear_last_trades(&mut self)
        ensures
            final(self).requests() == old(self).requests().push(LocalCall::ClearLastTrades),
            final(self).calls() == old(self).calls(),
    ;

    /// Returns the position.
    fn position(&self) -> A::Position;

    /// Returns the account's state values.
    fn state_values(&self) -> A::StateValues;

    /// Returns the market depth.
    fn depth(&self) -> &MD;

    /// Returns the orders by their ids.
    fn orders(&self) -> &HashMap<i64, A::Order>;

    /// Returns the last market trades.
    fn trade(&self) -> &Vec<EventT>;

    /// Returns the last feed's exchange timestamp and local receipt timestamp.
    fn feed_latency(&self) -> Option<(i64, i64)>;

    /// Returns the last order's request, exchange and response receipt timestamps.
    fn order_latency(&self) -> Option<(i64, i64, i64)>;
}

/// `p` reports `timestamp` as its `earliest_recv_order_timestamp`.
pub open spec fn receives_at<P: Processor + ?Sized>(p: &P, timestamp: i64) -> bool {
    call_ensures(P::earliest_recv_order_timestamp, (p,), timestamp)
}

/// `p` reports `timestamp` as its `earliest_send_order_timestamp`.
pub open spec fn sends_at<P: Processor + ?Sized>(p: &P, timestamp: i64) -> bool {
    call_ensures(P::earliest_send_order_timestamp, (p,), timestamp)
}

/// `p` reports `r` as its position.
pub open spec fn position_is<
    MD: MarketDepth,
    EventT,
    A: Account,
    P: LocalProcessor<MD, EventT, A> + ?Sized,
>(p: &P, r: A::Position) -> bool {
    call_ensures(P::position, (p,), r)
}

/// `p` reports `r` as its state values.
pub open spec fn state_values_are<
    MD: MarketDepth,
    EventT,
    A: Account,
    P: LocalProcessor<MD, EventT, A> + ?Sized,
>(p: &P, r: A::StateValues) -> bool {
    call_ensures(P::state_values, (p,), r)
}

/// `p` reports `r` as its market depth.
pub open spec fn depth_is<
    MD: MarketDepth,
    EventT,
    A: Account,
    P: LocalProcessor<MD, EventT, A> + ?Sized,
>(p: &P, r: &MD) -> bool {
    call_ensures(P::depth, (p,), r)
}

/// `p` reports `r` as its orders.
pub open spec fn orders_are<
    MD: MarketDepth,
    EventT,
    A: Account,
    P: LocalProcessor<MD, EventT, A> + ?Sized,
>(p: &P, r: &HashMap<i64, A::Order>) -> bool {
    call_ensures(P::orders, (p,), r)
}

/// `p` reports `r` as its last market trades.
pub open spec fn trades_are<
    MD: MarketDepth,
    EventT,
    A: Account,
    P: LocalProcessor<MD, EventT, A> + ?Sized,
>(p: &P, r: &Vec<EventT>) -> bool {
    call_ensures(P::trade, (p,), r)
}

/// `p` reports `r` as its feed latency.
pub open spec fn feed_latency_is<
    MD: MarketDepth,
    EventT,
    A: Account,
    P: LocalProcessor<MD, EventT, A> + ?Sized,
>(p: &P, r: Option<(i64, i64)>) -> bool {
    call_ensures(P::feed_latency, (p,), r)
}

/// `p` reports `r` as its order latency.
pub open spec fn order_latency_is<
    MD: MarketDepth,
    EventT,
    A: Account,
    P: LocalProcessor<MD, EventT, A> + ?Sized,
>(p: &P, r: Option<(i64, i64, i64)>) -> bool {
    call_ensures(P::order_latency, (p,), r)
}

/// A boxed processor is the processor in the box.
impl<P: Processor + ?Sized> Processor for Box<P> {
    open spec fn calls(&self) -> Seq<ProcessorCall> {
        (**self).calls()
    }

    open spec fn supply(&self) -> nat {
        (**self).supply()
    }

    fn initialize_data(&mut self) -> (r: Result<i64, BacktestError>) {
        (**self).initialize_data()
    }

    fn process_data(&mut self) -> (r: Result<(i64, i64), BacktestError>) {
        (**self).process_data()
    }

    fn process_recv_order(&mut self, timestamp: i64, wait_resp_order_id: i64) -> (r: Result<
        bool,
        BacktestError,
    >) {
        (**self).process_recv_order(timestamp, wait_resp_order_id)
    }

    fn earliest_recv_order_timestamp(&self) -> (r: i64)
        ensures
            receives_at(&**self, r),
    {
        (**self).earliest_recv_order_timestamp()
    }

    fn earliest_send_order_timestamp(&self) -> (r: i64)
        ensures
            sends_at(&**self, r),
    {
        (**self).earliest_send_order_timestamp()
    }
}

/// A boxed local side is the local side in the box.
impl<
    MD: MarketDepth,
    EventT,
    A: Account,
    P: LocalProcessor<MD, EventT, A> + ?Sized,
> LocalProcessor<MD, EventT, A> for Box<P> {
    open spec fn requests(&self) -> Seq<LocalCall<MD::Num>> {
        (**self).requests()
    }

    fn submit_order(
        &mut self,
        order_id: i64,
        side: Side,
        price: MD::Num,
        qty: MD::Num,
        order_type: OrdType,
        time_in_force: TimeInForce,
        current_timestamp: i64,
    ) -> (r: Result<(), BacktestError>) {
        (**self).submit_order(
            order_id,
            side,
            price,
            qty,
            order_type,
            time_in_force,
            current_timestamp,
        )
    }

    fn cancel(&mut self, order_id: i64, current_timestamp: i64) -> (r: Result<(), BacktestError>) {
        (**self).cancel(order_id, current_timestamp)
    }

    fn clear_inactive_orders(&mut self) {
        (**self).clear_inactive_orders()
    }

    fn clear_last_trades(&mut self) {
        (**self).clear_last_trades()
    }

    fn position(&self) -> (r: A::Position)
        ensures
            position_is::<MD, EventT, A, P>(&**self, r),
    {
        (**self).position()
    }

    fn state_values(&self) -> (r: A::StateValues)
        ensures
            state_values_are::<MD, EventT, A, P>(&**self, r),
    {
        (**self).state_values()
    }

    fn depth(&self) -> (r: &MD)
        ensures
            depth_is::<MD, EventT, A, P>(&**self, r),
    {
        (**self).depth()
    }

    fn orders(&self) -> (r: &HashMap<i64, A::Order>)
        ensures
            orders_are::<MD, EventT, A, P>(&**self, r),
    {
        (**self).orders()
    }

    fn trade(&self) -> (r: &Vec<EventT>)
        ensures
            trades_are::<MD, EventT, A, P>(&**self, r),
    {
        (**self).trade()
    }

    fn feed_latency(&self) -> (r: Option<(i64, i64)>)
        ensures
            feed_latency_is::<MD, EventT, A, P>(&**self, r),
    {
        (**self).feed_latency()
    }

    fn order_latency(&self) -> (r: Option<(i64, i64, i64)>)
        ensures
            order_latency_is::<MD, EventT, A, P>(&**self, r),
    {
        (**self).order_latency()
    }
}

} // verus!
