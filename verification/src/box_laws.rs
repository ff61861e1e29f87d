//! A processor in a box is the processor in the box, and the values that stand for nothing.

use std::collections::HashMap;

use vstd::prelude::*;

use crate::depth::MarketDepth;
use crate::proc::{Account, LocalProcessor, Processor};
use crate::types::{UNTIL_END_OF_DATA, WAIT_ORDER_RESPONSE_NONE};

verus! {

/// A boxed processor has got the calls that the processor in the box got, and reports its times.
pub proof fn a_box_reports_what_is_in_it<P: Processor>(b: &Box<P>, t: i64, u: i64)
    requires
        call_ensures(<Box<P> as Processor>::earliest_recv_order_timestamp, (b,), t),
        call_ensures(<Box<P> as Processor>::earliest_send_order_timestamp, (b,), u),
    ensures
        b.calls() == (**b).calls(),
        b.supply() == (**b).supply(),
        call_ensures(P::earliest_recv_order_timestamp, (&**b,), t),
        call_ensures(P::earliest_send_order_timestamp, (&**b,), u),
{
}

/// A boxed local side has got the requests that the local side in the box got, and reports what
/// that reports.
pub proof fn a_boxed_local_side_reports_what_is_in_it<
    MD: MarketDepth,
    EventT,
    A: Account,
    P: LocalProcessor<MD, EventT, A>,
>(
    b: &Box<P>,
    position: A::Position,
    state_values: A::StateValues,
    depth: &MD,
    orders: &HashMap<i64, A::Order>,
    trades: &Vec<EventT>,
    feed_latency: Option<(i64, i64)>,
    order_latency: Option<(i64, i64, i64)>,
)
    requires
        call_ensures(<Box<P> as LocalProcessor<MD, EventT, A>>::position, (b,), position),
        call_ensures(<Box<P> as LocalProcessor<MD, EventT, A>>::state_values, (b,), state_values),
        call_ensures(<Box<P> as LocalProcessor<MD, EventT, A>>::depth, (b,), depth),
        call_ensures(<Box<P> as LocalProcessor<MD, EventT, A>>::orders, (b,), orders),
        call_ensures(<Box<P> as LocalProcessor<MD, EventT, A>>::trade, (b,), trades),
        call_ensures(<Box<P> as LocalProcessor<MD, EventT, A>>::feed_latency, (b,), feed_latency),
        call_ensures(
            <Box<P> as LocalProcessor<MD, EventT, A>>::order_latency,
            (b,),
            order_latency,
        ),
    ensures
        b.requests() == (**b).requests(),
        call_ensures(P::position, (&**b,), position),
        call_ensures(P::state_values, (&**b,), state_values),
        call_ensures(P::depth, (&**b,), depth),
        call_ensures(P::orders, (&**b,), orders),
        call_ensures(P::trade, (&**b,), trades),
        call_ensures(P::feed_latency, (&**b,), feed_latency),
        call_ensures(P::order_latency, (&**b,), order_latency),
{
}

/// No timestamp is later than the end of the data, and the order id that stands for none is
/// negative.
pub proof fn the_values_that_stand_for_nothing(t: i64)
    ensures
        t <= UNTIL_END_OF_DATA,
        WAIT_ORDER_RESPONSE_NONE == -1,
{
}

} // verus!
