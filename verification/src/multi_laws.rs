//! What each call of the backtester whose assets may each have models of their own does.

use std::collections::HashMap;

use vstd::prelude::*;

use crate::asset::Asset;
use crate::conduct_laws::conducted;
use crate::depth::MarketDepth;
use crate::multi::{AnyExchange, AnyLocal};
use crate::multi::{MultiAssetMultiExchangeBacktest, MultiAssetMultiExchangeBacktestBuilder};
use crate::proc::{Account, LocalCall, LocalProcessor, Processor};
use crate::request_laws;
use crate::requests;
use crate::run::Waiting;
use crate::types::{BacktestError, BuildError, OrdType, OrderRequest, Side, TimeInForce};
use crate::types::WAIT_ORDER_RESPONSE_NONE;
use crate::wait_laws;

verus! {

/// Submitting a buy order hands a buy order with this id, price, quantity, type and time in force
/// to the local side of the asset at the current time, and follows it up. With `wait` it waits for
/// this order of this asset.
pub proof fn submit_buy_order_buys<
    MD: MarketDepth,
    EventT,
    A: Account,
>(
    bt: &mut MultiAssetMultiExchangeBacktest<MD, EventT, A>,
    asset_no: usize,
    order_id: i64,
    price: MD::Num,
    qty: MD::Num,
    time_in_force: TimeInForce,
    order_type: OrdType,
    wait: bool,
    r: Result<bool, BacktestError>,
)
    requires
        call_ensures(
            MultiAssetMultiExchangeBacktest::<MD, EventT, A>::submit_buy_order,
            (bt, asset_no, order_id, price, qty, time_in_force, order_type, wait),
            r,
        ),
        old(bt)@.wf(),
        asset_no < old(bt)@.local.len(),
    ensures
        request_laws::done_for_the_strategy::<MD, EventT, A, AnyLocal<MD, EventT, A>, AnyExchange>(
            old(bt)@,
            asset_no as int,
            order_id,
            (|answer: Result<(), BacktestError>|
                LocalCall::SubmitOrder {
                    order_id: order_id,
                    side: Side::Buy,
                    price: price,
                    qty: qty,
                    order_type: order_type,
                    time_in_force: time_in_force,
                    current_timestamp: old(bt)@.cur_ts,
                    result: answer,
                }),
            wait,
            false,
            final(bt)@,
            r,
        ),
        wait ==> request_laws::waited_for_the_order(
            old(bt)@,
            asset_no as int,
            order_id,
            final(bt)@,
            r,
        ),
{
    let call = (|answer: Result<(), BacktestError>|
                LocalCall::SubmitOrder {
                    order_id: order_id,
                    side: Side::Buy,
                    price: price,
                    qty: qty,
                    order_type: order_type,
                    time_in_force: time_in_force,
                    current_timestamp: old(bt)@.cur_ts,
                    result: answer,
                });
    assert(call =~= requests::submission::<MD::Num>(
        order_id,
        Side::Buy,
        price,
        qty,
        order_type,
        time_in_force,
        old(bt)@.cur_ts,
    ));
    request_laws::a_request_is_handed_over_and_followed_up::<
        MD,
        EventT,
        A,
        AnyLocal<MD, EventT, A>,
        AnyExchange,
    >(
        old(bt)@,
        asset_no,
        order_id,
        call,
        wait,
        false,
        final(bt)@,
        r,
    );
    if wait {
        request_laws::a_waiting_request_waits_for_its_own_order::<
            MD,
            EventT,
            A,
            AnyLocal<MD, EventT, A>,
            AnyExchange,
        >(
            old(bt)@,
            asset_no,
            order_id,
            call,
            false,
            final(bt)@,
            r,
        );
    }
}

/// Submitting a sell order hands a sell order with this id, price, quantity, type and time in force
/// to the local side of the asset at the current time, and follows it up. With `wait` it waits for
/// this order of this asset.
pub proof fn submit_sell_order_sells<
    MD: MarketDepth,
    EventT,
    A: Account,
>(
    bt: &mut MultiAssetMultiExchangeBacktest<MD, EventT, A>,
    asset_no: usize,
    order_id: i64,
    price: MD::Num,
    qty: MD::Num,
    time_in_force: TimeInForce,
    order_type: OrdType,
    wait: bool,
    r: Result<bool, BacktestError>,
)
    requires
        call_ensures(
            MultiAssetMultiExchangeBacktest::<MD, EventT, A>::submit_sell_order,
            (bt, asset_no, order_id, price, qty, time_in_force, order_type, wait),
            r,
        ),
        old(bt)@.wf(),
        asset_no < old(bt)@.local.len(),
    ensures
        request_laws::done_for_the_strategy::<MD, EventT, A, AnyLocal<MD, EventT, A>, AnyExchange>(
            old(bt)@,
            asset_no as int,
            order_id,
            (|answer: Result<(), BacktestError>|
                LocalCall::SubmitOrder {
                    order_id: order_id,
                    side: Side::Sell,
                    price: price,
                    qty: qty,
                    order_type: order_type,
                    time_in_force: time_in_force,
                    current_timestamp: old(bt)@.cur_ts,
                    result: answer,
                }),
            wait,
            false,
            final(bt)@,
            r,
        ),
        wait ==> request_laws::waited_for_the_order(
            old(bt)@,
            asset_no as int,
            order_id,
            final(bt)@,
            r,
        ),
{
    let call = (|answer: Result<(), BacktestError>|
                LocalCall::SubmitOrder {
                    order_id: order_id,
                    side: Side::Sell,
                    price: price,
                    qty: qty,
                    order_type: order_type,
                    time_in_force: time_in_force,
                    current_timestamp: old(bt)@.cur_ts,
                    result: answer,
                });
    assert(call =~= requests::submission::<MD::Num>(
        order_id,
        Side::Sell,
        price,
        qty,
        order_type,
        time_in_force,
        old(bt)@.cur_ts,
    ));
    request_laws::a_request_is_handed_over_and_followed_up::<
        MD,
        EventT,
        A,
        AnyLocal<MD, EventT, A>,
        AnyExchange,
    >(
        old(bt)@,
        asset_no,
        order_id,
        call,
        wait,
        false,
        final(bt)@,
        r,
    );
    if wait {
        request_laws::a_waiting_request_waits_for_its_own_order::<
            MD,
            EventT,
            A,
            AnyLocal<MD, EventT, A>,
            AnyExchange,
        >(
            old(bt)@,
            asset_no,
            order_id,
            call,
            false,
            final(bt)@,
            r,
        );
    }
}

/// Submitting an order hands a sell order as requested to the local side of the asset at the
/// current time, and follows it up. With `wait` it waits for this order of this asset.
pub proof fn submit_order_sells<
    MD: MarketDepth,
    EventT,
    A: Account,
>(
    bt: &mut MultiAssetMultiExchangeBacktest<MD, EventT, A>,
    asset_no: usize,
    order: OrderRequest<MD::Num>,
    wait: bool,
    r: Result<bool, BacktestError>,
)
    requires
        call_ensures(
            MultiAssetMultiExchangeBacktest::<MD, EventT, A>::submit_order,
            (bt, asset_no, order, wait),
            r,
        ),
        old(bt)@.wf(),
        asset_no < old(bt)@.local.len(),
    ensures
        request_laws::done_for_the_strategy::<MD, EventT, A, AnyLocal<MD, EventT, A>, AnyExchange>(
            old(bt)@,
            asset_no as int,
            order.order_id,
            (|answer: Result<(), BacktestError>|
                LocalCall::SubmitOrder {
                    order_id: order.order_id,
                    side: Side::Sell,
                    price: order.price,
                    qty: order.qty,
                    order_type: order.order_type,
                    time_in_force: order.time_in_force,
                    current_timestamp: old(bt)@.cur_ts,
                    result: answer,
                }),
            wait,
            false,
            final(bt)@,
            r,
        ),
        wait ==> request_laws::waited_for_the_order(
            old(bt)@,
            asset_no as int,
            order.order_id,
            final(bt)@,
            r,
        ),
{
    let call = (|answer: Result<(), BacktestError>|
                LocalCall::SubmitOrder {
                    order_id: order.order_id,
                    side: Side::Sell,
                    price: order.price,
                    qty: order.qty,
                    order_type: order.order_type,
                    time_in_force: order.time_in_force,
                    current_timestamp: old(bt)@.cur_ts,
                    result: answer,
                });
    assert(call =~= requests::submission::<MD::Num>(
        order.order_id,
        Side::Sell,
        order.price,
        order.qty,
        order.order_type,
        order.time_in_force,
        old(bt)@.cur_ts,
    ));
    request_laws::a_request_is_handed_over_and_followed_up::<
        MD,
        EventT,
        A,
        AnyLocal<MD, EventT, A>,
        AnyExchange,
    >(
        old(bt)@,
        asset_no,
        order.order_id,
        call,
        wait,
        false,
        final(bt)@,
        r,
    );
    if wait {
        request_laws::a_waiting_request_waits_for_its_own_order::<
            MD,
            EventT,
            A,
            AnyLocal<MD, EventT, A>,
            AnyExchange,
        >(
            old(bt)@,
            asset_no,
            order.order_id,
            call,
            false,
            final(bt)@,
            r,
        );
    }
}

/// Cancelling hands the cancellation of this order to the local side of the asset at the current
/// time, and follows it up. With `wait` it waits for this order of this asset.
pub proof fn cancel_cancels<
    MD: MarketDepth,
    EventT,
    A: Account,
>(
    bt: &mut MultiAssetMultiExchangeBacktest<MD, EventT, A>,
    asset_no: usize,
    order_id: i64,
    wait: bool,
    r: Result<bool, BacktestError>,
)
    requires
        call_ensures(
            MultiAssetMultiExchangeBacktest::<MD, EventT, A>::cancel,
            (bt, asset_no, order_id, wait),
            r,
        ),
        old(bt)@.wf(),
        asset_no < old(bt)@.local.len(),
    ensures
        request_laws::done_for_the_strategy::<MD, EventT, A, AnyLocal<MD, EventT, A>, AnyExchange>(
            old(bt)@,
            asset_no as int,
            order_id,
            (|answer: Result<(), BacktestError>|
                LocalCall::Cancel {
                    order_id,
                    current_timestamp: old(bt)@.cur_ts,
                    result: answer,
                }),
            wait,
            false,
            final(bt)@,
            r,
        ),
        wait ==> request_laws::waited_for_the_order(
            old(bt)@,
            asset_no as int,
            order_id,
            final(bt)@,
            r,
        ),
{
    let call = (|answer: Result<(), BacktestError>|
                LocalCall::Cancel {
                    order_id,
                    current_timestamp: old(bt)@.cur_ts,
                    result: answer,
                });
    assert(call =~= requests::cancellation::<MD::Num>(order_id, old(bt)@.cur_ts));
    request_laws::a_request_is_handed_over_and_followed_up::<
        MD,
        EventT,
        A,
        AnyLocal<MD, EventT, A>,
        AnyExchange,
    >(
        old(bt)@,
        asset_no,
        order_id,
        call,
        wait,
        false,
        final(bt)@,
        r,
    );
    if wait {
        request_laws::a_waiting_request_waits_for_its_own_order::<
            MD,
            EventT,
            A,
            AnyLocal<MD, EventT, A>,
            AnyExchange,
        >(
            old(bt)@,
            asset_no,
            order_id,
            call,
            false,
            final(bt)@,
            r,
        );
    }
}

/// A run to a time serves what is pending up to it. If it waits for a response, the local side of
/// this asset is told to look out for this order and nobody for another one, and the clock ends at
/// the time, or at the earliest time of a response that was waited for. If it waits for the next
/// feed, nobody is told to look out for an order.
pub proof fn goto_runs_to_the_time<
    MD: MarketDepth,
    EventT,
    A: Account,
    const WAIT_NEXT_FEED: bool,
>(
    bt: &mut MultiAssetMultiExchangeBacktest<MD, EventT, A>,
    timestamp: i64,
    wait_order_response: (usize, i64),
    include_order_resp: bool,
    r: Result<bool, BacktestError>,
)
    requires
        call_ensures(
            MultiAssetMultiExchangeBacktest::<MD, EventT, A>::goto::<WAIT_NEXT_FEED>,
            (bt, timestamp, wait_order_response, include_order_resp),
            r,
        ),
        old(bt)@.wf(),
    ensures
        conducted(
            old(bt)@,
            timestamp,
            WAIT_NEXT_FEED,
            wait_order_response.0 as int,
            wait_order_response.1,
            include_order_resp,
            final(bt)@,
            r,
        ),
        WAIT_NEXT_FEED ==> wait_laws::none_is_looked_out_for(old(bt)@, timestamp, final(bt)@),
        !WAIT_NEXT_FEED ==> wait_laws::only_this_is_looked_out_for(
            old(bt)@,
            wait_order_response.0 as int,
            wait_order_response.1,
            timestamp,
            final(bt)@,
        ),
        !WAIT_NEXT_FEED && r == Ok::<bool, BacktestError>(true) ==> wait_laws::clock_is_first_of(
            old(bt)@,
            timestamp,
            final(bt)@,
        ),
{
    let waiting = Waiting {
        next_feed: WAIT_NEXT_FEED,
        order_response: wait_order_response,
        include_order_resp,
    };
    let (a, id) = wait_order_response;
    crate::conduct_laws::a_run_serves_what_is_pending(
        old(bt)@,
        timestamp,
        waiting,
        final(bt)@,
        r,
    );
    if WAIT_NEXT_FEED {
        wait_laws::a_wait_for_the_feed_looks_out_for_no_order(
            old(bt)@,
            timestamp,
            wait_order_response,
            include_order_resp,
            final(bt)@,
            r,
        );
    } else {
        wait_laws::a_wait_for_a_response_looks_out_for_it_alone(
            old(bt)@,
            timestamp,
            a,
            id,
            include_order_resp,
            final(bt)@,
            r,
        );
        if r == Ok::<bool, BacktestError>(true) {
            wait_laws::the_clock_is_at_the_first_response(
                old(bt)@,
                timestamp,
                wait_order_response,
                include_order_resp,
                final(bt)@,
            );
        }
    }
}

/// Waiting for the response to an order tells the local side of this asset, and nobody else, to
/// look out for this order. It ends with the response, and after the timeout at the latest.
pub proof fn wait_order_response_waits_for_this_order<
    MD: MarketDepth,
    EventT,
    A: Account,
>(
    bt: &mut MultiAssetMultiExchangeBacktest<MD, EventT, A>,
    asset_no: usize,
    order_id: i64,
    timeout: i64,
    r: Result<bool, BacktestError>,
)
    requires
        call_ensures(
            MultiAssetMultiExchangeBacktest::<MD, EventT, A>::wait_order_response,
            (bt, asset_no, order_id, timeout),
            r,
        ),
        old(bt)@.wf(),
    ensures
        exists|target: i64| #[trigger]
            request_laws::is_later_by(old(bt)@.cur_ts, timeout, target)
                && request_laws::waited_up_to(
                old(bt)@,
                target,
                asset_no as int,
                order_id,
                final(bt)@,
                r,
            ),
{
    let target = old(bt)@.cur_ts.wrapping_add(timeout);
    request_laws::a_wait_for_a_response_ends_with_it(
        old(bt)@,
        target,
        asset_no,
        order_id,
        final(bt)@,
        r,
    );
    assert(request_laws::is_later_by(old(bt)@.cur_ts, timeout, target));
}

/// Waiting for the next feed gets the backtester going if it has to, and serves what is pending
/// until a local side has got data, or a response if those are included, and for the timeout at
/// most.
pub proof fn wait_next_feed_waits_for_the_feed<
    MD: MarketDepth,
    EventT,
    A: Account,
>(
    bt: &mut MultiAssetMultiExchangeBacktest<MD, EventT, A>,
    include_order_resp: bool,
    timeout: i64,
    r: Result<bool, BacktestError>,
)
    requires
        call_ensures(
            MultiAssetMultiExchangeBacktest::<MD, EventT, A>::wait_next_feed,
            (bt, include_order_resp, timeout),
            r,
        ),
        old(bt)@.wf(),
    ensures
        request_laws::ran_on(
            old(bt)@,
            timeout,
            true,
            0,
            WAIT_ORDER_RESPONSE_NONE,
            include_order_resp,
            final(bt)@,
            r,
        ),
{
    let waiting = Waiting {
        next_feed: true,
        order_response: (0, WAIT_ORDER_RESPONSE_NONE),
        include_order_resp,
    };
    request_laws::a_run_for_a_span_goes_on_from_the_clock(
        old(bt)@,
        timeout,
        waiting,
        final(bt)@,
        r,
    );
}

/// Letting time pass gets the backtester going if it has to, and serves what is pending for as
/// long. The clock of one that was going is then as much later, unless a response was waited for.
pub proof fn elapse_lets_time_pass<
    MD: MarketDepth,
    EventT,
    A: Account,
>(
    bt: &mut MultiAssetMultiExchangeBacktest<MD, EventT, A>,
    duration: i64,
    r: Result<bool, BacktestError>,
)
    requires
        call_ensures(MultiAssetMultiExchangeBacktest::<MD, EventT, A>::elapse, (bt, duration), r),
        old(bt)@.wf(),
    ensures
        request_laws::ran_on(
            old(bt)@,
            duration,
            false,
            0,
            WAIT_ORDER_RESPONSE_NONE,
            false,
            final(bt)@,
            r,
        ),
        old(bt)@.cur_ts != i64::MAX && r == Ok::<bool, BacktestError>(true)
            ==> request_laws::time_passed(old(bt)@, duration, final(bt)@),
{
    let waiting = Waiting {
        next_feed: false,
        order_response: (0, WAIT_ORDER_RESPONSE_NONE),
        include_order_resp: false,
    };
    request_laws::a_run_for_a_span_goes_on_from_the_clock(
        old(bt)@,
        duration,
        waiting,
        final(bt)@,
        r,
    );
    if old(bt)@.cur_ts != i64::MAX && r == Ok::<bool, BacktestError>(true) {
        request_laws::time_passes(
            old(bt)@,
            duration,
            (0, WAIT_ORDER_RESPONSE_NONE),
            final(bt)@,
        );
    }
}

/// Letting time pass gets the backtester going if it has to, and serves what is pending for as
/// long. The clock of one that was going is then as much later, unless a response was waited for.
pub proof fn elapse_bt_lets_time_pass<
    MD: MarketDepth,
    EventT,
    A: Account,
>(
    bt: &mut MultiAssetMultiExchangeBacktest<MD, EventT, A>,
    duration: i64,
    r: Result<bool, BacktestError>,
)
    requires
        call_ensures(
            MultiAssetMultiExchangeBacktest::<MD, EventT, A>::elapse_bt,
            (bt, duration),
            r,
        ),
        old(bt)@.wf(),
    ensures
        request_laws::ran_on(
            old(bt)@,
            duration,
            false,
            0,
            WAIT_ORDER_RESPONSE_NONE,
            false,
            final(bt)@,
            r,
        ),
        old(bt)@.cur_ts != i64::MAX && r == Ok::<bool, BacktestError>(true)
            ==> request_laws::time_passed(old(bt)@, duration, final(bt)@),
{
    let waiting = Waiting {
        next_feed: false,
        order_response: (0, WAIT_ORDER_RESPONSE_NONE),
        include_order_resp: false,
    };
    request_laws::a_run_for_a_span_goes_on_from_the_clock(
        old(bt)@,
        duration,
        waiting,
        final(bt)@,
        r,
    );
    if old(bt)@.cur_ts != i64::MAX && r == Ok::<bool, BacktestError>(true) {
        request_laws::time_passes(
            old(bt)@,
            duration,
            (0, WAIT_ORDER_RESPONSE_NONE),
            final(bt)@,
        );
    }
}

/// Clearing the last trades is handed to the local side of the asset, or to all local sides.
pub proof fn clear_last_trades_clears_them<
    MD: MarketDepth,
    EventT,
    A: Account,
>(
    bt: &mut MultiAssetMultiExchangeBacktest<MD, EventT, A>,
    asset_no: Option<usize>,
)
    requires
        call_ensures(
            MultiAssetMultiExchangeBacktest::<MD, EventT, A>::clear_last_trades,
            (bt, asset_no),
            (),
        ),
        old(bt)@.wf(),
        asset_no matches Some(a) ==> a < old(bt)@.local.len(),
    ensures
        asset_no matches Some(a) ==> request_laws::handed_over::<
            MD,
            EventT,
            A,
            AnyLocal<MD, EventT, A>,
            AnyExchange,
        >(
            old(bt)@,
            a as int,
            LocalCall::ClearLastTrades,
            final(bt)@,
        ),
        asset_no is None ==> request_laws::handed_to_all::<
            MD,
            EventT,
            A,
            AnyLocal<MD, EventT, A>,
            AnyExchange,
        >(
            old(bt)@,
            LocalCall::ClearLastTrades,
            final(bt)@,
        ),
{
    request_laws::a_call_is_handed_to_one_or_to_all::<
        MD,
        EventT,
        A,
        AnyLocal<MD, EventT, A>,
        AnyExchange,
    >(
        old(bt)@,
        asset_no,
        LocalCall::ClearLastTrades,
        final(bt)@,
    );
}

/// Clearing the inactive orders is handed to the local side of the asset, or to all local sides.
pub proof fn clear_inactive_orders_clears_them<
    MD: MarketDepth,
    EventT,
    A: Account,
>(
    bt: &mut MultiAssetMultiExchangeBacktest<MD, EventT, A>,
    asset_no: Option<usize>,
)
    requires
        call_ensures(
            MultiAssetMultiExchangeBacktest::<MD, EventT, A>::clear_inactive_orders,
            (bt, asset_no),
            (),
        ),
        old(bt)@.wf(),
        asset_no matches Some(a) ==> a < old(bt)@.local.len(),
    ensures
        asset_no matches Some(a) ==> request_laws::handed_over::<
            MD,
            EventT,
            A,
            AnyLocal<MD, EventT, A>,
            AnyExchange,
        >(
            old(bt)@,
            a as int,
            LocalCall::ClearInactiveOrders,
            final(bt)@,
        ),
        asset_no is None ==> request_laws::handed_to_all::<
            MD,
            EventT,
            A,
            AnyLocal<MD, EventT, A>,
            AnyExchange,
        >(
            old(bt)@,
            LocalCall::ClearInactiveOrders,
            final(bt)@,
        ),
{
    request_laws::a_call_is_handed_to_one_or_to_all::<
        MD,
        EventT,
        A,
        AnyLocal<MD, EventT, A>,
        AnyExchange,
    >(
        old(bt)@,
        asset_no,
        LocalCall::ClearInactiveOrders,
        final(bt)@,
    );
}

/// The position of an asset is what its own local side reports.
pub proof fn position_is_of_the_asset<
    MD: MarketDepth,
    EventT,
    A: Account,
>(
    bt: &MultiAssetMultiExchangeBacktest<MD, EventT, A>,
    asset_no: usize,
    r: A::Position,
)
    requires
        call_ensures(MultiAssetMultiExchangeBacktest::<MD, EventT, A>::position, (bt, asset_no), r),
        asset_no < bt@.local.len(),
    ensures
        request_laws::tells_position::<MD, EventT, A, AnyLocal<MD, EventT, A>>(
            &bt@.local[asset_no as int],
            r,
        ),
{
}

/// The state values of an asset are what its own local side reports.
pub proof fn state_values_is_of_the_asset<
    MD: MarketDepth,
    EventT,
    A: Account,
>(
    bt: &MultiAssetMultiExchangeBacktest<MD, EventT, A>,
    asset_no: usize,
    r: A::StateValues,
)
    requires
        call_ensures(
            MultiAssetMultiExchangeBacktest::<MD, EventT, A>::state_values,
            (bt, asset_no),
            r,
        ),
        asset_no < bt@.local.len(),
    ensures
        request_laws::tells_state_values::<MD, EventT, A, AnyLocal<MD, EventT, A>>(
            &bt@.local[asset_no as int],
            r,
        ),
{
}

/// The depth of an asset is what its own local side reports.
pub proof fn depth_is_of_the_asset<
    MD: MarketDepth,
    EventT,
    A: Account,
>(
    bt: &MultiAssetMultiExchangeBacktest<MD, EventT, A>,
    asset_no: usize,
    r: &MD,
)
    requires
        call_ensures(MultiAssetMultiExchangeBacktest::<MD, EventT, A>::depth, (bt, asset_no), r),
        asset_no < bt@.local.len(),
    ensures
        request_laws::tells_depth::<MD, EventT, A, AnyLocal<MD, EventT, A>>(
            &bt@.local[asset_no as int],
            r,
        ),
{
}

/// The depth of an asset is what its own local side reports.
pub proof fn depth_typed_is_of_the_asset<
    MD: MarketDepth,
    EventT,
    A: Account,
>(
    bt: &MultiAssetMultiExchangeBacktest<MD, EventT, A>,
    asset_no: usize,
    r: &MD,
)
    requires
        call_ensures(
            MultiAssetMultiExchangeBacktest::<MD, EventT, A>::depth_typed,
            (bt, asset_no),
            r,
        ),
        asset_no < bt@.local.len(),
    ensures
        request_laws::tells_depth::<MD, EventT, A, AnyLocal<MD, EventT, A>>(
            &bt@.local[asset_no as int],
            r,
        ),
{
}

/// The orders of an asset are what its own local side reports.
pub proof fn orders_is_of_the_asset<
    MD: MarketDepth,
    EventT,
    A: Account,
>(
    bt: &MultiAssetMultiExchangeBacktest<MD, EventT, A>,
    asset_no: usize,
    r: &HashMap<i64, A::Order>,
)
    requires
        call_ensures(MultiAssetMultiExchangeBacktest::<MD, EventT, A>::orders, (bt, asset_no), r),
        asset_no < bt@.local.len(),
    ensures
        request_laws::tells_orders::<MD, EventT, A, AnyLocal<MD, EventT, A>>(
            &bt@.local[asset_no as int],
            r,
        ),
{
}

/// The trades of an asset are what its own local side reports.
pub proof fn trade_typed_is_of_the_asset<
    MD: MarketDepth,
    EventT,
    A: Account,
>(
    bt: &MultiAssetMultiExchangeBacktest<MD, EventT, A>,
    asset_no: usize,
    r: &Vec<EventT>,
)
    requires
        call_ensures(
            MultiAssetMultiExchangeBacktest::<MD, EventT, A>::trade_typed,
            (bt, asset_no),
            r,
        ),
        asset_no < bt@.local.len(),
    ensures
        request_laws::tells_trades::<MD, EventT, A, AnyLocal<MD, EventT, A>>(
            &bt@.local[asset_no as int],
            r,
        ),
{
}

/// The feed latency of an asset is what its own local side reports.
pub proof fn feed_latency_is_of_the_asset<
    MD: MarketDepth,
    EventT,
    A: Account,
>(
    bt: &MultiAssetMultiExchangeBacktest<MD, EventT, A>,
    asset_no: usize,
    r: Option<(i64, i64)>,
)
    requires
        call_ensures(
            MultiAssetMultiExchangeBacktest::<MD, EventT, A>::feed_latency,
            (bt, asset_no),
            r,
        ),
        asset_no < bt@.local.len(),
    ensures
        request_laws::tells_feed_latency::<MD, EventT, A, AnyLocal<MD, EventT, A>>(
            &bt@.local[asset_no as int],
            r,
        ),
{
}

/// The order latency of an asset is what its own local side reports.
pub proof fn order_latency_is_of_the_asset<
    MD: MarketDepth,
    EventT,
    A: Account,
>(
    bt: &MultiAssetMultiExchangeBacktest<MD, EventT, A>,
    asset_no: usize,
    r: Option<(i64, i64, i64)>,
)
    requires
        call_ensures(
            MultiAssetMultiExchangeBacktest::<MD, EventT, A>::order_latency,
            (bt, asset_no),
            r,
        ),
        asset_no < bt@.local.len(),
    ensures
        request_laws::tells_order_latency::<MD, EventT, A, AnyLocal<MD, EventT, A>>(
            &bt@.local[asset_no as int],
            r,
        ),
{
}

/// The list of the trades of an asset refers to those that its own local side reports, one by one.
pub proof fn trade_is_of_the_asset<
    MD: MarketDepth,
    EventT,
    A: Account,
>(
    bt: &MultiAssetMultiExchangeBacktest<MD, EventT, A>,
    asset_no: usize,
    r: Vec<&EventT>,
)
    requires
        call_ensures(MultiAssetMultiExchangeBacktest::<MD, EventT, A>::trade, (bt, asset_no), r),
        asset_no < bt@.local.len(),
    ensures
        request_laws::refers_to_trades::<MD, EventT, A, AnyLocal<MD, EventT, A>>(
            &bt@.local[asset_no as int],
            r@,
        ),
{
    request_laws::lemma_refers_to_trades::<
        MD,
        EventT,
        A,
        AnyLocal<MD, EventT, A>,
    >(&bt@.local[asset_no as int], r@);
}

/// The current timestamp is the clock, and the number of assets that of the local sides.
pub proof fn the_clock_and_the_assets_are_told<
    MD: MarketDepth,
    EventT,
    A: Account,
>(
    bt: &MultiAssetMultiExchangeBacktest<MD, EventT, A>,
    t: i64,
    n: usize,
)
    requires
        call_ensures(MultiAssetMultiExchangeBacktest::<MD, EventT, A>::current_timestamp, (bt,), t),
        call_ensures(MultiAssetMultiExchangeBacktest::<MD, EventT, A>::num_assets, (bt,), n),
    ensures
        t == bt@.cur_ts,
        n == bt@.local.len(),
{
}

/// Closing succeeds and changes nothing.
pub proof fn close_changes_nothing<
    MD: MarketDepth,
    EventT,
    A: Account,
>(
    bt: &mut MultiAssetMultiExchangeBacktest<MD, EventT, A>,
    r: Result<(), BacktestError>,
)
    requires
        call_ensures(MultiAssetMultiExchangeBacktest::<MD, EventT, A>::close, (bt,), r),
    ensures
        r is Ok,
        final(bt)@ == old(bt)@,
{
}

/// A new backtester is at rest, with these local and exchange sides.
pub proof fn new_is_at_rest<
    MD: MarketDepth,
    EventT,
    A: Account,
>(
    local: Vec<AnyLocal<MD, EventT, A>>,
    exch: Vec<AnyExchange>,
    r: MultiAssetMultiExchangeBacktest<MD, EventT, A>,
)
    requires
        call_ensures(MultiAssetMultiExchangeBacktest::<MD, EventT, A>::new, (local, exch), r),
        local.len() == exch.len(),
    ensures
        request_laws::at_rest(r@, local@, exch@),
{
    request_laws::lemma_at_rest(local@, exch@);
}

/// A backtester that was built is at rest, with the local and exchange sides that were added.
pub proof fn build_is_at_rest<
    MD: MarketDepth,
    EventT,
    A: Account,
>(
    builder: MultiAssetMultiExchangeBacktestBuilder<MD, EventT, A>,
    r: Result<MultiAssetMultiExchangeBacktest<MD, EventT, A>, BuildError>,
)
    requires
        call_ensures(MultiAssetMultiExchangeBacktestBuilder::<MD, EventT, A>::build, (builder,), r),
        builder.local().len() == builder.exch().len(),
    ensures
        r matches Ok(bt) && request_laws::at_rest(bt@, builder.local(), builder.exch()),
{
    request_laws::lemma_at_rest(builder.local(), builder.exch());
}

/// Adding an asset adds its two sides after those of the others. A new builder has none.
pub proof fn add_adds_at_the_end<
    MD: MarketDepth,
    EventT,
    A: Account,
>(
    start: MultiAssetMultiExchangeBacktestBuilder<MD, EventT, A>,
    builder: MultiAssetMultiExchangeBacktestBuilder<MD, EventT, A>,
    asset: Asset<dyn LocalProcessor<MD, EventT, A>, dyn Processor>,
    r: MultiAssetMultiExchangeBacktestBuilder<MD, EventT, A>,
)
    requires
        call_ensures(MultiAssetMultiExchangeBacktest::<MD, EventT, A>::builder, (), start),
        call_ensures(
            MultiAssetMultiExchangeBacktestBuilder::<MD, EventT, A>::add,
            (builder, asset),
            r,
        ),
    ensures
        start.local() == Seq::<AnyLocal<MD, EventT, A>>::empty(),
        start.exch() == Seq::<AnyExchange>::empty(),
        r.local() == builder.local().push(asset.local),
        r.exch() == builder.exch().push(asset.exch),
{
}

} // verus!
