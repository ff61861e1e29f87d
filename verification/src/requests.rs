//! What the strategy's requests do to the state of a backtester.

use vstd::prelude::*;

use crate::depth::MarketDepth;
use crate::evs;
use crate::evs::{AssetEvents, EventIntent};
use crate::proc;
use crate::proc::{Account, LocalCall, LocalProcessor, Processor};
use crate::run;
use crate::run::{BacktestState, Waiting};
use crate::types::{BacktestError, OrdType, Side, TimeInForce, UNTIL_END_OF_DATA};

verus! {

/// `post` comes out of `pre` by the call.
pub open spec fn requested<
    MD: MarketDepth,
    EventT,
    A: Account,
    L: LocalProcessor<MD, EventT, A>,
>(pre: L, post: L, call: LocalCall<MD::Num>) -> bool {
    &&& post.requests() == pre.requests().push(call)
    &&& post.calls() == pre.calls()
}

/// The call is made to the local side of `asset_no`, and nothing else changes.
pub open spec fn requested_at<
    MD: MarketDepth,
    EventT,
    A: Account,
    L: LocalProcessor<MD, EventT, A>,
    E: Processor,
>(
    pre: BacktestState<L, E>,
    asset_no: usize,
    call: LocalCall<MD::Num>,
    post: BacktestState<L, E>,
) -> bool {
    let i = asset_no as int;
    &&& requested::<MD, EventT, A, L>(pre.local[i], post.local[i], call)
    &&& post == (BacktestState { local: pre.local.update(i, post.local[i]), ..pre })
}

/// The call is made to the local side of `asset_no`, or of every asset if `asset_no` is `None`, and
/// nothing else changes.
pub open spec fn requested_of<
    MD: MarketDepth,
    EventT,
    A: Account,
    L: LocalProcessor<MD, EventT, A>,
    E: Processor,
>(
    pre: BacktestState<L, E>,
    asset_no: Option<usize>,
    call: LocalCall<MD::Num>,
    post: BacktestState<L, E>,
) -> bool {
    match asset_no {
        Some(an) => requested_at::<MD, EventT, A, L, E>(pre, an, call, post),
        None => {
            &&& post == (BacktestState { local: post.local, ..pre })
            &&& post.local.len() == pre.local.len()
            &&& forall|i: int|
                #![trigger post.local[i]]
                0 <= i < pre.local.len() ==> requested::<MD, EventT, A, L>(
                    pre.local[i],
                    post.local[i],
                    call,
                )
        },
    }
}

/// `post` is `pre` with the time at which the exchange receives the next order of `asset_no` taken
/// anew from the local side.
pub open spec fn dispatch_noted<L: Processor, E: Processor>(
    pre: BacktestState<L, E>,
    asset_no: usize,
    post: BacktestState<L, E>,
) -> bool {
    let i = asset_no as int;
    &&& proc::sends_at(&pre.local[i], post.evs[i].exch_order)
    &&& post == (BacktestState {
        evs: pre.evs.update(
            i,
            AssetEvents { exch_order: post.evs[i].exch_order, ..pre.evs[i] },
        ),
        ..pre
    })
}

/// After a request for an order was accepted, the backtester runs until the response to the order
/// is received if it is to wait for it, and otherwise is done.
pub open spec fn awaits<L: Processor, E: Processor>(
    pre: BacktestState<L, E>,
    asset_no: usize,
    order_id: i64,
    wait: bool,
    post: BacktestState<L, E>,
    r: Result<bool, BacktestError>,
) -> bool {
    if wait {
        run::goes_to(
            pre,
            UNTIL_END_OF_DATA,
            Waiting::of(false, (asset_no, order_id), false),
            post,
            r,
        )
    } else {
        r == Ok::<bool, BacktestError>(true) && post == pre
    }
}

/// A request for the order `order_id` has taken the backtester to `pre` with this outcome. If the
/// local side refused it, its error is returned. If it was accepted and `noted`, the time at which
/// the exchange receives it is noted at once.
pub open spec fn answered<L: Processor, E: Processor>(
    pre: BacktestState<L, E>,
    outcome: Result<(), BacktestError>,
    asset_no: usize,
    order_id: i64,
    wait: bool,
    noted: bool,
    post: BacktestState<L, E>,
    r: Result<bool, BacktestError>,
) -> bool {
    match outcome {
        Ok(()) => if noted {
            exists|mid: BacktestState<L, E>| #[trigger]
                dispatch_noted(pre, asset_no, mid) && awaits(mid, asset_no, order_id, wait, post, r)
        } else {
            awaits(pre, asset_no, order_id, wait, post, r)
        },
        Err(e) => r == Err::<bool, BacktestError>(e) && post == pre,
    }
}

/// A call that submits an order, by what it returns.
pub open spec fn submission<N>(
    order_id: i64,
    side: Side,
    price: N,
    qty: N,
    order_type: OrdType,
    time_in_force: TimeInForce,
    current_timestamp: i64,
) -> spec_fn(Result<(), BacktestError>) -> LocalCall<N> {
    |result: Result<(), BacktestError>|
        LocalCall::SubmitOrder {
            order_id,
            side,
            price,
            qty,
            order_type,
            time_in_force,
            current_timestamp,
            result,
        }
}

/// A call that cancels an order, by what it returns.
pub open spec fn cancellation<N>(order_id: i64, current_timestamp: i64) -> spec_fn(
    Result<(), BacktestError>,
) -> LocalCall<N> {
    |result: Result<(), BacktestError>| LocalCall::Cancel { order_id, current_timestamp, result }
}

/// The backtester makes the call for the order `order_id` to the local side of the asset, and
/// answers as the local side does; if the call is accepted and it is to wait, it runs until the
/// response is received.
pub open spec fn carried_out<
    MD: MarketDepth,
    EventT,
    A: Account,
    L: LocalProcessor<MD, EventT, A>,
    E: Processor,
>(
    pre: BacktestState<L, E>,
    asset_no: usize,
    order_id: i64,
    call: spec_fn(Result<(), BacktestError>) -> LocalCall<MD::Num>,
    wait: bool,
    noted: bool,
    post: BacktestState<L, E>,
    r: Result<bool, BacktestError>,
) -> bool {
    exists|mid: BacktestState<L, E>, outcome: Result<(), BacktestError>|
        {
            &&& requested_at::<MD, EventT, A, L, E>(pre, asset_no, call(outcome), mid)
            &&& #[trigger] answered(mid, outcome, asset_no, order_id, wait, noted, post, r)
        }
}

/// `list` refers to each of the last market trades that `p` reports.
pub open spec fn trades_listed<
    MD: MarketDepth,
    EventT,
    A: Account,
    L: LocalProcessor<MD, EventT, A>,
>(p: &L, list: Seq<&EventT>) -> bool {
    exists|events: &Vec<EventT>| #[trigger]
        proc::trades_are::<MD, EventT, A, L>(p, events) && list.len() == events@.len() && (
        forall|i: int| 0 <= i < list.len() ==> *#[trigger] list[i] == events@[i])
}

/// The feed of a processor was prepared; its first market data is due at `timestamp`.
pub open spec fn feed_prepared<P: Processor>(pre: P, post: P, timestamp: i64) -> bool {
    exists|r: Result<i64, BacktestError>| #[trigger]
        run::data_initialized(pre, post, r) && evs::due(r) == Ok::<i64, BacktestError>(timestamp)
}

/// The feeds of the first `n` local sides and of the first `m` exchange sides were prepared, and
/// nothing else changed.
pub open spec fn prepared<L: Processor, E: Processor>(
    pre: BacktestState<L, E>,
    n: int,
    m: int,
    post: BacktestState<L, E>,
) -> bool {
    &&& post.cur_ts == pre.cur_ts
    &&& post.evs.len() == pre.evs.len()
    &&& post.local.len() == pre.local.len()
    &&& post.exch.len() == pre.exch.len()
    &&& forall|i: int|
        #![trigger post.local[i]]
        0 <= i < pre.local.len() ==> if i < n {
            feed_prepared(pre.local[i], post.local[i], post.evs[i].local_data)
        } else {
            post.local[i] == pre.local[i] && post.evs[i].local_data == pre.evs[i].local_data
        }
    &&& forall|i: int|
        #![trigger post.exch[i]]
        0 <= i < pre.exch.len() ==> if i < m {
            feed_prepared(pre.exch[i], post.exch[i], post.evs[i].exch_data)
        } else {
            post.exch[i] == pre.exch[i] && post.evs[i].exch_data == pre.evs[i].exch_data
        }
    &&& forall|i: int|
        #![trigger post.evs[i]]
        0 <= i < pre.evs.len() ==> {
            &&& post.evs[i].local_order == pre.evs[i].local_order
            &&& post.evs[i].exch_order == pre.evs[i].exch_order
        }
}

/// One more local side has prepared its feed.
pub proof fn lemma_local_prepared<L: Processor, E: Processor>(
    pre: BacktestState<L, E>,
    mid: BacktestState<L, E>,
    k: int,
    post: BacktestState<L, E>,
)
    requires
        pre.wf(),
        prepared(pre, k, 0, mid),
        0 <= k < pre.local.len(),
        feed_prepared(mid.local[k], post.local[k], post.evs[k].local_data),
        post == (BacktestState {
            evs: mid.evs.update(
                k,
                AssetEvents { local_data: post.evs[k].local_data, ..mid.evs[k] },
            ),
            local: mid.local.update(k, post.local[k]),
            ..mid
        }),
    ensures
        prepared(pre, k + 1, 0, post),
{
    assert(mid.local[k] == pre.local[k]);
    assert forall|i: int| #![trigger post.local[i]] 0 <= i < pre.local.len() && i != k implies {
        post.local[i] == mid.local[i] && post.evs[i] == mid.evs[i]
    } by {}
    assert forall|i: int| #![trigger post.evs[i]] 0 <= i < pre.evs.len() implies {
        &&& post.evs[i].local_order == pre.evs[i].local_order
        &&& post.evs[i].exch_order == pre.evs[i].exch_order
        &&& post.evs[i].exch_data == mid.evs[i].exch_data
    } by {
        assert(mid.evs[i].local_order == pre.evs[i].local_order);
    }
    assert forall|i: int| #![trigger post.exch[i]] 0 <= i < pre.exch.len() implies post.exch[i]
        == pre.exch[i] && post.evs[i].exch_data == pre.evs[i].exch_data by {
        assert(mid.exch[i] == pre.exch[i]);
    }
}

/// One more exchange side has prepared its feed.
pub proof fn lemma_exch_prepared<L: Processor, E: Processor>(
    pre: BacktestState<L, E>,
    mid: BacktestState<L, E>,
    k: int,
    post: BacktestState<L, E>,
)
    requires
        pre.wf(),
        prepared(pre, pre.local.len() as int, k, mid),
        0 <= k < pre.exch.len(),
        feed_prepared(mid.exch[k], post.exch[k], post.evs[k].exch_data),
        post == (BacktestState {
            evs: mid.evs.update(
                k,
                AssetEvents { exch_data: post.evs[k].exch_data, ..mid.evs[k] },
            ),
            exch: mid.exch.update(k, post.exch[k]),
            ..mid
        }),
    ensures
        prepared(pre, pre.local.len() as int, k + 1, post),
{
    assert(mid.exch[k] == pre.exch[k]);
    assert forall|i: int| #![trigger post.exch[i]] 0 <= i < pre.exch.len() && i != k implies {
        post.exch[i] == mid.exch[i] && post.evs[i] == mid.evs[i]
    } by {}
    assert forall|i: int| #![trigger post.evs[i]] 0 <= i < pre.evs.len() implies {
        &&& post.evs[i].local_order == pre.evs[i].local_order
        &&& post.evs[i].exch_order == pre.evs[i].exch_order
        &&& post.evs[i].local_data == mid.evs[i].local_data
    } by {
        assert(mid.evs[i].local_order == pre.evs[i].local_order);
    }
    assert forall|i: int| #![trigger post.local[i]] 0 <= i < pre.local.len() implies feed_prepared(
        pre.local[i],
        post.local[i],
        post.evs[i].local_data,
    ) by {
        assert(feed_prepared(pre.local[i], mid.local[i], mid.evs[i].local_data));
    }
}

/// The local side `k` fails to prepare its feed with `e`. Those before it were prepared.
pub open spec fn local_unprepared<L: Processor, E: Processor>(
    pre: BacktestState<L, E>,
    k: int,
    post: BacktestState<L, E>,
    e: BacktestError,
) -> bool {
    &&& 0 <= k < pre.local.len()
    &&& post.local.len() == pre.local.len()
    &&& post.exch.len() == pre.exch.len()
    &&& evs::due(Err(e)) is Err
    &&& run::data_initialized(pre.local[k], post.local[k], Err(e))
    &&& prepared(
        pre,
        k,
        0,
        BacktestState { local: post.local.update(k, pre.local[k]), ..post },
    )
}

/// The exchange side `k` fails to prepare its feed with `e`. Those before it were prepared, and so
/// were all local sides.
pub open spec fn exch_unprepared<L: Processor, E: Processor>(
    pre: BacktestState<L, E>,
    k: int,
    post: BacktestState<L, E>,
    e: BacktestError,
) -> bool {
    &&& 0 <= k < pre.exch.len()
    &&& post.local.len() == pre.local.len()
    &&& post.exch.len() == pre.exch.len()
    &&& evs::due(Err(e)) is Err
    &&& run::data_initialized(pre.exch[k], post.exch[k], Err(e))
    &&& prepared(
        pre,
        pre.local.len() as int,
        k,
        BacktestState { exch: post.exch.update(k, pre.exch[k]), ..post },
    )
}

/// Every feed is prepared, local sides first, up to the first that fails.
pub open spec fn initializes<L: Processor, E: Processor>(
    pre: BacktestState<L, E>,
    post: BacktestState<L, E>,
    r: Result<(), BacktestError>,
) -> bool {
    match r {
        Ok(()) => prepared(pre, pre.local.len() as int, pre.exch.len() as int, post),
        Err(e) => {
            ||| exists|k: int| local_unprepared(pre, k, post, e)
            ||| exists|k: int| exch_unprepared(pre, k, post, e)
        },
    }
}

/// A backtester that was not started prepares every feed and sets its clock to the first event. It
/// returns false if there is none. One that was started is left as it is.
pub open spec fn starts<L: Processor, E: Processor>(
    pre: BacktestState<L, E>,
    post: BacktestState<L, E>,
    r: Result<bool, BacktestError>,
) -> bool {
    if pre.cur_ts != i64::MAX {
        r == Ok::<bool, BacktestError>(true) && post == pre
    } else {
        match r {
            Ok(true) => exists|mid: BacktestState<L, E>, ev: EventIntent|
                #![trigger initializes(pre, mid, Ok(())), evs::is_next_event(mid.evs, ev)]
                {
                    &&& initializes(pre, mid, Ok(()))
                    &&& evs::is_next_event(mid.evs, ev)
                    &&& post == (BacktestState { cur_ts: ev.timestamp, ..mid })
                },
            Ok(false) => initializes(pre, post, Ok(())) && evs::no_event(post.evs),
            Err(e) => initializes(pre, post, Err(e)),
        }
    }
}

/// The backtester starts if it has to, and then runs for `span`. The target is the sum of the clock
/// and `span`, in wrapping arithmetic.
pub open spec fn runs_for<L: Processor, E: Processor>(
    pre: BacktestState<L, E>,
    span: i64,
    waiting: Waiting,
    post: BacktestState<L, E>,
    r: Result<bool, BacktestError>,
) -> bool {
    ||| r != Ok::<bool, BacktestError>(true) && starts(pre, post, r)
    ||| exists|mid: BacktestState<L, E>| #[trigger]
        starts(pre, mid, Ok(true)) && run::goes_to(
            mid,
            mid.cur_ts.wrapping_add(span),
            waiting,
            post,
            r,
        )
}

} // verus!
