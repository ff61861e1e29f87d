//! What a run of the backtester does: the states it passes through, one pending event after the
//! other, from the calls it makes to the processors and what they return.

use vstd::prelude::*;

use crate::evs::{AssetEvents, EventIntent, EventIntentKind};
use crate::evs::{due, is_next_event, no_event};
use crate::proc::{Processor, ProcessorCall};
use crate::proc::{receives_at, sends_at};
use crate::types::{BacktestError, WAIT_ORDER_RESPONSE_NONE};

verus! {

/// The state of a backtester: its clock, the pending events, and the two sides of each asset.
#[verifier::ext_equal]
#[verifier::reject_recursive_types(L)]
#[verifier::reject_recursive_types(E)]
pub struct BacktestState<L, E> {
    /// The current timestamp; `i64::MAX` before the first event was looked for.
    pub cur_ts: i64,
    pub evs: Seq<AssetEvents>,
    pub local: Seq<L>,
    pub exch: Seq<E>,
}

impl<L, E> BacktestState<L, E> {
    /// Every asset has pending events, a local side and an exchange side.
    pub open spec fn wf(self) -> bool {
        &&& self.evs.len() == self.local.len()
        &&& self.exch.len() == self.local.len()
    }

    /// A backtester that was not started yet.
    pub open spec fn fresh(local: Seq<L>, exch: Seq<E>) -> Self {
        BacktestState {
            cur_ts: i64::MAX,
            evs: Seq::new(local.len(), |i: int| AssetEvents::idle()),
            local,
            exch,
        }
    }
}

/// What a run waits for.
pub struct Waiting {
    /// The run ends with the next market data that the local side receives.
    pub next_feed: bool,
    /// The asset and the id of the order whose response ends the run. This counts only if the run
    /// does not wait for the next feed.
    pub order_response: (usize, i64),
    /// The run ends with the next order response too. This counts only if the run waits for the
    /// next feed.
    pub include_order_resp: bool,
}

impl Waiting {
    /// What a run with these arguments waits for.
    pub open spec fn of(
        next_feed: bool,
        order_response: (usize, i64),
        include_order_resp: bool,
    ) -> Self {
        Waiting { next_feed, order_response, include_order_resp }
    }
}

/// A state of a run, with the timestamp up to which events are processed.
#[verifier::ext_equal]
#[verifier::reject_recursive_types(L)]
#[verifier::reject_recursive_types(E)]
pub struct Moment<L, E> {
    pub state: BacktestState<L, E>,
    pub target: i64,
}

/// `post` comes out of `pre` by a call of `process_data` that returned `r`.
pub open spec fn data_processed<P: Processor>(
    pre: P,
    post: P,
    r: Result<(i64, i64), BacktestError>,
) -> bool {
    post.calls() == pre.calls().push(ProcessorCall::ProcessData { result: r })
}

/// `post` comes out of `pre` by a call of `process_recv_order` that returned `r`.
pub open spec fn order_processed<P: Processor>(
    pre: P,
    post: P,
    timestamp: i64,
    wait_resp_order_id: i64,
    r: Result<bool, BacktestError>,
) -> bool {
    post.calls() == pre.calls().push(
        ProcessorCall::ProcessRecvOrder { timestamp, wait_resp_order_id, result: r },
    )
}

/// `post` comes out of `pre` by a call of `initialize_data` that returned `r`.
pub open spec fn data_initialized<P: Processor>(
    pre: P,
    post: P,
    r: Result<i64, BacktestError>,
) -> bool {
    post.calls() == pre.calls().push(ProcessorCall::InitializeData { result: r })
}

/// What `process_data` returned, as far as it says when the next market data is due.
pub open spec fn next_feed(r: Result<(i64, i64), BacktestError>) -> Result<i64, BacktestError> {
    match r {
        Ok((next_ts, _)) => Ok(next_ts),
        Err(e) => Err(e),
    }
}

/// What `process_data` returned, as far as it says when the next market data is due.
pub fn next_timestamp(feed: Result<(i64, i64), BacktestError>) -> (r: Result<i64, BacktestError>)
    ensures
        r == next_feed(feed),
{
    match feed {
        Ok((next_ts, _)) => Ok(next_ts),
        Err(e) => Err(e),
    }
}

/// The order id that the local side of `asset_no` is asked to look out for.
pub open spec fn response_id(waiting: Waiting, asset_no: int) -> i64 {
    if !waiting.next_feed && asset_no == waiting.order_response.0 {
        waiting.order_response.1
    } else {
        WAIT_ORDER_RESPONSE_NONE
    }
}

/// The target after the local side received an order response: the time of the response, if it is
/// the one that is waited for or any response ends the run.
pub open spec fn target_after_response(
    waiting: Waiting,
    target: i64,
    timestamp: i64,
    done: bool,
) -> i64 {
    if done || (waiting.next_feed && waiting.include_order_resp) {
        timestamp
    } else {
        target
    }
}

/// The local side receives market data.
pub open spec fn handles_local_data<L: Processor, E: Processor>(
    pre: Moment<L, E>,
    ev: EventIntent,
    post: Moment<L, E>,
    waiting: Waiting,
    r: Result<(i64, i64), BacktestError>,
) -> bool {
    let i = ev.asset_no as int;
    let evs = pre.state.evs;
    &&& data_processed(pre.state.local[i], post.state.local[i], r)
    &&& due(next_feed(r)) is Ok
    &&& post.state == (BacktestState {
        evs: evs.update(i, AssetEvents { local_data: due(next_feed(r))->Ok_0, ..evs[i] }),
        local: pre.state.local.update(i, post.state.local[i]),
        ..pre.state
    })
    &&& post.target == if waiting.next_feed {
        ev.timestamp
    } else {
        pre.target
    }
}

/// The local side receives an order response; `done` is what `process_recv_order` returned, and
/// `next_ts` when the next response is received.
pub open spec fn handles_local_order<L: Processor, E: Processor>(
    pre: Moment<L, E>,
    ev: EventIntent,
    post: Moment<L, E>,
    waiting: Waiting,
    done: bool,
    next_ts: i64,
) -> bool {
    let i = ev.asset_no as int;
    let evs = pre.state.evs;
    &&& order_processed(
        pre.state.local[i],
        post.state.local[i],
        ev.timestamp,
        response_id(waiting, i),
        Ok(done),
    )
    &&& receives_at(&post.state.local[i], next_ts)
    &&& post.state == (BacktestState {
        evs: evs.update(i, AssetEvents { local_order: next_ts, ..evs[i] }),
        local: pre.state.local.update(i, post.state.local[i]),
        ..pre.state
    })
    &&& post.target == target_after_response(waiting, pre.target, ev.timestamp, done)
}

/// The exchange side processes market data; `next_ts` is when the local side receives the
/// exchange's next response.
pub open spec fn handles_exch_data<L: Processor, E: Processor>(
    pre: Moment<L, E>,
    ev: EventIntent,
    post: Moment<L, E>,
    r: Result<(i64, i64), BacktestError>,
    next_ts: i64,
) -> bool {
    let i = ev.asset_no as int;
    let evs = pre.state.evs;
    &&& data_processed(pre.state.exch[i], post.state.exch[i], r)
    &&& due(next_feed(r)) is Ok
    &&& sends_at(&post.state.exch[i], next_ts)
    &&& post.state == (BacktestState {
        evs: evs.update(
            i,
            AssetEvents { exch_data: due(next_feed(r))->Ok_0, local_order: next_ts, ..evs[i] },
        ),
        exch: pre.state.exch.update(i, post.state.exch[i]),
        ..pre.state
    })
    &&& post.target == pre.target
}

/// The exchange side receives an order; `next_ts` is when it receives the next one.
pub open spec fn handles_exch_order<L: Processor, E: Processor>(
    pre: Moment<L, E>,
    ev: EventIntent,
    post: Moment<L, E>,
    done: bool,
    next_ts: i64,
) -> bool {
    let i = ev.asset_no as int;
    let evs = pre.state.evs;
    &&& order_processed(
        pre.state.exch[i],
        post.state.exch[i],
        ev.timestamp,
        WAIT_ORDER_RESPONSE_NONE,
        Ok(done),
    )
    &&& receives_at(&post.state.exch[i], next_ts)
    &&& post.state == (BacktestState {
        evs: evs.update(i, AssetEvents { exch_order: next_ts, ..evs[i] }),
        exch: pre.state.exch.update(i, post.state.exch[i]),
        ..pre.state
    })
    &&& post.target == pre.target
}

/// The run handles `ev`, which takes it from `pre` to `post`.
pub open spec fn handles<L: Processor, E: Processor>(
    pre: Moment<L, E>,
    ev: EventIntent,
    post: Moment<L, E>,
    waiting: Waiting,
) -> bool {
    match ev.kind {
        EventIntentKind::LocalData => exists|r: Result<(i64, i64), BacktestError>|
            handles_local_data(pre, ev, post, waiting, r),
        EventIntentKind::LocalOrder => exists|done: bool, next_ts: i64|
            handles_local_order(pre, ev, post, waiting, done, next_ts),
        EventIntentKind::ExchData => exists|r: Result<(i64, i64), BacktestError>, next_ts: i64|
            handles_exch_data(pre, ev, post, r, next_ts),
        EventIntentKind::ExchOrder => exists|done: bool, next_ts: i64|
            handles_exch_order(pre, ev, post, done, next_ts),
    }
}

/// The run fails on `ev` with `e`. The call that failed is all that was done: what is pending and
/// the clock stay as they are.
pub open spec fn fails<L: Processor, E: Processor>(
    pre: Moment<L, E>,
    ev: EventIntent,
    post: BacktestState<L, E>,
    waiting: Waiting,
    e: BacktestError,
) -> bool {
    let i = ev.asset_no as int;
    match ev.kind {
        EventIntentKind::LocalData => {
            &&& due(Err(e)) is Err
            &&& data_processed(pre.state.local[i], post.local[i], Err(e))
            &&& post == (BacktestState {
                local: pre.state.local.update(i, post.local[i]),
                ..pre.state
            })
        },
        EventIntentKind::LocalOrder => {
            &&& order_processed(
                pre.state.local[i],
                post.local[i],
                ev.timestamp,
                response_id(waiting, i),
                Err(e),
            )
            &&& post == (BacktestState {
                local: pre.state.local.update(i, post.local[i]),
                ..pre.state
            })
        },
        EventIntentKind::ExchData => {
            &&& due(Err(e)) is Err
            &&& data_processed(pre.state.exch[i], post.exch[i], Err(e))
            &&& post == (BacktestState {
                exch: pre.state.exch.update(i, post.exch[i]),
                ..pre.state
            })
        },
        EventIntentKind::ExchOrder => {
            &&& order_processed(
                pre.state.exch[i],
                post.exch[i],
                ev.timestamp,
                WAIT_ORDER_RESPONSE_NONE,
                Err(e),
            )
            &&& post == (BacktestState {
                exch: pre.state.exch.update(i, post.exch[i]),
                ..pre.state
            })
        },
    }
}

/// Handling `ev` takes the backtester from `pre` to `post`, and returns the target from then on, or
/// the failure of the processor.
pub open spec fn handling_is<L: Processor, E: Processor>(
    pre: BacktestState<L, E>,
    target: i64,
    ev: EventIntent,
    post: BacktestState<L, E>,
    waiting: Waiting,
    r: Result<i64, BacktestError>,
) -> bool {
    let moment = Moment { state: pre, target };
    match r {
        Ok(target) => handles(moment, ev, Moment { state: post, target }, waiting),
        Err(e) => fails(moment, ev, post, waiting, e),
    }
}

/// `ev` is pending next and is not later than the target.
pub open spec fn is_due<L, E>(m: Moment<L, E>, ev: EventIntent) -> bool {
    is_next_event(m.state.evs, ev) && ev.timestamp <= m.target
}

/// The run takes the event that is due and handles it.
pub open spec fn advances<L: Processor, E: Processor>(
    pre: Moment<L, E>,
    post: Moment<L, E>,
    waiting: Waiting,
) -> bool {
    exists|ev: EventIntent| #[trigger] is_due(pre, ev) && handles(pre, ev, post, waiting)
}

/// The run goes from its `n`-th moment to the next one.
pub open spec fn advances_at<L: Processor, E: Processor>(
    trace: Seq<Moment<L, E>>,
    n: int,
    waiting: Waiting,
) -> bool {
    advances(trace[n], trace[n + 1], waiting)
}

/// The moments of a run, one event apart.
pub open spec fn is_run<L: Processor, E: Processor>(
    trace: Seq<Moment<L, E>>,
    waiting: Waiting,
) -> bool {
    &&& trace.len() > 0
    &&& forall|n: int| 0 <= n < trace.len() - 1 ==> #[trigger] advances_at(trace, n, waiting)
}

/// `post` is `pre` with the times of pending orders and responses taken anew from the local sides.
pub open spec fn refreshed<L: Processor, E: Processor>(
    pre: BacktestState<L, E>,
    post: BacktestState<L, E>,
) -> bool {
    &&& post == (BacktestState { evs: post.evs, ..pre })
    &&& post.evs.len() == pre.evs.len()
    &&& forall|i: int|
        #![trigger post.evs[i]]
        0 <= i < pre.evs.len() ==> {
            &&& sends_at(&pre.local[i], post.evs[i].exch_order)
            &&& receives_at(&pre.local[i], post.evs[i].local_order)
            &&& post.evs[i].local_data == pre.evs[i].local_data
            &&& post.evs[i].exch_data == pre.evs[i].exch_data
        }
}

/// The run ends at `last` with the result `r`, leaving the backtester in `post`.
/// - It returns true when the next event is later than the target. The clock is then set to the
///   target.
/// - It returns false when no event is pending.
/// - It fails when a processor fails on the event that is due.
pub open spec fn ends<L: Processor, E: Processor>(
    last: Moment<L, E>,
    post: BacktestState<L, E>,
    waiting: Waiting,
    r: Result<bool, BacktestError>,
) -> bool {
    match r {
        Ok(true) => {
            &&& exists|ev: EventIntent|
                #[trigger] is_next_event(last.state.evs, ev) && ev.timestamp > last.target
            &&& post == (BacktestState { cur_ts: last.target, ..last.state })
        },
        Ok(false) => no_event(last.state.evs) && post == last.state,
        Err(e) => exists|ev: EventIntent| #[trigger]
            is_due(last, ev) && fails(last, ev, post, waiting, e),
    }
}

/// A run with these moments takes the backtester from `pre` to `post` and returns `r`.
pub open spec fn runs_through<L: Processor, E: Processor>(
    trace: Seq<Moment<L, E>>,
    pre: BacktestState<L, E>,
    timestamp: i64,
    waiting: Waiting,
    post: BacktestState<L, E>,
    r: Result<bool, BacktestError>,
) -> bool {
    &&& is_run(trace, waiting)
    &&& refreshed(pre, trace[0].state)
    &&& trace[0].target == timestamp
    &&& ends(trace.last(), post, waiting, r)
}

/// A run up to `timestamp` takes the backtester from `pre` to `post` and returns `r`.
pub open spec fn goes_to<L: Processor, E: Processor>(
    pre: BacktestState<L, E>,
    timestamp: i64,
    waiting: Waiting,
    post: BacktestState<L, E>,
    r: Result<bool, BacktestError>,
) -> bool {
    exists|trace: Seq<Moment<L, E>>| runs_through(trace, pre, timestamp, waiting, post, r)
}

/// A run that advances by one more event is a run.
pub proof fn lemma_run_push<L: Processor, E: Processor>(
    trace: Seq<Moment<L, E>>,
    next: Moment<L, E>,
    waiting: Waiting,
)
    requires
        is_run(trace, waiting),
        advances(trace.last(), next, waiting),
    ensures
        is_run(trace.push(next), waiting),
{
    let longer = trace.push(next);
    assert forall|n: int| 0 <= n < longer.len() - 1 implies #[trigger] advances_at(
        longer,
        n,
        waiting,
    ) by {
        if n < trace.len() - 1 {
            assert(advances_at(trace, n, waiting));
        }
    }
}

/// How many more events the processors can handle in all.
pub open spec fn total_supply<P: Processor>(s: Seq<P>) -> nat
    decreases s.len(),
{
    if s.len() == 0 {
        0
    } else {
        total_supply(s.drop_last()) + s.last().supply()
    }
}

/// How many more events can be handled on both sides.
pub open spec fn left_supply<L: Processor, E: Processor>(state: BacktestState<L, E>) -> nat {
    total_supply(state.local) + total_supply(state.exch)
}

/// How many of the asset's two feeds are not at their end.
pub open spec fn open_feeds_of(asset: AssetEvents) -> nat {
    (if asset.local_data < i64::MAX {
        1nat
    } else {
        0
    }) + (if asset.exch_data < i64::MAX {
        1nat
    } else {
        0
    })
}

/// How many feeds are not at their end.
pub open spec fn open_feeds(evs: Seq<AssetEvents>) -> nat
    decreases evs.len(),
{
    if evs.len() == 0 {
        0
    } else {
        open_feeds(evs.drop_last()) + open_feeds_of(evs.last())
    }
}

/// What is left to do: an event uses up some of the supply, or brings a feed to its end.
pub open spec fn work_left<L: Processor, E: Processor>(state: BacktestState<L, E>) -> nat {
    left_supply(state) + open_feeds(state.evs)
}

/// What changes for one asset changes the number of feeds that are not at their end.
pub proof fn lemma_open_feeds_update(evs: Seq<AssetEvents>, i: int, asset: AssetEvents)
    requires
        0 <= i < evs.len(),
    ensures
        open_feeds(evs.update(i, asset)) == open_feeds(evs) - open_feeds_of(evs[i])
            + open_feeds_of(asset),
    decreases evs.len(),
{
    let t = evs.update(i, asset);
    if i == evs.len() - 1 {
        assert(t.drop_last() =~= evs.drop_last());
    } else {
        assert(t.drop_last() =~= evs.drop_last().update(i, asset));
        lemma_open_feeds_update(evs.drop_last(), i, asset);
    }
}

/// A processor that uses up some of its supply lowers the total.
pub proof fn lemma_total_supply_update<P: Processor>(s: Seq<P>, i: int, p: P)
    requires
        0 <= i < s.len(),
    ensures
        total_supply(s.update(i, p)) == total_supply(s) - s[i].supply() + p.supply(),
    decreases s.len(),
{
    let t = s.update(i, p);
    if i == s.len() - 1 {
        assert(t.drop_last() =~= s.drop_last());
    } else {
        assert(t.drop_last() =~= s.drop_last().update(i, p));
        lemma_total_supply_update(s.drop_last(), i, p);
    }
}

} // verus!
