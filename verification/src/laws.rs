//! What holds of every run of a backtester, whatever the processors do.

use vstd::prelude::*;

use crate::depth::MarketDepth;
use crate::evs;
use crate::evs::{AssetEvents, EventIntent, EventIntentKind};
use crate::proc::{Account, LocalCall, LocalProcessor, Processor, ProcessorCall};
use crate::requests;
use crate::run;
use crate::run::{BacktestState, Moment, Waiting};
use crate::types::{BacktestError, UNTIL_END_OF_DATA, WAIT_ORDER_RESPONSE_NONE};

verus! {

/// The calls that were made between two states of a processor: those before are kept.
pub open spec fn calls_kept<P: Processor>(pre: P, post: P) -> bool {
    &&& pre.calls().len() <= post.calls().len()
    &&& forall|k: int|
        #![trigger post.calls()[k]]
        0 <= k < pre.calls().len() ==> post.calls()[k] == pre.calls()[k]
}

/// The call is one that a run up to `timestamp` makes to a processor which is to look out for the
/// response to the order `id`.
pub open spec fn call_of_run(call: ProcessorCall, timestamp: i64, id: i64) -> bool {
    match call {
        ProcessorCall::InitializeData { .. } => false,
        ProcessorCall::ProcessData { .. } => true,
        ProcessorCall::ProcessRecvOrder { timestamp: ts, wait_resp_order_id, .. } => ts <= timestamp
            && wait_resp_order_id == id,
    }
}

/// The calls that were made since `pre` are those of a run.
pub open spec fn told<P: Processor>(pre: P, post: P, timestamp: i64, id: i64) -> bool {
    &&& calls_kept(pre, post)
    &&& forall|k: int|
        #![trigger post.calls()[k]]
        pre.calls().len() <= k < post.calls().len() ==> call_of_run(post.calls()[k], timestamp, id)
}

/// What a run up to `timestamp` told the processors.
pub open spec fn all_told<L: Processor, E: Processor>(
    pre: BacktestState<L, E>,
    post: BacktestState<L, E>,
    timestamp: i64,
    waiting: Waiting,
) -> bool {
    &&& post.local.len() == pre.local.len()
    &&& post.exch.len() == pre.exch.len()
    &&& forall|i: int|
        #![trigger post.local[i]]
        0 <= i < pre.local.len() ==> told(
            pre.local[i],
            post.local[i],
            timestamp,
            run::response_id(waiting, i),
        )
    &&& forall|i: int|
        #![trigger post.exch[i]]
        0 <= i < pre.exch.len() ==> told(
            pre.exch[i],
            post.exch[i],
            timestamp,
            WAIT_ORDER_RESPONSE_NONE,
        )
}

/// The call brought what the run waits for: market data, if it waits for the next feed, or a
/// response that the processor says is waited for, or any response if those are included.
pub open spec fn is_awaited(call: ProcessorCall, waiting: Waiting) -> bool {
    match call {
        ProcessorCall::InitializeData { .. } => false,
        ProcessorCall::ProcessData { result } => waiting.next_feed && evs::due(
            run::next_feed(result),
        ) is Ok,
        ProcessorCall::ProcessRecvOrder { result, .. } => match result {
            Ok(done) => done || (waiting.next_feed && waiting.include_order_resp),
            Err(_) => false,
        },
    }
}

/// Since `pre` the processor received what the run waits for.
pub open spec fn received<P: Processor>(pre: P, post: P, waiting: Waiting) -> bool {
    exists|k: int|
        #![trigger post.calls()[k]]
        pre.calls().len() <= k < post.calls().len() && is_awaited(post.calls()[k], waiting)
}

/// Since `pre` some local side received what the run waits for.
pub open spec fn some_received<L: Processor, E: Processor>(
    pre: BacktestState<L, E>,
    post: BacktestState<L, E>,
    waiting: Waiting,
) -> bool {
    exists|i: int|
        #![trigger post.local[i]]
        0 <= i < pre.local.len() && received(pre.local[i], post.local[i], waiting)
}

/// If the call handed over a response that the run waits for, `clock` is not later than that.
pub open spec fn not_before(call: ProcessorCall, waiting: Waiting, clock: i64) -> bool {
    match call {
        ProcessorCall::ProcessRecvOrder { timestamp, .. } => is_awaited(call, waiting) ==> clock
            <= timestamp,
        _ => true,
    }
}

/// No response that was waited for was received by a local side between `pre` and `post` before
/// `clock`.
pub open spec fn none_before<L: Processor, E: Processor>(
    pre: BacktestState<L, E>,
    post: BacktestState<L, E>,
    waiting: Waiting,
    clock: i64,
) -> bool {
    forall|i: int, k: int|
        #![trigger post.local[i].calls()[k]]
        0 <= i < pre.local.len() && pre.local[i].calls().len() <= k < post.local[i].calls().len()
            ==> not_before(post.local[i].calls()[k], waiting, clock)
}

/// One event: the clock stays, the target does not rise, and the processors are told what a run
/// tells them. The target falls only to the time of what is waited for.
pub(crate) proof fn lemma_advance<L: Processor, E: Processor>(
    pre: Moment<L, E>,
    post: Moment<L, E>,
    waiting: Waiting,
    timestamp: i64,
)
    requires
        run::advances(pre, post, waiting),
        pre.state.wf(),
        pre.target <= timestamp,
    ensures
        post.state.wf(),
        post.state.cur_ts == pre.state.cur_ts,
        post.target <= pre.target,
        all_told(pre.state, post.state, timestamp, waiting),
        post.target != pre.target ==> some_received(pre.state, post.state, waiting),
        none_before(pre.state, post.state, waiting, post.target),
{
    let ev = choose|ev: EventIntent| #[trigger]
        run::is_due(pre, ev) && run::handles(pre, ev, post, waiting);
    let a = ev.asset_no as int;
    let before = pre.state.local[a];
    let after = post.state.local[a];
    if ev.kind == EventIntentKind::LocalOrder {
        let (done, next_ts) = choose|done: bool, next_ts: i64|
            run::handles_local_order(pre, ev, post, waiting, done, next_ts);
        assert(run::handles_local_order(pre, ev, post, waiting, done, next_ts));
        assert(after.calls()[before.calls().len() as int] == after.calls().last());
        assert(post.target != pre.target ==> received(before, after, waiting));
    } else if ev.kind == EventIntentKind::LocalData {
        let r = choose|r: Result<(i64, i64), BacktestError>|
            run::handles_local_data(pre, ev, post, waiting, r);
        assert(run::handles_local_data(pre, ev, post, waiting, r));
        assert(after.calls()[before.calls().len() as int] == after.calls().last());
        assert(post.target != pre.target ==> received(before, after, waiting));
    }
}

/// What was told in two stretches of a run.
proof fn lemma_all_told_chain<L: Processor, E: Processor>(
    pre: BacktestState<L, E>,
    mid: BacktestState<L, E>,
    post: BacktestState<L, E>,
    timestamp: i64,
    waiting: Waiting,
)
    requires
        all_told(pre, mid, timestamp, waiting),
        all_told(mid, post, timestamp, waiting),
    ensures
        all_told(pre, post, timestamp, waiting),
        some_received(pre, mid, waiting) ==> some_received(pre, post, waiting),
        some_received(mid, post, waiting) ==> some_received(pre, post, waiting),
{
    assert forall|i: int| #![trigger post.local[i]] 0 <= i < pre.local.len() implies told(
        pre.local[i],
        post.local[i],
        timestamp,
        run::response_id(waiting, i),
    ) by {
        assert(told(pre.local[i], mid.local[i], timestamp, run::response_id(waiting, i)));
        assert(told(mid.local[i], post.local[i], timestamp, run::response_id(waiting, i)));
        lemma_told_chain(
            pre.local[i],
            mid.local[i],
            post.local[i],
            timestamp,
            run::response_id(waiting, i),
        );
    }
    assert forall|i: int| #![trigger post.exch[i]] 0 <= i < pre.exch.len() implies told(
        pre.exch[i],
        post.exch[i],
        timestamp,
        WAIT_ORDER_RESPONSE_NONE,
    ) by {
        assert(told(pre.exch[i], mid.exch[i], timestamp, WAIT_ORDER_RESPONSE_NONE));
        assert(told(mid.exch[i], post.exch[i], timestamp, WAIT_ORDER_RESPONSE_NONE));
        lemma_told_chain(
            pre.exch[i],
            mid.exch[i],
            post.exch[i],
            timestamp,
            WAIT_ORDER_RESPONSE_NONE,
        );
    }
    if some_received(pre, mid, waiting) {
        let i = choose|i: int|
            #![trigger mid.local[i]]
            0 <= i < pre.local.len() && received(pre.local[i], mid.local[i], waiting);
        assert(told(mid.local[i], post.local[i], timestamp, run::response_id(waiting, i)));
        let k = choose|k: int|
            #![trigger mid.local[i].calls()[k]]
            pre.local[i].calls().len() <= k < mid.local[i].calls().len() && is_awaited(
                mid.local[i].calls()[k],
                waiting,
            );
        assert(post.local[i].calls()[k] == mid.local[i].calls()[k]);
    }
    if some_received(mid, post, waiting) {
        let i = choose|i: int|
            #![trigger post.local[i]]
            0 <= i < mid.local.len() && received(mid.local[i], post.local[i], waiting);
        assert(told(pre.local[i], mid.local[i], timestamp, run::response_id(waiting, i)));
    }
}

/// What one processor was told in two stretches of a run.
proof fn lemma_told_chain<P: Processor>(pre: P, mid: P, post: P, timestamp: i64, id: i64)
    requires
        told(pre, mid, timestamp, id),
        told(mid, post, timestamp, id),
    ensures
        told(pre, post, timestamp, id),
{
    assert forall|k: int| #![trigger post.calls()[k]] 0 <= k < mid.calls().len() implies {
        post.calls()[k] == mid.calls()[k]
    } by {}
}

/// When the responses of two stretches of a run were received.
proof fn lemma_none_before_chain<L: Processor, E: Processor>(
    pre: BacktestState<L, E>,
    mid: BacktestState<L, E>,
    post: BacktestState<L, E>,
    timestamp: i64,
    waiting: Waiting,
    earlier: i64,
    later: i64,
)
    requires
        all_told(pre, mid, timestamp, waiting),
        all_told(mid, post, timestamp, waiting),
        none_before(pre, mid, waiting, later),
        none_before(mid, post, waiting, earlier),
        earlier <= later,
    ensures
        none_before(pre, post, waiting, earlier),
{
    assert forall|i: int, k: int|
        #![trigger post.local[i].calls()[k]]
        0 <= i < pre.local.len() && pre.local[i].calls().len() <= k
            < post.local[i].calls().len() implies not_before(
        post.local[i].calls()[k],
        waiting,
        earlier,
    ) by {
        assert(told(mid.local[i], post.local[i], timestamp, run::response_id(waiting, i)));
        if k < mid.local[i].calls().len() {
            assert(not_before(mid.local[i].calls()[k], waiting, later));
        }
    }
}

/// A run up to its `n`-th moment.
pub(crate) proof fn lemma_run<L: Processor, E: Processor>(
    trace: Seq<Moment<L, E>>,
    n: int,
    waiting: Waiting,
)
    requires
        run::is_run(trace, waiting),
        trace[0].state.wf(),
        0 <= n < trace.len(),
    ensures
        trace[n].state.wf(),
        trace[n].state.cur_ts == trace[0].state.cur_ts,
        trace[n].target <= trace[0].target,
        all_told(trace[0].state, trace[n].state, trace[0].target, waiting),
        trace[n].target != trace[0].target ==> some_received(
            trace[0].state,
            trace[n].state,
            waiting,
        ),
        none_before(trace[0].state, trace[n].state, waiting, trace[n].target),
    decreases n,
{
    if n > 0 {
        lemma_run(trace, n - 1, waiting);
        assert(run::advances_at(trace, n - 1, waiting));
        lemma_advance(trace[n - 1], trace[n], waiting, trace[0].target);
        lemma_all_told_chain(
            trace[0].state,
            trace[n - 1].state,
            trace[n].state,
            trace[0].target,
            waiting,
        );
        lemma_none_before_chain(
            trace[0].state,
            trace[n - 1].state,
            trace[n].state,
            trace[0].target,
            waiting,
            trace[n].target,
            trace[n - 1].target,
        );
    }
}

/// The last event of a run that fails.
pub(crate) proof fn lemma_failure<L: Processor, E: Processor>(
    last: Moment<L, E>,
    ev: EventIntent,
    post: BacktestState<L, E>,
    waiting: Waiting,
    e: BacktestError,
    timestamp: i64,
)
    requires
        last.state.wf(),
        last.target <= timestamp,
        run::is_due(last, ev),
        run::fails(last, ev, post, waiting, e),
    ensures
        post.cur_ts == last.state.cur_ts,
        all_told(last.state, post, timestamp, waiting),
{
}

/// A run that returns true has set the clock to `timestamp` or to an earlier time; it never goes
/// beyond. A run that returns false or fails leaves the clock as it is.
pub proof fn clock_does_not_pass_the_target<L: Processor, E: Processor>(
    pre: BacktestState<L, E>,
    timestamp: i64,
    waiting: Waiting,
    post: BacktestState<L, E>,
    r: Result<bool, BacktestError>,
)
    requires
        pre.wf(),
        run::goes_to(pre, timestamp, waiting, post, r),
    ensures
        r == Ok::<bool, BacktestError>(true) ==> post.cur_ts <= timestamp,
        r != Ok::<bool, BacktestError>(true) ==> post.cur_ts == pre.cur_ts,
{
    let trace = choose|trace: Seq<Moment<L, E>>|
        run::runs_through(trace, pre, timestamp, waiting, post, r);
    lemma_run(trace, trace.len() - 1, waiting);
}

/// A run stops short of `timestamp` only for what it waits for: unless a local side received that,
/// the clock is set to `timestamp` exactly.
pub proof fn clock_reaches_the_target<L: Processor, E: Processor>(
    pre: BacktestState<L, E>,
    timestamp: i64,
    waiting: Waiting,
    post: BacktestState<L, E>,
)
    requires
        pre.wf(),
        run::goes_to(pre, timestamp, waiting, post, Ok(true)),
        !some_received(pre, post, waiting),
    ensures
        post.cur_ts == timestamp,
{
    let trace = choose|trace: Seq<Moment<L, E>>|
        run::runs_through(trace, pre, timestamp, waiting, post, Ok(true));
    let n = trace.len() - 1;
    lemma_run(trace, n, waiting);
    if trace[n].target != timestamp {
        let i = choose|i: int|
            #![trigger trace[n].state.local[i]]
            0 <= i < pre.local.len() && received(pre.local[i], trace[n].state.local[i], waiting);
        assert(post.local[i] == trace[n].state.local[i]);
    }
}

/// A run that returns true never goes beyond a response that it waits for: the clock is not later
/// than the time at which a local side received one.
pub proof fn clock_stops_at_the_response<L: Processor, E: Processor>(
    pre: BacktestState<L, E>,
    timestamp: i64,
    waiting: Waiting,
    post: BacktestState<L, E>,
)
    requires
        pre.wf(),
        run::goes_to(pre, timestamp, waiting, post, Ok(true)),
    ensures
        none_before(pre, post, waiting, post.cur_ts),
{
    let trace = choose|trace: Seq<Moment<L, E>>|
        run::runs_through(trace, pre, timestamp, waiting, post, Ok(true));
    lemma_run(trace, trace.len() - 1, waiting);
    assert(trace[0].state.local == pre.local && trace.last().state.local == post.local);
}

/// A run to the end of the data returns true only if a local side received what it waits for.
pub proof fn the_end_of_data_is_not_a_success<L: Processor, E: Processor>(
    pre: BacktestState<L, E>,
    waiting: Waiting,
    post: BacktestState<L, E>,
)
    requires
        pre.wf(),
        run::goes_to(pre, UNTIL_END_OF_DATA, waiting, post, Ok(true)),
    ensures
        some_received(pre, post, waiting),
{
    if !some_received(pre, post, waiting) {
        clock_reaches_the_target(pre, UNTIL_END_OF_DATA, waiting, post);
    }
}

/// Nothing that is due is left behind: after a run that returns true every pending event is later
/// than the clock, and after one that returns false no event is pending.
pub proof fn nothing_due_is_left<L: Processor, E: Processor>(
    pre: BacktestState<L, E>,
    timestamp: i64,
    waiting: Waiting,
    post: BacktestState<L, E>,
    r: Result<bool, BacktestError>,
)
    requires
        run::goes_to(pre, timestamp, waiting, post, r),
    ensures
        r == Ok::<bool, BacktestError>(true) ==> forall|a: int, k: EventIntentKind|
            #![trigger post.evs[a].at(k)]
            0 <= a < post.evs.len() ==> post.evs[a].at(k) > post.cur_ts,
        r == Ok::<bool, BacktestError>(false) ==> evs::no_event(post.evs),
{
}

/// A run forgets no call, prepares no feed, hands the processors no order or response that is due
/// after `timestamp`, asks the exchange sides to look out for no response, and the local sides only
/// for the one that is waited for.
pub proof fn processors_are_told_what_is_due<L: Processor, E: Processor>(
    pre: BacktestState<L, E>,
    timestamp: i64,
    waiting: Waiting,
    post: BacktestState<L, E>,
    r: Result<bool, BacktestError>,
)
    requires
        pre.wf(),
        run::goes_to(pre, timestamp, waiting, post, r),
    ensures
        all_told(pre, post, timestamp, waiting),
{
    let trace = choose|trace: Seq<Moment<L, E>>|
        run::runs_through(trace, pre, timestamp, waiting, post, r);
    let last = trace.last();
    lemma_run(trace, trace.len() - 1, waiting);
    if let Err(e) = r {
        let ev = choose|ev: EventIntent| #[trigger]
            run::is_due(last, ev) && run::fails(last, ev, post, waiting, e);
        lemma_failure(last, ev, post, waiting, e, timestamp);
        lemma_all_told_chain(trace[0].state, last.state, post, timestamp, waiting);
    }
    let first = trace[0].state;
    assert(first.local == pre.local && first.exch == pre.exch);
    assert(all_told(first, post, timestamp, waiting));
}

/// Two ways of waiting make no difference to a run.
pub open spec fn wait_alike(a: Waiting, b: Waiting) -> bool {
    &&& a.next_feed == b.next_feed
    &&& a.next_feed ==> a.include_order_resp == b.include_order_resp
    &&& !a.next_feed ==> a.order_response == b.order_response
}

/// `include_order_resp` counts only in a run that waits for the next feed, and the order response
/// only in one that does not: two calls that differ in nothing else do the same.
pub proof fn waiting_for_one_thing_ignores_the_other<L: Processor, E: Processor>(
    pre: BacktestState<L, E>,
    timestamp: i64,
    a: Waiting,
    b: Waiting,
    post: BacktestState<L, E>,
    r: Result<bool, BacktestError>,
)
    requires
        wait_alike(a, b),
        run::goes_to(pre, timestamp, a, post, r),
    ensures
        run::goes_to(pre, timestamp, b, post, r),
{
    let trace = choose|trace: Seq<Moment<L, E>>|
        run::runs_through(trace, pre, timestamp, a, post, r);
    assert forall|n: int| 0 <= n < trace.len() - 1 implies #[trigger] run::advances_at(
        trace,
        n,
        b,
    ) by {
        assert(run::advances_at(trace, n, a));
        let ev = choose|ev: EventIntent| #[trigger]
            run::is_due(trace[n], ev) && run::handles(trace[n], ev, trace[n + 1], a);
        lemma_handles_alike(trace[n], ev, trace[n + 1], a, b);
    }
    if let Err(e) = r {
        let ev = choose|ev: EventIntent| #[trigger]
            run::is_due(trace.last(), ev) && run::fails(trace.last(), ev, post, a, e);
        assert(run::fails(trace.last(), ev, post, b, e));
    }
    assert(run::runs_through(trace, pre, timestamp, b, post, r));
}

/// An event is handled alike.
proof fn lemma_handles_alike<L: Processor, E: Processor>(
    pre: Moment<L, E>,
    ev: EventIntent,
    post: Moment<L, E>,
    a: Waiting,
    b: Waiting,
)
    requires
        wait_alike(a, b),
        run::handles(pre, ev, post, a),
    ensures
        run::handles(pre, ev, post, b),
{
    match ev.kind {
        EventIntentKind::LocalData => {
            let r = choose|r: Result<(i64, i64), BacktestError>|
                run::handles_local_data(pre, ev, post, a, r);
            assert(run::handles_local_data(pre, ev, post, b, r));
        },
        EventIntentKind::LocalOrder => {
            let (done, next_ts) = choose|done: bool, next_ts: i64|
                run::handles_local_order(pre, ev, post, a, done, next_ts);
            assert(run::handles_local_order(pre, ev, post, b, done, next_ts));
        },
        _ => {},
    }
}

/// What is waited for ends the run at its time: once a local side received it with the event `ev`,
/// nothing later than `ev` is processed.
pub proof fn the_awaited_ends_the_run<L: Processor, E: Processor>(
    trace: Seq<Moment<L, E>>,
    waiting: Waiting,
    n: int,
    ev: EventIntent,
    m: int,
)
    requires
        run::is_run(trace, waiting),
        trace[0].state.wf(),
        0 <= n < m < trace.len(),
        run::is_due(trace[n], ev),
        some_received(trace[n].state, trace[n + 1].state, waiting),
    ensures
        trace[m].target <= ev.timestamp,
    decreases m - n,
{
    lemma_run(trace, m - 1, waiting);
    assert(run::advances_at(trace, m - 1, waiting));
    if m == n + 1 {
        let due = choose|due: EventIntent| #[trigger]
            run::is_due(trace[n], due) && run::handles(trace[n], due, trace[m], waiting);
        evs::next_event_is_unique(trace[n].state.evs, Some(ev), Some(due));
    } else {
        the_awaited_ends_the_run(trace, waiting, n, ev, m - 1);
        lemma_advance(trace[m - 1], trace[m], waiting, trace[m - 1].target);
    }
}

/// The events that are due come in the order of their times.
pub open spec fn in_time_order<L: Processor, E: Processor>(trace: Seq<Moment<L, E>>) -> bool {
    forall|n: int, m: int, ev: EventIntent, later: EventIntent|
        #![trigger run::is_due(trace[n], ev), run::is_due(trace[m], later)]
        0 <= n < m < trace.len() && run::is_due(trace[n], ev) && run::is_due(trace[m], later)
            ==> ev.timestamp <= later.timestamp
}

/// No pending event of `evs` is earlier than `timestamp`.
pub open spec fn none_pending_before(evs: Seq<AssetEvents>, timestamp: i64) -> bool {
    forall|a: int, k: EventIntentKind|
        #![trigger evs[a].at(k)]
        0 <= a < evs.len() ==> timestamp <= evs[a].at(k)
}

/// With the event after the first `n`, no processor reports anything that is earlier than the
/// event: every time that changes in what is pending is changed to one that is not earlier.
pub open spec fn reports_nothing_earlier<L: Processor, E: Processor>(
    trace: Seq<Moment<L, E>>,
    n: int,
) -> bool {
    let (pre, post) = (trace[n].state.evs, trace[n + 1].state.evs);
    forall|ev: EventIntent, a: int, k: EventIntentKind|
        #![trigger run::is_due(trace[n], ev), post[a].at(k)]
        run::is_due(trace[n], ev) && 0 <= a < post.len() && post[a].at(k) != pre[a].at(k)
            ==> ev.timestamp <= post[a].at(k)
}

/// No processor ever reports anything in the run that is earlier than what was just processed.
pub open spec fn nothing_earlier_is_reported<L: Processor, E: Processor>(
    trace: Seq<Moment<L, E>>,
) -> bool {
    forall|n: int| 0 <= n < trace.len() - 1 ==> #[trigger] reports_nothing_earlier(trace, n)
}

/// After an event nothing earlier is pending.
proof fn lemma_nothing_earlier<L: Processor, E: Processor>(
    trace: Seq<Moment<L, E>>,
    waiting: Waiting,
    n: int,
    ev: EventIntent,
    m: int,
)
    requires
        run::is_run(trace, waiting),
        trace[0].state.wf(),
        nothing_earlier_is_reported(trace),
        0 <= n <= m < trace.len(),
        run::is_due(trace[n], ev),
    ensures
        none_pending_before(trace[m].state.evs, ev.timestamp),
    decreases m - n,
{
    if n < m {
        lemma_nothing_earlier(trace, waiting, n, ev, m - 1);
        lemma_run(trace, m - 1, waiting);
        lemma_run(trace, m, waiting);
        assert(reports_nothing_earlier(trace, m - 1));
        assert(run::advances_at(trace, m - 1, waiting));
        let due = choose|due: EventIntent| #[trigger]
            run::is_due(trace[m - 1], due) && run::handles(trace[m - 1], due, trace[m], waiting);
        let (pre, post) = (trace[m - 1].state.evs, trace[m].state.evs);
        assert(pre[due.asset_no as int].at(due.kind) == due.timestamp);
        assert forall|a: int, k: EventIntentKind|
            #![trigger post[a].at(k)]
            0 <= a < post.len() implies ev.timestamp <= post[a].at(k) by {
            assert(ev.timestamp <= pre[a].at(k));
        }
    }
}

/// The backtester serves events in the order of their times: if no processor reports anything that
/// is earlier than what was just processed, every event is at the time of the one before or later.
pub proof fn events_come_in_time_order<L: Processor, E: Processor>(
    trace: Seq<Moment<L, E>>,
    waiting: Waiting,
)
    requires
        run::is_run(trace, waiting),
        trace[0].state.wf(),
        nothing_earlier_is_reported(trace),
    ensures
        in_time_order(trace),
{
    assert forall|n: int, m: int, ev: EventIntent, later: EventIntent|
        #![trigger run::is_due(trace[n], ev), run::is_due(trace[m], later)]
        0 <= n < m < trace.len() && run::is_due(trace[n], ev) && run::is_due(
            trace[m],
            later,
        ) implies ev.timestamp <= later.timestamp by {
        lemma_nothing_earlier(trace, waiting, n, ev, m);
        assert(trace[m].state.evs[later.asset_no as int].at(later.kind) == later.timestamp);
    }
}

/// What is waited for sets the clock to its own time exactly, if no processor reports anything that
/// is earlier than what was just processed: where a local side received it with the event `ev`, and
/// the run returns true, the clock is then at the time of `ev`.
pub proof fn the_clock_is_set_to_what_was_awaited<L: Processor, E: Processor>(
    trace: Seq<Moment<L, E>>,
    pre: BacktestState<L, E>,
    timestamp: i64,
    waiting: Waiting,
    post: BacktestState<L, E>,
    n: int,
    ev: EventIntent,
)
    requires
        pre.wf(),
        run::runs_through(trace, pre, timestamp, waiting, post, Ok(true)),
        nothing_earlier_is_reported(trace),
        0 <= n < trace.len() - 1,
        run::is_due(trace[n], ev),
        some_received(trace[n].state, trace[n + 1].state, waiting),
    ensures
        post.cur_ts == ev.timestamp,
{
    events_come_in_time_order(trace, waiting);
    lemma_target_stays(trace, waiting, n, ev, trace.len() - 1);
}

/// What is waited for sets the target to its own time, where it stays.
proof fn lemma_target_stays<L: Processor, E: Processor>(
    trace: Seq<Moment<L, E>>,
    waiting: Waiting,
    n: int,
    ev: EventIntent,
    m: int,
)
    requires
        run::is_run(trace, waiting),
        trace[0].state.wf(),
        in_time_order(trace),
        0 <= n < m < trace.len(),
        run::is_due(trace[n], ev),
        some_received(trace[n].state, trace[n + 1].state, waiting),
    ensures
        trace[m].target == ev.timestamp,
    decreases m - n,
{
    the_awaited_ends_the_run(trace, waiting, n, ev, m);
    assert(run::advances_at(trace, m - 1, waiting));
    let due = choose|due: EventIntent| #[trigger]
        run::is_due(trace[m - 1], due) && run::handles(trace[m - 1], due, trace[m], waiting);
    if m == n + 1 {
        evs::next_event_is_unique(trace[n].state.evs, Some(ev), Some(due));
    } else {
        lemma_target_stays(trace, waiting, n, ev, m - 1);
        assert(ev.timestamp <= due.timestamp);
    }
}

/// A backtester that starts has its clock at the earliest pending event.
pub proof fn start_sets_the_clock_to_the_first_event<L: Processor, E: Processor>(
    pre: BacktestState<L, E>,
    post: BacktestState<L, E>,
)
    requires
        pre.cur_ts == i64::MAX,
        requests::starts(pre, post, Ok(true)),
    ensures
        post.cur_ts < i64::MAX,
        forall|a: int, k: EventIntentKind|
            #![trigger post.evs[a].at(k)]
            0 <= a < post.evs.len() ==> post.cur_ts <= post.evs[a].at(k),
        exists|a: int, k: EventIntentKind|
            #![trigger post.evs[a].at(k)]
            0 <= a < post.evs.len() && post.cur_ts == post.evs[a].at(k),
{
    let (mid, ev) = choose|mid: BacktestState<L, E>, ev: EventIntent|
        #![trigger requests::initializes(pre, mid, Ok(())), evs::is_next_event(mid.evs, ev)]
        {
            &&& requests::initializes(pre, mid, Ok(()))
            &&& evs::is_next_event(mid.evs, ev)
            &&& post == (BacktestState { cur_ts: ev.timestamp, ..mid })
        };
    assert(post.evs[ev.asset_no as int].at(ev.kind) == post.cur_ts);
}

/// A backtester that was started is not started again: it runs for `span` from its clock on.
pub proof fn a_started_backtester_just_runs<L: Processor, E: Processor>(
    pre: BacktestState<L, E>,
    span: i64,
    waiting: Waiting,
    post: BacktestState<L, E>,
    r: Result<bool, BacktestError>,
)
    requires
        pre.cur_ts != i64::MAX,
    ensures
        requests::runs_for(pre, span, waiting, post, r) <==> run::goes_to(
            pre,
            pre.cur_ts.wrapping_add(span),
            waiting,
            post,
            r,
        ),
{
    assert(requests::starts(pre, pre, Ok(true)));
}

/// A request that does not wait leaves the clock, the exchange sides and the other assets as they
/// are. It returns true, or the error with which the local side refused it. A refused request
/// leaves what is pending as it is too.
pub proof fn a_request_without_waiting_is_answered_at_once<
    MD: MarketDepth,
    EventT,
    A: Account,
    L: LocalProcessor<MD, EventT, A>,
    E: Processor,
>(
    pre: BacktestState<L, E>,
    asset_no: usize,
    order_id: i64,
    call: spec_fn(Result<(), BacktestError>) -> LocalCall<MD::Num>,
    noted: bool,
    post: BacktestState<L, E>,
    r: Result<bool, BacktestError>,
)
    requires
        requests::carried_out::<MD, EventT, A, L, E>(
            pre,
            asset_no,
            order_id,
            call,
            false,
            noted,
            post,
            r,
        ),
    ensures
        post.cur_ts == pre.cur_ts,
        post.exch == pre.exch,
        post.local == pre.local.update(asset_no as int, post.local[asset_no as int]),
        r != Ok::<bool, BacktestError>(false),
        r matches Err(e) ==> requests::requested_at::<MD, EventT, A, L, E>(
            pre,
            asset_no,
            call(Err(e)),
            post,
        ),
{
}

} // verus!
