//! What holds of the runs of a backtester when a processor fails, or when a feed is at its end.

use vstd::prelude::*;

use crate::evs;
use crate::evs::{EventIntent, EventIntentKind};
use crate::laws;
use crate::laws::{all_told, calls_kept, told};
use crate::proc::{Processor, ProcessorCall};
use crate::run;
use crate::run::{BacktestState, Moment, Waiting};
use crate::types::{BacktestError, WAIT_ORDER_RESPONSE_NONE};

verus! {

/// The call failed with `e`. That a feed is at its end is no failure.
pub open spec fn failed_with(call: ProcessorCall, e: BacktestError) -> bool {
    match call {
        ProcessorCall::InitializeData { result } => result == Err::<i64, BacktestError>(e)
            && evs::due(result) is Err,
        ProcessorCall::ProcessData { result } => result == Err::<(i64, i64), BacktestError>(e)
            && evs::due(run::next_feed(result)) is Err,
        ProcessorCall::ProcessRecvOrder { result, .. } => result == Err::<bool, BacktestError>(e),
    }
}

/// The call failed.
pub open spec fn failed(call: ProcessorCall) -> bool {
    exists|e: BacktestError| failed_with(call, e)
}

/// No call failed that was made since `pre`, but for the last `n` calls.
pub open spec fn unfailed<P: Processor>(pre: P, post: P, n: int) -> bool {
    forall|k: int|
        #![trigger post.calls()[k]]
        pre.calls().len() <= k < post.calls().len() - n ==> !failed(post.calls()[k])
}

/// The last call that was made since `pre` failed with `e`.
pub open spec fn last_failed<P: Processor>(pre: P, post: P, e: BacktestError) -> bool {
    &&& pre.calls().len() < post.calls().len()
    &&& failed_with(post.calls().last(), e)
}

/// No call failed that was made since `pre`.
pub open spec fn none_failed<L: Processor, E: Processor>(
    pre: BacktestState<L, E>,
    post: BacktestState<L, E>,
) -> bool {
    &&& forall|i: int|
        #![trigger post.local[i]]
        0 <= i < pre.local.len() ==> unfailed(pre.local[i], post.local[i], 0)
    &&& forall|i: int|
        #![trigger post.exch[i]]
        0 <= i < pre.exch.len() ==> unfailed(pre.exch[i], post.exch[i], 0)
}

/// The last call that was made since `pre` to the local side of the asset `a` failed with `e`, and
/// no other call failed.
pub open spec fn local_failed<L: Processor, E: Processor>(
    pre: BacktestState<L, E>,
    post: BacktestState<L, E>,
    a: int,
    e: BacktestError,
) -> bool {
    &&& 0 <= a < pre.local.len()
    &&& last_failed(pre.local[a], post.local[a], e)
    &&& unfailed(pre.local[a], post.local[a], 1)
    &&& none_failed(pre, BacktestState { local: post.local.update(a, pre.local[a]), ..post })
}

/// The last call that was made since `pre` to the exchange side of the asset `a` failed with `e`,
/// and no other call failed.
pub open spec fn exch_failed<L: Processor, E: Processor>(
    pre: BacktestState<L, E>,
    post: BacktestState<L, E>,
    a: int,
    e: BacktestError,
) -> bool {
    &&& 0 <= a < pre.exch.len()
    &&& last_failed(pre.exch[a], post.exch[a], e)
    &&& unfailed(pre.exch[a], post.exch[a], 1)
    &&& none_failed(pre, BacktestState { exch: post.exch.update(a, pre.exch[a]), ..post })
}

/// A call that was made since `pre` failed with `e`. It was the last one to its processor, and no
/// other call failed.
pub open spec fn one_failed<L: Processor, E: Processor>(
    pre: BacktestState<L, E>,
    post: BacktestState<L, E>,
    e: BacktestError,
) -> bool {
    ||| exists|a: int| local_failed(pre, post, a, e)
    ||| exists|a: int| exch_failed(pre, post, a, e)
}

/// No call fails with an event that is handled.
proof fn lemma_advance_unfailed<L: Processor, E: Processor>(
    pre: Moment<L, E>,
    post: Moment<L, E>,
    waiting: Waiting,
)
    requires
        run::advances(pre, post, waiting),
        pre.state.wf(),
    ensures
        none_failed(pre.state, post.state),
{
    let ev = choose|ev: EventIntent| #[trigger]
        run::is_due(pre, ev) && run::handles(pre, ev, post, waiting);
}

/// No call failed in two stretches of a run.
proof fn lemma_unfailed_chain<P: Processor>(pre: P, mid: P, post: P, n: int)
    requires
        calls_kept(pre, mid),
        calls_kept(mid, post),
        unfailed(pre, mid, 0),
        unfailed(mid, post, n),
    ensures
        unfailed(pre, post, n),
{
    assert forall|k: int|
        #![trigger post.calls()[k]]
        pre.calls().len() <= k < post.calls().len() - n implies !failed(post.calls()[k]) by {
        if k < mid.calls().len() {
            assert(!failed(mid.calls()[k]));
        }
    }
}

/// No call failed in two stretches of a run.
proof fn lemma_none_failed_chain<L: Processor, E: Processor>(
    pre: BacktestState<L, E>,
    mid: BacktestState<L, E>,
    post: BacktestState<L, E>,
    timestamp: i64,
    waiting: Waiting,
)
    requires
        all_told(pre, mid, timestamp, waiting),
        all_told(mid, post, timestamp, waiting),
        none_failed(pre, mid),
        none_failed(mid, post),
    ensures
        none_failed(pre, post),
{
    assert forall|i: int| #![trigger post.local[i]] 0 <= i < pre.local.len() implies {
        unfailed(pre.local[i], post.local[i], 0)
    } by {
        assert(told(pre.local[i], mid.local[i], timestamp, run::response_id(waiting, i)));
        lemma_unfailed_chain(pre.local[i], mid.local[i], post.local[i], 0);
    }
    assert forall|i: int| #![trigger post.exch[i]] 0 <= i < pre.exch.len() implies {
        unfailed(pre.exch[i], post.exch[i], 0)
    } by {
        assert(told(pre.exch[i], mid.exch[i], timestamp, WAIT_ORDER_RESPONSE_NONE));
        lemma_unfailed_chain(pre.exch[i], mid.exch[i], post.exch[i], 0);
    }
}

/// No call failed up to the `n`-th moment of a run.
proof fn lemma_run_unfailed<L: Processor, E: Processor>(
    trace: Seq<Moment<L, E>>,
    n: int,
    waiting: Waiting,
)
    requires
        run::is_run(trace, waiting),
        trace[0].state.wf(),
        0 <= n < trace.len(),
    ensures
        none_failed(trace[0].state, trace[n].state),
    decreases n,
{
    if n > 0 {
        lemma_run_unfailed(trace, n - 1, waiting);
        laws::lemma_run(trace, n - 1, waiting);
        assert(run::advances_at(trace, n - 1, waiting));
        laws::lemma_advance(trace[n - 1], trace[n], waiting, trace[0].target);
        lemma_advance_unfailed(trace[n - 1], trace[n], waiting);
        lemma_none_failed_chain(
            trace[0].state,
            trace[n - 1].state,
            trace[n].state,
            trace[0].target,
            waiting,
        );
    }
}

/// If one call failed since `pre`, it is not so that none did.
proof fn lemma_one_is_not_none<L: Processor, E: Processor>(
    pre: BacktestState<L, E>,
    post: BacktestState<L, E>,
    e: BacktestError,
)
    requires
        one_failed(pre, post, e),
    ensures
        !none_failed(pre, post),
{
    if exists|a: int| local_failed(pre, post, a, e) {
        let a = choose|a: int| local_failed(pre, post, a, e);
        let calls = post.local[a].calls();
        assert(failed_with(calls[calls.len() - 1], e));
    } else {
        let a = choose|a: int| exch_failed(pre, post, a, e);
        let calls = post.exch[a].calls();
        assert(failed_with(calls[calls.len() - 1], e));
    }
}

/// A run fails exactly when a processor fails, and with the same error. The call that failed is the
/// last one that its processor got, and no other failed. A run that returns true or false made no
/// call that failed.
pub proof fn a_run_fails_when_a_processor_fails<L: Processor, E: Processor>(
    pre: BacktestState<L, E>,
    timestamp: i64,
    waiting: Waiting,
    post: BacktestState<L, E>,
    r: Result<bool, BacktestError>,
    e: BacktestError,
)
    requires
        pre.wf(),
        run::goes_to(pre, timestamp, waiting, post, r),
    ensures
        r == Err::<bool, BacktestError>(e) <==> one_failed(pre, post, e),
        r is Ok <==> none_failed(pre, post),
{
    let trace = choose|trace: Seq<Moment<L, E>>|
        run::runs_through(trace, pre, timestamp, waiting, post, r);
    let last = trace.last();
    laws::lemma_run(trace, trace.len() - 1, waiting);
    lemma_run_unfailed(trace, trace.len() - 1, waiting);
    let first = trace[0].state;
    assert(first.local == pre.local && first.exch == pre.exch);
    match r {
        Ok(_) => {
            assert(none_failed(pre, post));
            if one_failed(pre, post, e) {
                lemma_one_is_not_none(pre, post, e);
            }
        },
        Err(error) => {
            let ev = choose|ev: EventIntent| #[trigger]
                run::is_due(last, ev) && run::fails(last, ev, post, waiting, error);
            laws::lemma_failure(last, ev, post, waiting, error, timestamp);
            lemma_failure_is_last(pre, last, ev, post, waiting, error, timestamp);
            lemma_one_is_not_none(pre, post, error);
            if one_failed(pre, post, e) {
                lemma_one_error(pre, post, e, error);
            }
        },
    }
}

/// No call failed to processors that are as they were at the end or at the start of a stretch in
/// which none failed.
proof fn lemma_rest_unfailed<L: Processor, E: Processor>(
    pre: BacktestState<L, E>,
    mid: BacktestState<L, E>,
    rest: BacktestState<L, E>,
)
    requires
        none_failed(pre, mid),
        forall|i: int|
            #![trigger rest.local[i]]
            0 <= i < pre.local.len() ==> rest.local[i] == mid.local[i] || rest.local[i]
                == pre.local[i],
        forall|i: int|
            #![trigger rest.exch[i]]
            0 <= i < pre.exch.len() ==> rest.exch[i] == mid.exch[i] || rest.exch[i] == pre.exch[i],
    ensures
        none_failed(pre, rest),
{
    assert forall|i: int| #![trigger rest.local[i]] 0 <= i < pre.local.len() implies {
        unfailed(pre.local[i], rest.local[i], 0)
    } by {
        assert(unfailed(pre.local[i], mid.local[i], 0));
    }
    assert forall|i: int| #![trigger rest.exch[i]] 0 <= i < pre.exch.len() implies {
        unfailed(pre.exch[i], rest.exch[i], 0)
    } by {
        assert(unfailed(pre.exch[i], mid.exch[i], 0));
    }
}

/// The call that ends a run is the one that failed.
proof fn lemma_failure_is_last<L: Processor, E: Processor>(
    pre: BacktestState<L, E>,
    last: Moment<L, E>,
    ev: EventIntent,
    post: BacktestState<L, E>,
    waiting: Waiting,
    e: BacktestError,
    timestamp: i64,
)
    requires
        pre.wf(),
        last.state.wf(),
        all_told(pre, last.state, timestamp, waiting),
        none_failed(pre, last.state),
        run::is_due(last, ev),
        run::fails(last, ev, post, waiting, e),
    ensures
        one_failed(pre, post, e),
{
    let a = ev.asset_no as int;
    let local_side = ev.kind == EventIntentKind::LocalData || ev.kind
        == EventIntentKind::LocalOrder;
    if local_side {
        let (p, q) = (last.state.local[a], post.local[a]);
        assert(told(pre.local[a], p, timestamp, run::response_id(waiting, a)));
        assert(failed_with(q.calls().last(), e));
        assert(unfailed(p, q, 1));
        lemma_unfailed_chain(pre.local[a], p, q, 1);
        let rest = BacktestState { local: post.local.update(a, pre.local[a]), ..post };
        lemma_rest_unfailed(pre, last.state, rest);
        assert(local_failed(pre, post, a, e));
    } else {
        let (p, q) = (last.state.exch[a], post.exch[a]);
        assert(told(pre.exch[a], p, timestamp, WAIT_ORDER_RESPONSE_NONE));
        assert(failed_with(q.calls().last(), e));
        assert(unfailed(p, q, 1));
        lemma_unfailed_chain(pre.exch[a], p, q, 1);
        let rest = BacktestState { exch: post.exch.update(a, pre.exch[a]), ..post };
        lemma_rest_unfailed(pre, last.state, rest);
        assert(exch_failed(pre, post, a, e));
    }
}

/// Where one call failed, it failed with one error.
proof fn lemma_one_error<L: Processor, E: Processor>(
    pre: BacktestState<L, E>,
    post: BacktestState<L, E>,
    d: BacktestError,
    e: BacktestError,
)
    requires
        pre.wf(),
        post.wf(),
        post.local.len() == pre.local.len(),
        one_failed(pre, post, d),
        one_failed(pre, post, e),
    ensures
        d == e,
{
    if exists|a: int| local_failed(pre, post, a, d) {
        let a = choose|a: int| local_failed(pre, post, a, d);
        let (p, q) = (pre.local[a], post.local[a]);
        assert(failed(q.calls()[q.calls().len() - 1]));
        if exists|b: int| local_failed(pre, post, b, e) {
            let b = choose|b: int| local_failed(pre, post, b, e);
            let rest = BacktestState { local: post.local.update(b, pre.local[b]), ..post };
            if a != b {
                assert(rest.local[a] == q);
                assert(unfailed(p, q, 0));
            }
        } else {
            let b = choose|b: int| exch_failed(pre, post, b, e);
            let rest = BacktestState { exch: post.exch.update(b, pre.exch[b]), ..post };
            assert(rest.local[a] == q);
            assert(unfailed(p, q, 0));
        }
    } else {
        let a = choose|a: int| exch_failed(pre, post, a, d);
        let (p, q) = (pre.exch[a], post.exch[a]);
        assert(failed(q.calls()[q.calls().len() - 1]));
        if exists|b: int| local_failed(pre, post, b, e) {
            let b = choose|b: int| local_failed(pre, post, b, e);
            let rest = BacktestState { local: post.local.update(b, pre.local[b]), ..post };
            assert(rest.exch[a] == q);
            assert(unfailed(p, q, 0));
        } else {
            let b = choose|b: int| exch_failed(pre, post, b, e);
            let rest = BacktestState { exch: post.exch.update(b, pre.exch[b]), ..post };
            if a != b {
                assert(rest.exch[a] == q);
                assert(unfailed(p, q, 0));
            }
        }
    }
}

/// The call told that no further market data is due: the feed is at its end.
pub open spec fn ends_feed(call: ProcessorCall) -> bool {
    match call {
        ProcessorCall::ProcessData { result } => evs::due(run::next_feed(result)) == Ok::<
            i64,
            BacktestError,
        >(i64::MAX),
        _ => false,
    }
}

/// Since `pre` the processor told that its feed is at its end.
pub open spec fn feed_ended<P: Processor>(pre: P, post: P) -> bool {
    exists|k: int|
        #![trigger post.calls()[k]]
        pre.calls().len() <= k < post.calls().len() && ends_feed(post.calls()[k])
}

/// Since `pre` the processor was not asked for data after it told that its feed is at its end.
pub open spec fn not_asked_again<P: Processor>(pre: P, post: P) -> bool {
    forall|j: int, k: int|
        #![trigger post.calls()[j], post.calls()[k]]
        pre.calls().len() <= j < k < post.calls().len() && ends_feed(post.calls()[j])
            ==> !(post.calls()[k] is ProcessData)
}

/// Since `pre` no processor was asked for data after it told that its feed is at its end.
pub open spec fn none_asked_again<L: Processor, E: Processor>(
    pre: BacktestState<L, E>,
    post: BacktestState<L, E>,
) -> bool {
    &&& forall|i: int|
        #![trigger post.local[i]]
        0 <= i < pre.local.len() ==> not_asked_again(pre.local[i], post.local[i])
    &&& forall|i: int|
        #![trigger post.exch[i]]
        0 <= i < pre.exch.len() ==> not_asked_again(pre.exch[i], post.exch[i])
}

/// No market data is due for a feed that ended since `pre`.
spec fn ended_feeds_are_idle<L: Processor, E: Processor>(
    pre: BacktestState<L, E>,
    post: BacktestState<L, E>,
) -> bool {
    &&& forall|i: int|
        #![trigger post.local[i]]
        0 <= i < pre.local.len() && feed_ended(pre.local[i], post.local[i])
            ==> post.evs[i].local_data == i64::MAX
    &&& forall|i: int|
        #![trigger post.exch[i]]
        0 <= i < pre.exch.len() && feed_ended(pre.exch[i], post.exch[i]) ==> post.evs[i].exch_data
            == i64::MAX
}

/// One more call to a processor.
proof fn lemma_one_more_call<P: Processor>(pre: P, mid: P, post: P, call: ProcessorCall)
    requires
        pre.calls().len() <= mid.calls().len(),
        post.calls() == mid.calls().push(call),
        not_asked_again(pre, mid),
        call is ProcessData ==> !feed_ended(pre, mid),
    ensures
        not_asked_again(pre, post),
        feed_ended(pre, post) <==> feed_ended(pre, mid) || ends_feed(call),
{
    let n = mid.calls().len() as int;
    assert(post.calls()[n] == call);
    assert forall|k: int| #![trigger post.calls()[k]] 0 <= k < n implies {
        post.calls()[k] == mid.calls()[k]
    } by {}
    if feed_ended(pre, mid) {
        let k = choose|k: int|
            #![trigger mid.calls()[k]]
            pre.calls().len() <= k < n && ends_feed(mid.calls()[k]);
        assert(post.calls()[k] == mid.calls()[k]);
    }
    if feed_ended(pre, post) {
        let k = choose|k: int|
            #![trigger post.calls()[k]]
            pre.calls().len() <= k < post.calls().len() && ends_feed(post.calls()[k]);
        if k < n {
            assert(ends_feed(mid.calls()[k]));
        }
    }
    assert forall|j: int, k: int|
        #![trigger post.calls()[j], post.calls()[k]]
        pre.calls().len() <= j < k < post.calls().len() && ends_feed(post.calls()[j]) implies {
        !(post.calls()[k] is ProcessData)
    } by {
        assert(ends_feed(mid.calls()[j]));
        if k < n {
            assert(!(mid.calls()[k] is ProcessData));
        }
    }
}

/// No feed that ended is asked again with an event.
proof fn lemma_advance_asks_none_again<L: Processor, E: Processor>(
    start: BacktestState<L, E>,
    pre: Moment<L, E>,
    post: Moment<L, E>,
    waiting: Waiting,
    timestamp: i64,
)
    requires
        run::advances(pre, post, waiting),
        pre.state.wf(),
        all_told(start, pre.state, timestamp, waiting),
        none_asked_again(start, pre.state),
        ended_feeds_are_idle(start, pre.state),
    ensures
        none_asked_again(start, post.state),
        ended_feeds_are_idle(start, post.state),
{
    let ev = choose|ev: EventIntent| #[trigger]
        run::is_due(pre, ev) && run::handles(pre, ev, post, waiting);
    let a = ev.asset_no as int;
    assert(told(start.local[a], pre.state.local[a], timestamp, run::response_id(waiting, a)));
    assert(told(start.exch[a], pre.state.exch[a], timestamp, WAIT_ORDER_RESPONSE_NONE));
    let (l, l2, e, e2) = (
        pre.state.local[a],
        post.state.local[a],
        pre.state.exch[a],
        post.state.exch[a],
    );
    match ev.kind {
        EventIntentKind::LocalData | EventIntentKind::LocalOrder => {
            lemma_one_more_call(start.local[a], l, l2, l2.calls().last());
        },
        EventIntentKind::ExchData | EventIntentKind::ExchOrder => {
            lemma_one_more_call(start.exch[a], e, e2, e2.calls().last());
        },
    }
    assert forall|i: int| #![trigger post.state.local[i]] 0 <= i < start.local.len() && i
        != a implies {
        &&& post.state.local[i] == pre.state.local[i]
        &&& post.state.evs[i] == pre.state.evs[i]
    } by {}
    assert forall|i: int| #![trigger post.state.exch[i]] 0 <= i < start.exch.len() && i
        != a implies {
        &&& post.state.exch[i] == pre.state.exch[i]
        &&& post.state.evs[i] == pre.state.evs[i]
    } by {}
}

/// No feed that ended is asked again up to the `n`-th moment of a run.
proof fn lemma_run_asks_none_again<L: Processor, E: Processor>(
    trace: Seq<Moment<L, E>>,
    n: int,
    waiting: Waiting,
)
    requires
        run::is_run(trace, waiting),
        trace[0].state.wf(),
        0 <= n < trace.len(),
    ensures
        none_asked_again(trace[0].state, trace[n].state),
        ended_feeds_are_idle(trace[0].state, trace[n].state),
    decreases n,
{
    if n > 0 {
        lemma_run_asks_none_again(trace, n - 1, waiting);
        laws::lemma_run(trace, n - 1, waiting);
        assert(run::advances_at(trace, n - 1, waiting));
        lemma_advance_asks_none_again(
            trace[0].state,
            trace[n - 1],
            trace[n],
            waiting,
            trace[0].target,
        );
    }
}

/// A feed that is at its end is not asked again in the run: once a processor told that no further
/// market data is due, the run asks it for none.
pub proof fn a_feed_at_its_end_is_not_asked_again<L: Processor, E: Processor>(
    pre: BacktestState<L, E>,
    timestamp: i64,
    waiting: Waiting,
    post: BacktestState<L, E>,
    r: Result<bool, BacktestError>,
)
    requires
        pre.wf(),
        run::goes_to(pre, timestamp, waiting, post, r),
    ensures
        none_asked_again(pre, post),
{
    let trace = choose|trace: Seq<Moment<L, E>>|
        run::runs_through(trace, pre, timestamp, waiting, post, r);
    let last = trace.last();
    laws::lemma_run(trace, trace.len() - 1, waiting);
    lemma_run_asks_none_again(trace, trace.len() - 1, waiting);
    let first = trace[0].state;
    assert(first.local == pre.local && first.exch == pre.exch);
    if let Err(e) = r {
        let ev = choose|ev: EventIntent| #[trigger]
            run::is_due(last, ev) && run::fails(last, ev, post, waiting, e);
        let a = ev.asset_no as int;
        let (l, l2, x, x2) = (
            last.state.local[a],
            post.local[a],
            last.state.exch[a],
            post.exch[a],
        );
        assert(told(pre.local[a], l, timestamp, run::response_id(waiting, a)));
        assert(told(pre.exch[a], x, timestamp, WAIT_ORDER_RESPONSE_NONE));
        match ev.kind {
            EventIntentKind::LocalData | EventIntentKind::LocalOrder => {
                lemma_one_more_call(pre.local[a], l, l2, l2.calls().last());
            },
            EventIntentKind::ExchData | EventIntentKind::ExchOrder => {
                lemma_one_more_call(pre.exch[a], x, x2, x2.calls().last());
            },
        }
        assert forall|i: int| #![trigger post.local[i]] 0 <= i < pre.local.len() implies {
            not_asked_again(pre.local[i], post.local[i])
        } by {
            assert(not_asked_again(pre.local[i], last.state.local[i]));
        }
        assert forall|i: int| #![trigger post.exch[i]] 0 <= i < pre.exch.len() implies {
            not_asked_again(pre.exch[i], post.exch[i])
        } by {
            assert(not_asked_again(pre.exch[i], last.state.exch[i]));
        }
    }
}

} // verus!
