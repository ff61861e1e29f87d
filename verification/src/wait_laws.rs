//! Which order a run looks out for, and at which time it ends.

use vstd::prelude::*;

use crate::conduct_laws;
use crate::laws;
use crate::laws::{all_told, told};
use crate::proc::{Processor, ProcessorCall};
use crate::run;
use crate::run::{BacktestState, Moment, Waiting};
use crate::types::{BacktestError, WAIT_ORDER_RESPONSE_NONE};

verus! {

/// Since `pre` the processor was told of no order or response but to look out for the order `id`,
/// and of none that is due after `timestamp`. Its feed was not prepared, and no call is forgotten.
pub open spec fn looks_out_for<P: Processor>(pre: P, post: P, id: i64, timestamp: i64) -> bool {
    &&& pre.calls().len() <= post.calls().len()
    &&& forall|k: int|
        #![trigger post.calls()[k]]
        0 <= k < pre.calls().len() ==> post.calls()[k] == pre.calls()[k]
    &&& forall|k: int|
        #![trigger post.calls()[k]]
        pre.calls().len() <= k < post.calls().len() ==> match post.calls()[k] {
            ProcessorCall::InitializeData { .. } => false,
            ProcessorCall::ProcessData { .. } => true,
            ProcessorCall::ProcessRecvOrder { timestamp: t, wait_resp_order_id, .. } => {
                wait_resp_order_id == id && t <= timestamp
            },
        }
}

/// The local side of the asset `a` was told to look out for the order `id`, and everyone else to
/// look out for none.
pub open spec fn only_this_is_looked_out_for<L: Processor, E: Processor>(
    pre: BacktestState<L, E>,
    a: int,
    id: i64,
    timestamp: i64,
    post: BacktestState<L, E>,
) -> bool {
    &&& post.local.len() == pre.local.len()
    &&& post.exch.len() == pre.exch.len()
    &&& 0 <= a < pre.local.len() ==> looks_out_for(pre.local[a], post.local[a], id, timestamp)
    &&& forall|i: int|
        #![trigger post.local[i]]
        0 <= i < pre.local.len() && i != a ==> looks_out_for(
            pre.local[i],
            post.local[i],
            WAIT_ORDER_RESPONSE_NONE,
            timestamp,
        )
    &&& forall|i: int|
        #![trigger post.exch[i]]
        0 <= i < pre.exch.len() ==> looks_out_for(
            pre.exch[i],
            post.exch[i],
            WAIT_ORDER_RESPONSE_NONE,
            timestamp,
        )
}

/// Everyone was told to look out for no order.
pub open spec fn none_is_looked_out_for<L: Processor, E: Processor>(
    pre: BacktestState<L, E>,
    timestamp: i64,
    post: BacktestState<L, E>,
) -> bool {
    &&& post.local.len() == pre.local.len()
    &&& post.exch.len() == pre.exch.len()
    &&& forall|i: int|
        #![trigger post.local[i]]
        0 <= i < pre.local.len() ==> looks_out_for(
            pre.local[i],
            post.local[i],
            WAIT_ORDER_RESPONSE_NONE,
            timestamp,
        )
    &&& forall|i: int|
        #![trigger post.exch[i]]
        0 <= i < pre.exch.len() ==> looks_out_for(
            pre.exch[i],
            post.exch[i],
            WAIT_ORDER_RESPONSE_NONE,
            timestamp,
        )
}

/// The call handed over a response at `t`, and was answered that it is the one waited for.
pub open spec fn is_found_at(call: ProcessorCall, t: i64) -> bool {
    match call {
        ProcessorCall::ProcessRecvOrder { timestamp, result, .. } => {
            timestamp == t && result == Ok::<bool, BacktestError>(true)
        },
        _ => false,
    }
}

/// Since `pre` the processor found at `t` what is waited for.
pub open spec fn found_at<P: Processor>(pre: P, post: P, t: i64) -> bool {
    exists|k: int|
        #![trigger post.calls()[k]]
        pre.calls().len() <= k < post.calls().len() && is_found_at(post.calls()[k], t)
}

/// Since `pre` some local side found at `t` what is waited for.
pub open spec fn some_found_at<L: Processor, E: Processor>(
    pre: BacktestState<L, E>,
    post: BacktestState<L, E>,
    t: i64,
) -> bool {
    exists|i: int|
        #![trigger post.local[i]]
        0 <= i < pre.local.len() && found_at(pre.local[i], post.local[i], t)
}

/// The clock of `post` is the earliest of `timestamp` and of the times at which local sides found
/// what is waited for.
pub open spec fn clock_is_first_of<L: Processor, E: Processor>(
    pre: BacktestState<L, E>,
    timestamp: i64,
    post: BacktestState<L, E>,
) -> bool {
    &&& post.cur_ts <= timestamp
    &&& forall|t: i64| #[trigger] some_found_at(pre, post, t) ==> post.cur_ts <= t
    &&& post.cur_ts == timestamp || some_found_at(pre, post, post.cur_ts)
}

/// A run that waits for the response to the order `id` of the asset `a` tells the local side of
/// this asset to look out for `id`, and tells every other processor to look out for no order.
pub proof fn a_wait_for_a_response_looks_out_for_it_alone<L: Processor, E: Processor>(
    pre: BacktestState<L, E>,
    timestamp: i64,
    a: usize,
    id: i64,
    include_order_resp: bool,
    post: BacktestState<L, E>,
    r: Result<bool, BacktestError>,
)
    requires
        pre.wf(),
        run::goes_to(
            pre,
            timestamp,
            (Waiting { next_feed: false, order_response: (a, id), include_order_resp }),
            post,
            r,
        ),
    ensures
        only_this_is_looked_out_for(pre, a as int, id, timestamp, post),
{
    let waiting = Waiting { next_feed: false, order_response: (a, id), include_order_resp };
    laws::processors_are_told_what_is_due(pre, timestamp, waiting, post, r);
    assert forall|i: int| #![trigger post.local[i]] 0 <= i < pre.local.len() implies {
        looks_out_for(
            pre.local[i],
            post.local[i],
            if i == a {
                id
            } else {
                WAIT_ORDER_RESPONSE_NONE
            },
            timestamp,
        )
    } by {
        assert(told(pre.local[i], post.local[i], timestamp, run::response_id(waiting, i)));
    }
    assert forall|i: int| #![trigger post.exch[i]] 0 <= i < pre.exch.len() implies {
        looks_out_for(pre.exch[i], post.exch[i], WAIT_ORDER_RESPONSE_NONE, timestamp)
    } by {
        assert(told(pre.exch[i], post.exch[i], timestamp, WAIT_ORDER_RESPONSE_NONE));
    }
}

/// A run that waits for the next feed tells every processor to look out for no order.
pub proof fn a_wait_for_the_feed_looks_out_for_no_order<L: Processor, E: Processor>(
    pre: BacktestState<L, E>,
    timestamp: i64,
    order_response: (usize, i64),
    include_order_resp: bool,
    post: BacktestState<L, E>,
    r: Result<bool, BacktestError>,
)
    requires
        pre.wf(),
        run::goes_to(
            pre,
            timestamp,
            (Waiting { next_feed: true, order_response, include_order_resp }),
            post,
            r,
        ),
    ensures
        none_is_looked_out_for(pre, timestamp, post),
{
    let waiting = Waiting { next_feed: true, order_response, include_order_resp };
    laws::processors_are_told_what_is_due(pre, timestamp, waiting, post, r);
    assert forall|i: int| #![trigger post.local[i]] 0 <= i < pre.local.len() implies {
        looks_out_for(pre.local[i], post.local[i], WAIT_ORDER_RESPONSE_NONE, timestamp)
    } by {
        assert(told(pre.local[i], post.local[i], timestamp, run::response_id(waiting, i)));
    }
    assert forall|i: int| #![trigger post.exch[i]] 0 <= i < pre.exch.len() implies {
        looks_out_for(pre.exch[i], post.exch[i], WAIT_ORDER_RESPONSE_NONE, timestamp)
    } by {
        assert(told(pre.exch[i], post.exch[i], timestamp, WAIT_ORDER_RESPONSE_NONE));
    }
}

/// What was found in the first of two stretches of a run, was found in both.
proof fn lemma_found_before<L: Processor, E: Processor>(
    pre: BacktestState<L, E>,
    mid: BacktestState<L, E>,
    post: BacktestState<L, E>,
    timestamp: i64,
    waiting: Waiting,
    t: i64,
)
    requires
        all_told(pre, mid, timestamp, waiting),
        all_told(mid, post, timestamp, waiting),
        some_found_at(pre, mid, t),
    ensures
        some_found_at(pre, post, t),
{
    let i = choose|i: int|
        #![trigger mid.local[i]]
        0 <= i < pre.local.len() && found_at(pre.local[i], mid.local[i], t);
    let k = choose|k: int|
        #![trigger mid.local[i].calls()[k]]
        pre.local[i].calls().len() <= k < mid.local[i].calls().len() && is_found_at(
            mid.local[i].calls()[k],
            t,
        );
    assert(told(mid.local[i], post.local[i], timestamp, run::response_id(waiting, i)));
    assert(post.local[i].calls()[k] == mid.local[i].calls()[k]);
    assert(found_at(pre.local[i], post.local[i], t));
}

/// What was found in two stretches of a run, was found in one of them.
proof fn lemma_found_in_either<L: Processor, E: Processor>(
    pre: BacktestState<L, E>,
    mid: BacktestState<L, E>,
    post: BacktestState<L, E>,
    timestamp: i64,
    waiting: Waiting,
    t: i64,
)
    requires
        all_told(pre, mid, timestamp, waiting),
        all_told(mid, post, timestamp, waiting),
        some_found_at(pre, post, t),
    ensures
        some_found_at(pre, mid, t) || some_found_at(mid, post, t),
{
    let i = choose|i: int|
        #![trigger post.local[i]]
        0 <= i < pre.local.len() && found_at(pre.local[i], post.local[i], t);
    let k = choose|k: int|
        #![trigger post.local[i].calls()[k]]
        pre.local[i].calls().len() <= k < post.local[i].calls().len() && is_found_at(
            post.local[i].calls()[k],
            t,
        );
    assert(told(mid.local[i], post.local[i], timestamp, run::response_id(waiting, i)));
    if k < mid.local[i].calls().len() {
        assert(mid.local[i].calls()[k] == post.local[i].calls()[k]);
        assert(found_at(pre.local[i], mid.local[i], t));
    } else {
        assert(found_at(mid.local[i], post.local[i], t));
    }
}

/// What was found in the second of two stretches of a run, was found in both.
proof fn lemma_found_after<L: Processor, E: Processor>(
    pre: BacktestState<L, E>,
    mid: BacktestState<L, E>,
    post: BacktestState<L, E>,
    timestamp: i64,
    waiting: Waiting,
    t: i64,
)
    requires
        all_told(pre, mid, timestamp, waiting),
        all_told(mid, post, timestamp, waiting),
        some_found_at(mid, post, t),
    ensures
        some_found_at(pre, post, t),
{
    let i = choose|i: int|
        #![trigger post.local[i]]
        0 <= i < mid.local.len() && found_at(mid.local[i], post.local[i], t);
    assert(told(pre.local[i], mid.local[i], timestamp, run::response_id(waiting, i)));
    let k = choose|k: int|
        #![trigger post.local[i].calls()[k]]
        mid.local[i].calls().len() <= k < post.local[i].calls().len() && is_found_at(
            post.local[i].calls()[k],
            t,
        );
    assert(found_at(pre.local[i], post.local[i], t));
}

/// What one event finds moves the target to its own time.
proof fn lemma_found_with<L: Processor, E: Processor>(
    m: Moment<L, E>,
    m2: Moment<L, E>,
    a: int,
    id: i64,
    include_order_resp: bool,
    t: i64,
)
    requires
        m.state.wf(),
        conduct_laws::served(m, m2, false, a, id, include_order_resp),
    ensures
        some_found_at(m.state, m2.state, t) ==> m2.target == t,
        m2.target <= m.target,
        m2.target == m.target || some_found_at(m.state, m2.state, m2.target),
{
    let (s, s2) = (m.state, m2.state);
    if exists|i: int, look_out: i64, done: bool|
        {
            &&& #[trigger] conduct_laws::local_order_served(s, i, s2, look_out, done)
            &&& s.evs[i].local_order <= m.target
            &&& done ==> m2.target == s.evs[i].local_order
            &&& !done ==> m2.target == m.target
        } {
        let (i, look_out, done) = choose|i: int, look_out: i64, done: bool|
            {
                &&& #[trigger] conduct_laws::local_order_served(s, i, s2, look_out, done)
                &&& s.evs[i].local_order <= m.target
                &&& done ==> m2.target == s.evs[i].local_order
                &&& !done ==> m2.target == m.target
            };
        let n = s.local[i].calls().len() as int;
        assert(s2.local[i].calls()[n] == s2.local[i].calls().last());
        if done {
            assert(found_at(s.local[i], s2.local[i], m2.target));
        }
    }
    if some_found_at(s, s2, t) {
        let j = choose|j: int|
            #![trigger s2.local[j]]
            0 <= j < s.local.len() && found_at(s.local[j], s2.local[j], t);
        let k = choose|k: int|
            #![trigger s2.local[j].calls()[k]]
            s.local[j].calls().len() <= k < s2.local[j].calls().len() && is_found_at(
                s2.local[j].calls()[k],
                t,
            );
    }
}

/// The target at the `n`-th moment of a run that waits for a response.
proof fn lemma_target_is_first<L: Processor, E: Processor>(
    trace: Seq<Moment<L, E>>,
    n: int,
    waiting: Waiting,
)
    requires
        run::is_run(trace, waiting),
        trace[0].state.wf(),
        !waiting.next_feed,
        0 <= n < trace.len(),
    ensures
        trace[n].target <= trace[0].target,
        forall|t: i64| #[trigger]
            some_found_at(trace[0].state, trace[n].state, t) ==> trace[n].target <= t,
        trace[n].target == trace[0].target || some_found_at(
            trace[0].state,
            trace[n].state,
            trace[n].target,
        ),
    decreases n,
{
    let first = trace[0].state;
    let timestamp = trace[0].target;
    if n > 0 {
        let (mid, post) = (trace[n - 1].state, trace[n].state);
        lemma_target_is_first(trace, n - 1, waiting);
        laws::lemma_run(trace, n - 1, waiting);
        assert(run::advances_at(trace, n - 1, waiting));
        laws::lemma_advance(trace[n - 1], trace[n], waiting, timestamp);
        conduct_laws::lemma_served(trace[n - 1], trace[n], waiting);
        let (a, id) = (waiting.order_response.0 as int, waiting.order_response.1);
        let target = trace[n].target;
        lemma_found_with(trace[n - 1], trace[n], a, id, waiting.include_order_resp, target);
        if trace[n].target == trace[n - 1].target {
            if trace[n - 1].target != timestamp {
                lemma_found_before(first, mid, post, timestamp, waiting, target);
            }
        } else {
            lemma_found_after(first, mid, post, timestamp, waiting, target);
        }
        assert forall|t: i64| #[trigger] some_found_at(first, post, t) implies target <= t by {
            lemma_found_in_either(first, mid, post, timestamp, waiting, t);
            lemma_found_with(trace[n - 1], trace[n], a, id, waiting.include_order_resp, t);
        }
    } else {
        assert forall|t: i64| #[trigger] some_found_at(first, first, t) implies timestamp <= t by {
            let i = choose|i: int|
                #![trigger first.local[i]]
                0 <= i < first.local.len() && found_at(first.local[i], first.local[i], t);
            assert(found_at(first.local[i], first.local[i], t));
        }
    }
}

/// A run that does not wait for the next feed and returns true ends with the clock at `timestamp`,
/// or at the earliest time at which a local side found the response that is waited for.
pub proof fn the_clock_is_at_the_first_response<L: Processor, E: Processor>(
    pre: BacktestState<L, E>,
    timestamp: i64,
    order_response: (usize, i64),
    include_order_resp: bool,
    post: BacktestState<L, E>,
)
    requires
        pre.wf(),
        run::goes_to(
            pre,
            timestamp,
            (Waiting { next_feed: false, order_response, include_order_resp }),
            post,
            Ok(true),
        ),
    ensures
        clock_is_first_of(pre, timestamp, post),
{
    let waiting = Waiting { next_feed: false, order_response, include_order_resp };
    let trace = choose|trace: Seq<Moment<L, E>>|
        run::runs_through(trace, pre, timestamp, waiting, post, Ok(true));
    let n = trace.len() - 1;
    lemma_target_is_first(trace, n, waiting);
    let (first, last) = (trace[0].state, trace[n].state);
    assert(first.local == pre.local && last.local == post.local);
    assert forall|t: i64| some_found_at(first, last, t) == #[trigger] some_found_at(
        pre,
        post,
        t,
    ) by {
        if some_found_at(first, last, t) {
            let i = choose|i: int|
                #![trigger last.local[i]]
                0 <= i < first.local.len() && found_at(first.local[i], last.local[i], t);
            assert(found_at(pre.local[i], post.local[i], t));
        }
        if some_found_at(pre, post, t) {
            let i = choose|i: int|
                #![trigger post.local[i]]
                0 <= i < pre.local.len() && found_at(pre.local[i], post.local[i], t);
            assert(found_at(first.local[i], last.local[i], t));
        }
    }
}

} // verus!
