//! What two backtesters have in common whose processors behave alike, whatever their types: one of
//! them may hold its processors in boxes, and the other as they are.

use vstd::prelude::*;

use crate::evs;
use crate::evs::{EventIntent, EventIntentKind};
use crate::proc::{receives_at, sends_at};
use crate::proc::{Processor, ProcessorCall};
use crate::run;
use crate::run::{BacktestState, Moment, Waiting};
use crate::types::{BacktestError, WAIT_ORDER_RESPONSE_NONE};

verus! {

/// The two processors got the same calls, gave the same answers, and report the same times.
pub open spec fn alike<P: Processor, Q: Processor>(a: P, b: Q) -> bool {
    &&& a.calls() == b.calls()
    &&& forall|t: i64, u: i64| #[trigger]
        receives_at(&a, t) && #[trigger] receives_at(&b, u) ==> t == u
    &&& forall|t: i64, u: i64| #[trigger]
        sends_at(&a, t) && #[trigger] sends_at(&b, u) ==> t == u
}

/// The two calls ask the same, whatever the answers.
pub open spec fn same_question(c: ProcessorCall, d: ProcessorCall) -> bool {
    match (c, d) {
        (ProcessorCall::InitializeData { .. }, ProcessorCall::InitializeData { .. }) => true,
        (ProcessorCall::ProcessData { .. }, ProcessorCall::ProcessData { .. }) => true,
        (
            ProcessorCall::ProcessRecvOrder { timestamp: t, wait_resp_order_id: i, .. },
            ProcessorCall::ProcessRecvOrder { timestamp: u, wait_resp_order_id: j, .. },
        ) => t == u && i == j,
        _ => false,
    }
}

/// If the two processors are alike, and each goes from its first state to its second by a call that
/// asks the same, then they are alike afterwards: they answer the same.
pub open spec fn answer_alike<P: Processor, Q: Processor>(p: P, p2: P, q: Q, q2: Q) -> bool {
    forall|c: ProcessorCall, d: ProcessorCall|
        #![trigger p.calls().push(c), q.calls().push(d)]
        {
            &&& alike(p, q)
            &&& p2.calls() == p.calls().push(c)
            &&& q2.calls() == q.calls().push(d)
            &&& same_question(c, d)
        } ==> alike(p2, q2)
}

/// The clocks and the pending events are equal, and the processors alike, one by one.
pub open spec fn alike_states<L: Processor, E: Processor, M: Processor, F: Processor>(
    s: BacktestState<L, E>,
    t: BacktestState<M, F>,
) -> bool {
    &&& s.cur_ts == t.cur_ts
    &&& s.evs == t.evs
    &&& s.local.len() == t.local.len()
    &&& s.exch.len() == t.exch.len()
    &&& forall|i: int|
        #![trigger s.local[i]]
        #![trigger t.local[i]]
        0 <= i < s.local.len() ==> alike(s.local[i], t.local[i])
    &&& forall|i: int|
        #![trigger s.exch[i]]
        #![trigger t.exch[i]]
        0 <= i < s.exch.len() ==> alike(s.exch[i], t.exch[i])
}

/// The states are alike, and the targets equal.
pub open spec fn alike_moments<L: Processor, E: Processor, M: Processor, F: Processor>(
    m: Moment<L, E>,
    n: Moment<M, F>,
) -> bool {
    m.target == n.target && alike_states(m.state, n.state)
}

/// From `s` to `s2` and from `t` to `t2`, the processors answer alike, one by one.
pub open spec fn all_answer_alike<L: Processor, E: Processor, M: Processor, F: Processor>(
    s: BacktestState<L, E>,
    s2: BacktestState<L, E>,
    t: BacktestState<M, F>,
    t2: BacktestState<M, F>,
) -> bool {
    &&& forall|i: int|
        #![trigger s2.local[i]]
        #![trigger t2.local[i]]
        0 <= i < s.local.len() ==> answer_alike(s.local[i], s2.local[i], t.local[i], t2.local[i])
    &&& forall|i: int|
        #![trigger s2.exch[i]]
        #![trigger t2.exch[i]]
        0 <= i < s.exch.len() ==> answer_alike(s.exch[i], s2.exch[i], t.exch[i], t2.exch[i])
}

/// The state of a run after `n` events. The state that it leaves behind comes last.
pub open spec fn state_after<L, E>(
    trace: Seq<Moment<L, E>>,
    post: BacktestState<L, E>,
    n: int,
) -> BacktestState<L, E> {
    if n < trace.len() {
        trace[n].state
    } else {
        post
    }
}

/// With the event after the first `n`, the processors of the two runs answer alike.
pub open spec fn answer_alike_at<L: Processor, E: Processor, M: Processor, F: Processor>(
    a: Seq<Moment<L, E>>,
    post_a: BacktestState<L, E>,
    b: Seq<Moment<M, F>>,
    post_b: BacktestState<M, F>,
    n: int,
) -> bool {
    all_answer_alike(
        a[n].state,
        state_after(a, post_a, n + 1),
        b[n].state,
        state_after(b, post_b, n + 1),
    )
}

/// The processors behave alike on the two runs: wherever they are alike and are asked the same,
/// they answer the same.
pub open spec fn behave_alike<L: Processor, E: Processor, M: Processor, F: Processor>(
    a: Seq<Moment<L, E>>,
    post_a: BacktestState<L, E>,
    b: Seq<Moment<M, F>>,
    post_b: BacktestState<M, F>,
) -> bool {
    forall|n: int|
        0 <= n < a.len() && n < b.len() ==> #[trigger] answer_alike_at(a, post_a, b, post_b, n)
}

/// The same event is due in moments that are alike.
proof fn lemma_same_event<L: Processor, E: Processor, M: Processor, F: Processor>(
    m: Moment<L, E>,
    n: Moment<M, F>,
    ev: EventIntent,
    other: EventIntent,
)
    requires
        alike_moments(m, n),
        evs::is_next_event(m.state.evs, ev),
        evs::is_next_event(n.state.evs, other),
    ensures
        ev == other,
{
    evs::next_event_is_unique(m.state.evs, Some(ev), Some(other));
}

/// Processors that are alike answer the same.
proof fn lemma_same_answer<P: Processor, Q: Processor>(
    p: P,
    p2: P,
    q: Q,
    q2: Q,
    c: ProcessorCall,
    d: ProcessorCall,
)
    requires
        alike(p, q),
        answer_alike(p, p2, q, q2),
        p2.calls() == p.calls().push(c),
        q2.calls() == q.calls().push(d),
        same_question(c, d),
    ensures
        alike(p2, q2),
        c == d,
{
    assert(p.calls().push(c).last() == c);
    assert(q.calls().push(d).last() == d);
}

/// Moments that are alike stay so with an event.
proof fn lemma_both_advance<L: Processor, E: Processor, M: Processor, F: Processor>(
    m: Moment<L, E>,
    m2: Moment<L, E>,
    n: Moment<M, F>,
    n2: Moment<M, F>,
    waiting: Waiting,
)
    requires
        alike_moments(m, n),
        m.state.wf(),
        run::advances(m, m2, waiting),
        run::advances(n, n2, waiting),
        all_answer_alike(m.state, m2.state, n.state, n2.state),
    ensures
        alike_moments(m2, n2),
{
    let ev = choose|ev: EventIntent| #[trigger]
        run::is_due(m, ev) && run::handles(m, ev, m2, waiting);
    let other = choose|ev: EventIntent| #[trigger]
        run::is_due(n, ev) && run::handles(n, ev, n2, waiting);
    lemma_same_event(m, n, ev, other);
    let i = ev.asset_no as int;
    let (l, l2, k, k2) = (m.state.local[i], m2.state.local[i], n.state.local[i], n2.state.local[i]);
    let (e, e2, f, f2) = (m.state.exch[i], m2.state.exch[i], n.state.exch[i], n2.state.exch[i]);
    match ev.kind {
        EventIntentKind::LocalData => {
            let r = choose|r: Result<(i64, i64), BacktestError>|
                run::handles_local_data(m, ev, m2, waiting, r);
            let s = choose|r: Result<(i64, i64), BacktestError>|
                run::handles_local_data(n, ev, n2, waiting, r);
            let (c, d) = (
                ProcessorCall::ProcessData { result: r },
                ProcessorCall::ProcessData { result: s },
            );
            lemma_same_answer(l, l2, k, k2, c, d);
        },
        EventIntentKind::LocalOrder => {
            let (done, next_ts) = choose|done: bool, next_ts: i64|
                run::handles_local_order(m, ev, m2, waiting, done, next_ts);
            let (done2, next_ts2) = choose|done: bool, next_ts: i64|
                run::handles_local_order(n, ev, n2, waiting, done, next_ts);
            let (timestamp, id) = (ev.timestamp, run::response_id(waiting, i));
            let (c, d) = (received(timestamp, id, Ok(done)), received(timestamp, id, Ok(done2)));
            lemma_same_answer(l, l2, k, k2, c, d);
            assert(next_ts == next_ts2);
        },
        EventIntentKind::ExchData => {
            let (r, next_ts) = choose|r: Result<(i64, i64), BacktestError>, next_ts: i64|
                run::handles_exch_data(m, ev, m2, r, next_ts);
            let (s, next_ts2) = choose|r: Result<(i64, i64), BacktestError>, next_ts: i64|
                run::handles_exch_data(n, ev, n2, r, next_ts);
            let (c, d) = (
                ProcessorCall::ProcessData { result: r },
                ProcessorCall::ProcessData { result: s },
            );
            lemma_same_answer(e, e2, f, f2, c, d);
            assert(next_ts == next_ts2);
        },
        EventIntentKind::ExchOrder => {
            let (done, next_ts) = choose|done: bool, next_ts: i64|
                run::handles_exch_order(m, ev, m2, done, next_ts);
            let (done2, next_ts2) = choose|done: bool, next_ts: i64|
                run::handles_exch_order(n, ev, n2, done, next_ts);
            let (timestamp, id) = (ev.timestamp, WAIT_ORDER_RESPONSE_NONE);
            let (c, d) = (received(timestamp, id, Ok(done)), received(timestamp, id, Ok(done2)));
            lemma_same_answer(e, e2, f, f2, c, d);
            assert(next_ts == next_ts2);
        },
    }
}

/// A call of `process_recv_order`.
spec fn received(timestamp: i64, id: i64, result: Result<bool, BacktestError>) -> ProcessorCall {
    ProcessorCall::ProcessRecvOrder { timestamp, wait_resp_order_id: id, result }
}

/// Of two runs in moments that are alike, one does not fail while the other goes on.
proof fn lemma_not_one_fails<L: Processor, E: Processor, M: Processor, F: Processor>(
    m: Moment<L, E>,
    m2: Moment<L, E>,
    n: Moment<M, F>,
    post: BacktestState<M, F>,
    waiting: Waiting,
    error: BacktestError,
    other: EventIntent,
)
    requires
        alike_moments(m, n),
        m.state.wf(),
        run::advances(m, m2, waiting),
        run::is_due(n, other),
        all_answer_alike(m.state, m2.state, n.state, post),
    ensures
        !run::fails(n, other, post, waiting, error),
{
    let ev = choose|ev: EventIntent| #[trigger]
        run::is_due(m, ev) && run::handles(m, ev, m2, waiting);
    lemma_same_event(m, n, ev, other);
    let i = ev.asset_no as int;
    let (l, l2, k, k2) = (m.state.local[i], m2.state.local[i], n.state.local[i], post.local[i]);
    let (e, e2, f, f2) = (m.state.exch[i], m2.state.exch[i], n.state.exch[i], post.exch[i]);
    if run::fails(n, other, post, waiting, error) {
        match ev.kind {
            EventIntentKind::LocalData => {
                let r = choose|r: Result<(i64, i64), BacktestError>|
                    run::handles_local_data(m, ev, m2, waiting, r);
                let (c, d) = (
                    ProcessorCall::ProcessData { result: r },
                    ProcessorCall::ProcessData { result: Err(error) },
                );
                lemma_same_answer(l, l2, k, k2, c, d);
            },
            EventIntentKind::LocalOrder => {
                let (done, next_ts) = choose|done: bool, next_ts: i64|
                    run::handles_local_order(m, ev, m2, waiting, done, next_ts);
                let (timestamp, id) = (ev.timestamp, run::response_id(waiting, i));
                let c = received(timestamp, id, Ok(done));
                let d = received(timestamp, id, Err(error));
                lemma_same_answer(l, l2, k, k2, c, d);
            },
            EventIntentKind::ExchData => {
                let (r, next_ts) = choose|r: Result<(i64, i64), BacktestError>, next_ts: i64|
                    run::handles_exch_data(m, ev, m2, r, next_ts);
                let (c, d) = (
                    ProcessorCall::ProcessData { result: r },
                    ProcessorCall::ProcessData { result: Err(error) },
                );
                lemma_same_answer(e, e2, f, f2, c, d);
            },
            EventIntentKind::ExchOrder => {
                let (done, next_ts) = choose|done: bool, next_ts: i64|
                    run::handles_exch_order(m, ev, m2, done, next_ts);
                let (timestamp, id) = (ev.timestamp, WAIT_ORDER_RESPONSE_NONE);
                let c = received(timestamp, id, Ok(done));
                let d = received(timestamp, id, Err(error));
                lemma_same_answer(e, e2, f, f2, c, d);
            },
        }
    }
}

/// Two runs that fail in moments that are alike fail alike.
proof fn lemma_both_fail<L: Processor, E: Processor, M: Processor, F: Processor>(
    m: Moment<L, E>,
    post_m: BacktestState<L, E>,
    n: Moment<M, F>,
    post_n: BacktestState<M, F>,
    waiting: Waiting,
    error: BacktestError,
    other_error: BacktestError,
    ev: EventIntent,
    other: EventIntent,
)
    requires
        alike_moments(m, n),
        m.state.wf(),
        run::is_due(m, ev),
        run::fails(m, ev, post_m, waiting, error),
        run::is_due(n, other),
        run::fails(n, other, post_n, waiting, other_error),
        all_answer_alike(m.state, post_m, n.state, post_n),
    ensures
        error == other_error,
        alike_states(post_m, post_n),
{
    lemma_same_event(m, n, ev, other);
    let i = ev.asset_no as int;
    let (l, l2, k, k2) = (m.state.local[i], post_m.local[i], n.state.local[i], post_n.local[i]);
    let (e, e2, f, f2) = (m.state.exch[i], post_m.exch[i], n.state.exch[i], post_n.exch[i]);
    let data = (
        ProcessorCall::ProcessData { result: Err(error) },
        ProcessorCall::ProcessData { result: Err(other_error) },
    );
    match ev.kind {
        EventIntentKind::LocalData => {
            lemma_same_answer(l, l2, k, k2, data.0, data.1);
        },
        EventIntentKind::LocalOrder => {
            let (timestamp, id) = (ev.timestamp, run::response_id(waiting, i));
            let c = received(timestamp, id, Err(error));
            lemma_same_answer(l, l2, k, k2, c, received(timestamp, id, Err(other_error)));
        },
        EventIntentKind::ExchData => {
            lemma_same_answer(e, e2, f, f2, data.0, data.1);
        },
        EventIntentKind::ExchOrder => {
            let (timestamp, id) = (ev.timestamp, WAIT_ORDER_RESPONSE_NONE);
            let c = received(timestamp, id, Err(error));
            lemma_same_answer(e, e2, f, f2, c, received(timestamp, id, Err(other_error)));
        },
    }
}

/// Two runs of processors that behave alike stay alike for as long as both go on.
proof fn lemma_alike_so_far<L: Processor, E: Processor, M: Processor, F: Processor>(
    a: Seq<Moment<L, E>>,
    post_a: BacktestState<L, E>,
    b: Seq<Moment<M, F>>,
    post_b: BacktestState<M, F>,
    waiting: Waiting,
    n: int,
)
    requires
        run::is_run(a, waiting),
        run::is_run(b, waiting),
        a[0].state.wf(),
        alike_moments(a[0], b[0]),
        behave_alike(a, post_a, b, post_b),
        0 <= n < a.len(),
        n < b.len(),
    ensures
        alike_moments(a[n], b[n]),
        a[n].state.wf(),
    decreases n,
{
    if n > 0 {
        lemma_alike_so_far(a, post_a, b, post_b, waiting, n - 1);
        assert(run::advances_at(a, n - 1, waiting));
        assert(run::advances_at(b, n - 1, waiting));
        assert(answer_alike_at(a, post_a, b, post_b, n - 1));
        lemma_both_advance(a[n - 1], a[n], b[n - 1], b[n], waiting);
    }
}

/// A run does not end while another one, in a moment that is alike, goes on.
proof fn lemma_not_one_ends<L: Processor, E: Processor, M: Processor, F: Processor>(
    m: Moment<L, E>,
    m2: Moment<L, E>,
    n: Moment<M, F>,
    post: BacktestState<M, F>,
    waiting: Waiting,
    r: Result<bool, BacktestError>,
)
    requires
        alike_moments(m, n),
        m.state.wf(),
        run::advances(m, m2, waiting),
        all_answer_alike(m.state, m2.state, n.state, post),
    ensures
        !run::ends(n, post, waiting, r),
{
    let ev = choose|ev: EventIntent| #[trigger]
        run::is_due(m, ev) && run::handles(m, ev, m2, waiting);
    assert(n.state.evs[ev.asset_no as int].at(ev.kind) == ev.timestamp);
    match r {
        Ok(true) => {
            assert forall|other: EventIntent| #[trigger]
                evs::is_next_event(n.state.evs, other) implies other.timestamp <= n.target by {
                lemma_same_event(m, n, ev, other);
            }
        },
        Ok(false) => {},
        Err(e) => {
            assert forall|other: EventIntent| #[trigger] run::is_due(n, other) implies !run::fails(
                n,
                other,
                post,
                waiting,
                e,
            ) by {
                lemma_not_one_fails(m, m2, n, post, waiting, e, other);
            }
        },
    }
}

/// Two runs that end in moments that are alike end alike.
proof fn lemma_both_end<L: Processor, E: Processor, M: Processor, F: Processor>(
    m: Moment<L, E>,
    post_m: BacktestState<L, E>,
    n: Moment<M, F>,
    post_n: BacktestState<M, F>,
    waiting: Waiting,
    r: Result<bool, BacktestError>,
    s: Result<bool, BacktestError>,
)
    requires
        alike_moments(m, n),
        m.state.wf(),
        run::ends(m, post_m, waiting, r),
        run::ends(n, post_n, waiting, s),
        all_answer_alike(m.state, post_m, n.state, post_n),
    ensures
        r == s,
        alike_states(post_m, post_n),
{
    assert(m.state.evs == n.state.evs);
    if let Err(e) = r {
        let due = choose|due: EventIntent| #[trigger]
            run::is_due(m, due) && run::fails(m, due, post_m, waiting, e);
        if let Err(e2) = s {
            let due2 = choose|due: EventIntent| #[trigger]
                run::is_due(n, due) && run::fails(n, due, post_n, waiting, e2);
            lemma_both_fail(m, post_m, n, post_n, waiting, e, e2, due, due2);
        } else {
            let later = choose|later: EventIntent| #[trigger]
                evs::is_next_event(n.state.evs, later) && later.timestamp > n.target;
            lemma_same_event(m, n, due, later);
        }
    } else if let Err(e) = s {
        let due = choose|due: EventIntent| #[trigger]
            run::is_due(n, due) && run::fails(n, due, post_n, waiting, e);
        let later = choose|later: EventIntent| #[trigger]
            evs::is_next_event(m.state.evs, later) && later.timestamp > m.target;
        lemma_same_event(m, n, later, due);
    }
}

/// Two backtesters whose processors behave alike do the same, of whatever types the processors are.
/// If they start in states that are alike and run with the same arguments, they process the same
/// events one by one, make the same calls to their processors, return the same, and end with the
/// same clock and the same pending events.
pub proof fn processors_alike_make_runs_alike<
    L: Processor,
    E: Processor,
    M: Processor,
    F: Processor,
>(
    a: Seq<Moment<L, E>>,
    pre_a: BacktestState<L, E>,
    post_a: BacktestState<L, E>,
    r_a: Result<bool, BacktestError>,
    b: Seq<Moment<M, F>>,
    pre_b: BacktestState<M, F>,
    post_b: BacktestState<M, F>,
    r_b: Result<bool, BacktestError>,
    timestamp: i64,
    waiting: Waiting,
)
    requires
        pre_a.wf(),
        alike_states(pre_a, pre_b),
        run::runs_through(a, pre_a, timestamp, waiting, post_a, r_a),
        run::runs_through(b, pre_b, timestamp, waiting, post_b, r_b),
        behave_alike(a, post_a, b, post_b),
    ensures
        a.len() == b.len(),
        forall|n: int| 0 <= n < a.len() ==> alike_moments(#[trigger] a[n], b[n]),
        r_a == r_b,
        alike_states(post_a, post_b),
{
    assert(a[0].state.evs =~= b[0].state.evs) by {
        assert forall|i: int| 0 <= i < pre_a.evs.len() implies {
            #[trigger] a[0].state.evs[i] == b[0].state.evs[i]
        } by {
            assert(alike(pre_a.local[i], pre_b.local[i]));
            let (x, y) = (a[0].state.evs[i], b[0].state.evs[i]);
            assert(sends_at(&pre_a.local[i], x.exch_order));
            assert(sends_at(&pre_b.local[i], y.exch_order));
        }
    }
    let n = if a.len() <= b.len() {
        a.len() - 1
    } else {
        b.len() - 1
    };
    assert forall|k: int| 0 <= k <= n implies alike_moments(#[trigger] a[k], b[k]) && a[
        k
    ].state.wf() by {
        lemma_alike_so_far(a, post_a, b, post_b, waiting, k);
    }
    assert(alike_moments(a[n], b[n]));
    assert(answer_alike_at(a, post_a, b, post_b, n));
    if a.len() < b.len() {
        assert(run::advances_at(b, n, waiting));
        lemma_alike_converse(a[n], b[n]);
        lemma_answers_converse(a[n].state, post_a, b[n].state, b[n + 1].state);
        lemma_not_one_ends(b[n], b[n + 1], a[n], post_a, waiting, r_a);
    } else if b.len() < a.len() {
        assert(run::advances_at(a, n, waiting));
        lemma_not_one_ends(a[n], a[n + 1], b[n], post_b, waiting, r_b);
    } else {
        lemma_both_end(a[n], post_a, b[n], post_b, waiting, r_a, r_b);
    }
}

/// Two moments are alike either way.
proof fn lemma_alike_converse<L: Processor, E: Processor, M: Processor, F: Processor>(
    m: Moment<L, E>,
    n: Moment<M, F>,
)
    requires
        alike_moments(m, n),
        m.state.wf(),
    ensures
        alike_moments(n, m),
        n.state.wf(),
{
}

/// Processors answer alike either way.
proof fn lemma_answers_converse<L: Processor, E: Processor, M: Processor, F: Processor>(
    s: BacktestState<L, E>,
    s2: BacktestState<L, E>,
    t: BacktestState<M, F>,
    t2: BacktestState<M, F>,
)
    requires
        all_answer_alike(s, s2, t, t2),
        s.local.len() == t.local.len(),
        s.exch.len() == t.exch.len(),
    ensures
        all_answer_alike(t, t2, s, s2),
{
    assert forall|i: int|
        #![trigger t2.local[i]]
        #![trigger s2.local[i]]
        0 <= i < t.local.len() implies answer_alike(
        t.local[i],
        t2.local[i],
        s.local[i],
        s2.local[i],
    ) by {
        lemma_answer_converse(s.local[i], s2.local[i], t.local[i], t2.local[i]);
    }
    assert forall|i: int|
        #![trigger t2.exch[i]]
        #![trigger s2.exch[i]]
        0 <= i < t.exch.len() implies answer_alike(
        t.exch[i],
        t2.exch[i],
        s.exch[i],
        s2.exch[i],
    ) by {
        lemma_answer_converse(s.exch[i], s2.exch[i], t.exch[i], t2.exch[i]);
    }
}

/// Two processors answer alike either way.
proof fn lemma_answer_converse<P: Processor, Q: Processor>(p: P, p2: P, q: Q, q2: Q)
    requires
        answer_alike(p, p2, q, q2),
    ensures
        answer_alike(q, q2, p, p2),
{
    assert forall|c: ProcessorCall, d: ProcessorCall|
        #![trigger q.calls().push(c), p.calls().push(d)]
        {
            &&& alike(q, p)
            &&& q2.calls() == q.calls().push(c)
            &&& p2.calls() == p.calls().push(d)
            &&& same_question(c, d)
        } implies alike(q2, p2) by {
        lemma_same_answer(p, p2, q, q2, d, c);
    }
}

/// The second processor can stand in for the first: it got the same calls and gave the same
/// answers, and whatever times the first reports, it may report.
pub open spec fn stands_in<P: Processor, Q: Processor>(a: P, b: Q) -> bool {
    &&& b.calls() == a.calls()
    &&& forall|t: i64| #[trigger] receives_at(&a, t) ==> receives_at(&b, t)
    &&& forall|t: i64| #[trigger] sends_at(&a, t) ==> sends_at(&b, t)
}

/// The state with other processors in place of its own.
pub open spec fn exchanged<L, E, M, F>(
    s: BacktestState<L, E>,
    f: spec_fn(L) -> M,
    g: spec_fn(E) -> F,
) -> BacktestState<M, F> {
    BacktestState {
        cur_ts: s.cur_ts,
        evs: s.evs,
        local: s.local.map_values(f),
        exch: s.exch.map_values(g),
    }
}

/// The moment with other processors in place of its own.
spec fn moment_exchanged<L, E, M, F>(
    m: Moment<L, E>,
    f: spec_fn(L) -> M,
    g: spec_fn(E) -> F,
) -> Moment<M, F> {
    Moment { state: exchanged(m.state, f, g), target: m.target }
}

/// What a backtester can do, one with processors that can stand in for its own can do: where the
/// one goes from `pre` to `post` and returns `r`, the other can go from the state in place of `pre`
/// to that in place of `post`, and return `r`. The clock, the pending events and the calls made to
/// each processor are the same.
pub proof fn processors_that_stand_in_run_alike<
    L: Processor,
    E: Processor,
    M: Processor,
    F: Processor,
>(
    f: spec_fn(L) -> M,
    g: spec_fn(E) -> F,
    pre: BacktestState<L, E>,
    timestamp: i64,
    waiting: Waiting,
    post: BacktestState<L, E>,
    r: Result<bool, BacktestError>,
)
    requires
        pre.wf(),
        run::goes_to(pre, timestamp, waiting, post, r),
        forall|a: L| stands_in(a, #[trigger] f(a)),
        forall|a: E| stands_in(a, #[trigger] g(a)),
    ensures
        run::goes_to(exchanged(pre, f, g), timestamp, waiting, exchanged(post, f, g), r),
{
    let trace = choose|trace: Seq<Moment<L, E>>|
        run::runs_through(trace, pre, timestamp, waiting, post, r);
    let other = trace.map_values(|m: Moment<L, E>| moment_exchanged(m, f, g));
    assert forall|n: int| 0 <= n < trace.len() implies (#[trigger] trace[n]).state.wf() by {
        lemma_wf_kept(trace, waiting, n);
    }
    assert forall|n: int| 0 <= n < other.len() - 1 implies #[trigger] run::advances_at(
        other,
        n,
        waiting,
    ) by {
        assert(run::advances_at(trace, n, waiting));
        assert(trace[n].state.wf());
        let ev = choose|ev: EventIntent| #[trigger]
            run::is_due(trace[n], ev) && run::handles(trace[n], ev, trace[n + 1], waiting);
        lemma_handles_exchanged(f, g, trace[n], ev, trace[n + 1], waiting);
        assert(run::is_due(other[n], ev));
    }
    assert(trace[trace.len() - 1].state.wf());
    lemma_ends_exchanged(f, g, trace.last(), post, waiting, r);
    let (first, start) = (trace[0].state, exchanged(pre, f, g));
    assert(run::refreshed(start, other[0].state)) by {
        assert(other[0].state == BacktestState { evs: other[0].state.evs, ..start });
        assert forall|i: int| #![trigger other[0].state.evs[i]] 0 <= i < start.evs.len() implies {
            &&& sends_at(&start.local[i], other[0].state.evs[i].exch_order)
            &&& receives_at(&start.local[i], other[0].state.evs[i].local_order)
            &&& other[0].state.evs[i].local_data == start.evs[i].local_data
            &&& other[0].state.evs[i].exch_data == start.evs[i].exch_data
        } by {
            assert(stands_in(pre.local[i], f(pre.local[i])));
            assert(sends_at(&pre.local[i], first.evs[i].exch_order));
            assert(receives_at(&pre.local[i], first.evs[i].local_order));
        }
    }
    assert(run::runs_through(other, start, timestamp, waiting, exchanged(post, f, g), r));
}

/// Every state of a run has both sides of every asset.
proof fn lemma_wf_kept<L: Processor, E: Processor>(
    trace: Seq<Moment<L, E>>,
    waiting: Waiting,
    n: int,
)
    requires
        run::is_run(trace, waiting),
        trace[0].state.wf(),
        0 <= n < trace.len(),
    ensures
        trace[n].state.wf(),
    decreases n,
{
    if n > 0 {
        lemma_wf_kept(trace, waiting, n - 1);
        assert(run::advances_at(trace, n - 1, waiting));
    }
}

/// An event is handled alike by processors that stand in.
proof fn lemma_handles_exchanged<L: Processor, E: Processor, M: Processor, F: Processor>(
    f: spec_fn(L) -> M,
    g: spec_fn(E) -> F,
    pre: Moment<L, E>,
    ev: EventIntent,
    post: Moment<L, E>,
    waiting: Waiting,
)
    requires
        forall|a: L| stands_in(a, #[trigger] f(a)),
        forall|a: E| stands_in(a, #[trigger] g(a)),
        pre.state.wf(),
        ev.asset_no < pre.state.evs.len(),
        run::handles(pre, ev, post, waiting),
    ensures
        run::handles(
            moment_exchanged(pre, f, g),
            ev,
            moment_exchanged(post, f, g),
            waiting,
        ),
{
    let (pre2, post2) = (moment_exchanged(pre, f, g), moment_exchanged(post, f, g));
    let i = ev.asset_no as int;
    lemma_update_exchanged(pre.state.local, i, post.state.local[i], f);
    lemma_update_exchanged(pre.state.exch, i, post.state.exch[i], g);
    match ev.kind {
        EventIntentKind::LocalData => {
            let r = choose|r: Result<(i64, i64), BacktestError>|
                run::handles_local_data(pre, ev, post, waiting, r);
            assert(run::handles_local_data(pre2, ev, post2, waiting, r));
        },
        EventIntentKind::LocalOrder => {
            let (done, next_ts) = choose|done: bool, next_ts: i64|
                run::handles_local_order(pre, ev, post, waiting, done, next_ts);
            assert(receives_at(&post.state.local[i], next_ts));
            assert(run::handles_local_order(pre2, ev, post2, waiting, done, next_ts));
        },
        EventIntentKind::ExchData => {
            let (r, next_ts) = choose|r: Result<(i64, i64), BacktestError>, next_ts: i64|
                run::handles_exch_data(pre, ev, post, r, next_ts);
            assert(sends_at(&post.state.exch[i], next_ts));
            assert(run::handles_exch_data(pre2, ev, post2, r, next_ts));
        },
        EventIntentKind::ExchOrder => {
            let (done, next_ts) = choose|done: bool, next_ts: i64|
                run::handles_exch_order(pre, ev, post, done, next_ts);
            assert(receives_at(&post.state.exch[i], next_ts));
            assert(run::handles_exch_order(pre2, ev, post2, done, next_ts));
        },
    }
}

/// A run ends alike with processors that stand in.
proof fn lemma_ends_exchanged<L: Processor, E: Processor, M: Processor, F: Processor>(
    f: spec_fn(L) -> M,
    g: spec_fn(E) -> F,
    last: Moment<L, E>,
    post: BacktestState<L, E>,
    waiting: Waiting,
    r: Result<bool, BacktestError>,
)
    requires
        forall|a: L| stands_in(a, #[trigger] f(a)),
        forall|a: E| stands_in(a, #[trigger] g(a)),
        last.state.wf(),
        run::ends(last, post, waiting, r),
    ensures
        run::ends(moment_exchanged(last, f, g), exchanged(post, f, g), waiting, r),
{
    if let Err(e) = r {
        let ev = choose|ev: EventIntent| #[trigger]
            run::is_due(last, ev) && run::fails(last, ev, post, waiting, e);
        let i = ev.asset_no as int;
        lemma_update_exchanged(last.state.local, i, post.local[i], f);
        lemma_update_exchanged(last.state.exch, i, post.exch[i], g);
        let other = moment_exchanged(last, f, g);
        assert(run::is_due(other, ev));
        assert(run::fails(other, ev, exchanged(post, f, g), waiting, e));
    }
}

/// One processor of a sequence replaced, before or after all are exchanged.
proof fn lemma_update_exchanged<P, Q>(s: Seq<P>, i: int, p: P, f: spec_fn(P) -> Q)
    requires
        0 <= i < s.len(),
    ensures
        s.update(i, p).map_values(f) == s.map_values(f).update(i, f(p)),
{
    assert(s.update(i, p).map_values(f) =~= s.map_values(f).update(i, f(p)));
}

/// The state with each processor taken out of its box.
pub open spec fn unboxed<L, E>(s: BacktestState<Box<L>, Box<E>>) -> BacktestState<L, E> {
    exchanged(s, |l: Box<L>| *l, |e: Box<E>| *e)
}

/// What a backtester does with its processors in boxes, it can do with the processors as they are.
pub proof fn boxes_make_no_difference<L: Processor, E: Processor>(
    pre: BacktestState<Box<L>, Box<E>>,
    timestamp: i64,
    waiting: Waiting,
    post: BacktestState<Box<L>, Box<E>>,
    r: Result<bool, BacktestError>,
)
    requires
        pre.wf(),
        run::goes_to(pre, timestamp, waiting, post, r),
    ensures
        run::goes_to(unboxed(pre), timestamp, waiting, unboxed(post), r),
{
    processors_that_stand_in_run_alike(
        |l: Box<L>| *l,
        |e: Box<E>| *e,
        pre,
        timestamp,
        waiting,
        post,
        r,
    );
}

} // verus!
