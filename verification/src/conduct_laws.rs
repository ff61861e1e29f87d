//! What a run does, told by the times that are pending, the calls that the processors get, and what
//! they answer.

use vstd::prelude::*;

use crate::evs;
use crate::evs::{AssetEvents, EventIntent, EventIntentKind};
use crate::laws;
use crate::proc::{Processor, ProcessorCall};
use crate::run;
use crate::run::{BacktestState, Moment, Waiting};
use crate::types::{BacktestError, WAIT_ORDER_RESPONSE_NONE};

verus! {

/// Nothing is pending before `t`.
pub open spec fn pending_from(evs: Seq<AssetEvents>, t: i64) -> bool {
    forall|a: int|
        #![trigger evs[a]]
        0 <= a < evs.len() ==> {
            &&& t <= evs[a].local_data
            &&& t <= evs[a].local_order
            &&& t <= evs[a].exch_data
            &&& t <= evs[a].exch_order
        }
}

/// Nothing is pending at `t` or before for the assets before `i`.
pub open spec fn idle_until(evs: Seq<AssetEvents>, i: int, t: i64) -> bool {
    forall|a: int|
        #![trigger evs[a]]
        0 <= a < i && a < evs.len() ==> {
            &&& t < evs[a].local_data
            &&& t < evs[a].local_order
            &&& t < evs[a].exch_data
            &&& t < evs[a].exch_order
        }
}

/// Something is pending.
pub open spec fn some_pending(evs: Seq<AssetEvents>) -> bool {
    exists|a: int|
        #![trigger evs[a]]
        0 <= a < evs.len() && {
            ||| evs[a].local_data < i64::MAX
            ||| evs[a].local_order < i64::MAX
            ||| evs[a].exch_data < i64::MAX
            ||| evs[a].exch_order < i64::MAX
        }
}

/// What is pending for the asset `i` at `t` is the earliest of all, and the first of the earliest.
pub open spec fn is_turn_of(evs: Seq<AssetEvents>, i: int, t: i64) -> bool {
    &&& 0 <= i < evs.len()
    &&& t < i64::MAX
    &&& pending_from(evs, t)
    &&& idle_until(evs, i, t)
}

/// The clock and all other assets are as they were.
pub open spec fn only_asset_touched<L, E>(
    s: BacktestState<L, E>,
    i: int,
    s2: BacktestState<L, E>,
) -> bool {
    &&& s2.cur_ts == s.cur_ts
    &&& s2.evs.len() == s.evs.len()
    &&& s2.local.len() == s.local.len()
    &&& s2.exch.len() == s.exch.len()
    &&& forall|j: int|
        #![trigger s2.evs[j]]
        #![trigger s2.local[j]]
        #![trigger s2.exch[j]]
        0 <= j < s.evs.len() && j != i ==> {
            &&& s2.evs[j] == s.evs[j]
            &&& s2.local[j] == s.local[j]
            &&& s2.exch[j] == s.exch[j]
        }
}

/// `t` is when the next data is due after this answer: never, at the end of the data.
pub open spec fn tells_next(result: Result<(i64, i64), BacktestError>, t: i64) -> bool {
    match result {
        Ok((next, _)) => t == next,
        Err(BacktestError::EndOfData) => t == i64::MAX,
        Err(_) => false,
    }
}

/// The local side of the asset `i` processes its data, and nobody else does anything.
pub open spec fn local_data_served<L: Processor, E: Processor>(
    s: BacktestState<L, E>,
    i: int,
    s2: BacktestState<L, E>,
    result: Result<(i64, i64), BacktestError>,
) -> bool {
    &&& is_turn_of(s.evs, i, s.evs[i].local_data)
    &&& s2.local[i].calls() == s.local[i].calls().push(ProcessorCall::ProcessData { result })
    &&& tells_next(result, s2.evs[i].local_data)
    &&& s2.evs[i].local_order == s.evs[i].local_order
    &&& s2.evs[i].exch_data == s.evs[i].exch_data
    &&& s2.evs[i].exch_order == s.evs[i].exch_order
    &&& s2.exch[i] == s.exch[i]
    &&& only_asset_touched(s, i, s2)
}

/// The local side of the asset `i` gets the response that is pending, and is told to look out for
/// the order `id`. Nobody else does anything.
pub open spec fn local_order_served<L: Processor, E: Processor>(
    s: BacktestState<L, E>,
    i: int,
    s2: BacktestState<L, E>,
    id: i64,
    done: bool,
) -> bool {
    let t = s.evs[i].local_order;
    &&& is_turn_of(s.evs, i, t)
    &&& t < s.evs[i].local_data
    &&& s2.local[i].calls() == s.local[i].calls().push(
        ProcessorCall::ProcessRecvOrder {
            timestamp: t,
            wait_resp_order_id: id,
            result: Ok(done),
        },
    )
    &&& call_ensures(
        L::earliest_recv_order_timestamp,
        (&s2.local[i],),
        s2.evs[i].local_order,
    )
    &&& s2.evs[i].local_data == s.evs[i].local_data
    &&& s2.evs[i].exch_data == s.evs[i].exch_data
    &&& s2.evs[i].exch_order == s.evs[i].exch_order
    &&& s2.exch[i] == s.exch[i]
    &&& only_asset_touched(s, i, s2)
}

/// The exchange side of the asset `i` processes its data, and nobody else does anything. The next
/// response is pending when the exchange side says.
pub open spec fn exch_data_served<L: Processor, E: Processor>(
    s: BacktestState<L, E>,
    i: int,
    s2: BacktestState<L, E>,
    result: Result<(i64, i64), BacktestError>,
) -> bool {
    let t = s.evs[i].exch_data;
    &&& is_turn_of(s.evs, i, t)
    &&& t < s.evs[i].local_data
    &&& t < s.evs[i].local_order
    &&& s2.exch[i].calls() == s.exch[i].calls().push(ProcessorCall::ProcessData { result })
    &&& tells_next(result, s2.evs[i].exch_data)
    &&& call_ensures(
        E::earliest_send_order_timestamp,
        (&s2.exch[i],),
        s2.evs[i].local_order,
    )
    &&& s2.evs[i].local_data == s.evs[i].local_data
    &&& s2.evs[i].exch_order == s.evs[i].exch_order
    &&& s2.local[i] == s.local[i]
    &&& only_asset_touched(s, i, s2)
}

/// The exchange side of the asset `i` gets the order that is pending, and is told to look out for
/// none. Nobody else does anything.
pub open spec fn exch_order_served<L: Processor, E: Processor>(
    s: BacktestState<L, E>,
    i: int,
    s2: BacktestState<L, E>,
    done: bool,
) -> bool {
    let t = s.evs[i].exch_order;
    &&& is_turn_of(s.evs, i, t)
    &&& t < s.evs[i].local_data
    &&& t < s.evs[i].local_order
    &&& t < s.evs[i].exch_data
    &&& s2.exch[i].calls() == s.exch[i].calls().push(
        ProcessorCall::ProcessRecvOrder {
            timestamp: t,
            wait_resp_order_id: WAIT_ORDER_RESPONSE_NONE,
            result: Ok(done),
        },
    )
    &&& call_ensures(
        E::earliest_recv_order_timestamp,
        (&s2.exch[i],),
        s2.evs[i].exch_order,
    )
    &&& s2.evs[i].local_data == s.evs[i].local_data
    &&& s2.evs[i].local_order == s.evs[i].local_order
    &&& s2.evs[i].exch_data == s.evs[i].exch_data
    &&& s2.local[i] == s.local[i]
    &&& only_asset_touched(s, i, s2)
}

/// One event of a run which, unless it waits for the next feed, waits for the order `id` of the
/// asset `a`: what is pending first is served, if it is not later than the target. What the run
/// waits for moves the target to its own time.
pub open spec fn served<L: Processor, E: Processor>(
    m: Moment<L, E>,
    m2: Moment<L, E>,
    next_feed: bool,
    a: int,
    id: i64,
    include_order_resp: bool,
) -> bool {
    ||| exists|i: int, result: Result<(i64, i64), BacktestError>|
        {
            &&& #[trigger] local_data_served(m.state, i, m2.state, result)
            &&& m.state.evs[i].local_data <= m.target
            &&& next_feed ==> m2.target == m.state.evs[i].local_data
            &&& !next_feed ==> m2.target == m.target
        }
    ||| exists|i: int, look_out: i64, done: bool|
        {
            &&& #[trigger] local_order_served(m.state, i, m2.state, look_out, done)
            &&& m.state.evs[i].local_order <= m.target
            &&& !next_feed && i == a ==> look_out == id
            &&& next_feed || i != a ==> look_out == WAIT_ORDER_RESPONSE_NONE
            &&& done || (next_feed && include_order_resp) ==> m2.target
                == m.state.evs[i].local_order
            &&& !done && !(next_feed && include_order_resp) ==> m2.target == m.target
        }
    ||| exists|i: int, result: Result<(i64, i64), BacktestError>|
        {
            &&& #[trigger] exch_data_served(m.state, i, m2.state, result)
            &&& m.state.evs[i].exch_data <= m.target
            &&& m2.target == m.target
        }
    ||| exists|i: int, done: bool|
        {
            &&& #[trigger] exch_order_served(m.state, i, m2.state, done)
            &&& m.state.evs[i].exch_order <= m.target
            &&& m2.target == m.target
        }
}

/// A processor gets its one call of the event, which fails with `e`.
pub open spec fn call_fails<P: Processor>(
    p: P,
    p2: P,
    data: bool,
    t: i64,
    id: i64,
    e: BacktestError,
) -> bool {
    if data {
        &&& e != BacktestError::EndOfData
        &&& p2.calls() == p.calls().push(ProcessorCall::ProcessData { result: Err(e) })
    } else {
        p2.calls() == p.calls().push(
            ProcessorCall::ProcessRecvOrder {
                timestamp: t,
                wait_resp_order_id: id,
                result: Err(e),
            },
        )
    }
}

/// The local side of the asset `i`, whose turn it is, fails with `e`. The clock and what is pending
/// stay.
pub open spec fn local_fails<L: Processor, E: Processor>(
    m: Moment<L, E>,
    i: int,
    post: BacktestState<L, E>,
    data: bool,
    look_out: i64,
    e: BacktestError,
) -> bool {
    let asset = m.state.evs[i];
    let t = if data {
        asset.local_data
    } else {
        asset.local_order
    };
    &&& is_turn_of(m.state.evs, i, t)
    &&& t <= m.target
    &&& !data ==> t < asset.local_data
    &&& call_fails(m.state.local[i], post.local[i], data, t, look_out, e)
    &&& post.evs == m.state.evs
    &&& post.exch[i] == m.state.exch[i]
    &&& only_asset_touched(m.state, i, post)
}

/// The exchange side of the asset `i`, whose turn it is, fails with `e`. The clock and what is
/// pending stay.
pub open spec fn exch_fails<L: Processor, E: Processor>(
    m: Moment<L, E>,
    i: int,
    post: BacktestState<L, E>,
    data: bool,
    e: BacktestError,
) -> bool {
    let asset = m.state.evs[i];
    let t = if data {
        asset.exch_data
    } else {
        asset.exch_order
    };
    &&& is_turn_of(m.state.evs, i, t)
    &&& t <= m.target
    &&& t < asset.local_data
    &&& t < asset.local_order
    &&& !data ==> t < asset.exch_data
    &&& call_fails(m.state.exch[i], post.exch[i], data, t, WAIT_ORDER_RESPONSE_NONE, e)
    &&& post.evs == m.state.evs
    &&& post.local[i] == m.state.local[i]
    &&& only_asset_touched(m.state, i, post)
}

/// How a run ends.
/// - With true, when something is pending, but all of it later than the target: the clock is then
///   set to the target.
/// - With false, when nothing is pending.
/// - With the error of the processor whose turn it is.
pub open spec fn concluded<L: Processor, E: Processor>(
    last: Moment<L, E>,
    next_feed: bool,
    a: int,
    id: i64,
    post: BacktestState<L, E>,
    r: Result<bool, BacktestError>,
) -> bool {
    match r {
        Ok(more) => {
            &&& post.evs == last.state.evs
            &&& post.local == last.state.local
            &&& post.exch == last.state.exch
            &&& more <==> some_pending(last.state.evs)
            &&& more ==> post.cur_ts == last.target && post.cur_ts < i64::MAX && pending_from(
                last.state.evs,
                (last.target + 1) as i64,
            )
            &&& !more ==> post.cur_ts == last.state.cur_ts
        },
        Err(e) => {
            ||| exists|i: int, data: bool, look_out: i64|
                {
                    &&& #[trigger] local_fails(last, i, post, data, look_out, e)
                    &&& !next_feed && i == a ==> look_out == id
                    &&& next_feed || i != a ==> look_out == WAIT_ORDER_RESPONSE_NONE
                }
            ||| exists|i: int, data: bool| #[trigger] exch_fails(last, i, post, data, e)
        },
    }
}

/// The state from which a run sets out: the times of pending orders and responses are what the
/// local sides say, and all else is as it was.
pub open spec fn set_out<L: Processor, E: Processor>(
    pre: BacktestState<L, E>,
    first: BacktestState<L, E>,
) -> bool {
    &&& first.cur_ts == pre.cur_ts
    &&& first.local == pre.local
    &&& first.exch == pre.exch
    &&& first.evs.len() == pre.evs.len()
    &&& forall|i: int|
        #![trigger first.evs[i]]
        0 <= i < pre.evs.len() ==> {
            &&& first.evs[i].local_data == pre.evs[i].local_data
            &&& first.evs[i].exch_data == pre.evs[i].exch_data
            &&& call_ensures(
                L::earliest_send_order_timestamp,
                (&pre.local[i],),
                first.evs[i].exch_order,
            )
            &&& call_ensures(
                L::earliest_recv_order_timestamp,
                (&pre.local[i],),
                first.evs[i].local_order,
            )
        }
}

/// With the event after the first `n`, what is pending first is served.
pub open spec fn served_at<L: Processor, E: Processor>(
    trace: Seq<Moment<L, E>>,
    n: int,
    next_feed: bool,
    a: int,
    id: i64,
    include_order_resp: bool,
) -> bool {
    served(trace[n], trace[n + 1], next_feed, a, id, include_order_resp)
}

/// A run up to `timestamp` with these moments, from `pre` to `post`.
pub open spec fn conducted_through<L: Processor, E: Processor>(
    trace: Seq<Moment<L, E>>,
    pre: BacktestState<L, E>,
    timestamp: i64,
    next_feed: bool,
    a: int,
    id: i64,
    include_order_resp: bool,
    post: BacktestState<L, E>,
    r: Result<bool, BacktestError>,
) -> bool {
    &&& trace.len() > 0
    &&& set_out(pre, trace[0].state)
    &&& trace[0].target == timestamp
    &&& forall|n: int|
        0 <= n < trace.len() - 1 ==> #[trigger] served_at(
            trace,
            n,
            next_feed,
            a,
            id,
            include_order_resp,
        )
    &&& concluded(trace.last(), next_feed, a, id, post, r)
}

/// A run up to `timestamp`, from `pre` to `post`.
pub open spec fn conducted<L: Processor, E: Processor>(
    pre: BacktestState<L, E>,
    timestamp: i64,
    next_feed: bool,
    a: int,
    id: i64,
    include_order_resp: bool,
    post: BacktestState<L, E>,
    r: Result<bool, BacktestError>,
) -> bool {
    exists|trace: Seq<Moment<L, E>>|
        conducted_through(
            trace,
            pre,
            timestamp,
            next_feed,
            a,
            id,
            include_order_resp,
            post,
            r,
        )
}

/// The next event is the one whose turn it is.
pub(crate) proof fn lemma_turn(evs: Seq<AssetEvents>, ev: EventIntent)
    requires
        evs::is_next_event(evs, ev),
    ensures
        is_turn_of(evs, ev.asset_no as int, ev.timestamp),
        ({
            let asset = evs[ev.asset_no as int];
            match ev.kind {
                EventIntentKind::LocalData => ev.timestamp == asset.local_data,
                EventIntentKind::LocalOrder => {
                    &&& ev.timestamp == asset.local_order
                    &&& ev.timestamp < asset.local_data
                },
                EventIntentKind::ExchData => {
                    &&& ev.timestamp == asset.exch_data
                    &&& ev.timestamp < asset.local_data
                    &&& ev.timestamp < asset.local_order
                },
                EventIntentKind::ExchOrder => {
                    &&& ev.timestamp == asset.exch_order
                    &&& ev.timestamp < asset.local_data
                    &&& ev.timestamp < asset.local_order
                    &&& ev.timestamp < asset.exch_data
                },
            }
        }),
{
    let i = ev.asset_no as int;
    assert forall|a: int| #![trigger evs[a]] 0 <= a < evs.len() implies {
        &&& ev.timestamp <= evs[a].local_data
        &&& ev.timestamp <= evs[a].local_order
        &&& ev.timestamp <= evs[a].exch_data
        &&& ev.timestamp <= evs[a].exch_order
        &&& a < i ==> ev.timestamp < evs[a].local_data
        &&& a < i ==> ev.timestamp < evs[a].local_order
        &&& a < i ==> ev.timestamp < evs[a].exch_data
        &&& a < i ==> ev.timestamp < evs[a].exch_order
    } by {
        assert(ev.timestamp <= evs[a].at(EventIntentKind::LocalData));
        assert(ev.timestamp <= evs[a].at(EventIntentKind::LocalOrder));
        assert(ev.timestamp <= evs[a].at(EventIntentKind::ExchData));
        assert(ev.timestamp <= evs[a].at(EventIntentKind::ExchOrder));
    }
    assert(evs[i].at(EventIntentKind::LocalData) == evs[i].local_data);
    assert(evs[i].at(EventIntentKind::LocalOrder) == evs[i].local_order);
    assert(evs[i].at(EventIntentKind::ExchData) == evs[i].exch_data);
}

/// An event of a run serves what is pending first.
pub(crate) proof fn lemma_served<L: Processor, E: Processor>(
    m: Moment<L, E>,
    m2: Moment<L, E>,
    waiting: Waiting,
)
    requires
        run::advances(m, m2, waiting),
        m.state.wf(),
    ensures
        served(
            m,
            m2,
            waiting.next_feed,
            waiting.order_response.0 as int,
            waiting.order_response.1,
            waiting.include_order_resp,
        ),
{
    let ev = choose|ev: EventIntent| #[trigger]
        run::is_due(m, ev) && run::handles(m, ev, m2, waiting);
    lemma_turn(m.state.evs, ev);
    let i = ev.asset_no as int;
    match ev.kind {
        EventIntentKind::LocalData => {
            let result = choose|r: Result<(i64, i64), BacktestError>|
                run::handles_local_data(m, ev, m2, waiting, r);
            assert(local_data_served(m.state, i, m2.state, result));
        },
        EventIntentKind::LocalOrder => {
            let (done, next_ts) = choose|done: bool, next_ts: i64|
                run::handles_local_order(m, ev, m2, waiting, done, next_ts);
            let look_out = run::response_id(waiting, i);
            assert(local_order_served(m.state, i, m2.state, look_out, done));
        },
        EventIntentKind::ExchData => {
            let (result, next_ts) = choose|r: Result<(i64, i64), BacktestError>, next_ts: i64|
                run::handles_exch_data(m, ev, m2, r, next_ts);
            assert(exch_data_served(m.state, i, m2.state, result));
        },
        EventIntentKind::ExchOrder => {
            let (done, next_ts) = choose|done: bool, next_ts: i64|
                run::handles_exch_order(m, ev, m2, done, next_ts);
            assert(exch_order_served(m.state, i, m2.state, done));
        },
    }
}

/// The end of a run.
proof fn lemma_concluded<L: Processor, E: Processor>(
    last: Moment<L, E>,
    waiting: Waiting,
    post: BacktestState<L, E>,
    r: Result<bool, BacktestError>,
)
    requires
        last.state.wf(),
        run::ends(last, post, waiting, r),
    ensures
        concluded(
            last,
            waiting.next_feed,
            waiting.order_response.0 as int,
            waiting.order_response.1,
            post,
            r,
        ),
{
    let evs = last.state.evs;
    match r {
        Ok(true) => {
            let ev = choose|ev: EventIntent| #[trigger]
                evs::is_next_event(evs, ev) && ev.timestamp > last.target;
            lemma_turn(evs, ev);
            let asset = evs[ev.asset_no as int];
            assert(some_pending(evs));
        },
        Ok(false) => {
            assert forall|a: int| #![trigger evs[a]] 0 <= a < evs.len() implies {
                &&& evs[a].local_data == i64::MAX
                &&& evs[a].local_order == i64::MAX
                &&& evs[a].exch_data == i64::MAX
                &&& evs[a].exch_order == i64::MAX
            } by {
                assert(evs[a].at(EventIntentKind::LocalData) == i64::MAX);
                assert(evs[a].at(EventIntentKind::LocalOrder) == i64::MAX);
                assert(evs[a].at(EventIntentKind::ExchData) == i64::MAX);
                assert(evs[a].at(EventIntentKind::ExchOrder) == i64::MAX);
            }
        },
        Err(e) => {
            let ev = choose|ev: EventIntent| #[trigger]
                run::is_due(last, ev) && run::fails(last, ev, post, waiting, e);
            lemma_turn(evs, ev);
            let i = ev.asset_no as int;
            let look_out = run::response_id(waiting, i);
            match ev.kind {
                EventIntentKind::LocalData => {
                    assert(local_fails(last, i, post, true, look_out, e));
                },
                EventIntentKind::LocalOrder => {
                    assert(local_fails(last, i, post, false, look_out, e));
                },
                EventIntentKind::ExchData => {
                    assert(exch_fails(last, i, post, true, e));
                },
                EventIntentKind::ExchOrder => {
                    assert(exch_fails(last, i, post, false, e));
                },
            }
        },
    }
}

/// A run serves what is pending one by one, the earliest first and at the same time the asset with
/// the lower number first, and of one asset the local data, the response, the exchange's data and
/// the order in this sequence. Each event is one call to one processor, and what the processor
/// answers or then reports is what is pending for it next.
pub proof fn a_run_serves_what_is_pending<L: Processor, E: Processor>(
    pre: BacktestState<L, E>,
    timestamp: i64,
    waiting: Waiting,
    post: BacktestState<L, E>,
    r: Result<bool, BacktestError>,
)
    requires
        pre.wf(),
        run::goes_to(pre, timestamp, waiting, post, r),
    ensures
        conducted(
            pre,
            timestamp,
            waiting.next_feed,
            waiting.order_response.0 as int,
            waiting.order_response.1,
            waiting.include_order_resp,
            post,
            r,
        ),
{
    let trace = choose|trace: Seq<Moment<L, E>>|
        run::runs_through(trace, pre, timestamp, waiting, post, r);
    let (a, id) = (waiting.order_response.0 as int, waiting.order_response.1);
    let first = trace[0].state;
    assert(set_out(pre, first)) by {
        assert forall|i: int| #![trigger first.evs[i]] 0 <= i < pre.evs.len() implies {
            &&& first.evs[i].local_data == pre.evs[i].local_data
            &&& first.evs[i].exch_data == pre.evs[i].exch_data
            &&& call_ensures(
                L::earliest_send_order_timestamp,
                (&pre.local[i],),
                first.evs[i].exch_order,
            )
            &&& call_ensures(
                L::earliest_recv_order_timestamp,
                (&pre.local[i],),
                first.evs[i].local_order,
            )
        } by {}
    }
    assert forall|n: int| 0 <= n < trace.len() - 1 implies #[trigger] served_at(
        trace,
        n,
        waiting.next_feed,
        a,
        id,
        waiting.include_order_resp,
    ) by {
        laws::lemma_run(trace, n, waiting);
        assert(run::advances_at(trace, n, waiting));
        lemma_served(trace[n], trace[n + 1], waiting);
    }
    laws::lemma_run(trace, trace.len() - 1, waiting);
    lemma_concluded(trace.last(), waiting, post, r);
    assert(conducted_through(
        trace,
        pre,
        timestamp,
        waiting.next_feed,
        a,
        id,
        waiting.include_order_resp,
        post,
        r,
    ));
}

} // verus!
