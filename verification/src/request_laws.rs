//! What starting a backtester and the strategy's requests do, told by the calls that the processors
//! get, what they answer, and what is pending.

use std::collections::HashMap;

use vstd::prelude::*;

use crate::conduct_laws;
use crate::conduct_laws::{conducted, only_asset_touched, pending_from, some_pending};
use crate::depth::MarketDepth;
use crate::evs;
use crate::evs::{EventIntent, EventIntentKind};
use crate::proc::{Account, LocalCall, LocalProcessor, Processor, ProcessorCall};
use crate::requests;
use crate::run;
use crate::run::{BacktestState, Waiting};
use crate::types::BacktestError;
use crate::wait_laws;

verus! {

/// The local side of the asset `a` gets the call on the strategy's behalf, and nothing else
/// changes.
pub open spec fn handed_over<
    MD: MarketDepth,
    EventT,
    A: Account,
    L: LocalProcessor<MD, EventT, A>,
    E: Processor,
>(
    s: BacktestState<L, E>,
    a: int,
    call: LocalCall<MD::Num>,
    s2: BacktestState<L, E>,
) -> bool {
    &&& s2.local[a].requests() == s.local[a].requests().push(call)
    &&& s2.local[a].calls() == s.local[a].calls()
    &&& s2.cur_ts == s.cur_ts
    &&& s2.evs == s.evs
    &&& s2.exch == s.exch
    &&& s2.local.len() == s.local.len()
    &&& forall|j: int|
        #![trigger s2.local[j]]
        0 <= j < s.local.len() && j != a ==> s2.local[j] == s.local[j]
}

/// What is pending for the exchange side of the asset `a` is what its local side says was sent, if
/// that is noted. Nothing else changes.
pub open spec fn sending_noted<L: Processor, E: Processor>(
    s: BacktestState<L, E>,
    a: int,
    noted: bool,
    s2: BacktestState<L, E>,
) -> bool {
    if noted {
        &&& call_ensures(
            L::earliest_send_order_timestamp,
            (&s.local[a],),
            s2.evs[a].exch_order,
        )
        &&& s2.evs[a].local_data == s.evs[a].local_data
        &&& s2.evs[a].local_order == s.evs[a].local_order
        &&& s2.evs[a].exch_data == s.evs[a].exch_data
        &&& s2.local == s.local
        &&& s2.exch == s.exch
        &&& only_asset_touched(s, a, s2)
    } else {
        s2 == s
    }
}

/// What follows a request for the order `id` of the asset `a`, to which the local side answered
/// this: an error is returned, and nothing is done. Otherwise the backtester is done, or runs until
/// the response to the order, however long that takes.
pub open spec fn followed_up<L: Processor, E: Processor>(
    s: BacktestState<L, E>,
    answer: Result<(), BacktestError>,
    a: int,
    id: i64,
    wait: bool,
    noted: bool,
    post: BacktestState<L, E>,
    r: Result<bool, BacktestError>,
) -> bool {
    match answer {
        Err(e) => r == Err::<bool, BacktestError>(e) && post == s,
        Ok(()) => exists|sent: BacktestState<L, E>|
            {
                &&& #[trigger] sending_noted(s, a, noted, sent)
                &&& !wait ==> r == Ok::<bool, BacktestError>(true) && post == sent
                &&& wait ==> conducted(sent, i64::MAX, false, a, id, false, post, r)
            },
    }
}

/// The backtester hands the call for the order `id` to the local side of the asset `a`, and follows
/// it up.
pub open spec fn done_for_the_strategy<
    MD: MarketDepth,
    EventT,
    A: Account,
    L: LocalProcessor<MD, EventT, A>,
    E: Processor,
>(
    pre: BacktestState<L, E>,
    a: int,
    id: i64,
    call: spec_fn(Result<(), BacktestError>) -> LocalCall<MD::Num>,
    wait: bool,
    noted: bool,
    post: BacktestState<L, E>,
    r: Result<bool, BacktestError>,
) -> bool {
    exists|mid: BacktestState<L, E>, answer: Result<(), BacktestError>|
        {
            &&& handed_over::<MD, EventT, A, L, E>(pre, a, call(answer), mid)
            &&& #[trigger] followed_up(mid, answer, a, id, wait, noted, post, r)
        }
}

/// During a request that waits for the order `id` of the asset `a`, the local side of this asset is
/// told to look out for `id`, and nobody else to look out for any order. If the request returns
/// true, the clock is at the earliest time at which a local side found the response.
pub open spec fn waited_for_the_order<L: Processor, E: Processor>(
    pre: BacktestState<L, E>,
    a: int,
    id: i64,
    post: BacktestState<L, E>,
    r: Result<bool, BacktestError>,
) -> bool {
    &&& wait_laws::only_this_is_looked_out_for(pre, a, id, i64::MAX, post)
    &&& r == Ok::<bool, BacktestError>(true) ==> wait_laws::clock_is_first_of(pre, i64::MAX, post)
        && post.cur_ts < i64::MAX && some_pending(post.evs)
    &&& r == Ok::<bool, BacktestError>(false) ==> !some_pending(post.evs) && post.cur_ts
        == pre.cur_ts
}

/// A request does what `done_for_the_strategy` tells, step by step.
pub proof fn a_request_is_handed_over_and_followed_up<
    MD: MarketDepth,
    EventT,
    A: Account,
    L: LocalProcessor<MD, EventT, A>,
    E: Processor,
>(
    pre: BacktestState<L, E>,
    asset_no: usize,
    order_id: i64,
    call: spec_fn(Result<(), BacktestError>) -> LocalCall<MD::Num>,
    wait: bool,
    noted: bool,
    post: BacktestState<L, E>,
    r: Result<bool, BacktestError>,
)
    requires
        pre.wf(),
        asset_no < pre.local.len(),
        requests::carried_out::<MD, EventT, A, L, E>(
            pre,
            asset_no,
            order_id,
            call,
            wait,
            noted,
            post,
            r,
        ),
    ensures
        done_for_the_strategy::<MD, EventT, A, L, E>(
            pre,
            asset_no as int,
            order_id,
            call,
            wait,
            noted,
            post,
            r,
        ),
{
    let a = asset_no as int;
    let (mid, answer) = choose|mid: BacktestState<L, E>, outcome: Result<(), BacktestError>|
        {
            &&& requests::requested_at::<MD, EventT, A, L, E>(pre, asset_no, call(outcome), mid)
            &&& #[trigger] requests::answered(
                mid,
                outcome,
                asset_no,
                order_id,
                wait,
                noted,
                post,
                r,
            )
        };
    assert(handed_over::<MD, EventT, A, L, E>(pre, a, call(answer), mid));
    if answer is Ok {
        let sent = if noted {
            choose|sent: BacktestState<L, E>| #[trigger]
                requests::dispatch_noted(mid, asset_no, sent) && requests::awaits(
                    sent,
                    asset_no,
                    order_id,
                    wait,
                    post,
                    r,
                )
        } else {
            mid
        };
        assert(requests::awaits(sent, asset_no, order_id, wait, post, r));
        assert(sending_noted(mid, a, noted, sent));
        if wait {
            let waiting = Waiting::of(false, (asset_no, order_id), false);
            conduct_laws::a_run_serves_what_is_pending(sent, i64::MAX, waiting, post, r);
        }
    }
    assert(followed_up(mid, answer, a, order_id, wait, noted, post, r));
}

/// A request for the order `id` of an asset that waits, and is not refused, waits for this order of
/// this asset.
pub proof fn a_waiting_request_waits_for_its_own_order<
    MD: MarketDepth,
    EventT,
    A: Account,
    L: LocalProcessor<MD, EventT, A>,
    E: Processor,
>(
    pre: BacktestState<L, E>,
    asset_no: usize,
    order_id: i64,
    call: spec_fn(Result<(), BacktestError>) -> LocalCall<MD::Num>,
    noted: bool,
    post: BacktestState<L, E>,
    r: Result<bool, BacktestError>,
)
    requires
        pre.wf(),
        asset_no < pre.local.len(),
        requests::carried_out::<MD, EventT, A, L, E>(
            pre,
            asset_no,
            order_id,
            call,
            true,
            noted,
            post,
            r,
        ),
    ensures
        waited_for_the_order(pre, asset_no as int, order_id, post, r),
{
    let a = asset_no as int;
    let (mid, answer) = choose|mid: BacktestState<L, E>, outcome: Result<(), BacktestError>|
        {
            &&& requests::requested_at::<MD, EventT, A, L, E>(pre, asset_no, call(outcome), mid)
            &&& #[trigger] requests::answered(
                mid,
                outcome,
                asset_no,
                order_id,
                true,
                noted,
                post,
                r,
            )
        };
    if answer is Ok {
        let sent = if noted {
            choose|sent: BacktestState<L, E>| #[trigger]
                requests::dispatch_noted(mid, asset_no, sent) && requests::awaits(
                    sent,
                    asset_no,
                    order_id,
                    true,
                    post,
                    r,
                )
        } else {
            mid
        };
        assert(requests::awaits(sent, asset_no, order_id, true, post, r));
        let waiting = Waiting::of(false, (asset_no, order_id), false);
        wait_laws::a_wait_for_a_response_looks_out_for_it_alone(
            sent,
            i64::MAX,
            asset_no,
            order_id,
            false,
            post,
            r,
        );
        lemma_looks_out_from(pre, sent, a, order_id, post);
        conduct_laws::a_run_serves_what_is_pending(sent, i64::MAX, waiting, post, r);
        lemma_run_result(sent, i64::MAX, waiting, post, r);
        if r == Ok::<bool, BacktestError>(true) {
            wait_laws::the_clock_is_at_the_first_response(
                sent,
                i64::MAX,
                (asset_no, order_id),
                false,
                post,
            );
            lemma_found_from(pre, sent, post);
        }
    } else {
        assert(post.local[a].calls() == pre.local[a].calls());
        assert forall|i: int| #![trigger post.local[i]] 0 <= i < pre.local.len() implies {
            post.local[i].calls() == pre.local[i].calls()
        } by {}
    }
}

/// How a run ends with true or false.
pub(crate) proof fn lemma_run_result<L: Processor, E: Processor>(
    pre: BacktestState<L, E>,
    timestamp: i64,
    waiting: Waiting,
    post: BacktestState<L, E>,
    r: Result<bool, BacktestError>,
)
    requires
        pre.wf(),
        run::goes_to(pre, timestamp, waiting, post, r),
    ensures
        r == Ok::<bool, BacktestError>(true) ==> post.cur_ts < i64::MAX && some_pending(post.evs),
        r == Ok::<bool, BacktestError>(false) ==> !some_pending(post.evs),
        r != Ok::<bool, BacktestError>(true) ==> post.cur_ts == pre.cur_ts,
{
    conduct_laws::a_run_serves_what_is_pending(pre, timestamp, waiting, post, r);
    crate::laws::clock_does_not_pass_the_target(pre, timestamp, waiting, post, r);
}

/// The calls of the local sides are as they were.
pub(crate) open spec fn same_calls<L: Processor, E: Processor>(
    s: BacktestState<L, E>,
    t: BacktestState<L, E>,
) -> bool {
    &&& s.local.len() == t.local.len()
    &&& s.exch == t.exch
    &&& forall|i: int|
        #![trigger t.local[i]]
        #![trigger s.local[i]]
        0 <= i < s.local.len() ==> t.local[i].calls() == s.local[i].calls()
}

/// What was looked out for since a state with the same calls.
proof fn lemma_looks_out_from<L: Processor, E: Processor>(
    pre: BacktestState<L, E>,
    sent: BacktestState<L, E>,
    a: int,
    id: i64,
    post: BacktestState<L, E>,
)
    requires
        same_calls(pre, sent),
        wait_laws::only_this_is_looked_out_for(sent, a, id, i64::MAX, post),
    ensures
        wait_laws::only_this_is_looked_out_for(pre, a, id, i64::MAX, post),
{
    assert forall|i: int| #![trigger post.local[i]] 0 <= i < pre.local.len() implies {
        sent.local[i].calls() == pre.local[i].calls()
    } by {}
}

/// What was found since a state with the same calls.
proof fn lemma_found_from<L: Processor, E: Processor>(
    pre: BacktestState<L, E>,
    sent: BacktestState<L, E>,
    post: BacktestState<L, E>,
)
    requires
        same_calls(pre, sent),
        wait_laws::clock_is_first_of(sent, i64::MAX, post),
    ensures
        wait_laws::clock_is_first_of(pre, i64::MAX, post),
{
    assert forall|t: i64| wait_laws::some_found_at(sent, post, t)
        == #[trigger] wait_laws::some_found_at(pre, post, t) by {
        assert forall|i: int| #![trigger post.local[i]] 0 <= i < pre.local.len() implies {
            wait_laws::found_at(pre.local[i], post.local[i], t) == wait_laws::found_at(
                sent.local[i],
                post.local[i],
                t,
            )
        } by {
            assert(sent.local[i].calls() == pre.local[i].calls());
        }
    }
}

/// The processor was asked to prepare its feed, and said that its first data is due at `t`, or that
/// there is none.
pub open spec fn feed_began<P: Processor>(p: P, p2: P, t: i64) -> bool {
    ||| p2.calls() == p.calls().push(ProcessorCall::InitializeData { result: Ok(t) })
    ||| {
        &&& p2.calls() == p.calls().push(
            ProcessorCall::InitializeData { result: Err(BacktestError::EndOfData) },
        )
        &&& t == i64::MAX
    }
}

/// The first `n` local sides have prepared their feeds. The others are as they were, but for the
/// local side `x`, and so is what is pending for them.
pub open spec fn locals_began<L: Processor, E: Processor>(
    pre: BacktestState<L, E>,
    n: int,
    x: int,
    post: BacktestState<L, E>,
) -> bool {
    &&& post.local.len() == pre.local.len()
    &&& forall|i: int|
        #![trigger post.local[i]]
        0 <= i < pre.local.len() && i < n ==> feed_began(
            pre.local[i],
            post.local[i],
            post.evs[i].local_data,
        )
    &&& forall|i: int|
        #![trigger post.local[i]]
        0 <= i < pre.local.len() && i >= n && i != x ==> post.local[i] == pre.local[i]
    &&& forall|i: int|
        #![trigger post.evs[i]]
        0 <= i < pre.local.len() && i >= n ==> post.evs[i].local_data == pre.evs[i].local_data
}

/// The first `m` exchange sides have prepared their feeds. The others are as they were, but for the
/// exchange side `y`, and so is what is pending for them.
pub open spec fn exchs_began<L: Processor, E: Processor>(
    pre: BacktestState<L, E>,
    m: int,
    y: int,
    post: BacktestState<L, E>,
) -> bool {
    &&& post.exch.len() == pre.exch.len()
    &&& forall|i: int|
        #![trigger post.exch[i]]
        0 <= i < pre.exch.len() && i < m ==> feed_began(
            pre.exch[i],
            post.exch[i],
            post.evs[i].exch_data,
        )
    &&& forall|i: int|
        #![trigger post.exch[i]]
        0 <= i < pre.exch.len() && i >= m && i != y ==> post.exch[i] == pre.exch[i]
    &&& forall|i: int|
        #![trigger post.evs[i]]
        0 <= i < pre.exch.len() && i >= m ==> post.evs[i].exch_data == pre.evs[i].exch_data
}

/// The clock, and the times of pending orders and responses, are as they were.
pub open spec fn orders_kept<L, E>(pre: BacktestState<L, E>, post: BacktestState<L, E>) -> bool {
    &&& post.cur_ts == pre.cur_ts
    &&& post.evs.len() == pre.evs.len()
    &&& forall|i: int|
        #![trigger post.evs[i]]
        0 <= i < pre.evs.len() ==> {
            &&& post.evs[i].local_order == pre.evs[i].local_order
            &&& post.evs[i].exch_order == pre.evs[i].exch_order
        }
}

/// The first `n` local sides and the first `m` exchange sides have prepared their feeds, and
/// nothing else changed but the local side `x` and the exchange side `y`.
pub open spec fn feeds_began<L: Processor, E: Processor>(
    pre: BacktestState<L, E>,
    n: int,
    m: int,
    x: int,
    y: int,
    post: BacktestState<L, E>,
) -> bool {
    &&& locals_began(pre, n, x, post)
    &&& exchs_began(pre, m, y, post)
    &&& orders_kept(pre, post)
}

/// The processor was asked to prepare its feed, and failed with `e`.
pub open spec fn feed_failed<P: Processor>(p: P, p2: P, e: BacktestError) -> bool {
    &&& e != BacktestError::EndOfData
    &&& p2.calls() == p.calls().push(ProcessorCall::InitializeData { result: Err(e) })
}

/// How a backtester gets going. One whose clock runs already is left alone. Otherwise every
/// processor is asked once to prepare its feed, the local sides first, until one fails. The clock
/// is set to the earliest time that is pending.
pub open spec fn got_going<L: Processor, E: Processor>(
    pre: BacktestState<L, E>,
    post: BacktestState<L, E>,
    r: Result<bool, BacktestError>,
) -> bool {
    let (n, m) = (pre.local.len() as int, pre.exch.len() as int);
    if pre.cur_ts != i64::MAX {
        r == Ok::<bool, BacktestError>(true) && post == pre
    } else {
        match r {
            Ok(more) => {
                &&& feeds_began(
                    pre,
                    n,
                    m,
                    n,
                    m,
                    BacktestState { cur_ts: i64::MAX, ..post },
                )
                &&& more <==> some_pending(post.evs)
                &&& more ==> post.cur_ts < i64::MAX && pending_from(post.evs, post.cur_ts)
                    && !pending_from(post.evs, (post.cur_ts + 1) as i64)
                &&& !more ==> post.cur_ts == i64::MAX
            },
            Err(e) => {
                ||| exists|k: int|
                    #![trigger post.local[k]]
                    0 <= k < n && feed_failed(pre.local[k], post.local[k], e) && feeds_began(
                        pre,
                        k,
                        0,
                        k,
                        m,
                        post,
                    )
                ||| exists|k: int|
                    #![trigger post.exch[k]]
                    0 <= k < m && feed_failed(pre.exch[k], post.exch[k], e) && feeds_began(
                        pre,
                        n,
                        k,
                        n,
                        k,
                        post,
                    )
            },
        }
    }
}

/// `target` is `span` later than `t`, where timestamps wrap around at their limits.
pub open spec fn is_later_by(t: i64, span: i64, target: i64) -> bool {
    ||| target == t + span
    ||| t + span > i64::MAX && target == t + span - 0x1_0000_0000_0000_0000
    ||| t + span < i64::MIN && target == t + span + 0x1_0000_0000_0000_0000
}

/// The backtester gets going if it has to, and then runs up to the time that is `span` later than
/// its clock.
pub open spec fn ran_on<L: Processor, E: Processor>(
    pre: BacktestState<L, E>,
    span: i64,
    next_feed: bool,
    a: int,
    id: i64,
    include_order_resp: bool,
    post: BacktestState<L, E>,
    r: Result<bool, BacktestError>,
) -> bool {
    ||| r != Ok::<bool, BacktestError>(true) && got_going(pre, post, r)
    ||| exists|mid: BacktestState<L, E>, target: i64|
        {
            &&& got_going(pre, mid, Ok(true))
            &&& is_later_by(mid.cur_ts, span, target)
            &&& #[trigger] conducted(
                mid,
                target,
                next_feed,
                a,
                id,
                include_order_resp,
                post,
                r,
            )
        }
}

/// A run that waits for the response to the order `id` of the asset `a` up to `target`. Nobody is
/// told to look out for anything else, and if the run returns true, the clock is at the target, or
/// at the earliest time at which a local side found the response.
pub open spec fn waited_up_to<L: Processor, E: Processor>(
    pre: BacktestState<L, E>,
    target: i64,
    a: int,
    id: i64,
    post: BacktestState<L, E>,
    r: Result<bool, BacktestError>,
) -> bool {
    &&& conducted(pre, target, false, a, id, false, post, r)
    &&& wait_laws::only_this_is_looked_out_for(pre, a, id, target, post)
    &&& r == Ok::<bool, BacktestError>(true) ==> wait_laws::clock_is_first_of(pre, target, post)
}

/// A wait for a response up to a target.
pub proof fn a_wait_for_a_response_ends_with_it<L: Processor, E: Processor>(
    pre: BacktestState<L, E>,
    target: i64,
    a: usize,
    id: i64,
    post: BacktestState<L, E>,
    r: Result<bool, BacktestError>,
)
    requires
        pre.wf(),
        run::goes_to(
            pre,
            target,
            (Waiting { next_feed: false, order_response: (a, id), include_order_resp: false }),
            post,
            r,
        ),
    ensures
        waited_up_to(pre, target, a as int, id, post, r),
{
    let waiting = Waiting {
        next_feed: false,
        order_response: (a, id),
        include_order_resp: false,
    };
    conduct_laws::a_run_serves_what_is_pending(pre, target, waiting, post, r);
    wait_laws::a_wait_for_a_response_looks_out_for_it_alone(pre, target, a, id, false, post, r);
    if r == Ok::<bool, BacktestError>(true) {
        wait_laws::the_clock_is_at_the_first_response(pre, target, (a, id), false, post);
    }
}

/// The clock after letting time pass: `span` later, or at an earlier response that a local side
/// says was waited for.
pub open spec fn time_passed<L: Processor, E: Processor>(
    pre: BacktestState<L, E>,
    span: i64,
    post: BacktestState<L, E>,
) -> bool {
    exists|target: i64| #[trigger]
        is_later_by(pre.cur_ts, span, target) && wait_laws::clock_is_first_of(pre, target, post)
}

/// A backtester that was started, and is not to wait, lets the time pass.
pub proof fn time_passes<L: Processor, E: Processor>(
    pre: BacktestState<L, E>,
    span: i64,
    order_response: (usize, i64),
    post: BacktestState<L, E>,
)
    requires
        pre.wf(),
        pre.cur_ts != i64::MAX,
        requests::runs_for(
            pre,
            span,
            (Waiting { next_feed: false, order_response, include_order_resp: false }),
            post,
            Ok(true),
        ),
    ensures
        time_passed(pre, span, post),
{
    let waiting = Waiting { next_feed: false, order_response, include_order_resp: false };
    crate::laws::a_started_backtester_just_runs(pre, span, waiting, post, Ok(true));
    let target = pre.cur_ts.wrapping_add(span);
    assert(is_later_by(pre.cur_ts, span, target));
    wait_laws::the_clock_is_at_the_first_response(pre, target, order_response, false, post);
}

/// Every local side gets the call on the strategy's behalf, and nothing else changes.
pub open spec fn handed_to_all<
    MD: MarketDepth,
    EventT,
    A: Account,
    L: LocalProcessor<MD, EventT, A>,
    E: Processor,
>(s: BacktestState<L, E>, call: LocalCall<MD::Num>, s2: BacktestState<L, E>) -> bool {
    &&& s2.cur_ts == s.cur_ts
    &&& s2.evs == s.evs
    &&& s2.exch == s.exch
    &&& s2.local.len() == s.local.len()
    &&& forall|i: int|
        #![trigger s2.local[i]]
        0 <= i < s.local.len() ==> {
            &&& s2.local[i].requests() == s.local[i].requests().push(call)
            &&& s2.local[i].calls() == s.local[i].calls()
        }
}

/// A call is handed to the local side of one asset, or to all local sides.
pub proof fn a_call_is_handed_to_one_or_to_all<
    MD: MarketDepth,
    EventT,
    A: Account,
    L: LocalProcessor<MD, EventT, A>,
    E: Processor,
>(
    pre: BacktestState<L, E>,
    asset_no: Option<usize>,
    call: LocalCall<MD::Num>,
    post: BacktestState<L, E>,
)
    requires
        pre.wf(),
        asset_no matches Some(a) ==> a < pre.local.len(),
        requests::requested_of::<MD, EventT, A, L, E>(pre, asset_no, call, post),
    ensures
        asset_no matches Some(a) ==> handed_over::<MD, EventT, A, L, E>(
            pre,
            a as int,
            call,
            post,
        ),
        asset_no is None ==> handed_to_all::<MD, EventT, A, L, E>(pre, call, post),
{
}

/// A backtester that does not run yet: nothing is pending, and its clock is not set.
pub open spec fn at_rest<L, E>(s: BacktestState<L, E>, local: Seq<L>, exch: Seq<E>) -> bool {
    &&& s.cur_ts == i64::MAX
    &&& s.local == local
    &&& s.exch == exch
    &&& s.evs.len() == local.len()
    &&& forall|i: int|
        #![trigger s.evs[i]]
        0 <= i < s.evs.len() ==> {
            &&& s.evs[i].local_data == i64::MAX
            &&& s.evs[i].local_order == i64::MAX
            &&& s.evs[i].exch_data == i64::MAX
            &&& s.evs[i].exch_order == i64::MAX
        }
}

/// A fresh state is at rest.
pub(crate) proof fn lemma_at_rest<L, E>(local: Seq<L>, exch: Seq<E>)
    ensures
        at_rest(BacktestState::fresh(local, exch), local, exch),
{
}

/// The local side reports this position.
pub open spec fn tells_position<
    MD: MarketDepth,
    EventT,
    A: Account,
    P: LocalProcessor<MD, EventT, A>,
>(p: &P, r: A::Position) -> bool {
    call_ensures(P::position, (p,), r)
}

/// The local side reports these state values.
pub open spec fn tells_state_values<
    MD: MarketDepth,
    EventT,
    A: Account,
    P: LocalProcessor<MD, EventT, A>,
>(p: &P, r: A::StateValues) -> bool {
    call_ensures(P::state_values, (p,), r)
}

/// The local side reports this market depth.
pub open spec fn tells_depth<
    MD: MarketDepth,
    EventT,
    A: Account,
    P: LocalProcessor<MD, EventT, A>,
>(p: &P, r: &MD) -> bool {
    call_ensures(P::depth, (p,), r)
}

/// The local side reports these orders.
pub open spec fn tells_orders<
    MD: MarketDepth,
    EventT,
    A: Account,
    P: LocalProcessor<MD, EventT, A>,
>(p: &P, r: &HashMap<i64, A::Order>) -> bool {
    call_ensures(P::orders, (p,), r)
}

/// The local side reports these trades.
pub open spec fn tells_trades<
    MD: MarketDepth,
    EventT,
    A: Account,
    P: LocalProcessor<MD, EventT, A>,
>(p: &P, r: &Vec<EventT>) -> bool {
    call_ensures(P::trade, (p,), r)
}

/// The local side reports this feed latency.
pub open spec fn tells_feed_latency<
    MD: MarketDepth,
    EventT,
    A: Account,
    P: LocalProcessor<MD, EventT, A>,
>(p: &P, r: Option<(i64, i64)>) -> bool {
    call_ensures(P::feed_latency, (p,), r)
}

/// The local side reports this order latency.
pub open spec fn tells_order_latency<
    MD: MarketDepth,
    EventT,
    A: Account,
    P: LocalProcessor<MD, EventT, A>,
>(p: &P, r: Option<(i64, i64, i64)>) -> bool {
    call_ensures(P::order_latency, (p,), r)
}

/// The list refers to the trades that the local side reports, one by one.
pub open spec fn refers_to_trades<
    MD: MarketDepth,
    EventT,
    A: Account,
    P: LocalProcessor<MD, EventT, A>,
>(p: &P, list: Seq<&EventT>) -> bool {
    exists|trades: &Vec<EventT>| #[trigger]
        tells_trades::<MD, EventT, A, P>(p, trades) && list.len() == trades@.len() && (
        forall|k: int| 0 <= k < list.len() ==> *#[trigger] list[k] == trades@[k])
}

/// A list of the trades refers to them one by one.
pub(crate) proof fn lemma_refers_to_trades<
    MD: MarketDepth,
    EventT,
    A: Account,
    P: LocalProcessor<MD, EventT, A>,
>(p: &P, list: Seq<&EventT>)
    requires
        requests::trades_listed::<MD, EventT, A, P>(p, list),
    ensures
        refers_to_trades::<MD, EventT, A, P>(p, list),
{
    let trades = choose|events: &Vec<EventT>| #[trigger]
        crate::proc::trades_are::<MD, EventT, A, P>(p, events) && list.len() == events@.len() && (
        forall|i: int| 0 <= i < list.len() ==> *#[trigger] list[i] == events@[i]);
    assert(tells_trades::<MD, EventT, A, P>(p, trades));
}

/// What preparing the feeds does.
proof fn lemma_feeds_began<L: Processor, E: Processor>(
    pre: BacktestState<L, E>,
    n: int,
    m: int,
    post: BacktestState<L, E>,
)
    requires
        pre.wf(),
        requests::prepared(pre, n, m, post),
    ensures
        feeds_began(pre, n, m, n, m, post),
{
    assert(locals_began(pre, n, n, post)) by {
        assert forall|i: int| #![trigger post.local[i]] 0 <= i < pre.local.len() && i
            < n implies feed_began(pre.local[i], post.local[i], post.evs[i].local_data) by {
            assert(requests::feed_prepared(pre.local[i], post.local[i], post.evs[i].local_data));
        }
        assert forall|i: int| #![trigger post.evs[i]] 0 <= i < pre.local.len() && i
            >= n implies post.evs[i].local_data == pre.evs[i].local_data by {
            assert(post.local[i] == pre.local[i]);
        }
    }
    assert(exchs_began(pre, m, m, post)) by {
        assert forall|i: int| #![trigger post.exch[i]] 0 <= i < pre.exch.len() && i
            < m implies feed_began(pre.exch[i], post.exch[i], post.evs[i].exch_data) by {
            assert(requests::feed_prepared(pre.exch[i], post.exch[i], post.evs[i].exch_data));
        }
        assert forall|i: int| #![trigger post.evs[i]] 0 <= i < pre.exch.len() && i
            >= m implies post.evs[i].exch_data == pre.evs[i].exch_data by {
            assert(post.exch[i] == pre.exch[i]);
        }
    }
    assert(orders_kept(pre, post));
}

/// A backtester gets going as `got_going` tells.
pub proof fn a_backtester_gets_going_once<L: Processor, E: Processor>(
    pre: BacktestState<L, E>,
    post: BacktestState<L, E>,
    r: Result<bool, BacktestError>,
)
    requires
        pre.wf(),
        requests::starts(pre, post, r),
    ensures
        got_going(pre, post, r),
{
    let (n, m) = (pre.local.len() as int, pre.exch.len() as int);
    if pre.cur_ts == i64::MAX {
        match r {
            Ok(true) => {
                let (mid, ev) = choose|mid: BacktestState<L, E>, ev: EventIntent|
                    #![trigger
                        requests::initializes(pre, mid, Ok(())),
                        evs::is_next_event(mid.evs, ev)]
                    {
                        &&& requests::initializes(pre, mid, Ok(()))
                        &&& evs::is_next_event(mid.evs, ev)
                        &&& post == (BacktestState { cur_ts: ev.timestamp, ..mid })
                    };
                lemma_feeds_began(pre, n, m, mid);
                assert((BacktestState { cur_ts: i64::MAX, ..post }) == mid);
                conduct_laws::lemma_turn(post.evs, ev);
                let asset = post.evs[ev.asset_no as int];
                assert(some_pending(post.evs));
                assert(!pending_from(post.evs, (post.cur_ts + 1) as i64));
            },
            Ok(false) => {
                lemma_feeds_began(pre, n, m, post);
                assert((BacktestState { cur_ts: i64::MAX, ..post }) == post);
                assert forall|a: int| #![trigger post.evs[a]] 0 <= a < post.evs.len() implies {
                    &&& post.evs[a].local_data == i64::MAX
                    &&& post.evs[a].local_order == i64::MAX
                    &&& post.evs[a].exch_data == i64::MAX
                    &&& post.evs[a].exch_order == i64::MAX
                } by {
                    assert(post.evs[a].at(EventIntentKind::LocalData) == i64::MAX);
                    assert(post.evs[a].at(EventIntentKind::LocalOrder) == i64::MAX);
                    assert(post.evs[a].at(EventIntentKind::ExchData) == i64::MAX);
                    assert(post.evs[a].at(EventIntentKind::ExchOrder) == i64::MAX);
                }
            },
            Err(e) => {
                if exists|k: int| requests::local_unprepared(pre, k, post, e) {
                    let k = choose|k: int| requests::local_unprepared(pre, k, post, e);
                    let rest = BacktestState { local: post.local.update(k, pre.local[k]), ..post };
                    lemma_feeds_began(pre, k, 0, rest);
                    assert forall|i: int| #![trigger post.local[i]] 0 <= i < pre.local.len() && i
                        != k implies post.local[i] == rest.local[i] by {}
                    assert forall|i: int| #![trigger post.exch[i]] 0 <= i < m implies {
                        post.exch[i] == rest.exch[i]
                    } by {}
                    assert(rest.local[k] == pre.local[k]);
                    assert(feed_failed(pre.local[k], post.local[k], e));
                    assert(feeds_began(pre, k, 0, k, m, post));
                } else {
                    let k = choose|k: int| requests::exch_unprepared(pre, k, post, e);
                    let rest = BacktestState { exch: post.exch.update(k, pre.exch[k]), ..post };
                    lemma_feeds_began(pre, n, k, rest);
                    assert forall|i: int| #![trigger post.exch[i]] 0 <= i < pre.exch.len() && i
                        != k implies post.exch[i] == rest.exch[i] by {}
                    assert forall|i: int| #![trigger post.local[i]] 0 <= i < n implies {
                        post.local[i] == rest.local[i]
                    } by {}
                    assert(rest.exch[k] == pre.exch[k]);
                    assert(feed_failed(pre.exch[k], post.exch[k], e));
                    assert forall|i: int| #![trigger post.exch[i]] 0 <= i < m implies {
                        &&& i < k ==> feed_began(
                            pre.exch[i],
                            post.exch[i],
                            post.evs[i].exch_data,
                        )
                        &&& i >= k && i != k ==> post.exch[i] == pre.exch[i]
                        &&& i >= k ==> post.evs[i].exch_data == pre.evs[i].exch_data
                    } by {
                        assert(rest.exch[i] == if i == k {
                            pre.exch[k]
                        } else {
                            post.exch[i]
                        });
                    }
                    assert(feeds_began(pre, n, k, n, k, post));
                }
            },
        }
    }
}

/// A state that comes out of a start has both sides of every asset.
proof fn lemma_going_wf<L: Processor, E: Processor>(
    pre: BacktestState<L, E>,
    post: BacktestState<L, E>,
)
    requires
        pre.wf(),
        got_going(pre, post, Ok(true)),
    ensures
        post.wf(),
{
}

/// A run for a span gets the backtester going if it has to, and then goes on from its clock.
pub proof fn a_run_for_a_span_goes_on_from_the_clock<L: Processor, E: Processor>(
    pre: BacktestState<L, E>,
    span: i64,
    waiting: Waiting,
    post: BacktestState<L, E>,
    r: Result<bool, BacktestError>,
)
    requires
        pre.wf(),
        requests::runs_for(pre, span, waiting, post, r),
    ensures
        ran_on(
            pre,
            span,
            waiting.next_feed,
            waiting.order_response.0 as int,
            waiting.order_response.1,
            waiting.include_order_resp,
            post,
            r,
        ),
{
    if r != Ok::<bool, BacktestError>(true) && requests::starts(pre, post, r) {
        a_backtester_gets_going_once(pre, post, r);
    } else {
        let mid = choose|mid: BacktestState<L, E>| #[trigger]
            requests::starts(pre, mid, Ok(true)) && run::goes_to(
                mid,
                mid.cur_ts.wrapping_add(span),
                waiting,
                post,
                r,
            );
        a_backtester_gets_going_once(pre, mid, Ok(true));
        lemma_going_wf(pre, mid);
        let target = mid.cur_ts.wrapping_add(span);
        conduct_laws::a_run_serves_what_is_pending(mid, target, waiting, post, r);
    }
}

} // verus!
