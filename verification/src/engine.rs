//! The loop that serves the pending events of all assets in time order.

use std::collections::HashMap;

use vstd::prelude::*;

use crate::depth::MarketDepth;
use crate::evs;
use crate::evs::{AssetEvents, EventIntent, EventIntentKind, EventSet};
use crate::proc;
use crate::proc::{Account, LocalCall, LocalProcessor, Processor};
use crate::requests;
use crate::run;
use crate::run::{BacktestState, Moment, Waiting};
use crate::types::{BacktestError, OrdType, Side, TimeInForce};
use crate::types::{UNTIL_END_OF_DATA, WAIT_ORDER_RESPONSE_NONE};

verus! {

/// The assets under simulation, with the clock and the pending events. `L` is the type of the
/// local sides, `E` that of the exchange sides.
pub struct Engine<L, E> {
    pub(crate) cur_ts: i64,
    pub(crate) evs: EventSet,
    pub(crate) local: Vec<L>,
    pub(crate) exch: Vec<E>,
}

impl<L, E> View for Engine<L, E> {
    type V = BacktestState<L, E>;

    open(crate) spec fn view(&self) -> BacktestState<L, E> {
        BacktestState {
            cur_ts: self.cur_ts,
            evs: self.evs@,
            local: self.local@,
            exch: self.exch@,
        }
    }
}

/// What a local side is asked to clear.
#[derive(Clone, Copy)]
enum Clearing {
    InactiveOrders,
    LastTrades,
}

impl Clearing {
    /// The call that clears it.
    spec fn call<N>(self) -> LocalCall<N> {
        match self {
            Clearing::InactiveOrders => LocalCall::ClearInactiveOrders,
            Clearing::LastTrades => LocalCall::ClearLastTrades,
        }
    }
}

impl<L: Processor, E: Processor> Engine<L, E> {
    /// An engine that was not started yet.
    pub fn new(local: Vec<L>, exch: Vec<E>) -> (r: Self)
        requires
            local.len() == exch.len(),
        ensures
            r@.wf(),
            r@ == BacktestState::fresh(local@, exch@),
    {
        let num_assets: usize = local.len();
        Engine { cur_ts: i64::MAX, evs: EventSet::new(num_assets), local, exch }
    }

    /// Prepares the feeds of all processors and notes when their first market data is due.
    pub fn initialize_evs(&mut self) -> (r: Result<(), BacktestError>)
        requires
            old(self)@.wf(),
        ensures
            final(self)@.wf(),
            final(self)@.local.len() == old(self)@.local.len(),
            requests::initializes(old(self)@, final(self)@, r),
    {
        let ghost pre = self@;
        let mut asset_no: usize = 0;
        while asset_no < self.local.len()
            invariant
                asset_no <= self.local.len(),
                pre == old(self)@,
                pre.wf(),
                self@.wf(),
                requests::prepared(pre, asset_no as int, 0, self@),
            decreases self.local.len() - asset_no,
        {
            let ghost mid = self@;
            let ghost k = asset_no as int;
            let feed = self.local[asset_no].initialize_data();
            assert(run::data_initialized(mid.local[k], self@.local[k], feed));
            match self.evs.note_local_data(asset_no, feed) {
                Ok(()) => {},
                Err(e) => {
                    assert(self@.local.update(k, pre.local[k]) =~= mid.local);
                    assert(requests::local_unprepared(pre, k, self@, e));
                    return Err(e);
                },
            }
            proof {
                requests::lemma_local_prepared(pre, mid, k, self@);
            }
            asset_no += 1;
        }
        let mut asset_no: usize = 0;
        while asset_no < self.exch.len()
            invariant
                asset_no <= self.exch.len(),
                pre == old(self)@,
                pre.wf(),
                self@.wf(),
                requests::prepared(pre, pre.local.len() as int, asset_no as int, self@),
            decreases self.exch.len() - asset_no,
        {
            let ghost mid = self@;
            let ghost k = asset_no as int;
            let feed = self.exch[asset_no].initialize_data();
            assert(run::data_initialized(mid.exch[k], self@.exch[k], feed));
            match self.evs.note_exch_data(asset_no, feed) {
                Ok(()) => {},
                Err(e) => {
                    assert(self@.exch.update(k, pre.exch[k]) =~= mid.exch);
                    assert(requests::exch_unprepared(pre, k, self@, e));
                    return Err(e);
                },
            }
            proof {
                requests::lemma_exch_prepared(pre, mid, k, self@);
            }
            asset_no += 1;
        }
        Ok(())
    }

    /// Starts the engine if it was not started: prepares the feeds and sets the clock to the first
    /// event. Returns false if there is no event.
    pub fn start(&mut self) -> (r: Result<bool, BacktestError>)
        requires
            old(self)@.wf(),
        ensures
            final(self)@.wf(),
            final(self)@.local.len() == old(self)@.local.len(),
            requests::starts(old(self)@, final(self)@, r),
    {
        if self.cur_ts == i64::MAX {
            match self.initialize_evs() {
                Ok(()) => {},
                Err(e) => {
                    return Err(e);
                },
            }
            let ghost mid = self@;
            assert(requests::initializes(old(self)@, mid, Ok(())));
            match self.evs.next() {
                Some(ev) => {
                    assert(evs::is_next_event(mid.evs, ev));
                    self.cur_ts = ev.timestamp;
                },
                None => {
                    return Ok(false);
                },
            }
        }
        Ok(true)
    }

    /// Starts the engine if it was not started, and then processes pending events for `span` from
    /// the clock on, or up to what is waited for.
    pub fn run_for<const WAIT_NEXT_FEED: bool>(
        &mut self,
        span: i64,
        wait_order_response: (usize, i64),
        include_order_resp: bool,
    ) -> (r: Result<bool, BacktestError>)
        requires
            old(self)@.wf(),
        ensures
            final(self)@.wf(),
            final(self)@.local.len() == old(self)@.local.len(),
            requests::runs_for(
                old(self)@,
                span,
                Waiting::of(WAIT_NEXT_FEED, wait_order_response, include_order_resp),
                final(self)@,
                r,
            ),
    {
        match self.start() {
            Ok(true) => {},
            Ok(false) => {
                return Ok(false);
            },
            Err(e) => {
                return Err(e);
            },
        }
        assert(requests::starts(old(self)@, self@, Ok(true)));
        let timestamp: i64 = self.cur_ts.wrapping_add(span);
        self.goto::<WAIT_NEXT_FEED>(timestamp, wait_order_response, include_order_resp)
    }

    /// Processes pending events up to `timestamp`, or up to what is waited for.
    pub fn goto<const WAIT_NEXT_FEED: bool>(
        &mut self,
        timestamp: i64,
        wait_order_response: (usize, i64),
        include_order_resp: bool,
    ) -> (r: Result<bool, BacktestError>)
        requires
            old(self)@.wf(),
        ensures
            final(self)@.wf(),
            final(self)@.local.len() == old(self)@.local.len(),
            run::goes_to(
                old(self)@,
                timestamp,
                Waiting::of(WAIT_NEXT_FEED, wait_order_response, include_order_resp),
                final(self)@,
                r,
            ),
    {
        self.refresh();
        let ghost waiting = Waiting::of(WAIT_NEXT_FEED, wait_order_response, include_order_resp);
        let mut until: i64 = timestamp;
        let ghost mut trace: Seq<Moment<L, E>> = seq![Moment { state: self@, target: until }];
        loop
            invariant
                waiting == Waiting::of(WAIT_NEXT_FEED, wait_order_response, include_order_resp),
                self@.wf(),
                self@.local.len() == old(self)@.local.len(),
                run::is_run(trace, waiting),
                trace.last() == (Moment { state: self@, target: until }),
                run::refreshed(old(self)@, trace[0].state),
                trace[0].target == timestamp,
            decreases run::work_left(self@),
        {
            let ghost pre = trace.last();
            let ev: EventIntent = match self.evs.next() {
                Some(ev) => ev,
                None => {
                    let r: Result<bool, BacktestError> = Ok(false);
                    assert(run::runs_through(trace, old(self)@, timestamp, waiting, self@, r));
                    return r;
                },
            };
            if ev.timestamp > until {
                assert(evs::is_next_event(pre.state.evs, ev));
                self.cur_ts = until;
                let r: Result<bool, BacktestError> = Ok(true);
                assert(run::ends(pre, self@, waiting, r));
                assert(run::runs_through(trace, old(self)@, timestamp, waiting, self@, r));
                return r;
            }
            assert(run::is_due(pre, ev));
            let handled: Result<i64, BacktestError> = match ev.kind {
                EventIntentKind::LocalData => self.handle_local_data(
                    ev,
                    until,
                    WAIT_NEXT_FEED,
                    Ghost(waiting),
                ),
                EventIntentKind::LocalOrder => self.handle_local_order(
                    ev,
                    until,
                    WAIT_NEXT_FEED,
                    wait_order_response,
                    include_order_resp,
                ),
                EventIntentKind::ExchData => self.handle_exch_data(ev, until, Ghost(waiting)),
                EventIntentKind::ExchOrder => self.handle_exch_order(ev, until, Ghost(waiting)),
            };
            until = match handled {
                Ok(target) => target,
                Err(e) => {
                    let r: Result<bool, BacktestError> = Err(e);
                    assert(run::ends(pre, self@, waiting, r));
                    assert(run::runs_through(trace, old(self)@, timestamp, waiting, self@, r));
                    return r;
                },
            };
            proof {
                let post = Moment { state: self@, target: until };
                assert(run::advances(pre, post, waiting));
                run::lemma_run_push(trace, post, waiting);
                trace = trace.push(post);
            }
        }
    }

    /// Takes the times of pending orders and responses anew from the local sides.
    fn refresh(&mut self)
        requires
            old(self)@.wf(),
        ensures
            final(self)@.wf(),
            run::refreshed(old(self)@, final(self)@),
    {
        let mut asset_no: usize = 0;
        while asset_no < self.local.len()
            invariant
                asset_no <= self.local.len(),
                self@.wf(),
                self@ == (BacktestState { evs: self@.evs, ..old(self)@ }),
                self@.evs.len() == old(self)@.evs.len(),
                forall|i: int|
                    #![trigger self@.evs[i]]
                    0 <= i < self@.evs.len() ==> {
                        let asset = self@.evs[i];
                        &&& i < asset_no ==> proc::sends_at(&self@.local[i], asset.exch_order)
                        &&& i < asset_no ==> proc::receives_at(&self@.local[i], asset.local_order)
                        &&& asset.local_data == old(self)@.evs[i].local_data
                        &&& asset.exch_data == old(self)@.evs[i].exch_data
                    },
            decreases self.local.len() - asset_no,
        {
            let send_ts: i64 = self.local[asset_no].earliest_send_order_timestamp();
            self.evs.update_exch_order(asset_no, send_ts);
            let recv_ts: i64 = self.local[asset_no].earliest_recv_order_timestamp();
            self.evs.update_local_order(asset_no, recv_ts);
            asset_no += 1;
        }
    }

    /// The local side receives market data. Returns up to when the run goes on.
    fn handle_local_data(
        &mut self,
        ev: EventIntent,
        until: i64,
        wait_next_feed: bool,
        Ghost(waiting): Ghost<Waiting>,
    ) -> (r: Result<i64, BacktestError>)
        requires
            old(self)@.wf(),
            evs::is_next_event(old(self)@.evs, ev),
            ev.kind == EventIntentKind::LocalData,
            wait_next_feed == waiting.next_feed,
        ensures
            final(self)@.wf(),
            final(self)@.local.len() == old(self)@.local.len(),
            run::handling_is(old(self)@, until, ev, final(self)@, waiting, r),
            r is Ok ==> run::work_left(final(self)@) < run::work_left(old(self)@),
    {
        let ghost i = ev.asset_no as int;
        let ghost pre = Moment { state: self@, target: until };
        let feed = self.local[ev.asset_no].process_data();
        let ghost result = feed;
        proof {
            run::lemma_total_supply_update(pre.state.local, i, self@.local[i]);
        }
        match self.evs.note_local_data(ev.asset_no, run::next_timestamp(feed)) {
            Ok(()) => {
                let target: i64 = if wait_next_feed {
                    ev.timestamp
                } else {
                    until
                };
                let ghost post = Moment { state: self@, target };
                proof {
                    run::lemma_open_feeds_update(pre.state.evs, i, self@.evs[i]);
                }
                assert(run::handles_local_data(pre, ev, post, waiting, result));
                Ok(target)
            },
            Err(e) => Err(e),
        }
    }

    /// The local side receives an order response. Returns up to when the run goes on.
    fn handle_local_order(
        &mut self,
        ev: EventIntent,
        until: i64,
        wait_next_feed: bool,
        wait_order_response: (usize, i64),
        include_order_resp: bool,
    ) -> (r: Result<i64, BacktestError>)
        requires
            old(self)@.wf(),
            evs::is_next_event(old(self)@.evs, ev),
            ev.kind == EventIntentKind::LocalOrder,
        ensures
            final(self)@.wf(),
            final(self)@.local.len() == old(self)@.local.len(),
            run::handling_is(
                old(self)@,
                until,
                ev,
                final(self)@,
                Waiting::of(wait_next_feed, wait_order_response, include_order_resp),
                r,
            ),
            r is Ok ==> run::work_left(final(self)@) < run::work_left(old(self)@),
    {
        let ghost i = ev.asset_no as int;
        let ghost pre = Moment { state: self@, target: until };
        let ghost waiting = Waiting::of(wait_next_feed, wait_order_response, include_order_resp);
        let order_id: i64 = if !wait_next_feed && ev.asset_no == wait_order_response.0 {
            wait_order_response.1
        } else {
            WAIT_ORDER_RESPONSE_NONE
        };
        let received = self.local[ev.asset_no].process_recv_order(ev.timestamp, order_id);
        proof {
            run::lemma_total_supply_update(pre.state.local, i, self@.local[i]);
        }
        match received {
            Ok(done) => {
                let next_ts: i64 = self.local[ev.asset_no].earliest_recv_order_timestamp();
                self.evs.update_local_order(ev.asset_no, next_ts);
                let target: i64 = if done || (wait_next_feed && include_order_resp) {
                    ev.timestamp
                } else {
                    until
                };
                let ghost post = Moment { state: self@, target };
                proof {
                    run::lemma_open_feeds_update(pre.state.evs, i, self@.evs[i]);
                }
                assert(run::handles_local_order(pre, ev, post, waiting, done, next_ts));
                Ok(target)
            },
            Err(e) => Err(e),
        }
    }

    /// The exchange side processes market data. Returns up to when the run goes on.
    fn handle_exch_data(
        &mut self,
        ev: EventIntent,
        until: i64,
        Ghost(waiting): Ghost<Waiting>,
    ) -> (r: Result<i64, BacktestError>)
        requires
            old(self)@.wf(),
            evs::is_next_event(old(self)@.evs, ev),
            ev.kind == EventIntentKind::ExchData,
        ensures
            final(self)@.wf(),
            final(self)@.local.len() == old(self)@.local.len(),
            run::handling_is(old(self)@, until, ev, final(self)@, waiting, r),
            r is Ok ==> run::work_left(final(self)@) < run::work_left(old(self)@),
    {
        let ghost i = ev.asset_no as int;
        let ghost pre = Moment { state: self@, target: until };
        let feed = self.exch[ev.asset_no].process_data();
        let ghost result = feed;
        proof {
            run::lemma_total_supply_update(pre.state.exch, i, self@.exch[i]);
        }
        match self.evs.note_exch_data(ev.asset_no, run::next_timestamp(feed)) {
            Ok(()) => {
                let next_ts: i64 = self.exch[ev.asset_no].earliest_send_order_timestamp();
                self.evs.update_local_order(ev.asset_no, next_ts);
                proof {
                    let post = Moment { state: self@, target: until };
                    let exch_data = evs::due(run::next_feed(result))->Ok_0;
                    let asset = AssetEvents {
                        exch_data,
                        local_order: next_ts,
                        ..pre.state.evs[i]
                    };
                    assert(post.state.evs =~= pre.state.evs.update(i, asset));
                    run::lemma_open_feeds_update(pre.state.evs, i, asset);
                    assert(run::handles_exch_data(pre, ev, post, result, next_ts));
                }
                Ok(until)
            },
            Err(e) => Err(e),
        }
    }

    /// The exchange side receives an order. Returns up to when the run goes on.
    fn handle_exch_order(
        &mut self,
        ev: EventIntent,
        until: i64,
        Ghost(waiting): Ghost<Waiting>,
    ) -> (r: Result<i64, BacktestError>)
        requires
            old(self)@.wf(),
            evs::is_next_event(old(self)@.evs, ev),
            ev.kind == EventIntentKind::ExchOrder,
        ensures
            final(self)@.wf(),
            final(self)@.local.len() == old(self)@.local.len(),
            run::handling_is(old(self)@, until, ev, final(self)@, waiting, r),
            r is Ok ==> run::work_left(final(self)@) < run::work_left(old(self)@),
    {
        let ghost i = ev.asset_no as int;
        let ghost pre = Moment { state: self@, target: until };
        let received = self.exch[ev.asset_no].process_recv_order(
            ev.timestamp,
            WAIT_ORDER_RESPONSE_NONE,
        );
        proof {
            run::lemma_total_supply_update(pre.state.exch, i, self@.exch[i]);
        }
        match received {
            Ok(done) => {
                let next_ts: i64 = self.exch[ev.asset_no].earliest_recv_order_timestamp();
                self.evs.update_exch_order(ev.asset_no, next_ts);
                let ghost post = Moment { state: self@, target: until };
                proof {
                    run::lemma_open_feeds_update(pre.state.evs, i, self@.evs[i]);
                }
                assert(run::handles_exch_order(pre, ev, post, done, next_ts));
                Ok(until)
            },
            Err(e) => Err(e),
        }
    }

    /// Notes when the exchange side of the asset receives its next order.
    pub fn note_dispatch(&mut self, asset_no: usize)
        requires
            old(self)@.wf(),
            asset_no < old(self)@.local.len(),
        ensures
            final(self)@.wf(),
            final(self)@.local.len() == old(self)@.local.len(),
            requests::dispatch_noted(old(self)@, asset_no, final(self)@),
    {
        let timestamp: i64 = self.local[asset_no].earliest_send_order_timestamp();
        self.evs.update_exch_order(asset_no, timestamp);
    }

    /// Answers a request for the order, to which the local side of the asset gave this outcome. If
    /// it was refused, returns the error. If it was accepted, notes when the exchange side receives
    /// it if `noted`, and runs until the response is received if `wait`.
    pub fn answer(
        &mut self,
        outcome: Result<(), BacktestError>,
        asset_no: usize,
        order_id: i64,
        wait: bool,
        noted: bool,
    ) -> (r: Result<bool, BacktestError>)
        requires
            old(self)@.wf(),
            asset_no < old(self)@.local.len(),
        ensures
            final(self)@.wf(),
            final(self)@.local.len() == old(self)@.local.len(),
            requests::answered(
                old(self)@,
                outcome,
                asset_no,
                order_id,
                wait,
                noted,
                final(self)@,
                r,
            ),
    {
        match outcome {
            Ok(()) => {
                if noted {
                    self.note_dispatch(asset_no);
                }
                if wait {
                    self.goto::<false>(UNTIL_END_OF_DATA, (asset_no, order_id), false)
                } else {
                    Ok(true)
                }
            },
            Err(e) => Err(e),
        }
    }

    /// Submits an order at the current timestamp.
    pub fn submit<MD: MarketDepth, EventT, A: Account>(
        &mut self,
        asset_no: usize,
        order_id: i64,
        side: Side,
        price: MD::Num,
        qty: MD::Num,
        order_type: OrdType,
        time_in_force: TimeInForce,
    ) -> (r: Result<(), BacktestError>) where L: LocalProcessor<MD, EventT, A>
        requires
            old(self)@.wf(),
            asset_no < old(self)@.local.len(),
        ensures
            final(self)@.wf(),
            final(self)@.local.len() == old(self)@.local.len(),
            requests::requested_at::<MD, EventT, A, L, E>(
                old(self)@,
                asset_no,
                (LocalCall::SubmitOrder {
                    order_id,
                    side,
                    price,
                    qty,
                    order_type,
                    time_in_force,
                    current_timestamp: old(self)@.cur_ts,
                    result: r,
                }),
                final(self)@,
            ),
    {
        self.local[asset_no].submit_order(
            order_id,
            side,
            price,
            qty,
            order_type,
            time_in_force,
            self.cur_ts,
        )
    }

    /// Cancels an order at the current timestamp.
    pub fn cancel<MD: MarketDepth, EventT, A: Account>(
        &mut self,
        asset_no: usize,
        order_id: i64,
    ) -> (r: Result<(), BacktestError>) where L: LocalProcessor<MD, EventT, A>
        requires
            old(self)@.wf(),
            asset_no < old(self)@.local.len(),
        ensures
            final(self)@.wf(),
            final(self)@.local.len() == old(self)@.local.len(),
            requests::requested_at::<MD, EventT, A, L, E>(
                old(self)@,
                asset_no,
                (LocalCall::Cancel {
                    order_id,
                    current_timestamp: old(self)@.cur_ts,
                    result: r,
                }),
                final(self)@,
            ),
    {
        self.local[asset_no].cancel(order_id, self.cur_ts)
    }

    /// Clears the inactive orders of the asset, or of every asset.
    pub fn clear_inactive_orders<MD: MarketDepth, EventT, A: Account>(
        &mut self,
        asset_no: Option<usize>,
    ) where L: LocalProcessor<MD, EventT, A>
        requires
            old(self)@.wf(),
            asset_no matches Some(an) ==> an < old(self)@.local.len(),
        ensures
            final(self)@.wf(),
            final(self)@.local.len() == old(self)@.local.len(),
            requests::requested_of::<MD, EventT, A, L, E>(
                old(self)@,
                asset_no,
                LocalCall::ClearInactiveOrders,
                final(self)@,
            ),
    {
        self.clear::<MD, EventT, A>(asset_no, Clearing::InactiveOrders)
    }

    /// Clears the last market trades of the asset, or of every asset.
    pub fn clear_last_trades<MD: MarketDepth, EventT, A: Account>(
        &mut self,
        asset_no: Option<usize>,
    ) where L: LocalProcessor<MD, EventT, A>
        requires
            old(self)@.wf(),
            asset_no matches Some(an) ==> an < old(self)@.local.len(),
        ensures
            final(self)@.wf(),
            final(self)@.local.len() == old(self)@.local.len(),
            requests::requested_of::<MD, EventT, A, L, E>(
                old(self)@,
                asset_no,
                LocalCall::ClearLastTrades,
                final(self)@,
            ),
    {
        self.clear::<MD, EventT, A>(asset_no, Clearing::LastTrades)
    }

    /// Clears what is to be cleared, of the asset or of every asset.
    fn clear<MD: MarketDepth, EventT, A: Account>(
        &mut self,
        asset_no: Option<usize>,
        what: Clearing,
    ) where L: LocalProcessor<MD, EventT, A>
        requires
            old(self)@.wf(),
            asset_no matches Some(an) ==> an < old(self)@.local.len(),
        ensures
            final(self)@.wf(),
            final(self)@.local.len() == old(self)@.local.len(),
            requests::requested_of::<MD, EventT, A, L, E>(
                old(self)@,
                asset_no,
                what.call(),
                final(self)@,
            ),
    {
        match asset_no {
            Some(an) => {
                self.clear_at::<MD, EventT, A>(an, what);
            },
            None => {
                let mut i: usize = 0;
                while i < self.local.len()
                    invariant
                        i <= self.local.len(),
                        old(self)@.wf(),
                        self@ == (BacktestState { local: self@.local, ..old(self)@ }),
                        self@.local.len() == old(self)@.local.len(),
                        forall|j: int|
                            #![trigger self@.local[j]]
                            0 <= j < self@.local.len() ==> if j < i {
                                requests::requested::<MD, EventT, A, L>(
                                    old(self)@.local[j],
                                    self@.local[j],
                                    what.call(),
                                )
                            } else {
                                self@.local[j] == old(self)@.local[j]
                            },
                    decreases self.local.len() - i,
                {
                    self.clear_at::<MD, EventT, A>(i, what);
                    i += 1;
                }
            },
        }
    }

    /// Clears what is to be cleared, of the asset.
    fn clear_at<MD: MarketDepth, EventT, A: Account>(
        &mut self,
        asset_no: usize,
        what: Clearing,
    ) where L: LocalProcessor<MD, EventT, A>
        requires
            old(self)@.wf(),
            asset_no < old(self)@.local.len(),
        ensures
            final(self)@.wf(),
            final(self)@.local.len() == old(self)@.local.len(),
            requests::requested_at::<MD, EventT, A, L, E>(
                old(self)@,
                asset_no,
                what.call(),
                final(self)@,
            ),
    {
        match what {
            Clearing::InactiveOrders => self.local[asset_no].clear_inactive_orders(),
            Clearing::LastTrades => self.local[asset_no].clear_last_trades(),
        }
    }

    /// Returns the position of the asset.
    pub fn position<MD: MarketDepth, EventT, A: Account>(
        &self,
        asset_no: usize,
    ) -> (r: A::Position) where L: LocalProcessor<MD, EventT, A>
        requires
            asset_no < self@.local.len(),
        ensures
            proc::position_is::<MD, EventT, A, L>(&self@.local[asset_no as int], r),
    {
        self.local[asset_no].position()
    }

    /// Returns the state values of the asset's account.
    pub fn state_values<MD: MarketDepth, EventT, A: Account>(
        &self,
        asset_no: usize,
    ) -> (r: A::StateValues) where L: LocalProcessor<MD, EventT, A>
        requires
            asset_no < self@.local.len(),
        ensures
            proc::state_values_are::<MD, EventT, A, L>(&self@.local[asset_no as int], r),
    {
        self.local[asset_no].state_values()
    }

    /// Returns the market depth of the asset.
    pub fn depth<MD: MarketDepth, EventT, A: Account>(
        &self,
        asset_no: usize,
    ) -> (r: &MD) where L: LocalProcessor<MD, EventT, A>
        requires
            asset_no < self@.local.len(),
        ensures
            proc::depth_is::<MD, EventT, A, L>(&self@.local[asset_no as int], r),
    {
        self.local[asset_no].depth()
    }

    /// Returns the orders of the asset by their ids.
    pub fn orders<MD: MarketDepth, EventT, A: Account>(
        &self,
        asset_no: usize,
    ) -> (r: &HashMap<i64, A::Order>) where L: LocalProcessor<MD, EventT, A>
        requires
            asset_no < self@.local.len(),
        ensures
            proc::orders_are::<MD, EventT, A, L>(&self@.local[asset_no as int], r),
    {
        self.local[asset_no].orders()
    }

    /// Returns the last market trades of the asset.
    pub fn trade_typed<MD: MarketDepth, EventT, A: Account>(
        &self,
        asset_no: usize,
    ) -> (r: &Vec<EventT>) where L: LocalProcessor<MD, EventT, A>
        requires
            asset_no < self@.local.len(),
        ensures
            proc::trades_are::<MD, EventT, A, L>(&self@.local[asset_no as int], r),
    {
        self.local[asset_no].trade()
    }

    /// Returns the feed latency of the asset.
    pub fn feed_latency<MD: MarketDepth, EventT, A: Account>(
        &self,
        asset_no: usize,
    ) -> (r: Option<(i64, i64)>) where L: LocalProcessor<MD, EventT, A>
        requires
            asset_no < self@.local.len(),
        ensures
            proc::feed_latency_is::<MD, EventT, A, L>(&self@.local[asset_no as int], r),
    {
        self.local[asset_no].feed_latency()
    }

    /// Returns the order latency of the asset.
    pub fn order_latency<MD: MarketDepth, EventT, A: Account>(
        &self,
        asset_no: usize,
    ) -> (r: Option<(i64, i64, i64)>) where L: LocalProcessor<MD, EventT, A>
        requires
            asset_no < self@.local.len(),
        ensures
            proc::order_latency_is::<MD, EventT, A, L>(&self@.local[asset_no as int], r),
    {
        self.local[asset_no].order_latency()
    }

    /// Returns a reference to each of the last market trades of the asset.
    pub fn trade<MD: MarketDepth, EventT, A: Account>(&self, asset_no: usize) -> (r: Vec<
        &EventT,
    >) where L: LocalProcessor<MD, EventT, A>
        requires
            asset_no < self@.local.len(),
        ensures
            requests::trades_listed::<MD, EventT, A, L>(&self@.local[asset_no as int], r@),
    {
        let events: &Vec<EventT> = self.local[asset_no].trade();
        let mut list: Vec<&EventT> = Vec::new();
        let mut i: usize = 0;
        while i < events.len()
            invariant
                i <= events.len(),
                list.len() == i,
                forall|j: int| 0 <= j < i ==> *#[trigger] list@[j] == events@[j],
            decreases events.len() - i,
        {
            list.push(&events[i]);
            i += 1;
        }
        assert(proc::trades_are::<MD, EventT, A, L>(&self@.local[asset_no as int], events));
        list
    }
}

} // verus!
