//! The backtester whose assets all have the same models.

use std::collections::HashMap;
use std::marker::PhantomData;

use vstd::prelude::*;

use crate::asset::{push_sides, Asset};
use crate::depth::MarketDepth;
use crate::engine::Engine;
use crate::proc;
use crate::proc::{Account, LocalCall, LocalProcessor, Processor};
use crate::requests;
use crate::run;
use crate::run::{BacktestState, Waiting};
use crate::types::{BacktestError, BuildError, OrdType, OrderRequest, Side, TimeInForce};
use crate::types::WAIT_ORDER_RESPONSE_NONE;

verus! {

/// [`MultiAssetSingleExchangeBacktest`] builder.
#[verifier::reject_recursive_types(Local)]
#[verifier::reject_recursive_types(Exchange)]
pub struct MultiAssetSingleExchangeBacktestBuilder<Local, Exchange> {
    local: Vec<Local>,
    exch: Vec<Exchange>,
}

impl<Local: Processor, Exchange: Processor> MultiAssetSingleExchangeBacktestBuilder<
    Local,
    Exchange,
> {
    /// The local sides of the assets that were added.
    pub closed spec fn local(&self) -> Seq<Local> {
        self.local@
    }

    /// The exchange sides of the assets that were added.
    pub closed spec fn exch(&self) -> Seq<Exchange> {
        self.exch@
    }

    /// Every asset that was added has both sides.
    pub open spec fn wf(&self) -> bool {
        self.local().len() == self.exch().len()
    }

    /// Adds [`Asset`], which will undergo simulation within the backtester.
    pub fn add(self, asset: Asset<Local, Exchange>) -> (r: Self)
        ensures
            r.local() == self.local().push(*asset.local),
            r.exch() == self.exch().push(*asset.exch),
            r.local().len() == self.local().len() + 1,
            r.exch().len() == self.exch().len() + 1,
    {
        let mut builder = self;
        push_sides(&mut builder.local, &mut builder.exch, *asset.local, *asset.exch);
        builder
    }

    /// Builds [`MultiAssetSingleExchangeBacktest`].
    pub fn build<MD: MarketDepth, EventT, A: Account>(self) -> (r: Result<
        MultiAssetSingleExchangeBacktest<MD, EventT, A, Local, Exchange>,
        BuildError,
    >) where Local: LocalProcessor<MD, EventT, A>
        requires
            self.wf(),
        ensures
            r matches Ok(b) && b@.wf() && b@ == BacktestState::fresh(self.local(), self.exch()),
    {
        Ok(
            MultiAssetSingleExchangeBacktest {
                engine: Engine::new(self.local, self.exch),
                _marker: PhantomData,
            },
        )
    }
}

/// This backtester provides multi-asset and single-exchange model backtesting, meaning all assets
/// have the same setups for models such as asset type or queue model. However, this can be slightly
/// faster than [`MultiAssetMultiExchangeBacktest`](crate::multi::MultiAssetMultiExchangeBacktest).
/// If you need to configure different models for each asset, use that one.
#[verifier::reject_recursive_types(MD)]
#[verifier::reject_recursive_types(EventT)]
#[verifier::reject_recursive_types(A)]
#[verifier::reject_recursive_types(Local)]
#[verifier::reject_recursive_types(Exchange)]
pub struct MultiAssetSingleExchangeBacktest<MD, EventT, A, Local, Exchange> {
    engine: Engine<Local, Exchange>,
    _marker: PhantomData<(MD, EventT, A)>,
}

impl<MD, EventT, A, Local, Exchange> View for MultiAssetSingleExchangeBacktest<
    MD,
    EventT,
    A,
    Local,
    Exchange,
> {
    type V = BacktestState<Local, Exchange>;

    closed spec fn view(&self) -> BacktestState<Local, Exchange> {
        self.engine@
    }
}

impl<
    MD: MarketDepth,
    EventT,
    A: Account,
    Local: LocalProcessor<MD, EventT, A>,
    Exchange: Processor,
> MultiAssetSingleExchangeBacktest<MD, EventT, A, Local, Exchange> {
    /// A builder with no assets.
    pub fn builder() -> (r: MultiAssetSingleExchangeBacktestBuilder<Local, Exchange>)
        ensures
            r.wf(),
            r.local() == Seq::<Local>::empty(),
            r.exch() == Seq::<Exchange>::empty(),
            r.local().len() == 0,
    {
        MultiAssetSingleExchangeBacktestBuilder { local: Vec::new(), exch: Vec::new() }
    }

    /// A backtester for the assets with these local and exchange sides.
    pub fn new(local: Vec<Local>, exch: Vec<Exchange>) -> (r: Self)
        requires
            local.len() == exch.len(),
        ensures
            r@.wf(),
            r@ == BacktestState::fresh(local@, exch@),
    {
        MultiAssetSingleExchangeBacktest {
            engine: Engine::new(local, exch),
            _marker: PhantomData,
        }
    }

    /// Processes pending events up to `timestamp`, and sets the clock to it. A run that waits ends
    /// earlier: with `WAIT_NEXT_FEED` at the time of the next market data that a local side
    /// receives, or of the next order response if `include_order_resp`; without it at the time of
    /// the response to the order of the asset in `wait_order_response`. Events at that time are
    /// still processed. Returns false if no event is left.
    pub fn goto<const WAIT_NEXT_FEED: bool>(
        &mut self,
        timestamp: i64,
        wait_order_response: (usize, i64),
        include_order_resp: bool,
    ) -> (r: Result<bool, BacktestError>)
        requires
            old(self)@.wf(),
        ensures
            final(self)@.wf(),
            final(self)@.local.len() == old(self)@.local.len(),
            run::goes_to(
                old(self)@,
                timestamp,
                Waiting::of(WAIT_NEXT_FEED, wait_order_response, include_order_resp),
                final(self)@,
                r,
            ),
    {
        self.engine.goto::<WAIT_NEXT_FEED>(timestamp, wait_order_response, include_order_resp)
    }

    /// Returns the current timestamp, `i64::MAX` before the first event was looked for.
    pub fn current_timestamp(&self) -> (r: i64)
        ensures
            r == self@.cur_ts,
    {
        self.engine.cur_ts
    }

    /// Returns the number of assets.
    pub fn num_assets(&self) -> (r: usize)
        ensures
            r == self@.local.len(),
    {
        self.engine.local.len()
    }

    /// Returns the position of the asset.
    pub fn position(&self, asset_no: usize) -> (r: A::Position)
        requires
            asset_no < self@.local.len(),
        ensures
            proc::position_is::<MD, EventT, A, Local>(
                &self@.local[asset_no as int],
                r,
            ),
    {
        self.engine.position::<MD, EventT, A>(asset_no)
    }

    /// Returns the state values of the asset's account.
    pub fn state_values(&self, asset_no: usize) -> (r: A::StateValues)
        requires
            asset_no < self@.local.len(),
        ensures
            proc::state_values_are::<MD, EventT, A, Local>(
                &self@.local[asset_no as int],
                r,
            ),
    {
        self.engine.state_values::<MD, EventT, A>(asset_no)
    }

    /// Returns the market depth of the asset.
    pub fn depth(&self, asset_no: usize) -> (r: &MD)
        requires
            asset_no < self@.local.len(),
        ensures
            proc::depth_is::<MD, EventT, A, Local>(
                &self@.local[asset_no as int],
                r,
            ),
    {
        self.engine.depth::<MD, EventT, A>(asset_no)
    }

    /// Returns the market depth of the asset.
    pub fn depth_typed(&self, asset_no: usize) -> (r: &MD)
        requires
            asset_no < self@.local.len(),
        ensures
            proc::depth_is::<MD, EventT, A, Local>(
                &self@.local[asset_no as int],
                r,
            ),
    {
        self.engine.depth::<MD, EventT, A>(asset_no)
    }

    /// Returns the orders of the asset by their ids.
    pub fn orders(&self, asset_no: usize) -> (r: &HashMap<i64, A::Order>)
        requires
            asset_no < self@.local.len(),
        ensures
            proc::orders_are::<MD, EventT, A, Local>(
                &self@.local[asset_no as int],
                r,
            ),
    {
        self.engine.orders::<MD, EventT, A>(asset_no)
    }

    /// Returns the last market trades of the asset.
    pub fn trade_typed(&self, asset_no: usize) -> (r: &Vec<EventT>)
        requires
            asset_no < self@.local.len(),
        ensures
            proc::trades_are::<MD, EventT, A, Local>(
                &self@.local[asset_no as int],
                r,
            ),
    {
        self.engine.trade_typed::<MD, EventT, A>(asset_no)
    }

    /// Returns the last feed's exchange timestamp and local receipt timestamp.
    pub fn feed_latency(&self, asset_no: usize) -> (r: Option<(i64, i64)>)
        requires
            asset_no < self@.local.len(),
        ensures
            proc::feed_latency_is::<MD, EventT, A, Local>(
                &self@.local[asset_no as int],
                r,
            ),
    {
        self.engine.feed_latency::<MD, EventT, A>(asset_no)
    }

    /// Returns the last order's request, exchange and response receipt timestamps.
    pub fn order_latency(&self, asset_no: usize) -> (r: Option<(i64, i64, i64)>)
        requires
            asset_no < self@.local.len(),
        ensures
            proc::order_latency_is::<MD, EventT, A, Local>(
                &self@.local[asset_no as int],
                r,
            ),
    {
        self.engine.order_latency::<MD, EventT, A>(asset_no)
    }

    /// Returns a reference to each of the last market trades of the asset.
    pub fn trade(&self, asset_no: usize) -> (r: Vec<&EventT>)
        requires
            asset_no < self@.local.len(),
        ensures
            requests::trades_listed::<MD, EventT, A, Local>(
                &self@.local[asset_no as int],
                r@,
            ),
    {
        self.engine.trade::<MD, EventT, A>(asset_no)
    }

    /// Clears the last market trades of the asset, or of every asset.
    pub fn clear_last_trades(&mut self, asset_no: Option<usize>)
        requires
            old(self)@.wf(),
            asset_no matches Some(an) ==> an < old(self)@.local.len(),
        ensures
            final(self)@.wf(),
            final(self)@.local.len() == old(self)@.local.len(),
            requests::requested_of::<MD, EventT, A, Local, Exchange>(
                old(self)@,
                asset_no,
                LocalCall::ClearLastTrades,
                final(self)@,
            ),
    {
        self.engine.clear_last_trades::<MD, EventT, A>(asset_no)
    }

    /// Clears the inactive orders of the asset, or of every asset.
    pub fn clear_inactive_orders(&mut self, asset_no: Option<usize>)
        requires
            old(self)@.wf(),
            asset_no matches Some(an) ==> an < old(self)@.local.len(),
        ensures
            final(self)@.wf(),
            final(self)@.local.len() == old(self)@.local.len(),
            requests::requested_of::<MD, EventT, A, Local, Exchange>(
                old(self)@,
                asset_no,
                LocalCall::ClearInactiveOrders,
                final(self)@,
            ),
    {
        self.engine.clear_inactive_orders::<MD, EventT, A>(asset_no)
    }

    /// Submits a buy order. If `wait`, runs until its response is received.
    pub fn submit_buy_order(
        &mut self,
        asset_no: usize,
        order_id: i64,
        price: MD::Num,
        qty: MD::Num,
        time_in_force: TimeInForce,
        order_type: OrdType,
        wait: bool,
    ) -> (r: Result<bool, BacktestError>)
        requires
            old(self)@.wf(),
            asset_no < old(self)@.local.len(),
        ensures
            final(self)@.wf(),
            final(self)@.local.len() == old(self)@.local.len(),
            requests::carried_out::<MD, EventT, A, Local, Exchange>(
                old(self)@,
                asset_no,
                order_id,
                requests::submission(
                    order_id,
                    Side::Buy,
                    price,
                    qty,
                    order_type,
                    time_in_force,
                    old(self)@.cur_ts,
                ),
                wait,
                true,
                final(self)@,
                r,
            ),
    {
        let outcome = self.engine.submit::<MD, EventT, A>(
            asset_no,
            order_id,
            Side::Buy,
            price,
            qty,
            order_type,
            time_in_force,
        );
        self.engine.answer(outcome, asset_no, order_id, wait, true)
    }

    /// Submits a sell order. If `wait`, runs until its response is received.
    pub fn submit_sell_order(
        &mut self,
        asset_no: usize,
        order_id: i64,
        price: MD::Num,
        qty: MD::Num,
        time_in_force: TimeInForce,
        order_type: OrdType,
        wait: bool,
    ) -> (r: Result<bool, BacktestError>)
        requires
            old(self)@.wf(),
            asset_no < old(self)@.local.len(),
        ensures
            final(self)@.wf(),
            final(self)@.local.len() == old(self)@.local.len(),
            requests::carried_out::<MD, EventT, A, Local, Exchange>(
                old(self)@,
                asset_no,
                order_id,
                requests::submission(
                    order_id,
                    Side::Sell,
                    price,
                    qty,
                    order_type,
                    time_in_force,
                    old(self)@.cur_ts,
                ),
                wait,
                true,
                final(self)@,
                r,
            ),
    {
        let outcome = self.engine.submit::<MD, EventT, A>(
            asset_no,
            order_id,
            Side::Sell,
            price,
            qty,
            order_type,
            time_in_force,
        );
        self.engine.answer(outcome, asset_no, order_id, wait, true)
    }

    /// Submits the order as a sell order. If `wait`, runs until its response is received.
    pub fn submit_order(
        &mut self,
        asset_no: usize,
        order: OrderRequest<MD::Num>,
        wait: bool,
    ) -> (r: Result<bool, BacktestError>)
        requires
            old(self)@.wf(),
            asset_no < old(self)@.local.len(),
        ensures
            final(self)@.wf(),
            final(self)@.local.len() == old(self)@.local.len(),
            requests::carried_out::<MD, EventT, A, Local, Exchange>(
                old(self)@,
                asset_no,
                order.order_id,
                requests::submission(
                    order.order_id,
                    Side::Sell,
                    order.price,
                    order.qty,
                    order.order_type,
                    order.time_in_force,
                    old(self)@.cur_ts,
                ),
                wait,
                true,
                final(self)@,
                r,
            ),
    {
        let outcome = self.engine.submit::<MD, EventT, A>(
            asset_no,
            order.order_id,
            Side::Sell,
            order.price,
            order.qty,
            order.order_type,
            order.time_in_force,
        );
        self.engine.answer(outcome, asset_no, order.order_id, wait, true)
    }

    /// Cancels an order. If `wait`, runs until the response is received.
    pub fn cancel(
        &mut self,
        asset_no: usize,
        order_id: i64,
        wait: bool,
    ) -> (r: Result<bool, BacktestError>)
        requires
            old(self)@.wf(),
            asset_no < old(self)@.local.len(),
        ensures
            final(self)@.wf(),
            final(self)@.local.len() == old(self)@.local.len(),
            requests::carried_out::<MD, EventT, A, Local, Exchange>(
                old(self)@,
                asset_no,
                order_id,
                requests::cancellation(order_id, old(self)@.cur_ts),
                wait,
                true,
                final(self)@,
                r,
            ),
    {
        let outcome = self.engine.cancel::<MD, EventT, A>(asset_no, order_id);
        self.engine.answer(outcome, asset_no, order_id, wait, true)
    }

    /// Runs until the response to the order is received, for `timeout` at most, added to
    /// the clock in wrapping arithmetic.
    pub fn wait_order_response(&mut self, asset_no: usize, order_id: i64, timeout: i64) -> (r:
        Result<bool, BacktestError>)
        requires
            old(self)@.wf(),
        ensures
            final(self)@.wf(),
            final(self)@.local.len() == old(self)@.local.len(),
            run::goes_to(
                old(self)@,
                old(self)@.cur_ts.wrapping_add(timeout),
                Waiting::of(false, (asset_no, order_id), false),
                final(self)@,
                r,
            ),
    {
        let timestamp: i64 = self.engine.cur_ts.wrapping_add(timeout);
        self.goto::<false>(timestamp, (asset_no, order_id), false)
    }

    /// Runs until a local side receives market data, or an order response if `include_order_resp`,
    /// for `timeout` at most. Starts the backtester if it was not started.
    pub fn wait_next_feed(&mut self, include_order_resp: bool, timeout: i64) -> (r: Result<
        bool,
        BacktestError,
    >)
        requires
            old(self)@.wf(),
        ensures
            final(self)@.wf(),
            final(self)@.local.len() == old(self)@.local.len(),
            requests::runs_for(
                old(self)@,
                timeout,
                Waiting::of(true, (0, WAIT_ORDER_RESPONSE_NONE), include_order_resp),
                final(self)@,
                r,
            ),
    {
        self.engine.run_for::<true>(timeout, (0, WAIT_ORDER_RESPONSE_NONE), include_order_resp)
    }

    /// Runs for `duration`. Starts the backtester if it was not started.
    pub fn elapse(&mut self, duration: i64) -> (r: Result<bool, BacktestError>)
        requires
            old(self)@.wf(),
        ensures
            final(self)@.wf(),
            final(self)@.local.len() == old(self)@.local.len(),
            requests::runs_for(
                old(self)@,
                duration,
                Waiting::of(false, (0, WAIT_ORDER_RESPONSE_NONE), false),
                final(self)@,
                r,
            ),
    {
        self.engine.run_for::<false>(duration, (0, WAIT_ORDER_RESPONSE_NONE), false)
    }

    /// Runs for `duration`, as `elapse` does.
    pub fn elapse_bt(&mut self, duration: i64) -> (r: Result<bool, BacktestError>)
        requires
            old(self)@.wf(),
        ensures
            final(self)@.wf(),
            final(self)@.local.len() == old(self)@.local.len(),
            requests::runs_for(
                old(self)@,
                duration,
                Waiting::of(false, (0, WAIT_ORDER_RESPONSE_NONE), false),
                final(self)@,
                r,
            ),
    {
        self.elapse(duration)
    }

    /// Ends the use of the backtester. There is nothing to release.
    pub fn close(&mut self) -> (r: Result<(), BacktestError>)
        ensures
            r is Ok,
            final(self)@ == old(self)@,
    {
        Ok(())
    }
}

} // verus!
