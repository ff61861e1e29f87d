//! Queue models: estimations of where a resting order stands in the queue at its price.

use std::marker::PhantomData;

use vstd::prelude::*;

use crate::depth::MarketDepth;
use crate::quantity;
use crate::quantity::Quantity;
use crate::types::{Order, Side};

verus! {

/// Provides an estimation of the order's queue position.
pub trait QueueModel<MD: MarketDepth> {
    /// What the model keeps with an order.
    type Pos;

    /// Initialize the queue position and other necessary values for estimation.
    /// This function is called when the exchange model accepts the new order.
    fn new_order(&self, order: &mut Order<MD::Num, Self::Pos>, depth: &MD);

    /// Adjusts the estimation values when market trades occur at the same price.
    fn trade(&self, order: &mut Order<MD::Num, Self::Pos>, qty: MD::Num, depth: &MD);

    /// Adjusts the estimation values when market depth changes at the same price.
    fn depth(
        &self,
        order: &mut Order<MD::Num, Self::Pos>,
        prev_qty: MD::Num,
        new_qty: MD::Num,
        depth: &MD,
    );

    /// Returns the quantity of the order that is executed.
    fn is_filled(&self, order: &Order<MD::Num, Self::Pos>, depth: &MD) -> MD::Num;
}

/// `depth` reports `qty` as the quantity at the tick on the side: that of the bids for a buy order,
/// that of the asks for any other.
pub open spec fn qty_at_tick<MD: MarketDepth>(
    depth: &MD,
    side: Side,
    price_tick: i32,
    qty: MD::Num,
) -> bool {
    if side == Side::Buy {
        call_ensures(MD::bid_qty_at_tick, (depth, price_tick), qty)
    } else {
        call_ensures(MD::ask_qty_at_tick, (depth, price_tick), qty)
    }
}

/// `depth` reports `lot` as its lot size.
pub open spec fn lot_size_is<MD: MarketDepth>(depth: &MD, lot: MD::Num) -> bool {
    call_ensures(MD::lot_size, (depth,), lot)
}

/// `r` is `qty` counted in lots.
pub open spec fn in_lots<MD: MarketDepth>(depth: &MD, qty: MD::Num, r: MD::Num) -> bool {
    exists|lot: MD::Num| #[trigger] lot_size_is(depth, lot) && quantity::is_over(qty, lot, r)
}

/// `r` tells whether `qty`, counted in lots and rounded, is negative.
pub open spec fn tells_overtaken<MD: MarketDepth>(depth: &MD, qty: MD::Num, r: bool) -> bool {
    exists|lots: MD::Num, whole: MD::Num, zero: MD::Num|
        #![trigger in_lots(depth, qty, lots), quantity::tells_less_than(whole, zero, r)]
        {
            &&& in_lots(depth, qty, lots)
            &&& quantity::is_round(lots, whole)
            &&& quantity::is_zero(zero)
            &&& quantity::tells_less_than(whole, zero, r)
        }
}

/// `r` is the negative of `qty`, rounded down to whole lots.
pub open spec fn overtaken_by<MD: MarketDepth>(depth: &MD, qty: MD::Num, r: MD::Num) -> bool {
    exists|negated: MD::Num, lots: MD::Num, whole: MD::Num, lot: MD::Num|
        #![trigger in_lots(depth, negated, lots), quantity::is_times(whole, lot, r)]
        {
            &&& quantity::is_negated(qty, negated)
            &&& in_lots(depth, negated, lots)
            &&& quantity::is_floor(lots, whole)
            &&& lot_size_is(depth, lot)
            &&& quantity::is_times(whole, lot, r)
        }
}

/// `r` is the executed quantity of an order with `front_q_qty` ahead of it: what the quantity ahead
/// is below zero, in whole lots, and nothing if that rounds to zero or more.
pub open spec fn executed_qty<MD: MarketDepth>(
    depth: &MD,
    front_q_qty: MD::Num,
    r: MD::Num,
) -> bool {
    exists|overtaken: bool| #[trigger]
        tells_overtaken(depth, front_q_qty, overtaken) && if overtaken {
            overtaken_by(depth, front_q_qty, r)
        } else {
            quantity::is_zero(r)
        }
}

/// The quantity at the tick on the side of an order.
fn front_qty<MD: MarketDepth>(depth: &MD, side: Side, price_tick: i32) -> (r: MD::Num)
    ensures
        qty_at_tick(depth, side, price_tick, r),
{
    if side == Side::Buy {
        depth.bid_qty_at_tick(price_tick)
    } else {
        depth.ask_qty_at_tick(price_tick)
    }
}

/// The executed quantity of an order with `front_q_qty` ahead of it.
fn filled_qty<MD: MarketDepth>(depth: &MD, front_q_qty: MD::Num) -> (r: MD::Num)
    ensures
        executed_qty(depth, front_q_qty, r),
{
    let lot: MD::Num = depth.lot_size();
    let lots: MD::Num = front_q_qty.over(lot);
    let whole: MD::Num = lots.round();
    let zero: MD::Num = MD::Num::zero();
    let overtaken: bool = whole.less_than(zero);
    assert(in_lots(depth, front_q_qty, lots)) by {
        assert(lot_size_is(depth, lot));
    }
    assert(quantity::tells_less_than(whole, zero, overtaken));
    assert(tells_overtaken(depth, front_q_qty, overtaken));
    if overtaken {
        let negated: MD::Num = front_q_qty.negated();
        let lot: MD::Num = depth.lot_size();
        let lots: MD::Num = negated.over(lot);
        let whole: MD::Num = lots.floor();
        assert(in_lots(depth, negated, lots)) by {
            assert(lot_size_is(depth, lot));
        }
        let lot: MD::Num = depth.lot_size();
        let q_qty: MD::Num = whole.times(lot);
        assert(quantity::is_times(whole, lot, q_qty));
        assert(overtaken_by(depth, front_q_qty, q_qty));
        q_qty
    } else {
        MD::Num::zero()
    }
}

/// Provides a conservative queue position model, where your order's queue position advances only
/// when trades occur at the same price level.
#[verifier::reject_recursive_types(MD)]
pub struct RiskAdverseQueueModel<MD>(PhantomData<MD>);

impl<MD> RiskAdverseQueueModel<MD> {
    /// Constructs an instance of `RiskAdverseQueueModel`.
    pub fn new() -> (r: Self)
        ensures
            r == Self::model(),
    {
        RiskAdverseQueueModel(PhantomData)
    }

    /// The model, of which there is one.
    pub closed spec fn model() -> Self {
        RiskAdverseQueueModel(PhantomData)
    }
}

/// What this model keeps with an order is the quantity ahead of it.
impl<MD: MarketDepth> QueueModel<MD> for RiskAdverseQueueModel<MD> {
    type Pos = MD::Num;

    /// The whole quantity at the price is ahead of a new order.
    fn new_order(&self, order: &mut Order<MD::Num, MD::Num>, depth: &MD)
        ensures
            *final(order) == (Order { q: final(order).q, ..*old(order) }),
            qty_at_tick(depth, old(order).side, old(order).price_tick, final(order).q),
    {
        order.q = front_qty(depth, order.side, order.price_tick);
    }

    /// A trade takes its quantity from the front.
    fn trade(&self, order: &mut Order<MD::Num, MD::Num>, qty: MD::Num, depth: &MD)
        ensures
            *final(order) == (Order { q: final(order).q, ..*old(order) }),
            quantity::is_minus(old(order).q, qty, final(order).q),
    {
        order.q = order.q.minus(qty);
    }

    /// The position advances only when trades occur, so a change of the depth leaves it.
    fn depth(
        &self,
        order: &mut Order<MD::Num, MD::Num>,
        prev_qty: MD::Num,
        new_qty: MD::Num,
        depth: &MD,
    )
        ensures
            *final(order) == *old(order),
    {
    }

    /// Returns what trades took beyond the quantity ahead, in whole lots.
    fn is_filled(&self, order: &Order<MD::Num, MD::Num>, depth: &MD) -> (r: MD::Num)
        ensures
            executed_qty(depth, order.q, r),
    {
        filled_qty(depth, order.q)
    }
}

/// Stores the values needed for queue position estimation and adjustment for [`ProbQueueModel`].
#[derive(Clone)]
pub struct QueuePos<N> {
    /// The quantity ahead of the order.
    pub front_q_qty: N,
    /// The quantity traded since the depth changed last.
    pub cum_trade_qty: N,
}

impl<N: Quantity> Default for QueuePos<N> {
    fn default() -> (r: Self)
        ensures
            quantity::is_zero(r.front_q_qty),
            quantity::is_zero(r.cum_trade_qty),
    {
        QueuePos { front_q_qty: N::zero(), cum_trade_qty: N::zero() }
    }
}

/// Provides the probability of a decrease behind the order's queue position.
pub trait Probability<N> {
    /// Returns the probability based on the quantity ahead and behind the order.
    fn prob(&self, front: N, back: N) -> N;
}

/// `chg` is by how much the quantity at the price decreased other than by trades.
pub open spec fn net_decrease<N: Quantity>(
    prev_qty: N,
    new_qty: N,
    cum_trade_qty: N,
    chg: N,
) -> bool {
    exists|decrease: N| #[trigger]
        quantity::is_minus(prev_qty, new_qty, decrease) && quantity::is_minus(
            decrease,
            cum_trade_qty,
            chg,
        )
}

/// `r` is the probability that `p` returns.
pub open spec fn prob_is<N, P: Probability<N>>(p: &P, front: N, back: N, r: N) -> bool {
    call_ensures(P::prob, (p, front, back), r)
}

/// `r` is the probability that `p` returns, with one in place of an infinite value.
pub open spec fn finite_prob<N: Quantity, P: Probability<N>>(
    p: &P,
    front: N,
    back: N,
    r: N,
) -> bool {
    exists|prob: N, infinite: bool|
        #![trigger prob_is(p, front, back, prob), quantity::tells_infinite(prob, infinite)]
        {
            &&& prob_is(p, front, back, prob)
            &&& quantity::tells_infinite(prob, infinite)
            &&& if infinite {
                quantity::is_one(r)
            } else {
                r == prob
            }
        }
}

/// `r` is `front - (1 - prob) * chg`: what is left ahead after the part of the decrease that
/// happened there.
pub open spec fn front_left<N: Quantity>(front: N, prob: N, chg: N, r: N) -> bool {
    exists|one: N, rest: N, gone: N|
        #![trigger quantity::is_minus(one, prob, rest), quantity::is_minus(front, gone, r)]
        {
            &&& quantity::is_one(one)
            &&& quantity::is_minus(one, prob, rest)
            &&& quantity::is_times(rest, chg, gone)
            &&& quantity::is_minus(front, gone, r)
        }
}

/// `r` is `min(back - prob * chg, 0)`: what the part of the decrease that happened behind exceeds
/// the quantity there by.
pub open spec fn back_excess<N: Quantity>(back: N, prob: N, chg: N, r: N) -> bool {
    exists|gone: N, left: N, zero: N|
        #![trigger quantity::is_minus(back, gone, left), quantity::is_lesser(left, zero, r)]
        {
            &&& quantity::is_times(prob, chg, gone)
            &&& quantity::is_minus(back, gone, left)
            &&& quantity::is_zero(zero)
            &&& quantity::is_lesser(left, zero, r)
        }
}

/// `r` is the estimated quantity ahead of the order after a decrease by `chg`:
/// `front - (1 - prob) * chg + min(back - prob * chg, 0)`.
pub open spec fn estimated_front<N: Quantity>(
    front: N,
    back: N,
    prob: N,
    chg: N,
    r: N,
) -> bool {
    exists|left: N, excess: N|
        #![trigger front_left(front, prob, chg, left), back_excess(back, prob, chg, excess)]
        {
            &&& front_left(front, prob, chg, left)
            &&& back_excess(back, prob, chg, excess)
            &&& quantity::is_plus(left, excess, r)
        }
}

/// `r` is the quantity ahead of the order after the quantity at the price, which was `prev_qty`,
/// decreased by `chg` to `new_qty`.
pub open spec fn front_after_decrease<N: Quantity, P: Probability<N>>(
    p: &P,
    front: N,
    prev_qty: N,
    new_qty: N,
    chg: N,
    r: N,
) -> bool {
    exists|back: N, prob: N, est_front: N|
        #![trigger
            finite_prob(p, front, back, prob),
            estimated_front(front, back, prob, chg, est_front)]
        {
            &&& quantity::is_minus(prev_qty, front, back)
            &&& finite_prob(p, front, back, prob)
            &&& estimated_front(front, back, prob, chg, est_front)
            &&& quantity::is_lesser(est_front, new_qty, r)
        }
}

/// `r` is the quantity ahead of the order after the quantity at the price changed from `prev_qty`
/// to `new_qty`, with `chg` the decrease other than by trades. An increase leaves it, but for the
/// limit that the quantity at the price sets.
pub open spec fn front_after_change<N: Quantity, P: Probability<N>>(
    p: &P,
    front: N,
    prev_qty: N,
    new_qty: N,
    chg: N,
    r: N,
) -> bool {
    exists|zero: N, increased: bool|
        #![trigger quantity::tells_less_than(chg, zero, increased)]
        {
            &&& quantity::is_zero(zero)
            &&& quantity::tells_less_than(chg, zero, increased)
            &&& if increased {
                quantity::is_lesser(front, new_qty, r)
            } else {
                front_after_decrease(p, front, prev_qty, new_qty, chg, r)
            }
        }
}

/// The position after a trade of `qty`: it is taken from the front and added to what was traded.
pub open spec fn position_after_trade<N: Quantity>(
    pre: QueuePos<N>,
    qty: N,
    post: QueuePos<N>,
) -> bool {
    &&& quantity::is_minus(pre.front_q_qty, qty, post.front_q_qty)
    &&& quantity::is_plus(pre.cum_trade_qty, qty, post.cum_trade_qty)
}

/// The position after the quantity at the price changed from `prev_qty` to `new_qty`: the front
/// moves by the decrease other than by trades, and what was traded starts anew.
pub open spec fn position_after_change<N: Quantity, P: Probability<N>>(
    p: &P,
    pre: QueuePos<N>,
    prev_qty: N,
    new_qty: N,
    post: QueuePos<N>,
) -> bool {
    &&& quantity::is_zero(post.cum_trade_qty)
    &&& exists|chg: N| #[trigger]
        net_decrease(prev_qty, new_qty, pre.cum_trade_qty, chg) && front_after_change(
            p,
            pre.front_q_qty,
            prev_qty,
            new_qty,
            chg,
            post.front_q_qty,
        )
}

/// Provides a probability-based queue position model as described in
/// * https://quant.stackexchange.com/questions/3782/how-do-we-estimate-position-of-our-order-in-order-book
/// * https://rigtorp.se/2013/06/08/estimating-order-queue-position.html
///
/// Your order's queue position advances when a trade occurs at the same price level or the quantity
/// at the level decreases. The advancement in queue position depends on the probability based on
/// the relative queue position. To avoid double counting the quantity decrease caused by trades,
/// all trade quantities occurring at the level before the book quantity changes will be subtracted
/// from the book quantity changes.
#[verifier::reject_recursive_types(MD)]
pub struct ProbQueueModel<P, MD> {
    prob: P,
    _md_marker: PhantomData<MD>,
}

impl<P: Probability<MD::Num>, MD: MarketDepth> ProbQueueModel<P, MD> {
    /// Constructs an instance of `ProbQueueModel` with a [`Probability`] model.
    pub fn new(prob: P) -> (r: Self)
        ensures
            r.probability() == prob,
    {
        ProbQueueModel { prob, _md_marker: PhantomData }
    }

    /// The model of the probability.
    pub closed spec fn probability(&self) -> P {
        self.prob
    }
}

impl<P: Probability<MD::Num>, MD: MarketDepth> QueueModel<MD> for ProbQueueModel<P, MD> {
    type Pos = QueuePos<MD::Num>;

    /// The whole quantity at the price is ahead of a new order, and nothing was traded yet.
    fn new_order(&self, order: &mut Order<MD::Num, QueuePos<MD::Num>>, depth: &MD)
        ensures
            *final(order) == (Order { q: final(order).q, ..*old(order) }),
            qty_at_tick(depth, old(order).side, old(order).price_tick, final(order).q.front_q_qty),
            quantity::is_zero(final(order).q.cum_trade_qty),
    {
        let mut q: QueuePos<MD::Num> = QueuePos::default();
        q.front_q_qty = front_qty(depth, order.side, order.price_tick);
        order.q = q;
    }

    /// A trade takes its quantity from the front, and is added to what was traded.
    fn trade(&self, order: &mut Order<MD::Num, QueuePos<MD::Num>>, qty: MD::Num, depth: &MD)
        ensures
            *final(order) == (Order { q: final(order).q, ..*old(order) }),
            position_after_trade(old(order).q, qty, final(order).q),
    {
        order.q.front_q_qty = order.q.front_q_qty.minus(qty);
        order.q.cum_trade_qty = order.q.cum_trade_qty.plus(qty);
    }

    /// A decrease that trades do not account for is split between what is ahead of the order and
    /// what is behind it, by the probability. What was traded starts anew.
    fn depth(
        &self,
        order: &mut Order<MD::Num, QueuePos<MD::Num>>,
        prev_qty: MD::Num,
        new_qty: MD::Num,
        depth: &MD,
    )
        ensures
            *final(order) == (Order { q: final(order).q, ..*old(order) }),
            position_after_change(
                &self.probability(),
                old(order).q,
                prev_qty,
                new_qty,
                final(order).q,
            ),
    {
        // In order to avoid duplicate order queue position adjustment, subtract queue position
        // change by trades.
        let decrease: MD::Num = prev_qty.minus(new_qty);
        let chg: MD::Num = decrease.minus(order.q.cum_trade_qty);
        assert(quantity::is_minus(prev_qty, new_qty, decrease));
        assert(net_decrease(prev_qty, new_qty, old(order).q.cum_trade_qty, chg));
        // Reset, as quantity change by trade should be already reflected in qty.
        order.q.cum_trade_qty = MD::Num::zero();
        let zero: MD::Num = MD::Num::zero();
        let increased: bool = chg.less_than(zero);
        assert(quantity::tells_less_than(chg, zero, increased));
        let front: MD::Num = order.q.front_q_qty;
        // For an increase of the quantity, front queue doesn't change by the quantity change.
        if increased {
            order.q.front_q_qty = front.lesser(new_qty);
            return;
        }
        let back: MD::Num = prev_qty.minus(front);
        let prob: MD::Num = self.finite(front, back);
        let est_front: MD::Num = estimate(front, back, prob, chg);
        order.q.front_q_qty = est_front.lesser(new_qty);
        assert(front_after_decrease(
            &self.prob,
            front,
            prev_qty,
            new_qty,
            chg,
            order.q.front_q_qty,
        ));
    }

    /// Returns what trades took beyond the quantity ahead, in whole lots.
    fn is_filled(&self, order: &Order<MD::Num, QueuePos<MD::Num>>, depth: &MD) -> (r: MD::Num)
        ensures
            executed_qty(depth, order.q.front_q_qty, r),
    {
        filled_qty(depth, order.q.front_q_qty)
    }
}

impl<P: Probability<MD::Num>, MD: MarketDepth> ProbQueueModel<P, MD> {
    /// The probability of a decrease behind the order, with one in place of an infinite value.
    fn finite(&self, front: MD::Num, back: MD::Num) -> (r: MD::Num)
        ensures
            finite_prob(&self.prob, front, back, r),
    {
        let prob: MD::Num = self.prob.prob(front, back);
        let infinite: bool = prob.is_infinite();
        assert(prob_is(&self.prob, front, back, prob));
        assert(quantity::tells_infinite(prob, infinite));
        if infinite {
            MD::Num::one()
        } else {
            prob
        }
    }
}

/// The estimated quantity ahead of the order after a decrease by `chg`.
fn estimate<N: Quantity>(front: N, back: N, prob: N, chg: N) -> (r: N)
    ensures
        estimated_front(front, back, prob, chg, r),
{
    let one: N = N::one();
    let rest: N = one.minus(prob);
    let gone: N = rest.times(chg);
    let left: N = front.minus(gone);
    assert(quantity::is_minus(one, prob, rest));
    assert(quantity::is_minus(front, gone, left));
    assert(front_left(front, prob, chg, left));
    let gone: N = prob.times(chg);
    let behind: N = back.minus(gone);
    let zero: N = N::zero();
    let excess: N = behind.lesser(zero);
    assert(quantity::is_minus(back, gone, behind));
    assert(quantity::is_lesser(behind, zero, excess));
    assert(back_excess(back, prob, chg, excess));
    left.plus(excess)
}

/// `r` is `ln(1 + x)`.
pub open spec fn is_log<N: Quantity>(x: N, r: N) -> bool {
    exists|one: N, sum: N| #[trigger]
        quantity::is_plus(one, x, sum) && quantity::is_one(one) && quantity::is_ln(sum, r)
}

/// The logarithm of one more than `x`.
fn log<N: Quantity>(x: N) -> (r: N)
    ensures
        is_log(x, r),
{
    let one: N = N::one();
    let sum: N = one.plus(x);
    assert(quantity::is_plus(one, x, sum));
    sum.ln()
}

/// This probability model uses a power function `f(x) = x ** n` to adjust the probability which is
/// calculated as `f(back) / (f(back) + f(front))`.
pub struct PowerProbQueueFunc<N> {
    pub n: N,
}

impl<N: Quantity> PowerProbQueueFunc<N> {
    /// Constructs an instance of `PowerProbQueueFunc`.
    pub fn new(n: N) -> (r: Self)
        ensures
            r.n == n,
    {
        PowerProbQueueFunc { n }
    }

    fn f(&self, x: N) -> (r: N)
        ensures
            quantity::is_power(x, self.n, r),
    {
        x.power(self.n)
    }
}

impl<N: Quantity> Probability<N> for PowerProbQueueFunc<N> {
    fn prob(&self, front: N, back: N) -> (r: N)
        ensures
            exists|a: N, b: N, c: N, sum: N|
                #![trigger quantity::is_plus(b, c, sum), quantity::is_over(a, sum, r)]
                {
                    &&& quantity::is_power(back, self.n, a)
                    &&& quantity::is_power(back, self.n, b)
                    &&& quantity::is_power(front, self.n, c)
                    &&& quantity::is_plus(b, c, sum)
                    &&& quantity::is_over(a, sum, r)
                },
    {
        let a: N = self.f(back);
        let b: N = self.f(back);
        let c: N = self.f(front);
        let sum: N = b.plus(c);
        let r: N = a.over(sum);
        assert(quantity::is_plus(b, c, sum) && quantity::is_over(a, sum, r));
        r
    }
}

/// This probability model uses a logarithmic function `f(x) = log(1 + x)` to adjust the
/// probability which is calculated as `f(back) / (f(back) + f(front))`.
pub struct LogProbQueueFunc(());

impl LogProbQueueFunc {
    /// Constructs an instance of `LogProbQueueFunc`.
    pub fn new() -> (r: Self)
        ensures
            r == Self::func(),
    {
        LogProbQueueFunc(())
    }

    /// The function, of which there is one.
    pub closed spec fn func() -> Self {
        LogProbQueueFunc(())
    }

    fn f<N: Quantity>(&self, x: N) -> (r: N)
        ensures
            is_log(x, r),
    {
        log(x)
    }
}

impl<N: Quantity> Probability<N> for LogProbQueueFunc {
    fn prob(&self, front: N, back: N) -> (r: N)
        ensures
            exists|a: N, b: N, c: N, sum: N|
                #![trigger quantity::is_plus(b, c, sum), quantity::is_over(a, sum, r)]
                {
                    &&& is_log(back, a)
                    &&& is_log(back, b)
                    &&& is_log(front, c)
                    &&& quantity::is_plus(b, c, sum)
                    &&& quantity::is_over(a, sum, r)
                },
    {
        let a: N = self.f(back);
        let b: N = self.f(back);
        let c: N = self.f(front);
        let sum: N = b.plus(c);
        let r: N = a.over(sum);
        assert(quantity::is_plus(b, c, sum) && quantity::is_over(a, sum, r));
        r
    }
}

/// This probability model uses a logarithmic function `f(x) = log(1 + x)` to adjust the
/// probability which is calculated as `f(back) / f(back + front)`.
pub struct LogProbQueueFunc2(());

impl LogProbQueueFunc2 {
    /// Constructs an instance of `LogProbQueueFunc2`.
    pub fn new() -> (r: Self)
        ensures
            r == Self::func(),
    {
        LogProbQueueFunc2(())
    }

    /// The function, of which there is one.
    pub closed spec fn func() -> Self {
        LogProbQueueFunc2(())
    }

    fn f<N: Quantity>(&self, x: N) -> (r: N)
        ensures
            is_log(x, r),
    {
        log(x)
    }
}

impl<N: Quantity> Probability<N> for LogProbQueueFunc2 {
    fn prob(&self, front: N, back: N) -> (r: N)
        ensures
            exists|a: N, sum: N, b: N|
                #![trigger quantity::is_plus(back, front, sum), quantity::is_over(a, b, r)]
                {
                    &&& is_log(back, a)
                    &&& quantity::is_plus(back, front, sum)
                    &&& is_log(sum, b)
                    &&& quantity::is_over(a, b, r)
                },
    {
        let a: N = self.f(back);
        let sum: N = back.plus(front);
        let b: N = self.f(sum);
        let r: N = a.over(b);
        assert(quantity::is_plus(back, front, sum) && quantity::is_over(a, b, r));
        r
    }
}

/// This probability model uses a power function `f(x) = x ** n` to adjust the probability which is
/// calculated as `f(back) / f(back + front)`.
pub struct PowerProbQueueFunc2<N> {
    pub n: N,
}

impl<N: Quantity> PowerProbQueueFunc2<N> {
    /// Constructs an instance of `PowerProbQueueFunc2`.
    pub fn new(n: N) -> (r: Self)
        ensures
            r.n == n,
    {
        PowerProbQueueFunc2 { n }
    }

    fn f(&self, x: N) -> (r: N)
        ensures
            quantity::is_power(x, self.n, r),
    {
        x.power(self.n)
    }
}

impl<N: Quantity> Probability<N> for PowerProbQueueFunc2<N> {
    fn prob(&self, front: N, back: N) -> (r: N)
        ensures
            exists|a: N, sum: N, b: N|
                #![trigger quantity::is_plus(back, front, sum), quantity::is_over(a, b, r)]
                {
                    &&& quantity::is_power(back, self.n, a)
                    &&& quantity::is_plus(back, front, sum)
                    &&& quantity::is_power(sum, self.n, b)
                    &&& quantity::is_over(a, b, r)
                },
    {
        let a: N = self.f(back);
        let sum: N = back.plus(front);
        let b: N = self.f(sum);
        let r: N = a.over(b);
        assert(quantity::is_plus(back, front, sum) && quantity::is_over(a, b, r));
        r
    }
}

/// This probability model uses a power function `f(x) = x ** n` to adjust the probability which is
/// calculated as `1 - f(front / (front + back))`.
pub struct PowerProbQueueFunc3<N> {
    pub n: N,
}

impl<N: Quantity> PowerProbQueueFunc3<N> {
    /// Constructs an instance of `PowerProbQueueFunc3`.
    pub fn new(n: N) -> (r: Self)
        ensures
            r.n == n,
    {
        PowerProbQueueFunc3 { n }
    }

    fn f(&self, x: N) -> (r: N)
        ensures
            quantity::is_power(x, self.n, r),
    {
        x.power(self.n)
    }
}

impl<N: Quantity> Probability<N> for PowerProbQueueFunc3<N> {
    fn prob(&self, front: N, back: N) -> (r: N)
        ensures
            exists|sum: N, share: N, a: N, one: N|
                #![trigger quantity::is_over(front, sum, share), quantity::is_minus(one, a, r)]
                {
                    &&& quantity::is_plus(front, back, sum)
                    &&& quantity::is_over(front, sum, share)
                    &&& quantity::is_power(share, self.n, a)
                    &&& quantity::is_one(one)
                    &&& quantity::is_minus(one, a, r)
                },
    {
        let one: N = N::one();
        let sum: N = front.plus(back);
        let share: N = front.over(sum);
        let a: N = self.f(share);
        let r: N = one.minus(a);
        assert(quantity::is_over(front, sum, share) && quantity::is_minus(one, a, r));
        r
    }
}

} // verus!
