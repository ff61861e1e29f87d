//! What each call of the queue models that estimate a position gives, counted in units on a scale
//! on which the arithmetic is exact.

use vstd::prelude::*;

use crate::depth::MarketDepth;
use crate::quantity;
use crate::quantity::Quantity;
use crate::queue;
use crate::queue::{LogProbQueueFunc, LogProbQueueFunc2};
use crate::queue::{PowerProbQueueFunc, PowerProbQueueFunc2, PowerProbQueueFunc3};
use crate::queue::{ProbQueueModel, Probability, QueueModel, QueuePos, RiskAdverseQueueModel};
use crate::queue_laws::Scale;
use crate::types::{Order, Side};

verus! {

/// Products are exact where there is a number that they can be, with one being `one` units.
pub open spec fn products_are_exact<N: Quantity>(scale: Scale<N>, one: int) -> bool {
    forall|a: N, b: N, r: N, x: int, y: int, z: int|
        #![trigger
            quantity::is_times(a, b, r),
            scale.counts(a, x),
            scale.counts(b, y),
            scale.fits(z)]
        {
            &&& quantity::is_times(a, b, r)
            &&& scale.counts(a, x)
            &&& scale.counts(b, y)
            &&& scale.fits(z)
            &&& x * y == z * one
        } ==> scale.counts(r, z)
}

/// Quotients are exact where there is a number that they can be, with one being `one` units.
pub open spec fn quotients_are_exact<N: Quantity>(scale: Scale<N>, one: int) -> bool {
    forall|a: N, b: N, r: N, x: int, y: int, z: int|
        #![trigger
            quantity::is_over(a, b, r),
            scale.counts(a, x),
            scale.counts(b, y),
            scale.fits(z)]
        {
            &&& quantity::is_over(a, b, r)
            &&& scale.counts(a, x)
            &&& scale.counts(b, y)
            &&& scale.fits(z)
            &&& y != 0
            &&& z * y == x * one
        } ==> scale.counts(r, z)
}

/// `k * one` is the greatest multiple of `one` that is not greater than `x`.
pub open spec fn is_floor_of(x: int, one: int, k: int) -> bool {
    k * one <= x < (k + 1) * one
}

/// `k * one` is the multiple of `one` that is nearest to `x`, and of two that are, the one further
/// from zero.
pub open spec fn is_nearest_to(x: int, one: int, k: int) -> bool {
    &&& -one <= 2 * (x - k * one) <= one
    &&& 2 * (x - k * one) == one ==> x < 0
    &&& 2 * (x - k * one) == -one ==> x > 0
}

/// Rounding and changing the sign are exact, with one being `one` units.
pub open spec fn roundings_are_exact<N: Quantity>(scale: Scale<N>, one: int) -> bool {
    &&& forall|a: N, r: N, x: int|
        #![trigger quantity::is_floor(a, r), scale.counts(a, x)]
        quantity::is_floor(a, r) && scale.counts(a, x) ==> exists|k: int|
            #![trigger is_floor_of(x, one, k)]
            is_floor_of(x, one, k) && scale.counts(r, k * one)
    &&& forall|a: N, r: N, x: int|
        #![trigger quantity::is_round(a, r), scale.counts(a, x)]
        quantity::is_round(a, r) && scale.counts(a, x) ==> exists|k: int|
            #![trigger is_nearest_to(x, one, k)]
            is_nearest_to(x, one, k) && scale.counts(r, k * one)
    &&& forall|a: N, r: N, x: int|
        #![trigger quantity::is_negated(a, r), scale.counts(a, x)]
        quantity::is_negated(a, r) && scale.counts(a, x) ==> scale.counts(r, -x)
}

/// All arithmetic is exact on the scale wherever it can be, and one is `one` units. That of
/// single-precision numbers is so, with `2 ** -149` for the unit.
pub open spec fn all_exact<N: Quantity>(scale: Scale<N>, one: int) -> bool {
    &&& scale.exact()
    &&& 0 < one
    &&& forall|a: N| #[trigger] quantity::is_one(a) ==> scale.counts(a, one)
    &&& products_are_exact(scale, one)
    &&& quotients_are_exact(scale, one)
    &&& roundings_are_exact(scale, one)
}

/// The names for what the operations return are names for the operations that they say.
pub proof fn operations_are_what_they_are_called<N: Quantity>(a: N, b: N, r: N, t: bool)
    ensures
        quantity::is_zero(r) == call_ensures(N::zero, (), r),
        quantity::is_one(r) == call_ensures(N::one, (), r),
        quantity::is_plus(a, b, r) == call_ensures(N::plus, (a, b), r),
        quantity::is_minus(a, b, r) == call_ensures(N::minus, (a, b), r),
        quantity::is_times(a, b, r) == call_ensures(N::times, (a, b), r),
        quantity::is_over(a, b, r) == call_ensures(N::over, (a, b), r),
        quantity::is_negated(a, r) == call_ensures(N::negated, (a,), r),
        quantity::is_lesser(a, b, r) == call_ensures(N::lesser, (a, b), r),
        quantity::tells_less_than(a, b, t) == call_ensures(N::less_than, (a, b), t),
        quantity::tells_infinite(a, t) == call_ensures(N::is_infinite, (a,), t),
        quantity::is_round(a, r) == call_ensures(N::round, (a,), r),
        quantity::is_floor(a, r) == call_ensures(N::floor, (a,), r),
        quantity::is_power(a, b, r) == call_ensures(N::power, (a, b), r),
        quantity::is_ln(a, r) == call_ensures(N::ln, (a,), r),
{
}

/// The lesser of the two.
pub open spec fn min_of(x: int, y: int) -> int {
    if x <= y {
        x
    } else {
        y
    }
}

/// Every lot size that `depth` reports is `lot` units.
pub open spec fn lot_counts<MD: MarketDepth>(scale: Scale<MD::Num>, depth: &MD, lot: int) -> bool {
    forall|r: MD::Num| #[trigger] call_ensures(MD::lot_size, (depth,), r) ==> scale.counts(r, lot)
}

/// An order has `front` units ahead of it, and the lot is `lot` units. Counted in lots, the
/// quantity ahead is `lots` units, and the numbers that are met with are numbers of the scale.
pub open spec fn countable_in_lots<N: Quantity>(
    scale: Scale<N>,
    one: int,
    front: int,
    lot: int,
    lots: int,
) -> bool {
    &&& lot > 0
    &&& lots * lot == front * one
    &&& scale.fits(lots)
    &&& scale.fits(-lots)
    &&& front < 0 ==> scale.fits(((-front) / lot) * lot)
}

/// What is executed is what the quantity ahead is below zero, rounded down to whole lots.
proof fn lemma_executed<MD: MarketDepth>(
    scale: Scale<MD::Num>,
    one: int,
    depth: &MD,
    front: int,
    lot: int,
    lots: int,
    qty: MD::Num,
    r: MD::Num,
)
    requires
        all_exact(scale, one),
        lot_counts(scale, depth, lot),
        countable_in_lots(scale, one, front, lot, lots),
        scale.counts(qty, front),
        queue::executed_qty(depth, qty, r),
    ensures
        front >= 0 ==> scale.counts(r, 0),
        front < 0 ==> scale.counts(r, ((-front) / lot) * lot),
{
    let overtaken = choose|overtaken: bool| #[trigger]
        queue::tells_overtaken(depth, qty, overtaken) && if overtaken {
            queue::overtaken_by(depth, qty, r)
        } else {
            quantity::is_zero(r)
        };
    let (in_lots, whole, zero) = choose|in_lots: MD::Num, whole: MD::Num, zero: MD::Num|
        #![trigger
            queue::in_lots(depth, qty, in_lots),
            quantity::tells_less_than(whole, zero, overtaken)]
        {
            &&& queue::in_lots(depth, qty, in_lots)
            &&& quantity::is_round(in_lots, whole)
            &&& quantity::is_zero(zero)
            &&& quantity::tells_less_than(whole, zero, overtaken)
        };
    lemma_in_lots(scale, one, depth, front, lot, lots, qty, in_lots);
    let k = choose|k: int|
        #![trigger is_nearest_to(lots, one, k)]
        is_nearest_to(lots, one, k) && scale.counts(whole, k * one);
    assert(scale.counts(zero, 0));
    assert(overtaken == (k * one < 0));
    lemma_rounded_sign(lots, one, k);
    if front >= 0 {
        assert(lots >= 0) by (nonlinear_arith)
            requires
                lots * lot == front * one,
                lot > 0,
                front >= 0,
                one > 0,
        ;
    } else {
        assert(lots < 0) by (nonlinear_arith)
            requires
                lots * lot == front * one,
                lot > 0,
                front < 0,
                one > 0,
        ;
        let below = -front;
        assert((-lots) * lot == (-front) * one) by (nonlinear_arith)
            requires
                lots * lot == front * one,
        ;
        if overtaken {
            let (negated, up, floored, l) = choose|
                negated: MD::Num,
                up: MD::Num,
                floored: MD::Num,
                l: MD::Num,
            |
                #![trigger
                    queue::in_lots(depth, negated, up),
                    quantity::is_times(floored, l, r)]
                {
                    &&& quantity::is_negated(qty, negated)
                    &&& queue::in_lots(depth, negated, up)
                    &&& quantity::is_floor(up, floored)
                    &&& queue::lot_size_is(depth, l)
                    &&& quantity::is_times(floored, l, r)
                };
            assert(scale.counts(negated, -front));
            lemma_in_lots(scale, one, depth, -front, lot, -lots, negated, up);
            let w = choose|w: int|
                #![trigger is_floor_of(-lots, one, w)]
                is_floor_of(-lots, one, w) && scale.counts(floored, w * one);
            lemma_floor_in_lots(below, one, lot, -lots, w);
            assert(scale.counts(l, lot));
            assert((w * one) * lot == (w * lot) * one) by (nonlinear_arith);
            assert(scale.fits(w * lot));
        } else {
            lemma_less_than_a_lot(below, one, lot, -lots);
        }
    }
}

/// A quantity counted in lots.
proof fn lemma_in_lots<MD: MarketDepth>(
    scale: Scale<MD::Num>,
    one: int,
    depth: &MD,
    front: int,
    lot: int,
    lots: int,
    qty: MD::Num,
    r: MD::Num,
)
    requires
        all_exact(scale, one),
        lot_counts(scale, depth, lot),
        lot > 0,
        lots * lot == front * one,
        scale.fits(lots),
        scale.counts(qty, front),
        queue::in_lots(depth, qty, r),
    ensures
        scale.counts(r, lots),
{
    let l = choose|l: MD::Num| #[trigger]
        queue::lot_size_is(depth, l) && quantity::is_over(qty, l, r);
    assert(scale.counts(l, lot));
}

/// A number that is rounded keeps its sign, unless it is rounded to zero.
proof fn lemma_rounded_sign(x: int, one: int, k: int)
    requires
        one > 0,
        is_nearest_to(x, one, k),
    ensures
        x >= 0 ==> k * one >= 0,
        x < 0 && k * one >= 0 ==> -x < one,
{
    if x >= 0 && k < 0 {
        assert(k * one <= -one) by (nonlinear_arith)
            requires
                k <= -1,
                one > 0,
        ;
    }
    if k >= 0 {
        assert(k * one >= 0) by (nonlinear_arith)
            requires
                k >= 0,
                one > 0,
        ;
    }
}

/// Whole lots, counted in units of one or in lots.
proof fn lemma_floor_in_lots(below: int, one: int, lot: int, lots: int, w: int)
    requires
        one > 0,
        lot > 0,
        lots * lot == below * one,
        is_floor_of(lots, one, w),
    ensures
        w == below / lot,
{
    assert(w * lot <= below) by (nonlinear_arith)
        requires
            one > 0,
            lot > 0,
            lots * lot == below * one,
            w * one <= lots,
    ;
    assert(below < (w + 1) * lot) by (nonlinear_arith)
        requires
            one > 0,
            lot > 0,
            lots * lot == below * one,
            lots < (w + 1) * one,
    ;
    assert((w + 1) * lot == w * lot + lot && w * lot == lot * w) by (nonlinear_arith);
    vstd::arithmetic::div_mod::lemma_fundamental_div_mod_converse(below, lot, w, below - w * lot);
}

/// Less than one lot is no whole lot.
proof fn lemma_less_than_a_lot(below: int, one: int, lot: int, lots: int)
    requires
        one > 0,
        lot > 0,
        0 <= below,
        lots * lot == below * one,
        lots < one,
    ensures
        (below / lot) * lot == 0,
{
    assert(below < lot) by (nonlinear_arith)
        requires
            one > 0,
            lot > 0,
            lots * lot == below * one,
            lots < one,
    ;
    vstd::arithmetic::div_mod::lemma_basic_div(below, lot);
    assert(0 * lot == 0);
}

/// The risk-averse model executes what trades took beyond the quantity ahead, in whole lots: with
/// `front` units ahead it is nothing if that is not negative, and otherwise what is below zero,
/// rounded down to whole lots.
pub proof fn risk_adverse_fills_whole_lots<MD: MarketDepth>(
    scale: Scale<MD::Num>,
    one: int,
    model: &RiskAdverseQueueModel<MD>,
    order: &Order<MD::Num, MD::Num>,
    depth: &MD,
    front: int,
    lot: int,
    lots: int,
    r: MD::Num,
)
    requires
        call_ensures(
            <RiskAdverseQueueModel<MD> as QueueModel<MD>>::is_filled,
            (model, order, depth),
            r,
        ),
        all_exact(scale, one),
        lot_counts(scale, depth, lot),
        countable_in_lots(scale, one, front, lot, lots),
        scale.counts(order.q, front),
    ensures
        front >= 0 ==> scale.counts(r, 0),
        front < 0 ==> scale.counts(r, ((-front) / lot) * lot),
{
    lemma_executed(scale, one, depth, front, lot, lots, order.q, r);
}

/// The model by probability executes what the quantity ahead is below zero, in whole lots: with
/// `front` units ahead it is nothing if that is not negative, and otherwise what is below zero,
/// rounded down to whole lots.
pub proof fn prob_fills_whole_lots<P: Probability<MD::Num>, MD: MarketDepth>(
    scale: Scale<MD::Num>,
    one: int,
    model: &ProbQueueModel<P, MD>,
    order: &Order<MD::Num, QueuePos<MD::Num>>,
    depth: &MD,
    front: int,
    lot: int,
    lots: int,
    r: MD::Num,
)
    requires
        call_ensures(
            <ProbQueueModel<P, MD> as QueueModel<MD>>::is_filled,
            (model, order, depth),
            r,
        ),
        all_exact(scale, one),
        lot_counts(scale, depth, lot),
        countable_in_lots(scale, one, front, lot, lots),
        scale.counts(order.q.front_q_qty, front),
    ensures
        front >= 0 ==> scale.counts(r, 0),
        front < 0 ==> scale.counts(r, ((-front) / lot) * lot),
{
    lemma_executed(scale, one, depth, front, lot, lots, order.q.front_q_qty, r);
}

/// The order is as it was, but for what the queue model keeps with it.
pub open spec fn only_position_touched<N, Q>(pre: Order<N, Q>, post: Order<N, Q>) -> bool {
    &&& post.order_id == pre.order_id
    &&& post.side == pre.side
    &&& post.price_tick == pre.price_tick
    &&& post.qty == pre.qty
    &&& post.leaves_qty == pre.leaves_qty
}

/// `depth` reports this quantity at the price of the order, on its own side.
pub open spec fn found_at_the_price<MD: MarketDepth, Q>(
    depth: &MD,
    order: Order<MD::Num, Q>,
    qty: MD::Num,
) -> bool {
    &&& order.side == Side::Buy ==> call_ensures(
        MD::bid_qty_at_tick,
        (depth, order.price_tick),
        qty,
    )
    &&& order.side != Side::Buy ==> call_ensures(
        MD::ask_qty_at_tick,
        (depth, order.price_tick),
        qty,
    )
}

/// A new order of either model is behind all that is at its price on its own side, and nothing was
/// traded yet.
pub proof fn a_new_order_is_behind_all<P: Probability<MD::Num>, MD: MarketDepth>(
    averse: &RiskAdverseQueueModel<MD>,
    a: &mut Order<MD::Num, MD::Num>,
    prob: &ProbQueueModel<P, MD>,
    b: &mut Order<MD::Num, QueuePos<MD::Num>>,
    depth: &MD,
)
    requires
        call_ensures(
            <RiskAdverseQueueModel<MD> as QueueModel<MD>>::new_order,
            (averse, a, depth),
            (),
        ),
        call_ensures(
            <ProbQueueModel<P, MD> as QueueModel<MD>>::new_order,
            (prob, b, depth),
            (),
        ),
    ensures
        only_position_touched(*old(a), *final(a)),
        found_at_the_price(depth, *old(a), final(a).q),
        only_position_touched(*old(b), *final(b)),
        found_at_the_price(depth, *old(b), final(b).q.front_q_qty),
        call_ensures(<MD::Num as Quantity>::zero, (), final(b).q.cum_trade_qty),
{
}

/// A trade takes its quantity from what is ahead of an order of the risk-averse model, and a change
/// of the depth takes nothing.
pub proof fn risk_adverse_advances_by_trades_alone<MD: MarketDepth>(
    scale: Scale<MD::Num>,
    model: &RiskAdverseQueueModel<MD>,
    a: &mut Order<MD::Num, MD::Num>,
    b: &mut Order<MD::Num, MD::Num>,
    qty: MD::Num,
    prev_qty: MD::Num,
    new_qty: MD::Num,
    depth: &MD,
    front: int,
    units: int,
)
    requires
        call_ensures(
            <RiskAdverseQueueModel<MD> as QueueModel<MD>>::trade,
            (model, a, qty, depth),
            (),
        ),
        call_ensures(
            <RiskAdverseQueueModel<MD> as QueueModel<MD>>::depth,
            (model, b, prev_qty, new_qty, depth),
            (),
        ),
        scale.exact(),
        scale.counts(old(a).q, front),
        scale.counts(qty, units),
        scale.fits(front - units),
    ensures
        only_position_touched(*old(a), *final(a)),
        scale.counts(final(a).q, front - units),
        *final(b) == *old(b),
{
}

/// A trade takes its quantity from what is ahead of an order of the model by probability, and is
/// added to what was traded.
pub proof fn prob_advances_by_trades<P: Probability<MD::Num>, MD: MarketDepth>(
    scale: Scale<MD::Num>,
    model: &ProbQueueModel<P, MD>,
    order: &mut Order<MD::Num, QueuePos<MD::Num>>,
    qty: MD::Num,
    depth: &MD,
    front: int,
    traded: int,
    units: int,
)
    requires
        call_ensures(
            <ProbQueueModel<P, MD> as QueueModel<MD>>::trade,
            (model, order, qty, depth),
            (),
        ),
        scale.exact(),
        scale.counts(old(order).q.front_q_qty, front),
        scale.counts(old(order).q.cum_trade_qty, traded),
        scale.counts(qty, units),
        scale.fits(front - units),
        scale.fits(traded + units),
    ensures
        only_position_touched(*old(order), *final(order)),
        scale.counts(final(order).q.front_q_qty, front - units),
        scale.counts(final(order).q.cum_trade_qty, traded + units),
{
}

/// With `front` ahead and what is behind, the probability model says that a decrease is behind the
/// order with the probability `prob`, in units. An infinite value counts as one.
pub open spec fn prob_counts<N: Quantity, P: Probability<N>>(
    scale: Scale<N>,
    one: int,
    p: &P,
    front: N,
    prev_qty: N,
    prob: int,
) -> bool {
    forall|back: N, r: N, infinite: bool|
        #![trigger
            quantity::is_minus(prev_qty, front, back),
            queue::prob_is(p, front, back, r),
            quantity::tells_infinite(r, infinite)]
        {
            &&& call_ensures(N::minus, (prev_qty, front), back)
            &&& call_ensures(P::prob, (p, front, back), r)
            &&& call_ensures(N::is_infinite, (r,), infinite)
        } ==> {
            &&& infinite ==> prob == one
            &&& !infinite ==> scale.counts(r, prob)
        }
}

/// How a decrease by `chg` units is split with the probability `prob`: `ahead` units of it were
/// ahead of the order, and `behind` units behind it. The numbers that are met with are numbers of
/// the scale.
pub open spec fn splits<N: Quantity>(
    scale: Scale<N>,
    one: int,
    prob: int,
    chg: int,
    ahead: int,
    behind: int,
) -> bool {
    &&& ahead * one == (one - prob) * chg
    &&& behind * one == prob * chg
    &&& scale.fits(one - prob)
    &&& scale.fits(ahead)
    &&& scale.fits(behind)
}

/// What the model by probability makes of a change of the quantity at the price from `prev` to
/// `new` units, with `front` units ahead of the order and `traded` units traded since the last
/// change. The net change is `prev - new - traded`. If that is an increase, the quantity ahead
/// stays. A decrease is split by the probability: the part ahead is taken from the quantity ahead,
/// and so is what the part behind exceeds the quantity behind by. No more is ahead than there is,
/// and what was traded starts anew.
pub proof fn prob_splits_the_net_decrease<P: Probability<MD::Num>, MD: MarketDepth>(
    scale: Scale<MD::Num>,
    one: int,
    model: &ProbQueueModel<P, MD>,
    order: &mut Order<MD::Num, QueuePos<MD::Num>>,
    prev_qty: MD::Num,
    new_qty: MD::Num,
    depth: &MD,
    front: int,
    traded: int,
    prev: int,
    new: int,
    prob: int,
    ahead: int,
    behind: int,
)
    requires
        call_ensures(
            <ProbQueueModel<P, MD> as QueueModel<MD>>::depth,
            (model, order, prev_qty, new_qty, depth),
            (),
        ),
        all_exact(scale, one),
        scale.counts(old(order).q.front_q_qty, front),
        scale.counts(old(order).q.cum_trade_qty, traded),
        scale.counts(prev_qty, prev),
        scale.counts(new_qty, new),
        scale.fits(prev - new),
        scale.fits(prev - new - traded),
        prev - new - traded >= 0 ==> {
            &&& prob_counts(
                scale,
                one,
                &model.probability(),
                old(order).q.front_q_qty,
                prev_qty,
                prob,
            )
            &&& splits(scale, one, prob, prev - new - traded, ahead, behind)
            &&& scale.fits(prev - front)
            &&& scale.fits(front - ahead)
            &&& scale.fits(prev - front - behind)
            &&& scale.fits(front - ahead + min_of(prev - front - behind, 0))
        },
    ensures
        only_position_touched(*old(order), *final(order)),
        call_ensures(<MD::Num as Quantity>::zero, (), final(order).q.cum_trade_qty),
        prev - new - traded < 0 ==> scale.counts(
            final(order).q.front_q_qty,
            min_of(front, new),
        ),
        prev - new - traded >= 0 ==> scale.counts(
            final(order).q.front_q_qty,
            min_of(front - ahead + min_of(prev - front - behind, 0), new),
        ),
{
    let p = model.probability();
    let (pre, post) = (old(order).q, final(order).q);
    let f = pre.front_q_qty;
    let chg = choose|chg: MD::Num| #[trigger]
        queue::net_decrease(prev_qty, new_qty, pre.cum_trade_qty, chg)
            && queue::front_after_change(&p, f, prev_qty, new_qty, chg, post.front_q_qty);
    let decrease = choose|decrease: MD::Num| #[trigger]
        quantity::is_minus(prev_qty, new_qty, decrease) && quantity::is_minus(
            decrease,
            pre.cum_trade_qty,
            chg,
        );
    assert(scale.counts(decrease, prev - new));
    let net = prev - new - traded;
    assert(scale.counts(chg, net));
    let (zero, increased) = choose|zero: MD::Num, increased: bool|
        #![trigger quantity::tells_less_than(chg, zero, increased)]
        {
            &&& quantity::is_zero(zero)
            &&& quantity::tells_less_than(chg, zero, increased)
            &&& if increased {
                quantity::is_lesser(f, new_qty, post.front_q_qty)
            } else {
                queue::front_after_decrease(&p, f, prev_qty, new_qty, chg, post.front_q_qty)
            }
        };
    assert(scale.counts(zero, 0));
    assert(increased == (net < 0));
    if net >= 0 {
        let (back, pr, est_front) = choose|back: MD::Num, pr: MD::Num, est_front: MD::Num|
            #![trigger
                queue::finite_prob(&p, f, back, pr),
                queue::estimated_front(f, back, pr, chg, est_front)]
            {
                &&& quantity::is_minus(prev_qty, f, back)
                &&& queue::finite_prob(&p, f, back, pr)
                &&& queue::estimated_front(f, back, pr, chg, est_front)
                &&& quantity::is_lesser(est_front, new_qty, post.front_q_qty)
            };
        assert(scale.counts(back, prev - front));
        let (value, infinite) = choose|value: MD::Num, infinite: bool|
            #![trigger
                queue::prob_is(&p, f, back, value),
                quantity::tells_infinite(value, infinite)]
            {
                &&& queue::prob_is(&p, f, back, value)
                &&& quantity::tells_infinite(value, infinite)
                &&& if infinite {
                    quantity::is_one(pr)
                } else {
                    pr == value
                }
            };
        assert(scale.counts(pr, prob));
        lemma_estimate(
            scale,
            one,
            f,
            back,
            pr,
            chg,
            est_front,
            front,
            prev - front,
            prob,
            net,
            ahead,
            behind,
        );
    }
}

/// The estimate after a decrease.
proof fn lemma_estimate<N: Quantity>(
    scale: Scale<N>,
    one: int,
    f: N,
    b: N,
    p: N,
    c: N,
    est: N,
    front: int,
    back: int,
    prob: int,
    chg: int,
    ahead: int,
    behind: int,
)
    requires
        all_exact(scale, one),
        scale.counts(f, front),
        scale.counts(b, back),
        scale.counts(p, prob),
        scale.counts(c, chg),
        splits(scale, one, prob, chg, ahead, behind),
        scale.fits(front - ahead),
        scale.fits(back - behind),
        scale.fits(front - ahead + min_of(back - behind, 0)),
        queue::estimated_front(f, b, p, c, est),
    ensures
        scale.counts(est, front - ahead + min_of(back - behind, 0)),
{
    let (left, excess) = choose|left: N, excess: N|
        #![trigger queue::front_left(f, p, c, left), queue::back_excess(b, p, c, excess)]
        {
            &&& queue::front_left(f, p, c, left)
            &&& queue::back_excess(b, p, c, excess)
            &&& quantity::is_plus(left, excess, est)
        };
    let (unit, rest, gone) = choose|unit: N, rest: N, gone: N|
        #![trigger quantity::is_minus(unit, p, rest), quantity::is_minus(f, gone, left)]
        {
            &&& quantity::is_one(unit)
            &&& quantity::is_minus(unit, p, rest)
            &&& quantity::is_times(rest, c, gone)
            &&& quantity::is_minus(f, gone, left)
        };
    assert(scale.counts(unit, one));
    assert(scale.counts(rest, one - prob));
    assert(scale.counts(gone, ahead));
    assert(scale.counts(left, front - ahead));
    let (gone, kept, zero) = choose|gone: N, kept: N, zero: N|
        #![trigger quantity::is_minus(b, gone, kept), quantity::is_lesser(kept, zero, excess)]
        {
            &&& quantity::is_times(p, c, gone)
            &&& quantity::is_minus(b, gone, kept)
            &&& quantity::is_zero(zero)
            &&& quantity::is_lesser(kept, zero, excess)
        };
    assert(scale.counts(gone, behind));
    assert(scale.counts(kept, back - behind));
    assert(scale.counts(zero, 0));
    assert(scale.counts(excess, min_of(back - behind, 0)));
}

/// How the model by probability works out the quantity ahead after a net decrease by `chg`, with
/// the value `prob` of its probability model. These are the operations in their order, on whatever
/// numbers, be they rounded, infinite or undefined.
pub open spec fn worked_out<N: Quantity>(
    front: N,
    back: N,
    prob: N,
    chg: N,
    new_qty: N,
    r: N,
) -> bool {
    exists|one: N, rest: N, ahead: N, left: N, behind: N, kept: N, zero: N, excess: N, est: N|
        #![trigger
            quantity::is_minus(one, prob, rest),
            quantity::is_minus(front, ahead, left),
            quantity::is_minus(back, behind, kept),
            quantity::is_lesser(kept, zero, excess),
            quantity::is_lesser(est, new_qty, r)]
        {
            &&& call_ensures(N::one, (), one)
            &&& call_ensures(N::minus, (one, prob), rest)
            &&& call_ensures(N::times, (rest, chg), ahead)
            &&& call_ensures(N::minus, (front, ahead), left)
            &&& call_ensures(N::times, (prob, chg), behind)
            &&& call_ensures(N::minus, (back, behind), kept)
            &&& call_ensures(N::zero, (), zero)
            &&& call_ensures(N::lesser, (kept, zero), excess)
            &&& call_ensures(N::plus, (left, excess), est)
            &&& call_ensures(N::lesser, (est, new_qty), r)
        }
}

/// What the model by probability makes of a change of the quantity at the price, on whatever
/// numbers: only a net change that is less than zero leaves the quantity ahead, but for its limit.
/// Otherwise it is worked out with what the probability model returns, or with one in place of
/// anything infinite.
pub proof fn prob_takes_what_the_probability_model_returns<
    P: Probability<MD::Num>,
    MD: MarketDepth,
>(
    model: &ProbQueueModel<P, MD>,
    order: &mut Order<MD::Num, QueuePos<MD::Num>>,
    prev_qty: MD::Num,
    new_qty: MD::Num,
    depth: &MD,
)
    requires
        call_ensures(
            <ProbQueueModel<P, MD> as QueueModel<MD>>::depth,
            (model, order, prev_qty, new_qty, depth),
            (),
        ),
    ensures
        exists|decrease: MD::Num, chg: MD::Num, zero: MD::Num, less: bool|
            #![trigger
                quantity::is_minus(prev_qty, new_qty, decrease),
                quantity::tells_less_than(chg, zero, less)]
            {
                &&& call_ensures(<MD::Num as Quantity>::minus, (prev_qty, new_qty), decrease)
                &&& call_ensures(
                    <MD::Num as Quantity>::minus,
                    (decrease, old(order).q.cum_trade_qty),
                    chg,
                )
                &&& call_ensures(<MD::Num as Quantity>::zero, (), zero)
                &&& call_ensures(<MD::Num as Quantity>::less_than, (chg, zero), less)
                &&& less ==> call_ensures(
                    <MD::Num as Quantity>::lesser,
                    (old(order).q.front_q_qty, new_qty),
                    final(order).q.front_q_qty,
                )
                &&& !less ==> exists|
                    back: MD::Num,
                    value: MD::Num,
                    infinite: bool,
                    prob: MD::Num,
                |
                    #![trigger
                        quantity::is_minus(prev_qty, old(order).q.front_q_qty, back),
                        quantity::tells_infinite(value, infinite),
                        worked_out(
                            old(order).q.front_q_qty,
                            back,
                            prob,
                            chg,
                            new_qty,
                            final(order).q.front_q_qty,
                        )]
                    {
                        &&& call_ensures(
                            <MD::Num as Quantity>::minus,
                            (prev_qty, old(order).q.front_q_qty),
                            back,
                        )
                        &&& call_ensures(
                            P::prob,
                            (&model.probability(), old(order).q.front_q_qty, back),
                            value,
                        )
                        &&& call_ensures(<MD::Num as Quantity>::is_infinite, (value,), infinite)
                        &&& infinite ==> call_ensures(<MD::Num as Quantity>::one, (), prob)
                        &&& !infinite ==> prob == value
                        &&& worked_out(
                            old(order).q.front_q_qty,
                            back,
                            prob,
                            chg,
                            new_qty,
                            final(order).q.front_q_qty,
                        )
                    }
            },
{
    let p = model.probability();
    let (pre, post) = (old(order).q, final(order).q);
    let f = pre.front_q_qty;
    let chg = choose|chg: MD::Num| #[trigger]
        queue::net_decrease(prev_qty, new_qty, pre.cum_trade_qty, chg)
            && queue::front_after_change(&p, f, prev_qty, new_qty, chg, post.front_q_qty);
    let decrease = choose|decrease: MD::Num| #[trigger]
        quantity::is_minus(prev_qty, new_qty, decrease) && quantity::is_minus(
            decrease,
            pre.cum_trade_qty,
            chg,
        );
    let (zero, less) = choose|zero: MD::Num, less: bool|
        #![trigger quantity::tells_less_than(chg, zero, less)]
        {
            &&& quantity::is_zero(zero)
            &&& quantity::tells_less_than(chg, zero, less)
            &&& if less {
                quantity::is_lesser(f, new_qty, post.front_q_qty)
            } else {
                queue::front_after_decrease(&p, f, prev_qty, new_qty, chg, post.front_q_qty)
            }
        };
    assert(quantity::is_minus(prev_qty, new_qty, decrease));
    assert(quantity::tells_less_than(chg, zero, less));
    if !less {
        let (back, prob, est) = choose|back: MD::Num, prob: MD::Num, est: MD::Num|
            #![trigger
                queue::finite_prob(&p, f, back, prob),
                queue::estimated_front(f, back, prob, chg, est)]
            {
                &&& quantity::is_minus(prev_qty, f, back)
                &&& queue::finite_prob(&p, f, back, prob)
                &&& queue::estimated_front(f, back, prob, chg, est)
                &&& quantity::is_lesser(est, new_qty, post.front_q_qty)
            };
        let (value, infinite) = choose|value: MD::Num, infinite: bool|
            #![trigger
                queue::prob_is(&p, f, back, value),
                quantity::tells_infinite(value, infinite)]
            {
                &&& queue::prob_is(&p, f, back, value)
                &&& quantity::tells_infinite(value, infinite)
                &&& if infinite {
                    quantity::is_one(prob)
                } else {
                    prob == value
                }
            };
        lemma_worked_out(f, back, prob, chg, est, new_qty, post.front_q_qty);
        assert(quantity::is_minus(prev_qty, f, back));
        assert(quantity::tells_infinite(value, infinite));
    }
}

/// The operations of the estimate.
proof fn lemma_worked_out<N: Quantity>(
    front: N,
    back: N,
    prob: N,
    chg: N,
    est: N,
    new_qty: N,
    r: N,
)
    requires
        queue::estimated_front(front, back, prob, chg, est),
        quantity::is_lesser(est, new_qty, r),
    ensures
        worked_out(front, back, prob, chg, new_qty, r),
{
    let (left, excess) = choose|left: N, excess: N|
        #![trigger
            queue::front_left(front, prob, chg, left),
            queue::back_excess(back, prob, chg, excess)]
        {
            &&& queue::front_left(front, prob, chg, left)
            &&& queue::back_excess(back, prob, chg, excess)
            &&& quantity::is_plus(left, excess, est)
        };
    let (one, rest, ahead) = choose|one: N, rest: N, ahead: N|
        #![trigger quantity::is_minus(one, prob, rest), quantity::is_minus(front, ahead, left)]
        {
            &&& quantity::is_one(one)
            &&& quantity::is_minus(one, prob, rest)
            &&& quantity::is_times(rest, chg, ahead)
            &&& quantity::is_minus(front, ahead, left)
        };
    let (behind, kept, zero) = choose|behind: N, kept: N, zero: N|
        #![trigger quantity::is_minus(back, behind, kept), quantity::is_lesser(kept, zero, excess)]
        {
            &&& quantity::is_times(prob, chg, behind)
            &&& quantity::is_minus(back, behind, kept)
            &&& quantity::is_zero(zero)
            &&& quantity::is_lesser(kept, zero, excess)
        };
    assert(quantity::is_minus(one, prob, rest) && quantity::is_minus(front, ahead, left));
    assert(quantity::is_minus(back, behind, kept) && quantity::is_lesser(kept, zero, excess));
    assert(quantity::is_lesser(est, new_qty, r));
}

/// How the executed quantity of an order is worked out, on whatever numbers: the quantity ahead is
/// counted in lots and rounded, and if that is less than zero, what it is below zero is counted in
/// lots, rounded down, and counted in units again. Otherwise it is zero.
pub open spec fn executed_as<MD: MarketDepth>(depth: &MD, front: MD::Num, r: MD::Num) -> bool {
    exists|lot: MD::Num, lots: MD::Num, whole: MD::Num, zero: MD::Num, less: bool|
        #![trigger
            quantity::is_over(front, lot, lots),
            quantity::is_round(lots, whole),
            quantity::tells_less_than(whole, zero, less)]
        {
            &&& call_ensures(MD::lot_size, (depth,), lot)
            &&& call_ensures(<MD::Num as Quantity>::over, (front, lot), lots)
            &&& call_ensures(<MD::Num as Quantity>::round, (lots,), whole)
            &&& call_ensures(<MD::Num as Quantity>::zero, (), zero)
            &&& call_ensures(<MD::Num as Quantity>::less_than, (whole, zero), less)
            &&& !less ==> call_ensures(<MD::Num as Quantity>::zero, (), r)
            &&& less ==> whole_lots_below_zero(depth, front, r)
        }
}

/// What the quantity is below zero, in whole lots.
pub open spec fn whole_lots_below_zero<MD: MarketDepth>(
    depth: &MD,
    front: MD::Num,
    r: MD::Num,
) -> bool {
    exists|below: MD::Num, lot: MD::Num, lots: MD::Num, whole: MD::Num, l: MD::Num|
        #![trigger
            quantity::is_negated(front, below),
            quantity::is_over(below, lot, lots),
            quantity::is_floor(lots, whole),
            quantity::is_times(whole, l, r)]
        {
            &&& call_ensures(<MD::Num as Quantity>::negated, (front,), below)
            &&& call_ensures(MD::lot_size, (depth,), lot)
            &&& call_ensures(<MD::Num as Quantity>::over, (below, lot), lots)
            &&& call_ensures(<MD::Num as Quantity>::floor, (lots,), whole)
            &&& call_ensures(MD::lot_size, (depth,), l)
            &&& call_ensures(<MD::Num as Quantity>::times, (whole, l), r)
        }
}

/// The operations of the executed quantity.
proof fn lemma_executed_as<MD: MarketDepth>(depth: &MD, front: MD::Num, r: MD::Num)
    requires
        queue::executed_qty(depth, front, r),
    ensures
        executed_as(depth, front, r),
{
    let less = choose|less: bool| #[trigger]
        queue::tells_overtaken(depth, front, less) && if less {
            queue::overtaken_by(depth, front, r)
        } else {
            quantity::is_zero(r)
        };
    let (lots, whole, zero) = choose|lots: MD::Num, whole: MD::Num, zero: MD::Num|
        #![trigger
            queue::in_lots(depth, front, lots),
            quantity::tells_less_than(whole, zero, less)]
        {
            &&& queue::in_lots(depth, front, lots)
            &&& quantity::is_round(lots, whole)
            &&& quantity::is_zero(zero)
            &&& quantity::tells_less_than(whole, zero, less)
        };
    let lot = choose|lot: MD::Num| #[trigger]
        queue::lot_size_is(depth, lot) && quantity::is_over(front, lot, lots);
    if less {
        let (below, up, floored, l) = choose|
            below: MD::Num,
            up: MD::Num,
            floored: MD::Num,
            l: MD::Num,
        |
            #![trigger queue::in_lots(depth, below, up), quantity::is_times(floored, l, r)]
            {
                &&& quantity::is_negated(front, below)
                &&& queue::in_lots(depth, below, up)
                &&& quantity::is_floor(up, floored)
                &&& queue::lot_size_is(depth, l)
                &&& quantity::is_times(floored, l, r)
            };
        let size = choose|size: MD::Num| #[trigger]
            queue::lot_size_is(depth, size) && quantity::is_over(below, size, up);
        assert(quantity::is_negated(front, below) && quantity::is_over(below, size, up));
        assert(quantity::is_floor(up, floored) && quantity::is_times(floored, l, r));
        assert(whole_lots_below_zero(depth, front, r));
    }
    assert(quantity::is_over(front, lot, lots) && quantity::is_round(lots, whole));
    assert(quantity::tells_less_than(whole, zero, less));
}

/// Both models work out the executed quantity alike, from the quantity ahead.
pub proof fn both_models_execute_alike<P: Probability<MD::Num>, MD: MarketDepth>(
    averse: &RiskAdverseQueueModel<MD>,
    a: &Order<MD::Num, MD::Num>,
    x: MD::Num,
    prob: &ProbQueueModel<P, MD>,
    b: &Order<MD::Num, QueuePos<MD::Num>>,
    y: MD::Num,
    depth: &MD,
)
    requires
        call_ensures(
            <RiskAdverseQueueModel<MD> as QueueModel<MD>>::is_filled,
            (averse, a, depth),
            x,
        ),
        call_ensures(
            <ProbQueueModel<P, MD> as QueueModel<MD>>::is_filled,
            (prob, b, depth),
            y,
        ),
    ensures
        executed_as(depth, a.q, x),
        executed_as(depth, b.q.front_q_qty, y),
{
    lemma_executed_as(depth, a.q, x);
    lemma_executed_as(depth, b.q.front_q_qty, y);
}

/// A new position has nothing ahead and nothing traded, and a model by probability has the
/// probability model that it was made with.
pub proof fn models_start_as_told<P: Probability<MD::Num>, MD: MarketDepth>(
    pos: QueuePos<MD::Num>,
    prob: P,
    model: ProbQueueModel<P, MD>,
)
    requires
        call_ensures(<QueuePos<MD::Num> as Default>::default, (), pos),
        call_ensures(ProbQueueModel::<P, MD>::new, (prob,), model),
    ensures
        call_ensures(<MD::Num as Quantity>::zero, (), pos.front_q_qty),
        call_ensures(<MD::Num as Quantity>::zero, (), pos.cum_trade_qty),
        model.probability() == prob,
{
}

/// `x` to the power of `n` is this many units.
pub open spec fn power_counts<N: Quantity>(scale: Scale<N>, x: N, n: N, units: int) -> bool {
    forall|r: N|
        #![trigger quantity::is_power(x, n, r)]
        call_ensures(N::power, (x, n), r) ==> scale.counts(r, units)
}

/// The logarithm of one more than `x` is this many units.
pub open spec fn log_counts<N: Quantity>(scale: Scale<N>, x: N, units: int) -> bool {
    forall|one: N, sum: N, r: N|
        #![trigger quantity::is_plus(one, x, sum), quantity::is_ln(sum, r)]
        {
            &&& call_ensures(N::one, (), one)
            &&& call_ensures(N::plus, (one, x), sum)
            &&& call_ensures(N::ln, (sum,), r)
        } ==> scale.counts(r, units)
}

/// The probability is `f(back) / (f(back) + f(front))` with `f(x) = x ** n`.
pub proof fn power_prob_is_the_share_of_the_back<N: Quantity>(
    scale: Scale<N>,
    one: int,
    func: &PowerProbQueueFunc<N>,
    front: N,
    back: N,
    r: N,
    f: int,
    b: int,
    units: int,
)
    requires
        call_ensures(
            <PowerProbQueueFunc<N> as Probability<N>>::prob,
            (func, front, back),
            r,
        ),
        all_exact(scale, one),
        power_counts(scale, front, func.n, f),
        power_counts(scale, back, func.n, b),
        b + f != 0,
        units * (b + f) == b * one,
        scale.fits(b + f),
        scale.fits(units),
    ensures
        scale.counts(r, units),
{
    let (x, y, z, sum) = choose|x: N, y: N, z: N, sum: N|
        #![trigger quantity::is_plus(y, z, sum), quantity::is_over(x, sum, r)]
        {
            &&& quantity::is_power(back, func.n, x)
            &&& quantity::is_power(back, func.n, y)
            &&& quantity::is_power(front, func.n, z)
            &&& quantity::is_plus(y, z, sum)
            &&& quantity::is_over(x, sum, r)
        };
    assert(scale.counts(x, b) && scale.counts(y, b) && scale.counts(z, f));
    assert(scale.counts(sum, b + f));
}

/// The probability is `f(back) / (f(back) + f(front))` with `f(x) = log(1 + x)`.
pub proof fn log_prob_is_the_share_of_the_back<N: Quantity>(
    scale: Scale<N>,
    one: int,
    func: &LogProbQueueFunc,
    front: N,
    back: N,
    r: N,
    f: int,
    b: int,
    units: int,
)
    requires
        call_ensures(<LogProbQueueFunc as Probability<N>>::prob, (func, front, back), r),
        all_exact(scale, one),
        log_counts(scale, front, f),
        log_counts(scale, back, b),
        b + f != 0,
        units * (b + f) == b * one,
        scale.fits(b + f),
        scale.fits(units),
    ensures
        scale.counts(r, units),
{
    let (x, y, z, sum) = choose|x: N, y: N, z: N, sum: N|
        #![trigger quantity::is_plus(y, z, sum), quantity::is_over(x, sum, r)]
        {
            &&& queue::is_log(back, x)
            &&& queue::is_log(back, y)
            &&& queue::is_log(front, z)
            &&& quantity::is_plus(y, z, sum)
            &&& quantity::is_over(x, sum, r)
        };
    assert(scale.counts(x, b) && scale.counts(y, b) && scale.counts(z, f));
    assert(scale.counts(sum, b + f));
}

/// The probability is `f(back) / f(back + front)` with `f(x) = x ** n`.
pub proof fn power_prob_2_is_the_share_of_the_back<N: Quantity>(
    scale: Scale<N>,
    one: int,
    func: &PowerProbQueueFunc2<N>,
    front: N,
    back: N,
    r: N,
    all: int,
    b: int,
    units: int,
)
    requires
        call_ensures(
            <PowerProbQueueFunc2<N> as Probability<N>>::prob,
            (func, front, back),
            r,
        ),
        all_exact(scale, one),
        forall|sum: N| #[trigger]
            call_ensures(N::plus, (back, front), sum) ==> power_counts(scale, sum, func.n, all),
        power_counts(scale, back, func.n, b),
        all != 0,
        units * all == b * one,
        scale.fits(units),
    ensures
        scale.counts(r, units),
{
    let (x, sum, y) = choose|x: N, sum: N, y: N|
        #![trigger quantity::is_plus(back, front, sum), quantity::is_over(x, y, r)]
        {
            &&& quantity::is_power(back, func.n, x)
            &&& quantity::is_plus(back, front, sum)
            &&& quantity::is_power(sum, func.n, y)
            &&& quantity::is_over(x, y, r)
        };
    assert(call_ensures(N::plus, (back, front), sum));
    assert(scale.counts(x, b) && scale.counts(y, all));
}

/// The probability is `f(back) / f(back + front)` with `f(x) = log(1 + x)`.
pub proof fn log_prob_2_is_the_share_of_the_back<N: Quantity>(
    scale: Scale<N>,
    one: int,
    func: &LogProbQueueFunc2,
    front: N,
    back: N,
    r: N,
    all: int,
    b: int,
    units: int,
)
    requires
        call_ensures(<LogProbQueueFunc2 as Probability<N>>::prob, (func, front, back), r),
        all_exact(scale, one),
        forall|sum: N| #[trigger]
            call_ensures(N::plus, (back, front), sum) ==> log_counts(scale, sum, all),
        log_counts(scale, back, b),
        all != 0,
        units * all == b * one,
        scale.fits(units),
    ensures
        scale.counts(r, units),
{
    let (x, sum, y) = choose|x: N, sum: N, y: N|
        #![trigger quantity::is_plus(back, front, sum), quantity::is_over(x, y, r)]
        {
            &&& queue::is_log(back, x)
            &&& quantity::is_plus(back, front, sum)
            &&& queue::is_log(sum, y)
            &&& quantity::is_over(x, y, r)
        };
    assert(call_ensures(N::plus, (back, front), sum));
    assert(scale.counts(x, b) && scale.counts(y, all));
}

/// The probability is `1 - f(front / (front + back))` with `f(x) = x ** n`.
pub proof fn power_prob_3_is_what_the_front_leaves<N: Quantity>(
    scale: Scale<N>,
    one: int,
    func: &PowerProbQueueFunc3<N>,
    front: N,
    back: N,
    r: N,
    f: int,
)
    requires
        call_ensures(
            <PowerProbQueueFunc3<N> as Probability<N>>::prob,
            (func, front, back),
            r,
        ),
        all_exact(scale, one),
        forall|sum: N, share: N|
            #![trigger
                call_ensures(N::plus, (front, back), sum),
                call_ensures(N::over, (front, sum), share)]
            call_ensures(N::plus, (front, back), sum) && call_ensures(
                N::over,
                (front, sum),
                share,
            ) ==> power_counts(scale, share, func.n, f),
        scale.fits(one - f),
    ensures
        scale.counts(r, one - f),
{
    let (sum, share, x, unit) = choose|sum: N, share: N, x: N, unit: N|
        #![trigger quantity::is_over(front, sum, share), quantity::is_minus(unit, x, r)]
        {
            &&& quantity::is_plus(front, back, sum)
            &&& quantity::is_over(front, sum, share)
            &&& quantity::is_power(share, func.n, x)
            &&& quantity::is_one(unit)
            &&& quantity::is_minus(unit, x, r)
        };
    assert(call_ensures(N::plus, (front, back), sum));
    assert(call_ensures(N::over, (front, sum), share));
    assert(scale.counts(unit, one) && scale.counts(x, f));
}

/// On whatever numbers, the probability is `f(back)` over the sum of `f(back)` and `f(front)`, with
/// `f(x)` being `x` to the power of the exponent, or the logarithm of one more than `x`.
pub proof fn share_of_the_sum_is_worked_out<N: Quantity>(
    power: &PowerProbQueueFunc<N>,
    log: &LogProbQueueFunc,
    front: N,
    back: N,
    r: N,
    s: N,
)
    requires
        call_ensures(<PowerProbQueueFunc<N> as Probability<N>>::prob, (power, front, back), r),
        call_ensures(<LogProbQueueFunc as Probability<N>>::prob, (log, front, back), s),
    ensures
        exists|x: N, y: N, z: N, sum: N|
            #![trigger quantity::is_plus(y, z, sum), quantity::is_over(x, sum, r)]
            {
                &&& call_ensures(N::power, (back, power.n), x)
                &&& call_ensures(N::power, (back, power.n), y)
                &&& call_ensures(N::power, (front, power.n), z)
                &&& call_ensures(N::plus, (y, z), sum)
                &&& call_ensures(N::over, (x, sum), r)
            },
        exists|x: N, y: N, z: N, sum: N|
            #![trigger quantity::is_plus(y, z, sum), quantity::is_over(x, sum, s)]
            {
                &&& log_of_one_more(back, x)
                &&& log_of_one_more(back, y)
                &&& log_of_one_more(front, z)
                &&& call_ensures(N::plus, (y, z), sum)
                &&& call_ensures(N::over, (x, sum), s)
            },
{
    let (x, y, z, sum) = choose|x: N, y: N, z: N, sum: N|
        #![trigger quantity::is_plus(y, z, sum), quantity::is_over(x, sum, s)]
        {
            &&& queue::is_log(back, x)
            &&& queue::is_log(back, y)
            &&& queue::is_log(front, z)
            &&& quantity::is_plus(y, z, sum)
            &&& quantity::is_over(x, sum, s)
        };
    lemma_log(back, x);
    lemma_log(back, y);
    lemma_log(front, z);
    assert(quantity::is_plus(y, z, sum) && quantity::is_over(x, sum, s));
    let (x, y, z, sum) = choose|x: N, y: N, z: N, sum: N|
        #![trigger quantity::is_plus(y, z, sum), quantity::is_over(x, sum, r)]
        {
            &&& quantity::is_power(back, power.n, x)
            &&& quantity::is_power(back, power.n, y)
            &&& quantity::is_power(front, power.n, z)
            &&& quantity::is_plus(y, z, sum)
            &&& quantity::is_over(x, sum, r)
        };
    assert(quantity::is_plus(y, z, sum) && quantity::is_over(x, sum, r));
}

/// `r` is the logarithm of one more than `x`.
pub open spec fn log_of_one_more<N: Quantity>(x: N, r: N) -> bool {
    exists|one: N, sum: N|
        #![trigger quantity::is_plus(one, x, sum)]
        {
            &&& call_ensures(N::one, (), one)
            &&& call_ensures(N::plus, (one, x), sum)
            &&& call_ensures(N::ln, (sum,), r)
        }
}

/// The operations of the logarithm.
proof fn lemma_log<N: Quantity>(x: N, r: N)
    requires
        queue::is_log(x, r),
    ensures
        log_of_one_more(x, r),
{
    let (one, sum) = choose|one: N, sum: N| #[trigger]
        quantity::is_plus(one, x, sum) && quantity::is_one(one) && quantity::is_ln(sum, r);
    assert(quantity::is_plus(one, x, sum));
}

/// On whatever numbers, the probability is `f(back)` over `f(back + front)`, with `f(x)` being `x`
/// to the power of the exponent, or the logarithm of one more than `x`. In the third form it is one
/// less `f` of the share that `front` has in `front + back`.
pub proof fn share_of_the_whole_is_worked_out<N: Quantity>(
    power: &PowerProbQueueFunc2<N>,
    log: &LogProbQueueFunc2,
    third: &PowerProbQueueFunc3<N>,
    front: N,
    back: N,
    r: N,
    s: N,
    t: N,
)
    requires
        call_ensures(<PowerProbQueueFunc2<N> as Probability<N>>::prob, (power, front, back), r),
        call_ensures(<LogProbQueueFunc2 as Probability<N>>::prob, (log, front, back), s),
        call_ensures(<PowerProbQueueFunc3<N> as Probability<N>>::prob, (third, front, back), t),
    ensures
        exists|x: N, sum: N, y: N|
            #![trigger quantity::is_plus(back, front, sum), quantity::is_over(x, y, r)]
            {
                &&& call_ensures(N::power, (back, power.n), x)
                &&& call_ensures(N::plus, (back, front), sum)
                &&& call_ensures(N::power, (sum, power.n), y)
                &&& call_ensures(N::over, (x, y), r)
            },
        exists|x: N, sum: N, y: N|
            #![trigger quantity::is_plus(back, front, sum), quantity::is_over(x, y, s)]
            {
                &&& log_of_one_more(back, x)
                &&& call_ensures(N::plus, (back, front), sum)
                &&& log_of_one_more(sum, y)
                &&& call_ensures(N::over, (x, y), s)
            },
        exists|sum: N, share: N, x: N, one: N|
            #![trigger quantity::is_over(front, sum, share), quantity::is_minus(one, x, t)]
            {
                &&& call_ensures(N::plus, (front, back), sum)
                &&& call_ensures(N::over, (front, sum), share)
                &&& call_ensures(N::power, (share, third.n), x)
                &&& call_ensures(N::one, (), one)
                &&& call_ensures(N::minus, (one, x), t)
            },
{
    let (x, sum, y) = choose|x: N, sum: N, y: N|
        #![trigger quantity::is_plus(back, front, sum), quantity::is_over(x, y, s)]
        {
            &&& queue::is_log(back, x)
            &&& quantity::is_plus(back, front, sum)
            &&& queue::is_log(sum, y)
            &&& quantity::is_over(x, y, s)
        };
    lemma_log(back, x);
    lemma_log(sum, y);
    assert(quantity::is_plus(back, front, sum) && quantity::is_over(x, y, s));
    let (x, sum, y) = choose|x: N, sum: N, y: N|
        #![trigger quantity::is_plus(back, front, sum), quantity::is_over(x, y, r)]
        {
            &&& quantity::is_power(back, power.n, x)
            &&& quantity::is_plus(back, front, sum)
            &&& quantity::is_power(sum, power.n, y)
            &&& quantity::is_over(x, y, r)
        };
    assert(quantity::is_plus(back, front, sum) && quantity::is_over(x, y, r));
    let (sum, share, x, one) = choose|sum: N, share: N, x: N, one: N|
        #![trigger quantity::is_over(front, sum, share), quantity::is_minus(one, x, t)]
        {
            &&& quantity::is_plus(front, back, sum)
            &&& quantity::is_over(front, sum, share)
            &&& quantity::is_power(share, third.n, x)
            &&& quantity::is_one(one)
            &&& quantity::is_minus(one, x, t)
        };
    assert(quantity::is_over(front, sum, share) && quantity::is_minus(one, x, t));
}

/// On whatever numbers, a trade is taken from the quantity ahead, and added to what was traded.
pub proof fn trades_are_taken_from_the_front<P: Probability<MD::Num>, MD: MarketDepth>(
    averse: &RiskAdverseQueueModel<MD>,
    a: &mut Order<MD::Num, MD::Num>,
    prob: &ProbQueueModel<P, MD>,
    b: &mut Order<MD::Num, QueuePos<MD::Num>>,
    qty: MD::Num,
    depth: &MD,
)
    requires
        call_ensures(
            <RiskAdverseQueueModel<MD> as QueueModel<MD>>::trade,
            (averse, a, qty, depth),
            (),
        ),
        call_ensures(
            <ProbQueueModel<P, MD> as QueueModel<MD>>::trade,
            (prob, b, qty, depth),
            (),
        ),
    ensures
        call_ensures(<MD::Num as Quantity>::minus, (old(a).q, qty), final(a).q),
        call_ensures(
            <MD::Num as Quantity>::minus,
            (old(b).q.front_q_qty, qty),
            final(b).q.front_q_qty,
        ),
        call_ensures(
            <MD::Num as Quantity>::plus,
            (old(b).q.cum_trade_qty, qty),
            final(b).q.cum_trade_qty,
        ),
{
}

/// A power function keeps the exponent that it was made with.
pub proof fn power_functions_keep_their_exponent<N: Quantity>(
    n: N,
    a: PowerProbQueueFunc<N>,
    b: PowerProbQueueFunc2<N>,
    c: PowerProbQueueFunc3<N>,
)
    requires
        call_ensures(PowerProbQueueFunc::<N>::new, (n,), a),
        call_ensures(PowerProbQueueFunc2::<N>::new, (n,), b),
        call_ensures(PowerProbQueueFunc3::<N>::new, (n,), c),
    ensures
        a.n == n,
        b.n == n,
        c.n == n,
{
}

} // verus!
