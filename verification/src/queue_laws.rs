//! What holds of the positions that the queue models estimate, where the arithmetic is good enough.

use vstd::prelude::*;

use crate::quantity;
use crate::quantity::Quantity;
use crate::queue;
use crate::queue::{Probability, QueuePos};

verus! {

/// A scale on which some numbers are whole numbers of units.
#[verifier::reject_recursive_types(N)]
pub struct Scale<N> {
    /// How many units a number is, if it is a whole number of them.
    pub units: spec_fn(N) -> Option<int>,
    /// Tells the numbers that are neither infinite nor undefined.
    pub finite: spec_fn(N) -> bool,
}

impl<N: Quantity> Scale<N> {
    /// The number is this many units.
    pub open spec fn counts(self, a: N, units: int) -> bool {
        (self.units)(a) == Some(units)
    }

    /// There is a number that is this many units.
    pub open spec fn fits(self, units: int) -> bool {
        exists|a: N| self.counts(a, units)
    }

    /// Sums and differences are exact where there is a number that they can be.
    pub open spec fn sums_are_exact(self) -> bool {
        &&& forall|a: N, b: N, r: N, x: int, y: int|
            #![trigger quantity::is_plus(a, b, r), self.counts(a, x), self.counts(b, y)]
            {
                &&& quantity::is_plus(a, b, r)
                &&& self.counts(a, x)
                &&& self.counts(b, y)
                &&& self.fits(x + y)
            } ==> self.counts(r, x + y)
        &&& forall|a: N, b: N, r: N, x: int, y: int|
            #![trigger quantity::is_minus(a, b, r), self.counts(a, x), self.counts(b, y)]
            {
                &&& quantity::is_minus(a, b, r)
                &&& self.counts(a, x)
                &&& self.counts(b, y)
                &&& self.fits(x - y)
            } ==> self.counts(r, x - y)
    }

    /// Whole units are compared as their numbers are.
    pub open spec fn comparisons_are_exact(self) -> bool {
        &&& forall|a: N, b: N, r: N, x: int, y: int|
            #![trigger quantity::is_lesser(a, b, r), self.counts(a, x), self.counts(b, y)]
            quantity::is_lesser(a, b, r) && self.counts(a, x) && self.counts(b, y) ==> self.counts(
                r,
                if x <= y {
                    x
                } else {
                    y
                },
            )
        &&& forall|a: N, b: N, r: bool, x: int, y: int|
            #![trigger quantity::tells_less_than(a, b, r), self.counts(a, x), self.counts(b, y)]
            quantity::tells_less_than(a, b, r) && self.counts(a, x) && self.counts(b, y) ==> r == (x
                < y)
    }

    /// A finite number times zero is zero, and one less a finite number is finite.
    pub open spec fn products_with_zero_vanish(self) -> bool {
        &&& forall|a: N, b: N, r: N|
            #![trigger quantity::is_times(a, b, r)]
            quantity::is_times(a, b, r) && (self.finite)(a) && self.counts(b, 0) ==> self.counts(
                r,
                0,
            )
        &&& forall|a: N| quantity::is_one(a) ==> #[trigger] (self.finite)(a)
        &&& forall|a: N, b: N, r: N|
            #![trigger quantity::is_minus(a, b, r)]
            quantity::is_minus(a, b, r) && quantity::is_one(a) && (self.finite)(b)
                ==> (self.finite)(r)
    }

    /// The arithmetic is exact on the scale wherever it can be. That of single-precision numbers is
    /// so: each finite number is a whole number of units of `2 ** -149`, and a sum is the number
    /// nearest to its exact value.
    pub open spec fn exact(self) -> bool {
        &&& forall|a: N| #[trigger] quantity::is_zero(a) ==> self.counts(a, 0)
        &&& self.sums_are_exact()
        &&& self.comparisons_are_exact()
        &&& self.products_with_zero_vanish()
    }
}

/// The probability model returns nothing undefined for these quantities.
pub open spec fn prob_defined<N: Quantity, P: Probability<N>>(
    scale: Scale<N>,
    p: &P,
    front: N,
    back: N,
) -> bool {
    forall|prob: N|
        #![trigger queue::prob_is(p, front, back, prob)]
        queue::prob_is(p, front, back, prob) && quantity::tells_infinite(prob, false)
            ==> (scale.finite)(prob)
}

/// A decrease that trades account for is not counted twice. An order has `front` units ahead of it,
/// of the `level` units at its price, and nothing was traded since the depth changed last. After a
/// trade of `qty` units, and the change of the depth by as many units that follows from it,
/// `front - qty` units are ahead of the order, and again nothing was traded since. This is for sums
/// that are exact, that is, for which there is a number, and for probabilities that are defined.
pub proof fn trades_are_not_counted_twice<N: Quantity, P: Probability<N>>(
    scale: Scale<N>,
    p: &P,
    start: QueuePos<N>,
    trade_qty: N,
    traded: QueuePos<N>,
    prev_qty: N,
    new_qty: N,
    changed: QueuePos<N>,
    front: int,
    qty: int,
    level: int,
)
    requires
        scale.exact(),
        scale.counts(start.front_q_qty, front),
        quantity::is_zero(start.cum_trade_qty),
        scale.counts(trade_qty, qty),
        scale.counts(prev_qty, level),
        front <= level,
        0 <= qty,
        scale.fits(front - qty),
        scale.fits(level - qty),
        scale.fits(level - (front - qty)),
        forall|back: N| #[trigger]
            quantity::is_minus(prev_qty, traded.front_q_qty, back) ==> prob_defined(
                scale,
                p,
                traded.front_q_qty,
                back,
            ),
        queue::position_after_trade(start, trade_qty, traded),
        quantity::is_minus(prev_qty, trade_qty, new_qty),
        queue::position_after_change(p, traded, prev_qty, new_qty, changed),
    ensures
        scale.counts(changed.front_q_qty, front - qty),
        quantity::is_zero(changed.cum_trade_qty),
{
    assert(scale.counts(start.cum_trade_qty, 0));
    assert(scale.fits(0 + qty) && scale.fits(qty - qty));
    assert(scale.counts(traded.cum_trade_qty, 0 + qty));
    assert(scale.counts(traded.front_q_qty, front - qty));
    assert(scale.counts(new_qty, level - qty));
    let chg = choose|chg: N| #[trigger]
        queue::net_decrease(prev_qty, new_qty, traded.cum_trade_qty, chg)
            && queue::front_after_change(
            p,
            traded.front_q_qty,
            prev_qty,
            new_qty,
            chg,
            changed.front_q_qty,
        );
    let decrease = choose|decrease: N| #[trigger]
        quantity::is_minus(prev_qty, new_qty, decrease) && quantity::is_minus(
            decrease,
            traded.cum_trade_qty,
            chg,
        );
    assert(scale.fits(level - (level - qty)));
    assert(scale.counts(decrease, level - (level - qty)));
    assert(scale.counts(chg, qty - qty));
    let (zero, increased) = choose|zero: N, increased: bool|
        #![trigger quantity::tells_less_than(chg, zero, increased)]
        {
            &&& quantity::is_zero(zero)
            &&& quantity::tells_less_than(chg, zero, increased)
            &&& if increased {
                quantity::is_lesser(traded.front_q_qty, new_qty, changed.front_q_qty)
            } else {
                queue::front_after_decrease(
                    p,
                    traded.front_q_qty,
                    prev_qty,
                    new_qty,
                    chg,
                    changed.front_q_qty,
                )
            }
        };
    assert(scale.counts(zero, 0));
    assert(!increased);
    let (back, prob, est_front) = choose|back: N, prob: N, est_front: N|
        #![trigger
            queue::finite_prob(p, traded.front_q_qty, back, prob),
            queue::estimated_front(traded.front_q_qty, back, prob, chg, est_front)]
        {
            &&& quantity::is_minus(prev_qty, traded.front_q_qty, back)
            &&& queue::finite_prob(p, traded.front_q_qty, back, prob)
            &&& queue::estimated_front(traded.front_q_qty, back, prob, chg, est_front)
            &&& quantity::is_lesser(est_front, new_qty, changed.front_q_qty)
        };
    let behind = level - (front - qty);
    assert(scale.counts(back, behind));
    assert((scale.finite)(prob));
    lemma_no_decrease_keeps_the_front(
        scale,
        traded.front_q_qty,
        back,
        prob,
        chg,
        est_front,
        front - qty,
        behind,
    );
    assert(scale.counts(changed.front_q_qty, front - qty));
}

/// The estimate after a decrease by zero is the quantity that was ahead.
proof fn lemma_no_decrease_keeps_the_front<N: Quantity>(
    scale: Scale<N>,
    front: N,
    back: N,
    prob: N,
    chg: N,
    est_front: N,
    ahead: int,
    behind: int,
)
    requires
        scale.exact(),
        scale.counts(front, ahead),
        scale.counts(back, behind),
        0 <= behind,
        (scale.finite)(prob),
        scale.counts(chg, 0),
        queue::estimated_front(front, back, prob, chg, est_front),
    ensures
        scale.counts(est_front, ahead),
{
    let (left, excess) = choose|left: N, excess: N|
        #![trigger
            queue::front_left(front, prob, chg, left),
            queue::back_excess(back, prob, chg, excess)]
        {
            &&& queue::front_left(front, prob, chg, left)
            &&& queue::back_excess(back, prob, chg, excess)
            &&& quantity::is_plus(left, excess, est_front)
        };
    let (one, rest, gone) = choose|one: N, rest: N, gone: N|
        #![trigger quantity::is_minus(one, prob, rest), quantity::is_minus(front, gone, left)]
        {
            &&& quantity::is_one(one)
            &&& quantity::is_minus(one, prob, rest)
            &&& quantity::is_times(rest, chg, gone)
            &&& quantity::is_minus(front, gone, left)
        };
    assert((scale.finite)(rest));
    assert(scale.counts(gone, 0));
    assert(scale.fits(ahead - 0));
    assert(scale.counts(left, ahead - 0));
    let (gone, kept, zero) = choose|gone: N, kept: N, zero: N|
        #![trigger quantity::is_minus(back, gone, kept), quantity::is_lesser(kept, zero, excess)]
        {
            &&& quantity::is_times(prob, chg, gone)
            &&& quantity::is_minus(back, gone, kept)
            &&& quantity::is_zero(zero)
            &&& quantity::is_lesser(kept, zero, excess)
        };
    assert(scale.counts(gone, 0));
    assert(scale.fits(behind - 0));
    assert(scale.counts(kept, behind - 0));
    assert(scale.counts(zero, 0));
    assert(scale.counts(excess, 0));
    assert(scale.counts(est_front, ahead + 0));
}

/// An order of the numbers.
#[verifier::reject_recursive_types(N)]
pub struct Ranking<N> {
    /// Tells whether the first of the two is not greater than the second. It holds of no number
    /// that is undefined.
    pub le: spec_fn(N, N) -> bool,
    /// Tells the numbers that are neither infinite nor undefined.
    pub finite: spec_fn(N) -> bool,
}

impl<N: Quantity> Ranking<N> {
    /// The first of the two is not greater than the second.
    pub open spec fn not_greater(self, a: N, b: N) -> bool {
        (self.le)(a, b)
    }

    /// The number is not negative.
    pub open spec fn not_negative(self, a: N) -> bool {
        forall|zero: N| #[trigger] quantity::is_zero(zero) ==> self.not_greater(zero, a)
    }

    /// The number is not positive.
    pub open spec fn not_positive(self, a: N) -> bool {
        forall|zero: N| #[trigger] quantity::is_zero(zero) ==> self.not_greater(a, zero)
    }

    /// The lesser of two numbers is not greater than either of them that is defined, and the lesser
    /// of a number and zero is not positive.
    pub open spec fn lesser_is_not_greater(self) -> bool {
        &&& forall|a: N, b: N, r: N|
            #![trigger quantity::is_lesser(a, b, r)]
            quantity::is_lesser(a, b, r) && self.not_greater(a, a) ==> self.not_greater(r, a)
        &&& forall|a: N, b: N, r: N|
            #![trigger quantity::is_lesser(a, b, r)]
            quantity::is_lesser(a, b, r) && self.not_greater(b, b) ==> self.not_greater(r, b)
        &&& forall|a: N, b: N, r: N|
            #![trigger quantity::is_lesser(a, b, r)]
            quantity::is_lesser(a, b, r) && quantity::is_zero(b) ==> self.not_positive(r)
    }

    /// Taking away what is not negative, or adding what is not positive, gives nothing greater.
    pub open spec fn sums_are_monotone(self) -> bool {
        &&& forall|a: N, b: N, r: N|
            #![trigger quantity::is_minus(a, b, r)]
            quantity::is_minus(a, b, r) && (self.finite)(a) && self.not_negative(b)
                ==> self.not_greater(r, a)
        &&& forall|a: N, b: N, r: N, c: N|
            #![trigger quantity::is_plus(a, b, r), self.not_greater(a, c)]
            quantity::is_plus(a, b, r) && self.not_greater(a, c) && (self.finite)(c)
                && self.not_positive(b) ==> self.not_greater(r, a)
        &&& forall|a: N, b: N, r: N|
            #![trigger quantity::is_minus(a, b, r)]
            quantity::is_minus(a, b, r) && quantity::is_one(a) && (self.finite)(b)
                && self.not_greater(b, a) ==> (self.finite)(r) && self.not_negative(r)
    }

    /// What is finite and not less than zero is not negative, and the product of two such numbers
    /// is not.
    pub open spec fn signs_are_kept(self) -> bool {
        &&& forall|a: N, b: N|
            #![trigger quantity::tells_less_than(a, b, false)]
            quantity::tells_less_than(a, b, false) && quantity::is_zero(b) && (self.finite)(a)
                ==> self.not_negative(a)
        &&& forall|a: N, b: N, r: N|
            #![trigger quantity::is_times(a, b, r)]
            quantity::is_times(a, b, r) && (self.finite)(a) && self.not_negative(a)
                && (self.finite)(b) && self.not_negative(b) ==> self.not_negative(r)
    }

    /// The arithmetic keeps to the order, as that of floating-point numbers does.
    pub open spec fn kept(self) -> bool {
        &&& forall|a: N, b: N, c: N|
            #![trigger self.not_greater(a, b), self.not_greater(b, c)]
            self.not_greater(a, b) && self.not_greater(b, c) ==> self.not_greater(a, c)
        &&& forall|a: N| #[trigger] (self.finite)(a) ==> self.not_greater(a, a)
        &&& forall|a: N, b: N|
            #![trigger self.not_greater(a, b)]
            self.not_greater(a, b) ==> self.not_greater(a, a)
        &&& forall|a: N, b: N| #[trigger]
            quantity::is_one(a) && #[trigger] quantity::is_one(b) ==> (self.finite)(a)
                && self.not_greater(a, b)
        &&& self.lesser_is_not_greater()
        &&& self.sums_are_monotone()
        &&& self.signs_are_kept()
    }
}

/// What the probability model returns is infinite, or a finite number up to one.
pub open spec fn prob_at_most_one<N: Quantity, P: Probability<N>>(
    ranking: Ranking<N>,
    p: &P,
    front: N,
    back: N,
) -> bool {
    forall|prob: N, one: N|
        #![trigger queue::prob_is(p, front, back, prob), quantity::is_one(one)]
        queue::prob_is(p, front, back, prob) && quantity::tells_infinite(prob, false)
            && quantity::is_one(one) ==> (ranking.finite)(prob) && ranking.not_greater(prob, one)
}

/// After a change of the depth no more is ahead of an order than there is at the price, if that
/// quantity is defined.
pub proof fn no_more_is_ahead_than_there_is<N: Quantity, P: Probability<N>>(
    ranking: Ranking<N>,
    p: &P,
    pre: QueuePos<N>,
    prev_qty: N,
    new_qty: N,
    post: QueuePos<N>,
)
    requires
        ranking.lesser_is_not_greater(),
        ranking.not_greater(new_qty, new_qty),
        queue::position_after_change(p, pre, prev_qty, new_qty, post),
    ensures
        ranking.not_greater(post.front_q_qty, new_qty),
{
}

/// A change of the depth never puts an order further back, and leaves no more ahead of it than
/// there is at the price, if that quantity is defined. This is for a finite quantity ahead, a
/// finite decrease, and probabilities that are not greater than one.
pub proof fn a_change_of_depth_never_sets_back<N: Quantity, P: Probability<N>>(
    ranking: Ranking<N>,
    p: &P,
    pre: QueuePos<N>,
    prev_qty: N,
    new_qty: N,
    post: QueuePos<N>,
)
    requires
        ranking.kept(),
        (ranking.finite)(pre.front_q_qty),
        forall|chg: N| #[trigger]
            queue::net_decrease(prev_qty, new_qty, pre.cum_trade_qty, chg) ==> (ranking.finite)(
                chg,
            ),
        forall|back: N| #[trigger]
            quantity::is_minus(prev_qty, pre.front_q_qty, back) ==> prob_at_most_one(
                ranking,
                p,
                pre.front_q_qty,
                back,
            ),
        queue::position_after_change(p, pre, prev_qty, new_qty, post),
    ensures
        ranking.not_greater(post.front_q_qty, pre.front_q_qty),
        ranking.not_greater(new_qty, new_qty) ==> ranking.not_greater(post.front_q_qty, new_qty),
{
    let front = pre.front_q_qty;
    let chg = choose|chg: N| #[trigger]
        queue::net_decrease(prev_qty, new_qty, pre.cum_trade_qty, chg)
            && queue::front_after_change(p, front, prev_qty, new_qty, chg, post.front_q_qty);
    let (zero, increased) = choose|zero: N, increased: bool|
        #![trigger quantity::tells_less_than(chg, zero, increased)]
        {
            &&& quantity::is_zero(zero)
            &&& quantity::tells_less_than(chg, zero, increased)
            &&& if increased {
                quantity::is_lesser(front, new_qty, post.front_q_qty)
            } else {
                queue::front_after_decrease(p, front, prev_qty, new_qty, chg, post.front_q_qty)
            }
        };
    if !increased {
        assert(ranking.not_negative(chg));
        let (back, prob, est_front) = choose|back: N, prob: N, est_front: N|
            #![trigger
                queue::finite_prob(p, front, back, prob),
                queue::estimated_front(front, back, prob, chg, est_front)]
            {
                &&& quantity::is_minus(prev_qty, front, back)
                &&& queue::finite_prob(p, front, back, prob)
                &&& queue::estimated_front(front, back, prob, chg, est_front)
                &&& quantity::is_lesser(est_front, new_qty, post.front_q_qty)
            };
        lemma_estimate_not_greater(ranking, p, front, back, prob, chg, est_front);
    }
}

/// The estimate after a decrease is not greater than the quantity that was ahead.
proof fn lemma_estimate_not_greater<N: Quantity, P: Probability<N>>(
    ranking: Ranking<N>,
    p: &P,
    front: N,
    back: N,
    prob: N,
    chg: N,
    est_front: N,
)
    requires
        ranking.kept(),
        (ranking.finite)(front),
        (ranking.finite)(chg),
        ranking.not_negative(chg),
        prob_at_most_one(ranking, p, front, back),
        queue::finite_prob(p, front, back, prob),
        queue::estimated_front(front, back, prob, chg, est_front),
    ensures
        ranking.not_greater(est_front, front),
        ranking.not_greater(est_front, est_front),
{
    let (left, excess) = choose|left: N, excess: N|
        #![trigger
            queue::front_left(front, prob, chg, left),
            queue::back_excess(back, prob, chg, excess)]
        {
            &&& queue::front_left(front, prob, chg, left)
            &&& queue::back_excess(back, prob, chg, excess)
            &&& quantity::is_plus(left, excess, est_front)
        };
    let (one, rest, gone) = choose|one: N, rest: N, gone: N|
        #![trigger quantity::is_minus(one, prob, rest), quantity::is_minus(front, gone, left)]
        {
            &&& quantity::is_one(one)
            &&& quantity::is_minus(one, prob, rest)
            &&& quantity::is_times(rest, chg, gone)
            &&& quantity::is_minus(front, gone, left)
        };
    assert((ranking.finite)(prob) && ranking.not_greater(prob, one));
    assert((ranking.finite)(rest) && ranking.not_negative(rest));
    assert(ranking.not_negative(gone));
    assert(ranking.not_greater(left, front));
    let (gone, kept, zero) = choose|gone: N, kept: N, zero: N|
        #![trigger quantity::is_minus(back, gone, kept), quantity::is_lesser(kept, zero, excess)]
        {
            &&& quantity::is_times(prob, chg, gone)
            &&& quantity::is_minus(back, gone, kept)
            &&& quantity::is_zero(zero)
            &&& quantity::is_lesser(kept, zero, excess)
        };
    assert(ranking.not_positive(excess));
}

} // verus!
