use hftbacktest::depth::MarketDepth;
use hftbacktest::quantity::Quantity;
use hftbacktest::queue::{
    LogProbQueueFunc, LogProbQueueFunc2, PowerProbQueueFunc, PowerProbQueueFunc2,
    PowerProbQueueFunc3, ProbQueueModel, Probability, QueueModel, QueuePos, RiskAdverseQueueModel,
};
use hftbacktest::types::{Order, Side};

#[derive(Clone, Copy, Debug, PartialEq)]
struct Real(f32);

impl Quantity for Real {
    fn zero() -> Self {
        Real(0.0)
    }
    fn one() -> Self {
        Real(1.0)
    }
    fn plus(self, other: Self) -> Self {
        Real(self.0 + other.0)
    }
    fn minus(self, other: Self) -> Self {
        Real(self.0 - other.0)
    }
    fn times(self, other: Self) -> Self {
        Real(self.0 * other.0)
    }
    fn over(self, other: Self) -> Self {
        Real(self.0 / other.0)
    }
    fn negated(self) -> Self {
        Real(-self.0)
    }
    fn lesser(self, other: Self) -> Self {
        Real(self.0.min(other.0))
    }
    fn less_than(self, other: Self) -> bool {
        self.0 < other.0
    }
    fn is_infinite(self) -> bool {
        self.0.is_infinite()
    }
    fn round(self) -> Self {
        Real(self.0.round())
    }
    fn floor(self) -> Self {
        Real(self.0.floor())
    }
    fn power(self, other: Self) -> Self {
        Real(self.0.powf(other.0))
    }
    fn ln(self) -> Self {
        Real(self.0.ln())
    }
}

struct Book;

impl MarketDepth for Book {
    type Num = Real;
    fn bid_qty_at_tick(&self, price_tick: i32) -> Real {
        Real(price_tick as f32)
    }
    fn ask_qty_at_tick(&self, price_tick: i32) -> Real {
        Real(price_tick as f32 * 2.0)
    }
    fn lot_size(&self) -> Real {
        Real(0.5)
    }
}

struct Fixed(f32);

impl Probability<Real> for Fixed {
    fn prob(&self, _front: Real, _back: Real) -> Real {
        Real(self.0)
    }
}

fn order<Q>(side: Side, q: Q) -> Order<Real, Q> {
    Order { order_id: 1, side, price_tick: 10, qty: Real(3.0), leaves_qty: Real(2.0), q }
}

fn pos(front: f32, traded: f32) -> QueuePos<Real> {
    QueuePos { front_q_qty: Real(front), cum_trade_qty: Real(traded) }
}

#[test]
fn a_new_order_is_behind_what_is_at_its_price() {
    let model: RiskAdverseQueueModel<Book> = RiskAdverseQueueModel::new();
    let mut o = order(Side::Buy, Real(-1.0));
    model.new_order(&mut o, &Book);
    assert_eq!(o.q, Real(10.0));
    assert_eq!((o.order_id, o.qty, o.leaves_qty), (1, Real(3.0), Real(2.0)));
    let mut o = order(Side::Sell, Real(-1.0));
    model.new_order(&mut o, &Book);
    assert_eq!(o.q, Real(20.0));
    let model: ProbQueueModel<Fixed, Book> = ProbQueueModel::new(Fixed(0.5));
    let mut o = order(Side::Sell, pos(-1.0, -1.0));
    model.new_order(&mut o, &Book);
    assert_eq!((o.q.front_q_qty, o.q.cum_trade_qty), (Real(20.0), Real(0.0)));
    let mut o = order(Side::Buy, pos(-1.0, -1.0));
    model.new_order(&mut o, &Book);
    assert_eq!(o.q.front_q_qty, Real(10.0));
}

#[test]
fn risk_adverse_position_advances_only_by_trades() {
    let model: RiskAdverseQueueModel<Book> = RiskAdverseQueueModel::new();
    let mut o = order(Side::Buy, Real(10.0));
    model.trade(&mut o, Real(4.0), &Book);
    assert_eq!(o.q, Real(6.0));
    model.depth(&mut o, Real(10.0), Real(8.0), &Book);
    assert_eq!(o.q, Real(6.0));
    model.depth(&mut o, Real(8.0), Real(5.0), &Book);
    assert_eq!(o.q, Real(6.0));
    let mut o = order(Side::Buy, Real(10.0));
    model.depth(&mut o, Real(20.0), Real(4.0), &Book);
    assert_eq!(o.q, Real(10.0));
    assert_eq!((o.order_id, o.qty, o.leaves_qty), (1, Real(3.0), Real(2.0)));
}

#[test]
fn the_executed_quantity_is_in_whole_lots() {
    let model: RiskAdverseQueueModel<Book> = RiskAdverseQueueModel::new();
    let filled = |front: f32| model.is_filled(&order(Side::Buy, Real(front)), &Book).0;
    assert_eq!(filled(1.0), 0.0);
    assert_eq!(filled(0.0), 0.0);
    assert_eq!(filled(-0.2), 0.0);
    assert_eq!(filled(-0.3), 0.0);
    assert_eq!(filled(-0.5), 0.5);
    assert_eq!(filled(-1.2), 1.0);
    assert_eq!(filled(-3.0), 3.0);
    let model: ProbQueueModel<Fixed, Book> = ProbQueueModel::new(Fixed(0.5));
    assert_eq!(model.is_filled(&order(Side::Buy, pos(-1.2, 0.0)), &Book), Real(1.0));
    assert_eq!(model.is_filled(&order(Side::Buy, pos(1.2, 0.0)), &Book), Real(0.0));
}

#[test]
fn a_new_position_is_zero() {
    let q: QueuePos<Real> = QueuePos::default();
    assert_eq!((q.front_q_qty, q.cum_trade_qty), (Real(0.0), Real(0.0)));
    let q = pos(1.0, 2.0).clone();
    assert_eq!((q.front_q_qty, q.cum_trade_qty), (Real(1.0), Real(2.0)));
}

#[test]
fn prob_position_advances_by_trades() {
    let model: ProbQueueModel<Fixed, Book> = ProbQueueModel::new(Fixed(0.5));
    let mut o = order(Side::Buy, pos(10.0, 1.0));
    model.trade(&mut o, Real(4.0), &Book);
    assert_eq!((o.q.front_q_qty, o.q.cum_trade_qty), (Real(6.0), Real(5.0)));
}

#[test]
fn a_decrease_is_split_by_the_probability() {
    let model: ProbQueueModel<Fixed, Book> = ProbQueueModel::new(Fixed(0.25));
    // The quantity goes from 20 to 12; 4 of that were trades, so 4 are split 3 to 1.
    let mut o = order(Side::Buy, pos(8.0, 4.0));
    model.depth(&mut o, Real(20.0), Real(12.0), &Book);
    assert_eq!((o.q.front_q_qty, o.q.cum_trade_qty), (Real(5.0), Real(0.0)));
    // What exceeds the quantity behind happened ahead: 8 - 3 + min(0.5 - 1, 0).
    let mut o = order(Side::Buy, pos(8.0, 0.0));
    model.depth(&mut o, Real(8.5), Real(4.5), &Book);
    assert_eq!(o.q.front_q_qty, Real(4.5));
    // No more is ahead than there is.
    let mut o = order(Side::Buy, pos(8.0, 0.0));
    model.depth(&mut o, Real(8.0), Real(1.0), &Book);
    assert_eq!(o.q.front_q_qty, Real(1.0));
}

#[test]
fn an_increase_leaves_the_position() {
    let model: ProbQueueModel<Fixed, Book> = ProbQueueModel::new(Fixed(0.25));
    let mut o = order(Side::Buy, pos(8.0, 0.0));
    model.depth(&mut o, Real(10.0), Real(12.0), &Book);
    assert_eq!(o.q.front_q_qty, Real(8.0));
    // Trades account for more than the decrease.
    let mut o = order(Side::Buy, pos(8.0, 5.0));
    model.depth(&mut o, Real(10.0), Real(7.0), &Book);
    assert_eq!((o.q.front_q_qty, o.q.cum_trade_qty), (Real(7.0), Real(0.0)));
}

#[test]
fn an_infinite_probability_counts_as_one() {
    let model: ProbQueueModel<Fixed, Book> = ProbQueueModel::new(Fixed(f32::INFINITY));
    let mut o = order(Side::Buy, pos(8.0, 0.0));
    model.depth(&mut o, Real(20.0), Real(16.0), &Book);
    assert_eq!(o.q.front_q_qty, Real(8.0));
    let model: ProbQueueModel<Fixed, Book> = ProbQueueModel::new(Fixed(f32::NEG_INFINITY));
    model.depth(&mut o, Real(20.0), Real(16.0), &Book);
    assert_eq!(o.q.front_q_qty, Real(8.0));
}

#[test]
fn probability_functions() {
    let (front, back) = (Real(3.0), Real(1.0));
    assert_eq!(PowerProbQueueFunc::new(Real(2.0)).prob(front, back), Real(1.0 / 10.0));
    assert_eq!(PowerProbQueueFunc2::new(Real(2.0)).prob(front, back), Real(1.0 / 16.0));
    assert_eq!(PowerProbQueueFunc3::new(Real(2.0)).prob(front, back), Real(1.0 - 0.5625));
    let ln = |x: f32| x.ln();
    assert_eq!(
        LogProbQueueFunc::new().prob(front, back),
        Real(ln(2.0) / (ln(2.0) + ln(4.0)))
    );
    assert_eq!(LogProbQueueFunc2::new().prob(front, back), Real(ln(2.0) / ln(5.0)));
}

#[test]
fn trades_are_not_counted_twice() {
    for prob in [0.0, 0.25, 1.0, f32::INFINITY] {
        let model: ProbQueueModel<Fixed, Book> = ProbQueueModel::new(Fixed(prob));
        let mut o = order(Side::Buy, pos(8.0, 0.0));
        model.trade(&mut o, Real(3.0), &Book);
        model.depth(&mut o, Real(20.0), Real(17.0), &Book);
        assert_eq!((o.q.front_q_qty, o.q.cum_trade_qty), (Real(5.0), Real(0.0)));
    }
}

#[test]
fn a_change_of_depth_never_sets_an_order_back() {
    for prob in [0.0, 0.5, 1.0] {
        let model: ProbQueueModel<Fixed, Book> = ProbQueueModel::new(Fixed(prob));
        for new_qty in [0.0, 5.0, 19.0, 20.0, 30.0] {
            let mut o = order(Side::Buy, pos(8.0, 1.0));
            model.depth(&mut o, Real(20.0), Real(new_qty), &Book);
            assert!(o.q.front_q_qty.0 <= 8.0);
            assert!(o.q.front_q_qty.0 <= new_qty);
        }
    }
}
