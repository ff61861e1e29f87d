use hftbacktest::l3::{
    L3Order, L3OrderId, L3OrderSource, L3PriceTimePriorityQueueModel, L3QueueModel,
};
use hftbacktest::quantity::Quantity;
use hftbacktest::types::{BacktestError, Side};

#[derive(Clone, Copy, Debug, PartialEq)]
struct Real(f32);

impl Quantity for Real {
    fn zero() -> Self {
        Real(0.0)
    }
    fn one() -> Self {
        Real(1.0)
    }
    fn plus(self, other: Self) -> Self {
        Real(self.0 + other.0)
    }
    fn minus(self, other: Self) -> Self {
        Real(self.0 - other.0)
    }
    fn times(self, other: Self) -> Self {
        Real(self.0 * other.0)
    }
    fn over(self, other: Self) -> Self {
        Real(self.0 / other.0)
    }
    fn negated(self) -> Self {
        Real(-self.0)
    }
    fn lesser(self, other: Self) -> Self {
        Real(self.0.min(other.0))
    }
    fn less_than(self, other: Self) -> bool {
        self.0 < other.0
    }
    fn is_infinite(self) -> bool {
        self.0.is_infinite()
    }
    fn round(self) -> Self {
        Real(self.0.round())
    }
    fn floor(self) -> Self {
        Real(self.0.floor())
    }
    fn power(self, other: Self) -> Self {
        Real(self.0.powf(other.0))
    }
    fn ln(self) -> Self {
        Real(self.0.ln())
    }
}

type Model = L3PriceTimePriorityQueueModel<Real>;

fn order(order_id: i64, q: L3OrderSource, side: Side, price_tick: i32, qty: f32) -> L3Order<Real> {
    L3Order { order_id, side, price_tick, qty: Real(qty), leaves_qty: Real(qty), q }
}

fn market(id: i64, tick: i32, qty: f32) -> L3Order<Real> {
    order(id, L3OrderSource::Market, Side::Buy, tick, qty)
}

fn own(id: i64, tick: i32, qty: f32) -> L3Order<Real> {
    order(id, L3OrderSource::Backtesting, Side::Buy, tick, qty)
}

fn bids(m: &Model, tick: i32) -> Vec<(i64, f32)> {
    m.bid_priority[&tick].iter().map(|o| (o.order_id, o.leaves_qty.0)).collect()
}

fn asks(m: &Model, tick: i32) -> Vec<i64> {
    m.ask_priority[&tick].iter().map(|o| o.order_id).collect()
}

/// Bids at tick 10: market 1, own 2, market 3, own 4, market 5.
fn five() -> Model {
    let mut m = Model::new();
    for id in 1..6 {
        if id % 2 == 1 {
            m.add_order(L3OrderId::Market(id), market(id, 10, id as f32)).unwrap();
        } else {
            m.add_order(L3OrderId::Backtesting(id), own(id, 10, id as f32)).unwrap();
        }
    }
    m
}

#[test]
fn ids_tell_orders_of_the_two_sources_apart() {
    assert!(L3OrderId::Market(1).is(&market(1, 10, 1.0)));
    assert!(!L3OrderId::Market(2).is(&market(1, 10, 1.0)));
    assert!(!L3OrderId::Backtesting(1).is(&market(1, 10, 1.0)));
    assert!(L3OrderId::Backtesting(1).is(&own(1, 10, 1.0)));
    assert!(!L3OrderId::Market(1).is(&own(1, 10, 1.0)));
}

#[test]
fn a_new_model_is_empty() {
    let m = Model::new();
    assert!(m.bid_priority.is_empty());
    assert!(m.ask_priority.is_empty());
    assert!(m.orders.get(&L3OrderId::Market(1)).is_none());
}

#[test]
fn orders_queue_first_come_first_served() {
    let m = five();
    assert_eq!(bids(&m, 10), vec![(1, 1.0), (2, 2.0), (3, 3.0), (4, 4.0), (5, 5.0)]);
    assert_eq!(m.orders.get(&L3OrderId::Backtesting(4)), Some((Side::Buy, 10)));
    assert_eq!(m.orders.get(&L3OrderId::Market(4)), None);
}

#[test]
fn sell_orders_queue_on_the_other_side() {
    let mut m = Model::new();
    let o = order(1, L3OrderSource::Market, Side::Sell, 11, 1.0);
    assert_eq!(m.add_order(L3OrderId::Market(1), o), Ok(()));
    assert_eq!(asks(&m, 11), vec![1]);
    assert!(m.bid_priority.is_empty());
    assert_eq!(m.cancel_order(L3OrderId::Market(1)).unwrap().order_id, 1);
    assert_eq!(asks(&m, 11), Vec::<i64>::new());
}

#[test]
fn an_id_that_exists_is_refused_but_the_order_is_queued() {
    let mut m = five();
    assert_eq!(
        m.add_order(L3OrderId::Market(1), market(1, 12, 9.0)),
        Err(BacktestError::OrderIdExist)
    );
    assert_eq!(bids(&m, 12), vec![(1, 9.0)]);
    assert_eq!(m.orders.get(&L3OrderId::Market(1)), Some((Side::Buy, 10)));
}

#[test]
fn cancel_gives_back_what_was_added() {
    let mut m = five();
    m.add_order(L3OrderId::Backtesting(6), own(6, 10, 6.0)).unwrap();
    let o = m.cancel_order(L3OrderId::Backtesting(6)).unwrap();
    assert_eq!((o.order_id, o.qty.0, o.price_tick), (6, 6.0, 10));
    assert_eq!(bids(&m, 10), vec![(1, 1.0), (2, 2.0), (3, 3.0), (4, 4.0), (5, 5.0)]);
    assert_eq!(m.orders.get(&L3OrderId::Backtesting(6)), None);
}

#[test]
fn a_cancelled_order_is_not_found() {
    let mut m = five();
    assert!(m.cancel_order(L3OrderId::Market(3)).is_ok());
    assert_eq!(bids(&m, 10), vec![(1, 1.0), (2, 2.0), (4, 4.0), (5, 5.0)]);
    assert_eq!(m.cancel_order(L3OrderId::Market(3)).unwrap_err(), BacktestError::OrderNotFound);
    assert_eq!(
        m.modify_order(L3OrderId::Market(3), market(3, 10, 1.0)),
        Err(BacktestError::OrderNotFound)
    );
    assert_eq!(m.fill(L3OrderId::Market(3), true).unwrap_err(), BacktestError::OrderNotFound);
    assert_eq!(bids(&m, 10), vec![(1, 1.0), (2, 2.0), (4, 4.0), (5, 5.0)]);
}

#[test]
fn an_order_missing_from_its_queue_is_not_found_and_leaves_the_index() {
    let mut m = five();
    m.add_order(L3OrderId::Market(9), market(8, 10, 8.0)).unwrap();
    assert_eq!(
        m.modify_order(L3OrderId::Market(9), market(9, 10, 1.0)),
        Err(BacktestError::OrderNotFound)
    );
    assert_eq!(m.orders.get(&L3OrderId::Market(9)), Some((Side::Buy, 10)));
    assert_eq!(m.cancel_order(L3OrderId::Market(9)).unwrap_err(), BacktestError::OrderNotFound);
    assert_eq!(m.orders.get(&L3OrderId::Market(9)), None);
}

#[test]
fn a_reduced_order_keeps_its_place() {
    let mut m = five();
    assert_eq!(m.modify_order(L3OrderId::Market(3), market(3, 10, 2.5)), Ok(()));
    assert_eq!(bids(&m, 10), vec![(1, 1.0), (2, 2.0), (3, 2.5), (4, 4.0), (5, 5.0)]);
    assert_eq!(m.modify_order(L3OrderId::Market(3), market(3, 10, 2.5)), Ok(()));
    assert_eq!(bids(&m, 10)[2], (3, 2.5));
}

#[test]
fn an_increased_order_goes_to_the_back() {
    let mut m = five();
    assert_eq!(m.modify_order(L3OrderId::Market(3), market(3, 10, 3.5)), Ok(()));
    assert_eq!(bids(&m, 10), vec![(1, 1.0), (2, 2.0), (4, 4.0), (5, 5.0), (3, 3.5)]);
    assert_eq!(m.cancel_order(L3OrderId::Market(3)).unwrap().leaves_qty, Real(3.5));
}

#[test]
fn a_moved_order_goes_to_the_back_of_the_other_queue() {
    let mut m = five();
    m.add_order(L3OrderId::Market(7), market(7, 11, 7.0)).unwrap();
    assert_eq!(m.modify_order(L3OrderId::Backtesting(2), own(2, 11, 1.0)), Ok(()));
    assert_eq!(bids(&m, 10), vec![(1, 1.0), (3, 3.0), (4, 4.0), (5, 5.0)]);
    assert_eq!(bids(&m, 11), vec![(7, 7.0), (2, 1.0)]);
    // The index still points to the old queue.
    assert_eq!(m.orders.get(&L3OrderId::Backtesting(2)), Some((Side::Buy, 10)));
    let r = m.cancel_order(L3OrderId::Backtesting(2));
    assert_eq!(r.unwrap_err(), BacktestError::OrderNotFound);
}

#[test]
fn execution_fills_the_orders_ahead() {
    let mut m = five();
    let filled = m.fill(L3OrderId::Market(5), true).unwrap();
    assert_eq!(filled.iter().map(|o| o.order_id).collect::<Vec<_>>(), vec![2, 4]);
    assert_eq!(bids(&m, 10), vec![(1, 1.0), (3, 3.0)]);
    assert_eq!(m.orders.get(&L3OrderId::Market(5)), None);
    assert_eq!(m.orders.get(&L3OrderId::Backtesting(2)), Some((Side::Buy, 10)));
}

#[test]
fn a_partly_executed_order_stays_in_its_queue() {
    let mut m = five();
    let filled = m.fill(L3OrderId::Market(3), false).unwrap();
    assert_eq!(filled.iter().map(|o| o.order_id).collect::<Vec<_>>(), vec![2]);
    assert_eq!(bids(&m, 10), vec![(1, 1.0), (3, 3.0), (4, 4.0), (5, 5.0)]);
    assert_eq!(m.orders.get(&L3OrderId::Market(3)), None);
}

#[test]
fn an_execution_at_the_front_fills_nothing_else() {
    let mut m = five();
    assert!(m.fill(L3OrderId::Market(1), true).unwrap().is_empty());
    assert_eq!(bids(&m, 10), vec![(2, 2.0), (3, 3.0), (4, 4.0), (5, 5.0)]);
}

#[test]
fn an_own_order_is_executed_like_any_other() {
    let mut m = five();
    let filled = m.fill(L3OrderId::Backtesting(4), true).unwrap();
    assert_eq!(filled.iter().map(|o| o.order_id).collect::<Vec<_>>(), vec![2]);
    assert_eq!(bids(&m, 10), vec![(1, 1.0), (3, 3.0), (5, 5.0)]);
}

#[test]
fn a_failed_execution_drops_the_own_orders() {
    let mut m = five();
    m.add_order(L3OrderId::Market(9), market(8, 10, 8.0)).unwrap();
    assert_eq!(m.fill(L3OrderId::Market(9), true).unwrap_err(), BacktestError::OrderNotFound);
    assert_eq!(bids(&m, 10), vec![(1, 1.0), (3, 3.0), (5, 5.0), (8, 8.0)]);
}

#[test]
fn sell_queues_are_modified_and_executed_alike() {
    let mut m = Model::new();
    for id in 1..4 {
        let source = if id == 2 { L3OrderSource::Backtesting } else { L3OrderSource::Market };
        let key = if id == 2 { L3OrderId::Backtesting(id) } else { L3OrderId::Market(id) };
        m.add_order(key, order(id, source, Side::Sell, 5, 1.0)).unwrap();
    }
    let bigger = order(1, L3OrderSource::Market, Side::Sell, 5, 2.0);
    assert_eq!(m.modify_order(L3OrderId::Market(1), bigger), Ok(()));
    assert_eq!(asks(&m, 5), vec![2, 3, 1]);
    assert_eq!(m.fill(L3OrderId::Market(1), true).unwrap().len(), 1);
    assert_eq!(asks(&m, 5), vec![3]);
}

#[test]
fn no_order_overtakes_another() {
    let mut m = five();
    m.add_order(L3OrderId::Market(6), market(6, 10, 6.0)).unwrap();
    assert!(m.cancel_order(L3OrderId::Backtesting(2)).is_ok());
    assert_eq!(bids(&m, 10).iter().map(|o| o.0).collect::<Vec<_>>(), vec![1, 3, 4, 5, 6]);
    assert!(m.fill(L3OrderId::Market(5), true).is_ok());
    assert_eq!(bids(&m, 10).iter().map(|o| o.0).collect::<Vec<_>>(), vec![1, 3, 6]);
}

/// A model with nothing in it.
struct Nothing;

impl L3QueueModel<Real> for Nothing {
    type Error = ();
    fn add_order(&mut self, _: L3OrderId, _: L3Order<Real>) -> Result<(), ()> {
        Err(())
    }
    fn cancel_order(&mut self, _: L3OrderId) -> Result<L3Order<Real>, ()> {
        Err(())
    }
    fn modify_order(&mut self, _: L3OrderId, _: L3Order<Real>) -> Result<(), ()> {
        Err(())
    }
    fn fill(&mut self, _: L3OrderId, _: bool) -> Result<Vec<L3Order<Real>>, ()> {
        Err(())
    }
}

#[test]
fn other_models_can_be_written() {
    let mut models: Vec<Box<dyn FnMut() -> bool>> = Vec::new();
    models.push(Box::new(|| Nothing.add_order(L3OrderId::Market(1), market(1, 1, 1.0)).is_ok()));
    models.push(Box::new(|| {
        Model::new().add_order(L3OrderId::Market(1), market(1, 1, 1.0)).is_ok()
    }));
    assert_eq!(models.iter_mut().map(|f| f()).collect::<Vec<_>>(), vec![false, true]);
}
