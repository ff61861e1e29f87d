use std::cell::RefCell;
use std::collections::{HashMap, VecDeque};
use std::rc::Rc;

use hftbacktest::asset::Asset;
use hftbacktest::depth::MarketDepth;
use hftbacktest::multi::MultiAssetMultiExchangeBacktest;
use hftbacktest::proc::{Account, LocalProcessor, Processor};
use hftbacktest::quantity::Quantity;
use hftbacktest::run::next_timestamp;
use hftbacktest::single::MultiAssetSingleExchangeBacktest;
use hftbacktest::types::{BacktestError, OrdType, OrderRequest, Side, TimeInForce};
use hftbacktest::types::{UNTIL_END_OF_DATA, WAIT_ORDER_RESPONSE_NONE};

#[derive(Clone, Copy, Debug, PartialEq)]
struct Real(f32);

impl Quantity for Real {
    fn zero() -> Self {
        Real(0.0)
    }
    fn one() -> Self {
        Real(1.0)
    }
    fn plus(self, other: Self) -> Self {
        Real(self.0 + other.0)
    }
    fn minus(self, other: Self) -> Self {
        Real(self.0 - other.0)
    }
    fn times(self, other: Self) -> Self {
        Real(self.0 * other.0)
    }
    fn over(self, other: Self) -> Self {
        Real(self.0 / other.0)
    }
    fn negated(self) -> Self {
        Real(-self.0)
    }
    fn lesser(self, other: Self) -> Self {
        Real(self.0.min(other.0))
    }
    fn less_than(self, other: Self) -> bool {
        self.0 < other.0
    }
    fn is_infinite(self) -> bool {
        self.0.is_infinite()
    }
    fn round(self) -> Self {
        Real(self.0.round())
    }
    fn floor(self) -> Self {
        Real(self.0.floor())
    }
    fn power(self, other: Self) -> Self {
        Real(self.0.powf(other.0))
    }
    fn ln(self) -> Self {
        Real(self.0.ln())
    }
}

#[derive(Debug, PartialEq)]
struct Book(i32);

impl MarketDepth for Book {
    type Num = Real;
    fn bid_qty_at_tick(&self, _price_tick: i32) -> Real {
        Real(1.0)
    }
    fn ask_qty_at_tick(&self, _price_tick: i32) -> Real {
        Real(2.0)
    }
    fn lot_size(&self) -> Real {
        Real(1.0)
    }
}

struct Spot;

impl Account for Spot {
    type Order = i64;
    type Position = f64;
    type StateValues = (f64, f64);
}

type Trade = (i64, f32);
type Log = Rc<RefCell<Vec<String>>>;
/// When each message arrives, and which order it is about.
type Bus = Rc<RefCell<VecDeque<(i64, i64)>>>;

fn arrival(bus: &Bus) -> i64 {
    bus.borrow().front().map_or(i64::MAX, |m| m.0)
}

fn note(log: &Log, line: String) {
    log.borrow_mut().push(line);
}

/// Timestamps of market data. A negative one stands for data that cannot be read.
struct Feed {
    rows: Vec<i64>,
    next: usize,
}

impl Feed {
    fn peek(&self) -> Result<i64, BacktestError> {
        match self.rows.get(self.next) {
            None => Err(BacktestError::EndOfData),
            Some(ts) if *ts < 0 => Err(BacktestError::DataError(format!("row {}", self.next))),
            Some(ts) => Ok(*ts),
        }
    }
}

struct LocalSide {
    name: String,
    log: Log,
    feed: Feed,
    to_exch: Bus,
    to_local: Bus,
    orders: HashMap<i64, i64>,
    trades: Vec<Trade>,
    depth: Book,
}

impl Processor for LocalSide {
    fn initialize_data(&mut self) -> Result<i64, BacktestError> {
        note(&self.log, format!("{} init", self.name));
        self.feed.peek()
    }

    fn process_data(&mut self) -> Result<(i64, i64), BacktestError> {
        note(&self.log, format!("{} data {}", self.name, self.feed.rows[self.feed.next]));
        self.feed.next += 1;
        self.feed.peek().map(|ts| (ts, 0))
    }

    fn process_recv_order(&mut self, timestamp: i64, wait: i64) -> Result<bool, BacktestError> {
        note(&self.log, format!("{} response {} wait {}", self.name, timestamp, wait));
        let (_, id) = self.to_local.borrow_mut().pop_front().unwrap();
        if id == 666 {
            return Err(BacktestError::InvalidOrderStatus);
        }
        Ok(id == wait)
    }

    fn earliest_recv_order_timestamp(&self) -> i64 {
        arrival(&self.to_local)
    }

    fn earliest_send_order_timestamp(&self) -> i64 {
        arrival(&self.to_exch)
    }
}

impl LocalProcessor<Book, Trade, Spot> for LocalSide {
    fn submit_order(
        &mut self,
        order_id: i64,
        side: Side,
        price: Real,
        qty: Real,
        order_type: OrdType,
        time_in_force: TimeInForce,
        current_timestamp: i64,
    ) -> Result<(), BacktestError> {
        note(
            &self.log,
            format!(
                "{} submit {} {:?} {} {} {:?} {:?} at {}",
                self.name, order_id, side, price.0, qty.0, order_type, time_in_force,
                current_timestamp
            ),
        );
        if self.orders.contains_key(&order_id) {
            return Err(BacktestError::OrderIdExist);
        }
        self.orders.insert(order_id, current_timestamp);
        self.to_exch.borrow_mut().push_back((current_timestamp + 5, order_id));
        Ok(())
    }

    fn cancel(&mut self, order_id: i64, current_timestamp: i64) -> Result<(), BacktestError> {
        note(&self.log, format!("{} cancel {} at {}", self.name, order_id, current_timestamp));
        if !self.orders.contains_key(&order_id) {
            return Err(BacktestError::OrderNotFound);
        }
        self.to_exch.borrow_mut().push_back((current_timestamp + 5, order_id));
        Ok(())
    }

    fn clear_inactive_orders(&mut self) {
        self.orders.clear();
    }

    fn clear_last_trades(&mut self) {
        self.trades.clear();
    }

    fn position(&self) -> f64 {
        1.5
    }

    fn state_values(&self) -> (f64, f64) {
        (1.5, -2.0)
    }

    fn depth(&self) -> &Book {
        &self.depth
    }

    fn orders(&self) -> &HashMap<i64, i64> {
        &self.orders
    }

    fn trade(&self) -> &Vec<Trade> {
        &self.trades
    }

    fn feed_latency(&self) -> Option<(i64, i64)> {
        Some((1, 2))
    }

    fn order_latency(&self) -> Option<(i64, i64, i64)> {
        Some((1, 2, 3))
    }
}

struct ExchangeSide {
    name: String,
    log: Log,
    feed: Feed,
    to_exch: Bus,
    to_local: Bus,
}

impl Processor for ExchangeSide {
    fn initialize_data(&mut self) -> Result<i64, BacktestError> {
        note(&self.log, format!("{} init", self.name));
        self.feed.peek()
    }

    fn process_data(&mut self) -> Result<(i64, i64), BacktestError> {
        note(&self.log, format!("{} data {}", self.name, self.feed.rows[self.feed.next]));
        self.feed.next += 1;
        self.feed.peek().map(|ts| (ts, 0))
    }

    fn process_recv_order(&mut self, timestamp: i64, wait: i64) -> Result<bool, BacktestError> {
        note(&self.log, format!("{} order {} wait {}", self.name, timestamp, wait));
        let (_, id) = self.to_exch.borrow_mut().pop_front().unwrap();
        if id == 667 {
            return Err(BacktestError::InvalidOrderRequest);
        }
        self.to_local.borrow_mut().push_back((timestamp + 5, id));
        Ok(true)
    }

    fn earliest_recv_order_timestamp(&self) -> i64 {
        arrival(&self.to_exch)
    }

    fn earliest_send_order_timestamp(&self) -> i64 {
        arrival(&self.to_local)
    }
}

fn sides(no: usize, log: &Log, local: &[i64], exch: &[i64]) -> (LocalSide, ExchangeSide) {
    let to_exch: Bus = Rc::new(RefCell::new(VecDeque::new()));
    let to_local: Bus = Rc::new(RefCell::new(VecDeque::new()));
    (
        LocalSide {
            name: format!("L{}", no),
            log: log.clone(),
            feed: Feed { rows: local.to_vec(), next: 0 },
            to_exch: to_exch.clone(),
            to_local: to_local.clone(),
            orders: HashMap::new(),
            trades: vec![(7, 0.5), (8, 0.25)],
            depth: Book(no as i32),
        },
        ExchangeSide {
            name: format!("E{}", no),
            log: log.clone(),
            feed: Feed { rows: exch.to_vec(), next: 0 },
            to_exch,
            to_local,
        },
    )
}

type Single = MultiAssetSingleExchangeBacktest<Book, Trade, Spot, LocalSide, ExchangeSide>;
type Multi = MultiAssetMultiExchangeBacktest<Book, Trade, Spot>;

fn single(feeds: &[(&[i64], &[i64])]) -> (Single, Log) {
    let log: Log = Rc::new(RefCell::new(Vec::new()));
    let mut local = Vec::new();
    let mut exch = Vec::new();
    for (no, (l, e)) in feeds.iter().enumerate() {
        let (l, e) = sides(no, &log, l, e);
        local.push(l);
        exch.push(e);
    }
    (Single::new(local, exch), log)
}

fn multi(feeds: &[(&[i64], &[i64])]) -> (Multi, Log) {
    let log: Log = Rc::new(RefCell::new(Vec::new()));
    let mut builder = Multi::builder();
    for (no, (l, e)) in feeds.iter().enumerate() {
        let (l, e) = sides(no, &log, l, e);
        builder = builder.add(Asset { local: Box::new(l), exch: Box::new(e) });
    }
    match builder.build() {
        Ok(bt) => (bt, log),
        Err(_) => panic!("not built"),
    }
}

fn lines(log: &Log) -> Vec<String> {
    log.borrow_mut().drain(..).collect()
}

#[test]
fn a_new_backtester_is_not_started() {
    let (bt, log) = single(&[(&[1], &[1]), (&[2], &[2])]);
    assert_eq!(bt.num_assets(), 2);
    assert_eq!(bt.current_timestamp(), i64::MAX);
    assert!(lines(&log).is_empty());
    let (bt, _) = multi(&[(&[1], &[1]), (&[2], &[2]), (&[3], &[3])]);
    assert_eq!(bt.num_assets(), 3);
    assert_eq!(bt.current_timestamp(), i64::MAX);
}

#[test]
fn the_builder_keeps_the_order_of_assets() {
    let log: Log = Rc::new(RefCell::new(Vec::new()));
    let mut builder = Single::builder();
    for no in 0..2 {
        let (l, e) = sides(no, &log, &[], &[]);
        builder = builder.add(Asset { local: Box::new(l), exch: Box::new(e) });
    }
    let bt: Single = match builder.build() {
        Ok(bt) => bt,
        Err(_) => panic!("not built"),
    };
    assert_eq!(bt.depth(0), &Book(0));
    assert_eq!(bt.depth(1), &Book(1));
}

#[test]
fn without_data_there_is_nothing_to_run() {
    let (mut bt, log) = single(&[(&[], &[])]);
    assert_eq!(bt.elapse(10), Ok(false));
    assert_eq!(bt.current_timestamp(), i64::MAX);
    assert_eq!(lines(&log), vec!["L0 init", "E0 init"]);
    // It was not started, so the feeds are prepared again.
    assert_eq!(bt.wait_next_feed(false, 10), Ok(false));
    assert_eq!(lines(&log), vec!["L0 init", "E0 init"]);
    let (mut none, _) = single(&[]);
    assert_eq!(none.elapse(10), Ok(false));
}

#[test]
fn elapse_starts_at_the_first_event_and_serves_events_in_time_order() {
    let (mut bt, log) = single(&[(&[102, 112], &[100, 110]), (&[103, 200], &[101, 150])]);
    assert_eq!(bt.elapse(10), Ok(true));
    assert_eq!(bt.current_timestamp(), 110);
    assert_eq!(
        lines(&log),
        vec![
            "L0 init", "L1 init", "E0 init", "E1 init", "E0 data 100", "E1 data 101", "L0 data 102",
            "L1 data 103", "E0 data 110",
        ]
    );
    assert_eq!(bt.elapse_bt(2), Ok(true));
    assert_eq!(bt.current_timestamp(), 112);
    assert_eq!(lines(&log), vec!["L0 data 112"]);
    assert_eq!(bt.elapse(0), Ok(true));
    assert_eq!(bt.current_timestamp(), 112);
    assert!(lines(&log).is_empty());
    assert_eq!(bt.elapse(1000), Ok(false));
    assert_eq!(bt.current_timestamp(), 112);
    assert_eq!(lines(&log), vec!["E1 data 150", "L1 data 200"]);
}

#[test]
fn boxed_processors_are_served_alike() {
    let (mut bt, log) = multi(&[(&[102, 112], &[100, 110]), (&[103, 200], &[101, 150])]);
    assert_eq!(bt.elapse(10), Ok(true));
    assert_eq!(bt.current_timestamp(), 110);
    assert_eq!(lines(&log).len(), 9);
    assert_eq!(bt.elapse_bt(1000), Ok(false));
    assert_eq!(lines(&log), vec!["L0 data 112", "E1 data 150", "L1 data 200"]);
}

#[test]
fn waiting_for_the_next_feed_ends_with_local_data() {
    let (mut bt, log) = single(&[(&[105, 115, 120], &[100, 110])]);
    assert_eq!(bt.wait_next_feed(false, 1000), Ok(true));
    assert_eq!(bt.current_timestamp(), 105);
    assert_eq!(lines(&log), vec!["L0 init", "E0 init", "E0 data 100", "L0 data 105"]);
    // The timeout comes first.
    assert_eq!(bt.wait_next_feed(false, 7), Ok(true));
    assert_eq!(bt.current_timestamp(), 112);
    assert_eq!(lines(&log), vec!["E0 data 110"]);
    assert_eq!(bt.wait_next_feed(false, 1000), Ok(true));
    assert_eq!(bt.current_timestamp(), 115);
    // After the last data no event is left.
    assert_eq!(bt.wait_next_feed(false, 1000), Ok(false));
    assert_eq!(bt.current_timestamp(), 115);
}

#[test]
fn events_at_the_time_of_the_feed_are_still_served() {
    let (mut bt, log) = multi(&[(&[100, 120], &[100, 110]), (&[100, 130], &[100])]);
    assert_eq!(bt.wait_next_feed(true, 1000), Ok(true));
    assert_eq!(bt.current_timestamp(), 100);
    assert_eq!(
        lines(&log)[4..],
        ["L0 data 100", "E0 data 100", "L1 data 100", "E1 data 100"]
    );
}

#[test]
fn a_submitted_order_is_sent_and_answered() {
    let (mut bt, log) = single(&[(&[150], &[100, 107, 112, 150])]);
    assert_eq!(bt.elapse(0), Ok(true));
    lines(&log);
    let r = bt.submit_buy_order(
        0,
        42,
        Real(10.5),
        Real(2.0),
        TimeInForce::GTC,
        OrdType::Limit,
        true,
    );
    assert_eq!(r, Ok(true));
    // The order arrives at 105, its response at 110.
    assert_eq!(bt.current_timestamp(), 110);
    assert_eq!(
        lines(&log),
        vec![
            "L0 submit 42 Buy 10.5 2 Limit GTC at 100", "E0 order 105 wait -1", "E0 data 107",
            "L0 response 110 wait 42",
        ]
    );
    assert_eq!(bt.orders(0).get(&42), Some(&100));
}

#[test]
fn an_order_is_submitted_without_waiting() {
    let (mut bt, log) = multi(&[(&[150], &[100, 107, 150])]);
    assert_eq!(bt.elapse(0), Ok(true));
    lines(&log);
    let r =
        bt.submit_sell_order(0, 1, Real(9.0), Real(1.0), TimeInForce::GTX, OrdType::Market, false);
    assert_eq!(r, Ok(true));
    assert_eq!(bt.current_timestamp(), 100);
    assert_eq!(lines(&log), vec!["L0 submit 1 Sell 9 1 Market GTX at 100"]);
    // The timeout comes before the response.
    assert_eq!(bt.wait_order_response(0, 1, 8), Ok(true));
    assert_eq!(bt.current_timestamp(), 108);
    assert_eq!(lines(&log), vec!["E0 order 105 wait -1", "E0 data 107"]);
    assert_eq!(bt.wait_order_response(0, 1, 100), Ok(true));
    assert_eq!(bt.current_timestamp(), 110);
    assert_eq!(lines(&log), vec!["L0 response 110 wait 1"]);
}

#[test]
fn a_response_is_seen_with_the_next_data_of_the_exchange() {
    // The response is there at 110, but the exchange processes nothing between 105 and 150.
    let (mut bt, log) = single(&[(&[150], &[100, 150])]);
    assert_eq!(bt.elapse(0), Ok(true));
    lines(&log);
    let r =
        bt.submit_buy_order(0, 1, Real(9.0), Real(1.0), TimeInForce::GTX, OrdType::Market, true);
    assert_eq!(r, Ok(false));
    assert_eq!(
        lines(&log)[1..],
        ["E0 order 105 wait -1", "L0 data 150", "E0 data 150", "L0 response 110 wait 1"]
    );
}

#[test]
fn an_order_request_is_submitted_as_a_sell_order() {
    let request = |order_id: i64| OrderRequest {
        order_id,
        price: Real(3.0),
        qty: Real(4.0),
        time_in_force: TimeInForce::IOC,
        order_type: OrdType::Limit,
    };
    let (mut bt, log) = single(&[(&[150], &[100, 150])]);
    bt.elapse(0).unwrap();
    assert_eq!(bt.submit_order(0, request(3), false), Ok(true));
    assert_eq!(lines(&log)[3], "L0 submit 3 Sell 3 4 Limit IOC at 100");
    let (mut bt, log) = multi(&[(&[150], &[100, 150])]);
    bt.elapse(0).unwrap();
    assert_eq!(bt.submit_order(0, request(3), false), Ok(true));
    assert_eq!(lines(&log)[3], "L0 submit 3 Sell 3 4 Limit IOC at 100");
}

#[test]
fn a_refused_request_returns_the_error_and_runs_nothing() {
    let (mut bt, log) = single(&[(&[150], &[100, 150])]);
    bt.elapse(0).unwrap();
    let submit = |bt: &mut Single| {
        bt.submit_buy_order(0, 1, Real(1.0), Real(1.0), TimeInForce::FOK, OrdType::Limit, false)
    };
    assert_eq!(submit(&mut bt), Ok(true));
    lines(&log);
    let r =
        bt.submit_sell_order(0, 1, Real(1.0), Real(1.0), TimeInForce::FOK, OrdType::Limit, true);
    assert_eq!(r, Err(BacktestError::OrderIdExist));
    assert_eq!(bt.cancel(0, 2, true), Err(BacktestError::OrderNotFound));
    assert_eq!(bt.current_timestamp(), 100);
    assert_eq!(
        lines(&log),
        vec!["L0 submit 1 Sell 1 1 Limit FOK at 100", "L0 cancel 2 at 100"]
    );
}

#[test]
fn a_cancel_request_is_answered() {
    let (mut bt, log) = multi(&[(&[150], &[100, 107, 117, 150])]);
    bt.elapse(0).unwrap();
    bt.submit_buy_order(0, 1, Real(1.0), Real(1.0), TimeInForce::GTC, OrdType::Limit, true)
        .unwrap();
    assert_eq!(bt.current_timestamp(), 110);
    lines(&log);
    assert_eq!(bt.cancel(0, 1, true), Ok(true));
    assert_eq!(bt.current_timestamp(), 120);
    assert_eq!(
        lines(&log),
        vec!["L0 cancel 1 at 110", "E0 order 115 wait -1", "E0 data 117", "L0 response 120 wait 1"]
    );
}

#[test]
fn only_the_asset_that_is_waited_for_looks_out_for_the_response() {
    let (mut bt, log) = single(&[(&[150], &[100, 106, 150]), (&[150], &[100, 107, 150])]);
    bt.elapse(0).unwrap();
    bt.submit_buy_order(0, 1, Real(1.0), Real(1.0), TimeInForce::GTC, OrdType::Limit, false)
        .unwrap();
    bt.submit_buy_order(1, 1, Real(1.0), Real(1.0), TimeInForce::GTC, OrdType::Limit, false)
        .unwrap();
    lines(&log);
    assert_eq!(bt.wait_order_response(1, 1, 1000), Ok(true));
    assert_eq!(bt.current_timestamp(), 110);
    assert_eq!(
        lines(&log),
        vec![
            "E0 order 105 wait -1", "E1 order 105 wait -1", "E0 data 106", "E1 data 107",
            "L0 response 110 wait -1", "L1 response 110 wait 1",
        ]
    );
}

#[test]
fn a_response_ends_a_wait_for_the_feed_only_if_included() {
    for responses in [false, true] {
        let (mut bt, log) = single(&[(&[130, 140], &[100, 106, 150])]);
        bt.elapse(0).unwrap();
        bt.submit_buy_order(0, 1, Real(1.0), Real(1.0), TimeInForce::GTC, OrdType::Limit, false)
            .unwrap();
        assert_eq!(bt.wait_next_feed(responses, 1000), Ok(true));
        assert_eq!(bt.current_timestamp(), if responses { 110 } else { 130 });
        assert!(lines(&log).contains(&"L0 response 110 wait -1".to_string()));
    }
}

#[test]
fn what_is_not_waited_for_makes_no_difference() {
    let (mut a, log_a) = single(&[(&[102, 112], &[100, 110])]);
    let (mut b, log_b) = single(&[(&[102, 112], &[100, 110])]);
    a.elapse(0).unwrap();
    b.elapse(0).unwrap();
    assert_eq!(a.goto::<true>(105, (0, 5), true), b.goto::<true>(105, (0, 6), true));
    assert_eq!(a.current_timestamp(), b.current_timestamp());
    assert_eq!(a.goto::<false>(111, (0, 5), true), b.goto::<false>(111, (0, 5), false));
    assert_eq!(a.current_timestamp(), 111);
    assert_eq!(b.current_timestamp(), 111);
    assert_eq!(lines(&log_a), lines(&log_b));
}

#[test]
fn a_run_to_the_end_of_data_leaves_no_event() {
    let (mut bt, log) = multi(&[(&[102, 112], &[100, 110])]);
    bt.elapse(0).unwrap();
    assert_eq!(
        bt.goto::<false>(UNTIL_END_OF_DATA, (0, WAIT_ORDER_RESPONSE_NONE), false),
        Ok(false)
    );
    assert_eq!(bt.current_timestamp(), 100);
    assert_eq!(lines(&log).len(), 6);
}

#[test]
fn a_target_in_the_past_serves_nothing() {
    let (mut bt, log) = single(&[(&[102], &[100])]);
    bt.elapse(0).unwrap();
    lines(&log);
    assert_eq!(bt.goto::<false>(50, (0, WAIT_ORDER_RESPONSE_NONE), false), Ok(true));
    assert_eq!(bt.current_timestamp(), 50);
    assert!(lines(&log).is_empty());
}

#[test]
fn a_failure_to_prepare_a_feed_is_returned() {
    let (mut bt, log) = single(&[(&[1], &[1]), (&[-1], &[1])]);
    assert_eq!(bt.elapse(1), Err(BacktestError::DataError("row 0".to_string())));
    assert_eq!(lines(&log), vec!["L0 init", "L1 init"]);
    assert_eq!(bt.current_timestamp(), i64::MAX);
    let (mut bt, log) = multi(&[(&[1], &[1]), (&[1], &[-1])]);
    assert_eq!(bt.wait_next_feed(false, 1), Err(BacktestError::DataError("row 0".to_string())));
    assert_eq!(lines(&log), vec!["L0 init", "L1 init", "E0 init", "E1 init"]);
}

#[test]
fn a_failure_to_read_data_is_returned() {
    let (mut bt, _) = single(&[(&[100, -1], &[100, 110])]);
    assert_eq!(bt.elapse(50), Err(BacktestError::DataError("row 1".to_string())));
    assert_eq!(bt.current_timestamp(), 100);
    let (mut bt, _) = single(&[(&[105, 110], &[100, -1])]);
    assert_eq!(bt.elapse(50), Err(BacktestError::DataError("row 1".to_string())));
    assert_eq!(bt.current_timestamp(), 100);
}

#[test]
fn a_failure_of_an_order_or_a_response_is_returned() {
    let (mut bt, _) = single(&[(&[150], &[100, 106, 150])]);
    bt.elapse(0).unwrap();
    let r =
        bt.submit_buy_order(0, 667, Real(1.0), Real(1.0), TimeInForce::GTC, OrdType::Limit, true);
    assert_eq!(r, Err(BacktestError::InvalidOrderRequest));
    assert_eq!(bt.current_timestamp(), 100);
    let r =
        bt.submit_buy_order(0, 666, Real(1.0), Real(1.0), TimeInForce::GTC, OrdType::Limit, true);
    assert_eq!(r, Err(BacktestError::InvalidOrderStatus));
    assert_eq!(bt.current_timestamp(), 100);
}

#[test]
fn the_target_wraps_around() {
    let (mut bt, _) = single(&[(&[150], &[100, 150])]);
    assert_eq!(bt.elapse(0), Ok(true));
    assert_eq!(bt.wait_order_response(0, 1, i64::MAX), Ok(true));
    assert_eq!(bt.current_timestamp(), i64::MIN + 99);
}

#[test]
fn reports_come_from_the_local_side_of_the_asset() {
    let (bt, _) = single(&[(&[1], &[1]), (&[2], &[2])]);
    assert_eq!(bt.position(1), 1.5);
    assert_eq!(bt.state_values(0), (1.5, -2.0));
    assert_eq!(bt.depth_typed(1), &Book(1));
    assert_eq!(bt.trade_typed(0), &vec![(7, 0.5), (8, 0.25)]);
    assert_eq!(bt.trade(0), vec![&(7, 0.5), &(8, 0.25)]);
    assert_eq!(bt.feed_latency(0), Some((1, 2)));
    assert_eq!(bt.order_latency(0), Some((1, 2, 3)));
    assert!(bt.orders(0).is_empty());
    let (bt, _) = multi(&[(&[1], &[1]), (&[2], &[2])]);
    assert_eq!(bt.position(1), 1.5);
    assert_eq!(bt.state_values(0), (1.5, -2.0));
    assert_eq!(bt.depth(1), &Book(1));
    assert_eq!(bt.depth_typed(0), &Book(0));
    assert_eq!(bt.trade_typed(1).len(), 2);
    assert_eq!(bt.trade(0), vec![&(7, 0.5), &(8, 0.25)]);
    assert_eq!(bt.feed_latency(1), Some((1, 2)));
    assert_eq!(bt.order_latency(1), Some((1, 2, 3)));
    assert!(bt.orders(1).is_empty());
}

#[test]
fn trades_and_orders_are_cleared_for_one_asset_or_for_all() {
    let (mut bt, _) = single(&[(&[150], &[100]), (&[150], &[100]), (&[150], &[100])]);
    bt.elapse(0).unwrap();
    for no in 0..3 {
        bt.submit_buy_order(no, 1, Real(1.0), Real(1.0), TimeInForce::GTC, OrdType::Limit, false)
            .unwrap();
    }
    bt.clear_last_trades(Some(1));
    bt.clear_inactive_orders(Some(2));
    assert_eq!((0..3).map(|no| bt.trade(no).len()).collect::<Vec<_>>(), vec![2, 0, 2]);
    assert_eq!((0..3).map(|no| bt.orders(no).len()).collect::<Vec<_>>(), vec![1, 1, 0]);
    bt.clear_last_trades(None);
    bt.clear_inactive_orders(None);
    assert_eq!((0..3).map(|no| bt.trade(no).len()).collect::<Vec<_>>(), vec![0, 0, 0]);
    assert_eq!((0..3).map(|no| bt.orders(no).len()).collect::<Vec<_>>(), vec![0, 0, 0]);
    let (mut bt, _) = multi(&[(&[150], &[100]), (&[150], &[100])]);
    bt.clear_last_trades(Some(0));
    assert_eq!(bt.trade(1).len(), 2);
    bt.clear_last_trades(None);
    bt.clear_inactive_orders(None);
    assert_eq!(bt.trade(1).len(), 0);
}

#[test]
fn closing_succeeds() {
    let (mut bt, _) = single(&[(&[150], &[100])]);
    assert_eq!(bt.close(), Ok(()));
    let (mut bt, _) = multi(&[(&[150], &[100])]);
    assert_eq!(bt.close(), Ok(()));
}

#[test]
fn what_was_processed_says_when_the_next_data_is_due() {
    assert_eq!(next_timestamp(Ok((7, 3))), Ok(7));
    assert_eq!(next_timestamp(Err(BacktestError::EndOfData)), Err(BacktestError::EndOfData));
}

#[test]
fn a_failing_response_ends_the_run_of_boxed_processors() {
    let (mut bt, log) = multi(&[(&[150], &[100, 106, 150])]);
    bt.elapse(0).unwrap();
    lines(&log);
    let r =
        bt.submit_sell_order(0, 666, Real(1.0), Real(1.0), TimeInForce::GTC, OrdType::Limit, true);
    assert_eq!(r, Err(BacktestError::InvalidOrderStatus));
    assert_eq!(bt.current_timestamp(), 100);
    assert_eq!(
        lines(&log),
        vec![
            "L0 submit 666 Sell 1 1 Limit GTC at 100", "E0 order 105 wait -1", "E0 data 106",
            "L0 response 110 wait 666",
        ]
    );
    let r =
        bt.submit_sell_order(0, 667, Real(1.0), Real(1.0), TimeInForce::GTC, OrdType::Limit, true);
    assert_eq!(r, Err(BacktestError::InvalidOrderRequest));
    assert_eq!(bt.current_timestamp(), 100);
}

#[test]
fn a_run_that_waits_for_a_response_to_the_end_finds_no_other() {
    let (mut bt, _) = single(&[(&[150], &[100, 106, 150])]);
    bt.elapse(0).unwrap();
    bt.submit_buy_order(0, 1, Real(1.0), Real(1.0), TimeInForce::GTC, OrdType::Limit, false)
        .unwrap();
    assert_eq!(bt.goto::<false>(UNTIL_END_OF_DATA, (0, 2), false), Ok(false));
    assert_eq!(bt.current_timestamp(), 100);
}

#[test]
fn a_late_response_sets_the_clock_to_its_own_time() {
    // The response is due at 110, and is seen only with the data at 150.
    let (mut bt, _) = single(&[(&[150], &[100, 150, 160])]);
    bt.elapse(0).unwrap();
    let r =
        bt.submit_buy_order(0, 1, Real(9.0), Real(1.0), TimeInForce::GTX, OrdType::Market, true);
    assert_eq!(r, Ok(true));
    assert_eq!(bt.current_timestamp(), 110);
}

#[test]
fn both_backtesters_do_the_same() {
    let feeds: &[(&[i64], &[i64])] = &[(&[102, 112, 150], &[100, 107, 150]), (&[105], &[101, -1])];
    let (mut a, log_a) = single(feeds);
    let (mut b, log_b) = multi(feeds);
    assert_eq!(a.elapse(0), b.elapse(0));
    let order = (Real(1.0), Real(2.0), TimeInForce::GTC, OrdType::Limit);
    for wait in [false, true] {
        let id = if wait { 2 } else { 1 };
        assert_eq!(
            a.submit_buy_order(0, id, order.0, order.1, order.2, order.3, wait),
            b.submit_buy_order(0, id, order.0, order.1, order.2, order.3, wait)
        );
        assert_eq!(a.current_timestamp(), b.current_timestamp());
    }
    for target in [104, 200] {
        assert_eq!(a.goto::<true>(target, (0, 1), true), b.goto::<true>(target, (0, 1), true));
        assert_eq!(a.goto::<false>(target, (0, 1), true), b.goto::<false>(target, (0, 1), true));
        assert_eq!(a.current_timestamp(), b.current_timestamp());
    }
    let made = lines(&log_a);
    assert!(made.len() > 8);
    assert_eq!(made, lines(&log_b));
}

#[test]
fn a_feed_at_its_end_is_not_asked_again() {
    // The feeds end while orders go back and forth and the other asset goes on.
    let (mut bt, log) = single(&[(&[101], &[100, 106]), (&[130, 140], &[120, 140])]);
    bt.elapse(0).unwrap();
    bt.submit_buy_order(0, 1, Real(1.0), Real(1.0), TimeInForce::GTC, OrdType::Limit, false)
        .unwrap();
    assert_eq!(bt.elapse(35), Ok(true));
    assert_eq!(
        lines(&log)[4..],
        [
            "E0 data 100", "L0 submit 1 Buy 1 1 Limit GTC at 100", "L0 data 101",
            "E0 order 105 wait -1", "E0 data 106", "L0 response 110 wait -1", "E1 data 120",
            "L1 data 130",
        ]
    );
    assert_eq!(bt.elapse(100), Ok(false));
    assert_eq!(lines(&log), vec!["L1 data 140", "E1 data 140"]);
}

#[test]
fn the_call_that_fails_is_the_last_one() {
    let (mut bt, log) = multi(&[(&[110, 130], &[100, 120]), (&[115, -1], &[105, 140])]);
    assert_eq!(bt.elapse(50), Err(BacktestError::DataError("row 1".to_string())));
    assert_eq!(
        lines(&log)[4..],
        ["E0 data 100", "E1 data 105", "L0 data 110", "L1 data 115"]
    );
}
