//! The plain types that orders, requests and errors are made of.

use vstd::prelude::*;

verus! {

/// A target timestamp that no event lies after: running towards it runs to the end of the data.
pub const UNTIL_END_OF_DATA: i64 = i64::MAX;

/// Stands in place of an order id when no order response is waited for.
pub const WAIT_ORDER_RESPONSE_NONE: i64 = -1;

/// The side of the book an order is on.
#[derive(Clone, Copy, Debug, PartialEq, Eq, Structural)]
pub enum Side {
    Buy,
    Sell,
    Unsupported,
}

/// Order type.
#[derive(Clone, Copy, Debug, PartialEq, Eq, Structural)]
pub enum OrdType {
    Limit,
    Market,
    Unsupported,
}

/// How long an order stays in the book.
#[derive(Clone, Copy, Debug, PartialEq, Eq, Structural)]
pub enum TimeInForce {
    /// Good till cancel.
    GTC,
    /// Post only.
    GTX,
    /// Fill or kill.
    FOK,
    /// Immediate or cancel.
    IOC,
    Unsupported,
}

/// An order to submit; `N` is the number type of prices and quantities.
#[derive(Debug)]
pub struct OrderRequest<N> {
    pub order_id: i64,
    pub price: N,
    pub qty: N,
    pub time_in_force: TimeInForce,
    pub order_type: OrdType,
}

/// An order resting in the book. `N` is the number type of quantities, and `q` is what a queue
/// model keeps with the order.
#[derive(Debug)]
pub struct Order<N, Q> {
    pub order_id: i64,
    pub side: Side,
    pub price_tick: i32,
    /// The order's quantity.
    pub qty: N,
    /// What is left of the quantity to be executed.
    pub leaves_qty: N,
    pub q: Q,
}

/// Why a backtest operation failed.
#[derive(Debug, PartialEq, Eq)]
pub enum BacktestError {
    OrderIdExist,
    OrderRequestInProcess,
    OrderNotFound,
    InvalidOrderRequest,
    InvalidOrderStatus,
    /// There is no further data. The backtester takes it as the regular end of a feed.
    EndOfData,
    /// The data could not be read.
    DataError(String),
}

/// Why a backtester could not be built.
#[derive(Debug, PartialEq, Eq)]
pub enum BuildError {
    BuilderIncomplete(String),
    InvalidArgument(String),
}

} // verus!
