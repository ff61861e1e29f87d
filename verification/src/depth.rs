//! Market depth as the queue models and the local side see it.

use vstd::prelude::*;

use crate::quantity::Quantity;

verus! {

/// The book of an instrument.
pub trait MarketDepth {
    /// The number type of prices and quantities.
    type Num: Quantity;

    /// Returns the quantity at the bid tick.
    fn bid_qty_at_tick(&self, price_tick: i32) -> Self::Num;

    /// Returns the quantity at the ask tick.
    fn ask_qty_at_tick(&self, price_tick: i32) -> Self::Num;

    /// Returns the lot size.
    fn lot_size(&self) -> Self::Num;
}

} // verus!
