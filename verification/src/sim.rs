//! Bookkeeping for a simulated exchange's client orders: resting bids and
//! asks, and a counter of the trades matched so far.

use vstd::prelude::*;
use crate::types::{Amount, ClientOrderId, ExchangeIndex, InstrumentIndex, OrderId, Side, AMOUNT_MAX};

verus! {

/// An order resting open at the simulated exchange.
#[derive(Debug, Clone, Copy, PartialEq, Eq, Structural, Hash)]
pub struct OpenOrder {
    pub exchange: ExchangeIndex,
    pub instrument: InstrumentIndex,
    pub cid: ClientOrderId,
    pub side: Side,
    pub venue_order_id: OrderId,
    pub price: Amount,
    pub quantity: Amount,
    pub filled_quantity: Amount,
}

impl OpenOrder {
    pub open spec fn wf(self) -> bool {
        &&& 0 <= self.price <= AMOUNT_MAX
        &&& 0 < self.quantity <= AMOUNT_MAX
        &&& 0 <= self.filled_quantity <= self.quantity
    }
}

/// The simulated exchange's view of one instrument's client orders.
#[derive(Debug, Clone, PartialEq, Eq)]
pub struct Orders {
    pub trade_counter: u64,
    pub bids: Vec<OpenOrder>,
    pub asks: Vec<OpenOrder>,
}

/// Assemble a simulated exchange's client-order bookkeeping from the number
/// of trades matched so far and the resting bids and asks.
pub fn client_orders(trade_number: u64, bids: Vec<OpenOrder>, asks: Vec<OpenOrder>) -> (r: Orders)
    ensures
        r.trade_counter == trade_number,
        r.bids@ == bids@,
        r.asks@ == asks@,
{
    Orders { trade_counter: trade_number, bids, asks }
}

} // verus!
