//! Order envelopes exchanged with venues: open and cancel requests issued by
//! the engine, and the acknowledgements and snapshots reported back.

use vstd::prelude::*;
use crate::types::{
    Amount, ClientOrderId, ExchangeIndex, InstrumentIndex, OrderId, Side, TimeMillis, AMOUNT_MAX,
};

verus! {

/// Request to open an order: venue, instrument, caller-generated id, side,
/// limit price and quantity.
#[derive(Debug, Clone, Copy, PartialEq, Eq, Structural, Hash)]
pub struct OrderRequestOpen {
    pub exchange: ExchangeIndex,
    pub instrument: InstrumentIndex,
    pub cid: ClientOrderId,
    pub side: Side,
    pub price: Amount,
    pub quantity: Amount,
}

impl OrderRequestOpen {
    pub open spec fn wf(self) -> bool {
        &&& 0 <= self.price <= AMOUNT_MAX
        &&& 0 < self.quantity <= AMOUNT_MAX
    }
}

/// Request to cancel an order, addressed by client id and, when known, by the
/// venue's own id.
#[derive(Debug, Clone, Copy, PartialEq, Eq, Structural, Hash)]
pub struct OrderRequestCancel {
    pub exchange: ExchangeIndex,
    pub instrument: InstrumentIndex,
    pub cid: ClientOrderId,
    pub venue_order_id: Option<OrderId>,
}

/// Why a venue refused an open or cancel request.
#[derive(Debug, Clone, Copy, PartialEq, Eq, Structural, Hash)]
pub enum OrderError {
    /// The venue does not know the order.
    NotFound,
    /// The venue rejected the request.
    Rejected,
}

/// Fields the venue reports when it acknowledges an open order.
#[derive(Debug, Clone, Copy, PartialEq, Eq, Structural, Hash)]
pub struct OpenAck {
    pub venue_order_id: OrderId,
    pub price: Amount,
    pub quantity: Amount,
}

impl OpenAck {
    pub open spec fn wf(self) -> bool {
        &&& 0 <= self.price <= AMOUNT_MAX
        &&& 0 < self.quantity <= AMOUNT_MAX
    }
}

/// Venue response to an open request.
#[derive(Debug, Clone, Copy, PartialEq, Eq, Hash)]
pub struct OrderResponseOpen {
    pub exchange: ExchangeIndex,
    pub instrument: InstrumentIndex,
    pub cid: ClientOrderId,
    pub side: Side,
    pub time_exchange: TimeMillis,
    pub result: Result<OpenAck, OrderError>,
}

impl OrderResponseOpen {
    pub open spec fn wf(self) -> bool {
        match self.result {
            Ok(ack) => ack.wf(),
            Err(_) => true,
        }
    }
}

/// Venue response to a cancel request.
#[derive(Debug, Clone, Copy, PartialEq, Eq, Hash)]
pub struct OrderResponseCancel {
    pub exchange: ExchangeIndex,
    pub instrument: InstrumentIndex,
    pub cid: ClientOrderId,
    pub time_exchange: TimeMillis,
    pub result: Result<OrderId, OrderError>,
}

/// What an authoritative venue snapshot says about one order.
#[derive(Debug, Clone, Copy, PartialEq, Eq, Structural, Hash)]
pub enum OrderSnapshotKind {
    /// The order rests open at the venue with these fields.
    Open { venue_order_id: OrderId, price: Amount, quantity: Amount, filled_quantity: Amount },
    /// The order is gone at the venue (filled, cancelled or rejected).
    Closed,
}

/// An authoritative venue-origin record of one order's state.
#[derive(Debug, Clone, Copy, PartialEq, Eq, Structural, Hash)]
pub struct OrderSnapshot {
    pub exchange: ExchangeIndex,
    pub instrument: InstrumentIndex,
    pub cid: ClientOrderId,
    pub side: Side,
    pub time_exchange: TimeMillis,
    pub kind: OrderSnapshotKind,
}

impl OrderSnapshot {
    pub open spec fn wf(self) -> bool {
        match self.kind {
            OrderSnapshotKind::Open { venue_order_id, price, quantity, filled_quantity } => {
                &&& 0 <= price <= AMOUNT_MAX
                &&& 0 < quantity <= AMOUNT_MAX
                &&& 0 <= filled_quantity <= quantity
            },
            OrderSnapshotKind::Closed => true,
        }
    }
}

} // verus!
