//! Market-data substate per instrument: the engine keeps the latest observed
//! price so that strategies can quote against it.

use vstd::prelude::*;
use crate::types::{Amount, ExchangeIndex, InstrumentIndex, TimeMillis, AMOUNT_MAX};

verus! {

/// One normalized market-data event.
#[derive(Debug, Clone, Copy, PartialEq, Eq, Structural, Hash)]
pub enum MarketEventKind {
    /// A public trade printed at the venue.
    PublicTrade { price: Amount, amount: Amount },
    /// A top-of-book update carrying the mid price.
    BookUpdate { mid: Amount },
}

impl MarketEventKind {
    /// The price this event carries.
    pub open spec fn spec_price(self) -> Amount {
        match self {
            MarketEventKind::PublicTrade { price, amount } => price,
            MarketEventKind::BookUpdate { mid } => mid,
        }
    }

    pub open spec fn wf(self) -> bool {
        match self {
            MarketEventKind::PublicTrade { price, amount } => {
                &&& 0 <= price <= AMOUNT_MAX
                &&& 0 <= amount <= AMOUNT_MAX
            },
            MarketEventKind::BookUpdate { mid } => 0 <= mid <= AMOUNT_MAX,
        }
    }
}

/// A market-data event for one instrument of one venue.
#[derive(Debug, Clone, Copy, PartialEq, Eq, Structural, Hash)]
pub struct MarketEvent {
    pub time_exchange: TimeMillis,
    pub exchange: ExchangeIndex,
    pub instrument: InstrumentIndex,
    pub kind: MarketEventKind,
}

impl MarketEvent {
    pub open spec fn wf(self) -> bool {
        self.kind.wf()
    }
}

/// The market substate the engine keeps per instrument: the last observed
/// price and the venue time it was observed at.
#[derive(Debug, Clone, Copy, PartialEq, Eq, Structural, Hash)]
pub struct MarketState {
    pub last_price: Option<Amount>,
    pub time_last_event: TimeMillis,
}

impl MarketState {
    pub open spec fn wf(self) -> bool {
        match self.last_price {
            Some(p) => 0 <= p <= AMOUNT_MAX,
            None => true,
        }
    }

    /// No market data observed yet.
    pub fn new_empty() -> (r: Self)
        ensures
            r == (MarketState { last_price: None::<Amount>, time_last_event: 0i64 }),
    {
        MarketState { last_price: None, time_last_event: 0 }
    }

    /// The state after observing one market event.
    pub open spec fn spec_process(self, event: MarketEvent) -> MarketState {
        MarketState {
            last_price: Some(event.kind.spec_price()),
            time_last_event: event.time_exchange,
        }
    }

    /// Record the price carried by a market event.
    pub fn process(&mut self, event: &MarketEvent)
        requires
            event.wf(),
        ensures
            *final(self) == old(self).spec_process(*event),
            final(self).wf(),
    {
        let price = match event.kind {
            MarketEventKind::PublicTrade { price, amount } => price,
            MarketEventKind::BookUpdate { mid } => mid,
        };
        self.last_price = Some(price);
        self.time_last_event = event.time_exchange;
    }
}

} // verus!
