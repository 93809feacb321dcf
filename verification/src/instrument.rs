//! Per-instrument state: market substate, position with snapshot sequencing,
//! and the open-order book.

use vstd::prelude::*;
use crate::events::InstrumentAccountSnapshot;
use crate::market::MarketState;
use crate::order_manager::Orders;
use crate::position::{Position, Trade};
use crate::types::{Amount, ExchangeIndex, InstrumentIndex, AMOUNT_MAX};

verus! {

/// Equal instrument states, with the order books compared entry for entry.
pub open spec fn spec_instrument_like(a: InstrumentState, b: InstrumentState) -> bool {
    &&& a.instrument == b.instrument
    &&& a.exchange == b.exchange
    &&& a.market == b.market
    &&& a.position == b.position
    &&& a.position_sequence == b.position_sequence
    &&& a.orders.entries@ == b.orders.entries@
}

/// Everything the engine tracks for one instrument.
#[derive(Debug, Clone, PartialEq, Eq)]
pub struct InstrumentState {
    pub instrument: InstrumentIndex,
    pub exchange: ExchangeIndex,
    pub market: MarketState,
    pub position: Position,
    /// Sequence number of the applied position snapshot, `None` until the
    /// first one.
    pub position_sequence: Option<u64>,
    pub orders: Orders,
}

impl InstrumentState {
    pub open spec fn wf(self) -> bool {
        &&& self.market.wf()
        &&& self.position.wf()
        &&& self.position.instrument == self.instrument
        &&& self.orders.wf()
    }

    /// A fresh instrument: flat position, empty book, no market data.
    pub fn new_flat(instrument: InstrumentIndex, exchange: ExchangeIndex) -> (r: Self)
        ensures
            r.wf(),
            r.instrument == instrument,
            r.exchange == exchange,
            r.position == Position::spec_new_flat(instrument),
            r.position_sequence == None::<u64>,
            r.market == (MarketState { last_price: None::<Amount>, time_last_event: 0i64 }),
            r.orders.entries@.len() == 0,
    {
        InstrumentState {
            instrument,
            exchange,
            market: MarketState::new_empty(),
            position: Position::new_flat(instrument),
            position_sequence: None,
            orders: Orders::new(),
        }
    }

    /// Runtime check for `wf`, for callers that assemble an instrument
    /// state outside the verified world.
    pub fn is_well_formed(&self) -> (r: bool)
        ensures
            r == self.wf(),
    {
        let market_ok = match self.market.last_price {
            Some(p) => 0 <= p && p <= AMOUNT_MAX,
            None => true,
        };
        let keyed = self.position.instrument.index == self.instrument.index;
        proof {
            assert(keyed <==> self.position.instrument == self.instrument);
        }
        market_ok && self.position.is_well_formed() && keyed && self.orders.is_well_formed()
    }

    /// A value-for-value copy of this instrument state.
    pub fn deep_clone(&self) -> (r: InstrumentState)
        ensures
            spec_instrument_like(r, *self),
    {
        InstrumentState {
            instrument: self.instrument,
            exchange: self.exchange,
            market: self.market,
            position: self.position,
            position_sequence: self.position_sequence,
            orders: Orders { entries: crate::types::clone_copy_vec(&self.orders.entries) },
        }
    }

    /// Whether a position snapshot with this sequence number supersedes the
    /// applied one.
    pub open spec fn spec_accepts_position(self, sequence: u64) -> bool {
        match self.position_sequence {
            None => true,
            Some(applied) => sequence > applied,
        }
    }

    /// The state after a position snapshot is offered: the position is
    /// replaced wholesale iff the snapshot is strictly newer.
    pub open spec fn spec_update_from_position_snapshot(
        self,
        snap: InstrumentAccountSnapshot,
    ) -> InstrumentState {
        if self.spec_accepts_position(snap.position.sequence) {
            InstrumentState {
                position: snap.position.position,
                position_sequence: Some(snap.position.sequence),
                ..self
            }
        } else {
            self
        }
    }

    /// Apply a position snapshot: strictly newer snapshots replace the
    /// position, older or repeated ones are discarded.
    pub fn update_from_position_snapshot(&mut self, snap: &InstrumentAccountSnapshot)
        requires
            old(self).wf(),
            snap.position.position.wf(),
            snap.position.position.instrument == old(self).instrument,
        ensures
            final(self).wf(),
            *final(self) == old(self).spec_update_from_position_snapshot(*snap),
    {
        let apply = match self.position_sequence {
            None => true,
            Some(applied) => snap.position.sequence > applied,
        };
        if apply {
            self.position = snap.position.position;
            self.position_sequence = Some(snap.position.sequence);
        }
    }

    /// Whether a trade can be applied without pushing the position past the
    /// amount bound.
    ///
    /// (See `lemma_position_snapshot_replay_noop` for the replay law on
    /// position snapshots.)
    pub open spec fn spec_trade_applicable(self, t: Trade) -> bool {
        (self.position.quantity_net == 0 || t.side == self.position.side)
            ==> self.position.quantity_net + t.quantity <= AMOUNT_MAX
    }

    /// How the state after a fill relates to the state before it: the
    /// position absorbed the trade and the matching entry's fill advanced,
    /// or — for a trade that would push the position past the amount
    /// bound — nothing changed.
    pub open spec fn spec_trade_relation(pre: InstrumentState, post: InstrumentState, t: Trade) -> bool {
        &&& pre.spec_trade_applicable(t) ==> {
            &&& post.position == pre.position.spec_update_from_trade(t)
            &&& post.orders.view_map() == crate::order_manager::spec_update_from_trade(
                pre.orders.view_map(),
                t.cid,
                t.quantity,
            )
            &&& post.position.spec_signed_net() == pre.position.spec_signed_net()
                + t.side.spec_sign() * t.quantity
        }
        &&& !pre.spec_trade_applicable(t) ==> post == pre
        &&& post.instrument == pre.instrument
        &&& post.exchange == pre.exchange
        &&& post.market == pre.market
        &&& post.position_sequence == pre.position_sequence
    }

    /// Apply a fill to both the position and the order book.
    pub fn update_from_trade(&mut self, t: &Trade)
        requires
            old(self).wf(),
            t.wf(),
            t.instrument == old(self).instrument,
        ensures
            final(self).wf(),
            InstrumentState::spec_trade_relation(*old(self), *final(self), *t),
    {
        let applicable = if self.position.quantity_net == 0 || t.side == self.position.side {
            self.position.quantity_net <= AMOUNT_MAX - t.quantity
        } else {
            true
        };
        if applicable {
            self.position.update_from_trade(t);
            self.orders.update_from_trade(t.cid, t.quantity);
        }
    }
}


/// Replaying a position snapshot sequence number is a no-op: once a
/// snapshot with some sequence number has been applied, offering any
/// snapshot with the same (or an older) sequence number leaves the
/// instrument's position unchanged.
pub proof fn lemma_position_snapshot_replay_noop(
    state: InstrumentState,
    first: InstrumentAccountSnapshot,
    second: InstrumentAccountSnapshot,
)
    requires
        second.position.sequence <= first.position.sequence,
    ensures
        state.spec_update_from_position_snapshot(first).spec_update_from_position_snapshot(second)
            == state.spec_update_from_position_snapshot(first),
{
}

} // verus!
