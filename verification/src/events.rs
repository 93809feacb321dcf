//! The closed sum types the engine consumes: account events, stream events
//! with reconnection notices, operator commands, the trading-state toggle,
//! and the top-level engine event.

use vstd::prelude::*;
use crate::balance::AssetBalance;
use crate::market::MarketEvent;
use crate::order::{OrderRequestCancel, OrderRequestOpen, OrderResponseCancel, OrderResponseOpen, OrderSnapshot};
use crate::position::{Position, Trade};
use crate::types::{ExchangeIndex, InstrumentIndex};

verus! {

/// Whether the engine may generate and dispatch algorithmic orders.
#[derive(Debug, Clone, Copy, PartialEq, Eq, Structural, Hash)]
pub enum TradingState {
    Enabled,
    Disabled,
}

/// An authoritative venue-origin record of one instrument's position,
/// ordered by sequence number.
#[derive(Debug, Clone, Copy, PartialEq, Eq, Structural, Hash)]
pub struct PositionSnapshot {
    pub position: Position,
    pub sequence: u64,
}

/// The per-instrument part of a full account snapshot.
#[derive(Debug, Clone, Copy, PartialEq, Eq, Structural, Hash)]
pub struct InstrumentAccountSnapshot {
    pub instrument: InstrumentIndex,
    pub position: PositionSnapshot,
}

/// A full account snapshot: every balance and every instrument position.
#[derive(Debug, Clone, PartialEq, Eq)]
pub struct AccountSnapshot {
    pub exchange: ExchangeIndex,
    pub balances: Vec<AssetBalance>,
    pub instruments: Vec<InstrumentAccountSnapshot>,
}

/// One event on a venue's account stream.
#[derive(Debug, Clone, PartialEq, Eq)]
pub enum AccountEventKind {
    Snapshot(AccountSnapshot),
    BalanceSnapshot(AssetBalance),
    PositionSnapshot(InstrumentAccountSnapshot),
    OrderSnapshot(OrderSnapshot),
    OrderOpened(OrderResponseOpen),
    OrderCancelled(OrderResponseCancel),
    Trade(Trade),
}

/// An account event of one venue.
#[derive(Debug, Clone, PartialEq, Eq)]
pub struct AccountEvent {
    pub exchange: ExchangeIndex,
    pub kind: AccountEventKind,
}

/// An account stream yields items or a reconnection notice.
#[derive(Debug, Clone, PartialEq, Eq)]
pub enum AccountStreamEvent {
    Reconnecting(ExchangeIndex),
    Item(AccountEvent),
}

/// A market-data stream yields items or a reconnection notice.
#[derive(Debug, Clone, Copy, PartialEq, Eq, Structural, Hash)]
pub enum MarketStreamEvent {
    Reconnecting(ExchangeIndex),
    Item(MarketEvent),
}

/// Selects the instruments an operator command applies to.
#[derive(Debug, Clone, PartialEq, Eq)]
pub enum InstrumentFilter {
    /// Every instrument.
    All,
    /// Instruments of these venues.
    Exchanges(Vec<ExchangeIndex>),
    /// Exactly these instruments.
    Instruments(Vec<InstrumentIndex>),
}

/// An operator command. Command-initiated actions bypass the risk manager.
#[derive(Debug, Clone, PartialEq, Eq)]
pub enum Command {
    SendCancelRequests(Vec<OrderRequestCancel>),
    SendOpenRequests(Vec<OrderRequestOpen>),
    ClosePositions(InstrumentFilter),
    CancelOrders(InstrumentFilter),
}

/// One event of the merged input feed.
#[derive(Debug, Clone, PartialEq, Eq)]
pub enum EngineEvent {
    /// Cooperative stop signal; the reducer records a commanded shutdown.
    Shutdown,
    Command(Command),
    TradingStateUpdate(TradingState),
    Account(AccountStreamEvent),
    Market(MarketStreamEvent),
}

} // verus!
