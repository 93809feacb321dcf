//! Per-venue execution-request channels. The engine is the sole producer;
//! venue execution clients consume on the other side. Sends are non-blocking:
//! a full channel is a transient failure, a closed one is terminal.

use vstd::prelude::*;
use crate::order::{OrderRequestCancel, OrderRequestOpen};
use crate::types::ExchangeIndex;

verus! {

/// A request handed to a venue's execution client.
#[derive(Debug, Clone, Copy, PartialEq, Eq, Structural, Hash)]
pub enum ExecutionRequest {
    OpenOrder(OrderRequestOpen),
    CancelOrder(OrderRequestCancel),
}

impl ExecutionRequest {
    /// The venue this request addresses.
    pub open spec fn spec_exchange(self) -> ExchangeIndex {
        match self {
            ExecutionRequest::OpenOrder(r) => r.exchange,
            ExecutionRequest::CancelOrder(r) => r.exchange,
        }
    }

    /// The venue this request addresses.
    pub fn exchange(&self) -> (r: ExchangeIndex)
        ensures
            r == self.spec_exchange(),
    {
        match self {
            ExecutionRequest::OpenOrder(r) => r.exchange,
            ExecutionRequest::CancelOrder(r) => r.exchange,
        }
    }
}

#[verifier::external_type_specification]
#[verifier::external_body]
#[verifier::reject_recursive_types(T)]
pub struct ExTokioSender<T>(tokio::sync::mpsc::Sender<T>);

/// What one non-blocking send attempt did.
#[derive(Debug, Clone, Copy, PartialEq, Eq, Structural, Hash)]
pub enum SendOutcome {
    /// The request was queued.
    Sent,
    /// The channel is at capacity; transient failure.
    Full,
    /// The receiver is gone; the channel is dead.
    Closed,
}

/// Relies on tokio::sync::mpsc::Sender::try_send: it returns Ok when the
/// message was queued, TrySendError::Full when the channel is at capacity,
/// and TrySendError::Closed when the receiver was dropped or closed. Which
/// outcome occurs depends on the consumer, so nothing is promised of it.
#[verifier::external_body]
fn try_send_request(tx: &tokio::sync::mpsc::Sender<ExecutionRequest>, request: ExecutionRequest) -> (r:
    SendOutcome)
{
    match tx.try_send(request) {
        Ok(()) => SendOutcome::Sent,
        Err(tokio::sync::mpsc::error::TrySendError::Full(_)) => SendOutcome::Full,
        Err(tokio::sync::mpsc::error::TrySendError::Closed(_)) => SendOutcome::Closed,
    }
}

/// The outbound execution channels, one slot per venue of the universe; a
/// venue may have none.
pub struct ExecutionTxMap {
    pub txs: Vec<Option<tokio::sync::mpsc::Sender<ExecutionRequest>>>,
}

impl ExecutionTxMap {
    /// Whether a venue has an execution channel.
    pub open spec fn spec_has_channel(self, exchange: ExchangeIndex) -> bool {
        exchange.index < self.txs@.len() && self.txs@[exchange.index as int] is Some
    }

    /// A map with no channels for a universe of `num_exchanges` venues.
    pub fn new_disconnected(num_exchanges: usize) -> (r: Self)
        ensures
            r.txs@.len() == num_exchanges,
            forall|i: int| 0 <= i < num_exchanges ==> (#[trigger] r.txs@[i]) is None,
    {
        let mut txs: Vec<Option<tokio::sync::mpsc::Sender<ExecutionRequest>>> = Vec::new();
        let mut i: usize = 0;
        while i < num_exchanges
            invariant
                i <= num_exchanges,
                txs@.len() == i,
                forall|j: int| 0 <= j < i ==> txs@[j] is None,
            decreases num_exchanges - i,
        {
            txs.push(None);
            i = i + 1;
        }
        ExecutionTxMap { txs }
    }

    /// Install the execution channel of one venue.
    pub fn set_channel(&mut self, exchange: ExchangeIndex, tx: tokio::sync::mpsc::Sender<ExecutionRequest>)
        requires
            exchange.index < old(self).txs@.len(),
        ensures
            final(self).txs@.len() == old(self).txs@.len(),
            final(self).spec_has_channel(exchange),
            final(self).txs@[exchange.index as int] == Some(tx),
            forall|i: int|
                0 <= i < old(self).txs@.len() && i != exchange.index ==> final(self).txs@[i]
                    == old(self).txs@[i],
    {
        let slot = vstd::std_specs::vec::vec_index_mut(&mut self.txs, exchange.index);
        *slot = Some(tx);
    }

    /// Attempt a non-blocking send of one request on its venue's channel.
    /// The outcome reports a missing channel; what a present channel does
    /// depends on its consumer.
    pub fn try_send(&self, request: ExecutionRequest) -> (r: Option<SendOutcome>)
        ensures
            r is Some <==> self.spec_has_channel(request.spec_exchange()),
    {
        let ex = request.exchange();
        if ex.index >= self.txs.len() {
            return None;
        }
        match &self.txs[ex.index] {
            Some(tx) => Some(try_send_request(tx, request)),
            None => None,
        }
    }
}

} // verus!
