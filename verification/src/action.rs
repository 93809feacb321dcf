//! Outputs of the engine's actions: what was dispatched, what failed, and
//! what the risk manager refused.

use vstd::prelude::*;
use crate::error::UnrecoverableEngineError;
use crate::order::{OrderRequestCancel, OrderRequestOpen};
use crate::risk::RiskRefused;
use crate::send_requests::{spec_unrecoverable_of, SendRequestsOutput};

verus! {

/// Marker audit of recording an action's sent requests as in flight.
#[derive(Debug, Clone, Copy, PartialEq, Eq, Structural, Hash)]
pub struct AuditRecordOrdersInFlight;

/// Output of one algo pass: dispatched cancels and opens with their
/// failures, and the requests the risk manager refused.
#[derive(Debug, Clone, PartialEq)]
pub struct GenerateAlgoOrdersOutput {
    pub cancels: SendRequestsOutput<OrderRequestCancel>,
    pub cancels_refused: Vec<RiskRefused<OrderRequestCancel>>,
    pub opens: SendRequestsOutput<OrderRequestOpen>,
    pub opens_refused: Vec<RiskRefused<OrderRequestOpen>>,
}

impl GenerateAlgoOrdersOutput {
    pub open spec fn spec_is_unrecoverable(self) -> bool {
        self.cancels.spec_is_unrecoverable() || self.opens.spec_is_unrecoverable()
    }

    /// The unrecoverable errors this output carries: the cancels' in error
    /// order, then the opens'.
    pub open spec fn spec_unrecoverable_reasons(self) -> Seq<UnrecoverableEngineError> {
        spec_unrecoverable_of(self.cancels.errors@) + spec_unrecoverable_of(self.opens.errors@)
    }

    /// The unrecoverable errors of the pass, cancels first; empty iff the
    /// engine may continue.
    pub fn unrecoverable_errors(&self) -> (r: Vec<UnrecoverableEngineError>)
        ensures
            r@ == self.spec_unrecoverable_reasons(),
            r@.len() == 0 <==> !self.spec_is_unrecoverable(),
    {
        let mut r = self.cancels.unrecoverable_errors();
        let mut from_opens = self.opens.unrecoverable_errors();
        r.append(&mut from_opens);
        r
    }
}

/// Output of a close-positions action or a disconnect hook: dispatched
/// cancels and opens with their failures.
#[derive(Debug, Clone, PartialEq)]
pub struct ClosePositionsOutput {
    pub cancels: SendRequestsOutput<OrderRequestCancel>,
    pub opens: SendRequestsOutput<OrderRequestOpen>,
}

impl ClosePositionsOutput {
    pub open spec fn spec_is_unrecoverable(self) -> bool {
        self.cancels.spec_is_unrecoverable() || self.opens.spec_is_unrecoverable()
    }

    /// The unrecoverable errors this output carries: the cancels' in error
    /// order, then the opens'.
    pub open spec fn spec_unrecoverable_reasons(self) -> Seq<UnrecoverableEngineError> {
        spec_unrecoverable_of(self.cancels.errors@) + spec_unrecoverable_of(self.opens.errors@)
    }

    /// The unrecoverable errors, cancels first; empty iff the engine may
    /// continue.
    pub fn unrecoverable_errors(&self) -> (r: Vec<UnrecoverableEngineError>)
        ensures
            r@ == self.spec_unrecoverable_reasons(),
            r@.len() == 0 <==> !self.spec_is_unrecoverable(),
    {
        let mut r = self.cancels.unrecoverable_errors();
        let mut from_opens = self.opens.unrecoverable_errors();
        r.append(&mut from_opens);
        r
    }
}

/// What an engine action produced.
#[derive(Debug, Clone, PartialEq)]
pub enum ActionOutput {
    GenerateAlgoOrders(GenerateAlgoOrdersOutput),
    CancelOrders(SendRequestsOutput<OrderRequestCancel>),
    OpenOrders(SendRequestsOutput<OrderRequestOpen>),
    ClosePositions(ClosePositionsOutput),
    /// Orders issued by the strategy's disconnect hook.
    OnDisconnect(ClosePositionsOutput),
}

impl ActionOutput {
    pub open spec fn spec_is_unrecoverable(self) -> bool {
        match self {
            ActionOutput::GenerateAlgoOrders(o) => o.spec_is_unrecoverable(),
            ActionOutput::CancelOrders(o) => o.spec_is_unrecoverable(),
            ActionOutput::OpenOrders(o) => o.spec_is_unrecoverable(),
            ActionOutput::ClosePositions(o) => o.spec_is_unrecoverable(),
            ActionOutput::OnDisconnect(o) => o.spec_is_unrecoverable(),
        }
    }

    /// The unrecoverable errors this output carries.
    pub open spec fn spec_unrecoverable_reasons(self) -> Seq<UnrecoverableEngineError> {
        match self {
            ActionOutput::GenerateAlgoOrders(o) => o.spec_unrecoverable_reasons(),
            ActionOutput::CancelOrders(o) => o.spec_unrecoverable_reasons(),
            ActionOutput::OpenOrders(o) => o.spec_unrecoverable_reasons(),
            ActionOutput::ClosePositions(o) => o.spec_unrecoverable_reasons(),
            ActionOutput::OnDisconnect(o) => o.spec_unrecoverable_reasons(),
        }
    }

    /// The unrecoverable errors of the action; empty iff the engine may
    /// continue.
    pub fn unrecoverable_errors(&self) -> (r: Vec<UnrecoverableEngineError>)
        ensures
            r@ == self.spec_unrecoverable_reasons(),
            r@.len() == 0 <==> !self.spec_is_unrecoverable(),
    {
        match self {
            ActionOutput::GenerateAlgoOrders(o) => o.unrecoverable_errors(),
            ActionOutput::CancelOrders(o) => o.unrecoverable_errors(),
            ActionOutput::OpenOrders(o) => o.unrecoverable_errors(),
            ActionOutput::ClosePositions(o) => o.unrecoverable_errors(),
            ActionOutput::OnDisconnect(o) => o.unrecoverable_errors(),
        }
    }
}

} // verus!
