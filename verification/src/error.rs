//! Engine error taxonomy: errors are values, split by whether the engine can
//! keep running after one.

use vstd::prelude::*;
use crate::types::ExchangeIndex;

verus! {

/// The engine continues after these.
#[derive(Debug, Clone, Copy, PartialEq, Eq, Structural, Hash)]
pub enum RecoverableEngineError {
    /// A send on the venue's execution channel failed transiently
    /// (backpressure); the request is reported as failed.
    ExecutionChannelUnhealthy { exchange: ExchangeIndex },
}

/// The engine shuts down after these.
#[derive(Debug, Clone, Copy, PartialEq, Eq, Structural, Hash)]
pub enum UnrecoverableEngineError {
    /// The venue's execution channel is closed; the engine can no longer
    /// instruct that venue.
    ExecutionChannelTerminated { exchange: ExchangeIndex },
    /// A request named a venue with no execution channel.
    MissingExecutionChannel { exchange: ExchangeIndex },
    /// A reconciliation found an impossible local state.
    StateInvariantViolated,
}

/// Any engine error.
#[derive(Debug, Clone, Copy, PartialEq, Eq, Structural, Hash)]
pub enum EngineError {
    Recoverable(RecoverableEngineError),
    Unrecoverable(UnrecoverableEngineError),
}

impl EngineError {
    /// Whether the engine must shut down on this error.
    pub fn is_unrecoverable(&self) -> (r: bool)
        ensures
            r == (self is Unrecoverable),
    {
        match self {
            EngineError::Recoverable(_) => false,
            EngineError::Unrecoverable(_) => true,
        }
    }
}

} // verus!
