//! The audit trail: every reducer step yields one tagged audit record with a
//! monotonically increasing sequence id and a non-decreasing timestamp. The
//! trail is observability, never correctness: it is emitted on a
//! drop-tolerant channel.

use vstd::prelude::*;
use crate::action::ActionOutput;
use crate::error::UnrecoverableEngineError;
use crate::events::EngineEvent;
use crate::state::EngineState;
use crate::types::TimeMillis;

verus! {

/// Why the engine stopped.
#[derive(Debug, Clone, PartialEq)]
pub enum ShutdownAudit {
    /// The input feed ended.
    FeedEnded,
    /// An action returned unrecoverable errors while processing this event.
    Error(EngineEvent, Vec<UnrecoverableEngineError>),
    /// A shutdown event commanded the stop.
    Commanded(EngineEvent),
}

/// What one reducer step did.
#[derive(Debug, Clone, PartialEq)]
pub enum Audit {
    /// Full state snapshot; the first audit of every run.
    Snapshot(EngineState),
    /// The event was processed without producing an action output.
    Process(EngineEvent),
    /// The event was processed and produced this output.
    ProcessWithOutput(EngineEvent, ActionOutput),
    /// The engine stops; the last audit of every run.
    Shutdown(ShutdownAudit),
    /// The engine stops because this output held unrecoverable errors.
    ShutdownWithOutput(ShutdownAudit, ActionOutput),
}

impl ShutdownAudit {
    /// The event this shutdown reports on, if any.
    pub open spec fn spec_event(self) -> Option<EngineEvent> {
        match self {
            ShutdownAudit::FeedEnded => None,
            ShutdownAudit::Error(e, _) => Some(e),
            ShutdownAudit::Commanded(e) => Some(e),
        }
    }
}

impl Audit {
    /// Whether this audit ends the run.
    pub open spec fn spec_is_terminal(self) -> bool {
        self is Shutdown || self is ShutdownWithOutput
    }

    /// The event this audit reports on, if any: a snapshot and a feed-ended
    /// shutdown report none, every other audit carries its event.
    pub open spec fn spec_event(self) -> Option<EngineEvent> {
        match self {
            Audit::Snapshot(_) => None,
            Audit::Process(e) => Some(e),
            Audit::ProcessWithOutput(e, _) => Some(e),
            Audit::Shutdown(sa) => sa.spec_event(),
            Audit::ShutdownWithOutput(sa, _) => sa.spec_event(),
        }
    }

    /// Whether this audit ends the run.
    pub fn is_terminal(&self) -> (r: bool)
        ensures
            r == self.spec_is_terminal(),
    {
        match self {
            Audit::Shutdown(_) => true,
            Audit::ShutdownWithOutput(_, _) => true,
            _ => false,
        }
    }
}

/// One record of the audit trail.
#[derive(Debug, Clone, PartialEq)]
pub struct AuditEvent {
    pub id: u64,
    pub time_millis: TimeMillis,
    pub kind: Audit,
}

/// The engine's notion of time: a fixed instant, for tests and backtests,
/// or the system's wall clock.
#[derive(Debug, Clone, Copy, PartialEq, Eq, Structural, Hash)]
pub enum EngineClock {
    Fixed { time_millis: TimeMillis },
    System,
}

/// Relies on std::time::SystemTime::now and its distance from
/// std::time::UNIX_EPOCH, read as milliseconds since the epoch. The reading
/// is total: a host clock before the epoch yields the minimum stamp instead
/// of a panic. The wall clock can move arbitrarily, so nothing is promised
/// of the value.
#[verifier::external_body]
fn utc_now_millis() -> (r: i64) {
    match std::time::SystemTime::now().duration_since(std::time::UNIX_EPOCH) {
        Ok(since_epoch) => since_epoch.as_millis() as i64,
        Err(_) => i64::MIN,
    }
}

impl EngineClock {
    /// The current time of this clock. A fixed clock reads exactly its
    /// instant; the system clock promises nothing.
    pub fn now_millis(&self) -> (r: TimeMillis)
        ensures
            forall|t: TimeMillis| *self == (EngineClock::Fixed { time_millis: t }) ==> r == t,
    {
        match self {
            EngineClock::Fixed { time_millis } => *time_millis,
            EngineClock::System => utc_now_millis(),
        }
    }
}

#[verifier::external_type_specification]
#[verifier::external_body]
#[verifier::reject_recursive_types(T)]
pub struct ExUnboundedTx<T>(barter_integration::channel::UnboundedTx<T>);

#[verifier::external_type_specification]
#[verifier::external_body]
#[verifier::reject_recursive_types(ChannelTx)]
pub struct ExChannelTxDroppable<ChannelTx>(barter_integration::channel::ChannelTxDroppable<ChannelTx>);

/// Relies on barter_integration::channel::ChannelTxDroppable::send, which
/// forwards to a tokio unbounded send and, if the receiver is gone, drops
/// the item and disables itself. Audits are for observability, so a dropped
/// audit is fine and nothing is promised.
#[verifier::external_body]
pub fn send_audit(
    tx: &mut barter_integration::channel::ChannelTxDroppable<
        barter_integration::channel::UnboundedTx<AuditEvent>,
    >,
    audit: AuditEvent,
) {
    tx.send(audit);
}

} // verus!
