//! Per-asset balance tracking. Balance snapshots arrive from the venue with a
//! sequence number; only strictly newer snapshots are applied, so replaying a
//! snapshot is a no-op.

use vstd::prelude::*;
use crate::types::AssetIndex;
use crate::types::Amount;
use crate::types::amount_in_bounds;

verus! {

/// A venue-reported balance of one asset: the total held and the part of it
/// not locked by open orders.
#[derive(Debug, Clone, Copy, PartialEq, Eq, Structural, Hash)]
pub struct Balance {
    pub total: Amount,
    pub free: Amount,
}

impl Balance {
    pub open spec fn wf(self) -> bool {
        amount_in_bounds(self.total) && amount_in_bounds(self.free)
    }
}

/// A balance snapshot as carried by an account event: which asset, the new
/// balance, and the venue's sequence number for ordering snapshots.
#[derive(Debug, Clone, Copy, PartialEq, Eq, Structural, Hash)]
pub struct AssetBalance {
    pub asset: AssetIndex,
    pub balance: Balance,
    pub sequence: u64,
}

impl AssetBalance {
    pub open spec fn wf(self) -> bool {
        self.balance.wf()
    }
}

/// The engine's view of one asset: the last applied balance snapshot and its
/// sequence number, or no snapshot yet.
#[derive(Debug, Clone, Copy, PartialEq, Eq, Structural, Hash)]
pub struct AssetState {
    pub balance: Balance,
    /// Sequence number of the applied snapshot; `None` until the first one.
    pub sequence: Option<u64>,
}

impl AssetState {
    pub open spec fn wf(self) -> bool {
        self.balance.wf()
    }

    /// The state before any snapshot: a zero balance.
    pub fn new_empty() -> (r: Self)
        ensures
            r == (AssetState { balance: Balance { total: 0, free: 0 }, sequence: None::<u64> }),
    {
        AssetState { balance: Balance { total: 0, free: 0 }, sequence: None }
    }

    /// Whether a snapshot with the given sequence number supersedes this state:
    /// it does iff no snapshot was applied yet or its sequence is strictly
    /// greater than the applied one.
    pub open spec fn spec_accepts(self, sequence: u64) -> bool {
        match self.sequence {
            None => true,
            Some(applied) => sequence > applied,
        }
    }

    /// The state after a snapshot is offered: replaced wholesale if the
    /// snapshot supersedes the current state, unchanged otherwise.
    pub open spec fn spec_update_from_balance(self, snapshot: AssetBalance) -> AssetState {
        if self.spec_accepts(snapshot.sequence) {
            AssetState { balance: snapshot.balance, sequence: Some(snapshot.sequence) }
        } else {
            self
        }
    }

    /// Apply a balance snapshot: strictly newer snapshots replace the balance,
    /// older or repeated ones are discarded.
    pub fn update_from_balance(&mut self, snapshot: &AssetBalance)
        ensures
            *final(self) == old(self).spec_update_from_balance(*snapshot),
    {
        let apply = match self.sequence {
            None => true,
            Some(applied) => snapshot.sequence > applied,
        };
        if apply {
            self.balance = snapshot.balance;
            self.sequence = Some(snapshot.sequence);
        }
    }
}

/// Replaying a snapshot sequence number is a no-op: once a snapshot with some
/// sequence number has been applied, offering any snapshot with the same (or
/// an older) sequence number leaves the asset state unchanged.
pub proof fn lemma_balance_replay_noop(state: AssetState, first: AssetBalance, second: AssetBalance)
    requires
        second.sequence <= first.sequence,
    ensures
        state.spec_update_from_balance(first).spec_update_from_balance(second)
            == state.spec_update_from_balance(first),
{
}

} // verus!
