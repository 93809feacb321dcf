//! The named keying regime: human-readable identifiers, interned as plain
//! numeric names, resolved to the indexed keys the engine uses for its
//! array-backed lookups. Configuration and test fixtures address venues,
//! assets and instruments by name; the reducer itself only ever sees
//! indexes.

use vstd::prelude::*;
use crate::types::{AssetIndex, ExchangeIndex, InstrumentIndex};

verus! {

/// One keying table: interned names in slot order, so that the name in slot
/// `i` denotes index `i` of the indexed regime.
#[derive(Debug, Clone, PartialEq, Eq)]
pub struct KeyTable {
    pub names: Vec<u64>,
}

impl KeyTable {
    /// Names are pairwise distinct.
    pub open spec fn wf(self) -> bool {
        forall|i: int, j: int| 0 <= i < j < self.names@.len() ==> self.names@[i] != self.names@[j]
    }

    /// The slot a name denotes, if it is known.
    pub open spec fn spec_index_of(self, name: u64) -> Option<usize> {
        if exists|i: int| 0 <= i < self.names@.len() && self.names@[i] == name {
            Some((choose|i: int| 0 <= i < self.names@.len() && self.names@[i] == name) as usize)
        } else {
            None
        }
    }

    /// An empty table.
    pub fn new() -> (r: Self)
        ensures
            r.wf(),
            r.names@.len() == 0,
    {
        KeyTable { names: Vec::new() }
    }

    /// Intern a name: a fresh name takes the next slot, a known name keeps
    /// its slot; either way the returned slot resolves back to the name.
    pub fn intern(&mut self, name: u64) -> (slot: usize)
        requires
            old(self).wf(),
            old(self).names@.len() < usize::MAX,
        ensures
            final(self).wf(),
            slot < final(self).names@.len(),
            final(self).names@[slot as int] == name,
            old(self).spec_index_of(name) matches Some(existing) ==> {
                &&& slot == existing
                &&& final(self).names@ == old(self).names@
            },
            old(self).spec_index_of(name) is None ==> {
                &&& slot == old(self).names@.len()
                &&& final(self).names@ == old(self).names@.push(name)
            },
    {
        match self.lookup(name) {
            Some(slot) => slot,
            None => {
                let slot = self.names.len();
                self.names.push(name);
                slot
            },
        }
    }

    /// Resolve a name to its slot.
    pub fn lookup(&self, name: u64) -> (r: Option<usize>)
        requires
            self.wf(),
        ensures
            r == self.spec_index_of(name),
    {
        let n = self.names.len();
        let mut i: usize = 0;
        while i < n
            invariant
                i <= n,
                n == self.names@.len(),
                self.wf(),
                forall|j: int| 0 <= j < i ==> self.names@[j] != name,
            decreases n - i,
        {
            if self.names[i] == name {
                proof {
                    let w = choose|k: int| 0 <= k < self.names@.len() && self.names@[k] == name;
                    assert(w == i);
                }
                return Some(i);
            }
            i = i + 1;
        }
        None
    }
}

/// The named regime over a whole universe: one table per key kind. The
/// tables are built once, at configuration time; the engine state built
/// from them uses the indexed regime with the same meaning.
#[derive(Debug, Clone, PartialEq, Eq)]
pub struct KeyUniverse {
    pub exchanges: KeyTable,
    pub assets: KeyTable,
    pub instruments: KeyTable,
}

impl KeyUniverse {
    pub open spec fn wf(self) -> bool {
        &&& self.exchanges.wf()
        &&& self.assets.wf()
        &&& self.instruments.wf()
    }

    /// An empty universe.
    pub fn new() -> (r: Self)
        ensures
            r.wf(),
            r.exchanges.names@.len() == 0,
            r.assets.names@.len() == 0,
            r.instruments.names@.len() == 0,
    {
        KeyUniverse { exchanges: KeyTable::new(), assets: KeyTable::new(), instruments: KeyTable::new() }
    }

    /// Resolve a venue name to its indexed key.
    pub fn exchange(&self, name: u64) -> (r: Option<ExchangeIndex>)
        requires
            self.wf(),
        ensures
            r == (match self.exchanges.spec_index_of(name) {
                Some(i) => Some(ExchangeIndex { index: i }),
                None => None::<ExchangeIndex>,
            }),
    {
        match self.exchanges.lookup(name) {
            Some(i) => Some(ExchangeIndex { index: i }),
            None => None,
        }
    }

    /// Resolve an asset name to its indexed key.
    pub fn asset(&self, name: u64) -> (r: Option<AssetIndex>)
        requires
            self.wf(),
        ensures
            r == (match self.assets.spec_index_of(name) {
                Some(i) => Some(AssetIndex { index: i }),
                None => None::<AssetIndex>,
            }),
    {
        match self.assets.lookup(name) {
            Some(i) => Some(AssetIndex { index: i }),
            None => None,
        }
    }

    /// Resolve an instrument name to its indexed key.
    pub fn instrument(&self, name: u64) -> (r: Option<InstrumentIndex>)
        requires
            self.wf(),
        ensures
            r == (match self.instruments.spec_index_of(name) {
                Some(i) => Some(InstrumentIndex { index: i }),
                None => None::<InstrumentIndex>,
            }),
    {
        match self.instruments.lookup(name) {
            Some(i) => Some(InstrumentIndex { index: i }),
            None => None,
        }
    }
}

} // verus!
