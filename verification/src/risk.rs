//! Risk checking: the capability contract a risk manager satisfies, the
//! wrappers for approved and refused requests, and a default manager that
//! approves everything.

use vstd::prelude::*;
use crate::events::AccountEvent;
use crate::market::MarketEvent;
use crate::order::{OrderRequestCancel, OrderRequestOpen};
use crate::state::EngineState;
use crate::types::{AMOUNT_ONE, Amount};

verus! {

/// An order request the risk manager let through.
#[derive(Debug, Clone, Copy, PartialEq, Eq, Structural, Hash)]
pub struct RiskApproved<T>(pub T);

/// An order request the risk manager refused, with a textual reason.
#[derive(Debug, Clone, PartialEq, Eq)]
pub struct RiskRefused<T> {
    pub item: T,
    pub reason: String,
}

/// Requests produced by strategies address instruments and venues of the
/// state's universe.
pub open spec fn spec_cancel_requests_wf(reqs: Seq<OrderRequestCancel>, state: EngineState) -> bool {
    forall|k: int|
        0 <= k < reqs.len() ==> {
            &&& (#[trigger] reqs[k]).instrument.index < state.instruments@.len()
            &&& reqs[k].exchange.index < state.connectivity@.len()
        }
}

/// Open requests are additionally well-formed in price and quantity.
pub open spec fn spec_open_requests_wf(reqs: Seq<OrderRequestOpen>, state: EngineState) -> bool {
    forall|k: int|
        0 <= k < reqs.len() ==> {
            &&& (#[trigger] reqs[k]).wf()
            &&& reqs[k].instrument.index < state.instruments@.len()
            &&& reqs[k].exchange.index < state.connectivity@.len()
        }
}

/// The capability contract of a risk manager: split proposed cancels and
/// opens into approved and refused, deterministically in the state and the
/// proposals, approving only proposed requests.
pub trait RiskManager: Sized {
    /// The cancels this manager approves.
    spec fn spec_approved_cancels(
        &self,
        state: EngineState,
        cancels: Seq<OrderRequestCancel>,
        opens: Seq<OrderRequestOpen>,
    ) -> Seq<OrderRequestCancel>;

    /// The opens this manager approves.
    spec fn spec_approved_opens(
        &self,
        state: EngineState,
        cancels: Seq<OrderRequestCancel>,
        opens: Seq<OrderRequestOpen>,
    ) -> Seq<OrderRequestOpen>;

    /// The cancels this manager refuses.
    spec fn spec_refused_cancels(
        &self,
        state: EngineState,
        cancels: Seq<OrderRequestCancel>,
        opens: Seq<OrderRequestOpen>,
    ) -> Seq<OrderRequestCancel>;

    /// The opens this manager refuses.
    spec fn spec_refused_opens(
        &self,
        state: EngineState,
        cancels: Seq<OrderRequestCancel>,
        opens: Seq<OrderRequestOpen>,
    ) -> Seq<OrderRequestOpen>;

    /// The textual reasons attached to the refused cancels, in order.
    spec fn spec_refused_cancel_reasons(
        &self,
        state: EngineState,
        cancels: Seq<OrderRequestCancel>,
        opens: Seq<OrderRequestOpen>,
    ) -> Seq<Seq<char>>;

    /// The textual reasons attached to the refused opens, in order.
    spec fn spec_refused_open_reasons(
        &self,
        state: EngineState,
        cancels: Seq<OrderRequestCancel>,
        opens: Seq<OrderRequestOpen>,
    ) -> Seq<Seq<char>>;

    /// Check the proposals: returns approved cancels, approved opens,
    /// refused cancels and refused opens, in that order.
    fn check(
        &self,
        state: &EngineState,
        cancels: Vec<OrderRequestCancel>,
        opens: Vec<OrderRequestOpen>,
    ) -> (r: (
        Vec<RiskApproved<OrderRequestCancel>>,
        Vec<RiskApproved<OrderRequestOpen>>,
        Vec<RiskRefused<OrderRequestCancel>>,
        Vec<RiskRefused<OrderRequestOpen>>,
    ))
        requires
            state.wf(),
            spec_cancel_requests_wf(cancels@, *state),
            spec_open_requests_wf(opens@, *state),
        ensures
            r.0@.map_values(|a: RiskApproved<OrderRequestCancel>| a.0)
                == self.spec_approved_cancels(*state, cancels@, opens@),
            r.1@.map_values(|a: RiskApproved<OrderRequestOpen>| a.0) == self.spec_approved_opens(
                *state,
                cancels@,
                opens@,
            ),
            r.2@.map_values(|a: RiskRefused<OrderRequestCancel>| a.item)
                == self.spec_refused_cancels(*state, cancels@, opens@),
            r.3@.map_values(|a: RiskRefused<OrderRequestOpen>| a.item) == self.spec_refused_opens(
                *state,
                cancels@,
                opens@,
            ),
            r.2@.map_values(|a: RiskRefused<OrderRequestCancel>| a.reason@)
                == self.spec_refused_cancel_reasons(*state, cancels@, opens@),
            r.3@.map_values(|a: RiskRefused<OrderRequestOpen>| a.reason@)
                == self.spec_refused_open_reasons(*state, cancels@, opens@),
            forall|k: int| 0 <= k < r.0@.len() ==> cancels@.contains((#[trigger] r.0@[k]).0),
            forall|k: int| 0 <= k < r.1@.len() ==> opens@.contains((#[trigger] r.1@[k]).0),
    ;
}

/// A risk manager that approves every request.
///
/// A placeholder for wiring and tests, not a guard for live trading.
#[derive(Debug, Clone, Copy, PartialEq, Eq, Structural, Hash)]
pub struct DefaultRiskManager;

impl RiskManager for DefaultRiskManager {
    open spec fn spec_approved_cancels(
        &self,
        state: EngineState,
        cancels: Seq<OrderRequestCancel>,
        opens: Seq<OrderRequestOpen>,
    ) -> Seq<OrderRequestCancel> {
        cancels
    }

    open spec fn spec_approved_opens(
        &self,
        state: EngineState,
        cancels: Seq<OrderRequestCancel>,
        opens: Seq<OrderRequestOpen>,
    ) -> Seq<OrderRequestOpen> {
        opens
    }

    open spec fn spec_refused_cancels(
        &self,
        state: EngineState,
        cancels: Seq<OrderRequestCancel>,
        opens: Seq<OrderRequestOpen>,
    ) -> Seq<OrderRequestCancel> {
        Seq::empty()
    }

    open spec fn spec_refused_opens(
        &self,
        state: EngineState,
        cancels: Seq<OrderRequestCancel>,
        opens: Seq<OrderRequestOpen>,
    ) -> Seq<OrderRequestOpen> {
        Seq::empty()
    }

    open spec fn spec_refused_cancel_reasons(
        &self,
        state: EngineState,
        cancels: Seq<OrderRequestCancel>,
        opens: Seq<OrderRequestOpen>,
    ) -> Seq<Seq<char>> {
        Seq::empty()
    }

    open spec fn spec_refused_open_reasons(
        &self,
        state: EngineState,
        cancels: Seq<OrderRequestCancel>,
        opens: Seq<OrderRequestOpen>,
    ) -> Seq<Seq<char>> {
        Seq::empty()
    }

    fn check(
        &self,
        state: &EngineState,
        cancels: Vec<OrderRequestCancel>,
        opens: Vec<OrderRequestOpen>,
    ) -> (r: (
        Vec<RiskApproved<OrderRequestCancel>>,
        Vec<RiskApproved<OrderRequestOpen>>,
        Vec<RiskRefused<OrderRequestCancel>>,
        Vec<RiskRefused<OrderRequestOpen>>,
    )) {
        let mut approved_cancels: Vec<RiskApproved<OrderRequestCancel>> = Vec::new();
        let nc = cancels.len();
        let mut i: usize = 0;
        while i < nc
            invariant
                i <= nc,
                nc == cancels@.len(),
                approved_cancels@.len() == i,
                forall|k: int|
                    0 <= k < i ==> (#[trigger] approved_cancels@[k]).0 == cancels@[k],
            decreases nc - i,
        {
            approved_cancels.push(RiskApproved(cancels[i]));
            i = i + 1;
        }
        let mut approved_opens: Vec<RiskApproved<OrderRequestOpen>> = Vec::new();
        let no = opens.len();
        let mut j: usize = 0;
        while j < no
            invariant
                j <= no,
                no == opens@.len(),
                approved_opens@.len() == j,
                forall|k: int| 0 <= k < j ==> (#[trigger] approved_opens@[k]).0 == opens@[k],
            decreases no - j,
        {
            approved_opens.push(RiskApproved(opens[j]));
            j = j + 1;
        }
        proof {
            assert(approved_cancels@.map_values(|a: RiskApproved<OrderRequestCancel>| a.0)
                =~= cancels@);
            assert(approved_opens@.map_values(|a: RiskApproved<OrderRequestOpen>| a.0) =~= opens@);
            assert(forall|k: int|
                0 <= k < approved_cancels@.len() ==> cancels@.contains(
                    (#[trigger] approved_cancels@[k]).0,
                ));
            assert(forall|k: int|
                0 <= k < approved_opens@.len() ==> opens@.contains(
                    (#[trigger] approved_opens@[k]).0,
                ));
            assert(Seq::<RiskRefused<OrderRequestCancel>>::empty().map_values(
                |a: RiskRefused<OrderRequestCancel>| a.item,
            ) =~= Seq::<OrderRequestCancel>::empty());
            assert(Seq::<RiskRefused<OrderRequestOpen>>::empty().map_values(
                |a: RiskRefused<OrderRequestOpen>| a.item,
            ) =~= Seq::<OrderRequestOpen>::empty());
            assert(Seq::<RiskRefused<OrderRequestCancel>>::empty().map_values(
                |a: RiskRefused<OrderRequestCancel>| a.reason@,
            ) =~= Seq::<Seq<char>>::empty());
            assert(Seq::<RiskRefused<OrderRequestOpen>>::empty().map_values(
                |a: RiskRefused<OrderRequestOpen>| a.reason@,
            ) =~= Seq::<Seq<char>>::empty());
        }
        (approved_cancels, approved_opens, Vec::new(), Vec::new())
    }
}

/// The notional value of an open request: price times quantity, scaled back
/// to fixed-point units.
pub open spec fn spec_notional(o: OrderRequestOpen) -> int {
    o.price * o.quantity / (AMOUNT_ONE as int)
}

/// The open requests whose notional is within the bound, in order.
pub open spec fn spec_opens_within(reqs: Seq<OrderRequestOpen>, max_notional: Amount) -> Seq<
    OrderRequestOpen,
>
    decreases reqs.len(),
{
    if reqs.len() == 0 {
        Seq::empty()
    } else {
        let rest = spec_opens_within(reqs.drop_last(), max_notional);
        if spec_notional(reqs.last()) <= max_notional {
            rest.push(reqs.last())
        } else {
            rest
        }
    }
}

/// The open requests whose notional exceeds the bound, in order.
pub open spec fn spec_opens_beyond(reqs: Seq<OrderRequestOpen>, max_notional: Amount) -> Seq<
    OrderRequestOpen,
>
    decreases reqs.len(),
{
    if reqs.len() == 0 {
        Seq::empty()
    } else {
        let rest = spec_opens_beyond(reqs.drop_last(), max_notional);
        if spec_notional(reqs.last()) <= max_notional {
            rest
        } else {
            rest.push(reqs.last())
        }
    }
}

/// A risk manager that approves every cancel, approves each open whose
/// notional (price times quantity) is within a bound, and refuses the rest
/// with the reason `exceeds_max_notional`.
#[derive(Debug, Clone, Copy, PartialEq, Eq, Structural, Hash)]
pub struct MaxNotionalRiskManager {
    pub max_notional: Amount,
}

impl RiskManager for MaxNotionalRiskManager {
    open spec fn spec_approved_cancels(
        &self,
        state: EngineState,
        cancels: Seq<OrderRequestCancel>,
        opens: Seq<OrderRequestOpen>,
    ) -> Seq<OrderRequestCancel> {
        cancels
    }

    open spec fn spec_approved_opens(
        &self,
        state: EngineState,
        cancels: Seq<OrderRequestCancel>,
        opens: Seq<OrderRequestOpen>,
    ) -> Seq<OrderRequestOpen> {
        spec_opens_within(opens, self.max_notional)
    }

    open spec fn spec_refused_cancels(
        &self,
        state: EngineState,
        cancels: Seq<OrderRequestCancel>,
        opens: Seq<OrderRequestOpen>,
    ) -> Seq<OrderRequestCancel> {
        Seq::empty()
    }

    open spec fn spec_refused_opens(
        &self,
        state: EngineState,
        cancels: Seq<OrderRequestCancel>,
        opens: Seq<OrderRequestOpen>,
    ) -> Seq<OrderRequestOpen> {
        spec_opens_beyond(opens, self.max_notional)
    }

    open spec fn spec_refused_cancel_reasons(
        &self,
        state: EngineState,
        cancels: Seq<OrderRequestCancel>,
        opens: Seq<OrderRequestOpen>,
    ) -> Seq<Seq<char>> {
        Seq::empty()
    }

    open spec fn spec_refused_open_reasons(
        &self,
        state: EngineState,
        cancels: Seq<OrderRequestCancel>,
        opens: Seq<OrderRequestOpen>,
    ) -> Seq<Seq<char>> {
        spec_opens_beyond(opens, self.max_notional).map_values(
            |o: OrderRequestOpen| "exceeds_max_notional"@,
        )
    }

    /// Every refused open carries the reason `exceeds_max_notional`.
    fn check(
        &self,
        state: &EngineState,
        cancels: Vec<OrderRequestCancel>,
        opens: Vec<OrderRequestOpen>,
    ) -> (r: (
        Vec<RiskApproved<OrderRequestCancel>>,
        Vec<RiskApproved<OrderRequestOpen>>,
        Vec<RiskRefused<OrderRequestCancel>>,
        Vec<RiskRefused<OrderRequestOpen>>,
    ))
        ensures
            forall|k: int|
                0 <= k < r.3@.len() ==> (#[trigger] r.3@[k]).reason@ == "exceeds_max_notional"@,
    {
        let mut approved_cancels: Vec<RiskApproved<OrderRequestCancel>> = Vec::new();
        let nc = cancels.len();
        let mut i: usize = 0;
        while i < nc
            invariant
                i <= nc,
                nc == cancels@.len(),
                approved_cancels@.len() == i,
                forall|k: int|
                    0 <= k < i ==> (#[trigger] approved_cancels@[k]).0 == cancels@[k],
            decreases nc - i,
        {
            approved_cancels.push(RiskApproved(cancels[i]));
            i = i + 1;
        }
        let mut approved_opens: Vec<RiskApproved<OrderRequestOpen>> = Vec::new();
        let mut refused_opens: Vec<RiskRefused<OrderRequestOpen>> = Vec::new();
        let no = opens.len();
        let mut j: usize = 0;
        while j < no
            invariant
                j <= no,
                no == opens@.len(),
                spec_open_requests_wf(opens@, *state),
                approved_opens@.map_values(|a: RiskApproved<OrderRequestOpen>| a.0)
                    == spec_opens_within(opens@.take(j as int), self.max_notional),
                refused_opens@.map_values(|a: RiskRefused<OrderRequestOpen>| a.item)
                    == spec_opens_beyond(opens@.take(j as int), self.max_notional),
                forall|k: int|
                    0 <= k < approved_opens@.len() ==> opens@.contains(
                        (#[trigger] approved_opens@[k]).0,
                    ),
                forall|k: int|
                    0 <= k < refused_opens@.len() ==> (#[trigger] refused_opens@[k]).reason@
                        == "exceeds_max_notional"@,
            decreases no - j,
        {
            let o = opens[j];
            let ghost approved0 = approved_opens@;
            let ghost refused0 = refused_opens@;
            proof {
                assert(opens@.take(j + 1int).drop_last() =~= opens@.take(j as int));
                assert(opens@.take(j + 1int).last() == opens@[j as int]);
                assert(opens@[j as int].wf());
                assert(0 <= o.price * o.quantity <= crate::types::AMOUNT_MAX
                    * crate::types::AMOUNT_MAX) by (nonlinear_arith)
                    requires
                        0 <= o.price <= crate::types::AMOUNT_MAX,
                        0 < o.quantity <= crate::types::AMOUNT_MAX,
                ;
            }
            let notional = o.price * o.quantity / AMOUNT_ONE;
            if notional <= self.max_notional {
                approved_opens.push(RiskApproved(o));
                proof {
                    assert(approved_opens@.map_values(|a: RiskApproved<OrderRequestOpen>| a.0)
                        =~= approved0.map_values(|a: RiskApproved<OrderRequestOpen>| a.0).push(o));
                    assert(opens@.contains(opens@[j as int]));
                }
            } else {
                refused_opens.push(
                    RiskRefused { item: o, reason: String::from_str("exceeds_max_notional") },
                );
                proof {
                    assert(refused_opens@.map_values(|a: RiskRefused<OrderRequestOpen>| a.item)
                        =~= refused0.map_values(|a: RiskRefused<OrderRequestOpen>| a.item).push(o));
                }
            }
            j = j + 1;
        }
        proof {
            assert(opens@.take(no as int) =~= opens@);
            assert(refused_opens@.map_values(|a: RiskRefused<OrderRequestOpen>| a.reason@)
                =~= spec_opens_beyond(opens@, self.max_notional).map_values(
                |o: OrderRequestOpen| "exceeds_max_notional"@,
            ));
            assert(Seq::<RiskRefused<OrderRequestCancel>>::empty().map_values(
                |a: RiskRefused<OrderRequestCancel>| a.item,
            ) =~= Seq::<OrderRequestCancel>::empty());
            assert(Seq::<RiskRefused<OrderRequestCancel>>::empty().map_values(
                |a: RiskRefused<OrderRequestCancel>| a.reason@,
            ) =~= Seq::<Seq<char>>::empty());
            assert(approved_cancels@.map_values(|a: RiskApproved<OrderRequestCancel>| a.0)
                =~= cancels@);
            assert(forall|k: int|
                0 <= k < approved_cancels@.len() ==> cancels@.contains(
                    (#[trigger] approved_cancels@[k]).0,
                ));
        }
        (approved_cancels, approved_opens, Vec::new(), refused_opens)
    }
}

/// Risk substate kept inside the engine state. The default risk manager
/// needs none, so this only counts the events forwarded to it.
#[derive(Debug, Clone, Copy, PartialEq, Eq, Structural, Hash)]
pub struct DefaultRiskManagerState {
    pub events_processed: u64,
}

impl DefaultRiskManagerState {
    pub fn new() -> (r: Self)
        ensures
            r.events_processed == 0,
    {
        DefaultRiskManagerState { events_processed: 0 }
    }

    /// The state after one forwarded event: the counter advances, saturating.
    pub open spec fn spec_bump(self) -> DefaultRiskManagerState {
        if self.events_processed < u64::MAX {
            DefaultRiskManagerState { events_processed: (self.events_processed + 1) as u64 }
        } else {
            self
        }
    }

    /// Observe one account event.
    pub fn process_account(&mut self, event: &AccountEvent)
        ensures
            *final(self) == old(self).spec_bump(),
    {
        if self.events_processed < u64::MAX {
            self.events_processed = self.events_processed + 1;
        }
    }

    /// Observe one market event.
    pub fn process_market(&mut self, event: &MarketEvent)
        ensures
            *final(self) == old(self).spec_bump(),
    {
        if self.events_processed < u64::MAX {
            self.events_processed = self.events_processed + 1;
        }
    }
}

} // verus!
