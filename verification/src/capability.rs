//! Capability contracts: one small trait per concern, as the engine's
//! public interface, each implemented by the concrete state or engine.

use vstd::prelude::*;
use crate::action::GenerateAlgoOrdersOutput;
use crate::action::ClosePositionsOutput;
use crate::audit::{Audit, AuditEvent};
use crate::balance::AssetState;
use crate::connectivity::ConnectivityState;
use crate::engine::{spec_action_frame, spec_books_recorded, Engine};
use crate::events::TradingState;
use crate::order::{OrderRequestCancel, OrderRequestOpen};
use crate::risk::{spec_cancel_requests_wf, spec_open_requests_wf, RiskManager};
use crate::send_requests::{spec_partitions, SendRequestsOutput};
use crate::state::{
    EngineState, OrdersInFlightRecorderAudit, ProcessTradingStateAudit,
};
use crate::strategy::{AlgoStrategy, ClosePositionsStrategy, OnDisconnectStrategy};
use crate::types::{AssetIndex, ExchangeIndex, InstrumentIndex};

verus! {

/// A state that reduces events of some kind into itself, yielding an audit.
pub trait Processor<Event>: Sized {
    type Audit;

    fn process(&mut self, event: Event) -> Self::Audit;
}

impl Processor<TradingState> for EngineState {
    type Audit = ProcessTradingStateAudit;

    /// The toggle simply follows the incoming value, and the audit records
    /// both sides of the transition. Applying the value already in force
    /// leaves the whole state unchanged.
    fn process(&mut self, event: TradingState) -> (audit: ProcessTradingStateAudit)
        ensures
            *final(self) == (EngineState { trading: event, ..*old(self) }),
            audit == (ProcessTradingStateAudit { prev: old(self).trading, current: event }),
            old(self).trading == event ==> *final(self) == *old(self),
    {
        let prev = self.trading;
        self.trading = event;
        ProcessTradingStateAudit { prev, current: event }
    }
}

/// Read access to the trading toggle.
pub trait TradingStateManager: Sized {
    fn trading_state(&self) -> TradingState;
}

impl TradingStateManager for EngineState {
    fn trading_state(&self) -> (r: TradingState)
        ensures
            r == self.trading,
    {
        self.trading
    }
}

/// Audit of one trading-state update: both sides of the transition,
/// reported on every update, also when the toggle was already in force.
#[derive(Debug, Clone, Copy, PartialEq, Eq, Structural, Hash)]
pub struct TradingStateUpdaterAudit {
    pub prev: TradingState,
    pub current: TradingState,
}

/// Applying trading-state updates.
pub trait TradingStateUpdater: Sized {
    type Audit;

    fn update_from_trading_state_update(&mut self, event: TradingState) -> Self::Audit;
}

impl TradingStateUpdater for EngineState {
    type Audit = TradingStateUpdaterAudit;

    /// The toggle follows the incoming value and every update is audited,
    /// including a value already in force (which leaves the state equal).
    fn update_from_trading_state_update(&mut self, event: TradingState) -> (audit:
        TradingStateUpdaterAudit)
        ensures
            *final(self) == (EngineState { trading: event, ..*old(self) }),
            audit == (TradingStateUpdaterAudit { prev: old(self).trading, current: event }),
            old(self).trading == event ==> *final(self) == *old(self),
    {
        let prev = self.trading;
        self.trading = event;
        TradingStateUpdaterAudit { prev, current: event }
    }
}

/// Applying account events.
pub trait AccountEventUpdater: Sized {
    type Audit;

    /// Whether this state can absorb the event.
    spec fn spec_accepts_account_event(&self, event: &crate::events::AccountEvent) -> bool;

    fn update_from_account_event(&mut self, event: &crate::events::AccountEvent) -> Self::Audit
        requires
            old(self).spec_accepts_account_event(event),
    ;
}

impl AccountEventUpdater for EngineState {
    type Audit = crate::state::ProcessAccountEventAudit;

    open spec fn spec_accepts_account_event(&self, event: &crate::events::AccountEvent) -> bool {
        self.wf() && self.spec_account_event_wf(*event)
    }

    fn update_from_account_event(&mut self, event: &crate::events::AccountEvent) -> (audit:
        crate::state::ProcessAccountEventAudit)
        ensures
            final(self).wf(),
            crate::state::spec_account_event_relation(*old(self), *final(self), *event),
    {
        self.process_account(event)
    }
}

/// Read and write access to per-venue connectivity.
pub trait ConnectivityManager: Sized {
    /// How many venues this state tracks.
    spec fn spec_num_exchanges(&self) -> nat;

    fn connectivity(&self, key: &ExchangeIndex) -> &ConnectivityState
        requires
            key.index < self.spec_num_exchanges(),
    ;

    fn connectivity_mut(&mut self, key: &ExchangeIndex) -> &mut ConnectivityState
        requires
            key.index < old(self).spec_num_exchanges(),
    ;
}

impl ConnectivityManager for EngineState {
    open spec fn spec_num_exchanges(&self) -> nat {
        self.connectivity@.len()
    }

    fn connectivity(&self, key: &ExchangeIndex) -> (r: &ConnectivityState)
        ensures
            *r == self.connectivity@[key.index as int],
    {
        &self.connectivity[key.index]
    }

    fn connectivity_mut(&mut self, key: &ExchangeIndex) -> (r: &mut ConnectivityState)
        ensures
            *r == old(self).connectivity@[key.index as int],
            final(self).connectivity@ == old(self).connectivity@.update(
                key.index as int,
                *final(r),
            ),
            final(self).trading == old(self).trading,
            final(self).assets == old(self).assets,
            final(self).instruments == old(self).instruments,
            final(self).strategy == old(self).strategy,
            final(self).risk == old(self).risk,
    {
        vstd::std_specs::vec::vec_index_mut(&mut self.connectivity, key.index)
    }
}

/// Read and write access to per-asset balances.
pub trait AssetStateManager: Sized {
    /// How many assets this state tracks.
    spec fn spec_num_assets(&self) -> nat;

    fn asset(&self, key: &AssetIndex) -> &AssetState
        requires
            key.index < self.spec_num_assets(),
    ;

    fn asset_mut(&mut self, key: &AssetIndex) -> &mut AssetState
        requires
            key.index < old(self).spec_num_assets(),
    ;
}

impl AssetStateManager for EngineState {
    open spec fn spec_num_assets(&self) -> nat {
        self.assets@.len()
    }

    fn asset(&self, key: &AssetIndex) -> (r: &AssetState)
        ensures
            *r == self.assets@[key.index as int],
    {
        &self.assets[key.index]
    }

    fn asset_mut(&mut self, key: &AssetIndex) -> (r: &mut AssetState)
        ensures
            *r == old(self).assets@[key.index as int],
            final(self).assets@ == old(self).assets@.update(key.index as int, *final(r)),
            final(self).trading == old(self).trading,
            final(self).connectivity == old(self).connectivity,
            final(self).instruments == old(self).instruments,
            final(self).strategy == old(self).strategy,
            final(self).risk == old(self).risk,
    {
        vstd::std_specs::vec::vec_index_mut(&mut self.assets, key.index)
    }
}

/// Recording dispatched requests as in flight, cancels before opens.
pub trait OrdersInFlightRecorder: Sized {
    /// Whether this state can record these requests.
    spec fn spec_can_record(
        &self,
        cancels: Seq<OrderRequestCancel>,
        opens: Seq<OrderRequestOpen>,
    ) -> bool;

    fn record_orders_in_flight(
        &mut self,
        cancels: &Vec<OrderRequestCancel>,
        opens: &Vec<OrderRequestOpen>,
    ) -> OrdersInFlightRecorderAudit
        requires
            old(self).spec_can_record(cancels@, opens@),
    ;
}

impl OrdersInFlightRecorder for EngineState {
    open spec fn spec_can_record(
        &self,
        cancels: Seq<OrderRequestCancel>,
        opens: Seq<OrderRequestOpen>,
    ) -> bool {
        &&& self.wf()
        &&& spec_cancel_requests_wf(cancels, *self)
        &&& spec_open_requests_wf(opens, *self)
    }

    fn record_orders_in_flight(
        &mut self,
        cancels: &Vec<OrderRequestCancel>,
        opens: &Vec<OrderRequestOpen>,
    ) -> (audit: OrdersInFlightRecorderAudit)
        ensures
            final(self).wf(),
            crate::engine::spec_books_recorded(*old(self), *final(self), cancels@, opens@),
    {
        self.record_in_flight(cancels, opens)
    }
}

/// Recording a batch of in-flight requests at engine level.
pub trait RecordOrdersInFlight: Sized {
    /// Whether this engine can record these requests.
    spec fn spec_can_record_requests(
        &self,
        cancels: Seq<OrderRequestCancel>,
        opens: Seq<OrderRequestOpen>,
    ) -> bool;

    fn record_requests_in_flight(
        &mut self,
        cancels: &Vec<OrderRequestCancel>,
        opens: &Vec<OrderRequestOpen>,
    ) -> crate::action::AuditRecordOrdersInFlight
        requires
            old(self).spec_can_record_requests(cancels@, opens@),
    ;
}

impl<Strategy, Risk> RecordOrdersInFlight for Engine<Strategy, Risk> {
    open spec fn spec_can_record_requests(
        &self,
        cancels: Seq<OrderRequestCancel>,
        opens: Seq<OrderRequestOpen>,
    ) -> bool {
        &&& self.state.wf()
        &&& spec_cancel_requests_wf(cancels, self.state)
        &&& spec_open_requests_wf(opens, self.state)
    }

    fn record_requests_in_flight(
        &mut self,
        cancels: &Vec<OrderRequestCancel>,
        opens: &Vec<OrderRequestOpen>,
    ) -> (audit: crate::action::AuditRecordOrdersInFlight)
        ensures
            final(self).state.wf(),
            spec_books_recorded(old(self).state, final(self).state, cancels@, opens@),
    {
        let _ = self.state.record_in_flight(cancels, opens);
        crate::action::AuditRecordOrdersInFlight
    }
}

/// Issuing audit records with monotonic ids and timestamps.
pub trait Auditor: Sized {
    type Snapshot;

    /// Whether another audit id is available.
    spec fn spec_can_audit(&self) -> bool;

    fn snapshot(&self) -> Self::Snapshot;

    fn build_audit(&mut self, kind: Audit) -> AuditEvent
        requires
            old(self).spec_can_audit(),
    ;
}

impl<Strategy, Risk> Auditor for Engine<Strategy, Risk> {
    type Snapshot = EngineState;

    open spec fn spec_can_audit(&self) -> bool {
        self.sequence < u64::MAX
    }

    /// A value-for-value copy of the engine's state.
    fn snapshot(&self) -> (r: EngineState)
        ensures
            crate::state::spec_state_like(r, self.state),
            self.state.wf() ==> r.wf(),
    {
        self.state.deep_clone()
    }

    /// Wrap an audit kind into the next audit record: the next sequence id,
    /// and a timestamp that is the clock's reading clamped to never precede
    /// the previous audit.
    fn build_audit(&mut self, kind: Audit) -> (r: AuditEvent)
        ensures
            r.id == old(self).sequence,
            final(self).sequence == old(self).sequence + 1,
            r.time_millis >= old(self).time_last_audit,
            final(self).time_last_audit == r.time_millis,
            r.kind == kind,
            forall|t: crate::types::TimeMillis|
                old(self).clock == (crate::audit::EngineClock::Fixed { time_millis: t }) ==> r.time_millis
                    == (if t >= old(self).time_last_audit {
                    t
                } else {
                    old(self).time_last_audit
                }),
            final(self).clock == old(self).clock,
            final(self).state == old(self).state,
            final(self).execution_txs == old(self).execution_txs,
            final(self).strategy == old(self).strategy,
            final(self).risk == old(self).risk,
    {
        let id = self.sequence_fetch_add();
        let now = self.clock.now_millis();
        let time_millis = if now >= self.time_last_audit {
            now
        } else {
            self.time_last_audit
        };
        self.time_last_audit = time_millis;
        AuditEvent { id, time_millis, kind }
    }
}

/// One algo pass: strategy, risk check, dispatch, record.
pub trait AlgoTrade: Sized {
    type Output;

    /// Whether this engine is ready to trade.
    spec fn spec_ready(&self) -> bool;

    fn trade(&mut self) -> Self::Output
        requires
            old(self).spec_ready(),
    ;
}

impl<Strategy, Risk> AlgoTrade for Engine<Strategy, Risk> where
    Strategy: AlgoStrategy + ClosePositionsStrategy + OnDisconnectStrategy,
    Risk: RiskManager,
 {
    type Output = GenerateAlgoOrdersOutput;

    open spec fn spec_ready(&self) -> bool {
        self.state.wf()
    }

    /// One algo pass, under the name the trading loop uses: the dispatched
    /// batches partition the risk-approved pools, the refusals are exactly
    /// the risk manager's, and the books fold in the sent requests.
    fn trade(&mut self) -> (r: GenerateAlgoOrdersOutput)
        ensures
            final(self).state.wf(),
            spec_action_frame(*old(self), *final(self)),
            crate::engine::spec_algo_output_relation(
                old(self).state,
                old(self).strategy,
                old(self).risk,
                r,
            ),
            spec_books_recorded(old(self).state, final(self).state, r.cancels.sent@, r.opens.sent@),
    {
        self.generate_algo_orders()
    }
}

/// Dispatching one open order.
pub trait OpenOrder: Sized {
    type Output;

    /// Whether this engine accepts the request.
    spec fn spec_accepts_open(&self, request: OrderRequestOpen) -> bool;

    fn open_order(&mut self, request: OrderRequestOpen) -> Self::Output
        requires
            old(self).spec_accepts_open(request),
    ;
}

impl<Strategy, Risk> OpenOrder for Engine<Strategy, Risk> where
    Strategy: AlgoStrategy + ClosePositionsStrategy + OnDisconnectStrategy,
    Risk: RiskManager,
 {
    type Output = SendRequestsOutput<OrderRequestOpen>;

    open spec fn spec_accepts_open(&self, request: OrderRequestOpen) -> bool {
        &&& self.state.wf()
        &&& request.wf()
        &&& request.instrument.index < self.state.instruments@.len()
        &&& request.exchange.index < self.state.connectivity@.len()
    }

    /// Dispatch one open request and record it as in flight if it was
    /// sent. Risk is bypassed.
    fn open_order(&mut self, request: OrderRequestOpen) -> (r: SendRequestsOutput<
        OrderRequestOpen,
    >)
        ensures
            final(self).state.wf(),
            spec_action_frame(*old(self), *final(self)),
            spec_partitions(seq![request], r.sent@, r.errors@),
            spec_books_recorded(old(self).state, final(self).state, Seq::empty(), r.sent@),
    {
        let mut requests: Vec<OrderRequestOpen> = Vec::new();
        requests.push(request);
        proof {
            assert(requests@ =~= seq![request]);
        }
        self.send_and_record_opens(&requests)
    }
}

/// Dispatching one cancel request.
pub trait CancelOrder: Sized {
    type Output;

    /// Whether this engine accepts the request.
    spec fn spec_accepts_cancel(&self, request: OrderRequestCancel) -> bool;

    fn cancel_order(&mut self, request: OrderRequestCancel) -> Self::Output
        requires
            old(self).spec_accepts_cancel(request),
    ;
}

impl<Strategy, Risk> CancelOrder for Engine<Strategy, Risk> where
    Strategy: AlgoStrategy + ClosePositionsStrategy + OnDisconnectStrategy,
    Risk: RiskManager,
 {
    type Output = SendRequestsOutput<OrderRequestCancel>;

    open spec fn spec_accepts_cancel(&self, request: OrderRequestCancel) -> bool {
        &&& self.state.wf()
        &&& request.instrument.index < self.state.instruments@.len()
        &&& request.exchange.index < self.state.connectivity@.len()
    }

    /// Dispatch one cancel request and record it as in flight if it was
    /// sent. Risk is bypassed.
    fn cancel_order(&mut self, request: OrderRequestCancel) -> (r: SendRequestsOutput<
        OrderRequestCancel,
    >)
        ensures
            final(self).state.wf(),
            spec_action_frame(*old(self), *final(self)),
            spec_partitions(seq![request], r.sent@, r.errors@),
            spec_books_recorded(old(self).state, final(self).state, r.sent@, Seq::empty()),
    {
        let mut requests: Vec<OrderRequestCancel> = Vec::new();
        requests.push(request);
        proof {
            assert(requests@ =~= seq![request]);
        }
        self.send_and_record_cancels(&requests)
    }
}

/// Cancelling every open order, on one venue or everywhere.
pub trait CancelAllOrders: Sized {
    type Output;

    /// Whether this engine is ready.
    spec fn spec_ready_to_cancel_all(&self) -> bool;

    fn cancel_all_orders(&mut self, exchange: Option<ExchangeIndex>) -> Self::Output
        requires
            old(self).spec_ready_to_cancel_all(),
    ;
}

impl<Strategy, Risk> CancelAllOrders for Engine<Strategy, Risk> where
    Strategy: AlgoStrategy + ClosePositionsStrategy + OnDisconnectStrategy,
    Risk: RiskManager,
 {
    type Output = SendRequestsOutput<OrderRequestCancel>;

    open spec fn spec_ready_to_cancel_all(&self) -> bool {
        self.state.wf()
    }

    /// Cancel every open order, on one venue or everywhere: the output
    /// partitions the cancel requests of the selected books, and the books
    /// fold in the sent ones.
    fn cancel_all_orders(&mut self, exchange: Option<ExchangeIndex>) -> (r: SendRequestsOutput<
        OrderRequestCancel,
    >)
        ensures
            final(self).state.wf(),
            spec_action_frame(*old(self), *final(self)),
            match exchange {
                None => spec_partitions(
                    crate::strategy::spec_close_cancels(
                        old(self).state.instruments@,
                        crate::events::InstrumentFilter::All,
                    ),
                    r.sent@,
                    r.errors@,
                ),
                Some(ex) => spec_partitions(
                    crate::strategy::spec_close_cancels_exchange(old(self).state.instruments@, ex),
                    r.sent@,
                    r.errors@,
                ),
            },
            crate::send_requests::spec_cancel_errors_per_venue(r.errors@),
            spec_books_recorded(old(self).state, final(self).state, r.sent@, Seq::empty()),
    {
        let ghost pre_state = self.state;
        match exchange {
            Some(ex) => {
                let mut v: Vec<ExchangeIndex> = Vec::new();
                v.push(ex);
                let ghost vg = v;
                proof {
                    assert(vg@ =~= seq![ex]);
                }
                let filter = crate::events::InstrumentFilter::Exchanges(v);
                let r = self.cancel_orders(&filter);
                proof {
                    crate::strategy::lemma_close_cancels_singleton_exchange(
                        pre_state.instruments@,
                        vg,
                        ex,
                    );
                }
                r
            },
            None => {
                let filter = crate::events::InstrumentFilter::All;
                self.cancel_orders(&filter)
            },
        }
    }
}

/// Closing one instrument's position.
pub trait ClosePosition: Sized {
    type Output;

    /// Whether this engine is ready.
    spec fn spec_ready_to_close(&self) -> bool;

    fn close_position(&mut self, instrument: InstrumentIndex) -> Self::Output
        requires
            old(self).spec_ready_to_close(),
    ;
}

impl<Strategy, Risk> ClosePosition for Engine<Strategy, Risk> where
    Strategy: AlgoStrategy + ClosePositionsStrategy + OnDisconnectStrategy,
    Risk: RiskManager,
 {
    type Output = ClosePositionsOutput;

    open spec fn spec_ready_to_close(&self) -> bool {
        self.state.wf()
    }

    /// Close the position of one instrument: the output partitions the
    /// strategy's close pools for a filter naming exactly that instrument,
    /// and the books fold in the sent requests.
    fn close_position(&mut self, instrument: InstrumentIndex) -> (r: ClosePositionsOutput)
        ensures
            final(self).state.wf(),
            spec_action_frame(*old(self), *final(self)),
            exists|v: Vec<InstrumentIndex>|
                {
                    &&& v@ == seq![instrument]
                    &&& spec_partitions(
                        #[trigger] old(self).strategy.spec_close_cancels_for(
                            old(self).state,
                            crate::events::InstrumentFilter::Instruments(v),
                        ),
                        r.cancels.sent@,
                        r.cancels.errors@,
                    )
                    &&& spec_partitions(
                        old(self).strategy.spec_close_opens_for(
                            old(self).state,
                            crate::events::InstrumentFilter::Instruments(v),
                        ),
                        r.opens.sent@,
                        r.opens.errors@,
                    )
                },
            crate::send_requests::spec_cancel_errors_per_venue(r.cancels.errors@),
            crate::send_requests::spec_open_errors_per_venue(r.opens.errors@),
            spec_books_recorded(old(self).state, final(self).state, r.cancels.sent@, r.opens.sent@),
    {
        let mut v: Vec<InstrumentIndex> = Vec::new();
        v.push(instrument);
        let ghost vg = v;
        proof {
            assert(vg@ =~= seq![instrument]);
        }
        let filter = crate::events::InstrumentFilter::Instruments(v);
        self.close_positions(&filter)
    }
}

/// Closing every position, on one venue or everywhere.
pub trait CloseAllPositions: Sized {
    type Output;

    /// Whether this engine is ready.
    spec fn spec_ready_to_close_all(&self) -> bool;

    fn close_all_positions(&mut self, exchange: Option<ExchangeIndex>) -> Self::Output
        requires
            old(self).spec_ready_to_close_all(),
    ;
}

impl<Strategy, Risk> CloseAllPositions for Engine<Strategy, Risk> where
    Strategy: AlgoStrategy + ClosePositionsStrategy + OnDisconnectStrategy,
    Risk: RiskManager,
 {
    type Output = ClosePositionsOutput;

    open spec fn spec_ready_to_close_all(&self) -> bool {
        self.state.wf()
    }

    /// Close every position, on one venue or everywhere: the output
    /// partitions the strategy's close pools for the matching filter, and
    /// the books fold in the sent requests.
    fn close_all_positions(&mut self, exchange: Option<ExchangeIndex>) -> (r: ClosePositionsOutput)
        ensures
            final(self).state.wf(),
            spec_action_frame(*old(self), *final(self)),
            match exchange {
                None => {
                    &&& spec_partitions(
                        old(self).strategy.spec_close_cancels_for(
                            old(self).state,
                            crate::events::InstrumentFilter::All,
                        ),
                        r.cancels.sent@,
                        r.cancels.errors@,
                    )
                    &&& spec_partitions(
                        old(self).strategy.spec_close_opens_for(
                            old(self).state,
                            crate::events::InstrumentFilter::All,
                        ),
                        r.opens.sent@,
                        r.opens.errors@,
                    )
                },
                Some(ex) => exists|v: Vec<ExchangeIndex>|
                    {
                        &&& v@ == seq![ex]
                        &&& spec_partitions(
                            #[trigger] old(self).strategy.spec_close_cancels_for(
                                old(self).state,
                                crate::events::InstrumentFilter::Exchanges(v),
                            ),
                            r.cancels.sent@,
                            r.cancels.errors@,
                        )
                        &&& spec_partitions(
                            old(self).strategy.spec_close_opens_for(
                                old(self).state,
                                crate::events::InstrumentFilter::Exchanges(v),
                            ),
                            r.opens.sent@,
                            r.opens.errors@,
                        )
                    },
            },
            crate::send_requests::spec_cancel_errors_per_venue(r.cancels.errors@),
            crate::send_requests::spec_open_errors_per_venue(r.opens.errors@),
            spec_books_recorded(old(self).state, final(self).state, r.cancels.sent@, r.opens.sent@),
    {
        match exchange {
            Some(ex) => {
                let mut v: Vec<ExchangeIndex> = Vec::new();
                v.push(ex);
                let ghost vg = v;
                proof {
                    assert(vg@ =~= seq![ex]);
                }
                let filter = crate::events::InstrumentFilter::Exchanges(v);
                self.close_positions(&filter)
            },
            None => {
                let filter = crate::events::InstrumentFilter::All;
                self.close_positions(&filter)
            },
        }
    }
}


/// Applying the same trading-state value twice in a row leaves the state
/// exactly as after the first application: the second update is a no-op on
/// the state (each still emits its own audit).
pub proof fn lemma_trading_state_idempotent(s0: EngineState, ts: TradingState)
    ensures
        (EngineState { trading: ts, ..(EngineState { trading: ts, ..s0 }) }) == (EngineState {
            trading: ts,
            ..s0
        }),
{
}

} // verus!
