//! The engine: a synchronous reducer that owns the world state and the
//! outbound execution channels, consumes one event at a time, optionally
//! runs a strategy pass with a risk check, dispatches the resulting order
//! requests, and emits one audit record per processed event.

use vstd::prelude::*;
use crate::action::{ActionOutput, ClosePositionsOutput, GenerateAlgoOrdersOutput};
use crate::audit::{Audit, AuditEvent, EngineClock, ShutdownAudit};
use crate::capability::Auditor;
use crate::events::{AccountStreamEvent, Command, EngineEvent, InstrumentFilter, MarketStreamEvent};
use crate::execution_tx::ExecutionTxMap;
use crate::order::{OrderRequestCancel, OrderRequestOpen};
use crate::risk::{
    spec_cancel_requests_wf, spec_open_requests_wf, RiskApproved, RiskManager,
};
use crate::send_requests::{
    lemma_partitions_membership, send_cancel_requests, send_open_requests, spec_partitions,
    SendRequestsOutput,
};
use crate::state::{
    spec_record_cancels_book, spec_record_opens_book, spec_state_like, EngineState,
};
use crate::strategy::{AlgoStrategy, ClosePositionsStrategy, OnDisconnectStrategy};
use crate::types::TimeMillis;

verus! {

/// How a recording step changes the books: every non-book field of every
/// instrument is untouched, and each book folds in first the cancels, then
/// the opens, addressed to it.
pub open spec fn spec_books_recorded(
    pre: EngineState,
    post: EngineState,
    cancels: Seq<OrderRequestCancel>,
    opens: Seq<OrderRequestOpen>,
) -> bool {
    &&& post.instruments@.len() == pre.instruments@.len()
    &&& forall|j: int|
        0 <= j < pre.instruments@.len() ==> {
            &&& (#[trigger] post.instruments@[j]).instrument == pre.instruments@[j].instrument
            &&& post.instruments@[j].exchange == pre.instruments@[j].exchange
            &&& post.instruments@[j].market == pre.instruments@[j].market
            &&& post.instruments@[j].position == pre.instruments@[j].position
            &&& post.instruments@[j].position_sequence == pre.instruments@[j].position_sequence
            &&& post.instruments@[j].orders.view_map() == spec_record_opens_book(
                spec_record_cancels_book(
                    pre.instruments@[j].orders.view_map(),
                    cancels,
                    pre.instruments@[j].instrument,
                ),
                opens,
                pre.instruments@[j].instrument,
            )
        }
}

/// Whether a command addresses only the state's universe, with well-formed
/// requests.
pub open spec fn spec_command_wf(state: EngineState, cmd: Command) -> bool {
    match cmd {
        Command::SendCancelRequests(reqs) => spec_cancel_requests_wf(reqs@, state),
        Command::SendOpenRequests(reqs) => spec_open_requests_wf(reqs@, state),
        Command::ClosePositions(_) => true,
        Command::CancelOrders(_) => true,
    }
}

/// Whether an engine event addresses only the state's universe.
pub open spec fn spec_event_wf(state: EngineState, event: EngineEvent) -> bool {
    match event {
        EngineEvent::Shutdown => true,
        EngineEvent::Command(cmd) => spec_command_wf(state, cmd),
        EngineEvent::TradingStateUpdate(_) => true,
        EngineEvent::Account(e) => state.spec_account_stream_event_wf(e),
        EngineEvent::Market(e) => state.spec_market_stream_event_wf(e),
    }
}

/// What an action leaves untouched inside the world state: everything but
/// the order books.
pub open spec fn spec_state_action_frame(pre: EngineState, post: EngineState) -> bool {
    &&& post.trading == pre.trading
    &&& post.connectivity == pre.connectivity
    &&& post.assets == pre.assets
    &&& post.strategy == pre.strategy
    &&& post.risk == pre.risk
}

/// What one algo pass reports, relative to the state it read: the dispatched
/// cancel and open batches partition the risk-approved pools of the
/// strategy's proposals, and the refusals are exactly the risk manager's,
/// items and reasons alike.
pub open spec fn spec_algo_output_relation<Strategy: AlgoStrategy, Risk: RiskManager>(
    state: EngineState,
    strategy: Strategy,
    risk: Risk,
    out: GenerateAlgoOrdersOutput,
) -> bool {
    let cancels = strategy.spec_algo_cancels(state);
    let opens = strategy.spec_algo_opens(state);
    &&& spec_partitions(
        risk.spec_approved_cancels(state, cancels, opens),
        out.cancels.sent@,
        out.cancels.errors@,
    )
    &&& spec_partitions(
        risk.spec_approved_opens(state, cancels, opens),
        out.opens.sent@,
        out.opens.errors@,
    )
    &&& out.cancels_refused@.map_values(|a: crate::risk::RiskRefused<OrderRequestCancel>| a.item)
        == risk.spec_refused_cancels(state, cancels, opens)
    &&& out.opens_refused@.map_values(|a: crate::risk::RiskRefused<OrderRequestOpen>| a.item)
        == risk.spec_refused_opens(state, cancels, opens)
    &&& out.cancels_refused@.map_values(|a: crate::risk::RiskRefused<OrderRequestCancel>| a.reason@)
        == risk.spec_refused_cancel_reasons(state, cancels, opens)
    &&& out.opens_refused@.map_values(|a: crate::risk::RiskRefused<OrderRequestOpen>| a.reason@)
        == risk.spec_refused_open_reasons(state, cancels, opens)
    &&& crate::send_requests::spec_cancel_errors_per_venue(out.cancels.errors@)
    &&& crate::send_requests::spec_open_errors_per_venue(out.opens.errors@)
}

/// What one command does: which output variant it yields, how that output
/// partitions the command's request pool, and how the order books fold in
/// the sent requests; nothing else of the state moves.
pub open spec fn spec_action_relation<Strategy: ClosePositionsStrategy>(
    pre: EngineState,
    post: EngineState,
    strategy: Strategy,
    cmd: Command,
    out: ActionOutput,
) -> bool {
    &&& spec_state_action_frame(pre, post)
    &&& match cmd {
        Command::SendCancelRequests(reqs) => out matches ActionOutput::CancelOrders(o) && {
            &&& spec_partitions(reqs@, o.sent@, o.errors@)
            &&& crate::send_requests::spec_cancel_errors_per_venue(o.errors@)
            &&& spec_books_recorded(pre, post, o.sent@, Seq::empty())
        },
        Command::SendOpenRequests(reqs) => out matches ActionOutput::OpenOrders(o) && {
            &&& spec_partitions(reqs@, o.sent@, o.errors@)
            &&& crate::send_requests::spec_open_errors_per_venue(o.errors@)
            &&& spec_books_recorded(pre, post, Seq::empty(), o.sent@)
        },
        Command::ClosePositions(filter) => out matches ActionOutput::ClosePositions(o) && {
            &&& spec_partitions(
                strategy.spec_close_cancels_for(pre, filter),
                o.cancels.sent@,
                o.cancels.errors@,
            )
            &&& spec_partitions(
                strategy.spec_close_opens_for(pre, filter),
                o.opens.sent@,
                o.opens.errors@,
            )
            &&& crate::send_requests::spec_cancel_errors_per_venue(o.cancels.errors@)
            &&& crate::send_requests::spec_open_errors_per_venue(o.opens.errors@)
            &&& spec_books_recorded(pre, post, o.cancels.sent@, o.opens.sent@)
        },
        Command::CancelOrders(filter) => out matches ActionOutput::CancelOrders(o) && {
            &&& spec_partitions(
                crate::strategy::spec_close_cancels(pre.instruments@, filter),
                o.sent@,
                o.errors@,
            )
            &&& crate::send_requests::spec_cancel_errors_per_venue(o.errors@)
            &&& spec_books_recorded(pre, post, o.sent@, Seq::empty())
        },
    }
}

/// What happens after a non-command event is absorbed: iff trading is
/// enabled one algo pass runs, whose output the audit carries and whose sent
/// requests the books fold in; an unrecoverable pass yields the shutdown
/// audit with the pass's unrecoverable errors as its reasons. With trading
/// disabled nothing further happens and the plain audit reports the event.
pub open spec fn spec_post_event_step<Strategy: AlgoStrategy, Risk: RiskManager>(
    mid: EngineState,
    post: EngineState,
    audit: Audit,
    event: EngineEvent,
    strategy: Strategy,
    risk: Risk,
) -> bool {
    if mid.trading is Disabled {
        &&& audit == Audit::Process(event)
        &&& post == mid
    } else {
        ||| {
            &&& audit matches Audit::ProcessWithOutput(e, ActionOutput::GenerateAlgoOrders(g))
            &&& e == event
            &&& !g.spec_is_unrecoverable()
            &&& spec_algo_output_relation(mid, strategy, risk, g)
            &&& spec_books_recorded(mid, post, g.cancels.sent@, g.opens.sent@)
            &&& spec_state_action_frame(mid, post)
        }
        ||| {
            &&& audit matches Audit::ShutdownWithOutput(sa, ActionOutput::GenerateAlgoOrders(g))
            &&& g.spec_is_unrecoverable()
            &&& (sa matches ShutdownAudit::Error(e, reasons) && e == event && reasons@
                == g.spec_unrecoverable_reasons() && reasons@.len() > 0)
            &&& spec_algo_output_relation(mid, strategy, risk, g)
            &&& spec_books_recorded(mid, post, g.cancels.sent@, g.opens.sent@)
            &&& spec_state_action_frame(mid, post)
        }
    }
}

/// What happens when a venue's market stream disconnects: the strategy's
/// disconnect hook runs against the updated state; if it proposes orders
/// they are dispatched without a risk check (the audit carries that output
/// and the books fold in the sent requests, in place of that step's algo
/// pass); if it proposes nothing, the ordinary post-event step follows.
pub open spec fn spec_disconnect_step<
    Strategy: AlgoStrategy + OnDisconnectStrategy,
    Risk: RiskManager,
>(
    mid: EngineState,
    post: EngineState,
    audit: Audit,
    event: EngineEvent,
    exchange: crate::types::ExchangeIndex,
    strategy: Strategy,
    risk: Risk,
) -> bool {
    let hook_cancels = strategy.spec_on_disconnect_cancels(mid, exchange);
    let hook_opens = strategy.spec_on_disconnect_opens(mid, exchange);
    if hook_cancels.len() == 0 && hook_opens.len() == 0 {
        spec_post_event_step(mid, post, audit, event, strategy, risk)
    } else {
        ||| {
            &&& audit matches Audit::ProcessWithOutput(e, ActionOutput::OnDisconnect(out))
            &&& e == event
            &&& !out.spec_is_unrecoverable()
            &&& spec_partitions(hook_cancels, out.cancels.sent@, out.cancels.errors@)
            &&& spec_partitions(hook_opens, out.opens.sent@, out.opens.errors@)
            &&& crate::send_requests::spec_cancel_errors_per_venue(out.cancels.errors@)
            &&& crate::send_requests::spec_open_errors_per_venue(out.opens.errors@)
            &&& spec_books_recorded(mid, post, out.cancels.sent@, out.opens.sent@)
            &&& spec_state_action_frame(mid, post)
        }
        ||| {
            &&& audit matches Audit::ShutdownWithOutput(sa, ActionOutput::OnDisconnect(out))
            &&& out.spec_is_unrecoverable()
            &&& (sa matches ShutdownAudit::Error(e, reasons) && e == event && reasons@
                == out.spec_unrecoverable_reasons() && reasons@.len() > 0)
            &&& spec_partitions(hook_cancels, out.cancels.sent@, out.cancels.errors@)
            &&& spec_partitions(hook_opens, out.opens.sent@, out.opens.errors@)
            &&& crate::send_requests::spec_cancel_errors_per_venue(out.cancels.errors@)
            &&& crate::send_requests::spec_open_errors_per_venue(out.opens.errors@)
            &&& spec_books_recorded(mid, post, out.cancels.sent@, out.opens.sent@)
            &&& spec_state_action_frame(mid, post)
        }
    }
}

/// The event-driven trading engine core.
pub struct Engine<Strategy, Risk> {
    /// Sequence id of the next audit record.
    pub sequence: u64,
    pub clock: EngineClock,
    /// Timestamp of the last audit, so that audit times never go backwards.
    pub time_last_audit: TimeMillis,
    pub state: EngineState,
    pub execution_txs: ExecutionTxMap,
    pub strategy: Strategy,
    pub risk: Risk,
}

impl<Strategy, Risk> Engine<Strategy, Risk> {
    /// A new engine around a state, execution channels, strategy and risk
    /// manager; the audit sequence starts at zero.
    pub fn new(
        clock: EngineClock,
        state: EngineState,
        execution_txs: ExecutionTxMap,
        strategy: Strategy,
        risk: Risk,
    ) -> (r: Self)
        ensures
            r.sequence == 0,
            r.time_last_audit == i64::MIN,
            r.clock == clock,
            r.state == state,
            r.execution_txs == execution_txs,
            r.strategy == strategy,
            r.risk == risk,
    {
        Engine { sequence: 0, clock, time_last_audit: i64::MIN, state, execution_txs, strategy, risk }
    }

    /// Return the current audit sequence id and advance it.
    pub fn sequence_fetch_add(&mut self) -> (r: u64)
        requires
            old(self).sequence < u64::MAX,
        ensures
            r == old(self).sequence,
            final(self).sequence == old(self).sequence + 1,
            final(self).time_last_audit == old(self).time_last_audit,
            final(self).clock == old(self).clock,
            final(self).state == old(self).state,
            final(self).execution_txs == old(self).execution_txs,
            final(self).strategy == old(self).strategy,
            final(self).risk == old(self).risk,
    {
        let sequence = self.sequence;
        self.sequence = self.sequence + 1;
        sequence
    }

}

/// Unwrap risk-approved cancel requests.
fn unwrap_approved_cancels(v: Vec<RiskApproved<OrderRequestCancel>>) -> (r: Vec<
    OrderRequestCancel,
>)
    ensures
        r@ == v@.map_values(|a: RiskApproved<OrderRequestCancel>| a.0),
{
    let mut r: Vec<OrderRequestCancel> = Vec::new();
    let n = v.len();
    let mut i: usize = 0;
    while i < n
        invariant
            i <= n,
            n == v@.len(),
            r@.len() == i,
            forall|k: int| 0 <= k < i ==> (#[trigger] r@[k]) == v@[k].0,
        decreases n - i,
    {
        r.push(v[i].0);
        i = i + 1;
    }
    proof {
        assert(r@ =~= v@.map_values(|a: RiskApproved<OrderRequestCancel>| a.0));
    }
    r
}

/// Unwrap risk-approved open requests.
fn unwrap_approved_opens(v: Vec<RiskApproved<OrderRequestOpen>>) -> (r: Vec<OrderRequestOpen>)
    ensures
        r@ == v@.map_values(|a: RiskApproved<OrderRequestOpen>| a.0),
{
    let mut r: Vec<OrderRequestOpen> = Vec::new();
    let n = v.len();
    let mut i: usize = 0;
    while i < n
        invariant
            i <= n,
            n == v@.len(),
            r@.len() == i,
            forall|k: int| 0 <= k < i ==> (#[trigger] r@[k]) == v@[k].0,
        decreases n - i,
    {
        r.push(v[i].0);
        i = i + 1;
    }
    proof {
        assert(r@ =~= v@.map_values(|a: RiskApproved<OrderRequestOpen>| a.0));
    }
    r
}

/// Elements drawn from a pool of requests in the universe are in the
/// universe too.
proof fn lemma_cancels_wf_transfer(
    pool: Seq<OrderRequestCancel>,
    picked: Seq<OrderRequestCancel>,
    state: EngineState,
)
    requires
        spec_cancel_requests_wf(pool, state),
        forall|k: int| 0 <= k < picked.len() ==> pool.contains(#[trigger] picked[k]),
    ensures
        spec_cancel_requests_wf(picked, state),
{
    assert forall|k: int| 0 <= k < picked.len() implies {
        &&& (#[trigger] picked[k]).instrument.index < state.instruments@.len()
        &&& picked[k].exchange.index < state.connectivity@.len()
    } by {
        let j = choose|j: int| 0 <= j < pool.len() && pool[j] == picked[k];
        assert(pool[j].instrument.index < state.instruments@.len());
    }
}

/// Elements drawn from a pool of open requests in the universe are in the
/// universe too.
proof fn lemma_opens_wf_transfer(
    pool: Seq<OrderRequestOpen>,
    picked: Seq<OrderRequestOpen>,
    state: EngineState,
)
    requires
        spec_open_requests_wf(pool, state),
        forall|k: int| 0 <= k < picked.len() ==> pool.contains(#[trigger] picked[k]),
    ensures
        spec_open_requests_wf(picked, state),
{
    assert forall|k: int| 0 <= k < picked.len() implies {
        &&& (#[trigger] picked[k]).wf()
        &&& picked[k].instrument.index < state.instruments@.len()
        &&& picked[k].exchange.index < state.connectivity@.len()
    } by {
        let j = choose|j: int| 0 <= j < pool.len() && pool[j] == picked[k];
        assert(pool[j].wf());
    }
}

impl<Strategy, Risk> Engine<Strategy, Risk> {
    /// Dispatch a batch of cancel requests and record the sent ones as in
    /// flight.
    pub fn send_and_record_cancels(&mut self, requests: &Vec<OrderRequestCancel>) -> (r:
        SendRequestsOutput<OrderRequestCancel>)
        requires
            old(self).state.wf(),
            spec_cancel_requests_wf(requests@, old(self).state),
        ensures
            final(self).state.wf(),
            spec_partitions(requests@, r.sent@, r.errors@),
            r.sent@.len() + r.errors@.len() == requests@.len(),
            crate::send_requests::spec_cancel_errors_per_venue(r.errors@),
            spec_books_recorded(old(self).state, final(self).state, r.sent@, Seq::empty()),
            final(self).state.trading == old(self).state.trading,
            final(self).state.connectivity == old(self).state.connectivity,
            final(self).state.assets == old(self).state.assets,
            final(self).state.strategy == old(self).state.strategy,
            final(self).state.risk == old(self).state.risk,
            final(self).sequence == old(self).sequence,
            final(self).time_last_audit == old(self).time_last_audit,
            final(self).clock == old(self).clock,
            final(self).strategy == old(self).strategy,
            final(self).risk == old(self).risk,
            final(self).execution_txs == old(self).execution_txs,
    {
        let output = send_cancel_requests(&self.execution_txs, requests);
        proof {
            lemma_partitions_membership(requests@, output.sent@, output.errors@);
            lemma_cancels_wf_transfer(requests@, output.sent@, self.state);
        }
        let no_opens: Vec<OrderRequestOpen> = Vec::new();
        let _ = self.state.record_in_flight(&output.sent, &no_opens);
        output
    }

    /// Dispatch a batch of open requests and record the sent ones as in
    /// flight.
    pub fn send_and_record_opens(&mut self, requests: &Vec<OrderRequestOpen>) -> (r:
        SendRequestsOutput<OrderRequestOpen>)
        requires
            old(self).state.wf(),
            spec_open_requests_wf(requests@, old(self).state),
        ensures
            final(self).state.wf(),
            spec_partitions(requests@, r.sent@, r.errors@),
            r.sent@.len() + r.errors@.len() == requests@.len(),
            crate::send_requests::spec_open_errors_per_venue(r.errors@),
            spec_books_recorded(old(self).state, final(self).state, Seq::empty(), r.sent@),
            final(self).state.trading == old(self).state.trading,
            final(self).state.connectivity == old(self).state.connectivity,
            final(self).state.assets == old(self).state.assets,
            final(self).state.strategy == old(self).state.strategy,
            final(self).state.risk == old(self).state.risk,
            final(self).sequence == old(self).sequence,
            final(self).time_last_audit == old(self).time_last_audit,
            final(self).clock == old(self).clock,
            final(self).strategy == old(self).strategy,
            final(self).risk == old(self).risk,
            final(self).execution_txs == old(self).execution_txs,
    {
        let output = send_open_requests(&self.execution_txs, requests);
        proof {
            lemma_partitions_membership(requests@, output.sent@, output.errors@);
            lemma_opens_wf_transfer(requests@, output.sent@, self.state);
        }
        let no_cancels: Vec<OrderRequestCancel> = Vec::new();
        let _ = self.state.record_in_flight(&no_cancels, &output.sent);
        output
    }
}

/// What an action leaves untouched: the auditing state, the collaborators,
/// and every part of the world state except the order books.
pub open spec fn spec_action_frame<Strategy, Risk>(
    pre: Engine<Strategy, Risk>,
    post: Engine<Strategy, Risk>,
) -> bool {
    &&& post.sequence == pre.sequence
    &&& post.time_last_audit == pre.time_last_audit
    &&& post.clock == pre.clock
    &&& post.strategy == pre.strategy
    &&& post.risk == pre.risk
    &&& post.execution_txs == pre.execution_txs
    &&& post.state.trading == pre.state.trading
    &&& post.state.connectivity == pre.state.connectivity
    &&& post.state.assets == pre.state.assets
    &&& post.state.strategy == pre.state.strategy
    &&& post.state.risk == pre.state.risk
}

impl<Strategy, Risk> Engine<Strategy, Risk> where
    Strategy: AlgoStrategy + ClosePositionsStrategy + OnDisconnectStrategy,
    Risk: RiskManager,
 {
    /// Cancel every order resting open on the filtered instruments: build
    /// the cancel requests from the order books, dispatch them, and record
    /// the sent ones as in flight. Risk is bypassed, as for every
    /// command-initiated action.
    pub fn cancel_orders(&mut self, filter: &InstrumentFilter) -> (r: SendRequestsOutput<
        OrderRequestCancel,
    >)
        requires
            old(self).state.wf(),
        ensures
            final(self).state.wf(),
            spec_action_frame(*old(self), *final(self)),
            spec_partitions(
                crate::strategy::spec_close_cancels(old(self).state.instruments@, *filter),
                r.sent@,
                r.errors@,
            ),
            crate::send_requests::spec_cancel_errors_per_venue(r.errors@),
            spec_books_recorded(old(self).state, final(self).state, r.sent@, Seq::empty()),
    {
        let requests = crate::strategy::cancel_requests_for_filter(&self.state, filter);
        self.send_and_record_cancels(&requests)
    }

    /// Close the filtered positions: ask the strategy for the flattening
    /// requests, dispatch cancels before opens, and record the sent ones as
    /// in flight. Risk is bypassed, as for every command-initiated action.
    pub fn close_positions(&mut self, filter: &InstrumentFilter) -> (r: ClosePositionsOutput)
        requires
            old(self).state.wf(),
        ensures
            final(self).state.wf(),
            spec_action_frame(*old(self), *final(self)),
            spec_partitions(
                old(self).strategy.spec_close_cancels_for(old(self).state, *filter),
                r.cancels.sent@,
                r.cancels.errors@,
            ),
            spec_partitions(
                old(self).strategy.spec_close_opens_for(old(self).state, *filter),
                r.opens.sent@,
                r.opens.errors@,
            ),
            crate::send_requests::spec_cancel_errors_per_venue(r.cancels.errors@),
            crate::send_requests::spec_open_errors_per_venue(r.opens.errors@),
            spec_books_recorded(old(self).state, final(self).state, r.cancels.sent@, r.opens.sent@),
    {
        let (cancels, opens) = self.strategy.close_positions_requests(&self.state, filter);
        let cancels_output = self.send_and_record_cancels(&cancels);
        let opens_output = self.send_and_record_opens(&opens);
        ClosePositionsOutput { cancels: cancels_output, opens: opens_output }
    }

    /// Perform one operator command. Commands bypass the risk manager.
    pub fn action(&mut self, command: &Command) -> (r: ActionOutput)
        requires
            old(self).state.wf(),
            spec_command_wf(old(self).state, *command),
        ensures
            final(self).state.wf(),
            spec_action_frame(*old(self), *final(self)),
            spec_action_relation(
                old(self).state,
                final(self).state,
                old(self).strategy,
                *command,
                r,
            ),
    {
        match command {
            Command::SendCancelRequests(requests) => {
                let output = self.send_and_record_cancels(requests);
                ActionOutput::CancelOrders(output)
            },
            Command::SendOpenRequests(requests) => {
                let output = self.send_and_record_opens(requests);
                ActionOutput::OpenOrders(output)
            },
            Command::ClosePositions(filter) => {
                ActionOutput::ClosePositions(self.close_positions(filter))
            },
            Command::CancelOrders(filter) => {
                ActionOutput::CancelOrders(self.cancel_orders(filter))
            },
        }
    }

    /// One algo pass: ask the strategy for orders, let the risk manager
    /// split them into approved and refused, dispatch approved cancels then
    /// approved opens, record the sent ones as in flight, and report all of
    /// it.
    pub fn generate_algo_orders(&mut self) -> (r: GenerateAlgoOrdersOutput)
        requires
            old(self).state.wf(),
        ensures
            final(self).state.wf(),
            spec_action_frame(*old(self), *final(self)),
            spec_algo_output_relation(old(self).state, old(self).strategy, old(self).risk, r),
            spec_books_recorded(old(self).state, final(self).state, r.cancels.sent@, r.opens.sent@),
    {
        let (cancels, opens) = self.strategy.generate_orders(&self.state);
        let ghost cancels0 = cancels@;
        let ghost opens0 = opens@;
        let (approved_cancels, approved_opens, cancels_refused, opens_refused) = self.risk.check(
            &self.state,
            cancels,
            opens,
        );
        let approved_cancels = unwrap_approved_cancels(approved_cancels);
        let approved_opens = unwrap_approved_opens(approved_opens);
        proof {
            assert(forall|k: int|
                0 <= k < approved_cancels@.len() ==> cancels0.contains(
                    #[trigger] approved_cancels@[k],
                ));
            assert(forall|k: int|
                0 <= k < approved_opens@.len() ==> opens0.contains(#[trigger] approved_opens@[k]));
            lemma_cancels_wf_transfer(cancels0, approved_cancels@, self.state);
            lemma_opens_wf_transfer(opens0, approved_opens@, self.state);
        }
        let cancels_output = self.send_and_record_cancels(&approved_cancels);
        let opens_output = self.send_and_record_opens(&approved_opens);
        GenerateAlgoOrdersOutput {
            cancels: cancels_output,
            cancels_refused,
            opens: opens_output,
            opens_refused,
        }
    }

    /// Run the post-event step: iff trading is enabled, one algo pass,
    /// whose output the returned audit carries; an unrecoverable pass yields
    /// the shutdown audit instead.
    fn algo_gate(&mut self, event: EngineEvent) -> (audit: Audit)
        requires
            old(self).state.wf(),
        ensures
            final(self).state.wf(),
            final(self).sequence == old(self).sequence,
            final(self).time_last_audit == old(self).time_last_audit,
            final(self).clock == old(self).clock,
            final(self).execution_txs == old(self).execution_txs,
            final(self).strategy == old(self).strategy,
            final(self).risk == old(self).risk,
            spec_post_event_step(
                old(self).state,
                final(self).state,
                audit,
                event,
                old(self).strategy,
                old(self).risk,
            ),
            audit.spec_event() == Some(event),
    {
        match crate::capability::TradingStateManager::trading_state(&self.state) {
            crate::events::TradingState::Enabled => {
                let output = self.generate_algo_orders();
                let unrecoverable = output.unrecoverable_errors();
                if unrecoverable.len() > 0 {
                    Audit::ShutdownWithOutput(
                        ShutdownAudit::Error(event, unrecoverable),
                        ActionOutput::GenerateAlgoOrders(output),
                    )
                } else {
                    Audit::ProcessWithOutput(event, ActionOutput::GenerateAlgoOrders(output))
                }
            },
            crate::events::TradingState::Disabled => Audit::Process(event),
        }
    }

    /// Process one event of the merged feed, per the reducer contract:
    ///
    /// * `Shutdown` is recorded as a commanded shutdown; the run loop stops.
    /// * A command is performed; unrecoverable errors in its output shut the
    ///   engine down. Commands do not trigger an algo pass, and their audit
    ///   carries the command's own output.
    /// * A trading-state update, account event or market event mutates the
    ///   state; then, iff trading is enabled, one algo pass runs. A venue's
    ///   market-stream disconnect additionally invokes the strategy's
    ///   disconnect hook, whose orders are dispatched without a risk check
    ///   and take the place of that step's algo pass.
    ///
    /// The audit reflects exactly which of these happened: it names the
    /// event, carries the action or algo-pass output, and — on an
    /// unrecoverable output — the shutdown cause with that output's
    /// unrecoverable errors as its reasons.
    pub fn process(&mut self, event: EngineEvent) -> (audit: Audit)
        requires
            old(self).state.wf(),
            spec_event_wf(old(self).state, event),
        ensures
            final(self).state.wf(),
            final(self).sequence == old(self).sequence,
            final(self).time_last_audit == old(self).time_last_audit,
            final(self).clock == old(self).clock,
            final(self).execution_txs == old(self).execution_txs,
            final(self).strategy == old(self).strategy,
            final(self).risk == old(self).risk,
            final(self).state.connectivity@.len() == old(self).state.connectivity@.len(),
            final(self).state.assets@.len() == old(self).state.assets@.len(),
            final(self).state.instruments@.len() == old(self).state.instruments@.len(),
            audit.spec_event() == Some(event),
            audit matches Audit::ShutdownWithOutput(sa, out) ==> {
                &&& out.spec_is_unrecoverable()
                &&& (sa matches ShutdownAudit::Error(e, reasons) && e == event && reasons@
                    == out.spec_unrecoverable_reasons() && reasons@.len() > 0)
            },
            match event {
                EngineEvent::Shutdown => {
                    &&& audit == Audit::Shutdown(ShutdownAudit::Commanded(event))
                    &&& final(self).state == old(self).state
                },
                EngineEvent::Command(cmd) => {
                    ||| {
                        &&& audit matches Audit::ProcessWithOutput(e, out)
                        &&& e == event
                        &&& !out.spec_is_unrecoverable()
                        &&& spec_action_relation(
                            old(self).state,
                            final(self).state,
                            old(self).strategy,
                            cmd,
                            out,
                        )
                    }
                    ||| {
                        &&& audit matches Audit::ShutdownWithOutput(sa, out)
                        &&& out.spec_is_unrecoverable()
                        &&& spec_action_relation(
                            old(self).state,
                            final(self).state,
                            old(self).strategy,
                            cmd,
                            out,
                        )
                    }
                },
                EngineEvent::TradingStateUpdate(ts) => {
                    &&& final(self).state.trading == ts
                    &&& spec_post_event_step(
                        EngineState { trading: ts, ..old(self).state },
                        final(self).state,
                        audit,
                        event,
                        old(self).strategy,
                        old(self).risk,
                    )
                },
                EngineEvent::Account(stream) => exists|mid: EngineState|
                    {
                        &&& #[trigger] crate::state::spec_account_stream_relation(
                            old(self).state,
                            mid,
                            stream,
                        )
                        &&& spec_post_event_step(
                            mid,
                            final(self).state,
                            audit,
                            event,
                            old(self).strategy,
                            old(self).risk,
                        )
                    },
                EngineEvent::Market(stream) => match stream {
                    MarketStreamEvent::Item(_) => exists|mid: EngineState|
                        {
                            &&& #[trigger] crate::state::spec_market_stream_relation(
                                old(self).state,
                                mid,
                                stream,
                            )
                            &&& spec_post_event_step(
                                mid,
                                final(self).state,
                                audit,
                                event,
                                old(self).strategy,
                                old(self).risk,
                            )
                        },
                    MarketStreamEvent::Reconnecting(ex) => exists|mid: EngineState|
                        {
                            &&& #[trigger] crate::state::spec_market_stream_relation(
                                old(self).state,
                                mid,
                                stream,
                            )
                            &&& spec_disconnect_step(
                                mid,
                                final(self).state,
                                audit,
                                event,
                                ex,
                                old(self).strategy,
                                old(self).risk,
                            )
                        },
                },
            },
    {
        let ghost pre_state = self.state;
        let ghost ev = event;
        match &event {
            EngineEvent::Shutdown => {
                return Audit::Shutdown(ShutdownAudit::Commanded(event));
            },
            EngineEvent::Command(command) => {
                let output = self.action(command);
                let unrecoverable = output.unrecoverable_errors();
                if unrecoverable.len() > 0 {
                    return Audit::ShutdownWithOutput(
                        ShutdownAudit::Error(event, unrecoverable),
                        output,
                    );
                } else {
                    return Audit::ProcessWithOutput(event, output);
                }
            },
            EngineEvent::TradingStateUpdate(ts) => {
                let _ = crate::capability::Processor::process(&mut self.state, *ts);
                return self.algo_gate(event);
            },
            EngineEvent::Account(stream) => {
                let ghost stream_v = *stream;
                let _ = self.state.update_from_account(stream);
                let ghost mid = self.state;
                let audit = self.algo_gate(event);
                proof {
                    assert(crate::state::spec_account_stream_relation(pre_state, mid, stream_v)
                        && spec_post_event_step(
                        mid,
                        self.state,
                        audit,
                        ev,
                        self.strategy,
                        self.risk,
                    ));
                }
                return audit;
            },
            EngineEvent::Market(stream) => {
                let ghost stream_v = *stream;
                match stream {
                    MarketStreamEvent::Reconnecting(ex) => {
                        let exchange = *ex;
                        let _ = self.state.update_from_market(stream);
                        let ghost mid = self.state;
                        let (cancels, opens) = self.strategy.on_disconnect(&self.state, exchange);
                        if cancels.len() > 0 || opens.len() > 0 {
                            let cancels_output = self.send_and_record_cancels(&cancels);
                            let opens_output = self.send_and_record_opens(&opens);
                            let out = ClosePositionsOutput {
                                cancels: cancels_output,
                                opens: opens_output,
                            };
                            let unrecoverable = out.unrecoverable_errors();
                            let output = ActionOutput::OnDisconnect(out);
                            let audit = if unrecoverable.len() > 0 {
                                Audit::ShutdownWithOutput(
                                    ShutdownAudit::Error(event, unrecoverable),
                                    output,
                                )
                            } else {
                                Audit::ProcessWithOutput(event, output)
                            };
                            proof {
                                assert(crate::state::spec_market_stream_relation(
                                    pre_state,
                                    mid,
                                    stream_v,
                                ) && spec_disconnect_step(
                                    mid,
                                    self.state,
                                    audit,
                                    ev,
                                    exchange,
                                    self.strategy,
                                    self.risk,
                                ));
                            }
                            return audit;
                        } else {
                            let audit = self.algo_gate(event);
                            proof {
                                assert(crate::state::spec_market_stream_relation(
                                    pre_state,
                                    mid,
                                    stream_v,
                                ) && spec_disconnect_step(
                                    mid,
                                    self.state,
                                    audit,
                                    ev,
                                    exchange,
                                    self.strategy,
                                    self.risk,
                                ));
                            }
                            return audit;
                        }
                    },
                    MarketStreamEvent::Item(_) => {
                        let _ = self.state.update_from_market(stream);
                        let ghost mid = self.state;
                        let audit = self.algo_gate(event);
                        proof {
                            assert(crate::state::spec_market_stream_relation(
                                pre_state,
                                mid,
                                stream_v,
                            ) && spec_post_event_step(
                                mid,
                                self.state,
                                audit,
                                ev,
                                self.strategy,
                                self.risk,
                            ));
                        }
                        return audit;
                    },
                }
            },
        }
    }
}

/// Runtime check for `spec_command_wf`, for callers that receive commands
/// from outside the verified world.
#[verifier::loop_isolation(false)]
pub fn command_in_universe(state: &EngineState, cmd: &Command) -> (r: bool)
    ensures
        r == spec_command_wf(*state, *cmd),
{
    match cmd {
        Command::SendCancelRequests(reqs) => {
            let n = reqs.len();
            let mut k: usize = 0;
            while k < n
                invariant
                    k <= n,
                    forall|j: int|
                        0 <= j < k ==> {
                            &&& (#[trigger] reqs@[j]).instrument.index < state.instruments@.len()
                            &&& reqs@[j].exchange.index < state.connectivity@.len()
                        },
                decreases n - k,
            {
                let req = reqs[k];
                if !(req.instrument.index < state.instruments.len() && req.exchange.index
                    < state.connectivity.len()) {
                    proof {
                        assert(!((reqs@[k as int]).instrument.index < state.instruments@.len()
                            && reqs@[k as int].exchange.index < state.connectivity@.len()));
                    }
                    return false;
                }
                k = k + 1;
            }
            true
        },
        Command::SendOpenRequests(reqs) => {
            let n = reqs.len();
            let mut k: usize = 0;
            while k < n
                invariant
                    k <= n,
                    forall|j: int|
                        0 <= j < k ==> {
                            &&& (#[trigger] reqs@[j]).wf()
                            &&& reqs@[j].instrument.index < state.instruments@.len()
                            &&& reqs@[j].exchange.index < state.connectivity@.len()
                        },
                decreases n - k,
            {
                let req = reqs[k];
                if !(0 <= req.price && req.price <= crate::types::AMOUNT_MAX && 0 < req.quantity
                    && req.quantity <= crate::types::AMOUNT_MAX
                    && req.instrument.index < state.instruments.len() && req.exchange.index
                    < state.connectivity.len()) {
                    proof {
                        assert(!((reqs@[k as int]).wf() && reqs@[k as int].instrument.index
                            < state.instruments@.len() && reqs@[k as int].exchange.index
                            < state.connectivity@.len()));
                    }
                    return false;
                }
                k = k + 1;
            }
            true
        },
        Command::ClosePositions(_) => true,
        Command::CancelOrders(_) => true,
    }
}

/// Runtime check for `spec_event_wf`, for callers that receive events from
/// outside the verified world.
pub fn event_in_universe(state: &EngineState, event: &EngineEvent) -> (r: bool)
    ensures
        r == spec_event_wf(*state, *event),
{
    match event {
        EngineEvent::Shutdown => true,
        EngineEvent::Command(cmd) => command_in_universe(state, cmd),
        EngineEvent::TradingStateUpdate(_) => true,
        EngineEvent::Account(e) => match e {
            AccountStreamEvent::Reconnecting(ex) => ex.index < state.connectivity.len(),
            AccountStreamEvent::Item(item) => state.account_event_in_universe(item),
        },
        EngineEvent::Market(e) => match e {
            MarketStreamEvent::Reconnecting(ex) => ex.index < state.connectivity.len(),
            MarketStreamEvent::Item(item) => state.market_event_in_universe(item),
        },
    }
}

/// Event well-formedness only reads the sizes of the universe, which every
/// reducer step preserves.
proof fn lemma_event_wf_same_universe(a: EngineState, b: EngineState, e: EngineEvent)
    requires
        a.connectivity@.len() == b.connectivity@.len(),
        a.assets@.len() == b.assets@.len(),
        a.instruments@.len() == b.instruments@.len(),
        spec_event_wf(a, e),
    ensures
        spec_event_wf(b, e),
{
}

/// Drive the engine over a feed of events: emit a full state snapshot audit
/// first, process each event and emit its audit, and stop after the first
/// terminal audit — a commanded shutdown or an unrecoverable error — or,
/// when the feed is exhausted, after a feed-ended shutdown audit.
///
/// The returned trail is exactly what was emitted on the audit channel:
/// audit ids increase by one from the engine's starting sequence, and audit
/// times never decrease.
pub fn run<Strategy, Risk>(
    feed: Vec<EngineEvent>,
    engine: &mut Engine<Strategy, Risk>,
    audit_tx: &mut barter_integration::channel::ChannelTxDroppable<
        barter_integration::channel::UnboundedTx<AuditEvent>,
    >,
) -> (trail: Vec<AuditEvent>) where
    Strategy: AlgoStrategy + ClosePositionsStrategy + OnDisconnectStrategy,
    Risk: RiskManager,

    requires
        old(engine).state.wf(),
        forall|i: int|
            0 <= i < feed@.len() ==> spec_event_wf(old(engine).state, #[trigger] feed@[i]),
        old(engine).sequence + feed@.len() + 2 <= u64::MAX,
    ensures
        final(engine).state.wf(),
        2 <= trail@.len() <= feed@.len() + 2,
        trail@[0].kind matches Audit::Snapshot(s) && spec_state_like(s, old(engine).state),
        trail@.last().kind.spec_is_terminal(),
        forall|i: int|
            0 <= i < trail@.len() ==> (#[trigger] trail@[i]).id == old(engine).sequence + i,
        forall|i: int|
            0 <= i < trail@.len() - 1 ==> (#[trigger] trail@[i]).time_millis <= trail@[i
                + 1].time_millis,
        forall|i: int|
            1 <= i < trail@.len() - 1 ==> !(#[trigger] trail@[i]).kind.spec_is_terminal(),
        forall|i: int|
            1 <= i < trail@.len() && i <= feed@.len() ==> (#[trigger] trail@[i]).kind.spec_event()
                == Some(feed@[i - 1]),
        (trail@.last().kind matches Audit::Shutdown(sa) && sa is FeedEnded) <==> trail@.len()
            == feed@.len() + 2,
{
    let ghost seq0 = engine.sequence;
    let ghost state0 = engine.state;
    let ghost feed0 = feed@;
    let mut feed = feed;
    let snapshot = engine.snapshot();
    let first = engine.build_audit(Audit::Snapshot(snapshot));
    let mut trail: Vec<AuditEvent> = Vec::new();
    crate::audit::send_audit(audit_tx, first.clone());
    trail.push(first);
    let n = feed.len();
    let mut i: usize = 0;
    let mut stopped = false;
    while i < n
        invariant
            i <= n,
            n == feed0.len(),
            feed@ == feed0.skip(i as int),
            engine.state.wf(),
            engine.state.connectivity@.len() == state0.connectivity@.len(),
            engine.state.assets@.len() == state0.assets@.len(),
            engine.state.instruments@.len() == state0.instruments@.len(),
            forall|k: int|
                0 <= k < feed0.len() ==> spec_event_wf(state0, #[trigger] feed0[k]),
            seq0 + n + 2 <= u64::MAX,
            engine.sequence == seq0 + trail@.len(),
            1 <= trail@.len() <= i + 1,
            !stopped ==> trail@.len() == i + 1,
            stopped == trail@.last().kind.spec_is_terminal(),
            engine.time_last_audit == trail@.last().time_millis,
            trail@[0].kind matches Audit::Snapshot(s) && spec_state_like(s, state0),
            forall|k: int| 0 <= k < trail@.len() ==> (#[trigger] trail@[k]).id == seq0 + k,
            forall|k: int|
                0 <= k < trail@.len() - 1 ==> (#[trigger] trail@[k]).time_millis <= trail@[k
                    + 1].time_millis,
            forall|k: int|
                1 <= k < trail@.len() - 1 ==> !(#[trigger] trail@[k]).kind.spec_is_terminal(),
            forall|k: int|
                1 <= k < trail@.len() ==> (#[trigger] trail@[k]).kind.spec_event() == Some(
                    feed0[k - 1],
                ),
        decreases n - i,
    {
        proof {
            assert(feed0.skip(i as int).drop_first() =~= feed0.skip(i + 1int));
        }
        if !stopped {
            let event = feed.remove(0);
            proof {
                assert(event == feed0[i as int]);
                assert(feed@ =~= feed0.skip(i + 1int));
                lemma_event_wf_same_universe(state0, engine.state, event);
            }
            let audit = engine.process(event);
            stopped = audit.is_terminal();
            let record = engine.build_audit(audit);
            crate::audit::send_audit(audit_tx, record.clone());
            trail.push(record);
        } else {
            let _ = feed.remove(0);
            proof {
                assert(feed@ =~= feed0.skip(i + 1int));
            }
        }
        i = i + 1;
    }
    if !stopped {
        let record = engine.build_audit(Audit::Shutdown(ShutdownAudit::FeedEnded));
        crate::audit::send_audit(audit_tx, record.clone());
        trail.push(record);
    }
    trail
}

} // verus!
