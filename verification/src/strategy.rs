//! Strategy capability contracts and the default strategy implementations.

use vstd::prelude::*;
use crate::events::{AccountEvent, InstrumentFilter};
use crate::instrument::InstrumentState;
use crate::market::MarketEvent;
use crate::order::{OrderRequestCancel, OrderRequestOpen};
use crate::order_manager::spec_cancel_requests;
use crate::risk::{spec_cancel_requests_wf, spec_open_requests_wf};
use crate::state::{matches_filter, spec_matches_filter, EngineState};
use crate::types::{ClientOrderId, ExchangeIndex};

verus! {

/// The capability contract of an algorithmic strategy: propose cancels and
/// opens from the current state, deterministically, addressing only the
/// state's universe.
pub trait AlgoStrategy: Sized {
    /// The cancels this strategy proposes for a state.
    spec fn spec_algo_cancels(&self, state: EngineState) -> Seq<OrderRequestCancel>;

    /// The opens this strategy proposes for a state.
    spec fn spec_algo_opens(&self, state: EngineState) -> Seq<OrderRequestOpen>;

    /// Propose order requests for one algo pass.
    fn generate_orders(&self, state: &EngineState) -> (r: (
        Vec<OrderRequestCancel>,
        Vec<OrderRequestOpen>,
    ))
        requires
            state.wf(),
        ensures
            r.0@ == self.spec_algo_cancels(*state),
            r.1@ == self.spec_algo_opens(*state),
            spec_cancel_requests_wf(r.0@, *state),
            spec_open_requests_wf(r.1@, *state),
    ;
}

/// The capability contract for closing positions on command: produce the
/// cancels and opens that flatten the filtered instruments.
pub trait ClosePositionsStrategy: Sized {
    /// The cancels this strategy issues for a close-positions command.
    spec fn spec_close_cancels_for(&self, state: EngineState, filter: InstrumentFilter) -> Seq<
        OrderRequestCancel,
    >;

    /// The opens this strategy issues for a close-positions command.
    spec fn spec_close_opens_for(&self, state: EngineState, filter: InstrumentFilter) -> Seq<
        OrderRequestOpen,
    >;

    /// Produce the requests that close the filtered positions.
    fn close_positions_requests(&self, state: &EngineState, filter: &InstrumentFilter) -> (r: (
        Vec<OrderRequestCancel>,
        Vec<OrderRequestOpen>,
    ))
        requires
            state.wf(),
        ensures
            r.0@ == self.spec_close_cancels_for(*state, *filter),
            r.1@ == self.spec_close_opens_for(*state, *filter),
            spec_cancel_requests_wf(r.0@, *state),
            spec_open_requests_wf(r.1@, *state),
    ;
}

/// The capability contract for reacting to a venue's market stream
/// disconnecting. The returned orders are dispatched like an algo pass
/// output but are not risk checked.
pub trait OnDisconnectStrategy: Sized {
    /// The cancels this strategy issues when a venue disconnects.
    spec fn spec_on_disconnect_cancels(&self, state: EngineState, exchange: ExchangeIndex) -> Seq<
        OrderRequestCancel,
    >;

    /// The opens this strategy issues when a venue disconnects.
    spec fn spec_on_disconnect_opens(&self, state: EngineState, exchange: ExchangeIndex) -> Seq<
        OrderRequestOpen,
    >;

    /// Produce the requests issued on a venue disconnect.
    fn on_disconnect(&self, state: &EngineState, exchange: ExchangeIndex) -> (r: (
        Vec<OrderRequestCancel>,
        Vec<OrderRequestOpen>,
    ))
        requires
            state.wf(),
        ensures
            r.0@ == self.spec_on_disconnect_cancels(*state, exchange),
            r.1@ == self.spec_on_disconnect_opens(*state, exchange),
            spec_cancel_requests_wf(r.0@, *state),
            spec_open_requests_wf(r.1@, *state),
    ;
}

/// Client order id used for the closing order of the instrument in a slot:
/// offset from a caller-chosen base, falling back to the slot itself if the
/// base is too large.
pub open spec fn spec_close_cid(base: u64, slot: int) -> ClientOrderId {
    if base + slot <= u64::MAX {
        ClientOrderId { id: (base + slot) as u64 }
    } else {
        ClientOrderId { id: slot as u64 }
    }
}

/// The open request that flattens one instrument's position: the opposite
/// side, the full net quantity, priced at the last observed market price or,
/// before any market data, at the position's average price.
pub open spec fn spec_close_open_for(inst: InstrumentState, base: u64, slot: int) -> OrderRequestOpen {
    OrderRequestOpen {
        exchange: inst.exchange,
        instrument: inst.instrument,
        cid: spec_close_cid(base, slot),
        side: match inst.position.side {
            crate::types::Side::Buy => crate::types::Side::Sell,
            crate::types::Side::Sell => crate::types::Side::Buy,
        },
        price: match inst.market.last_price {
            Some(p) => p,
            None => inst.position.price_average,
        },
        quantity: inst.position.quantity_net,
    }
}

/// The flattening opens for every filtered instrument with exposure, in
/// slot order.
pub open spec fn spec_close_opens(
    instruments: Seq<InstrumentState>,
    filter: InstrumentFilter,
    base: u64,
) -> Seq<OrderRequestOpen>
    decreases instruments.len(),
{
    if instruments.len() == 0 {
        Seq::empty()
    } else {
        let rest = spec_close_opens(instruments.drop_last(), filter, base);
        let last = instruments.last();
        if spec_matches_filter(last, filter) && last.position.quantity_net > 0 {
            rest.push(spec_close_open_for(last, base, instruments.len() - 1))
        } else {
            rest
        }
    }
}

/// The cancel requests for every order resting open on a filtered
/// instrument, in slot order.
pub open spec fn spec_close_cancels(
    instruments: Seq<InstrumentState>,
    filter: InstrumentFilter,
) -> Seq<OrderRequestCancel>
    decreases instruments.len(),
{
    if instruments.len() == 0 {
        Seq::empty()
    } else {
        let rest = spec_close_cancels(instruments.drop_last(), filter);
        let last = instruments.last();
        if spec_matches_filter(last, filter) {
            rest + spec_cancel_requests(last.orders.entries@, last.exchange, last.instrument)
        } else {
            rest
        }
    }
}

/// Build the requests that flatten the filtered instruments: cancel every
/// resting order and close every nonzero position with an opposite-side
/// order.
#[verifier::loop_isolation(false)]
pub fn close_requests_for_filter(
    state: &EngineState,
    filter: &InstrumentFilter,
    cid_base: u64,
) -> (r: (Vec<OrderRequestCancel>, Vec<OrderRequestOpen>))
    requires
        state.wf(),
    ensures
        r.0@ == spec_close_cancels(state.instruments@, *filter),
        r.1@ == spec_close_opens(state.instruments@, *filter, cid_base),
        spec_cancel_requests_wf(r.0@, *state),
        spec_open_requests_wf(r.1@, *state),
{
    let mut cancels: Vec<OrderRequestCancel> = Vec::new();
    let mut opens: Vec<OrderRequestOpen> = Vec::new();
    let n = state.instruments.len();
    let mut i: usize = 0;
    while i < n
        invariant
            i <= n,
            cancels@ == spec_close_cancels(state.instruments@.take(i as int), *filter),
            opens@ == spec_close_opens(state.instruments@.take(i as int), *filter, cid_base),
            spec_cancel_requests_wf(cancels@, *state),
            spec_open_requests_wf(opens@, *state),
        decreases n - i,
    {
        proof {
            assert(state.instruments@.take(i + 1int).drop_last() =~= state.instruments@.take(
                i as int,
            ));
            assert(state.instruments@.take(i + 1int).last() == state.instruments@[i as int]);
        }
        let inst = &state.instruments[i];
        if matches_filter(inst, filter) {
            let mut book_cancels = inst.orders.open_cancel_requests(inst.exchange, inst.instrument);
            let ghost book_cancels0 = book_cancels@;
            proof {
                assert(forall|k: int|
                    0 <= k < book_cancels0.len() ==> {
                        &&& (#[trigger] book_cancels0[k]).instrument == inst.instrument
                        &&& book_cancels0[k].exchange == inst.exchange
                    }) by {
                    lemma_cancel_requests_fields(inst.orders.entries@, inst.exchange, inst.instrument);
                }
            }
            cancels.append(&mut book_cancels);
            if inst.position.quantity_net > 0 {
                let cid = if cid_base <= u64::MAX - (i as u64) {
                    ClientOrderId { id: cid_base + (i as u64) }
                } else {
                    ClientOrderId { id: i as u64 }
                };
                let price = match inst.market.last_price {
                    Some(p) => p,
                    None => inst.position.price_average,
                };
                let req = OrderRequestOpen {
                    exchange: inst.exchange,
                    instrument: inst.instrument,
                    cid,
                    side: inst.position.side.opposite(),
                    price,
                    quantity: inst.position.quantity_net,
                };
                proof {
                    assert(req == spec_close_open_for(state.instruments@[i as int], cid_base, i as int));
                }
                opens.push(req);
            }
        }
        i = i + 1;
    }
    proof {
        assert(state.instruments@.take(n as int) =~= state.instruments@);
    }
    (cancels, opens)
}

/// Build the cancel requests for every order resting open on a filtered
/// instrument.
#[verifier::loop_isolation(false)]
pub fn cancel_requests_for_filter(state: &EngineState, filter: &InstrumentFilter) -> (r: Vec<
    OrderRequestCancel,
>)
    requires
        state.wf(),
    ensures
        r@ == spec_close_cancels(state.instruments@, *filter),
        spec_cancel_requests_wf(r@, *state),
{
    let mut cancels: Vec<OrderRequestCancel> = Vec::new();
    let n = state.instruments.len();
    let mut i: usize = 0;
    while i < n
        invariant
            i <= n,
            cancels@ == spec_close_cancels(state.instruments@.take(i as int), *filter),
            spec_cancel_requests_wf(cancels@, *state),
        decreases n - i,
    {
        proof {
            assert(state.instruments@.take(i + 1int).drop_last() =~= state.instruments@.take(
                i as int,
            ));
            assert(state.instruments@.take(i + 1int).last() == state.instruments@[i as int]);
        }
        let inst = &state.instruments[i];
        if matches_filter(inst, filter) {
            let mut book_cancels = inst.orders.open_cancel_requests(inst.exchange, inst.instrument);
            let ghost book_cancels0 = book_cancels@;
            proof {
                assert(forall|k: int|
                    0 <= k < book_cancels0.len() ==> {
                        &&& (#[trigger] book_cancels0[k]).instrument == inst.instrument
                        &&& book_cancels0[k].exchange == inst.exchange
                    }) by {
                    lemma_cancel_requests_fields(inst.orders.entries@, inst.exchange, inst.instrument);
                }
            }
            cancels.append(&mut book_cancels);
        }
        i = i + 1;
    }
    proof {
        assert(state.instruments@.take(n as int) =~= state.instruments@);
    }
    cancels
}

/// Every cancel request built from a book addresses the book's instrument
/// and venue.
proof fn lemma_cancel_requests_fields(
    entries: Seq<crate::order_manager::OrderEntry>,
    exchange: ExchangeIndex,
    instrument: crate::types::InstrumentIndex,
)
    ensures
        forall|k: int|
            0 <= k < spec_cancel_requests(entries, exchange, instrument).len() ==> {
                &&& (#[trigger] spec_cancel_requests(entries, exchange, instrument)[k]).instrument
                    == instrument
                &&& spec_cancel_requests(entries, exchange, instrument)[k].exchange == exchange
            },
    decreases entries.len(),
{
    if entries.len() > 0 {
        lemma_cancel_requests_fields(entries.drop_last(), exchange, instrument);
    }
}


/// The cancel requests for every order resting open on one venue's
/// instruments, in slot order.
pub open spec fn spec_close_cancels_exchange(
    instruments: Seq<InstrumentState>,
    exchange: ExchangeIndex,
) -> Seq<OrderRequestCancel>
    decreases instruments.len(),
{
    if instruments.len() == 0 {
        Seq::empty()
    } else {
        let rest = spec_close_cancels_exchange(instruments.drop_last(), exchange);
        let last = instruments.last();
        if last.exchange == exchange {
            rest + spec_cancel_requests(last.orders.entries@, last.exchange, last.instrument)
        } else {
            rest
        }
    }
}

/// The flattening opens for every instrument of one venue with exposure, in
/// slot order.
pub open spec fn spec_close_opens_exchange(
    instruments: Seq<InstrumentState>,
    exchange: ExchangeIndex,
    base: u64,
) -> Seq<OrderRequestOpen>
    decreases instruments.len(),
{
    if instruments.len() == 0 {
        Seq::empty()
    } else {
        let rest = spec_close_opens_exchange(instruments.drop_last(), exchange, base);
        let last = instruments.last();
        if last.exchange == exchange && last.position.quantity_net > 0 {
            rest.push(spec_close_open_for(last, base, instruments.len() - 1))
        } else {
            rest
        }
    }
}

/// Build the requests that flatten one venue: cancel its resting orders and
/// close its nonzero positions.
#[verifier::loop_isolation(false)]
pub fn close_requests_for_exchange(
    state: &EngineState,
    exchange: ExchangeIndex,
    cid_base: u64,
) -> (r: (Vec<OrderRequestCancel>, Vec<OrderRequestOpen>))
    requires
        state.wf(),
    ensures
        r.0@ == spec_close_cancels_exchange(state.instruments@, exchange),
        r.1@ == spec_close_opens_exchange(state.instruments@, exchange, cid_base),
        spec_cancel_requests_wf(r.0@, *state),
        spec_open_requests_wf(r.1@, *state),
{
    let mut cancels: Vec<OrderRequestCancel> = Vec::new();
    let mut opens: Vec<OrderRequestOpen> = Vec::new();
    let n = state.instruments.len();
    let mut i: usize = 0;
    while i < n
        invariant
            i <= n,
            cancels@ == spec_close_cancels_exchange(state.instruments@.take(i as int), exchange),
            opens@ == spec_close_opens_exchange(
                state.instruments@.take(i as int),
                exchange,
                cid_base,
            ),
            spec_cancel_requests_wf(cancels@, *state),
            spec_open_requests_wf(opens@, *state),
        decreases n - i,
    {
        proof {
            assert(state.instruments@.take(i + 1int).drop_last() =~= state.instruments@.take(
                i as int,
            ));
            assert(state.instruments@.take(i + 1int).last() == state.instruments@[i as int]);
        }
        let inst = &state.instruments[i];
        if inst.exchange.index == exchange.index {
            let mut book_cancels = inst.orders.open_cancel_requests(inst.exchange, inst.instrument);
            let ghost book_cancels0 = book_cancels@;
            proof {
                assert(forall|k: int|
                    0 <= k < book_cancels0.len() ==> {
                        &&& (#[trigger] book_cancels0[k]).instrument == inst.instrument
                        &&& book_cancels0[k].exchange == inst.exchange
                    }) by {
                    lemma_cancel_requests_fields(inst.orders.entries@, inst.exchange, inst.instrument);
                }
            }
            cancels.append(&mut book_cancels);
            if inst.position.quantity_net > 0 {
                let cid = if cid_base <= u64::MAX - (i as u64) {
                    ClientOrderId { id: cid_base + (i as u64) }
                } else {
                    ClientOrderId { id: i as u64 }
                };
                let price = match inst.market.last_price {
                    Some(p) => p,
                    None => inst.position.price_average,
                };
                let req = OrderRequestOpen {
                    exchange: inst.exchange,
                    instrument: inst.instrument,
                    cid,
                    side: inst.position.side.opposite(),
                    price,
                    quantity: inst.position.quantity_net,
                };
                proof {
                    assert(req == spec_close_open_for(state.instruments@[i as int], cid_base, i as int));
                }
                opens.push(req);
            }
        }
        i = i + 1;
    }
    proof {
        assert(state.instruments@.take(n as int) =~= state.instruments@);
    }
    (cancels, opens)
}

/// A one-element sequence holds exactly its element.
proof fn lemma_singleton_contains<T>(s: Seq<T>, x: T, y: T)
    requires
        s == seq![x],
    ensures
        s.contains(y) <==> y == x,
{
    assert(s.len() == 1 && s[0] == x);
    if s.contains(y) {
        let j = choose|j: int| 0 <= j < s.len() && s[j] == y;
        assert(j == 0);
    }
    if y == x {
        assert(s[0] == y);
    }
}

/// A filter naming exactly one venue selects exactly that venue's close
/// cancels.
pub proof fn lemma_close_cancels_singleton_exchange(
    instruments: Seq<InstrumentState>,
    v: Vec<ExchangeIndex>,
    ex: ExchangeIndex,
)
    requires
        v@ == seq![ex],
    ensures
        spec_close_cancels(instruments, InstrumentFilter::Exchanges(v))
            == spec_close_cancels_exchange(instruments, ex),
    decreases instruments.len(),
{
    if instruments.len() > 0 {
        lemma_close_cancels_singleton_exchange(instruments.drop_last(), v, ex);
        lemma_singleton_contains(v@, ex, instruments.last().exchange);
    }
}

/// A filter naming exactly one venue selects exactly that venue's close
/// opens.
pub proof fn lemma_close_opens_singleton_exchange(
    instruments: Seq<InstrumentState>,
    v: Vec<ExchangeIndex>,
    ex: ExchangeIndex,
    base: u64,
)
    requires
        v@ == seq![ex],
    ensures
        spec_close_opens(instruments, InstrumentFilter::Exchanges(v), base)
            == spec_close_opens_exchange(instruments, ex, base),
    decreases instruments.len(),
{
    if instruments.len() > 0 {
        lemma_close_opens_singleton_exchange(instruments.drop_last(), v, ex, base);
        lemma_singleton_contains(v@, ex, instruments.last().exchange);
    }
}

/// A filter naming exactly one instrument selects exactly that instrument's
/// close cancels.
pub proof fn lemma_close_cancels_singleton_instrument(
    instruments: Seq<InstrumentState>,
    v: Vec<crate::types::InstrumentIndex>,
    instrument: crate::types::InstrumentIndex,
)
    requires
        v@ == seq![instrument],
    ensures
        spec_close_cancels(instruments, InstrumentFilter::Instruments(v))
            == spec_close_cancels_one(instruments, instrument),
    decreases instruments.len(),
{
    if instruments.len() > 0 {
        lemma_close_cancels_singleton_instrument(instruments.drop_last(), v, instrument);
        lemma_singleton_contains(v@, instrument, instruments.last().instrument);
    }
}

/// A filter naming exactly one instrument selects exactly that instrument's
/// close opens.
pub proof fn lemma_close_opens_singleton_instrument(
    instruments: Seq<InstrumentState>,
    v: Vec<crate::types::InstrumentIndex>,
    instrument: crate::types::InstrumentIndex,
    base: u64,
)
    requires
        v@ == seq![instrument],
    ensures
        spec_close_opens(instruments, InstrumentFilter::Instruments(v), base)
            == spec_close_opens_one(instruments, instrument, base),
    decreases instruments.len(),
{
    if instruments.len() > 0 {
        lemma_close_opens_singleton_instrument(instruments.drop_last(), v, instrument, base);
        lemma_singleton_contains(v@, instrument, instruments.last().instrument);
    }
}

/// The default strategy: no algorithmic orders, the standard flattening
/// behaviour for close-positions commands, and flatten-on-disconnect when a
/// venue's market stream drops.
#[derive(Debug, Clone, Copy, PartialEq, Eq, Structural, Hash)]
pub struct DefaultStrategy {
    /// Base for the client order ids of closing orders.
    pub close_cid_base: u64,
}

impl AlgoStrategy for DefaultStrategy {
    open spec fn spec_algo_cancels(&self, state: EngineState) -> Seq<OrderRequestCancel> {
        Seq::empty()
    }

    open spec fn spec_algo_opens(&self, state: EngineState) -> Seq<OrderRequestOpen> {
        Seq::empty()
    }

    fn generate_orders(&self, state: &EngineState) -> (r: (
        Vec<OrderRequestCancel>,
        Vec<OrderRequestOpen>,
    )) {
        (Vec::new(), Vec::new())
    }
}

impl ClosePositionsStrategy for DefaultStrategy {
    open spec fn spec_close_cancels_for(&self, state: EngineState, filter: InstrumentFilter) -> Seq<
        OrderRequestCancel,
    > {
        spec_close_cancels(state.instruments@, filter)
    }

    open spec fn spec_close_opens_for(&self, state: EngineState, filter: InstrumentFilter) -> Seq<
        OrderRequestOpen,
    > {
        spec_close_opens(state.instruments@, filter, self.close_cid_base)
    }

    fn close_positions_requests(&self, state: &EngineState, filter: &InstrumentFilter) -> (r: (
        Vec<OrderRequestCancel>,
        Vec<OrderRequestOpen>,
    )) {
        close_requests_for_filter(state, filter, self.close_cid_base)
    }
}

impl OnDisconnectStrategy for DefaultStrategy {
    open spec fn spec_on_disconnect_cancels(&self, state: EngineState, exchange: ExchangeIndex) -> Seq<
        OrderRequestCancel,
    > {
        spec_close_cancels_exchange(state.instruments@, exchange)
    }

    open spec fn spec_on_disconnect_opens(&self, state: EngineState, exchange: ExchangeIndex) -> Seq<
        OrderRequestOpen,
    > {
        spec_close_opens_exchange(state.instruments@, exchange, self.close_cid_base)
    }

    /// Flatten the disconnected venue: with the market stream gone, resting
    /// orders and exposure there are blind.
    fn on_disconnect(&self, state: &EngineState, exchange: ExchangeIndex) -> (r: (
        Vec<OrderRequestCancel>,
        Vec<OrderRequestOpen>,
    )) {
        close_requests_for_exchange(state, exchange, self.close_cid_base)
    }
}

/// Strategy substate kept inside the engine state. The default strategies
/// need none, so this only counts the events forwarded to it.
#[derive(Debug, Clone, Copy, PartialEq, Eq, Structural, Hash)]
pub struct DefaultStrategyState {
    pub events_processed: u64,
}

impl DefaultStrategyState {
    pub fn new() -> (r: Self)
        ensures
            r.events_processed == 0,
    {
        DefaultStrategyState { events_processed: 0 }
    }

    /// The state after one forwarded event: the counter advances, saturating.
    pub open spec fn spec_bump(self) -> DefaultStrategyState {
        if self.events_processed < u64::MAX {
            DefaultStrategyState { events_processed: (self.events_processed + 1) as u64 }
        } else {
            self
        }
    }

    /// Observe one account event.
    pub fn process_account(&mut self, event: &AccountEvent)
        ensures
            *final(self) == old(self).spec_bump(),
    {
        if self.events_processed < u64::MAX {
            self.events_processed = self.events_processed + 1;
        }
    }

    /// Observe one market event.
    pub fn process_market(&mut self, event: &MarketEvent)
        ensures
            *final(self) == old(self).spec_bump(),
    {
        if self.events_processed < u64::MAX {
            self.events_processed = self.events_processed + 1;
        }
    }
}


/// A strategy configured with explicit order requests: each algo pass
/// proposes exactly the configured requests that address the state's
/// universe (requests outside it are dropped rather than dispatched).
#[derive(Debug, Clone, PartialEq, Eq)]
pub struct FixedOrdersStrategy {
    pub cancels: Vec<OrderRequestCancel>,
    pub opens: Vec<OrderRequestOpen>,
    /// Base for the client order ids of closing orders.
    pub close_cid_base: u64,
}

/// The configured cancels that address the state's universe, in order.
pub open spec fn spec_valid_cancels(reqs: Seq<OrderRequestCancel>, state: EngineState) -> Seq<
    OrderRequestCancel,
>
    decreases reqs.len(),
{
    if reqs.len() == 0 {
        Seq::empty()
    } else {
        let rest = spec_valid_cancels(reqs.drop_last(), state);
        let last = reqs.last();
        if last.instrument.index < state.instruments@.len() && last.exchange.index
            < state.connectivity@.len() {
            rest.push(last)
        } else {
            rest
        }
    }
}

/// The configured opens that are well-formed and address the state's
/// universe, in order.
pub open spec fn spec_valid_opens(reqs: Seq<OrderRequestOpen>, state: EngineState) -> Seq<
    OrderRequestOpen,
>
    decreases reqs.len(),
{
    if reqs.len() == 0 {
        Seq::empty()
    } else {
        let rest = spec_valid_opens(reqs.drop_last(), state);
        let last = reqs.last();
        if last.wf() && last.instrument.index < state.instruments@.len() && last.exchange.index
            < state.connectivity@.len() {
            rest.push(last)
        } else {
            rest
        }
    }
}

impl AlgoStrategy for FixedOrdersStrategy {
    open spec fn spec_algo_cancels(&self, state: EngineState) -> Seq<OrderRequestCancel> {
        spec_valid_cancels(self.cancels@, state)
    }

    open spec fn spec_algo_opens(&self, state: EngineState) -> Seq<OrderRequestOpen> {
        spec_valid_opens(self.opens@, state)
    }

    #[verifier::loop_isolation(false)]
    fn generate_orders(&self, state: &EngineState) -> (r: (
        Vec<OrderRequestCancel>,
        Vec<OrderRequestOpen>,
    )) {
        let mut cancels: Vec<OrderRequestCancel> = Vec::new();
        let nc = self.cancels.len();
        let mut i: usize = 0;
        while i < nc
            invariant
                i <= nc,
                cancels@ == spec_valid_cancels(self.cancels@.take(i as int), *state),
                spec_cancel_requests_wf(cancels@, *state),
            decreases nc - i,
        {
            proof {
                assert(self.cancels@.take(i + 1int).drop_last() =~= self.cancels@.take(i as int));
                assert(self.cancels@.take(i + 1int).last() == self.cancels@[i as int]);
            }
            let req = self.cancels[i];
            if req.instrument.index < state.instruments.len() && req.exchange.index
                < state.connectivity.len() {
                cancels.push(req);
            }
            i = i + 1;
        }
        let mut opens: Vec<OrderRequestOpen> = Vec::new();
        let no = self.opens.len();
        let mut j: usize = 0;
        while j < no
            invariant
                j <= no,
                opens@ == spec_valid_opens(self.opens@.take(j as int), *state),
                spec_open_requests_wf(opens@, *state),
            decreases no - j,
        {
            proof {
                assert(self.opens@.take(j + 1int).drop_last() =~= self.opens@.take(j as int));
                assert(self.opens@.take(j + 1int).last() == self.opens@[j as int]);
            }
            let req = self.opens[j];
            if 0 <= req.price && req.price <= crate::types::AMOUNT_MAX && 0 < req.quantity
                && req.quantity <= crate::types::AMOUNT_MAX
                && req.instrument.index < state.instruments.len() && req.exchange.index
                < state.connectivity.len() {
                opens.push(req);
            }
            j = j + 1;
        }
        proof {
            assert(self.cancels@.take(nc as int) =~= self.cancels@);
            assert(self.opens@.take(no as int) =~= self.opens@);
        }
        (cancels, opens)
    }
}

impl ClosePositionsStrategy for FixedOrdersStrategy {
    open spec fn spec_close_cancels_for(&self, state: EngineState, filter: InstrumentFilter) -> Seq<
        OrderRequestCancel,
    > {
        spec_close_cancels(state.instruments@, filter)
    }

    open spec fn spec_close_opens_for(&self, state: EngineState, filter: InstrumentFilter) -> Seq<
        OrderRequestOpen,
    > {
        spec_close_opens(state.instruments@, filter, self.close_cid_base)
    }

    fn close_positions_requests(&self, state: &EngineState, filter: &InstrumentFilter) -> (r: (
        Vec<OrderRequestCancel>,
        Vec<OrderRequestOpen>,
    )) {
        close_requests_for_filter(state, filter, self.close_cid_base)
    }
}

impl OnDisconnectStrategy for FixedOrdersStrategy {
    open spec fn spec_on_disconnect_cancels(&self, state: EngineState, exchange: ExchangeIndex) -> Seq<
        OrderRequestCancel,
    > {
        Seq::empty()
    }

    open spec fn spec_on_disconnect_opens(&self, state: EngineState, exchange: ExchangeIndex) -> Seq<
        OrderRequestOpen,
    > {
        Seq::empty()
    }

    fn on_disconnect(&self, state: &EngineState, exchange: ExchangeIndex) -> (r: (
        Vec<OrderRequestCancel>,
        Vec<OrderRequestOpen>,
    )) {
        (Vec::new(), Vec::new())
    }
}

/// Determinism probe: a strategy's proposals are a function of the engine
/// state alone, so two algo passes over identical states propose identical
/// orders.
pub proof fn lemma_algo_strategy_deterministic<S: AlgoStrategy>(
    strategy: S,
    a: EngineState,
    b: EngineState,
)
    requires
        a == b,
    ensures
        strategy.spec_algo_cancels(a) == strategy.spec_algo_cancels(b),
        strategy.spec_algo_opens(a) == strategy.spec_algo_opens(b),
{
}


/// The flattening open for one instrument, when it has exposure.
pub open spec fn spec_close_opens_one(
    instruments: Seq<InstrumentState>,
    instrument: crate::types::InstrumentIndex,
    base: u64,
) -> Seq<OrderRequestOpen>
    decreases instruments.len(),
{
    if instruments.len() == 0 {
        Seq::empty()
    } else {
        let rest = spec_close_opens_one(instruments.drop_last(), instrument, base);
        let last = instruments.last();
        if last.instrument == instrument && last.position.quantity_net > 0 {
            rest.push(spec_close_open_for(last, base, instruments.len() - 1))
        } else {
            rest
        }
    }
}

/// The cancel requests for the orders resting open on one instrument.
pub open spec fn spec_close_cancels_one(
    instruments: Seq<InstrumentState>,
    instrument: crate::types::InstrumentIndex,
) -> Seq<OrderRequestCancel>
    decreases instruments.len(),
{
    if instruments.len() == 0 {
        Seq::empty()
    } else {
        let rest = spec_close_cancels_one(instruments.drop_last(), instrument);
        let last = instruments.last();
        if last.instrument == instrument {
            rest + spec_cancel_requests(last.orders.entries@, last.exchange, last.instrument)
        } else {
            rest
        }
    }
}

/// The capability contract for closing one instrument's position.
pub trait ClosePositionStrategy: Sized {
    /// The cancels this strategy issues to close one instrument.
    spec fn spec_close_position_cancels(
        &self,
        state: EngineState,
        instrument: crate::types::InstrumentIndex,
    ) -> Seq<OrderRequestCancel>;

    /// The opens this strategy issues to close one instrument.
    spec fn spec_close_position_opens(
        &self,
        state: EngineState,
        instrument: crate::types::InstrumentIndex,
    ) -> Seq<OrderRequestOpen>;

    /// Produce the requests that close one instrument's position.
    fn close_position_request(
        &self,
        state: &EngineState,
        instrument: crate::types::InstrumentIndex,
    ) -> (r: (Vec<OrderRequestCancel>, Vec<OrderRequestOpen>))
        requires
            state.wf(),
        ensures
            r.0@ == self.spec_close_position_cancels(*state, instrument),
            r.1@ == self.spec_close_position_opens(*state, instrument),
            spec_cancel_requests_wf(r.0@, *state),
            spec_open_requests_wf(r.1@, *state),
    ;
}

impl ClosePositionStrategy for DefaultStrategy {
    open spec fn spec_close_position_cancels(
        &self,
        state: EngineState,
        instrument: crate::types::InstrumentIndex,
    ) -> Seq<OrderRequestCancel> {
        spec_close_cancels_one(state.instruments@, instrument)
    }

    open spec fn spec_close_position_opens(
        &self,
        state: EngineState,
        instrument: crate::types::InstrumentIndex,
    ) -> Seq<OrderRequestOpen> {
        spec_close_opens_one(state.instruments@, instrument, self.close_cid_base)
    }

    #[verifier::loop_isolation(false)]
    fn close_position_request(
        &self,
        state: &EngineState,
        instrument: crate::types::InstrumentIndex,
    ) -> (r: (Vec<OrderRequestCancel>, Vec<OrderRequestOpen>)) {
        let mut cancels: Vec<OrderRequestCancel> = Vec::new();
        let mut opens: Vec<OrderRequestOpen> = Vec::new();
        let n = state.instruments.len();
        let mut i: usize = 0;
        while i < n
            invariant
                i <= n,
                cancels@ == spec_close_cancels_one(
                    state.instruments@.take(i as int),
                    instrument,
                ),
                opens@ == spec_close_opens_one(
                    state.instruments@.take(i as int),
                    instrument,
                    self.close_cid_base,
                ),
                spec_cancel_requests_wf(cancels@, *state),
                spec_open_requests_wf(opens@, *state),
            decreases n - i,
        {
            proof {
                assert(state.instruments@.take(i + 1int).drop_last() =~= state.instruments@.take(
                    i as int,
                ));
                assert(state.instruments@.take(i + 1int).last() == state.instruments@[i as int]);
            }
            let inst = &state.instruments[i];
            if inst.instrument.index == instrument.index {
                let mut book_cancels = inst.orders.open_cancel_requests(
                    inst.exchange,
                    inst.instrument,
                );
                let ghost book_cancels0 = book_cancels@;
                proof {
                    assert(forall|k: int|
                        0 <= k < book_cancels0.len() ==> {
                            &&& (#[trigger] book_cancels0[k]).instrument == inst.instrument
                            &&& book_cancels0[k].exchange == inst.exchange
                        }) by {
                        lemma_cancel_requests_fields(
                            inst.orders.entries@,
                            inst.exchange,
                            inst.instrument,
                        );
                    }
                }
                cancels.append(&mut book_cancels);
                if inst.position.quantity_net > 0 {
                    let cid = if self.close_cid_base <= u64::MAX - (i as u64) {
                        ClientOrderId { id: self.close_cid_base + (i as u64) }
                    } else {
                        ClientOrderId { id: i as u64 }
                    };
                    let price = match inst.market.last_price {
                        Some(p) => p,
                        None => inst.position.price_average,
                    };
                    let req = OrderRequestOpen {
                        exchange: inst.exchange,
                        instrument: inst.instrument,
                        cid,
                        side: inst.position.side.opposite(),
                        price,
                        quantity: inst.position.quantity_net,
                    };
                    proof {
                        assert(req == spec_close_open_for(
                            state.instruments@[i as int],
                            self.close_cid_base,
                            i as int,
                        ));
                    }
                    opens.push(req);
                }
            }
            i = i + 1;
        }
        proof {
            assert(state.instruments@.take(n as int) =~= state.instruments@);
        }
        (cancels, opens)
    }
}

} // verus!
