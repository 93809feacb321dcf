//! The engine's authoritative in-memory world model: the trading toggle,
//! connectivity per venue, balances per asset, per-instrument state, and the
//! strategy and risk substates, together with the pure reducers that mutate
//! it for each kind of input event.

use vstd::prelude::*;
use crate::balance::{AssetBalance, AssetState};
use crate::connectivity::{Connection, ConnectivityState};
use crate::events::{
    AccountEvent, AccountEventKind, AccountStreamEvent, InstrumentAccountSnapshot, InstrumentFilter,
    MarketStreamEvent, TradingState,
};
use crate::instrument::{spec_instrument_like, InstrumentState};
use crate::market::MarketEvent;
use crate::risk::DefaultRiskManagerState;
use crate::strategy::DefaultStrategyState;
use crate::types::{ExchangeIndex, InstrumentIndex};

verus! {

/// The aggregate world state owned by the engine.
#[derive(Debug, Clone, PartialEq, Eq)]
pub struct EngineState {
    pub trading: TradingState,
    pub connectivity: Vec<ConnectivityState>,
    pub assets: Vec<AssetState>,
    pub instruments: Vec<InstrumentState>,
    pub strategy: DefaultStrategyState,
    pub risk: DefaultRiskManagerState,
}

impl EngineState {
    /// Every instrument is well-formed, keyed consistently with its slot,
    /// and belongs to a venue of the universe; every asset is well-formed.
    pub open spec fn wf(self) -> bool {
        &&& forall|i: int|
            0 <= i < self.instruments@.len() ==> {
                &&& (#[trigger] self.instruments@[i]).wf()
                &&& self.instruments@[i].instrument.index == i
                &&& self.instruments@[i].exchange.index < self.connectivity@.len()
            }
        &&& forall|i: int| 0 <= i < self.assets@.len() ==> (#[trigger] self.assets@[i]).wf()
    }

    /// A fresh state over a static universe: one connectivity slot per
    /// venue (both streams healthy), one empty balance per asset, and one
    /// flat instrument per entry of `instrument_exchanges`, which names the
    /// venue of each instrument.
    pub fn new(
        num_exchanges: usize,
        num_assets: usize,
        instrument_exchanges: &Vec<ExchangeIndex>,
        initial_trading: TradingState,
    ) -> (r: EngineState)
        requires
            forall|i: int|
                0 <= i < instrument_exchanges@.len()
                    ==> (#[trigger] instrument_exchanges@[i]).index < num_exchanges,
        ensures
            r.wf(),
            r.trading == initial_trading,
            r.connectivity@.len() == num_exchanges,
            forall|i: int|
                0 <= i < num_exchanges ==> (#[trigger] r.connectivity@[i]) == (ConnectivityState {
                    market_data: Connection::Healthy,
                    account: Connection::Healthy,
                }),
            r.assets@.len() == num_assets,
            forall|i: int|
                0 <= i < num_assets ==> (#[trigger] r.assets@[i]) == (AssetState {
                    balance: crate::balance::Balance { total: 0, free: 0 },
                    sequence: None::<u64>,
                }),
            r.instruments@.len() == instrument_exchanges@.len(),
            forall|i: int|
                0 <= i < instrument_exchanges@.len() ==> {
                    &&& (#[trigger] r.instruments@[i]).instrument.index == i
                    &&& r.instruments@[i].exchange == instrument_exchanges@[i]
                    &&& r.instruments@[i].position == crate::position::Position::spec_new_flat(
                        InstrumentIndex { index: i as usize },
                    )
                    &&& r.instruments@[i].orders.entries@.len() == 0
                },
    {
        let mut connectivity: Vec<ConnectivityState> = Vec::new();
        let mut i: usize = 0;
        while i < num_exchanges
            invariant
                i <= num_exchanges,
                connectivity@.len() == i,
                forall|j: int|
                    0 <= j < i ==> (#[trigger] connectivity@[j]) == (ConnectivityState {
                        market_data: Connection::Healthy,
                        account: Connection::Healthy,
                    }),
            decreases num_exchanges - i,
        {
            connectivity.push(ConnectivityState::new_healthy());
            i = i + 1;
        }
        let mut assets: Vec<AssetState> = Vec::new();
        let mut a: usize = 0;
        while a < num_assets
            invariant
                a <= num_assets,
                assets@.len() == a,
                forall|j: int|
                    0 <= j < a ==> (#[trigger] assets@[j]) == (AssetState {
                        balance: crate::balance::Balance { total: 0, free: 0 },
                        sequence: None::<u64>,
                    }),
            decreases num_assets - a,
        {
            assets.push(AssetState::new_empty());
            a = a + 1;
        }
        let mut instruments: Vec<InstrumentState> = Vec::new();
        let n = instrument_exchanges.len();
        let mut k: usize = 0;
        while k < n
            invariant
                k <= n,
                n == instrument_exchanges@.len(),
                instruments@.len() == k,
                forall|i2: int|
                    0 <= i2 < instrument_exchanges@.len()
                        ==> (#[trigger] instrument_exchanges@[i2]).index < num_exchanges,
                forall|j: int|
                    0 <= j < k ==> {
                        &&& (#[trigger] instruments@[j]).wf()
                        &&& instruments@[j].instrument.index == j
                        &&& instruments@[j].exchange == instrument_exchanges@[j]
                        &&& instruments@[j].exchange.index < num_exchanges
                        &&& instruments@[j].position == crate::position::Position::spec_new_flat(
                            InstrumentIndex { index: j as usize },
                        )
                        &&& instruments@[j].orders.entries@.len() == 0
                    },
            decreases n - k,
        {
            instruments.push(
                InstrumentState::new_flat(
                    InstrumentIndex { index: k },
                    instrument_exchanges[k],
                ),
            );
            k = k + 1;
        }
        EngineState {
            trading: initial_trading,
            connectivity,
            assets,
            instruments,
            strategy: DefaultStrategyState::new(),
            risk: DefaultRiskManagerState::new(),
        }
    }

    /// Runtime check for `wf`, for hosts that build or load a state outside
    /// the verified world; every reducer step preserves well-formedness, so
    /// one check at the boundary suffices.
    #[verifier::loop_isolation(false)]
    pub fn is_well_formed(&self) -> (r: bool)
        ensures
            r == self.wf(),
    {
        let n = self.instruments.len();
        let mut i: usize = 0;
        while i < n
            invariant
                i <= n,
                forall|j: int|
                    0 <= j < i ==> {
                        &&& (#[trigger] self.instruments@[j]).wf()
                        &&& self.instruments@[j].instrument.index == j
                        &&& self.instruments@[j].exchange.index < self.connectivity@.len()
                    },
            decreases n - i,
        {
            let inst = &self.instruments[i];
            if !(inst.is_well_formed() && inst.instrument.index == i && inst.exchange.index
                < self.connectivity.len()) {
                proof {
                    assert(!((self.instruments@[i as int]).wf()
                        && self.instruments@[i as int].instrument.index == i as int
                        && self.instruments@[i as int].exchange.index < self.connectivity@.len()));
                }
                return false;
            }
            i = i + 1;
        }
        let na = self.assets.len();
        let mut a: usize = 0;
        while a < na
            invariant
                a <= na,
                forall|j: int| 0 <= j < a ==> (#[trigger] self.assets@[j]).wf(),
            decreases na - a,
        {
            let asset = &self.assets[a];
            if !(-crate::types::AMOUNT_MAX <= asset.balance.total
                && asset.balance.total <= crate::types::AMOUNT_MAX
                && -crate::types::AMOUNT_MAX <= asset.balance.free
                && asset.balance.free <= crate::types::AMOUNT_MAX) {
                proof {
                    assert(!(self.assets@[a as int]).wf());
                }
                return false;
            }
            a = a + 1;
        }
        true
    }

    /// A value-for-value copy of this state, used for snapshot audits.
    #[verifier::loop_isolation(false)]
    pub fn deep_clone(&self) -> (r: EngineState)
        ensures
            spec_state_like(r, *self),
            self.wf() ==> r.wf(),
    {
        let mut instruments: Vec<InstrumentState> = Vec::new();
        let n = self.instruments.len();
        let mut i: usize = 0;
        while i < n
            invariant
                i <= n,
                instruments@.len() == i,
                forall|j: int|
                    0 <= j < i ==> spec_instrument_like(
                        #[trigger] instruments@[j],
                        self.instruments@[j],
                    ),
            decreases n - i,
        {
            instruments.push(self.instruments[i].deep_clone());
            i = i + 1;
        }
        EngineState {
            trading: self.trading,
            connectivity: crate::types::clone_copy_vec(&self.connectivity),
            assets: crate::types::clone_copy_vec(&self.assets),
            instruments,
            strategy: self.strategy,
            risk: self.risk,
        }
    }

    /// State of one instrument.
    pub fn instrument(&self, key: &InstrumentIndex) -> (r: &InstrumentState)
        requires
            key.index < self.instruments@.len(),
        ensures
            *r == self.instruments@[key.index as int],
    {
        &self.instruments[key.index]
    }

    /// Mutable state of one instrument.
    pub fn instrument_mut(&mut self, key: &InstrumentIndex) -> (r: &mut InstrumentState)
        requires
            key.index < old(self).instruments@.len(),
        ensures
            *r == old(self).instruments@[key.index as int],
            final(self).instruments@ == old(self).instruments@.update(
                key.index as int,
                *final(r),
            ),
            final(self).trading == old(self).trading,
            final(self).connectivity == old(self).connectivity,
            final(self).assets == old(self).assets,
            final(self).strategy == old(self).strategy,
            final(self).risk == old(self).risk,
    {
        vstd::std_specs::vec::vec_index_mut(&mut self.instruments, key.index)
    }
}

/// Equal engine states, with the order books compared entry for entry.
pub open spec fn spec_state_like(a: EngineState, b: EngineState) -> bool {
    &&& a.trading == b.trading
    &&& a.connectivity@ == b.connectivity@
    &&& a.assets@ == b.assets@
    &&& a.strategy == b.strategy
    &&& a.risk == b.risk
    &&& a.instruments@.len() == b.instruments@.len()
    &&& forall|i: int|
        0 <= i < a.instruments@.len() ==> spec_instrument_like(
            #[trigger] a.instruments@[i],
            b.instruments@[i],
        )
}

/// Audit of one trading-state transition: what the toggle was and what it
/// is now.
#[derive(Debug, Clone, Copy, PartialEq, Eq, Structural, Hash)]
pub struct ProcessTradingStateAudit {
    pub prev: TradingState,
    pub current: TradingState,
}

/// Marker audit of one processed account event.
#[derive(Debug, Clone, Copy, PartialEq, Eq, Structural, Hash)]
pub struct ProcessAccountEventAudit;

/// Marker audit of one processed market-data event.
#[derive(Debug, Clone, Copy, PartialEq, Eq, Structural, Hash)]
pub struct ProcessMarketStreamEventAudit;

/// Marker audit of one processed account stream event.
#[derive(Debug, Clone, Copy, PartialEq, Eq, Structural, Hash)]
pub struct ProcessAccountStreamEventAudit;

/// Marker audit of one market stream update.
#[derive(Debug, Clone, Copy, PartialEq, Eq, Structural, Hash)]
pub struct MarketEventUpdaterAudit;

/// What an account stream event did to the state: marked a venue as
/// reconnecting, or was processed as an account event.
#[derive(Debug, Clone, Copy, PartialEq, Eq, Structural, Hash)]
pub enum UpdateFromAccountAudit {
    Reconnecting(ExchangeIndex),
    Process(ProcessAccountEventAudit),
}

/// The connectivity row of one venue with its account stream marked healthy.
pub open spec fn spec_heal_account(conn: Seq<ConnectivityState>, ex: ExchangeIndex) -> Seq<
    ConnectivityState,
> {
    conn.update(
        ex.index as int,
        ConnectivityState { market_data: conn[ex.index as int].market_data, account: Connection::Healthy },
    )
}

/// The connectivity row of one venue with its market stream marked healthy.
pub open spec fn spec_heal_market(conn: Seq<ConnectivityState>, ex: ExchangeIndex) -> Seq<
    ConnectivityState,
> {
    conn.update(
        ex.index as int,
        ConnectivityState { market_data: Connection::Healthy, account: conn[ex.index as int].account },
    )
}

/// Balances after a list of balance snapshots is applied in order; an entry
/// addressing an asset outside the universe is skipped.
pub open spec fn spec_apply_balances(assets: Seq<AssetState>, bs: Seq<AssetBalance>) -> Seq<
    AssetState,
>
    decreases bs.len(),
{
    if bs.len() == 0 {
        assets
    } else {
        let prev = spec_apply_balances(assets, bs.drop_last());
        let b = bs.last();
        if b.asset.index < prev.len() {
            prev.update(b.asset.index as int, prev[b.asset.index as int].spec_update_from_balance(b))
        } else {
            prev
        }
    }
}

/// Applying balance snapshots never changes how many assets there are.
proof fn lemma_apply_balances_len(assets: Seq<AssetState>, bs: Seq<AssetBalance>)
    ensures
        spec_apply_balances(assets, bs).len() == assets.len(),
    decreases bs.len(),
{
    if bs.len() > 0 {
        lemma_apply_balances_len(assets, bs.drop_last());
    }
}

/// Applying well-formed balance snapshots keeps every asset well-formed.
proof fn lemma_apply_balances_wf(assets: Seq<AssetState>, bs: Seq<AssetBalance>)
    requires
        forall|i: int| 0 <= i < assets.len() ==> (#[trigger] assets[i]).wf(),
        forall|k: int| 0 <= k < bs.len() ==> (#[trigger] bs[k]).wf(),
    ensures
        forall|i: int|
            0 <= i < spec_apply_balances(assets, bs).len()
                ==> (#[trigger] spec_apply_balances(assets, bs)[i]).wf(),
    decreases bs.len(),
{
    if bs.len() > 0 {
        assert(forall|k: int|
            0 <= k < bs.drop_last().len() ==> (#[trigger] bs.drop_last()[k]).wf());
        lemma_apply_balances_wf(assets, bs.drop_last());
        assert(bs[bs.len() - 1].wf());
        let prev = spec_apply_balances(assets, bs.drop_last());
        let b = bs.last();
        if b.asset.index < prev.len() {
            let updated = prev.update(
                b.asset.index as int,
                prev[b.asset.index as int].spec_update_from_balance(b),
            );
            assert(forall|i: int| 0 <= i < updated.len() ==> (#[trigger] updated[i]).wf());
        }
    }
}

/// Instruments after a list of position snapshots is applied in order; an
/// entry addressing an instrument outside the universe, or keyed
/// inconsistently, is skipped.
pub open spec fn spec_apply_position_snapshots(
    instruments: Seq<InstrumentState>,
    ss: Seq<InstrumentAccountSnapshot>,
) -> Seq<InstrumentState>
    decreases ss.len(),
{
    if ss.len() == 0 {
        instruments
    } else {
        let prev = spec_apply_position_snapshots(instruments, ss.drop_last());
        let s = ss.last();
        if s.instrument.index < prev.len() {
            prev.update(
                s.instrument.index as int,
                prev[s.instrument.index as int].spec_update_from_position_snapshot(s),
            )
        } else {
            prev
        }
    }
}

/// Applying position snapshots never changes how many instruments there are.
proof fn lemma_apply_position_snapshots_len(
    instruments: Seq<InstrumentState>,
    ss: Seq<InstrumentAccountSnapshot>,
)
    ensures
        spec_apply_position_snapshots(instruments, ss).len() == instruments.len(),
    decreases ss.len(),
{
    if ss.len() > 0 {
        lemma_apply_position_snapshots_len(instruments, ss.drop_last());
    }
}

impl EngineState {
    /// Whether an account event addresses only venues, assets and
    /// instruments of this state's universe, with well-formed payloads and
    /// consistent keys. Events outside the universe are the caller's error;
    /// the reducer's contract excludes them.
    pub open spec fn spec_account_event_wf(self, event: AccountEvent) -> bool {
        &&& event.exchange.index < self.connectivity@.len()
        &&& match event.kind {
            AccountEventKind::Snapshot(s) => {
                &&& forall|k: int|
                    0 <= k < s.balances@.len() ==> {
                        &&& (#[trigger] s.balances@[k]).wf()
                        &&& s.balances@[k].asset.index < self.assets@.len()
                    }
                &&& forall|k: int|
                    0 <= k < s.instruments@.len() ==> {
                        &&& (#[trigger] s.instruments@[k]).instrument.index
                            < self.instruments@.len()
                        &&& s.instruments@[k].position.position.wf()
                        &&& s.instruments@[k].position.position.instrument
                            == s.instruments@[k].instrument
                    }
            },
            AccountEventKind::BalanceSnapshot(b) => {
                &&& b.wf()
                &&& b.asset.index < self.assets@.len()
            },
            AccountEventKind::PositionSnapshot(p) => {
                &&& p.instrument.index < self.instruments@.len()
                &&& p.position.position.wf()
                &&& p.position.position.instrument == p.instrument
            },
            AccountEventKind::OrderSnapshot(o) => {
                &&& o.wf()
                &&& o.instrument.index < self.instruments@.len()
            },
            AccountEventKind::OrderOpened(r) => {
                &&& r.wf()
                &&& r.instrument.index < self.instruments@.len()
            },
            AccountEventKind::OrderCancelled(r) => r.instrument.index < self.instruments@.len(),
            AccountEventKind::Trade(t) => {
                &&& t.wf()
                &&& t.instrument.index < self.instruments@.len()
            },
        }
    }

    /// Runtime check for `spec_account_event_wf`, for callers that receive
    /// events from outside the verified world.
    #[verifier::loop_isolation(false)]
    pub fn account_event_in_universe(&self, event: &AccountEvent) -> (r: bool)
        ensures
            r == self.spec_account_event_wf(*event),
    {
        if event.exchange.index >= self.connectivity.len() {
            return false;
        }
        match &event.kind {
            AccountEventKind::Snapshot(s) => {
                let nb = s.balances.len();
                let mut k: usize = 0;
                while k < nb
                    invariant
                        k <= nb,
                        nb == s.balances@.len(),
                        forall|j: int|
                            0 <= j < k ==> {
                                &&& (#[trigger] s.balances@[j]).wf()
                                &&& s.balances@[j].asset.index < self.assets@.len()
                            },
                    decreases nb - k,
                {
                    let b = s.balances[k];
                    if !(b.asset.index < self.assets.len()
                        && -crate::types::AMOUNT_MAX <= b.balance.total
                        && b.balance.total <= crate::types::AMOUNT_MAX
                        && -crate::types::AMOUNT_MAX <= b.balance.free
                        && b.balance.free <= crate::types::AMOUNT_MAX) {
                        proof {
                            assert(!((s.balances@[k as int]).wf() && s.balances@[k as int].asset.index
                                < self.assets@.len()));
                        }
                        return false;
                    }
                    k = k + 1;
                }
                let ni = s.instruments.len();
                let mut k2: usize = 0;
                while k2 < ni
                    invariant
                        k2 <= ni,
                        ni == s.instruments@.len(),
                        forall|j: int|
                            0 <= j < k2 ==> {
                                &&& (#[trigger] s.instruments@[j]).instrument.index
                                    < self.instruments@.len()
                                &&& s.instruments@[j].position.position.wf()
                                &&& s.instruments@[j].position.position.instrument
                                    == s.instruments@[j].instrument
                            },
                    decreases ni - k2,
                {
                    let isnap = s.instruments[k2];
                    if !(isnap.instrument.index < self.instruments.len()
                        && position_wf_exec(&isnap.position.position)
                        && isnap.position.position.instrument.index == isnap.instrument.index) {
                        proof {
                            assert(!((s.instruments@[k2 as int]).instrument.index
                                < self.instruments@.len()
                                && s.instruments@[k2 as int].position.position.wf()
                                && s.instruments@[k2 as int].position.position.instrument
                                == s.instruments@[k2 as int].instrument));
                        }
                        return false;
                    }
                    k2 = k2 + 1;
                }
                true
            },
            AccountEventKind::BalanceSnapshot(b) => {
                b.asset.index < self.assets.len() && -crate::types::AMOUNT_MAX <= b.balance.total
                    && b.balance.total <= crate::types::AMOUNT_MAX
                    && -crate::types::AMOUNT_MAX <= b.balance.free
                    && b.balance.free <= crate::types::AMOUNT_MAX
            },
            AccountEventKind::PositionSnapshot(p) => {
                p.instrument.index < self.instruments.len() && position_wf_exec(&p.position.position)
                    && p.position.position.instrument.index == p.instrument.index
            },
            AccountEventKind::OrderSnapshot(o) => {
                o.instrument.index < self.instruments.len() && order_snapshot_wf_exec(o)
            },
            AccountEventKind::OrderOpened(r) => {
                r.instrument.index < self.instruments.len() && (match &r.result {
                    Ok(ack) => 0 <= ack.price && ack.price <= crate::types::AMOUNT_MAX && 0
                        < ack.quantity && ack.quantity <= crate::types::AMOUNT_MAX,
                    Err(_) => true,
                })
            },
            AccountEventKind::OrderCancelled(r) => r.instrument.index < self.instruments.len(),
            AccountEventKind::Trade(t) => {
                t.instrument.index < self.instruments.len() && 0 <= t.price
                    && t.price <= crate::types::AMOUNT_MAX && 0 < t.quantity
                    && t.quantity <= crate::types::AMOUNT_MAX && 0 <= t.fees
                    && t.fees <= crate::types::AMOUNT_MAX
            },
        }
    }
}

/// Applying position snapshots keeps every instrument well-formed and keyed
/// as before.
proof fn lemma_apply_position_snapshots_wf(
    instruments: Seq<InstrumentState>,
    ss: Seq<InstrumentAccountSnapshot>,
)
    requires
        forall|i: int|
            0 <= i < instruments.len() ==> {
                &&& (#[trigger] instruments[i]).wf()
                &&& instruments[i].instrument.index == i
            },
        forall|k: int|
            0 <= k < ss.len() ==> {
                &&& (#[trigger] ss[k]).position.position.wf()
                &&& ss[k].position.position.instrument == ss[k].instrument
            },
    ensures
        forall|i: int|
            0 <= i < spec_apply_position_snapshots(instruments, ss).len() ==> {
                &&& (#[trigger] spec_apply_position_snapshots(instruments, ss)[i]).wf()
                &&& spec_apply_position_snapshots(instruments, ss)[i].instrument
                    == instruments[i].instrument
                &&& spec_apply_position_snapshots(instruments, ss)[i].exchange
                    == instruments[i].exchange
            },
    decreases ss.len(),
{
    lemma_apply_position_snapshots_len(instruments, ss);
    if ss.len() > 0 {
        assert(forall|k: int|
            0 <= k < ss.drop_last().len() ==> {
                &&& (#[trigger] ss.drop_last()[k]).position.position.wf()
                &&& ss.drop_last()[k].position.position.instrument == ss.drop_last()[k].instrument
            });
        lemma_apply_position_snapshots_wf(instruments, ss.drop_last());
        lemma_apply_position_snapshots_len(instruments, ss.drop_last());
        assert(ss[ss.len() - 1].position.position.wf());
        let prev = spec_apply_position_snapshots(instruments, ss.drop_last());
        let s = ss.last();
        if s.instrument.index < prev.len() {
            let i = s.instrument.index as int;
            assert(prev[i].instrument == instruments[i].instrument);
            assert(instruments[i].instrument.index == i && s.instrument.index == i);
            assert(prev[i].instrument == s.instrument);
            let updated = prev.update(i, prev[i].spec_update_from_position_snapshot(s));
            assert(forall|j: int|
                0 <= j < updated.len() ==> {
                    &&& (#[trigger] updated[j]).wf()
                    &&& updated[j].instrument == instruments[j].instrument
                    &&& updated[j].exchange == instruments[j].exchange
                });
        }
    }
}

/// Instruments equal except that the order book of slot `i` changed; its
/// own non-book fields are untouched too.
pub open spec fn spec_only_book_changed(
    pre: Seq<InstrumentState>,
    post: Seq<InstrumentState>,
    i: int,
) -> bool {
    &&& post.len() == pre.len()
    &&& forall|j: int| 0 <= j < pre.len() && j != i ==> post[j] == pre[j]
    &&& post[i].instrument == pre[i].instrument
    &&& post[i].exchange == pre[i].exchange
    &&& post[i].market == pre[i].market
    &&& post[i].position == pre[i].position
    &&& post[i].position_sequence == pre[i].position_sequence
}

/// How one account event transforms the state: the venue's account
/// connectivity heals (an item proves the stream lives), the addressed
/// slice of state absorbs the event's payload, the event is forwarded to
/// the strategy and risk substates, and nothing else moves.
pub open spec fn spec_account_event_relation(
    pre: EngineState,
    post: EngineState,
    event: AccountEvent,
) -> bool {
    &&& post.trading == pre.trading
    &&& post.connectivity@ == spec_heal_account(pre.connectivity@, event.exchange)
    &&& post.connectivity@[event.exchange.index as int].account == Connection::Healthy
    &&& post.assets@.len() == pre.assets@.len()
    &&& post.instruments@.len() == pre.instruments@.len()
    &&& post.strategy == pre.strategy.spec_bump()
    &&& post.risk == pre.risk.spec_bump()
    &&& match event.kind {
        AccountEventKind::Snapshot(s) => {
            &&& post.assets@ == spec_apply_balances(pre.assets@, s.balances@)
            &&& post.instruments@ == spec_apply_position_snapshots(pre.instruments@, s.instruments@)
        },
        AccountEventKind::BalanceSnapshot(b) => {
            &&& post.assets@ == pre.assets@.update(
                b.asset.index as int,
                pre.assets@[b.asset.index as int].spec_update_from_balance(b),
            )
            &&& post.instruments@ == pre.instruments@
        },
        AccountEventKind::PositionSnapshot(p) => {
            &&& post.assets@ == pre.assets@
            &&& post.instruments@ == pre.instruments@.update(
                p.instrument.index as int,
                pre.instruments@[p.instrument.index as int].spec_update_from_position_snapshot(p),
            )
        },
        AccountEventKind::OrderSnapshot(o) => {
            &&& post.assets@ == pre.assets@
            &&& spec_only_book_changed(pre.instruments@, post.instruments@, o.instrument.index as int)
            &&& post.instruments@[o.instrument.index as int].orders.view_map()
                == crate::order_manager::spec_update_from_order_snapshot(
                pre.instruments@[o.instrument.index as int].orders.view_map(),
                o,
            )
        },
        AccountEventKind::OrderOpened(r) => {
            &&& post.assets@ == pre.assets@
            &&& spec_only_book_changed(pre.instruments@, post.instruments@, r.instrument.index as int)
            &&& post.instruments@[r.instrument.index as int].orders.view_map()
                == crate::order_manager::spec_update_from_open(
                pre.instruments@[r.instrument.index as int].orders.view_map(),
                r,
            )
        },
        AccountEventKind::OrderCancelled(r) => {
            &&& post.assets@ == pre.assets@
            &&& spec_only_book_changed(pre.instruments@, post.instruments@, r.instrument.index as int)
            &&& post.instruments@[r.instrument.index as int].orders.view_map()
                == crate::order_manager::spec_update_from_cancel(
                pre.instruments@[r.instrument.index as int].orders.view_map(),
                r,
            )
        },
        AccountEventKind::Trade(t) => {
            &&& post.assets@ == pre.assets@
            &&& forall|j: int|
                0 <= j < pre.instruments@.len() && j != t.instrument.index
                    ==> post.instruments@[j] == pre.instruments@[j]
            &&& InstrumentState::spec_trade_relation(
                pre.instruments@[t.instrument.index as int],
                post.instruments@[t.instrument.index as int],
                t,
            )
        },
    }
}

/// How one account stream event transforms the state: a reconnection notice
/// only marks the venue's account stream as reconnecting; an item is
/// absorbed as an account event.
pub open spec fn spec_account_stream_relation(
    pre: EngineState,
    post: EngineState,
    event: AccountStreamEvent,
) -> bool {
    match event {
        AccountStreamEvent::Reconnecting(ex) => {
            &&& post == (EngineState { connectivity: post.connectivity, ..pre })
            &&& post.connectivity@ == pre.connectivity@.update(
                ex.index as int,
                ConnectivityState {
                    market_data: pre.connectivity@[ex.index as int].market_data,
                    account: Connection::Reconnecting,
                },
            )
        },
        AccountStreamEvent::Item(e) => spec_account_event_relation(pre, post, e),
    }
}

/// How one market-data event transforms the state: the venue's market
/// connectivity heals, the instrument's market substate records the price,
/// the event is forwarded to the strategy and risk substates, and nothing
/// else moves.
pub open spec fn spec_market_item_relation(
    pre: EngineState,
    post: EngineState,
    event: MarketEvent,
) -> bool {
    &&& post.trading == pre.trading
    &&& post.connectivity@ == spec_heal_market(pre.connectivity@, event.exchange)
    &&& post.connectivity@[event.exchange.index as int].market_data == Connection::Healthy
    &&& post.assets@ == pre.assets@
    &&& post.instruments@ == pre.instruments@.update(
        event.instrument.index as int,
        InstrumentState {
            market: pre.instruments@[event.instrument.index as int].market.spec_process(event),
            ..pre.instruments@[event.instrument.index as int]
        },
    )
    &&& post.strategy == pre.strategy.spec_bump()
    &&& post.risk == pre.risk.spec_bump()
}

/// How one market stream event transforms the state: a reconnection notice
/// only marks the venue's market stream as reconnecting; an item is
/// absorbed as a market event.
pub open spec fn spec_market_stream_relation(
    pre: EngineState,
    post: EngineState,
    event: MarketStreamEvent,
) -> bool {
    match event {
        MarketStreamEvent::Reconnecting(ex) => {
            &&& post == (EngineState { connectivity: post.connectivity, ..pre })
            &&& post.connectivity@ == pre.connectivity@.update(
                ex.index as int,
                ConnectivityState {
                    market_data: Connection::Reconnecting,
                    account: pre.connectivity@[ex.index as int].account,
                },
            )
        },
        MarketStreamEvent::Item(e) => spec_market_item_relation(pre, post, e),
    }
}

impl EngineState {
    /// Process one account event: heal the venue's account connectivity
    /// (observing an item proves the stream lives), apply the event's payload
    /// to the addressed slice of state, and forward the event to the strategy
    /// and risk substates.
    #[verifier::loop_isolation(false)]
    pub fn process_account(&mut self, event: &AccountEvent) -> (audit: ProcessAccountEventAudit)
        requires
            old(self).wf(),
            old(self).spec_account_event_wf(*event),
        ensures
            final(self).wf(),
            spec_account_event_relation(*old(self), *final(self), *event),
    {
        let ex = event.exchange;
        let conn = vstd::std_specs::vec::vec_index_mut(&mut self.connectivity, ex.index);
        conn.account = Connection::Healthy;
        match &event.kind {
            AccountEventKind::Snapshot(s) => {
                let nb = s.balances.len();
                let mut k: usize = 0;
                while k < nb
                    invariant
                        k <= nb,
                        self.assets@.len() == old(self).assets@.len(),
                        self.assets@ == spec_apply_balances(
                            old(self).assets@,
                            s.balances@.take(k as int),
                        ),
                        self.trading == old(self).trading,
                        self.connectivity@ == spec_heal_account(old(self).connectivity@, ex),
                        self.instruments@ == old(self).instruments@,
                        self.strategy == old(self).strategy,
                        self.risk == old(self).risk,
                    decreases nb - k,
                {
                    let b = s.balances[k];
                    proof {
                        lemma_apply_balances_len(old(self).assets@, s.balances@.take(k as int));
                        assert(s.balances@.take(k + 1int).drop_last() =~= s.balances@.take(
                            k as int,
                        ));
                        assert(s.balances@.take(k + 1int).last() == s.balances@[k as int]);
                    }
                    let a = vstd::std_specs::vec::vec_index_mut(&mut self.assets, b.asset.index);
                    a.update_from_balance(&b);
                    k = k + 1;
                }
                proof {
                    assert(s.balances@.take(nb as int) =~= s.balances@);
                }
                let ni = s.instruments.len();
                let mut k2: usize = 0;
                while k2 < ni
                    invariant
                        k2 <= ni,
                        self.instruments@.len() == old(self).instruments@.len(),
                        self.instruments@ == spec_apply_position_snapshots(
                            old(self).instruments@,
                            s.instruments@.take(k2 as int),
                        ),
                        self.trading == old(self).trading,
                        self.connectivity@ == spec_heal_account(old(self).connectivity@, ex),
                        self.assets@ == spec_apply_balances(old(self).assets@, s.balances@),
                        self.strategy == old(self).strategy,
                        self.risk == old(self).risk,
                        forall|j: int|
                            0 <= j < self.instruments@.len() ==> {
                                &&& (#[trigger] self.instruments@[j]).wf()
                                &&& self.instruments@[j].instrument
                                    == old(self).instruments@[j].instrument
                            },
                    decreases ni - k2,
                {
                    let isnap = s.instruments[k2];
                    proof {
                        lemma_apply_position_snapshots_len(
                            old(self).instruments@,
                            s.instruments@.take(k2 as int),
                        );
                        assert(s.instruments@.take(k2 + 1int).drop_last() =~= s.instruments@.take(
                            k2 as int,
                        ));
                        assert(s.instruments@.take(k2 + 1int).last() == s.instruments@[k2 as int]);
                        assert(forall|m: int|
                            0 <= m < s.instruments@.take(k2 as int).len() ==> {
                                &&& (#[trigger] s.instruments@.take(k2 as int)[m]).position.position.wf()
                                &&& s.instruments@.take(k2 as int)[m].position.position.instrument
                                    == s.instruments@.take(k2 as int)[m].instrument
                            });
                        lemma_apply_position_snapshots_wf(
                            old(self).instruments@,
                            s.instruments@.take(k2 as int),
                        );
                    }
                    let inst = vstd::std_specs::vec::vec_index_mut(
                        &mut self.instruments,
                        isnap.instrument.index,
                    );
                    inst.update_from_position_snapshot(&isnap);
                    k2 = k2 + 1;
                }
                proof {
                    assert(s.instruments@.take(ni as int) =~= s.instruments@);
                    assert(forall|m: int|
                        0 <= m < s.instruments@.len() ==> {
                            &&& (#[trigger] s.instruments@[m]).position.position.wf()
                            &&& s.instruments@[m].position.position.instrument
                                == s.instruments@[m].instrument
                        });
                    lemma_apply_position_snapshots_wf(old(self).instruments@, s.instruments@);
                    lemma_apply_balances_wf(old(self).assets@, s.balances@);
                }
            },
            AccountEventKind::BalanceSnapshot(b) => {
                let a = vstd::std_specs::vec::vec_index_mut(&mut self.assets, b.asset.index);
                a.update_from_balance(b);
            },
            AccountEventKind::PositionSnapshot(p) => {
                let inst = vstd::std_specs::vec::vec_index_mut(
                    &mut self.instruments,
                    p.instrument.index,
                );
                inst.update_from_position_snapshot(p);
            },
            AccountEventKind::OrderSnapshot(o) => {
                let inst = vstd::std_specs::vec::vec_index_mut(
                    &mut self.instruments,
                    o.instrument.index,
                );
                inst.orders.update_from_order_snapshot(o);
            },
            AccountEventKind::OrderOpened(r) => {
                let inst = vstd::std_specs::vec::vec_index_mut(
                    &mut self.instruments,
                    r.instrument.index,
                );
                inst.orders.update_from_open(r);
            },
            AccountEventKind::OrderCancelled(r) => {
                let inst = vstd::std_specs::vec::vec_index_mut(
                    &mut self.instruments,
                    r.instrument.index,
                );
                inst.orders.update_from_cancel(r);
            },
            AccountEventKind::Trade(t) => {
                let inst = vstd::std_specs::vec::vec_index_mut(
                    &mut self.instruments,
                    t.instrument.index,
                );
                inst.update_from_trade(t);
            },
        }
        self.strategy.process_account(event);
        self.risk.process_account(event);
        ProcessAccountEventAudit
    }
}

impl EngineState {
    /// Whether a market event addresses a venue and an instrument of this
    /// state's universe with a well-formed payload.
    pub open spec fn spec_market_event_wf(self, event: MarketEvent) -> bool {
        &&& event.exchange.index < self.connectivity@.len()
        &&& event.instrument.index < self.instruments@.len()
        &&& event.wf()
    }

    /// Runtime check for `spec_market_event_wf`.
    pub fn market_event_in_universe(&self, event: &MarketEvent) -> (r: bool)
        ensures
            r == self.spec_market_event_wf(*event),
    {
        event.exchange.index < self.connectivity.len()
            && event.instrument.index < self.instruments.len() && (match event.kind {
            crate::market::MarketEventKind::PublicTrade { price, amount } => 0 <= price
                && price <= crate::types::AMOUNT_MAX && 0 <= amount
                && amount <= crate::types::AMOUNT_MAX,
            crate::market::MarketEventKind::BookUpdate { mid } => 0 <= mid
                && mid <= crate::types::AMOUNT_MAX,
        })
    }

    /// Process one market-data event: heal the venue's market connectivity,
    /// record the price in the instrument's market substate, and forward the
    /// event to the strategy and risk substates.
    pub fn process_market(&mut self, event: &MarketEvent) -> (audit: ProcessMarketStreamEventAudit)
        requires
            old(self).wf(),
            old(self).spec_market_event_wf(*event),
        ensures
            final(self).wf(),
            spec_market_item_relation(*old(self), *final(self), *event),
    {
        let conn = vstd::std_specs::vec::vec_index_mut(
            &mut self.connectivity,
            event.exchange.index,
        );
        conn.market_data = Connection::Healthy;
        let inst = vstd::std_specs::vec::vec_index_mut(
            &mut self.instruments,
            event.instrument.index,
        );
        inst.market.process(event);
        self.strategy.process_market(event);
        self.risk.process_market(event);
        ProcessMarketStreamEventAudit
    }

    /// Whether an account stream event is addressed within this universe.
    pub open spec fn spec_account_stream_event_wf(self, event: AccountStreamEvent) -> bool {
        match event {
            AccountStreamEvent::Reconnecting(ex) => ex.index < self.connectivity@.len(),
            AccountStreamEvent::Item(e) => self.spec_account_event_wf(e),
        }
    }

    /// Whether a market stream event is addressed within this universe.
    pub open spec fn spec_market_stream_event_wf(self, event: MarketStreamEvent) -> bool {
        match event {
            MarketStreamEvent::Reconnecting(ex) => ex.index < self.connectivity@.len(),
            MarketStreamEvent::Item(e) => self.spec_market_event_wf(e),
        }
    }

    /// Apply an account stream event: a reconnection notice marks the
    /// venue's account stream as reconnecting and changes nothing else; an
    /// item is processed as an account event, which in particular heals the
    /// venue's account connectivity.
    pub fn update_from_account(&mut self, event: &AccountStreamEvent) -> (audit:
        UpdateFromAccountAudit)
        requires
            old(self).wf(),
            old(self).spec_account_stream_event_wf(*event),
        ensures
            final(self).wf(),
            final(self).trading == old(self).trading,
            final(self).connectivity@.len() == old(self).connectivity@.len(),
            final(self).assets@.len() == old(self).assets@.len(),
            final(self).instruments@.len() == old(self).instruments@.len(),
            spec_account_stream_relation(*old(self), *final(self), *event),
            audit == (match *event {
                AccountStreamEvent::Reconnecting(ex) => UpdateFromAccountAudit::Reconnecting(ex),
                AccountStreamEvent::Item(_) => UpdateFromAccountAudit::Process(
                    ProcessAccountEventAudit,
                ),
            }),
    {
        match event {
            AccountStreamEvent::Reconnecting(ex) => {
                let conn = vstd::std_specs::vec::vec_index_mut(&mut self.connectivity, ex.index);
                conn.account = Connection::Reconnecting;
                UpdateFromAccountAudit::Reconnecting(*ex)
            },
            AccountStreamEvent::Item(e) => {
                let audit = self.process_account(e);
                UpdateFromAccountAudit::Process(audit)
            },
        }
    }

    /// Apply a market stream event: a reconnection notice marks the venue's
    /// market stream as reconnecting and changes nothing else; an item is
    /// processed as a market event, which heals the venue's market
    /// connectivity.
    pub fn update_from_market(&mut self, event: &MarketStreamEvent) -> (audit:
        MarketEventUpdaterAudit)
        requires
            old(self).wf(),
            old(self).spec_market_stream_event_wf(*event),
        ensures
            final(self).wf(),
            final(self).trading == old(self).trading,
            final(self).connectivity@.len() == old(self).connectivity@.len(),
            final(self).assets@.len() == old(self).assets@.len(),
            final(self).instruments@.len() == old(self).instruments@.len(),
            spec_market_stream_relation(*old(self), *final(self), *event),
    {
        match event {
            MarketStreamEvent::Reconnecting(ex) => {
                let conn = vstd::std_specs::vec::vec_index_mut(&mut self.connectivity, ex.index);
                conn.market_data = Connection::Reconnecting;
                MarketEventUpdaterAudit
            },
            MarketStreamEvent::Item(e) => {
                let _ = self.process_market(e);
                MarketEventUpdaterAudit
            },
        }
    }
}

/// Marker audit of recording dispatched requests as in flight.
#[derive(Debug, Clone, Copy, PartialEq, Eq, Structural, Hash)]
pub struct OrdersInFlightRecorderAudit;

/// Whether an instrument belongs to the selection of a filter.
pub open spec fn spec_matches_filter(inst: InstrumentState, filter: InstrumentFilter) -> bool {
    match filter {
        InstrumentFilter::All => true,
        InstrumentFilter::Exchanges(v) => v@.contains(inst.exchange),
        InstrumentFilter::Instruments(v) => v@.contains(inst.instrument),
    }
}

/// The slots of the instruments matching a filter, in slot order.
pub open spec fn spec_filtered_indexes(
    instruments: Seq<InstrumentState>,
    filter: InstrumentFilter,
) -> Seq<usize>
    decreases instruments.len(),
{
    if instruments.len() == 0 {
        Seq::empty()
    } else {
        let rest = spec_filtered_indexes(instruments.drop_last(), filter);
        if spec_matches_filter(instruments.last(), filter) {
            rest.push((instruments.len() - 1) as usize)
        } else {
            rest
        }
    }
}

/// Whether a vector of venue keys holds one.
fn contains_exchange(v: &Vec<ExchangeIndex>, x: ExchangeIndex) -> (r: bool)
    ensures
        r == v@.contains(x),
{
    let n = v.len();
    let mut i: usize = 0;
    while i < n
        invariant
            i <= n,
            n == v@.len(),
            forall|j: int| 0 <= j < i ==> v@[j] != x,
        decreases n - i,
    {
        if v[i].index == x.index {
            assert(v@[i as int] == x);
            return true;
        }
        i = i + 1;
    }
    false
}

/// Whether a vector of instrument keys holds one.
fn contains_instrument(v: &Vec<InstrumentIndex>, x: InstrumentIndex) -> (r: bool)
    ensures
        r == v@.contains(x),
{
    let n = v.len();
    let mut i: usize = 0;
    while i < n
        invariant
            i <= n,
            n == v@.len(),
            forall|j: int| 0 <= j < i ==> v@[j] != x,
        decreases n - i,
    {
        if v[i].index == x.index {
            assert(v@[i as int] == x);
            return true;
        }
        i = i + 1;
    }
    false
}

/// Whether an instrument belongs to a filter's selection.
pub fn matches_filter(inst: &InstrumentState, filter: &InstrumentFilter) -> (r: bool)
    ensures
        r == spec_matches_filter(*inst, *filter),
{
    match filter {
        InstrumentFilter::All => true,
        InstrumentFilter::Exchanges(v) => contains_exchange(v, inst.exchange),
        InstrumentFilter::Instruments(v) => contains_instrument(v, inst.instrument),
    }
}

impl EngineState {
    /// The slots of the instruments a filter selects.
    #[verifier::loop_isolation(false)]
    pub fn instruments(&self, filter: &InstrumentFilter) -> (r: Vec<usize>)
        ensures
            r@ == spec_filtered_indexes(self.instruments@, *filter),
            forall|k: int| 0 <= k < r@.len() ==> (#[trigger] r@[k]) < self.instruments@.len(),
    {
        let mut r: Vec<usize> = Vec::new();
        let n = self.instruments.len();
        let mut i: usize = 0;
        while i < n
            invariant
                i <= n,
                r@ == spec_filtered_indexes(self.instruments@.take(i as int), *filter),
                forall|k: int| 0 <= k < r@.len() ==> (#[trigger] r@[k]) < i,
            decreases n - i,
        {
            proof {
                assert(self.instruments@.take(i + 1int).drop_last() =~= self.instruments@.take(
                    i as int,
                ));
                assert(self.instruments@.take(i + 1int).last() == self.instruments@[i as int]);
            }
            let inst = &self.instruments[i];
            if matches_filter(inst, filter) {
                r.push(i);
            }
            i = i + 1;
        }
        proof {
            assert(self.instruments@.take(n as int) =~= self.instruments@);
        }
        r
    }
}

/// One instrument's order book after the cancel requests addressed to it
/// are recorded, in order.
pub open spec fn spec_record_cancels_book(
    m: Map<crate::types::ClientOrderId, crate::order_manager::OrderEntry>,
    reqs: Seq<crate::order::OrderRequestCancel>,
    inst: InstrumentIndex,
) -> Map<crate::types::ClientOrderId, crate::order_manager::OrderEntry>
    decreases reqs.len(),
{
    if reqs.len() == 0 {
        m
    } else {
        let prev = spec_record_cancels_book(m, reqs.drop_last(), inst);
        if reqs.last().instrument == inst {
            crate::order_manager::spec_record_in_flight_cancel(prev, reqs.last())
        } else {
            prev
        }
    }
}

/// Recording an in-flight open skips ids the book already holds: recording a
/// duplicate id is a caller error the book refuses to compound.
pub open spec fn spec_record_open_checked(
    m: Map<crate::types::ClientOrderId, crate::order_manager::OrderEntry>,
    req: crate::order::OrderRequestOpen,
) -> Map<crate::types::ClientOrderId, crate::order_manager::OrderEntry> {
    if m.contains_key(req.cid) {
        m
    } else {
        m.insert(req.cid, crate::order_manager::spec_entry_in_flight_open(req))
    }
}

/// One instrument's order book after the open requests addressed to it are
/// recorded, in order.
pub open spec fn spec_record_opens_book(
    m: Map<crate::types::ClientOrderId, crate::order_manager::OrderEntry>,
    reqs: Seq<crate::order::OrderRequestOpen>,
    inst: InstrumentIndex,
) -> Map<crate::types::ClientOrderId, crate::order_manager::OrderEntry>
    decreases reqs.len(),
{
    if reqs.len() == 0 {
        m
    } else {
        let prev = spec_record_opens_book(m, reqs.drop_last(), inst);
        if reqs.last().instrument == inst {
            spec_record_open_checked(prev, reqs.last())
        } else {
            prev
        }
    }
}

impl EngineState {
    /// Record dispatched cancel requests, then dispatched open requests, as
    /// in flight in the order books of their instruments. Only order books
    /// change, and each ends up holding exactly the fold of the requests
    /// addressed to it.
    #[verifier::loop_isolation(false)]
    pub fn record_in_flight(
        &mut self,
        cancels: &Vec<crate::order::OrderRequestCancel>,
        opens: &Vec<crate::order::OrderRequestOpen>,
    ) -> (audit: OrdersInFlightRecorderAudit)
        requires
            old(self).wf(),
            forall|k: int|
                0 <= k < cancels@.len()
                    ==> (#[trigger] cancels@[k]).instrument.index < old(self).instruments@.len(),
            forall|k: int|
                0 <= k < opens@.len() ==> {
                    &&& (#[trigger] opens@[k]).wf()
                    &&& opens@[k].instrument.index < old(self).instruments@.len()
                },
        ensures
            final(self).wf(),
            final(self).trading == old(self).trading,
            final(self).connectivity == old(self).connectivity,
            final(self).assets == old(self).assets,
            final(self).strategy == old(self).strategy,
            final(self).risk == old(self).risk,
            final(self).instruments@.len() == old(self).instruments@.len(),
            forall|j: int|
                0 <= j < old(self).instruments@.len() ==> {
                    &&& (#[trigger] final(self).instruments@[j]).instrument
                        == old(self).instruments@[j].instrument
                    &&& final(self).instruments@[j].exchange == old(self).instruments@[j].exchange
                    &&& final(self).instruments@[j].market == old(self).instruments@[j].market
                    &&& final(self).instruments@[j].position == old(self).instruments@[j].position
                    &&& final(self).instruments@[j].position_sequence
                        == old(self).instruments@[j].position_sequence
                    &&& final(self).instruments@[j].orders.view_map() == spec_record_opens_book(
                        spec_record_cancels_book(
                            old(self).instruments@[j].orders.view_map(),
                            cancels@,
                            old(self).instruments@[j].instrument,
                        ),
                        opens@,
                        old(self).instruments@[j].instrument,
                    )
                },
    {
        let nc = cancels.len();
        let mut k: usize = 0;
        while k < nc
            invariant
                k <= nc,
                self.trading == old(self).trading,
                self.connectivity == old(self).connectivity,
                self.assets == old(self).assets,
                self.strategy == old(self).strategy,
                self.risk == old(self).risk,
                self.instruments@.len() == old(self).instruments@.len(),
                forall|j: int|
                    0 <= j < old(self).instruments@.len() ==> {
                        &&& (#[trigger] self.instruments@[j]).wf()
                        &&& self.instruments@[j].instrument == old(self).instruments@[j].instrument
                        &&& self.instruments@[j].exchange == old(self).instruments@[j].exchange
                        &&& self.instruments@[j].market == old(self).instruments@[j].market
                        &&& self.instruments@[j].position == old(self).instruments@[j].position
                        &&& self.instruments@[j].position_sequence
                            == old(self).instruments@[j].position_sequence
                        &&& self.instruments@[j].orders.view_map() == spec_record_cancels_book(
                            old(self).instruments@[j].orders.view_map(),
                            cancels@.take(k as int),
                            old(self).instruments@[j].instrument,
                        )
                    },
            decreases nc - k,
        {
            let req = cancels[k];
            proof {
                assert(cancels@.take(k + 1int).drop_last() =~= cancels@.take(k as int));
                assert(cancels@.take(k + 1int).last() == cancels@[k as int]);
            }
            let idx = req.instrument.index;
            let inst = vstd::std_specs::vec::vec_index_mut(&mut self.instruments, idx);
            inst.orders.record_in_flight_cancel(&req);
            k = k + 1;
        }
        proof {
            assert(cancels@.take(nc as int) =~= cancels@);
        }
        let no = opens.len();
        let mut k2: usize = 0;
        while k2 < no
            invariant
                k2 <= no,
                self.trading == old(self).trading,
                self.connectivity == old(self).connectivity,
                self.assets == old(self).assets,
                self.strategy == old(self).strategy,
                self.risk == old(self).risk,
                self.instruments@.len() == old(self).instruments@.len(),
                forall|j: int|
                    0 <= j < old(self).instruments@.len() ==> {
                        &&& (#[trigger] self.instruments@[j]).wf()
                        &&& self.instruments@[j].instrument == old(self).instruments@[j].instrument
                        &&& self.instruments@[j].exchange == old(self).instruments@[j].exchange
                        &&& self.instruments@[j].market == old(self).instruments@[j].market
                        &&& self.instruments@[j].position == old(self).instruments@[j].position
                        &&& self.instruments@[j].position_sequence
                            == old(self).instruments@[j].position_sequence
                        &&& self.instruments@[j].orders.view_map() == spec_record_opens_book(
                            spec_record_cancels_book(
                                old(self).instruments@[j].orders.view_map(),
                                cancels@,
                                old(self).instruments@[j].instrument,
                            ),
                            opens@.take(k2 as int),
                            old(self).instruments@[j].instrument,
                        )
                    },
            decreases no - k2,
        {
            let req = opens[k2];
            proof {
                assert(opens@.take(k2 + 1int).drop_last() =~= opens@.take(k2 as int));
                assert(opens@.take(k2 + 1int).last() == opens@[k2 as int]);
            }
            let idx = req.instrument.index;
            let inst = vstd::std_specs::vec::vec_index_mut(&mut self.instruments, idx);
            if !inst.orders.contains_cid(req.cid) {
                inst.orders.record_in_flight_open(&req);
            }
            k2 = k2 + 1;
        }
        proof {
            assert(opens@.take(no as int) =~= opens@);
        }
        OrdersInFlightRecorderAudit
    }
}

/// Runtime check that a position value is well-formed.
fn position_wf_exec(p: &crate::position::Position) -> (r: bool)
    ensures
        r == p.wf(),
{
    p.is_well_formed()
}

/// Runtime check that an order snapshot is well-formed.
fn order_snapshot_wf_exec(o: &crate::order::OrderSnapshot) -> (r: bool)
    ensures
        r == o.wf(),
{
    match o.kind {
        crate::order::OrderSnapshotKind::Open { venue_order_id, price, quantity, filled_quantity } => {
            0 <= price && price <= crate::types::AMOUNT_MAX && 0 < quantity
                && quantity <= crate::types::AMOUNT_MAX && 0 <= filled_quantity
                && filled_quantity <= quantity
        },
        crate::order::OrderSnapshotKind::Closed => true,
    }
}

} // verus!
