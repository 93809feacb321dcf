//! Per-instrument open-order book: a mapping from client order id to an order
//! entry, reconciling venue-reported order lifecycle events against locally
//! issued in-flight open and cancel requests.

use vstd::prelude::*;
use crate::order::{
    OpenAck, OrderError, OrderRequestCancel, OrderRequestOpen, OrderResponseCancel,
    OrderResponseOpen, OrderSnapshot, OrderSnapshotKind,
};
use crate::types::{
    Amount, ClientOrderId, ExchangeIndex, InstrumentIndex, OrderId, Side, TimeMillis, AMOUNT_MAX,
};

verus! {

/// Lifecycle state of one order entry.
#[derive(Debug, Clone, Copy, PartialEq, Eq, Structural, Hash)]
pub enum OrderState {
    /// Open request sent; the venue has not acknowledged it yet.
    InFlightOpen { side: Side, price: Amount, quantity: Amount },
    /// Cancel request sent against an order this book does not know, recorded
    /// so that a later open acknowledgement is ignored.
    InFlightCancel,
    /// Open at the venue.
    Open { venue_order_id: OrderId, side: Side, price: Amount, quantity: Amount, filled_quantity: Amount },
    /// Open at the venue with a local cancel request in flight.
    OpenCancelInFlight {
        venue_order_id: OrderId,
        side: Side,
        price: Amount,
        quantity: Amount,
        filled_quantity: Amount,
    },
}

impl OrderState {
    /// Every price, quantity and fill is bounded, and no entry is ever filled
    /// past its quantity.
    pub open spec fn wf(self) -> bool {
        match self {
            OrderState::InFlightOpen { side, price, quantity } => {
                &&& 0 <= price <= AMOUNT_MAX
                &&& 0 < quantity <= AMOUNT_MAX
            },
            OrderState::InFlightCancel => true,
            OrderState::Open { venue_order_id, side, price, quantity, filled_quantity } => {
                &&& 0 <= price <= AMOUNT_MAX
                &&& 0 < quantity <= AMOUNT_MAX
                &&& 0 <= filled_quantity <= quantity
            },
            OrderState::OpenCancelInFlight {
                venue_order_id,
                side,
                price,
                quantity,
                filled_quantity,
            } => {
                &&& 0 <= price <= AMOUNT_MAX
                &&& 0 < quantity <= AMOUNT_MAX
                &&& 0 <= filled_quantity <= quantity
            },
        }
    }
}

/// One entry of the order book: the client id, the venue time of the last
/// applied venue event (`i64::MIN` while only local requests were recorded),
/// and the lifecycle state.
#[derive(Debug, Clone, Copy, PartialEq, Eq, Structural, Hash)]
pub struct OrderEntry {
    pub cid: ClientOrderId,
    pub time_exchange: TimeMillis,
    pub state: OrderState,
}

impl OrderEntry {
    pub open spec fn wf(self) -> bool {
        self.state.wf()
    }
}

/// True when no two entries share a client order id.
pub open spec fn spec_cids_unique(s: Seq<OrderEntry>) -> bool {
    forall|i: int, j: int| 0 <= i < j < s.len() ==> s[i].cid != s[j].cid
}

/// The order book as a mapping from client order id to entry.
pub open spec fn spec_as_map(s: Seq<OrderEntry>) -> Map<ClientOrderId, OrderEntry>
    decreases s.len(),
{
    if s.len() == 0 {
        Map::empty()
    } else {
        spec_as_map(s.drop_last()).insert(s.last().cid, s.last())
    }
}

/// Each entry of a duplicate-free book is found in the map under its id.
proof fn lemma_as_map_index(s: Seq<OrderEntry>, i: int)
    requires
        spec_cids_unique(s),
        0 <= i < s.len(),
    ensures
        spec_as_map(s).contains_key(s[i].cid),
        spec_as_map(s)[s[i].cid] == s[i],
    decreases s.len(),
{
    if i < s.len() - 1 {
        lemma_as_map_index(s.drop_last(), i);
        assert(s[s.len() - 1].cid != s[i].cid);
    }
}

/// An id held by no entry is absent from the map.
proof fn lemma_as_map_absent(s: Seq<OrderEntry>, cid: ClientOrderId)
    requires
        forall|i: int| 0 <= i < s.len() ==> s[i].cid != cid,
    ensures
        !spec_as_map(s).contains_key(cid),
    decreases s.len(),
{
    if s.len() > 0 {
        lemma_as_map_absent(s.drop_last(), cid);
    }
}

/// Appending an entry inserts it into the map.
proof fn lemma_as_map_push(s: Seq<OrderEntry>, e: OrderEntry)
    ensures
        spec_as_map(s.push(e)) == spec_as_map(s).insert(e.cid, e),
{
    assert(s.push(e).drop_last() =~= s);
    assert(s.push(e).last() == e);
}

/// Overwriting the entry at one index, keeping its id, updates the map at
/// that id.
proof fn lemma_as_map_update(s: Seq<OrderEntry>, i: int, e: OrderEntry)
    requires
        spec_cids_unique(s),
        0 <= i < s.len(),
        e.cid == s[i].cid,
    ensures
        spec_as_map(s.update(i, e)) == spec_as_map(s).insert(e.cid, e),
    decreases s.len(),
{
    let n = s.len() as int;
    if i == n - 1 {
        assert(s.update(i, e).drop_last() =~= s.drop_last());
        assert(spec_as_map(s.update(i, e)) == spec_as_map(s.drop_last()).insert(e.cid, e));
        assert(spec_as_map(s.drop_last()).insert(s.last().cid, s.last()).insert(e.cid, e)
            =~= spec_as_map(s.drop_last()).insert(e.cid, e));
    } else {
        assert(s.update(i, e).drop_last() =~= s.drop_last().update(i, e));
        lemma_as_map_update(s.drop_last(), i, e);
        assert(s.last().cid != e.cid);
        assert(spec_as_map(s.update(i, e)) == spec_as_map(s.drop_last()).insert(e.cid, e).insert(
            s.last().cid,
            s.last(),
        ));
        assert(spec_as_map(s.drop_last()).insert(e.cid, e).insert(s.last().cid, s.last())
            =~= spec_as_map(s.drop_last()).insert(s.last().cid, s.last()).insert(e.cid, e));
    }
}

/// Removing the entry at one index removes its id from the map.
proof fn lemma_as_map_remove(s: Seq<OrderEntry>, i: int)
    requires
        spec_cids_unique(s),
        0 <= i < s.len(),
    ensures
        spec_as_map(s.remove(i)) == spec_as_map(s).remove(s[i].cid),
    decreases s.len(),
{
    let n = s.len() as int;
    let cid = s[i].cid;
    if i == n - 1 {
        assert(s.remove(i) =~= s.drop_last());
        assert(forall|j: int| 0 <= j < s.drop_last().len() ==> s.drop_last()[j].cid != cid);
        lemma_as_map_absent(s.drop_last(), cid);
        assert(spec_as_map(s.drop_last()) =~= spec_as_map(s.drop_last()).insert(cid, s.last()).remove(
            cid,
        ));
    } else {
        assert(s.remove(i).drop_last() =~= s.drop_last().remove(i));
        assert(s.remove(i).last() == s.last());
        lemma_as_map_remove(s.drop_last(), i);
        assert(s.last().cid != cid);
        assert(spec_as_map(s.remove(i)) == spec_as_map(s.drop_last()).remove(cid).insert(
            s.last().cid,
            s.last(),
        ));
        assert(spec_as_map(s.drop_last()).remove(cid).insert(s.last().cid, s.last())
            =~= spec_as_map(s.drop_last()).insert(s.last().cid, s.last()).remove(cid));
    }
}

/// In a duplicate-free book, an id absent from the map is held by no entry.
proof fn lemma_absent_no_index(s: Seq<OrderEntry>, cid: ClientOrderId)
    requires
        spec_cids_unique(s),
        !spec_as_map(s).contains_key(cid),
    ensures
        forall|i: int| 0 <= i < s.len() ==> s[i].cid != cid,
{
    assert forall|i: int| 0 <= i < s.len() implies s[i].cid != cid by {
        lemma_as_map_index(s, i);
    }
}

/// The entry recorded for an open request that is still in flight.
pub open spec fn spec_entry_in_flight_open(req: OrderRequestOpen) -> OrderEntry {
    OrderEntry {
        cid: req.cid,
        time_exchange: i64::MIN,
        state: OrderState::InFlightOpen { side: req.side, price: req.price, quantity: req.quantity },
    }
}

/// The marker recorded for a cancel request against an unknown order.
pub open spec fn spec_entry_cancel_marker(cid: ClientOrderId) -> OrderEntry {
    OrderEntry { cid, time_exchange: i64::MIN, state: OrderState::InFlightCancel }
}

/// The open entry produced by an open acknowledgement: venue id, price and
/// quantity from the acknowledgement, nothing filled yet.
pub open spec fn spec_entry_open_from_ack(resp: OrderResponseOpen, ack: OpenAck) -> OrderEntry {
    OrderEntry {
        cid: resp.cid,
        time_exchange: resp.time_exchange,
        state: OrderState::Open {
            venue_order_id: ack.venue_order_id,
            side: resp.side,
            price: ack.price,
            quantity: ack.quantity,
            filled_quantity: 0,
        },
    }
}

/// Book after a cancel request is recorded: a matching `Open` entry becomes
/// `OpenCancelInFlight`; a missing entry leaves a cancel-only marker; any
/// other state is unchanged.
pub open spec fn spec_record_in_flight_cancel(
    m: Map<ClientOrderId, OrderEntry>,
    req: OrderRequestCancel,
) -> Map<ClientOrderId, OrderEntry> {
    if m.contains_key(req.cid) {
        let e = m[req.cid];
        match e.state {
            OrderState::Open { venue_order_id, side, price, quantity, filled_quantity } => m.insert(
                req.cid,
                OrderEntry {
                    cid: e.cid,
                    time_exchange: e.time_exchange,
                    state: OrderState::OpenCancelInFlight {
                        venue_order_id,
                        side,
                        price,
                        quantity,
                        filled_quantity,
                    },
                },
            ),
            _ => m,
        }
    } else {
        m.insert(req.cid, spec_entry_cancel_marker(req.cid))
    }
}

/// Book after an open acknowledgement: an `InFlightOpen` entry becomes `Open`
/// on success and is removed on error; every other state, and a missing
/// entry, is left unchanged (a cancel-only marker deliberately swallows the
/// acknowledgement).
pub open spec fn spec_update_from_open(
    m: Map<ClientOrderId, OrderEntry>,
    resp: OrderResponseOpen,
) -> Map<ClientOrderId, OrderEntry> {
    if m.contains_key(resp.cid) {
        let e = m[resp.cid];
        match e.state {
            OrderState::InFlightOpen { side, price, quantity } => match resp.result {
                Ok(ack) => m.insert(resp.cid, spec_entry_open_from_ack(resp, ack)),
                Err(_) => m.remove(resp.cid),
            },
            _ => m,
        }
    } else {
        m
    }
}

/// Book after a cancel acknowledgement: a successful cancel removes the
/// entry unless the venue time is older than the entry's (out-of-order
/// acknowledgements are ignored); an "unknown order" error removes the entry
/// defensively; other errors leave it.
pub open spec fn spec_update_from_cancel(
    m: Map<ClientOrderId, OrderEntry>,
    resp: OrderResponseCancel,
) -> Map<ClientOrderId, OrderEntry> {
    if m.contains_key(resp.cid) {
        let e = m[resp.cid];
        match resp.result {
            Ok(_) => match e.state {
                OrderState::InFlightOpen { side, price, quantity } => m,
                _ => if resp.time_exchange >= e.time_exchange {
                    m.remove(resp.cid)
                } else {
                    m
                },
            },
            Err(OrderError::NotFound) => m.remove(resp.cid),
            Err(_) => m,
        }
    } else {
        m
    }
}

/// Book after an authoritative venue snapshot: a snapshot older than the
/// entry's last venue time is ignored; otherwise an open snapshot sets the
/// entry to `Open` with the venue's fields regardless of local in-flight
/// state, and a closed snapshot removes the entry.
pub open spec fn spec_update_from_order_snapshot(
    m: Map<ClientOrderId, OrderEntry>,
    snap: OrderSnapshot,
) -> Map<ClientOrderId, OrderEntry> {
    if m.contains_key(snap.cid) && snap.time_exchange < m[snap.cid].time_exchange {
        m
    } else {
        match snap.kind {
            OrderSnapshotKind::Open { venue_order_id, price, quantity, filled_quantity } => m.insert(
                snap.cid,
                OrderEntry {
                    cid: snap.cid,
                    time_exchange: snap.time_exchange,
                    state: OrderState::Open {
                        venue_order_id,
                        side: snap.side,
                        price,
                        quantity,
                        filled_quantity,
                    },
                },
            ),
            OrderSnapshotKind::Closed => if m.contains_key(snap.cid) {
                m.remove(snap.cid)
            } else {
                m
            },
        }
    }
}

/// Book after a fill: the filled quantity of the matching open entry grows by
/// the traded quantity, saturating at the order quantity; a fully filled
/// entry is removed (terminal). Entries not open at the venue, fills without
/// a client id, and unknown ids change nothing.
pub open spec fn spec_update_from_trade(
    m: Map<ClientOrderId, OrderEntry>,
    cid_opt: Option<ClientOrderId>,
    trade_quantity: Amount,
) -> Map<ClientOrderId, OrderEntry> {
    match cid_opt {
        Some(cid) => if m.contains_key(cid) {
            let e = m[cid];
            match e.state {
                OrderState::Open { venue_order_id, side, price, quantity, filled_quantity } => {
                    if filled_quantity + trade_quantity >= quantity {
                        m.remove(cid)
                    } else {
                        m.insert(
                            cid,
                            OrderEntry {
                                cid: e.cid,
                                time_exchange: e.time_exchange,
                                state: OrderState::Open {
                                    venue_order_id,
                                    side,
                                    price,
                                    quantity,
                                    filled_quantity: (filled_quantity + trade_quantity) as Amount,
                                },
                            },
                        )
                    }
                },
                OrderState::OpenCancelInFlight {
                    venue_order_id,
                    side,
                    price,
                    quantity,
                    filled_quantity,
                } => {
                    if filled_quantity + trade_quantity >= quantity {
                        m.remove(cid)
                    } else {
                        m.insert(
                            cid,
                            OrderEntry {
                                cid: e.cid,
                                time_exchange: e.time_exchange,
                                state: OrderState::OpenCancelInFlight {
                                    venue_order_id,
                                    side,
                                    price,
                                    quantity,
                                    filled_quantity: (filled_quantity + trade_quantity) as Amount,
                                },
                            },
                        )
                    }
                },
                _ => m,
            }
        } else {
            m
        },
        None => m,
    }
}

/// The open-order book of one instrument: entries with pairwise distinct
/// client order ids, viewed as a map from id to entry.
#[derive(Debug, Clone, PartialEq, Eq)]
pub struct Orders {
    pub entries: Vec<OrderEntry>,
}

impl Orders {
    /// Ids are pairwise distinct and every entry is well-formed.
    pub open spec fn wf(self) -> bool {
        &&& spec_cids_unique(self.entries@)
        &&& forall|i: int| 0 <= i < self.entries@.len() ==> (#[trigger] self.entries@[i]).wf()
    }

    /// The book as a map from client order id to entry.
    pub open spec fn view_map(self) -> Map<ClientOrderId, OrderEntry> {
        spec_as_map(self.entries@)
    }

    /// An empty book.
    pub fn new() -> (r: Self)
        ensures
            r.wf(),
            r.view_map() == Map::<ClientOrderId, OrderEntry>::empty(),
            r.entries@.len() == 0,
    {
        Orders { entries: Vec::new() }
    }

    /// Index of the entry with the given id, if any.
    fn find_index(&self, cid: ClientOrderId) -> (r: Option<usize>)
        requires
            self.wf(),
        ensures
            match r {
                Some(i) => i < self.entries@.len() && self.entries@[i as int].cid == cid
                    && self.view_map().contains_key(cid) && self.view_map()[cid]
                    == self.entries@[i as int],
                None => !self.view_map().contains_key(cid),
            },
    {
        let n = self.entries.len();
        let mut i: usize = 0;
        while i < n
            invariant
                n == self.entries@.len(),
                i <= n,
                self.wf(),
                forall|j: int| 0 <= j < i ==> self.entries@[j].cid != cid,
            decreases n - i,
        {
            if self.entries[i].cid == cid {
                proof {
                    lemma_as_map_index(self.entries@, i as int);
                }
                return Some(i);
            }
            i = i + 1;
        }
        proof {
            lemma_as_map_absent(self.entries@, cid);
        }
        None
    }

    /// Whether the book holds an entry for this id.
    pub fn contains_cid(&self, cid: ClientOrderId) -> (r: bool)
        requires
            self.wf(),
        ensures
            r == self.view_map().contains_key(cid),
    {
        self.find_index(cid).is_some()
    }

    /// Replace the entry at a known index, keeping its id.
    fn replace_at(&mut self, i: usize, e: OrderEntry)
        requires
            old(self).wf(),
            i < old(self).entries@.len(),
            e.cid == old(self).entries@[i as int].cid,
            e.wf(),
        ensures
            final(self).wf(),
            final(self).entries@ == old(self).entries@.update(i as int, e),
            final(self).view_map() == old(self).view_map().insert(e.cid, e),
    {
        proof {
            lemma_as_map_update(self.entries@, i as int, e);
        }
        let entry = vstd::std_specs::vec::vec_index_mut(&mut self.entries, i);
        *entry = e;
    }

    /// Remove the entry at a known index.
    fn remove_at(&mut self, i: usize)
        requires
            old(self).wf(),
            i < old(self).entries@.len(),
        ensures
            final(self).wf(),
            final(self).entries@ == old(self).entries@.remove(i as int),
            final(self).view_map() == old(self).view_map().remove(
                old(self).entries@[i as int].cid,
            ),
    {
        proof {
            lemma_as_map_remove(self.entries@, i as int);
        }
        let _ = self.entries.remove(i);
    }

    /// Record a freshly dispatched open request as `InFlightOpen`.
    ///
    /// Recording an id the book already holds is a programming error of the
    /// caller and is excluded; `record_in_flight_opens` checks first.
    pub fn record_in_flight_open(&mut self, req: &OrderRequestOpen)
        requires
            old(self).wf(),
            req.wf(),
            !old(self).view_map().contains_key(req.cid),
        ensures
            final(self).wf(),
            final(self).view_map() == old(self).view_map().insert(
                req.cid,
                spec_entry_in_flight_open(*req),
            ),
    {
        proof {
            lemma_absent_no_index(self.entries@, req.cid);
            lemma_as_map_push(
                self.entries@,
                OrderEntry {
                    cid: req.cid,
                    time_exchange: i64::MIN,
                    state: OrderState::InFlightOpen {
                        side: req.side,
                        price: req.price,
                        quantity: req.quantity,
                    },
                },
            );
        }
        self.entries.push(
            OrderEntry {
                cid: req.cid,
                time_exchange: i64::MIN,
                state: OrderState::InFlightOpen {
                    side: req.side,
                    price: req.price,
                    quantity: req.quantity,
                },
            },
        );
    }

    /// Record a dispatched cancel request: a matching `Open` entry becomes
    /// `OpenCancelInFlight`; with no matching entry a cancel-only marker is
    /// recorded so that a later open acknowledgement is ignored.
    pub fn record_in_flight_cancel(&mut self, req: &OrderRequestCancel)
        requires
            old(self).wf(),
        ensures
            final(self).wf(),
            final(self).view_map() == spec_record_in_flight_cancel(old(self).view_map(), *req),
    {
        match self.find_index(req.cid) {
            Some(i) => {
                let e = self.entries[i];
                match e.state {
                    OrderState::Open { venue_order_id, side, price, quantity, filled_quantity } => {
                        self.replace_at(
                            i,
                            OrderEntry {
                                cid: e.cid,
                                time_exchange: e.time_exchange,
                                state: OrderState::OpenCancelInFlight {
                                    venue_order_id,
                                    side,
                                    price,
                                    quantity,
                                    filled_quantity,
                                },
                            },
                        );
                    },
                    _ => {},
                }
            },
            None => {
                proof {
                    lemma_absent_no_index(self.entries@, req.cid);
                    lemma_as_map_push(self.entries@, spec_entry_cancel_marker(req.cid));
                }
                self.entries.push(
                    OrderEntry {
                        cid: req.cid,
                        time_exchange: i64::MIN,
                        state: OrderState::InFlightCancel,
                    },
                );
            },
        }
    }

    /// Apply an open acknowledgement: `InFlightOpen` becomes `Open` on
    /// success and is removed on error; anything else is left unchanged.
    pub fn update_from_open(&mut self, resp: &OrderResponseOpen)
        requires
            old(self).wf(),
            resp.wf(),
        ensures
            final(self).wf(),
            final(self).view_map() == spec_update_from_open(old(self).view_map(), *resp),
    {
        match self.find_index(resp.cid) {
            Some(i) => {
                let e = self.entries[i];
                match e.state {
                    OrderState::InFlightOpen { .. } => match resp.result {
                        Ok(ack) => {
                            self.replace_at(
                                i,
                                OrderEntry {
                                    cid: resp.cid,
                                    time_exchange: resp.time_exchange,
                                    state: OrderState::Open {
                                        venue_order_id: ack.venue_order_id,
                                        side: resp.side,
                                        price: ack.price,
                                        quantity: ack.quantity,
                                        filled_quantity: 0,
                                    },
                                },
                            );
                        },
                        Err(_) => {
                            self.remove_at(i);
                        },
                    },
                    _ => {},
                }
            },
            None => {},
        }
    }

    /// Apply a cancel acknowledgement: a successful cancel removes the entry
    /// unless its venue time is older than the entry's; an "unknown order"
    /// error removes the entry defensively.
    pub fn update_from_cancel(&mut self, resp: &OrderResponseCancel)
        requires
            old(self).wf(),
        ensures
            final(self).wf(),
            final(self).view_map() == spec_update_from_cancel(old(self).view_map(), *resp),
    {
        match self.find_index(resp.cid) {
            Some(i) => {
                let e = self.entries[i];
                match resp.result {
                    Ok(_) => match e.state {
                        OrderState::InFlightOpen { .. } => {},
                        _ => {
                            if resp.time_exchange >= e.time_exchange {
                                self.remove_at(i);
                            }
                        },
                    },
                    Err(OrderError::NotFound) => {
                        self.remove_at(i);
                    },
                    Err(_) => {},
                }
            },
            None => {},
        }
    }

    /// Apply an authoritative venue snapshot: the venue is truth, except that
    /// a snapshot older than the last applied venue event is ignored.
    pub fn update_from_order_snapshot(&mut self, snap: &OrderSnapshot)
        requires
            old(self).wf(),
            snap.wf(),
        ensures
            final(self).wf(),
            final(self).view_map() == spec_update_from_order_snapshot(old(self).view_map(), *snap),
    {
        match self.find_index(snap.cid) {
            Some(i) => {
                let e = self.entries[i];
                if snap.time_exchange >= e.time_exchange {
                    match snap.kind {
                        OrderSnapshotKind::Open {
                            venue_order_id,
                            price,
                            quantity,
                            filled_quantity,
                        } => {
                            self.replace_at(
                                i,
                                OrderEntry {
                                    cid: snap.cid,
                                    time_exchange: snap.time_exchange,
                                    state: OrderState::Open {
                                        venue_order_id,
                                        side: snap.side,
                                        price,
                                        quantity,
                                        filled_quantity,
                                    },
                                },
                            );
                        },
                        OrderSnapshotKind::Closed => {
                            self.remove_at(i);
                        },
                    }
                }
            },
            None => {
                match snap.kind {
                    OrderSnapshotKind::Open { venue_order_id, price, quantity, filled_quantity } => {
                        proof {
                            lemma_absent_no_index(self.entries@, snap.cid);
                            lemma_as_map_push(
                                self.entries@,
                                OrderEntry {
                                    cid: snap.cid,
                                    time_exchange: snap.time_exchange,
                                    state: OrderState::Open {
                                        venue_order_id,
                                        side: snap.side,
                                        price,
                                        quantity,
                                        filled_quantity,
                                    },
                                },
                            );
                        }
                        self.entries.push(
                            OrderEntry {
                                cid: snap.cid,
                                time_exchange: snap.time_exchange,
                                state: OrderState::Open {
                                    venue_order_id,
                                    side: snap.side,
                                    price,
                                    quantity,
                                    filled_quantity,
                                },
                            },
                        );
                    },
                    OrderSnapshotKind::Closed => {},
                }
            },
        }
    }

    /// Apply a fill to the matching open entry: the filled quantity grows by
    /// the traded quantity and a fully filled entry is removed.
    pub fn update_from_trade(&mut self, cid_opt: Option<ClientOrderId>, trade_quantity: Amount)
        requires
            old(self).wf(),
            0 < trade_quantity <= AMOUNT_MAX,
        ensures
            final(self).wf(),
            final(self).view_map() == spec_update_from_trade(
                old(self).view_map(),
                cid_opt,
                trade_quantity,
            ),
    {
        let cid = match cid_opt {
            Some(c) => c,
            None => {
                return ;
            },
        };
        match self.find_index(cid) {
            Some(i) => {
                let e = self.entries[i];
                match e.state {
                    OrderState::Open { venue_order_id, side, price, quantity, filled_quantity } => {
                        if filled_quantity + trade_quantity >= quantity {
                            self.remove_at(i);
                        } else {
                            self.replace_at(
                                i,
                                OrderEntry {
                                    cid: e.cid,
                                    time_exchange: e.time_exchange,
                                    state: OrderState::Open {
                                        venue_order_id,
                                        side,
                                        price,
                                        quantity,
                                        filled_quantity: filled_quantity + trade_quantity,
                                    },
                                },
                            );
                        }
                    },
                    OrderState::OpenCancelInFlight {
                        venue_order_id,
                        side,
                        price,
                        quantity,
                        filled_quantity,
                    } => {
                        if filled_quantity + trade_quantity >= quantity {
                            self.remove_at(i);
                        } else {
                            self.replace_at(
                                i,
                                OrderEntry {
                                    cid: e.cid,
                                    time_exchange: e.time_exchange,
                                    state: OrderState::OpenCancelInFlight {
                                        venue_order_id,
                                        side,
                                        price,
                                        quantity,
                                        filled_quantity: filled_quantity + trade_quantity,
                                    },
                                },
                            );
                        }
                    },
                    _ => {},
                }
            },
            None => {},
        }
    }

    /// Runtime check for `wf`, for callers that assemble a book outside the
    /// verified world: every entry well-formed and ids pairwise distinct.
    #[verifier::loop_isolation(false)]
    pub fn is_well_formed(&self) -> (r: bool)
        ensures
            r == self.wf(),
    {
        let n = self.entries.len();
        let mut i: usize = 0;
        while i < n
            invariant
                i <= n,
                forall|j: int| 0 <= j < i ==> (#[trigger] self.entries@[j]).wf(),
                forall|j: int, k: int|
                    0 <= j < k < n && j < i ==> self.entries@[j].cid != self.entries@[k].cid,
            decreases n - i,
        {
            if !entry_state_wf_exec(&self.entries[i].state) {
                proof {
                    assert(!(self.entries@[i as int]).wf());
                }
                return false;
            }
            let mut k: usize = i + 1;
            while k < n
                invariant
                    i < k <= n,
                    forall|k2: int| i < k2 < k ==> self.entries@[i as int].cid != self.entries@[k2].cid,
                decreases n - k,
            {
                if self.entries[k].cid.id == self.entries[i].cid.id {
                    proof {
                        assert(self.entries@[i as int].cid == self.entries@[k as int].cid);
                        assert(!spec_cids_unique(self.entries@));
                    }
                    return false;
                }
                k = k + 1;
            }
            i = i + 1;
        }
        true
    }

    /// The cancel requests for every entry currently `Open` at the venue, in
    /// book order.
    pub fn open_cancel_requests(
        &self,
        exchange: ExchangeIndex,
        instrument: InstrumentIndex,
    ) -> (r: Vec<OrderRequestCancel>)
        requires
            self.wf(),
        ensures
            r@ == spec_cancel_requests(self.entries@, exchange, instrument),
    {
        let mut r: Vec<OrderRequestCancel> = Vec::new();
        let n = self.entries.len();
        let mut i: usize = 0;
        while i < n
            invariant
                n == self.entries@.len(),
                i <= n,
                r@ == spec_cancel_requests(self.entries@.take(i as int), exchange, instrument),
            decreases n - i,
        {
            proof {
                assert(self.entries@.take(i + 1int).drop_last() =~= self.entries@.take(i as int));
                assert(self.entries@.take(i + 1int).last() == self.entries@[i as int]);
            }
            match as_request_cancel(exchange, instrument, &self.entries[i]) {
                Some(req) => {
                    r.push(req);
                },
                None => {},
            }
            i = i + 1;
        }
        proof {
            assert(self.entries@.take(n as int) =~= self.entries@);
        }
        r
    }
}

/// Runtime check that an entry's lifecycle state is well-formed.
fn entry_state_wf_exec(state: &OrderState) -> (r: bool)
    ensures
        r == state.wf(),
{
    match *state {
        OrderState::InFlightOpen { side, price, quantity } => {
            0 <= price && price <= AMOUNT_MAX && 0 < quantity && quantity <= AMOUNT_MAX
        },
        OrderState::InFlightCancel => true,
        OrderState::Open { venue_order_id, side, price, quantity, filled_quantity } => {
            0 <= price && price <= AMOUNT_MAX && 0 < quantity && quantity <= AMOUNT_MAX
                && 0 <= filled_quantity && filled_quantity <= quantity
        },
        OrderState::OpenCancelInFlight { venue_order_id, side, price, quantity, filled_quantity } => {
            0 <= price && price <= AMOUNT_MAX && 0 < quantity && quantity <= AMOUNT_MAX
                && 0 <= filled_quantity && filled_quantity <= quantity
        },
    }
}

/// The cancel requests produced for the `Open` entries of a book, in order.
pub open spec fn spec_cancel_requests(
    s: Seq<OrderEntry>,
    exchange: ExchangeIndex,
    instrument: InstrumentIndex,
) -> Seq<OrderRequestCancel>
    decreases s.len(),
{
    if s.len() == 0 {
        Seq::empty()
    } else {
        let rest = spec_cancel_requests(s.drop_last(), exchange, instrument);
        match spec_as_request_cancel(exchange, instrument, s.last()) {
            Some(req) => rest.push(req),
            None => rest,
        }
    }
}

/// The cancel request for an entry, defined exactly for entries `Open` at
/// the venue with no cancel already in flight.
pub open spec fn spec_as_request_cancel(
    exchange: ExchangeIndex,
    instrument: InstrumentIndex,
    entry: OrderEntry,
) -> Option<OrderRequestCancel> {
    match entry.state {
        OrderState::Open { venue_order_id, side, price, quantity, filled_quantity } => Some(
            OrderRequestCancel {
                exchange,
                instrument,
                cid: entry.cid,
                venue_order_id: Some(venue_order_id),
            },
        ),
        _ => None,
    }
}

/// Produce a cancel request for an entry iff it is in `Open` state.
pub fn as_request_cancel(
    exchange: ExchangeIndex,
    instrument: InstrumentIndex,
    entry: &OrderEntry,
) -> (r: Option<OrderRequestCancel>)
    ensures
        r == spec_as_request_cancel(exchange, instrument, *entry),
{
    match entry.state {
        OrderState::Open { venue_order_id, side, price, quantity, filled_quantity } => Some(
            OrderRequestCancel {
                exchange,
                instrument,
                cid: entry.cid,
                venue_order_id: Some(venue_order_id),
            },
        ),
        _ => None,
    }
}

/// No entry of a well-formed book is ever filled past its quantity: for
/// every entry open at the venue, `0 <= filled_quantity <= quantity`.
pub proof fn lemma_filled_within_quantity(book: Orders, i: int)
    requires
        book.wf(),
        0 <= i < book.entries@.len(),
    ensures
        match book.entries@[i].state {
            OrderState::Open { venue_order_id, side, price, quantity, filled_quantity } => 0
                <= filled_quantity <= quantity,
            OrderState::OpenCancelInFlight {
                venue_order_id,
                side,
                price,
                quantity,
                filled_quantity,
            } => 0 <= filled_quantity <= quantity,
            _ => true,
        },
{
}

/// Recording an in-flight open and then applying the matching successful
/// acknowledgement is the same as inserting the `Open` entry directly.
pub proof fn lemma_open_round_trip(
    m: Map<ClientOrderId, OrderEntry>,
    req: OrderRequestOpen,
    resp: OrderResponseOpen,
    ack: OpenAck,
)
    requires
        !m.contains_key(req.cid),
        resp.cid == req.cid,
        resp.result == Ok::<OpenAck, OrderError>(ack),
    ensures
        spec_update_from_open(m.insert(req.cid, spec_entry_in_flight_open(req)), resp)
            == m.insert(req.cid, spec_entry_open_from_ack(resp, ack)),
{
    let recorded = m.insert(req.cid, spec_entry_in_flight_open(req));
    assert(spec_update_from_open(recorded, resp) =~= m.insert(
        req.cid,
        spec_entry_open_from_ack(resp, ack),
    ));
}

/// Recording an in-flight cancel and then applying a successful cancel
/// acknowledgement removes the entry. This holds whether the id was unknown
/// (the round trip passes through the cancel-only marker) or held an entry
/// open at the venue no newer than the acknowledgement; an entry still in
/// `InFlightOpen` is not cancellable and is excluded.
pub proof fn lemma_cancel_round_trip(
    m: Map<ClientOrderId, OrderEntry>,
    req: OrderRequestCancel,
    resp: OrderResponseCancel,
)
    requires
        resp.cid == req.cid,
        resp.result is Ok,
        m.contains_key(req.cid) ==> {
            &&& !(m[req.cid].state is InFlightOpen)
            &&& m[req.cid].time_exchange <= resp.time_exchange
        },
    ensures
        spec_update_from_cancel(spec_record_in_flight_cancel(m, req), resp) == m.remove(req.cid),
{
    let recorded = spec_record_in_flight_cancel(m, req);
    assert(spec_update_from_cancel(recorded, resp) =~= m.remove(req.cid));
}

} // verus!
