//! Order-book reconciliation on concrete values: the in-flight round trips,
//! the fill bound, terminal removals, and the out-of-order snapshot rule.

use barter_engine::order::{
    OpenAck, OrderError, OrderRequestCancel, OrderRequestOpen, OrderResponseCancel,
    OrderResponseOpen, OrderSnapshot, OrderSnapshotKind,
};
use barter_engine::order_manager::{as_request_cancel, OrderState, Orders};
use barter_engine::types::{
    Amount, ClientOrderId, ExchangeIndex, InstrumentIndex, OrderId, Side, AMOUNT_ONE,
};

fn cid(id: u64) -> ClientOrderId {
    ClientOrderId { id }
}

fn open_request(id: u64, price: Amount, quantity: Amount) -> OrderRequestOpen {
    OrderRequestOpen {
        exchange: ExchangeIndex { index: 0 },
        instrument: InstrumentIndex { index: 0 },
        cid: cid(id),
        side: Side::Buy,
        price,
        quantity,
    }
}

fn cancel_request(id: u64) -> OrderRequestCancel {
    OrderRequestCancel {
        exchange: ExchangeIndex { index: 0 },
        instrument: InstrumentIndex { index: 0 },
        cid: cid(id),
        venue_order_id: None,
    }
}

fn open_ack(id: u64, time: i64) -> OrderResponseOpen {
    OrderResponseOpen {
        exchange: ExchangeIndex { index: 0 },
        instrument: InstrumentIndex { index: 0 },
        cid: cid(id),
        side: Side::Buy,
        time_exchange: time,
        result: Ok(OpenAck {
            venue_order_id: OrderId { id: 77 },
            price: 100 * AMOUNT_ONE,
            quantity: 2 * AMOUNT_ONE,
        }),
    }
}

fn cancel_ack(id: u64, time: i64) -> OrderResponseCancel {
    OrderResponseCancel {
        exchange: ExchangeIndex { index: 0 },
        instrument: InstrumentIndex { index: 0 },
        cid: cid(id),
        time_exchange: time,
        result: Ok(OrderId { id: 77 }),
    }
}

#[test]
fn open_round_trip_equals_direct_open_entry() {
    // record_in_flight_open ; update_from_open(ok) leaves exactly the Open
    // entry the acknowledgement describes.
    let mut book = Orders::new();
    book.record_in_flight_open(&open_request(1, 100 * AMOUNT_ONE, 2 * AMOUNT_ONE));
    assert!(matches!(book.entries[0].state, OrderState::InFlightOpen { .. }));
    book.update_from_open(&open_ack(1, 10));
    assert_eq!(book.entries.len(), 1);
    let entry = book.entries[0];
    assert_eq!(entry.cid, cid(1));
    assert_eq!(entry.time_exchange, 10);
    match entry.state {
        OrderState::Open { venue_order_id, side, price, quantity, filled_quantity } => {
            assert_eq!(venue_order_id, OrderId { id: 77 });
            assert_eq!(side, Side::Buy);
            assert_eq!(price, 100 * AMOUNT_ONE);
            assert_eq!(quantity, 2 * AMOUNT_ONE);
            assert_eq!(filled_quantity, 0);
        }
        other => panic!("expected Open, got {:?}", other),
    }
}

#[test]
fn failed_open_ack_removes_in_flight_entry() {
    let mut book = Orders::new();
    book.record_in_flight_open(&open_request(1, 100 * AMOUNT_ONE, 2 * AMOUNT_ONE));
    let mut nack = open_ack(1, 10);
    nack.result = Err(OrderError::Rejected);
    book.update_from_open(&nack);
    assert_eq!(book.entries.len(), 0);
}

#[test]
fn cancel_round_trip_removes_entry() {
    // record_in_flight_cancel ; update_from_cancel(ok) removes the entry.
    let mut book = Orders::new();
    book.record_in_flight_open(&open_request(1, 100 * AMOUNT_ONE, 2 * AMOUNT_ONE));
    book.update_from_open(&open_ack(1, 10));
    book.record_in_flight_cancel(&cancel_request(1));
    assert!(matches!(book.entries[0].state, OrderState::OpenCancelInFlight { .. }));
    book.update_from_cancel(&cancel_ack(1, 20));
    assert_eq!(book.entries.len(), 0);
}

#[test]
fn cancel_of_unknown_order_leaves_marker_that_swallows_open_ack() {
    let mut book = Orders::new();
    book.record_in_flight_cancel(&cancel_request(5));
    assert!(matches!(book.entries[0].state, OrderState::InFlightCancel));
    // A later open acknowledgement for that id is ignored.
    book.update_from_open(&open_ack(5, 10));
    assert!(matches!(book.entries[0].state, OrderState::InFlightCancel));
    // The cancel acknowledgement then clears the marker.
    book.update_from_cancel(&cancel_ack(5, 20));
    assert_eq!(book.entries.len(), 0);
}

#[test]
fn unknown_order_error_removes_defensively() {
    let mut book = Orders::new();
    book.record_in_flight_open(&open_request(1, 100 * AMOUNT_ONE, 2 * AMOUNT_ONE));
    book.update_from_open(&open_ack(1, 10));
    let mut nack = cancel_ack(1, 5);
    nack.result = Err(OrderError::NotFound);
    book.update_from_cancel(&nack);
    assert_eq!(book.entries.len(), 0);
}

#[test]
fn fills_advance_filled_quantity_and_full_fill_removes() {
    let mut book = Orders::new();
    book.record_in_flight_open(&open_request(1, 100 * AMOUNT_ONE, 2 * AMOUNT_ONE));
    book.update_from_open(&open_ack(1, 10));
    book.update_from_trade(Some(cid(1)), AMOUNT_ONE / 2);
    match book.entries[0].state {
        OrderState::Open { quantity, filled_quantity, .. } => {
            assert_eq!(quantity, 2 * AMOUNT_ONE);
            assert_eq!(filled_quantity, AMOUNT_ONE / 2);
            assert!(0 <= filled_quantity && filled_quantity <= quantity);
        }
        other => panic!("expected Open, got {:?}", other),
    }
    // A fill past the order quantity is terminal and never overfills.
    book.update_from_trade(Some(cid(1)), 3 * AMOUNT_ONE);
    assert_eq!(book.entries.len(), 0);
}

#[test]
fn authoritative_snapshot_overrides_local_cancel_in_flight() {
    let mut book = Orders::new();
    book.record_in_flight_open(&open_request(1, 100 * AMOUNT_ONE, 2 * AMOUNT_ONE));
    book.update_from_open(&open_ack(1, 10));
    book.record_in_flight_cancel(&cancel_request(1));
    let snap = OrderSnapshot {
        exchange: ExchangeIndex { index: 0 },
        instrument: InstrumentIndex { index: 0 },
        cid: cid(1),
        side: Side::Buy,
        time_exchange: 30,
        kind: OrderSnapshotKind::Open {
            venue_order_id: OrderId { id: 77 },
            price: 100 * AMOUNT_ONE,
            quantity: 2 * AMOUNT_ONE,
            filled_quantity: AMOUNT_ONE,
        },
    };
    book.update_from_order_snapshot(&snap);
    match book.entries[0].state {
        OrderState::Open { filled_quantity, .. } => assert_eq!(filled_quantity, AMOUNT_ONE),
        other => panic!("expected Open, got {:?}", other),
    }
}

#[test]
fn out_of_order_snapshot_is_ignored() {
    // A snapshot at venue time T1, then one at T0 < T1: state reflects T1.
    let mut book = Orders::new();
    let newer = OrderSnapshot {
        exchange: ExchangeIndex { index: 0 },
        instrument: InstrumentIndex { index: 0 },
        cid: cid(1),
        side: Side::Buy,
        time_exchange: 100,
        kind: OrderSnapshotKind::Open {
            venue_order_id: OrderId { id: 77 },
            price: 100 * AMOUNT_ONE,
            quantity: 2 * AMOUNT_ONE,
            filled_quantity: AMOUNT_ONE,
        },
    };
    let stale = OrderSnapshot {
        time_exchange: 50,
        kind: OrderSnapshotKind::Open {
            venue_order_id: OrderId { id: 77 },
            price: 100 * AMOUNT_ONE,
            quantity: 2 * AMOUNT_ONE,
            filled_quantity: 0,
        },
        ..newer.clone()
    };
    book.update_from_order_snapshot(&newer);
    book.update_from_order_snapshot(&stale);
    assert_eq!(book.entries[0].time_exchange, 100);
    match book.entries[0].state {
        OrderState::Open { filled_quantity, .. } => assert_eq!(filled_quantity, AMOUNT_ONE),
        other => panic!("expected Open, got {:?}", other),
    }
    // A stale closed snapshot does not remove either.
    let stale_closed = OrderSnapshot { time_exchange: 60, kind: OrderSnapshotKind::Closed, ..newer };
    book.update_from_order_snapshot(&stale_closed);
    assert_eq!(book.entries.len(), 1);
}

#[test]
fn closed_snapshot_removes_entry() {
    let mut book = Orders::new();
    book.record_in_flight_open(&open_request(1, 100 * AMOUNT_ONE, 2 * AMOUNT_ONE));
    book.update_from_open(&open_ack(1, 10));
    let closed = OrderSnapshot {
        exchange: ExchangeIndex { index: 0 },
        instrument: InstrumentIndex { index: 0 },
        cid: cid(1),
        side: Side::Buy,
        time_exchange: 30,
        kind: OrderSnapshotKind::Closed,
    };
    book.update_from_order_snapshot(&closed);
    assert_eq!(book.entries.len(), 0);
}

#[test]
fn as_request_cancel_only_for_open_entries() {
    let mut book = Orders::new();
    book.record_in_flight_open(&open_request(1, 100 * AMOUNT_ONE, 2 * AMOUNT_ONE));
    let ex = ExchangeIndex { index: 0 };
    let inst = InstrumentIndex { index: 0 };
    assert!(as_request_cancel(ex, inst, &book.entries[0]).is_none());
    book.update_from_open(&open_ack(1, 10));
    let req = as_request_cancel(ex, inst, &book.entries[0]).expect("open entry is cancellable");
    assert_eq!(req.cid, cid(1));
    assert_eq!(req.venue_order_id, Some(OrderId { id: 77 }));
    book.record_in_flight_cancel(&cancel_request(1));
    assert!(as_request_cancel(ex, inst, &book.entries[0]).is_none());
}

#[test]
fn stale_cancel_ack_is_ignored() {
    // The entry reflects venue time 100; a successful cancel stamped 50 is
    // out of order and must not remove it.
    let mut book = Orders::new();
    let snap = OrderSnapshot {
        exchange: ExchangeIndex { index: 0 },
        instrument: InstrumentIndex { index: 0 },
        cid: cid(1),
        side: Side::Buy,
        time_exchange: 100,
        kind: OrderSnapshotKind::Open {
            venue_order_id: OrderId { id: 77 },
            price: 100 * AMOUNT_ONE,
            quantity: 2 * AMOUNT_ONE,
            filled_quantity: 0,
        },
    };
    book.update_from_order_snapshot(&snap);
    book.update_from_cancel(&cancel_ack(1, 50));
    assert_eq!(book.entries.len(), 1);
    book.update_from_cancel(&cancel_ack(1, 150));
    assert_eq!(book.entries.len(), 0);
}
