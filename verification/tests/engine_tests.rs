//! End-to-end reducer scenarios: feeds of engine events against the expected
//! audit tails, state transitions and dispatched execution requests.

use barter_engine::action::ActionOutput;
use barter_engine::audit::{Audit, AuditEvent, EngineClock, ShutdownAudit};
use barter_engine::balance::{AssetBalance, Balance};
use barter_engine::capability::{Auditor, TradingStateManager};
use barter_engine::connectivity::Connection;
use barter_engine::engine::{run, Engine};
use barter_engine::error::{EngineError, RecoverableEngineError, UnrecoverableEngineError};
use barter_engine::events::{
    AccountEvent, AccountEventKind, AccountSnapshot, AccountStreamEvent, Command, EngineEvent,
    InstrumentAccountSnapshot, InstrumentFilter, MarketStreamEvent, PositionSnapshot, TradingState,
};
use barter_engine::execution_tx::{ExecutionRequest, ExecutionTxMap};
use barter_engine::market::{MarketEvent, MarketEventKind};
use barter_engine::order::{OpenAck, OrderRequestOpen, OrderResponseOpen};
use barter_engine::order_manager::OrderState;
use barter_engine::position::{Position, Trade};
use barter_engine::risk::{DefaultRiskManager, MaxNotionalRiskManager};
use barter_engine::state::EngineState;
use barter_engine::strategy::{DefaultStrategy, FixedOrdersStrategy};
use barter_engine::types::{
    Amount, ClientOrderId, ExchangeIndex, InstrumentIndex, OrderId, Side, AMOUNT_ONE,
};
use tokio::sync::mpsc::error::TryRecvError;

const EX: ExchangeIndex = ExchangeIndex { index: 0 };
const INST: InstrumentIndex = InstrumentIndex { index: 0 };

fn one_venue_state() -> EngineState {
    EngineState::new(1, 1, &vec![EX], TradingState::Disabled)
}

fn channels(capacity: usize) -> (ExecutionTxMap, tokio::sync::mpsc::Receiver<ExecutionRequest>) {
    let (tx, rx) = tokio::sync::mpsc::channel(capacity);
    let mut txs = ExecutionTxMap::new_disconnected(1);
    txs.set_channel(EX, tx);
    (txs, rx)
}

fn open_req(id: u64, side: Side, price: Amount, quantity: Amount) -> OrderRequestOpen {
    OrderRequestOpen { exchange: EX, instrument: INST, cid: ClientOrderId { id }, side, price, quantity }
}

fn snapshot_event(balance_total: Amount) -> EngineEvent {
    EngineEvent::Account(AccountStreamEvent::Item(AccountEvent {
        exchange: EX,
        kind: AccountEventKind::Snapshot(AccountSnapshot {
            exchange: EX,
            balances: vec![AssetBalance {
                asset: barter_engine::types::AssetIndex { index: 0 },
                balance: Balance { total: balance_total, free: balance_total },
                sequence: 1,
            }],
            instruments: vec![InstrumentAccountSnapshot {
                instrument: INST,
                position: PositionSnapshot { position: Position::new_flat(INST), sequence: 1 },
            }],
        }),
    }))
}

fn book_update(mid: Amount, time: i64) -> EngineEvent {
    EngineEvent::Market(MarketStreamEvent::Item(MarketEvent {
        time_exchange: time,
        exchange: EX,
        instrument: INST,
        kind: MarketEventKind::BookUpdate { mid },
    }))
}

fn order_opened(id: u64, venue_id: u64, price: Amount, quantity: Amount, time: i64) -> EngineEvent {
    EngineEvent::Account(AccountStreamEvent::Item(AccountEvent {
        exchange: EX,
        kind: AccountEventKind::OrderOpened(OrderResponseOpen {
            exchange: EX,
            instrument: INST,
            cid: ClientOrderId { id },
            side: Side::Buy,
            time_exchange: time,
            result: Ok(OpenAck { venue_order_id: OrderId { id: venue_id }, price, quantity }),
        }),
    }))
}

fn trade_event(id: u64, cid: u64, side: Side, price: Amount, quantity: Amount) -> EngineEvent {
    EngineEvent::Account(AccountStreamEvent::Item(AccountEvent {
        exchange: EX,
        kind: AccountEventKind::Trade(Trade {
            id,
            instrument: INST,
            cid: Some(ClientOrderId { id: cid }),
            side,
            price,
            quantity,
            fees: 0,
        }),
    }))
}

#[test]
fn happy_path_open_fill_close() {
    let (txs, mut rx) = channels(16);
    let price = 50_000 * AMOUNT_ONE;
    let qty = AMOUNT_ONE / 10;
    let strategy = FixedOrdersStrategy {
        cancels: Vec::new(),
        opens: vec![open_req(1, Side::Buy, price, qty)],
        close_cid_base: 1000,
    };
    let mut engine = Engine::new(
        EngineClock::Fixed { time_millis: 1 },
        one_venue_state(),
        txs,
        strategy,
        DefaultRiskManager,
    );

    // Snapshot and market data arrive while trading is disabled.
    engine.process(snapshot_event(10_000 * AMOUNT_ONE));
    engine.process(book_update(price, 1));
    assert_eq!(engine.state.assets[0].balance.total, 10_000 * AMOUNT_ONE);

    // Enabling trading runs an algo pass: the strategy's open goes out.
    engine.process(EngineEvent::TradingStateUpdate(TradingState::Enabled));
    match rx.try_recv().expect("an execution request was dispatched") {
        ExecutionRequest::OpenOrder(o) => {
            assert_eq!(o.cid, ClientOrderId { id: 1 });
            assert_eq!(o.price, price);
            assert_eq!(o.quantity, qty);
        }
        other => panic!("expected an open order, got {:?}", other),
    }
    let book = &engine.state.instruments[0].orders;
    assert_eq!(book.entries.len(), 1);
    assert!(matches!(book.entries[0].state, OrderState::InFlightOpen { .. }));

    // Stop proposing so later passes are quiet, then the venue acknowledges.
    engine.strategy.opens.clear();
    engine.process(order_opened(1, 7, price, qty, 2));
    assert!(matches!(engine.state.instruments[0].orders.entries[0].state, OrderState::Open { .. }));

    // The fill flattens the order and opens the position.
    engine.process(trade_event(1, 1, Side::Buy, price, qty));
    let inst = &engine.state.instruments[0];
    assert_eq!(inst.orders.entries.len(), 0);
    assert_eq!(inst.position.side, Side::Buy);
    assert_eq!(inst.position.quantity_net, qty);
    assert_eq!(inst.position.price_average, price);

    // Closing positions dispatches the offsetting sell.
    while rx.try_recv().is_ok() {}
    engine.process(EngineEvent::Command(Command::ClosePositions(InstrumentFilter::All)));
    match rx.try_recv().expect("a closing request was dispatched") {
        ExecutionRequest::OpenOrder(o) => {
            assert_eq!(o.side, Side::Sell);
            assert_eq!(o.quantity, qty);
            assert_eq!(o.price, price);
            assert_eq!(o.cid, ClientOrderId { id: 1000 });
        }
        other => panic!("expected a closing open order, got {:?}", other),
    }
}

#[test]
fn disabled_trading_blocks_algo_pass() {
    let (txs, mut rx) = channels(16);
    let strategy = FixedOrdersStrategy {
        cancels: Vec::new(),
        opens: vec![open_req(1, Side::Buy, 50_000 * AMOUNT_ONE, AMOUNT_ONE)],
        close_cid_base: 1000,
    };
    let mut engine = Engine::new(
        EngineClock::Fixed { time_millis: 1 },
        one_venue_state(),
        txs,
        strategy,
        DefaultRiskManager,
    );
    let a1 = engine.process(EngineEvent::TradingStateUpdate(TradingState::Disabled));
    let a2 = engine.process(book_update(50_000 * AMOUNT_ONE, 1));
    assert!(matches!(a1, Audit::Process(_)));
    assert!(matches!(a2, Audit::Process(_)));
    assert!(matches!(rx.try_recv(), Err(TryRecvError::Empty)));
    assert_eq!(engine.state.instruments[0].orders.entries.len(), 0);
}

#[test]
fn unrecoverable_dispatch_error_shuts_down() {
    let (txs, rx) = channels(16);
    drop(rx);  // venue X's channel is closed
    let mut engine = Engine::new(
        EngineClock::Fixed { time_millis: 1 },
        one_venue_state(),
        txs,
        DefaultStrategy { close_cid_base: 1000 },
        DefaultRiskManager,
    );
    let event = EngineEvent::Command(Command::SendOpenRequests(vec![open_req(
        9,
        Side::Buy,
        50_000 * AMOUNT_ONE,
        AMOUNT_ONE,
    )]));
    let audit = engine.process(event);
    match audit {
        Audit::ShutdownWithOutput(ShutdownAudit::Error(_, reasons), output) => {
            assert_eq!(
                reasons,
                vec![UnrecoverableEngineError::ExecutionChannelTerminated { exchange: EX }]
            );
            match output {
                ActionOutput::OpenOrders(out) => {
                    assert!(out.sent.is_empty());
                    assert_eq!(out.errors.len(), 1);
                }
                other => panic!("expected an open-orders output, got {:?}", other),
            }
        }
        other => panic!("expected a shutdown audit, got {:?}", other),
    }
}

#[test]
fn missing_channel_is_unrecoverable() {
    let txs = ExecutionTxMap::new_disconnected(1);
    let mut engine = Engine::new(
        EngineClock::Fixed { time_millis: 1 },
        one_venue_state(),
        txs,
        DefaultStrategy { close_cid_base: 1000 },
        DefaultRiskManager,
    );
    let event = EngineEvent::Command(Command::SendOpenRequests(vec![open_req(
        9,
        Side::Buy,
        50_000 * AMOUNT_ONE,
        AMOUNT_ONE,
    )]));
    match engine.process(event) {
        Audit::ShutdownWithOutput(ShutdownAudit::Error(_, reasons), _) => {
            assert_eq!(
                reasons,
                vec![UnrecoverableEngineError::MissingExecutionChannel { exchange: EX }]
            );
        }
        other => panic!("expected a shutdown audit, got {:?}", other),
    }
}

#[test]
fn backpressure_is_recoverable() {
    // Capacity one, nothing consumed: the second send transient-fails, but
    // the engine keeps running.
    let (txs, _rx) = channels(1);
    let mut engine = Engine::new(
        EngineClock::Fixed { time_millis: 1 },
        one_venue_state(),
        txs,
        DefaultStrategy { close_cid_base: 1000 },
        DefaultRiskManager,
    );
    let reqs = vec![
        open_req(1, Side::Buy, 50_000 * AMOUNT_ONE, AMOUNT_ONE),
        open_req(2, Side::Buy, 50_000 * AMOUNT_ONE, AMOUNT_ONE),
    ];
    let audit = engine.process(EngineEvent::Command(Command::SendOpenRequests(reqs)));
    match audit {
        Audit::ProcessWithOutput(_, ActionOutput::OpenOrders(out)) => {
            assert_eq!(out.sent.len(), 1);
            assert_eq!(out.errors.len(), 1);
            assert_eq!(
                out.errors[0].1,
                EngineError::Recoverable(RecoverableEngineError::ExecutionChannelUnhealthy {
                    exchange: EX
                })
            );
        }
        other => panic!("expected a processed command, got {:?}", other),
    }
    // Only the sent request was recorded as in flight.
    assert_eq!(engine.state.instruments[0].orders.entries.len(), 1);
    assert_eq!(engine.state.instruments[0].orders.entries[0].cid, ClientOrderId { id: 1 });
}

#[test]
fn reconnect_toggles_connectivity() {
    let (txs, _rx) = channels(16);
    let mut engine = Engine::new(
        EngineClock::Fixed { time_millis: 1 },
        one_venue_state(),
        txs,
        DefaultStrategy { close_cid_base: 1000 },
        DefaultRiskManager,
    );
    engine.process(EngineEvent::Market(MarketStreamEvent::Reconnecting(EX)));
    assert_eq!(engine.state.connectivity[0].market_data, Connection::Reconnecting);
    engine.process(book_update(50_000 * AMOUNT_ONE, 1));
    assert_eq!(engine.state.connectivity[0].market_data, Connection::Healthy);
}

#[test]
fn account_reconnect_heals_on_next_item() {
    let (txs, _rx) = channels(16);
    let mut engine = Engine::new(
        EngineClock::Fixed { time_millis: 1 },
        one_venue_state(),
        txs,
        DefaultStrategy { close_cid_base: 1000 },
        DefaultRiskManager,
    );
    engine.process(EngineEvent::Account(AccountStreamEvent::Reconnecting(EX)));
    assert_eq!(engine.state.connectivity[0].account, Connection::Reconnecting);
    engine.process(snapshot_event(AMOUNT_ONE));
    assert_eq!(engine.state.connectivity[0].account, Connection::Healthy);
}

#[test]
fn risk_refusal_is_recorded_not_fatal() {
    let (txs, mut rx) = channels(16);
    let price = 50_000 * AMOUNT_ONE;
    let strategy = FixedOrdersStrategy {
        cancels: Vec::new(),
        opens: vec![open_req(1, Side::Buy, price, AMOUNT_ONE)],
        close_cid_base: 1000,
    };
    // Notional 50_000 of quote, bound 1: everything is refused.
    let risk = MaxNotionalRiskManager { max_notional: 1 * AMOUNT_ONE };
    let mut engine = Engine::new(
        EngineClock::Fixed { time_millis: 1 },
        one_venue_state(),
        txs,
        strategy,
        risk,
    );
    let audit = engine.process(EngineEvent::TradingStateUpdate(TradingState::Enabled));
    match audit {
        Audit::ProcessWithOutput(_, ActionOutput::GenerateAlgoOrders(out)) => {
            assert!(out.opens.sent.is_empty());
            assert!(out.opens.errors.is_empty());
            assert_eq!(out.opens_refused.len(), 1);
            assert_eq!(out.opens_refused[0].item.cid, ClientOrderId { id: 1 });
            assert_eq!(out.opens_refused[0].reason, "exceeds_max_notional");
        }
        other => panic!("expected an algo output, got {:?}", other),
    }
    assert!(matches!(rx.try_recv(), Err(TryRecvError::Empty)));
    assert_eq!(engine.state.instruments[0].orders.entries.len(), 0);
    // The engine continues: the next event is processed normally.
    let next = engine.process(book_update(price, 2));
    assert!(matches!(next, Audit::ProcessWithOutput(_, _)));
}

#[test]
fn trading_state_idempotence_two_audits_equal_state() {
    let (txs, _rx) = channels(16);
    let mut engine = Engine::new(
        EngineClock::Fixed { time_millis: 1 },
        one_venue_state(),
        txs,
        DefaultStrategy { close_cid_base: 1000 },
        DefaultRiskManager,
    );
    let a1 = engine.process(EngineEvent::TradingStateUpdate(TradingState::Enabled));
    let state_after_first = engine.state.clone();
    let a2 = engine.process(EngineEvent::TradingStateUpdate(TradingState::Enabled));
    assert_eq!(engine.state, state_after_first);
    assert_eq!(engine.state.trading_state(), TradingState::Enabled);
    // Both events were processed and audited, each with an (empty) algo pass.
    assert!(matches!(a1, Audit::ProcessWithOutput(_, ActionOutput::GenerateAlgoOrders(_))));
    assert!(matches!(a2, Audit::ProcessWithOutput(_, ActionOutput::GenerateAlgoOrders(_))));
}

#[test]
fn snapshot_replay_is_noop_on_balances_and_positions() {
    let (txs, _rx) = channels(16);
    let mut engine = Engine::new(
        EngineClock::Fixed { time_millis: 1 },
        one_venue_state(),
        txs,
        DefaultStrategy { close_cid_base: 1000 },
        DefaultRiskManager,
    );
    engine.process(snapshot_event(10_000 * AMOUNT_ONE));
    let assets_applied = engine.state.assets.clone();
    let instruments_applied = engine.state.instruments.clone();
    // The same sequence number again, even with other figures: discarded.
    engine.process(snapshot_event(77 * AMOUNT_ONE));
    assert_eq!(engine.state.assets, assets_applied);
    assert_eq!(engine.state.instruments, instruments_applied);
    assert_eq!(engine.state.assets[0].balance.total, 10_000 * AMOUNT_ONE);
}

#[test]
fn run_emits_snapshot_first_consecutive_ids_and_shutdown_last() {
    let (txs, _rx) = channels(16);
    let mut engine = Engine::new(
        EngineClock::Fixed { time_millis: 5 },
        one_venue_state(),
        txs,
        DefaultStrategy { close_cid_base: 1000 },
        DefaultRiskManager,
    );
    let feed = vec![
        EngineEvent::TradingStateUpdate(TradingState::Enabled),
        snapshot_event(10_000 * AMOUNT_ONE),
        book_update(50_000 * AMOUNT_ONE, 1),
    ];
    let (audit_tx, audit_rx) = barter_integration::channel::mpsc_unbounded::<AuditEvent>();
    let mut droppable = barter_integration::channel::ChannelTxDroppable::new(audit_tx);
    let trail = run(feed, &mut engine, &mut droppable);
    drop(droppable);

    assert_eq!(trail.len(), 5);
    assert!(matches!(trail[0].kind, Audit::Snapshot(_)));
    assert!(matches!(trail[4].kind, Audit::Shutdown(ShutdownAudit::FeedEnded)));
    for (i, record) in trail.iter().enumerate() {
        assert_eq!(record.id, i as u64);
        assert_eq!(record.time_millis, 5);
    }
    for w in trail.windows(2) {
        assert!(w[0].time_millis <= w[1].time_millis);
        assert_eq!(w[1].id, w[0].id + 1);
    }
    // The same trail went out on the audit channel.
    let emitted: Vec<AuditEvent> = audit_rx.collect();
    assert_eq!(emitted, trail);
}

#[test]
fn run_stops_at_commanded_shutdown() {
    let (txs, _rx) = channels(16);
    let mut engine = Engine::new(
        EngineClock::Fixed { time_millis: 5 },
        one_venue_state(),
        txs,
        DefaultStrategy { close_cid_base: 1000 },
        DefaultRiskManager,
    );
    let feed = vec![
        EngineEvent::TradingStateUpdate(TradingState::Disabled),
        EngineEvent::Shutdown,
        book_update(50_000 * AMOUNT_ONE, 1),  // never processed
    ];
    let (audit_tx, _audit_rx) = barter_integration::channel::mpsc_unbounded::<AuditEvent>();
    let mut droppable = barter_integration::channel::ChannelTxDroppable::new(audit_tx);
    let trail = run(feed, &mut engine, &mut droppable);
    assert_eq!(trail.len(), 3);
    assert!(matches!(
        trail[2].kind,
        Audit::Shutdown(ShutdownAudit::Commanded(EngineEvent::Shutdown))
    ));
}

#[test]
fn build_audit_clamps_time_monotonically() {
    let (txs, _rx) = channels(16);
    let mut engine = Engine::new(
        EngineClock::Fixed { time_millis: 10 },
        one_venue_state(),
        txs,
        DefaultStrategy { close_cid_base: 1000 },
        DefaultRiskManager,
    );
    let a = engine.build_audit(Audit::Process(EngineEvent::Shutdown));
    engine.clock = EngineClock::Fixed { time_millis: 3 };  // clock moved backwards
    let b = engine.build_audit(Audit::Process(EngineEvent::Shutdown));
    assert_eq!(a.time_millis, 10);
    assert_eq!(b.time_millis, 10);
    assert_eq!(b.id, a.id + 1);
}

#[test]
fn balance_updates_are_monotonic_by_sequence() {
    let mut state = one_venue_state();
    let asset = barter_engine::types::AssetIndex { index: 0 };
    let newer = AssetBalance {
        asset,
        balance: Balance { total: 5 * AMOUNT_ONE, free: 5 * AMOUNT_ONE },
        sequence: 10,
    };
    let stale = AssetBalance {
        asset,
        balance: Balance { total: 1 * AMOUNT_ONE, free: 1 * AMOUNT_ONE },
        sequence: 9,
    };
    state.process_account(&AccountEvent { exchange: EX, kind: AccountEventKind::BalanceSnapshot(newer) });
    state.process_account(&AccountEvent { exchange: EX, kind: AccountEventKind::BalanceSnapshot(stale) });
    assert_eq!(state.assets[0].balance.total, 5 * AMOUNT_ONE);
    assert_eq!(state.assets[0].sequence, Some(10));
}

#[test]
fn client_orders_assembles_simulated_book() {
    let bid = barter_engine::sim::OpenOrder {
        exchange: EX,
        instrument: INST,
        cid: ClientOrderId { id: 1 },
        side: Side::Buy,
        venue_order_id: OrderId { id: 5 },
        price: 100 * AMOUNT_ONE,
        quantity: AMOUNT_ONE,
        filled_quantity: 0,
    };
    let orders = barter_engine::sim::client_orders(3, vec![bid], Vec::new());
    assert_eq!(orders.trade_counter, 3);
    assert_eq!(orders.bids.len(), 1);
    assert_eq!(orders.bids[0].cid, ClientOrderId { id: 1 });
    assert!(orders.asks.is_empty());
}

#[test]
fn cancel_orders_command_cancels_open_orders() {
    let (txs, mut rx) = channels(16);
    let mut engine = Engine::new(
        EngineClock::Fixed { time_millis: 1 },
        one_venue_state(),
        txs,
        DefaultStrategy { close_cid_base: 1000 },
        DefaultRiskManager,
    );
    // Put one order at the venue.
    engine.process(EngineEvent::Command(Command::SendOpenRequests(vec![open_req(
        1,
        Side::Buy,
        100 * AMOUNT_ONE,
        AMOUNT_ONE,
    )])));
    engine.process(order_opened(1, 7, 100 * AMOUNT_ONE, AMOUNT_ONE, 1));
    while rx.try_recv().is_ok() {}

    let audit = engine.process(EngineEvent::Command(Command::CancelOrders(InstrumentFilter::All)));
    match audit {
        Audit::ProcessWithOutput(_, ActionOutput::CancelOrders(out)) => {
            assert_eq!(out.sent.len(), 1);
            assert_eq!(out.sent[0].cid, ClientOrderId { id: 1 });
        }
        other => panic!("expected a cancel output, got {:?}", other),
    }
    match rx.try_recv().expect("a cancel was dispatched") {
        ExecutionRequest::CancelOrder(c) => assert_eq!(c.venue_order_id, Some(OrderId { id: 7 })),
        other => panic!("expected a cancel order, got {:?}", other),
    }
    assert!(matches!(
        engine.state.instruments[0].orders.entries[0].state,
        OrderState::OpenCancelInFlight { .. }
    ));
}

#[test]
fn market_disconnect_flattens_venue_without_risk_check() {
    let (txs, mut rx) = channels(16);
    // A risk bound this tight would refuse the closing order; disconnect
    // handling bypasses it.
    let risk = MaxNotionalRiskManager { max_notional: 1 };
    let mut engine = Engine::new(
        EngineClock::Fixed { time_millis: 1 },
        one_venue_state(),
        txs,
        DefaultStrategy { close_cid_base: 500 },
        risk,
    );
    let price = 50_000 * AMOUNT_ONE;
    let qty = AMOUNT_ONE / 10;
    engine.process(book_update(price, 1));
    engine.process(trade_event(1, 99, Side::Buy, price, qty));
    assert_eq!(engine.state.instruments[0].position.quantity_net, qty);
    while rx.try_recv().is_ok() {}

    let audit = engine.process(EngineEvent::Market(MarketStreamEvent::Reconnecting(EX)));
    assert_eq!(engine.state.connectivity[0].market_data, Connection::Reconnecting);
    match audit {
        Audit::ProcessWithOutput(_, ActionOutput::OnDisconnect(out)) => {
            assert_eq!(out.opens.sent.len(), 1);
            assert_eq!(out.opens.sent[0].side, Side::Sell);
            assert_eq!(out.opens.sent[0].quantity, qty);
        }
        other => panic!("expected a disconnect output, got {:?}", other),
    }
    match rx.try_recv().expect("a flattening request was dispatched") {
        ExecutionRequest::OpenOrder(o) => assert_eq!(o.cid, ClientOrderId { id: 500 }),
        other => panic!("expected an open order, got {:?}", other),
    }
}
