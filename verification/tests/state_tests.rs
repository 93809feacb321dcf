//! State-construction, keying and strategy-determinism checks.

use barter_engine::capability::{TradingStateUpdater, TradingStateUpdaterAudit};
use barter_engine::events::{InstrumentFilter, TradingState};
use barter_engine::keys::KeyUniverse;
use barter_engine::market::{MarketEvent, MarketEventKind, MarketState};
use barter_engine::state::EngineState;
use barter_engine::strategy::{AlgoStrategy, FixedOrdersStrategy};
use barter_engine::types::{
    ClientOrderId, ExchangeIndex, InstrumentIndex, Side, AMOUNT_ONE,
};

#[test]
fn named_keys_resolve_to_indexed_keys() {
    let mut universe = KeyUniverse::new();
    let binance = universe.exchanges.intern(101);
    let okx = universe.exchanges.intern(202);
    let usd = universe.assets.intern(1);
    let btc_usd = universe.instruments.intern(11);
    let eth_usd = universe.instruments.intern(12);
    assert_eq!((binance, okx), (0, 1));
    assert_eq!(usd, 0);
    assert_eq!((btc_usd, eth_usd), (0, 1));

    // Interning a known name keeps its slot.
    assert_eq!(universe.exchanges.intern(101), 0);

    // Both regimes mean the same thing: names resolve to the indexed keys.
    assert_eq!(universe.exchange(202), Some(ExchangeIndex { index: 1 }));
    assert_eq!(universe.instrument(12), Some(InstrumentIndex { index: 1 }));
    assert_eq!(universe.asset(9), None);
}

#[test]
fn fresh_state_is_healthy_flat_and_empty() {
    let state = EngineState::new(
        2,
        3,
        &vec![ExchangeIndex { index: 0 }, ExchangeIndex { index: 1 }, ExchangeIndex { index: 1 }],
        TradingState::Enabled,
    );
    assert_eq!(state.trading, TradingState::Enabled);
    assert_eq!(state.connectivity.len(), 2);
    assert_eq!(state.assets.len(), 3);
    assert_eq!(state.instruments.len(), 3);
    assert_eq!(state.instruments[2].exchange, ExchangeIndex { index: 1 });
    assert_eq!(state.instruments[1].position.quantity_net, 0);
    assert!(state.instruments[0].orders.entries.is_empty());
    assert_eq!(state.assets[0].sequence, None);
}

#[test]
fn market_state_records_latest_price() {
    let mut market = MarketState::new_empty();
    assert_eq!(market.last_price, None);
    market.process(&MarketEvent {
        time_exchange: 9,
        exchange: ExchangeIndex { index: 0 },
        instrument: InstrumentIndex { index: 0 },
        kind: MarketEventKind::PublicTrade { price: 42 * AMOUNT_ONE, amount: AMOUNT_ONE },
    });
    assert_eq!(market.last_price, Some(42 * AMOUNT_ONE));
    assert_eq!(market.time_last_event, 9);
}

#[test]
fn strategy_outputs_are_deterministic_in_the_state() {
    // Two algo passes over the identical state propose identical orders.
    let state = EngineState::new(1, 1, &vec![ExchangeIndex { index: 0 }], TradingState::Enabled);
    let strategy = FixedOrdersStrategy {
        cancels: Vec::new(),
        opens: vec![barter_engine::order::OrderRequestOpen {
            exchange: ExchangeIndex { index: 0 },
            instrument: InstrumentIndex { index: 0 },
            cid: ClientOrderId { id: 4 },
            side: Side::Buy,
            price: 7 * AMOUNT_ONE,
            quantity: AMOUNT_ONE,
        }],
        close_cid_base: 50,
    };
    let first = strategy.generate_orders(&state);
    let second = strategy.generate_orders(&state);
    assert_eq!(first, second);
    assert_eq!(first.1.len(), 1);
}

#[test]
fn strategy_drops_requests_outside_the_universe() {
    let state = EngineState::new(1, 1, &vec![ExchangeIndex { index: 0 }], TradingState::Enabled);
    let stray = barter_engine::order::OrderRequestOpen {
        exchange: ExchangeIndex { index: 5 },
        instrument: InstrumentIndex { index: 9 },
        cid: ClientOrderId { id: 4 },
        side: Side::Buy,
        price: 7 * AMOUNT_ONE,
        quantity: AMOUNT_ONE,
    };
    let strategy =
        FixedOrdersStrategy { cancels: Vec::new(), opens: vec![stray], close_cid_base: 50 };
    let (cancels, opens) = strategy.generate_orders(&state);
    assert!(cancels.is_empty());
    assert!(opens.is_empty());
}

#[test]
fn filters_select_by_venue_and_instrument() {
    let state = EngineState::new(
        2,
        1,
        &vec![ExchangeIndex { index: 0 }, ExchangeIndex { index: 1 }, ExchangeIndex { index: 0 }],
        TradingState::Disabled,
    );
    assert_eq!(state.instruments(&InstrumentFilter::All), vec![0, 1, 2]);
    assert_eq!(
        state.instruments(&InstrumentFilter::Exchanges(vec![ExchangeIndex { index: 0 }])),
        vec![0, 2]
    );
    assert_eq!(
        state.instruments(&InstrumentFilter::Instruments(vec![InstrumentIndex { index: 1 }])),
        vec![1]
    );
}

#[test]
fn trading_state_updates_are_audited_even_when_unchanged() {
    let mut state = EngineState::new(
        1,
        1,
        &vec![ExchangeIndex { index: 0 }],
        TradingState::Enabled,
    );
    let before = state.clone();
    let audit = state.update_from_trading_state_update(TradingState::Enabled);
    assert_eq!(
        audit,
        TradingStateUpdaterAudit { prev: TradingState::Enabled, current: TradingState::Enabled }
    );
    assert_eq!(state, before);
    let audit = state.update_from_trading_state_update(TradingState::Disabled);
    assert_eq!(
        audit,
        TradingStateUpdaterAudit { prev: TradingState::Enabled, current: TradingState::Disabled }
    );
    assert_eq!(state.trading, TradingState::Disabled);
}

#[test]
fn runtime_well_formedness_checker_accepts_and_rejects() {
    let mut state = EngineState::new(
        1,
        1,
        &vec![ExchangeIndex { index: 0 }],
        TradingState::Enabled,
    );
    assert!(state.is_well_formed());
    // A position keyed to the wrong instrument slot is rejected.
    state.instruments[0].position.instrument = InstrumentIndex { index: 7 };
    assert!(!state.is_well_formed());
}
