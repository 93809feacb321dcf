//! Position arithmetic on concrete values: signed VWAP, realised
//! profit-and-loss on reducing trades, and the trade/net-quantity ledger law.

use barter_engine::position::{Position, Trade};
use barter_engine::types::{Amount, ClientOrderId, InstrumentIndex, Side, AMOUNT_ONE};

fn flat() -> Position {
    Position::new_flat(InstrumentIndex { index: 0 })
}

fn trade(side: Side, price: Amount, quantity: Amount, fees: Amount) -> Trade {
    Trade {
        id: 1,
        instrument: InstrumentIndex { index: 0 },
        cid: Some(ClientOrderId { id: 1 }),
        side,
        price,
        quantity,
        fees,
    }
}

#[test]
fn opening_trade_sets_side_quantity_and_average() {
    let mut p = flat();
    p.update_from_trade(&trade(Side::Buy, 50_000 * AMOUNT_ONE, AMOUNT_ONE / 10, 0));
    assert_eq!(p.side, Side::Buy);
    assert_eq!(p.quantity_net, AMOUNT_ONE / 10);
    assert_eq!(p.price_average, 50_000 * AMOUNT_ONE);
    assert_eq!(p.pnl_realised, 0);
}

#[test]
fn increasing_trade_moves_average_to_volume_weighted_mean() {
    let mut p = flat();
    p.update_from_trade(&trade(Side::Buy, 100 * AMOUNT_ONE, 10 * AMOUNT_ONE, 0));
    p.update_from_trade(&trade(Side::Buy, 200 * AMOUNT_ONE, 30 * AMOUNT_ONE, 0));
    // (10*100 + 30*200) / 40 = 175
    assert_eq!(p.quantity_net, 40 * AMOUNT_ONE);
    assert_eq!(p.price_average, 175 * AMOUNT_ONE);
    assert_eq!(p.pnl_realised, 0);
}

#[test]
fn reducing_trade_realises_gain_on_closed_size() {
    let mut p = flat();
    p.update_from_trade(&trade(Side::Buy, 100 * AMOUNT_ONE, 10 * AMOUNT_ONE, 0));
    p.update_from_trade(&trade(Side::Sell, 110 * AMOUNT_ONE, 4 * AMOUNT_ONE, 0));
    // (110 - 100) * 4 = 40 realised; average unchanged; 6 remain long.
    assert_eq!(p.side, Side::Buy);
    assert_eq!(p.quantity_net, 6 * AMOUNT_ONE);
    assert_eq!(p.price_average, 100 * AMOUNT_ONE);
    assert_eq!(p.pnl_realised, 40 * AMOUNT_ONE);
}

#[test]
fn short_position_gains_when_price_falls() {
    let mut p = flat();
    p.update_from_trade(&trade(Side::Sell, 100 * AMOUNT_ONE, 5 * AMOUNT_ONE, 0));
    assert_eq!(p.side, Side::Sell);
    p.update_from_trade(&trade(Side::Buy, 90 * AMOUNT_ONE, 5 * AMOUNT_ONE, 0));
    // (100 - 90) * 5 = 50 realised; flat again.
    assert_eq!(p.quantity_net, 0);
    assert_eq!(p.side, Side::Buy);
    assert_eq!(p.price_average, 0);
    assert_eq!(p.pnl_realised, 50 * AMOUNT_ONE);
}

#[test]
fn crossing_trade_reopens_remainder_at_trade_price() {
    let mut p = flat();
    p.update_from_trade(&trade(Side::Buy, 100 * AMOUNT_ONE, 3 * AMOUNT_ONE, 0));
    p.update_from_trade(&trade(Side::Sell, 120 * AMOUNT_ONE, 8 * AMOUNT_ONE, 0));
    // 3 closed at +20 each = 60 realised, 5 short at 120.
    assert_eq!(p.side, Side::Sell);
    assert_eq!(p.quantity_net, 5 * AMOUNT_ONE);
    assert_eq!(p.price_average, 120 * AMOUNT_ONE);
    assert_eq!(p.pnl_realised, 60 * AMOUNT_ONE);
}

#[test]
fn fees_are_subtracted_from_realised_pnl() {
    let mut p = flat();
    p.update_from_trade(&trade(Side::Buy, 100 * AMOUNT_ONE, AMOUNT_ONE, 3 * AMOUNT_ONE));
    assert_eq!(p.pnl_realised, -3 * AMOUNT_ONE);
    p.update_from_trade(&trade(Side::Sell, 100 * AMOUNT_ONE, AMOUNT_ONE, 2 * AMOUNT_ONE));
    assert_eq!(p.pnl_realised, -5 * AMOUNT_ONE);
}

#[test]
fn net_quantity_tracks_signed_sum_of_trades() {
    // The executable face of the ledger law: the net equals the signed sum
    // of all filled quantities.
    let mut p = flat();
    let fills = [
        (Side::Buy, 7 * AMOUNT_ONE),
        (Side::Sell, 2 * AMOUNT_ONE),
        (Side::Sell, 9 * AMOUNT_ONE),
        (Side::Buy, 1 * AMOUNT_ONE),
    ];
    let mut signed: i128 = 0;
    for (side, qty) in fills {
        p.update_from_trade(&trade(side, 50 * AMOUNT_ONE, qty, 0));
        signed += if side == Side::Buy { qty } else { -qty };
    }
    let net = match p.side {
        Side::Buy => p.quantity_net,
        Side::Sell => -p.quantity_net,
    };
    assert_eq!(net, signed);
    assert_eq!(net, -3 * AMOUNT_ONE);
}

#[test]
fn truncating_scaled_gain_rounds_toward_zero() {
    let mut p = flat();
    // Entry 100, exit 100.0000015, qty 1: raw gain 1.5 units, truncated to 1.
    p.update_from_trade(&trade(Side::Buy, 100 * AMOUNT_ONE, AMOUNT_ONE, 0));
    p.update_from_trade(&trade(Side::Sell, 100 * AMOUNT_ONE + 1, AMOUNT_ONE, 0));
    assert_eq!(p.pnl_realised, 1);
}
