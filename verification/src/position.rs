//! Per-instrument position bookkeeping: net quantity signed by side, average
//! entry price maintained as a signed volume-weighted average, and realised
//! profit-and-loss incremented on reducing trades, fees subtracted.

use vstd::prelude::*;
use crate::types::{
    Amount, ClientOrderId, InstrumentIndex, Side, AMOUNT_MAX, AMOUNT_ONE, PNL_MAX, pnl_in_bounds,
};

verus! {

/// A fill reported by the venue: the traded instrument, the client order it
/// fills (if known), side, price, quantity and the fees charged.
#[derive(Debug, Clone, Copy, PartialEq, Eq, Structural, Hash)]
pub struct Trade {
    pub id: u64,
    pub instrument: InstrumentIndex,
    /// Client order this fill belongs to, when the venue reports one.
    pub cid: Option<ClientOrderId>,
    pub side: Side,
    pub price: Amount,
    pub quantity: Amount,
    pub fees: Amount,
}

impl Trade {
    pub open spec fn wf(self) -> bool {
        &&& 0 <= self.price <= AMOUNT_MAX
        &&& 0 < self.quantity <= AMOUNT_MAX
        &&& 0 <= self.fees <= AMOUNT_MAX
    }
}

/// Net position of one instrument. `quantity_net` is non-negative; `side`
/// carries its sign. A flat position is `side == Buy`, zero quantity, zero
/// average price.
#[derive(Debug, Clone, Copy, PartialEq, Eq, Structural, Hash)]
pub struct Position {
    pub instrument: InstrumentIndex,
    pub side: Side,
    pub quantity_net: Amount,
    pub price_average: Amount,
    pub pnl_unrealised: Amount,
    pub pnl_realised: Amount,
}

/// Accumulated profit-and-loss saturates at `PNL_MAX` in magnitude.
pub open spec fn spec_clamp_pnl(x: int) -> int {
    if x > PNL_MAX {
        PNL_MAX as int
    } else if x < -PNL_MAX {
        -PNL_MAX as int
    } else {
        x
    }
}

/// Realised gain of closing `qty` units entered at `entry` and exited at
/// `exit` on a position whose side has sign `side_sign`, in fixed-point
/// units (the product of two fixed-point numbers is scaled back down by
/// `AMOUNT_ONE`; the magnitude is rounded toward zero).
pub open spec fn spec_realised_gain(entry: int, exit: int, side_sign: int, qty: int) -> int {
    let diff = (exit - entry) * side_sign;
    if diff >= 0 {
        diff * qty / (AMOUNT_ONE as int)
    } else {
        -((-diff) * qty / (AMOUNT_ONE as int))
    }
}

impl Position {
    pub open spec fn wf(self) -> bool {
        &&& 0 <= self.quantity_net <= AMOUNT_MAX
        &&& 0 <= self.price_average <= AMOUNT_MAX
        &&& pnl_in_bounds(self.pnl_unrealised)
        &&& pnl_in_bounds(self.pnl_realised)
        &&& self.quantity_net == 0 ==> (self.side == Side::Buy && self.price_average == 0)
    }

    /// Net quantity with its sign: positive long, negative short.
    pub open spec fn spec_signed_net(self) -> int {
        self.side.spec_sign() * self.quantity_net
    }

    /// Runtime check for `wf`, for callers that receive a position from
    /// outside the verified world.
    pub fn is_well_formed(&self) -> (r: bool)
        ensures
            r == self.wf(),
    {
        0 <= self.quantity_net && self.quantity_net <= AMOUNT_MAX && 0 <= self.price_average
            && self.price_average <= AMOUNT_MAX && -PNL_MAX <= self.pnl_unrealised
            && self.pnl_unrealised <= PNL_MAX && -PNL_MAX <= self.pnl_realised
            && self.pnl_realised <= PNL_MAX && (if self.quantity_net == 0 {
            self.side == Side::Buy && self.price_average == 0
        } else {
            true
        })
    }

    /// A flat position: no exposure, no average price, no profit-and-loss.
    pub fn new_flat(instrument: InstrumentIndex) -> (r: Self)
        ensures
            r == Position::spec_new_flat(instrument),
    {
        Position {
            instrument,
            side: Side::Buy,
            quantity_net: 0,
            price_average: 0,
            pnl_unrealised: 0,
            pnl_realised: 0,
        }
    }

    pub open spec fn spec_new_flat(instrument: InstrumentIndex) -> Position {
        Position {
            instrument,
            side: Side::Buy,
            quantity_net: 0,
            price_average: 0,
            pnl_unrealised: 0,
            pnl_realised: 0,
        }
    }

    /// The position after a trade is applied. A trade in the direction of the
    /// position extends it and moves the average price to the volume-weighted
    /// average; a trade against it realises `(exit - entry) * closed * sign`
    /// on the closed part, crossing through flat re-opens the remainder at
    /// the trade price. Fees are always subtracted from realised
    /// profit-and-loss.
    pub open spec fn spec_update_from_trade(self, t: Trade) -> Position {
        let sp = self.side.spec_sign();
        if self.quantity_net == 0 {
            Position {
                side: t.side,
                quantity_net: t.quantity,
                price_average: t.price,
                pnl_realised: spec_clamp_pnl(self.pnl_realised - t.fees) as Amount,
                ..self
            }
        } else if t.side == self.side {
            Position {
                quantity_net: (self.quantity_net + t.quantity) as Amount,
                price_average: ((self.quantity_net * self.price_average + t.quantity * t.price)
                    / (self.quantity_net + t.quantity)) as Amount,
                pnl_realised: spec_clamp_pnl(self.pnl_realised - t.fees) as Amount,
                ..self
            }
        } else if t.quantity < self.quantity_net {
            Position {
                quantity_net: (self.quantity_net - t.quantity) as Amount,
                pnl_realised: spec_clamp_pnl(
                    self.pnl_realised
                        + spec_realised_gain(self.price_average as int, t.price as int, sp, t.quantity as int)
                        - t.fees,
                ) as Amount,
                ..self
            }
        } else if t.quantity == self.quantity_net {
            Position {
                side: Side::Buy,
                quantity_net: 0,
                price_average: 0,
                pnl_realised: spec_clamp_pnl(
                    self.pnl_realised
                        + spec_realised_gain(self.price_average as int, t.price as int, sp, t.quantity as int)
                        - t.fees,
                ) as Amount,
                ..self
            }
        } else {
            Position {
                side: t.side,
                quantity_net: (t.quantity - self.quantity_net) as Amount,
                price_average: t.price,
                pnl_realised: spec_clamp_pnl(
                    self.pnl_realised
                        + spec_realised_gain(self.price_average as int, t.price as int, sp, self.quantity_net as int)
                        - t.fees,
                ) as Amount,
                ..self
            }
        }
    }

    /// Apply one trade to the position.
    ///
    /// The net exposure moves by exactly the signed trade quantity; the trade
    /// must not push the position past the amount bound.
    pub fn update_from_trade(&mut self, t: &Trade)
        requires
            old(self).wf(),
            t.wf(),
            t.instrument == old(self).instrument,
            (old(self).quantity_net == 0 || t.side == old(self).side)
                ==> old(self).quantity_net + t.quantity <= AMOUNT_MAX,
        ensures
            *final(self) == old(self).spec_update_from_trade(*t),
            final(self).wf(),
            final(self).spec_signed_net()
                == old(self).spec_signed_net() + t.side.spec_sign() * t.quantity,
    {
        proof {
            lemma_update_from_trade_wf(*self, *t);
        }
        if self.quantity_net == 0 {
            self.side = t.side;
            self.quantity_net = t.quantity;
            self.price_average = t.price;
            self.pnl_realised = clamp_pnl_exec(self.pnl_realised - t.fees);
        } else if t.side == self.side {
            proof {
                lemma_weighted_average_bounds(
                    self.quantity_net as int,
                    self.price_average as int,
                    t.quantity as int,
                    t.price as int,
                );
            }
            let new_qty = self.quantity_net + t.quantity;
            let numerator = self.quantity_net * self.price_average + t.quantity * t.price;
            self.price_average = numerator / new_qty;
            self.quantity_net = new_qty;
            self.pnl_realised = clamp_pnl_exec(self.pnl_realised - t.fees);
        } else {
            let closed = if t.quantity < self.quantity_net { t.quantity } else { self.quantity_net };
            let gain = realised_gain_exec(self.price_average, t.price, self.side, closed);
            if t.quantity < self.quantity_net {
                self.quantity_net = self.quantity_net - t.quantity;
            } else if t.quantity == self.quantity_net {
                self.side = Side::Buy;
                self.quantity_net = 0;
                self.price_average = 0;
            } else {
                self.side = t.side;
                self.quantity_net = t.quantity - self.quantity_net;
                self.price_average = t.price;
            }
            self.pnl_realised = clamp_pnl_exec(self.pnl_realised + gain - t.fees);
        }
    }
}

/// Saturate an accumulated profit-and-loss value at the bound.
fn clamp_pnl_exec(x: Amount) -> (r: Amount)
    ensures
        r == spec_clamp_pnl(x as int),
{
    if x > PNL_MAX {
        PNL_MAX
    } else if x < -PNL_MAX {
        -PNL_MAX
    } else {
        x
    }
}

/// Compute `spec_realised_gain` executably; magnitudes stay inside `i128`.
fn realised_gain_exec(entry: Amount, exit: Amount, side: Side, qty: Amount) -> (r: Amount)
    requires
        0 <= entry <= AMOUNT_MAX,
        0 <= exit <= AMOUNT_MAX,
        0 <= qty <= AMOUNT_MAX,
    ensures
        r == spec_realised_gain(entry as int, exit as int, side.spec_sign(), qty as int),
        -2 * PNL_MAX <= r <= 2 * PNL_MAX,
{
    let (gain_is_positive, diff_mag): (bool, Amount) = match side {
        Side::Buy => (exit >= entry, if exit >= entry { exit - entry } else { entry - exit }),
        Side::Sell => (entry >= exit, if entry >= exit { entry - exit } else { exit - entry }),
    };
    proof {
        lemma_scaled_product_bounds(diff_mag as int, qty as int);
    }
    let mag = diff_mag * qty / AMOUNT_ONE;
    if gain_is_positive {
        mag
    } else {
        -mag
    }
}

/// For non-negative factors below the amount bound, the scaled product is
/// non-negative and bounded by twice `PNL_MAX`.
proof fn lemma_scaled_product_bounds(diff: int, qty: int)
    requires
        0 <= diff <= 2 * AMOUNT_MAX,
        0 <= qty <= AMOUNT_MAX,
    ensures
        0 <= diff * qty <= 2 * AMOUNT_MAX * AMOUNT_MAX,
        0 <= diff * qty / (AMOUNT_ONE as int) <= 2 * PNL_MAX,
{
    assert(0 <= diff * qty <= 2 * AMOUNT_MAX * AMOUNT_MAX) by (nonlinear_arith)
        requires
            0 <= diff <= 2 * AMOUNT_MAX,
            0 <= qty <= AMOUNT_MAX,
    ;
    vstd::arithmetic::div_mod::lemma_div_pos_is_pos(diff * qty, AMOUNT_ONE as int);
    vstd::arithmetic::div_mod::lemma_multiply_divide_le(
        diff * qty,
        AMOUNT_ONE as int,
        2 * PNL_MAX,
    );
}

/// The volume-weighted average of two prices lies between zero and the
/// amount bound, and the weighted sum itself stays inside `i128`.
proof fn lemma_weighted_average_bounds(qa: int, a: int, qb: int, b: int)
    requires
        0 < qa <= AMOUNT_MAX,
        0 < qb <= AMOUNT_MAX,
        0 <= a <= AMOUNT_MAX,
        0 <= b <= AMOUNT_MAX,
    ensures
        0 <= qa * a + qb * b <= 2 * AMOUNT_MAX * AMOUNT_MAX,
        0 <= (qa * a + qb * b) / (qa + qb) <= AMOUNT_MAX,
{
    assert(0 <= qa * a + qb * b <= (qa + qb) * AMOUNT_MAX && (qa + qb) * AMOUNT_MAX <= 2 * AMOUNT_MAX
        * AMOUNT_MAX) by (nonlinear_arith)
        requires
            0 < qa <= AMOUNT_MAX,
            0 < qb <= AMOUNT_MAX,
            0 <= a <= AMOUNT_MAX,
            0 <= b <= AMOUNT_MAX,
    ;
    vstd::arithmetic::div_mod::lemma_div_pos_is_pos(qa * a + qb * b, qa + qb);
    vstd::arithmetic::div_mod::lemma_multiply_divide_le(qa * a + qb * b, qa + qb, AMOUNT_MAX as int);
}

/// Applying a trade preserves well-formedness, provided an extending trade
/// does not push the quantity past the amount bound.
proof fn lemma_update_from_trade_wf(p: Position, t: Trade)
    requires
        p.wf(),
        t.wf(),
        (p.quantity_net == 0 || t.side == p.side) ==> p.quantity_net + t.quantity <= AMOUNT_MAX,
    ensures
        p.spec_update_from_trade(t).wf(),
        p.spec_update_from_trade(t).spec_signed_net()
            == p.spec_signed_net() + t.side.spec_sign() * t.quantity,
{
    if p.quantity_net != 0 && t.side == p.side {
        lemma_weighted_average_bounds(
            p.quantity_net as int,
            p.price_average as int,
            t.quantity as int,
            t.price as int,
        );
    }
}

/// The position reached by applying a sequence of trades in order.
pub open spec fn spec_apply_trades(p: Position, trades: Seq<Trade>) -> Position
    decreases trades.len(),
{
    if trades.len() == 0 {
        p
    } else {
        spec_apply_trades(p.spec_update_from_trade(trades[0]), trades.drop_first())
    }
}

/// Sum of the trade quantities, signed by trade side.
pub open spec fn spec_sum_signed_quantities(trades: Seq<Trade>) -> int
    decreases trades.len(),
{
    if trades.len() == 0 {
        0
    } else {
        trades[0].side.spec_sign() * trades[0].quantity + spec_sum_signed_quantities(
            trades.drop_first(),
        )
    }
}

/// Sum of the (positive) trade quantities, ignoring side.
pub open spec fn spec_sum_quantities(trades: Seq<Trade>) -> int
    decreases trades.len(),
{
    if trades.len() == 0 {
        0
    } else {
        trades[0].quantity + spec_sum_quantities(trades.drop_first())
    }
}

/// The signed net quantity of a position equals the signed sum of the filled
/// quantities of all trades applied to it since it was flat. The total traded
/// quantity must fit the machine integer that carries the net.
pub proof fn lemma_position_tracks_trades(instrument: InstrumentIndex, trades: Seq<Trade>)
    requires
        forall|i: int| 0 <= i < trades.len() ==> (#[trigger] trades[i]).wf(),
        spec_sum_quantities(trades) <= i128::MAX,
    ensures
        spec_apply_trades(Position::spec_new_flat(instrument), trades).spec_signed_net()
            == spec_sum_signed_quantities(trades),
    decreases trades.len(),
{
    lemma_apply_trades_signed_net(Position::spec_new_flat(instrument), trades);
}

/// One trade moves the signed net by exactly its signed quantity; by
/// induction, a whole sequence moves it by the signed sum.
pub proof fn lemma_apply_trades_signed_net(p: Position, trades: Seq<Trade>)
    requires
        0 <= p.quantity_net,
        forall|i: int| 0 <= i < trades.len() ==> (#[trigger] trades[i]).wf(),
        p.quantity_net + spec_sum_quantities(trades) <= i128::MAX,
    ensures
        spec_apply_trades(p, trades).spec_signed_net()
            == p.spec_signed_net() + spec_sum_signed_quantities(trades),
    decreases trades.len(),
{
    if trades.len() > 0 {
        let t0 = trades[0];
        let rest = trades.drop_first();
        assert(forall|i: int| 0 <= i < rest.len() ==> (#[trigger] rest[i]).wf());
        lemma_sum_quantities_nonneg(rest);
        let p1 = p.spec_update_from_trade(t0);
        lemma_trade_signed_net(p, t0);
        lemma_apply_trades_signed_net(p1, rest);
    }
}

/// The quantity sum of well-formed trades is non-negative.
proof fn lemma_sum_quantities_nonneg(trades: Seq<Trade>)
    requires
        forall|i: int| 0 <= i < trades.len() ==> (#[trigger] trades[i]).wf(),
    ensures
        spec_sum_quantities(trades) >= 0,
    decreases trades.len(),
{
    if trades.len() > 0 {
        assert(forall|i: int|
            0 <= i < trades.drop_first().len() ==> (#[trigger] trades.drop_first()[i]).wf());
        lemma_sum_quantities_nonneg(trades.drop_first());
    }
}

/// The single-step form of the law above: one trade moves the signed net by
/// its signed quantity, and keeps the net quantity non-negative and no larger
/// than the sum of the old net and the trade quantity.
proof fn lemma_trade_signed_net(p: Position, t: Trade)
    requires
        0 <= p.quantity_net,
        0 < t.quantity,
        p.quantity_net + t.quantity <= i128::MAX,
    ensures
        p.spec_update_from_trade(t).spec_signed_net()
            == p.spec_signed_net() + t.side.spec_sign() * t.quantity,
        0 <= p.spec_update_from_trade(t).quantity_net <= p.quantity_net + t.quantity,
{
    let p1 = p.spec_update_from_trade(t);
    let sp = p.side.spec_sign();
    let st = t.side.spec_sign();
    let qn = p.quantity_net as int;
    let tq = t.quantity as int;
    let qn1 = p1.quantity_net as int;
    let s1 = p1.side.spec_sign();
    if p.quantity_net == 0 {
        assert(st * tq == sp * qn + st * tq) by (nonlinear_arith)
            requires
                qn == 0,
        ;
    } else if t.side == p.side {
        assert(sp * (qn + tq) == sp * qn + st * tq) by (nonlinear_arith)
            requires
                st == sp,
        ;
    } else if t.quantity < p.quantity_net {
        assert(sp * (qn - tq) == sp * qn + st * tq) by (nonlinear_arith)
            requires
                st == -sp,
        ;
    } else if t.quantity == p.quantity_net {
        assert(1int * 0int == sp * qn + st * tq) by (nonlinear_arith)
            requires
                st == -sp,
                tq == qn,
        ;
    } else {
        assert(st * (tq - qn) == sp * qn + st * tq) by (nonlinear_arith)
            requires
                st == -sp,
        ;
    }
}

} // verus!
