//! Scalar domain types: venue / asset / instrument keys, order identifiers,
//! trade side, and the fixed-point representation used for every quantity,
//! price and fee in the engine.

use vstd::prelude::*;

verus! {

/// Number of fixed-point units in one whole: every `Amount` value counts
/// millionths (6 decimal places).
pub const AMOUNT_ONE: i128 = 1_000_000;

/// Magnitude bound on every price, quantity and fee the engine accepts.
pub const AMOUNT_MAX: i128 = 1_000_000_000_000_000_000;

/// Saturation bound for accumulated profit-and-loss values.
pub const PNL_MAX: i128 = 1_000_000_000_000_000_000_000_000_000_000;

/// A fixed-point number: `raw` counts millionths of the unit in which the
/// instrument is quoted.
pub type Amount = i128;

/// True for amounts small enough that every product and quotient the engine
/// forms stays inside `i128`.
pub open spec fn amount_in_bounds(a: Amount) -> bool {
    -AMOUNT_MAX <= a <= AMOUNT_MAX
}

/// True for accumulated profit-and-loss values, which saturate at `PNL_MAX`.
pub open spec fn pnl_in_bounds(a: Amount) -> bool {
    -PNL_MAX <= a <= PNL_MAX
}

/// Key of a trading venue in the engine's indexed universe.
#[derive(Debug, Clone, Copy, PartialEq, Eq, Structural, Hash)]
pub struct ExchangeIndex {
    pub index: usize,
}

/// Key of an asset in the engine's indexed universe.
#[derive(Debug, Clone, Copy, PartialEq, Eq, Structural, Hash)]
pub struct AssetIndex {
    pub index: usize,
}

/// Key of an instrument in the engine's indexed universe.
#[derive(Debug, Clone, Copy, PartialEq, Eq, Structural, Hash)]
pub struct InstrumentIndex {
    pub index: usize,
}

/// Caller-generated order identifier, unique per instrument.
#[derive(Debug, Clone, Copy, PartialEq, Eq, Structural, Hash)]
pub struct ClientOrderId {
    pub id: u64,
}

/// Venue-assigned order identifier.
#[derive(Debug, Clone, Copy, PartialEq, Eq, Structural, Hash)]
pub struct OrderId {
    pub id: u64,
}

/// Side of a trade or order.
#[derive(Debug, Clone, Copy, PartialEq, Eq, Structural, Hash)]
pub enum Side {
    Buy,
    Sell,
}

impl Side {
    /// The opposite side.
    pub fn opposite(self) -> (r: Side)
        ensures
            r == (match self {
                Side::Buy => Side::Sell,
                Side::Sell => Side::Buy,
            }),
    {
        match self {
            Side::Buy => Side::Sell,
            Side::Sell => Side::Buy,
        }
    }

    /// Sign of the side: buys add exposure, sells remove it.
    pub open spec fn spec_sign(self) -> int {
        match self {
            Side::Buy => 1,
            Side::Sell => -1,
        }
    }
}

/// Milliseconds since the Unix epoch; the engine's only notion of time.
pub type TimeMillis = i64;

/// An element-for-element copy of a vector of plain values.
pub fn clone_copy_vec<T: Copy>(v: &Vec<T>) -> (r: Vec<T>)
    ensures
        r@ == v@,
{
    let mut r: Vec<T> = Vec::new();
    let n = v.len();
    let mut i: usize = 0;
    while i < n
        invariant
            i <= n,
            n == v@.len(),
            r@ == v@.take(i as int),
        decreases n - i,
    {
        r.push(v[i]);
        proof {
            assert(r@ =~= v@.take(i + 1int));
        }
        i = i + 1;
    }
    proof {
        assert(v@.take(n as int) =~= v@);
    }
    r
}

} // verus!
