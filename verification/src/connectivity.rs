//! Connection health per venue: one status for the market-data stream and one
//! for the account stream, each toggling between `Healthy` and `Reconnecting`.

use vstd::prelude::*;

verus! {

/// Health of one stream of one venue.
#[derive(Debug, Clone, Copy, PartialEq, Eq, Structural, Hash)]
pub enum Connection {
    Healthy,
    Reconnecting,
}

impl Default for Connection {
    /// A venue starts out healthy.
    fn default() -> (r: Self)
        ensures
            r == Connection::Healthy,
    {
        Connection::Healthy
    }
}

/// Health of both streams of one venue.
#[derive(Debug, Clone, Copy, PartialEq, Eq, Structural, Hash)]
pub struct ConnectivityState {
    pub market_data: Connection,
    pub account: Connection,
}

impl ConnectivityState {
    /// Both streams healthy; the state every venue starts in.
    pub fn new_healthy() -> (r: Self)
        ensures
            r == (ConnectivityState { market_data: Connection::Healthy, account: Connection::Healthy }),
    {
        ConnectivityState { market_data: Connection::Healthy, account: Connection::Healthy }
    }
}

impl Default for ConnectivityState {
    fn default() -> (r: Self)
        ensures
            r == (ConnectivityState { market_data: Connection::Healthy, account: Connection::Healthy }),
    {
        ConnectivityState::new_healthy()
    }
}

} // verus!
