//! Core of an event-driven trading engine: a single-threaded reducer that
//! consumes a merged feed of market data, account events, operator commands
//! and trading-state toggles, mutates an in-memory world state, and produces
//! execution requests together with an audit trail of every state change.

pub mod action;
pub mod audit;
pub mod balance;
pub mod capability;
pub mod connectivity;
pub mod engine;
pub mod error;
pub mod events;
pub mod execution_tx;
pub mod instrument;
pub mod keys;
pub mod market;
pub mod order;
pub mod order_manager;
pub mod position;
pub mod risk;
pub mod send_requests;
pub mod sim;
pub mod state;
pub mod strategy;
pub mod types;
