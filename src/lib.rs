//! Paper-trading engine: a bounded market-data store, a ledger that keeps
//! balances non-negative, a bot supervisor with stoploss enforcement, and a
//! small indicator library.
//!
//! All prices, quantities and balances are fixed-point numbers with eight
//! decimal places held in `u64` (see [`fixed`]).

pub mod fixed;
pub mod indicators;
pub mod keyed;
pub mod models;
pub mod market;
pub mod bots;
pub mod clock;
pub mod state;
pub mod auth;
pub mod api;
pub mod feed;
pub mod indicator_request;
