//! A verified order-execution and position-ledger engine for a small
//! brokerage service: accounts with a cash balance, per-symbol holdings
//! with a weighted-average cost basis, an append-only transaction log,
//! a time-bounded quote cache, and a portfolio valuation path.

pub mod engine;
pub mod errors;
pub mod ledger;
pub mod models;
pub mod quotes;
pub mod valuation;
