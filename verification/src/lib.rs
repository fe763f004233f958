//! A minimal stock exchange: an authority mints a stock with a fixed supply,
//! participants post offers to buy or sell it, and a counterparty accepts an
//! offer to settle a trade in one step.
//!
//! The exchange holds four tables of records (stocks, positions, offers and
//! the market statistics) and keeps them consistent: no operation makes or
//! loses a unit of stock, and an operation that is refused changes nothing.
//! Funds are not held here. A settled trade says what the buyer owes the
//! seller, and the caller moves it.
//!
//! - `state`: the records.
//! - `error`: why an operation is refused.
//! - `instructions`: the rules of each operation, on records that the caller
//!   has looked up.
//! - `positions`: the position ledger.
//! - `stats`: the market statistics aggregator.
//! - `model`: the exchange as a mathematical value, and what each operation
//!   does to it.
//! - `exchange`: the tables in memory and the operations on them.
//! - `laws`: what holds of the exchange whatever is asked of it.

pub mod error;
pub mod exchange;
pub mod instructions;
pub mod laws;
pub mod model;
pub mod positions;
pub mod state;
pub mod stats;
