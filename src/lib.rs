//! In-memory copy-trading core: a domain store of users, trades, copy relations
//! and copied trades, a small workflow interpreter over task/gateway graphs, and
//! the two workflows (create a trade, copy a trader) that run on it.
//!
//! Money and sizes are fixed-point integers: prices in minor units, quantities in
//! whole lots, copy ratios in basis points (10_000 is a ratio of 1.0), and
//! profit/loss as price units times lots.

mod outside;

pub mod ids;

pub mod model;
pub mod store;
pub mod tasks;
pub mod engine;
pub mod flows;
pub mod laws;
