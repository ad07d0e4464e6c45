//! Simulation-and-backtest orchestration for decentralized-exchange price data.
//!
//! The crate generates synthetic price paths from seeded stochastic processes,
//! drives automated-market-maker (AMM) models against those paths, normalizes
//! and persists swap-event data over block ranges, and decides the reconnect
//! policy of a live event monitor. All prices and rates are fixed-point
//! integers scaled by one million; arithmetic saturates at documented bounds so
//! that every step is total and reproducible.

pub mod amm;
pub mod backtest;
pub mod bindings;
pub mod codec;
pub mod config;
pub mod engine;
pub mod errors;
pub mod fixed;
pub mod monitor;
pub mod process;
pub mod rng;
