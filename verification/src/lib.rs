//! An in-memory cache of historical price series, with the technical
//! indicators and the backtest that read it.
//!
//! All amounts are fixed-point decimals counted in ticks of 1/10000 of a
//! currency unit, and all instants are milliseconds since the Unix epoch in
//! UTC, so every result is an exact integer and every contract is stated over
//! mathematical integers.
pub mod chart;
pub mod commands;
pub mod coordinator;
pub mod error;
pub mod indicators;
pub mod models;
pub mod strategies;
pub mod types;
pub mod utils;
