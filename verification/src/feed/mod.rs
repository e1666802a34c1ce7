//! Keeping the market data synchronized.
pub mod config;
pub mod market_data;
pub mod permission;
pub mod run;
pub mod update;
