//! The routing core of a DEX solver.
//!
//! Orders go to pools of workers ([`worker_pool`]), over a market that a feed keeps up to date
//! ([`feed`]). The router ([`worker_pool_router`]) collects the pools' quotes, ranks them, and has the
//! best ones encoded ([`encoding`]). [`solver`] configures and assembles the parts. [`hindsight`]
//! compares quotes with trades that have settled.
//!
//! Work that awaits is described by machines: a state and an event give the next state and the action
//! to perform.
pub mod amount;
pub mod bytes;
pub mod encoding;
pub mod error;
pub mod feed;
pub mod hindsight;
pub mod solver;
pub mod split;
pub mod table;
pub mod text;
pub mod types;
pub mod worker_pool;
pub mod worker_pool_router;
