//! Solver workers and the pools they work in.
pub mod pool;
pub mod quoting;
pub mod readiness;
pub mod registry;
pub mod worker;
