//! Setting a solver up: its pools, its feed and its router.
pub mod assembly;
pub mod builder;
pub mod defaults;
pub mod errors;
pub mod pool_config;
pub mod readiness;
pub mod recording;
