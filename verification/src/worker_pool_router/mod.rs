//! Orchestrates multiple solver pools to find the best quote per request.
pub mod collection;
pub mod config;
pub mod gas;
pub mod ranking;
pub mod request;
pub mod router;
pub mod surplus;
