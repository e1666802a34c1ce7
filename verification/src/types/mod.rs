//! What requests, quotes and routes are made of.
pub mod chain;
pub mod options;
pub mod order;
pub mod quote;
pub mod route;
