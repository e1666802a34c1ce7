//! Turning quotes into transactions of the router contract.
pub mod call;
pub mod encoder;
pub mod fees;
pub mod solution;
