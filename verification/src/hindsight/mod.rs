//! How a solver would have done on trades that settled on-chain.
//!
//! The trades of a block are found in its receipts, solved again, and compared with what settled.
pub mod compare;
pub mod price;
pub mod range;
pub mod receipts;
pub mod resolve;
pub mod summary;
pub mod telemetry;
