//! Errors of solving.
use vstd::prelude::*;

use crate::bytes::Bytes;

verus! {

/// Why an algorithm found no route.
#[derive(Debug)]
pub enum AlgorithmError {
    /// No path leads from the input token to the output token.
    NoPath { reason: String },
    /// A path exists, but not enough liquidity on it.
    InsufficientLiquidity,
    /// The time was up.
    Timeout { elapsed_ms: u64 },
    /// Orders for an exact output are not supported.
    ExactOutNotSupported,
    Other(String),
    /// The algorithm cannot run with its configuration.
    InvalidConfiguration { reason: String },
    /// A pool could not be simulated.
    SimulationFailed { component_id: String, error: String },
    /// Data that the algorithm needs is missing.
    DataNotFound { kind: String },
}

/// Why an order was not solved.
#[derive(Debug)]
pub enum SolveError {
    NoRouteFound { order_id: String },
    Timeout { elapsed_ms: u64 },
    QueueFull,
    /// The worker cannot solve yet.
    NotReady(String),
    AlgorithmError(String),
    /// A computation that the worker waits for has failed.
    ComputationFailed(String),
    FailedEncoding(String),
    PriceCheckFailed { order_id: String },
    Internal(String),
}

impl Clone for SolveError {
    fn clone(&self) -> (r: Self)
        ensures
            r == *self,
    {
        match self {
            SolveError::NoRouteFound { order_id } => SolveError::NoRouteFound {
                order_id: order_id.clone(),
            },
            SolveError::Timeout { elapsed_ms } => SolveError::Timeout { elapsed_ms: *elapsed_ms },
            SolveError::QueueFull => SolveError::QueueFull,
            SolveError::NotReady(text) => SolveError::NotReady(text.clone()),
            SolveError::AlgorithmError(text) => SolveError::AlgorithmError(text.clone()),
            SolveError::ComputationFailed(text) => SolveError::ComputationFailed(text.clone()),
            SolveError::FailedEncoding(text) => SolveError::FailedEncoding(text.clone()),
            SolveError::PriceCheckFailed { order_id } => SolveError::PriceCheckFailed {
                order_id: order_id.clone(),
            },
            SolveError::Internal(text) => SolveError::Internal(text.clone()),
        }
    }
}

/// Why an order was not solved, as text.
pub enum SolveErrorView {
    NoRouteFound { order_id: Seq<char> },
    Timeout { elapsed_ms: u64 },
    QueueFull,
    NotReady(Seq<char>),
    AlgorithmError(Seq<char>),
    ComputationFailed(Seq<char>),
    FailedEncoding(Seq<char>),
    PriceCheckFailed { order_id: Seq<char> },
    Internal(Seq<char>),
}

impl View for SolveError {
    type V = SolveErrorView;

    open spec fn view(&self) -> SolveErrorView {
        match self {
            SolveError::NoRouteFound { order_id } => SolveErrorView::NoRouteFound {
                order_id: order_id@,
            },
            SolveError::Timeout { elapsed_ms } => SolveErrorView::Timeout {
                elapsed_ms: *elapsed_ms,
            },
            SolveError::QueueFull => SolveErrorView::QueueFull,
            SolveError::NotReady(text) => SolveErrorView::NotReady(text@),
            SolveError::AlgorithmError(text) => SolveErrorView::AlgorithmError(text@),
            SolveError::ComputationFailed(text) => SolveErrorView::ComputationFailed(text@),
            SolveError::FailedEncoding(text) => SolveErrorView::FailedEncoding(text@),
            SolveError::PriceCheckFailed { order_id } => SolveErrorView::PriceCheckFailed {
                order_id: order_id@,
            },
            SolveError::Internal(text) => SolveErrorView::Internal(text@),
        }
    }
}

/// Why a solution was not encoded.
#[derive(Debug)]
pub enum EncodingError {
    /// The client fee and the router fee take more than the whole output.
    FeeTooHigh { client_fee_bps: u16, fee_on_output: u32, max_fee_units: u64 },
    /// The router takes more than the whole client fee.
    ClientShareTooHigh { fee_on_client_fee: u32, max_fee_units: u64 },
    /// An address does not have the length of one.
    InvalidAddress { address: Bytes },
    /// A permit came without its signature.
    MissingPermitSignature,
    /// The router function needs a permit, and there is none.
    MissingPermit,
    /// The router has no such function.
    UnsupportedFunction { signature: String },
}

} // verus!
