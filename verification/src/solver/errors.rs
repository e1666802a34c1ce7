//! Errors of setting a solver up.
use vstd::prelude::*;
use vstd::string::StringExecFns;

use crate::error::AlgorithmError;
use crate::text::decimal;
use crate::worker_pool::registry::UnknownAlgorithmError;

verus! {

/// The solver was not ready in time.
#[derive(Debug)]
pub struct WaitReadyError {
    pub timeout_ms: u64,
}

impl WaitReadyError {
    /// The error in words.
    pub fn message(&self) -> (r: String)
        ensures
            r@ == "timed out after "@ + crate::text::decimal_text(self.timeout_ms as nat)
                + "ms waiting for market data and derived computations"@,
    {
        "timed out after ".to_string().concat(decimal(self.timeout_ms).as_str()).concat(
            "ms waiting for market data and derived computations",
        )
    }
}

/// Why a solver could not be set up.
#[derive(Debug)]
pub enum SolverBuildError {
    /// The RPC client could not be created.
    RpcClient(String),
    /// An algorithm does not accept its configuration.
    AlgorithmConfig(AlgorithmError),
    /// The computation manager could not be created.
    ComputationManager(String),
    /// The encoder could not be created for the chain.
    Encoder(String),
    /// The router fee fetcher could not be created.
    RouterFeeFetcher(String),
    /// A pool names an algorithm that there is not.
    UnknownAlgorithm(UnknownAlgorithmError),
    /// The chain has no native gas token.
    GasToken,
    /// There are no pools.
    NoPools,
    /// A recorded update could not be replayed.
    Replay(String),
    /// The feed failed before it delivered the processor for pending blocks.
    FeedSetup(String),
    /// The feed ended without a word before it delivered the processor for pending blocks.
    PendingChannelClosed,
}

impl SolverBuildError {
    /// The error in words; of an algorithm's error, `algorithm_error` is the text.
    pub fn message(&self, algorithm_error: &str) -> (r: String)
        ensures
            r@ == match self {
                SolverBuildError::RpcClient(text) => "failed to create ethereum RPC client: "@
                    + text@,
                SolverBuildError::AlgorithmConfig(_) => algorithm_error@,
                SolverBuildError::ComputationManager(text) => {
                    "failed to create computation manager: "@ + text@
                },
                SolverBuildError::Encoder(text) => "failed to create encoder: "@ + text@,
                SolverBuildError::RouterFeeFetcher(text) => {
                    "failed to create router fee fetcher: "@ + text@
                },
                SolverBuildError::UnknownAlgorithm(error) => "unknown algorithm '"@ + error.name@
                    + "'. Available: most_liquid, bellman_ford, path_frank_wolfe"@,
                SolverBuildError::GasToken => "gas token not configured for chain"@,
                SolverBuildError::NoPools => "no worker pools configured"@,
                SolverBuildError::Replay(text) => "replay failed: "@ + text@,
                SolverBuildError::FeedSetup(text) => {
                    "feed setup failed before delivering pending processor: "@ + text@
                },
                SolverBuildError::PendingChannelClosed => {
                    "pending processor channel closed before processor was delivered"@
                },
            },
    {
        match self {
            SolverBuildError::RpcClient(text) => {
                "failed to create ethereum RPC client: ".to_string().concat(text.as_str())
            },
            SolverBuildError::AlgorithmConfig(_) => algorithm_error.to_string(),
            SolverBuildError::ComputationManager(text) => {
                "failed to create computation manager: ".to_string().concat(text.as_str())
            },
            SolverBuildError::Encoder(text) => {
                "failed to create encoder: ".to_string().concat(text.as_str())
            },
            SolverBuildError::RouterFeeFetcher(text) => {
                "failed to create router fee fetcher: ".to_string().concat(text.as_str())
            },
            SolverBuildError::UnknownAlgorithm(error) => error.message(),
            SolverBuildError::GasToken => "gas token not configured for chain".to_string(),
            SolverBuildError::NoPools => "no worker pools configured".to_string(),
            SolverBuildError::Replay(text) => {
                "replay failed: ".to_string().concat(text.as_str())
            },
            SolverBuildError::FeedSetup(text) => {
                "feed setup failed before delivering pending processor: ".to_string().concat(
                    text.as_str(),
                )
            },
            SolverBuildError::PendingChannelClosed => {
                "pending processor channel closed before processor was delivered".to_string()
            },
        }
    }
}

/// What becomes of a build that waits for the processor for pending blocks: the channel may deliver it,
/// deliver the feed's error, or close.
pub fn pending_result<P>(delivered: Option<Result<P, String>>) -> (r: Result<P, SolverBuildError>)
    ensures
        r == match delivered {
            Some(Ok(processor)) => Ok(processor),
            Some(Err(text)) => Err(SolverBuildError::FeedSetup(text)),
            None => Err(SolverBuildError::PendingChannelClosed),
        },
{
    match delivered {
        Some(Ok(processor)) => Ok(processor),
        Some(Err(text)) => Err(SolverBuildError::FeedSetup(text)),
        None => Err(SolverBuildError::PendingChannelClosed),
    }
}

/// A build that waits for a processor gets it, or the feed's error, or is told that nothing came.
pub proof fn waiting_builds_get_what_is_delivered<P>(
    delivered: Option<Result<P, String>>,
    r: Result<P, SolverBuildError>,
)
    requires
        call_ensures(pending_result::<P>, (delivered,), r),
    ensures
        delivered matches Some(Ok(processor)) ==> r == Ok::<P, SolverBuildError>(processor),
        delivered matches Some(Err(text)) ==> r == Err::<P, SolverBuildError>(
            SolverBuildError::FeedSetup(text),
        ),
        delivered is None ==> (r matches Err(SolverBuildError::PendingChannelClosed)),
{
}

/// Each error of a build is told in its own words.
pub proof fn build_errors_are_told(error: SolverBuildError, algorithm_error: &str, r: String)
    requires
        call_ensures(SolverBuildError::message, (&error, algorithm_error), r),
    ensures
        error matches SolverBuildError::RpcClient(text) ==> r@
            == "failed to create ethereum RPC client: "@ + text@,
        error is AlgorithmConfig ==> r@ == algorithm_error@,
        error matches SolverBuildError::ComputationManager(text) ==> r@
            == "failed to create computation manager: "@ + text@,
        error matches SolverBuildError::Encoder(text) ==> r@ == "failed to create encoder: "@ + text@,
        error matches SolverBuildError::RouterFeeFetcher(text) ==> r@
            == "failed to create router fee fetcher: "@ + text@,
        error matches SolverBuildError::UnknownAlgorithm(e) ==> r@ == "unknown algorithm '"@ + e.name@
            + "'. Available: most_liquid, bellman_ford, path_frank_wolfe"@,
        error is GasToken ==> r@ == "gas token not configured for chain"@,
        error is NoPools ==> r@ == "no worker pools configured"@,
        error matches SolverBuildError::Replay(text) ==> r@ == "replay failed: "@ + text@,
        error matches SolverBuildError::FeedSetup(text) ==> r@
            == "feed setup failed before delivering pending processor: "@ + text@,
        error is PendingChannelClosed ==> r@
            == "pending processor channel closed before processor was delivered"@,
{
}

} // verus!
