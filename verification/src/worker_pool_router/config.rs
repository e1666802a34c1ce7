//! Router configuration.
use vstd::prelude::*;

verus! {

/// How long the router waits for its pools, and for how many of them.
#[derive(Debug, Clone, Copy, PartialEq, Eq, Structural)]
pub struct WorkerPoolRouterConfig {
    /// Time for an order that does not set its own, in milliseconds.
    pub default_timeout_ms: u64,
    /// Number of responses after which the router stops waiting; zero waits for all pools.
    pub min_responses: usize,
}

impl Default for WorkerPoolRouterConfig {
    fn default() -> (r: Self)
        ensures
            r == (WorkerPoolRouterConfig { default_timeout_ms: 1000, min_responses: 1 }),
    {
        WorkerPoolRouterConfig { default_timeout_ms: 1000, min_responses: 1 }
    }
}

impl WorkerPoolRouterConfig {
    /// Sets the default timeout in milliseconds.
    pub fn with_timeout(self, timeout_ms: u64) -> (r: Self)
        ensures
            r == (WorkerPoolRouterConfig { default_timeout_ms: timeout_ms, ..self }),
    {
        WorkerPoolRouterConfig { default_timeout_ms: timeout_ms, ..self }
    }

    /// Sets the number of responses to wait for.
    pub fn with_min_responses(self, min_responses: usize) -> (r: Self)
        ensures
            r == (WorkerPoolRouterConfig { min_responses, ..self }),
    {
        WorkerPoolRouterConfig { min_responses, ..self }
    }

    /// The default timeout in milliseconds.
    pub fn default_timeout(&self) -> (r: u64)
        ensures
            r == self.default_timeout_ms,
    {
        self.default_timeout_ms
    }

    /// The number of responses to wait for.
    pub fn min_responses(&self) -> (r: usize)
        ensures
            r == self.min_responses,
    {
        self.min_responses
    }
}

} // verus!
