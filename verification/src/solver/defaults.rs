//! Default values for what can be configured.
use vstd::prelude::*;

verus! {

/// Minimum token quality score required for a token to be routed through.
pub const MIN_TOKEN_QUALITY: i32 = 100;

/// Days within which a token must have been traded.
pub const TRADED_N_DAYS_AGO: u64 = 3;

/// Ratio between the bounds of the TVL filter: 1.1, by its bits.
pub const TVL_BUFFER_RATIO_BITS: u64 = 0x3ff1_9999_9999_999a;

/// How often the gas price is refreshed, in milliseconds.
pub const GAS_REFRESH_INTERVAL_MS: u64 = 30_000;

/// How often router fees are refreshed, in milliseconds.
pub const ROUTER_FEE_REFRESH_INTERVAL_MS: u64 = 300_000;

/// Delay before the feed reconnects, in milliseconds.
pub const RECONNECT_DELAY_MS: u64 = 5_000;

/// Number of pool responses to wait for before a quote is returned; zero waits for all.
pub const ROUTER_MIN_RESPONSES: usize = 0;

/// Capacity of the task queue of each pool.
pub const POOL_TASK_QUEUE_CAPACITY: usize = 1000;

/// Minimum number of hops in a route.
pub const POOL_MIN_HOPS: usize = 1;

/// Maximum number of hops in a route.
pub const POOL_MAX_HOPS: usize = 3;

/// Time for a pool to solve an order, in milliseconds.
pub const POOL_TIMEOUT_MS: u64 = 100;

/// Whether the feed connects with TLS.
pub const TYCHO_USE_TLS: bool = true;

/// Slippage up to which the depth of a pool is measured: 0.01, by its bits.
pub const DEPTH_SLIPPAGE_THRESHOLD_BITS: u64 = 0x3f84_7ae1_47ae_147b;

/// Time for the router to answer a request, in milliseconds.
pub const ROUTER_TIMEOUT_MS: u64 = 10_000;

/// Gas price of a recording that has none: 10 gwei.
pub const RECORDED_GAS_PRICE_WEI: u64 = 10_000_000_000;

/// Least time for the router of a recording to answer, in milliseconds.
pub const RECORDED_ROUTER_TIMEOUT_MS: u64 = 5_000;

/// Number of fee units in the whole, for a recording.
pub const RECORDED_FEE_UNITS: u64 = 100_000_000;

} // verus!
