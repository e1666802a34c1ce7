//! Waiting until a solver can answer.
use vstd::prelude::*;

use crate::solver::errors::WaitReadyError;

verus! {

/// How often a solver is looked at, in milliseconds.
pub const POLL_INTERVAL_MS: u64 = 500;

/// What a solver has of what it needs.
#[derive(Debug, Clone, Copy, PartialEq, Eq, Structural)]
pub struct SolverStatus {
    /// The feed has delivered a snapshot of the market.
    pub market: bool,
    /// The derived data has been computed once.
    pub derived: bool,
    /// The router fees have been loaded once.
    pub router_fees: bool,
}

impl SolverStatus {
    /// The solver can answer.
    pub open spec fn suffices(self) -> bool {
        self.market && self.derived && self.router_fees
    }
}

/// What a caller does who waits for a solver.
#[derive(Debug)]
pub enum SolverWait {
    Ready,
    TimedOut(WaitReadyError),
    /// Look again after so many milliseconds.
    Poll(u64),
}

/// Waits until the solver is ready, step by step: it is when the market, the derived data and the router
/// fees are there. A solver that is ready is so even when the time is up.
pub fn wait_until_ready(status: SolverStatus, expired: bool, timeout_ms: u64) -> (r: SolverWait)
    ensures
        r == if status.suffices() {
            SolverWait::Ready
        } else if expired {
            SolverWait::TimedOut(WaitReadyError { timeout_ms })
        } else {
            SolverWait::Poll(POLL_INTERVAL_MS)
        },
{
    if status.market && status.derived && status.router_fees {
        return SolverWait::Ready;
    }
    if expired {
        return SolverWait::TimedOut(WaitReadyError { timeout_ms });
    }
    SolverWait::Poll(POLL_INTERVAL_MS)
}

/// A solver can answer exactly when the market, the derived data and the router fees are all there.
pub proof fn readiness_needs_every_part(status: SolverStatus)
    ensures
        status.suffices() ==> status.market && status.derived && status.router_fees,
        status == (SolverStatus { market: true, derived: true, router_fees: true })
            ==> status.suffices(),
{
}

/// A caller who waits stops as soon as all parts are there, even when the time is up; gives up when it is
/// and some are missing; and else looks again after half a second.
pub proof fn callers_wait_for_every_part(
    status: SolverStatus,
    expired: bool,
    timeout_ms: u64,
    r: SolverWait,
)
    requires
        call_ensures(wait_until_ready, (status, expired, timeout_ms), r),
    ensures
        ({
            let ready = status.market && status.derived && status.router_fees;
            &&& r is Ready <==> ready
            &&& r is TimedOut <==> !ready && expired
            &&& r matches SolverWait::TimedOut(error) ==> error.timeout_ms == timeout_ms
            &&& r matches SolverWait::Poll(after_ms) ==> after_ms == 500
        }),
{
}

} // verus!
