//! Waiting for the data that a worker's algorithm needs.
use vstd::prelude::*;
use vstd::string::StringExecFns;

use crate::error::SolveError;

verus! {

/// How far the computations have come that an algorithm needs.
#[derive(Debug)]
pub struct Readiness {
    /// Whether the algorithm needs any computation.
    pub has_requirements: bool,
    /// Whether every computation it needs is there.
    pub is_ready: bool,
    /// Whether one of them has failed for the current block, and will not come.
    pub is_blocked: bool,
    /// The computations that are missing, in words.
    pub missing: String,
}

impl Readiness {
    /// Nothing stands in the way of solving.
    pub open spec fn suffices(self) -> bool {
        !self.has_requirements || self.is_ready
    }

    /// Whether nothing stands in the way of solving.
    pub fn is_sufficient(&self) -> (r: bool)
        ensures
            r == self.suffices(),
    {
        !self.has_requirements || self.is_ready
    }
}

/// What happens while a worker waits.
#[derive(Debug, Clone, Copy, PartialEq, Eq, Structural)]
pub enum WaitEvent {
    /// The worker looks how far the computations have come, with or without time left.
    Look { time_left: bool },
    /// The time is up.
    Expired,
    /// The computations may have come further.
    Notified,
}

/// What a waiting worker does next.
#[derive(Debug)]
pub enum WaitAction {
    /// Solve.
    Proceed,
    /// Answer with an error.
    Fail(SolveError),
    /// Wait until notified, or until the time is up.
    Wait,
    /// Look again.
    LookAgain,
}

/// What a waiting worker does next, as text.
pub enum WaitActionView {
    Proceed,
    Fail(crate::error::SolveErrorView),
    Wait,
    LookAgain,
}

impl View for WaitAction {
    type V = WaitActionView;

    open spec fn view(&self) -> WaitActionView {
        match self {
            WaitAction::Proceed => WaitActionView::Proceed,
            WaitAction::Fail(error) => WaitActionView::Fail(error@),
            WaitAction::Wait => WaitActionView::Wait,
            WaitAction::LookAgain => WaitActionView::LookAgain,
        }
    }
}

/// The end of waiting for computations of which one has failed.
pub open spec fn blocked(readiness: Readiness) -> WaitActionView {
    WaitActionView::Fail(
        crate::error::SolveErrorView::ComputationFailed(
            "required computation failed for current block: "@ + readiness.missing@,
        ),
    )
}

/// The end of waiting for too long.
pub open spec fn expired(readiness: Readiness) -> WaitActionView {
    WaitActionView::Fail(
        crate::error::SolveErrorView::NotReady(
            "timeout waiting for derived data: missing "@ + readiness.missing@,
        ),
    )
}

/// What a waiting worker does next. Looking, it proceeds where it can, gives up where a computation has
/// failed or no time is left, and else waits; notified, it looks again unless a computation has failed.
pub open spec fn waiting(event: WaitEvent, readiness: Readiness) -> WaitActionView {
    match event {
        WaitEvent::Look { time_left } => if readiness.suffices() {
            WaitActionView::Proceed
        } else if readiness.is_blocked {
            blocked(readiness)
        } else if !time_left {
            expired(readiness)
        } else {
            WaitActionView::Wait
        },
        WaitEvent::Expired => expired(readiness),
        WaitEvent::Notified => if readiness.is_blocked {
            blocked(readiness)
        } else {
            WaitActionView::LookAgain
        },
    }
}

/// The error of a worker that waits for computations of which one has failed.
fn blocked_error(readiness: &Readiness) -> (r: WaitAction)
    ensures
        r@ == blocked(*readiness),
{
    WaitAction::Fail(
        SolveError::ComputationFailed(
            "required computation failed for current block: ".to_string().concat(
                readiness.missing.as_str(),
            ),
        ),
    )
}

/// The error of a worker that has waited for too long.
fn expired_error(readiness: &Readiness) -> (r: WaitAction)
    ensures
        r@ == expired(*readiness),
{
    WaitAction::Fail(
        SolveError::NotReady(
            "timeout waiting for derived data: missing ".to_string().concat(
                readiness.missing.as_str(),
            ),
        ),
    )
}

/// Waits for the required data to become ready, step by step: says what a waiting worker does next.
pub fn wait_until_ready(event: WaitEvent, readiness: &Readiness) -> (r: WaitAction)
    ensures
        r@ == waiting(event, *readiness),
{
    match event {
        WaitEvent::Look { time_left } => {
            if readiness.is_sufficient() {
                return WaitAction::Proceed;
            }
            if readiness.is_blocked {
                return blocked_error(readiness);
            }
            if !time_left {
                return expired_error(readiness);
            }
            WaitAction::Wait
        },
        WaitEvent::Expired => expired_error(readiness),
        WaitEvent::Notified => {
            if readiness.is_blocked {
                return blocked_error(readiness);
            }
            WaitAction::LookAgain
        },
    }
}

/// A worker that waits solves only when nothing stands in the way, and one that looks without time
/// left waits no longer.
pub proof fn waiting_is_bounded(event: WaitEvent, readiness: Readiness)
    ensures
        waiting(event, readiness) is Proceed ==> readiness.suffices(),
        event == (WaitEvent::Look { time_left: false }) ==> !(waiting(event, readiness) is Wait)
            && !(waiting(event, readiness) is LookAgain),
        event is Expired ==> waiting(event, readiness) is Fail,
{
}

/// A worker that looks solves exactly where its algorithm needs nothing or all is there. Else a failed
/// computation ends its wait, then a lack of time; with neither it waits on.
pub proof fn looking_decides_by_what_is_there(time_left: bool, readiness: Readiness)
    ensures
        ({
            let action = waiting(WaitEvent::Look { time_left }, readiness);
            let lacks = readiness.has_requirements && !readiness.is_ready;
            &&& action is Proceed <==> !lacks
            &&& lacks && readiness.is_blocked ==> action == WaitActionView::Fail(
                crate::error::SolveErrorView::ComputationFailed(
                    "required computation failed for current block: "@ + readiness.missing@,
                ),
            )
            &&& lacks && !readiness.is_blocked && !time_left ==> action == WaitActionView::Fail(
                crate::error::SolveErrorView::NotReady(
                    "timeout waiting for derived data: missing "@ + readiness.missing@,
                ),
            )
            &&& lacks && !readiness.is_blocked && time_left ==> action is Wait
        }),
{
}

/// A worker that is notified looks again, unless a computation has failed; one whose time is up is not
/// ready.
pub proof fn notice_leads_to_another_look(readiness: Readiness)
    ensures
        !readiness.is_blocked ==> waiting(WaitEvent::Notified, readiness) is LookAgain,
        readiness.is_blocked ==> waiting(WaitEvent::Notified, readiness) == WaitActionView::Fail(
            crate::error::SolveErrorView::ComputationFailed(
                "required computation failed for current block: "@ + readiness.missing@,
            ),
        ),
        waiting(WaitEvent::Expired, readiness) == WaitActionView::Fail(
            crate::error::SolveErrorView::NotReady(
                "timeout waiting for derived data: missing "@ + readiness.missing@,
            ),
        ),
{
}

} // verus!
