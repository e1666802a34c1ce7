//! Solving settled trades again, at one state of the market or at two.
use vstd::prelude::*;

use crate::amount::Amount;
use crate::bytes::Address;
use crate::hindsight::compare::{compare, served, verdict, Deltas, Outcome, Verdict};

verus! {

/// A trade that settled on-chain.
#[derive(Debug)]
pub struct DecodedTrade {
    pub tx_hash: String,
    pub block_number: u64,
    /// The platform that initiated the trade.
    pub client: String,
    /// The solver that the client routed through.
    pub aggregator: String,
    pub sender: Address,
    pub token_in: Address,
    pub token_out: Address,
    pub amount_in: Amount,
    pub amount_out: Amount,
}

/// A trade, solved again and compared with what settled.
#[derive(Debug)]
pub struct Comparison {
    pub tx_hash: String,
    pub block_number: u64,
    pub client: String,
    pub aggregator: String,
    pub token_in: Address,
    pub token_out: Address,
    pub amount_in: Amount,
    pub settled_amount_out: Amount,
    pub outcome: Outcome,
    pub deltas: Deltas,
    pub verdict: Verdict,
}

/// The result at one state of the market.
#[derive(Debug)]
pub struct StateResult {
    pub outcome: Outcome,
    pub deltas: Deltas,
    pub verdict: Verdict,
}

/// Whether a result is the one of an outcome against what settled.
pub open spec fn is_judged(
    outcome: Outcome,
    settled: nat,
    min_fill_bps: u64,
    result: StateResult,
) -> bool {
    &&& crate::hindsight::compare::is_served(outcome, settled, min_fill_bps, result.outcome)
    &&& crate::hindsight::compare::are_deltas(result.outcome, settled, result.deltas)
    &&& result.verdict == crate::hindsight::compare::verdict_on(result.outcome, settled)
}

impl StateResult {
    /// Judges an outcome against what settled.
    pub fn new(outcome: Outcome, settled_amount_out: &Amount, min_fill_bps: u64) -> (r: Self)
        ensures
            is_judged(outcome, settled_amount_out@, min_fill_bps, r),
    {
        let outcome: Outcome = served(outcome, settled_amount_out, min_fill_bps);
        let deltas: Deltas = compare(&outcome, settled_amount_out);
        let verdict: Verdict = verdict(&outcome, settled_amount_out);
        StateResult { outcome, deltas, verdict }
    }
}

/// A trade, solved again at both states of its block.
#[derive(Debug)]
pub struct RangeComparison {
    pub tx_hash: String,
    pub block_number: u64,
    pub client: String,
    pub aggregator: String,
    pub token_in: Address,
    pub token_out: Address,
    pub amount_in: Amount,
    pub settled_amount_out: Amount,
    /// Before the block's swaps moved the pools.
    pub top: StateResult,
    /// After the block's swaps moved the pools.
    pub back: StateResult,
    /// The verdict before the block.
    pub verdict: Verdict,
}

/// Whether a comparison is the one of a trade and an outcome.
pub open spec fn is_comparison(
    trade: DecodedTrade,
    outcome: Outcome,
    min_fill_bps: u64,
    r: Comparison,
) -> bool {
    &&& r.tx_hash == trade.tx_hash
    &&& r.block_number == trade.block_number
    &&& r.client == trade.client
    &&& r.aggregator == trade.aggregator
    &&& r.token_in == trade.token_in
    &&& r.token_out == trade.token_out
    &&& r.amount_in == trade.amount_in
    &&& r.settled_amount_out == trade.amount_out
    &&& is_judged(
        outcome,
        trade.amount_out@,
        min_fill_bps,
        StateResult { outcome: r.outcome, deltas: r.deltas, verdict: r.verdict },
    )
}

/// Whether a comparison is the one of a trade and its outcomes before and after the block.
pub open spec fn is_range(
    trade: DecodedTrade,
    top: Outcome,
    back: Outcome,
    min_fill_bps: u64,
    r: RangeComparison,
) -> bool {
    &&& r.tx_hash == trade.tx_hash
    &&& r.block_number == trade.block_number
    &&& r.client == trade.client
    &&& r.aggregator == trade.aggregator
    &&& r.token_in == trade.token_in
    &&& r.token_out == trade.token_out
    &&& r.amount_in == trade.amount_in
    &&& r.settled_amount_out == trade.amount_out
    &&& is_judged(top, trade.amount_out@, min_fill_bps, r.top)
    &&& is_judged(back, trade.amount_out@, min_fill_bps, r.back)
    &&& r.verdict == r.top.verdict
}

/// Puts the outcomes of a trade before and after its block together. The verdict before the block is
/// the headline.
pub fn build_range(trade: &DecodedTrade, top: Outcome, back: Outcome, min_fill_bps: u64) -> (r:
    RangeComparison)
    ensures
        is_range(*trade, top, back, min_fill_bps, r),
{
    let top: StateResult = StateResult::new(top, &trade.amount_out, min_fill_bps);
    let back: StateResult = StateResult::new(back, &trade.amount_out, min_fill_bps);
    let verdict: Verdict = top.verdict;
    RangeComparison {
        tx_hash: trade.tx_hash.clone(),
        block_number: trade.block_number,
        client: trade.client.clone(),
        aggregator: trade.aggregator.clone(),
        token_in: trade.token_in.clone(),
        token_out: trade.token_out.clone(),
        amount_in: trade.amount_in.clone(),
        settled_amount_out: trade.amount_out.clone(),
        top,
        back,
        verdict,
    }
}

/// Compares the outcome of solving a trade again with what settled.
pub fn compare_trade(trade: &DecodedTrade, outcome: Outcome, min_fill_bps: u64) -> (r: Comparison)
    ensures
        is_comparison(*trade, outcome, min_fill_bps, r),
{
    let result: StateResult = StateResult::new(outcome, &trade.amount_out, min_fill_bps);
    Comparison {
        tx_hash: trade.tx_hash.clone(),
        block_number: trade.block_number,
        client: trade.client.clone(),
        aggregator: trade.aggregator.clone(),
        token_in: trade.token_in.clone(),
        token_out: trade.token_out.clone(),
        amount_in: trade.amount_in.clone(),
        settled_amount_out: trade.amount_out.clone(),
        outcome: result.outcome,
        deltas: result.deltas,
        verdict: result.verdict,
    }
}

/// Where the solving of a block's trades stands.
#[derive(Debug, Clone, Copy, PartialEq, Eq, Structural)]
pub enum RangeStage {
    /// The trades are being solved before the block.
    Top,
    /// The solver is being stepped to the block.
    Advancing,
    /// The trades are being solved after the block.
    Back,
    Done,
    /// The solver could not be stepped.
    Failed,
}

/// What happens while a block's trades are being solved.
#[derive(Debug)]
pub enum RangeEvent {
    /// The trade that is next is solved, or found unsolvable.
    Solved(Outcome),
    /// The solver is stepped to the block.
    Advanced,
    /// The solver could not be stepped, for the reason given.
    AdvanceFailed(String),
}

/// What is to be done next.
#[derive(Debug)]
pub enum RangeAction {
    /// Solve this trade.
    Solve(usize),
    /// Step the solver to the next block.
    Advance,
    /// All is done.
    Finish,
    /// Give up, for the reason given.
    Fail(String),
    /// Nothing.
    Ignore,
}

/// A block whose trades are being solved: all before the block, then all after it, so that each state is
/// read as one and the chain is stepped once.
#[derive(Debug)]
pub struct RangeRun {
    pub trades: Vec<DecodedTrade>,
    pub min_fill_bps: u64,
    /// The outcomes before the block that have no outcome after it yet, in the order of the trades.
    pub tops: Vec<Outcome>,
    pub ranges: Vec<RangeComparison>,
    pub stage: RangeStage,
}

impl RangeRun {
    /// The outcomes are as many as the stage asks for.
    pub open spec fn well_formed(self) -> bool {
        match self.stage {
            RangeStage::Top => self.tops@.len() < self.trades@.len() && self.ranges@.len() == 0,
            RangeStage::Advancing => self.tops@.len() == self.trades@.len() && self.ranges@.len()
                == 0,
            RangeStage::Back => self.tops@.len() > 0 && self.tops@.len() + self.ranges@.len()
                == self.trades@.len(),
            RangeStage::Done => self.ranges@.len() == self.trades@.len(),
            RangeStage::Failed => self.ranges@.len() == 0,
        }
    }

    /// What an event leads to.
    pub open spec fn follows(self, event: RangeEvent, next: RangeRun, action: RangeAction) -> bool {
        let n = self.trades@.len();
        &&& next.trades == self.trades
        &&& next.min_fill_bps == self.min_fill_bps
        &&& match (self.stage, event) {
            (RangeStage::Top, RangeEvent::Solved(outcome)) => {
                &&& next.tops@ == self.tops@.push(outcome)
                &&& next.ranges@ == self.ranges@
                &&& if next.tops@.len() < n {
                    next.stage == RangeStage::Top && action == RangeAction::Solve(
                        next.tops@.len() as usize,
                    )
                } else {
                    next.stage == RangeStage::Advancing && action is Advance
                }
            },
            (RangeStage::Advancing, RangeEvent::Advanced) => {
                &&& next.tops@ == self.tops@
                &&& next.ranges@ == self.ranges@
                &&& if n > 0 {
                    next.stage == RangeStage::Back && action == RangeAction::Solve(0)
                } else {
                    next.stage == RangeStage::Done && action is Finish
                }
            },
            (RangeStage::Advancing, RangeEvent::AdvanceFailed(text)) => {
                &&& next.tops@ == self.tops@
                &&& next.ranges@ == self.ranges@
                &&& next.stage == RangeStage::Failed
                &&& action == RangeAction::Fail(text)
            },
            (RangeStage::Back, RangeEvent::Solved(outcome)) => {
                let at = self.ranges@.len() as int;
                &&& next.tops@ == self.tops@.skip(1)
                &&& next.ranges@.len() == at + 1
                &&& next.ranges@.take(at) == self.ranges@
                &&& is_range(
                    self.trades@[at],
                    self.tops@[0],
                    outcome,
                    self.min_fill_bps,
                    next.ranges@[at],
                )
                &&& if at + 1 < n {
                    next.stage == RangeStage::Back && action == RangeAction::Solve(
                        (at + 1) as usize,
                    )
                } else {
                    next.stage == RangeStage::Done && action is Finish
                }
            },
            _ => next == self && action is Ignore,
        }
    }

    /// Whether this is the beginning: the first trade is to be solved, or the chain to be stepped where
    /// there are no trades.
    pub open spec fn begins(
        self,
        trades: Vec<DecodedTrade>,
        min_fill_bps: u64,
        action: RangeAction,
    ) -> bool {
        &&& self.trades == trades
        &&& self.min_fill_bps == min_fill_bps
        &&& self.tops@.len() == 0
        &&& self.ranges@.len() == 0
        &&& if trades@.len() > 0 {
            self.stage == RangeStage::Top && action == RangeAction::Solve(0)
        } else {
            self.stage == RangeStage::Advancing && action is Advance
        }
    }

    /// Begins to solve the trades of a block.
    pub fn start(trades: Vec<DecodedTrade>, min_fill_bps: u64) -> (r: (Self, RangeAction))
        ensures
            r.0.begins(trades, min_fill_bps, r.1),
            r.0.well_formed(),
    {
        let (stage, action): (RangeStage, RangeAction) = if trades.len() > 0 {
            (RangeStage::Top, RangeAction::Solve(0))
        } else {
            (RangeStage::Advancing, RangeAction::Advance)
        };
        (
            RangeRun { trades, min_fill_bps, tops: Vec::new(), ranges: Vec::new(), stage },
            action,
        )
    }

    /// Goes on by an event.
    pub fn step(&mut self, event: RangeEvent) -> (r: RangeAction)
        requires
            old(self).well_formed(),
        ensures
            old(self).follows(event, *final(self), r),
            final(self).well_formed(),
    {
        let n: usize = self.trades.len();
        match (self.stage, event) {
            (RangeStage::Top, RangeEvent::Solved(outcome)) => {
                self.tops.push(outcome);
                let solved: usize = self.tops.len();
                if solved < n {
                    RangeAction::Solve(solved)
                } else {
                    self.stage = RangeStage::Advancing;
                    RangeAction::Advance
                }
            },
            (RangeStage::Advancing, RangeEvent::Advanced) => {
                if n > 0 {
                    self.stage = RangeStage::Back;
                    RangeAction::Solve(0)
                } else {
                    self.stage = RangeStage::Done;
                    RangeAction::Finish
                }
            },
            (RangeStage::Advancing, RangeEvent::AdvanceFailed(text)) => {
                self.stage = RangeStage::Failed;
                RangeAction::Fail(text)
            },
            (RangeStage::Back, RangeEvent::Solved(outcome)) => {
                let at: usize = self.ranges.len();
                let top: Outcome = self.tops.remove(0);
                assert(self.tops@ == old(self).tops@.skip(1));
                let range: RangeComparison = build_range(
                    &self.trades[at],
                    top,
                    outcome,
                    self.min_fill_bps,
                );
                self.ranges.push(range);
                assert(self.ranges@.take(at as int) == old(self).ranges@);
                if at + 1 < n {
                    RangeAction::Solve(at + 1)
                } else {
                    self.stage = RangeStage::Done;
                    RangeAction::Finish
                }
            },
            _ => RangeAction::Ignore,
        }
    }
}

/// How many events a block is at most away from its end.
pub open spec fn events_ahead(run: RangeRun) -> int {
    match run.stage {
        RangeStage::Top => 2 * run.trades@.len() + 1 - run.tops@.len(),
        RangeStage::Advancing => run.trades@.len() as int + 1,
        RangeStage::Back => run.trades@.len() - run.ranges@.len(),
        RangeStage::Done => 0,
        RangeStage::Failed => 0,
    }
}

/// Every event that is waited for brings a block closer to its end, where every trade has its result.
pub proof fn every_trade_is_paired(
    run: RangeRun,
    event: RangeEvent,
    next: RangeRun,
    action: RangeAction,
)
    requires
        run.well_formed(),
        run.follows(event, next, action),
    ensures
        !(action is Ignore) ==> 0 <= events_ahead(next) < events_ahead(run),
        action is Finish ==> next.ranges@.len() == run.trades@.len(),
{
}

/// The chain is stepped only when every trade is solved before the block.
pub proof fn steps_after_all_tops(
    run: RangeRun,
    event: RangeEvent,
    next: RangeRun,
    action: RangeAction,
)
    requires
        run.well_formed(),
        run.follows(event, next, action),
    ensures
        action is Advance ==> next.tops@.len() == run.trades@.len(),
{
}

/// Whether an event is what an action asks for: a trade that is to be solved is solved, and the chain is
/// stepped where it is to be, or cannot be.
pub open spec fn performs(action: RangeAction, event: RangeEvent) -> bool {
    match action {
        RangeAction::Solve(_) => event is Solved,
        RangeAction::Advance => event is Advanced || event is AdvanceFailed,
        _ => false,
    }
}

/// Whether runs follow each other from the beginning, each action being performed by an event. Action `k`
/// is the one on coming to run `k`.
pub open spec fn is_course(
    trades: Vec<DecodedTrade>,
    min_fill_bps: u64,
    runs: Seq<RangeRun>,
    actions: Seq<RangeAction>,
    events: Seq<RangeEvent>,
) -> bool {
    &&& runs.len() == events.len() + 1
    &&& actions.len() == events.len() + 1
    &&& runs[0].begins(trades, min_fill_bps, actions[0])
    &&& forall|k: int|
        0 <= k < events.len() ==> performs(actions[k], #[trigger] events[k]) && runs[k].follows(
            events[k],
            runs[k + 1],
            actions[k + 1],
        )
}

/// The outcome that an event brings.
pub open spec fn outcome_of(event: RangeEvent) -> Outcome {
    event->Solved_0
}

/// Where `n` trades stand after `k` events: they are solved in their order, the chain is stepped once,
/// and they are solved in their order again.
pub open spec fn stands_at(
    trades: Vec<DecodedTrade>,
    min_fill_bps: u64,
    events: Seq<RangeEvent>,
    k: int,
    run: RangeRun,
    action: RangeAction,
) -> bool {
    let n = trades@.len() as int;
    let again = k - n - 1;
    &&& run.trades == trades
    &&& run.min_fill_bps == min_fill_bps
    &&& if k <= n {
        &&& run.tops@.len() == k
        &&& forall|j: int| 0 <= j < k ==> #[trigger] run.tops@[j] == outcome_of(events[j])
        &&& run.ranges@.len() == 0
        &&& if k < n {
            run.stage == RangeStage::Top && action == RangeAction::Solve(k as usize)
        } else {
            run.stage == RangeStage::Advancing && action is Advance
        }
    } else {
        match events[n] {
            RangeEvent::AdvanceFailed(text) => {
                &&& k == n + 1
                &&& run.stage == RangeStage::Failed
                &&& run.ranges@.len() == 0
                &&& action == RangeAction::Fail(text)
            },
            RangeEvent::Solved(_) => false,
            RangeEvent::Advanced => {
                &&& again <= n
                &&& run.ranges@.len() == again
                &&& forall|j: int|
                    0 <= j < again ==> is_range(
                        trades@[j],
                        outcome_of(events[j]),
                        outcome_of(events[n + 1 + j]),
                        min_fill_bps,
                        #[trigger] run.ranges@[j],
                    )
                &&& run.tops@.len() == n - again
                &&& forall|j: int|
                    0 <= j < n - again ==> #[trigger] run.tops@[j] == outcome_of(events[again + j])
                &&& if again < n {
                    run.stage == RangeStage::Back && action == RangeAction::Solve(again as usize)
                } else {
                    run.stage == RangeStage::Done && action is Finish
                }
            },
        }
    }
}

proof fn course_stands(
    trades: Vec<DecodedTrade>,
    min_fill_bps: u64,
    runs: Seq<RangeRun>,
    actions: Seq<RangeAction>,
    events: Seq<RangeEvent>,
    k: int,
)
    requires
        is_course(trades, min_fill_bps, runs, actions, events),
        0 <= k <= events.len(),
    ensures
        stands_at(trades, min_fill_bps, events, k, runs[k], actions[k]),
    decreases k,
{
    let n = trades@.len() as int;
    if k > 0 {
        course_stands(trades, min_fill_bps, runs, actions, events, k - 1);
        let run = runs[k - 1];
        let next = runs[k];
        let event = events[k - 1];
        assert(performs(actions[k - 1], event) && run.follows(event, runs[k - 1 + 1], actions[k - 1
            + 1]));
        if k - 1 < n {
            assert forall|j: int| 0 <= j < k implies #[trigger] next.tops@[j] == outcome_of(
                events[j],
            ) by {
                if j < k - 1 {
                    assert(next.tops@[j] == run.tops@[j]);
                }
            }
        } else if k - 1 > n {
            let at = run.ranges@.len() as int;
            assert(at == k - n - 2);
            assert forall|j: int| 0 <= j < at + 1 implies is_range(
                trades@[j],
                outcome_of(events[j]),
                outcome_of(events[n + 1 + j]),
                min_fill_bps,
                #[trigger] next.ranges@[j],
            ) by {
                if j < at {
                    assert(next.ranges@.take(at)[j] == next.ranges@[j]);
                    assert(next.ranges@[j] == run.ranges@[j]);
                } else {
                    assert(run.tops@[0] == outcome_of(events[at]));
                }
            }
            assert forall|j: int| 0 <= j < n - at - 1 implies #[trigger] next.tops@[j]
                == outcome_of(events[at + 1 + j]) by {
                assert(next.tops@[j] == run.tops@[j + 1]);
            }
        }
    }
}

/// The whole course of a block: its trades are solved in their order, the chain is stepped exactly once,
/// and the trades are solved in their order again. Where the chain cannot be stepped the reason is the
/// result, and nothing is solved any more. Otherwise every trade gets the comparison of its own two
/// outcomes, before and after the block.
pub proof fn trades_are_solved_before_and_after(
    trades: Vec<DecodedTrade>,
    min_fill_bps: u64,
    runs: Seq<RangeRun>,
    actions: Seq<RangeAction>,
    events: Seq<RangeEvent>,
)
    requires
        is_course(trades, min_fill_bps, runs, actions, events),
    ensures
        events.len() <= 2 * trades@.len() + 1,
        forall|k: int|
            0 <= k <= events.len() && k < trades@.len() ==> #[trigger] actions[k]
                == RangeAction::Solve(k as usize),
        events.len() >= trades@.len() ==> actions[trades@.len() as int] is Advance,
        events.len() > trades@.len() ==> match events[trades@.len() as int] {
            RangeEvent::AdvanceFailed(text) => events.len() == trades@.len() + 1 && actions.last()
                == RangeAction::Fail(text),
            _ => forall|k: int|
                trades@.len() < k <= events.len() ==> if k <= 2 * trades@.len() {
                    #[trigger] actions[k] == RangeAction::Solve((k - trades@.len() - 1) as usize)
                } else {
                    actions[k] is Finish
                },
        },
        actions.last() is Finish ==> {
            &&& events.len() == 2 * trades@.len() + 1
            &&& runs.last().ranges@.len() == trades@.len()
            &&& forall|i: int|
                0 <= i < trades@.len() ==> is_range(
                    trades@[i],
                    outcome_of(events[i]),
                    outcome_of(events[trades@.len() + 1 + i]),
                    min_fill_bps,
                    #[trigger] runs.last().ranges@[i],
                )
        },
{
    let n = trades@.len() as int;
    assert forall|k: int| 0 <= k <= events.len() implies stands_at(
        trades,
        min_fill_bps,
        events,
        k,
        #[trigger] runs[k],
        actions[k],
    ) by {
        course_stands(trades, min_fill_bps, runs, actions, events, k);
    }
    let last = events.len() as int;
    assert(stands_at(trades, min_fill_bps, events, last, runs[last], actions[last]));
    assert forall|k: int| 0 <= k <= events.len() implies stands_at(
        trades,
        min_fill_bps,
        events,
        k,
        runs[k],
        #[trigger] actions[k],
    ) by {
        assert(stands_at(trades, min_fill_bps, events, k, runs[k], actions[k]));
    }
}

/// A quote for too little of what settled is neither a win nor a loss.
pub proof fn partial_fill_is_not_covered(
    solved: crate::hindsight::compare::SolvedAmount,
    settled: nat,
    min_fill_bps: u64,
    result: StateResult,
)
    requires
        crate::hindsight::compare::is_partial(solved, settled, min_fill_bps),
        is_judged(Outcome::Solved(solved), settled, min_fill_bps, result),
    ensures
        result.verdict == Verdict::Unsolvable,
        result.deltas.raw_bps is None,
        result.deltas.net_bps is None,
{
}

/// A comparison speaks of its trade, and judges its outcome against what the trade settled for: a quote
/// for too little is no quote, and one that counts wins exactly where it delivers more net of gas.
pub proof fn comparisons_speak_of_their_trade(
    trade: DecodedTrade,
    solved: crate::hindsight::compare::SolvedAmount,
    min_fill_bps: u64,
    r: Comparison,
)
    requires
        is_comparison(trade, Outcome::Solved(solved), min_fill_bps, r),
    ensures
        r.tx_hash == trade.tx_hash && r.block_number == trade.block_number,
        r.client == trade.client && r.aggregator == trade.aggregator,
        r.token_in == trade.token_in && r.token_out == trade.token_out,
        r.amount_in == trade.amount_in && r.settled_amount_out == trade.amount_out,
        solved.amount_out@ * 10_000 < trade.amount_out@ * min_fill_bps ==> r.verdict
            == Verdict::Unsolvable,
        solved.amount_out@ * 10_000 >= trade.amount_out@ * min_fill_bps ==> {
            &&& r.outcome == Outcome::Solved(solved)
            &&& r.verdict == Verdict::Win <==> trade.amount_out@ > 0 && solved.amount_out_net_gas@
                > trade.amount_out@
            &&& trade.amount_out@ > 0 ==> (r.deltas.net_bps matches Some(net) && net.spec_gain()
                == solved.amount_out_net_gas@ - trade.amount_out@)
            &&& trade.amount_out@ > 0 ==> (r.deltas.raw_bps matches Some(raw) && raw.spec_gain()
                == solved.amount_out@ - trade.amount_out@)
        },
{
}

/// The result before a block comes of the outcome before it, the result after it of the one after, both
/// against what the trade settled for; the headline is the verdict before.
pub proof fn ranges_speak_of_their_trade(
    trade: DecodedTrade,
    top: crate::hindsight::compare::SolvedAmount,
    back: crate::hindsight::compare::SolvedAmount,
    min_fill_bps: u64,
    r: RangeComparison,
)
    requires
        is_range(trade, Outcome::Solved(top), Outcome::Solved(back), min_fill_bps, r),
    ensures
        r.tx_hash == trade.tx_hash && r.block_number == trade.block_number,
        r.client == trade.client && r.aggregator == trade.aggregator,
        r.token_in == trade.token_in && r.token_out == trade.token_out,
        r.amount_in == trade.amount_in && r.settled_amount_out == trade.amount_out,
        r.verdict == r.top.verdict,
        r.verdict == Verdict::Win <==> top.amount_out@ * 10_000 >= trade.amount_out@ * min_fill_bps
            && trade.amount_out@ > 0 && top.amount_out_net_gas@ > trade.amount_out@,
        r.back.verdict == Verdict::Win <==> back.amount_out@ * 10_000 >= trade.amount_out@
            * min_fill_bps && trade.amount_out@ > 0 && back.amount_out_net_gas@ > trade.amount_out@,
{
}

} // verus!
