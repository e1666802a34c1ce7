//! Solving one order: from the worker's readiness to its quote.
use vstd::prelude::*;
use vstd::string::StringExecFns;

use crate::amount::Amount;
use crate::error::{AlgorithmError, SolveError};
use crate::text::decimal;
use crate::types::options::{SolveParams, StateLabel};
use crate::types::order::Order;
use crate::types::quote::{BlockInfo, OrderQuote, QuoteStatus, RouteResult, SingleOrderQuote};
use crate::types::route::{Route, Swap};
use crate::worker_pool::readiness::Readiness;

verus! {

/// Where the solving of an order stands.
#[derive(Debug)]
pub enum QuoteStage {
    /// The worker has taken the order.
    Taken,
    /// The graph is being built.
    Initializing,
    /// The block is being looked up.
    Reading,
    /// A route is being searched, against a state of the market.
    Solving { block: BlockInfo, solved_against: StateLabel },
    /// The order is answered.
    Answered,
}

/// What the market says about its state.
#[derive(Debug)]
pub struct MarketReading {
    /// The block up to which the market is known.
    pub block: Option<BlockInfo>,
    /// The overlay that was read, if any.
    pub label: Option<StateLabel>,
}

/// What happens while an order is being solved.
#[derive(Debug)]
pub enum QuoteEvent {
    /// The worker begins.
    Begin(Readiness),
    /// The graph is built.
    Initialized,
    /// The state of the market is there.
    MarketRead(MarketReading),
    /// There is no such state of the market.
    MarketRefused(String),
    /// The algorithm has found a route.
    RouteFound { result: RouteResult, elapsed_ms: u64 },
    /// The algorithm has failed. The text is the error in words.
    AlgorithmFailed { error: AlgorithmError, text: String },
}

/// What is to be done.
#[derive(Debug)]
pub enum QuoteAction {
    /// Build the graph.
    InitializeGraph,
    /// Read the state of the market, or of an overlay.
    ReadMarket(Option<StateLabel>),
    /// Search a route in that state.
    FindRoute(Option<StateLabel>),
    /// Answer the order.
    Answer(Result<SingleOrderQuote, SolveError>),
    /// Nothing.
    Ignore,
}

/// An order that is being solved.
#[derive(Debug)]
pub struct QuoteRun {
    pub order: Order,
    pub params: SolveParams,
    /// Name of the algorithm.
    pub algorithm: String,
    /// Whether the worker's graph was built when it took the order.
    pub initialized: bool,
    pub stage: QuoteStage,
}

/// What swaps yield of a token, added up.
pub open spec fn output_in(swaps: Seq<Swap>, token: Seq<u8>) -> nat
    decreases swaps.len(),
{
    if swaps.len() == 0 {
        0
    } else if swaps.last().token_out@ == token {
        output_in(swaps.drop_last(), token) + swaps.last().amount_out@
    } else {
        output_in(swaps.drop_last(), token)
    }
}

/// Whether a quote is the one for an order of which a route was found: the order's amount goes in, and
/// what the route yields of its last token comes out.
pub open spec fn is_quote_for(
    order: Order,
    algorithm: String,
    block: BlockInfo,
    solved_against: StateLabel,
    result: RouteResult,
    quote: OrderQuote,
) -> bool {
    let swaps = result.route.swaps@;
    &&& quote.order_id == order.id
    &&& quote.status == QuoteStatus::Success
    &&& quote.route == Some(result.route)
    &&& quote.amount_in == order.amount
    &&& quote.amount_out@ == output_in(swaps, swaps.last().token_out@)
    &&& quote.gas_estimate@ == crate::types::route::gas_of(swaps)
    &&& quote.amount_out_net_gas@ == if result.net_amount_out@ < 0 {
        0
    } else {
        result.net_amount_out@
    }
    &&& quote.block == block
    &&& quote.algorithm == algorithm
    &&& quote.gas_price == Some(result.gas_price)
    &&& quote.sender == order.sender
    &&& quote.receiver == order.output_receiver()
    &&& quote.solved_against == solved_against
    &&& quote.price_impact_bps is None
    &&& quote.transaction is None
    &&& quote.fee_breakdown is None
    &&& quote.surplus is None
}

/// What an order is answered whose algorithm has failed.
pub open spec fn failure_of(order: Order, error: AlgorithmError, text: Seq<char>) -> crate::error::SolveErrorView {
    match error {
        AlgorithmError::NoPath { .. } => crate::error::SolveErrorView::NoRouteFound {
            order_id: order.id@,
        },
        AlgorithmError::Timeout { elapsed_ms } => crate::error::SolveErrorView::Timeout { elapsed_ms },
        _ => crate::error::SolveErrorView::AlgorithmError(text),
    }
}

/// The state that a quote is solved against: the overlay, or else the number of the block.
pub open spec fn state_name(reading: MarketReading) -> Seq<char> {
    match reading.label {
        Some(label) => label@,
        None => crate::text::decimal_text(reading.block->Some_0.number as nat),
    }
}

/// An action answers an order with an error.
pub open spec fn answers(action: QuoteAction, error: crate::error::SolveErrorView) -> bool {
    action matches QuoteAction::Answer(Err(e)) && e@ == error
}

impl QuoteRun {
    /// What an event leads to: the next stage, and what is to be done.
    pub open spec fn reacts(self, event: QuoteEvent, next: QuoteStage, action: QuoteAction) -> bool {
        let label = self.params.state_label;
        match (self.stage, event) {
            (QuoteStage::Taken, QuoteEvent::Begin(readiness)) => if !readiness.suffices() {
                &&& next is Answered
                &&& answers(
                    action,
                    crate::error::SolveErrorView::NotReady(
                        "derived data not ready: missing "@ + readiness.missing@,
                    ),
                )
            } else if !self.initialized {
                next is Initializing && action is InitializeGraph
            } else {
                next is Reading && action == QuoteAction::ReadMarket(label)
            },
            (QuoteStage::Initializing, QuoteEvent::Initialized) => {
                next is Reading && action == QuoteAction::ReadMarket(label)
            },
            (QuoteStage::Reading, QuoteEvent::MarketRefused(text)) => {
                next is Answered && answers(action, crate::error::SolveErrorView::NotReady(text@))
            },
            (QuoteStage::Reading, QuoteEvent::MarketRead(reading)) => match reading.block {
                None => {
                    next is Answered && answers(
                        action,
                        crate::error::SolveErrorView::NotReady("No block info"@),
                    )
                },
                Some(block) => {
                    &&& next matches QuoteStage::Solving { block: b, solved_against }
                    &&& b == block
                    &&& solved_against@ == state_name(reading)
                    &&& action == QuoteAction::FindRoute(label)
                },
            },
            (
                QuoteStage::Solving { block, solved_against },
                QuoteEvent::RouteFound { result, elapsed_ms },
            ) => if result.route.swaps@.len() == 0 {
                next is Answered && answers(
                    action,
                    crate::error::SolveErrorView::NoRouteFound { order_id: self.order.id@ },
                )
            } else {
                &&& next is Answered
                &&& action matches QuoteAction::Answer(Ok(quote))
                &&& quote.solve_time_ms == elapsed_ms
                &&& is_quote_for(
                    self.order,
                    self.algorithm,
                    block,
                    solved_against,
                    result,
                    quote.order,
                )
            },
            (QuoteStage::Solving { .. }, QuoteEvent::AlgorithmFailed { error, text }) => {
                next is Answered && answers(action, failure_of(self.order, error, text@))
            },
            _ => next == self.stage && action is Ignore,
        }
    }

    /// Takes an order on.
    pub fn new(order: Order, params: SolveParams, algorithm: String, initialized: bool) -> (r: Self)
        ensures
            r == (QuoteRun { order, params, algorithm, initialized, stage: QuoteStage::Taken }),
    {
        QuoteRun { order, params, algorithm, initialized, stage: QuoteStage::Taken }
    }

    /// Goes on by an event.
    pub fn step(&mut self, event: QuoteEvent) -> (r: QuoteAction)
        ensures
            old(self).reacts(event, final(self).stage, r),
            *final(self) == (QuoteRun { stage: final(self).stage, ..*old(self) }),
    {
        match (&self.stage, event) {
            (QuoteStage::Taken, QuoteEvent::Begin(readiness)) => {
                if !readiness.is_sufficient() {
                    self.stage = QuoteStage::Answered;
                    return QuoteAction::Answer(
                        Err(
                            SolveError::NotReady(
                                "derived data not ready: missing ".to_string().concat(
                                    readiness.missing.as_str(),
                                ),
                            ),
                        ),
                    );
                }
                if !self.initialized {
                    self.stage = QuoteStage::Initializing;
                    return QuoteAction::InitializeGraph;
                }
                self.stage = QuoteStage::Reading;
                QuoteAction::ReadMarket(copy_label(&self.params.state_label))
            },
            (QuoteStage::Initializing, QuoteEvent::Initialized) => {
                self.stage = QuoteStage::Reading;
                QuoteAction::ReadMarket(copy_label(&self.params.state_label))
            },
            (QuoteStage::Reading, QuoteEvent::MarketRefused(text)) => {
                self.stage = QuoteStage::Answered;
                QuoteAction::Answer(Err(SolveError::NotReady(text)))
            },
            (QuoteStage::Reading, QuoteEvent::MarketRead(reading)) => {
                match &reading.block {
                    None => {
                        self.stage = QuoteStage::Answered;
                        QuoteAction::Answer(Err(SolveError::NotReady("No block info".to_string())))
                    },
                    Some(block) => {
                        let solved_against: StateLabel = match &reading.label {
                            Some(label) => label.clone(),
                            None => decimal(block.number),
                        };
                        self.stage = QuoteStage::Solving { block: block.clone(), solved_against };
                        QuoteAction::FindRoute(copy_label(&self.params.state_label))
                    },
                }
            },
            (
                QuoteStage::Solving { block, solved_against },
                QuoteEvent::RouteFound { result, elapsed_ms },
            ) => {
                let answer: Result<SingleOrderQuote, SolveError> = match build_quote(
                    &self.order,
                    &self.algorithm,
                    block,
                    solved_against,
                    result,
                ) {
                    Some(quote) => Ok(SingleOrderQuote::new(quote, elapsed_ms)),
                    None => Err(SolveError::NoRouteFound { order_id: self.order.id.clone() }),
                };
                self.stage = QuoteStage::Answered;
                QuoteAction::Answer(answer)
            },
            (QuoteStage::Solving { .. }, QuoteEvent::AlgorithmFailed { error, text }) => {
                let answer: SolveError = match error {
                    AlgorithmError::NoPath { .. } => SolveError::NoRouteFound {
                        order_id: self.order.id.clone(),
                    },
                    AlgorithmError::Timeout { elapsed_ms } => SolveError::Timeout { elapsed_ms },
                    _ => SolveError::AlgorithmError(text),
                };
                self.stage = QuoteStage::Answered;
                QuoteAction::Answer(Err(answer))
            },
            _ => QuoteAction::Ignore,
        }
    }
}

/// A copy of an optional label.
fn copy_label(label: &Option<StateLabel>) -> (r: Option<StateLabel>)
    ensures
        r == *label,
{
    match label {
        Some(l) => Some(l.clone()),
        None => None,
    }
}

/// What a route yields of its last token.
fn route_output(route: &Route) -> (r: Amount)
    requires
        route.swaps@.len() > 0,
    ensures
        r@ == output_in(route.swaps@, route.swaps@.last().token_out@),
{
    let n: usize = route.swaps.len();
    let ghost swaps = route.swaps@;
    let ghost token = swaps.last().token_out@;
    let mut sum: Amount = Amount::zero();
    let mut i: usize = 0;
    while i < n
        invariant
            n == swaps.len(),
            n > 0,
            i <= n,
            swaps == route.swaps@,
            token == swaps.last().token_out@,
            sum@ == output_in(swaps.take(i as int), token),
        decreases n - i,
    {
        if route.swaps[i].token_out.same(&route.swaps[n - 1].token_out) {
            sum = sum.plus(&route.swaps[i].amount_out);
        }
        assert(swaps.take(i + 1).drop_last() == swaps.take(i as int));
        i += 1;
    }
    assert(swaps.take(i as int) == swaps);
    sum
}

/// The quote for an order of which a route was found; none where the route has no swaps.
pub fn build_quote(
    order: &Order,
    algorithm: &String,
    block: &BlockInfo,
    solved_against: &StateLabel,
    result: RouteResult,
) -> (r: Option<OrderQuote>)
    ensures
        r is Some == (result.route.swaps@.len() > 0),
        r matches Some(quote) ==> is_quote_for(
            *order,
            *algorithm,
            *block,
            *solved_against,
            result,
            quote,
        ),
{
    if result.route.swaps.len() == 0 {
        return None;
    }
    let amount_out_net_gas: Amount = result.net_amount_out.or_zero();
    let gas_price: Amount = result.gas_price.clone();
    let route: Route = result.into_route();
    let quote: OrderQuote = OrderQuote::new(
        order.id.clone(),
        QuoteStatus::Success,
        order.amount.clone(),
        route_output(&route),
        route.total_gas(),
        amount_out_net_gas,
        block.clone(),
        algorithm.clone(),
        order.sender.clone(),
        order.effective_receiver(),
        solved_against.clone(),
    );
    Some(quote.with_route(route).with_gas_price(gas_price))
}

/// How many steps an order is at most away from its answer.
pub open spec fn steps_ahead(stage: QuoteStage) -> nat {
    match stage {
        QuoteStage::Taken => 4,
        QuoteStage::Initializing => 3,
        QuoteStage::Reading => 2,
        QuoteStage::Solving { .. } => 1,
        QuoteStage::Answered => 0,
    }
}

/// Every event that an order waits for brings it closer to its answer, and it is answered once, at the
/// end.
pub proof fn quoting_makes_progress(
    run: QuoteRun,
    event: QuoteEvent,
    next: QuoteStage,
    action: QuoteAction,
)
    requires
        run.reacts(event, next, action),
    ensures
        !(action is Ignore) ==> steps_ahead(next) < steps_ahead(run.stage),
        action is Answer == (next is Answered && !(run.stage is Answered)),
        run.stage is Answered ==> action is Ignore,
{
}

/// A route is searched only after the worker was found ready.
pub proof fn unready_worker_never_searches(
    run: QuoteRun,
    readiness: Readiness,
    next: QuoteStage,
    action: QuoteAction,
)
    requires
        run.stage is Taken,
        !readiness.suffices(),
        run.reacts(QuoteEvent::Begin(readiness), next, action),
    ensures
        next is Answered,
        action is Answer,
{
}

/// The quote of a found route is the order's: it goes by the order's id, takes in the order's amount
/// from the order's sender, and goes to the address that the order names as its receiver; only where the
/// order names none does it go back to the sender.
pub proof fn quote_serves_its_order(
    order: Order,
    algorithm: String,
    block: BlockInfo,
    solved_against: StateLabel,
    result: RouteResult,
    quote: OrderQuote,
)
    requires
        is_quote_for(order, algorithm, block, solved_against, result, quote),
    ensures
        quote.order_id == order.id,
        quote.amount_in == order.amount,
        quote.sender == order.sender,
        order.receiver is Some ==> quote.receiver == order.receiver->Some_0,
        order.receiver is None ==> quote.receiver == order.sender,
        quote.status == QuoteStatus::Success,
        quote.route is Some,
        quote.route->Some_0 == result.route,
        quote.block == block,
        quote.algorithm == algorithm,
        quote.solved_against == solved_against,
        quote.gas_price == Some(result.gas_price),
        quote.transaction is None && quote.fee_breakdown is None && quote.surplus is None
            && quote.price_impact_bps is None,
        result.net_amount_out@ >= 0 ==> quote.amount_out_net_gas@ == result.net_amount_out@,
        result.net_amount_out@ <= 0 ==> quote.amount_out_net_gas@ == 0,
{
}

/// What swaps yield of a token: nothing where there are none, and each further swap adds its output
/// exactly where it ends at that token.
pub proof fn outputs_of_a_token_add_up(swaps: Seq<Swap>, swap: Swap, token: Seq<u8>)
    ensures
        output_in(Seq::<Swap>::empty(), token) == 0,
        swap.token_out@ == token ==> output_in(swaps.push(swap), token) == output_in(swaps, token)
            + swap.amount_out@,
        swap.token_out@ != token ==> output_in(swaps.push(swap), token) == output_in(swaps, token),
{
    assert(swaps.push(swap).drop_last() =~= swaps);
}

/// The output of a route in sequence, whose tokens all differ, is the output of its last swap; that of a
/// route whose swaps all end at the same token is the sum of their outputs. Its gas is the sum of the
/// gas of its swaps.
pub proof fn quoted_output_is_what_the_route_yields(
    order: Order,
    algorithm: String,
    block: BlockInfo,
    solved_against: StateLabel,
    result: RouteResult,
    quote: OrderQuote,
)
    requires
        result.route.swaps@.len() > 0,
        is_quote_for(order, algorithm, block, solved_against, result, quote),
    ensures
        (forall|i: int|
            0 <= i < result.route.swaps@.len() - 1 ==> (
            #[trigger] result.route.swaps@[i]).token_out@ != result.route.swaps@.last().token_out@)
            ==> quote.amount_out@ == result.route.swaps@.last().amount_out@,
        (forall|i: int|
            0 <= i < result.route.swaps@.len() ==> (#[trigger] result.route.swaps@[i]).token_out@
                == result.route.swaps@.last().token_out@) ==> quote.amount_out@
            == result.route.swaps@.fold_left(0nat, |sum: nat, s: Swap| sum + s.amount_out@),
        quote.gas_estimate@ == result.route.swaps@.fold_left(
            0nat,
            |sum: nat, s: Swap| sum + s.gas_estimate@,
        ),
{
    let swaps = result.route.swaps@;
    let token = swaps.last().token_out@;
    if forall|i: int| 0 <= i < swaps.len() - 1 ==> (#[trigger] swaps[i]).token_out@ != token {
        nothing_of_other_tokens(swaps.drop_last(), token);
    }
    if forall|i: int| 0 <= i < swaps.len() ==> (#[trigger] swaps[i]).token_out@ == token {
        everything_of_one_token(swaps, token);
    }
    crate::types::route::gas_is_a_sum(swaps);
}

proof fn nothing_of_other_tokens(swaps: Seq<Swap>, token: Seq<u8>)
    requires
        forall|i: int| 0 <= i < swaps.len() ==> (#[trigger] swaps[i]).token_out@ != token,
    ensures
        output_in(swaps, token) == 0,
    decreases swaps.len(),
{
    if swaps.len() > 0 {
        assert(swaps[swaps.len() - 1].token_out@ != token);
        nothing_of_other_tokens(swaps.drop_last(), token);
    }
}

proof fn everything_of_one_token(swaps: Seq<Swap>, token: Seq<u8>)
    requires
        forall|i: int| 0 <= i < swaps.len() ==> (#[trigger] swaps[i]).token_out@ == token,
    ensures
        output_in(swaps, token) == swaps.fold_left(0nat, |sum: nat, s: Swap| sum + s.amount_out@),
    decreases swaps.len(),
{
    reveal(Seq::fold_left);
    if swaps.len() > 0 {
        assert(swaps[swaps.len() - 1].token_out@ == token);
        everything_of_one_token(swaps.drop_last(), token);
    }
}

/// An order whose route has no swaps is answered that there is no route, under its id; one whose
/// algorithm has failed is answered in kind: no path is no route, a timeout stays a timeout with its
/// time, and any other failure is told in its own words.
pub proof fn failures_are_answered_in_kind(
    run: QuoteRun,
    error: AlgorithmError,
    text: String,
    next: QuoteStage,
    action: QuoteAction,
)
    requires
        run.stage is Solving,
        run.reacts(QuoteEvent::AlgorithmFailed { error, text }, next, action),
    ensures
        next is Answered,
        action is Answer && action->Answer_0 is Err,
        error is NoPath ==> (action->Answer_0->Err_0 matches SolveError::NoRouteFound { order_id }
            && order_id@ == run.order.id@),
        error matches AlgorithmError::Timeout { elapsed_ms } ==> action->Answer_0->Err_0
            == (SolveError::Timeout { elapsed_ms }),
        !(error is NoPath) && !(error is Timeout) ==> (action->Answer_0->Err_0
            matches SolveError::AlgorithmError(told) && told@ == text@),
{
}

/// An order is solved against the block that the market is known up to, in the state that was read: an
/// overlay goes by its label, and the market itself by the number of that block. Without a block it is
/// not solved.
pub proof fn orders_are_solved_against_the_state_that_was_read(
    run: QuoteRun,
    reading: MarketReading,
    next: QuoteStage,
    action: QuoteAction,
)
    requires
        run.stage is Reading,
        run.reacts(QuoteEvent::MarketRead(reading), next, action),
    ensures
        reading.block is None ==> next is Answered && (action
            matches QuoteAction::Answer(Err(SolveError::NotReady(_)))),
        reading.block is Some ==> {
            &&& next matches QuoteStage::Solving { block, solved_against }
            &&& block == reading.block->Some_0
            &&& reading.label is Some ==> solved_against@ == reading.label->Some_0@
            &&& reading.label is None ==> solved_against@ == crate::text::decimal_text(
                block.number as nat,
            )
            &&& action matches QuoteAction::FindRoute(label)
            &&& label == run.params.state_label
        },
{
}

/// A route that was found is answered with the quote that it makes, after as many milliseconds as it
/// took; a route without swaps is none.
pub proof fn found_routes_are_quoted(
    run: QuoteRun,
    result: RouteResult,
    elapsed_ms: u64,
    next: QuoteStage,
    action: QuoteAction,
)
    requires
        run.stage is Solving,
        run.reacts(QuoteEvent::RouteFound { result, elapsed_ms }, next, action),
    ensures
        next is Answered,
        result.route.swaps@.len() == 0 ==> (action
            matches QuoteAction::Answer(Err(SolveError::NoRouteFound { order_id })) && order_id@
            == run.order.id@),
        result.route.swaps@.len() > 0 ==> (action matches QuoteAction::Answer(Ok(quote))
            && quote.solve_time_ms == elapsed_ms && quote.order.order_id == run.order.id
            && quote.order.route == Some(result.route) && quote.order.algorithm == run.algorithm),
{
}

/// A worker that is ready goes on, by building its graph where it has none, and one that is not answers
/// that it is not.
pub proof fn readiness_decides_how_an_order_begins(
    run: QuoteRun,
    readiness: Readiness,
    next: QuoteStage,
    action: QuoteAction,
)
    requires
        run.stage is Taken,
        run.reacts(QuoteEvent::Begin(readiness), next, action),
    ensures
        readiness.suffices() && !run.initialized ==> next is Initializing && action is InitializeGraph,
        readiness.suffices() && run.initialized ==> next is Reading && (action
            matches QuoteAction::ReadMarket(label) && label == run.params.state_label),
        !readiness.suffices() ==> (action matches QuoteAction::Answer(Err(SolveError::NotReady(text)))
            && text@ == "derived data not ready: missing "@ + readiness.missing@),
{
}

/// A route with a swap is quoted for its order, and an empty one is not.
pub proof fn routes_with_a_swap_are_quoted(
    order: Order,
    algorithm: String,
    block: BlockInfo,
    solved_against: StateLabel,
    result: RouteResult,
    r: Option<OrderQuote>,
)
    requires
        call_ensures(build_quote, (&order, &algorithm, &block, &solved_against, result), r),
    ensures
        r is Some <==> result.route.swaps@.len() > 0,
        r matches Some(quote) ==> {
            &&& quote.order_id == order.id
            &&& quote.status == crate::types::quote::QuoteStatus::Success
            &&& order.receiver is Some ==> quote.receiver == order.receiver->Some_0
            &&& order.receiver is None ==> quote.receiver == order.sender
            &&& quote.sender == order.sender
        },
{
}

} // verus!
