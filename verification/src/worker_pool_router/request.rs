//! A request on its way from the pools' answers to the quote.
use vstd::prelude::*;

use crate::amount::Amount;
use crate::encoding::encoder::{plan_encoding, EncodedSolution};
use crate::encoding::solution::Solution;
use crate::error::SolveError;
use crate::types::options::{EncodingOptions, PriceGuardConfig, QuoteOptions, QuoteRequest};
use crate::types::order::Order;
use crate::types::quote::{OrderQuote, Quote};
use crate::types::route::ComponentId;
use crate::worker_pool_router::gas::{estimate_requests, EstimateRequest};
use crate::worker_pool_router::ranking::{OrderResponses, PoolRole};
use crate::worker_pool_router::router::{
    complete_quote, refine_gas_estimates, Settlement, SolveStart, WorkerPoolRouter,
};

verus! {

/// Where a request stands.
#[derive(Debug)]
pub enum RequestStage {
    /// The pools are solving its orders.
    Solving,
    /// The gas of the quotes is being estimated.
    Estimating { responses: Vec<OrderResponses> },
    /// Outside prices are being consulted.
    Guarding,
    /// The planned solutions are being encoded.
    Encoding { quotes: Vec<OrderQuote>, plan: Vec<(usize, Solution)> },
    /// The request is answered.
    Answered,
}

/// A request on its way.
#[derive(Debug)]
pub struct RequestRun {
    /// The ids of the orders, as the request lists them.
    pub order_ids: Vec<String>,
    pub options: QuoteOptions,
    /// The components that only pools for all liquidity may route through.
    pub permissioned: Vec<ComponentId>,
    pub stage: RequestStage,
}

/// What happens to a request.
#[derive(Debug)]
pub enum RequestEvent {
    /// The pools' answers to all orders are collected.
    Solved(Vec<OrderResponses>),
    /// The gas of every quote is estimated.
    Estimated(Vec<Vec<Amount>>),
    /// Outside prices have decided on the candidates.
    Validated(Vec<OrderQuote>),
    /// Outside prices could not decide.
    ValidationFailed(String),
    /// The planned solutions are encoded.
    Encoded(Vec<EncodedSolution>),
    /// The planned solutions could not be encoded.
    EncodingFailed(String),
}

/// What is to be done.
#[derive(Debug)]
pub enum RequestAction {
    /// Ask all pools about each order.
    Solve(SolveStart),
    /// Estimate the gas of these quotes, order by order.
    Estimate(Vec<Vec<EstimateRequest>>),
    /// Let outside prices decide.
    Validate { candidates: Vec<Vec<OrderQuote>>, config: PriceGuardConfig },
    /// Encode the planned solutions.
    Encode,
    /// Answer the request.
    Answer(Result<Quote, SolveError>),
    /// Nothing.
    Ignore,
}

/// Whether lists hold the candidates for each order.
pub open spec fn are_all_candidates(
    responses: Seq<OrderResponses>,
    roles: Map<Seq<char>, PoolRole>,
    options: QuoteOptions,
    permissioned: Seq<ComponentId>,
    candidates: Seq<Vec<OrderQuote>>,
) -> bool {
    &&& candidates.len() == responses.len()
    &&& forall|o: int|
        0 <= o < responses.len() ==> crate::worker_pool_router::router::are_candidates(
            responses[o],
            roles,
            options,
            permissioned,
            (#[trigger] candidates[o])@,
        )
}

/// Whether lists hold what an estimator is to be asked about each order.
pub open spec fn are_all_requests(
    responses: Seq<OrderResponses>,
    options: EncodingOptions,
    requests: Seq<Vec<EstimateRequest>>,
) -> bool {
    &&& requests.len() == responses.len()
    &&& forall|o: int|
        0 <= o < responses.len() ==> crate::worker_pool_router::gas::are_requested(
            responses[o],
            options,
            Ok(#[trigger] requests[o]),
        )
}

/// Whether an error is that of the first order with a quote that cannot be estimated.
pub open spec fn is_first_fault(
    responses: Seq<OrderResponses>,
    options: EncodingOptions,
    error: SolveError,
) -> bool {
    exists|o: int|
        0 <= o < responses.len() && #[trigger] crate::worker_pool_router::gas::are_requested(
            responses[o],
            options,
            Err(error),
        ) && forall|p: int|
            0 <= p < o ==> crate::worker_pool_router::gas::can_estimate(#[trigger] responses[p])
}

/// What becomes of a request whose quotes are chosen: they are encoded where it asks for that, and
/// else returned.
pub open spec fn is_chosen(
    options: QuoteOptions,
    quotes: Seq<OrderQuote>,
    elapsed_ms: u64,
    next: RequestStage,
    action: RequestAction,
) -> bool {
    match options.encoding_options {
        None => {
            &&& next is Answered
            &&& action matches RequestAction::Answer(Ok(answer))
            &&& crate::worker_pool_router::router::is_answer(quotes, elapsed_ms, answer)
        },
        Some(encoding) => {
            ||| {
                &&& next matches RequestStage::Encoding { quotes: q, plan }
                &&& q@ == quotes
                &&& crate::encoding::encoder::is_planned(quotes, encoding, Ok(plan))
                &&& action is Encode
            }
            ||| {
                &&& next is Answered
                &&& action matches RequestAction::Answer(Err(error))
                &&& crate::encoding::encoder::is_planned(quotes, encoding, Err(error))
            }
        },
    }
}

/// What becomes of a request whose candidates are settled.
pub open spec fn is_decided(
    options: QuoteOptions,
    settlement: Result<Settlement, SolveError>,
    elapsed_ms: u64,
    next: RequestStage,
    action: RequestAction,
) -> bool {
    match settlement {
        Err(error) => next is Answered && action == RequestAction::Answer(Err(error)),
        Ok(Settlement::Validate { candidates, config }) => {
            next is Guarding && action == (RequestAction::Validate { candidates, config })
        },
        Ok(Settlement::Selected(quotes)) => is_chosen(options, quotes@, elapsed_ms, next, action),
    }
}

/// The ids of orders.
pub open spec fn ids_of(orders: Seq<Order>) -> Seq<String> {
    orders.map_values(|order: Order| order.id)
}

/// One quote for each order, in the orders' order and under their ids.
pub open spec fn answers_orders(ids: Seq<String>, quotes: Seq<OrderQuote>) -> bool {
    &&& quotes.len() == ids.len()
    &&& forall|o: int| 0 <= o < quotes.len() ==> (#[trigger] quotes[o]).order_id@ == ids[o]@
}

/// Responses about each order, in the orders' order.
pub open spec fn are_responses_for(ids: Seq<String>, responses: Seq<OrderResponses>) -> bool {
    &&& responses.len() == ids.len()
    &&& forall|o: int| 0 <= o < responses.len() ==> (#[trigger] responses[o]).are_for(ids[o]@)
}

/// Candidates for each order, in the orders' order; each order has one.
pub open spec fn are_candidates_for(ids: Seq<String>, candidates: Seq<Vec<OrderQuote>>) -> bool {
    &&& candidates.len() == ids.len()
    &&& forall|o: int| 0 <= o < candidates.len() ==> (#[trigger] candidates[o])@.len() > 0
    &&& forall|o: int, k: int|
        0 <= o < candidates.len() && 0 <= k < candidates[o]@.len() ==> (
        #[trigger] candidates[o]@[k]).order_id@ == ids[o]@
}

/// What is done concerns the orders: outside prices decide on candidates for each of them, and an
/// answer holds one quote for each of them.
pub open spec fn serves_orders(ids: Seq<String>, action: RequestAction) -> bool {
    match action {
        RequestAction::Validate { candidates, .. } => are_candidates_for(ids, candidates@),
        RequestAction::Answer(Ok(answer)) => answers_orders(ids, answer.orders@),
        _ => true,
    }
}

impl RequestRun {
    /// What has been reached concerns the orders.
    pub open spec fn keeps_orders(self) -> bool {
        match self.stage {
            RequestStage::Estimating { responses } => are_responses_for(
                self.order_ids@,
                responses@,
            ),
            RequestStage::Encoding { quotes, .. } => answers_orders(self.order_ids@, quotes@),
            _ => true,
        }
    }

    /// The event concerns the orders: the pools were asked about each of them, and outside prices
    /// picked one candidate of each.
    pub open spec fn expects(self, event: RequestEvent) -> bool {
        match event {
            RequestEvent::Solved(responses) => are_responses_for(self.order_ids@, responses@),
            RequestEvent::Validated(quotes) => answers_orders(self.order_ids@, quotes@),
            _ => true,
        }
    }

    /// The event can be taken in: estimates are there for the quotes that wait for them, and gas was
    /// paid out of the outputs; calls can be made of what is encoded until one is refused.
    pub open spec fn accepts(self, event: RequestEvent, fees: crate::encoding::fees::RouterFees) -> bool {
        match (self.stage, event) {
            (RequestStage::Estimating { responses }, RequestEvent::Estimated(estimates)) => {
                crate::worker_pool_router::router::can_refine(responses@, estimates@)
            },
            (RequestStage::Encoding { quotes, plan }, RequestEvent::Encoded(encoded)) => {
                &&& self.options.encoding_options is Some
                &&& crate::encoding::encoder::can_finish(
                    quotes@,
                    plan@,
                    encoded@,
                    self.options.encoding_options->Some_0,
                    fees,
                )
            },
            _ => true,
        }
    }
}

impl<Q> WorkerPoolRouter<Q> {
    /// What becomes of a request whose orders are solved: candidates are ranked and settled.
    pub open spec fn ranks_and_settles(
        self,
        run: RequestRun,
        responses: Seq<OrderResponses>,
        elapsed_ms: u64,
        next: RequestStage,
        action: RequestAction,
    ) -> bool {
        exists|candidates: Seq<Vec<OrderQuote>>, settlement: Result<Settlement, SolveError>|
            #[trigger] are_all_candidates(
                responses,
                crate::worker_pool_router::router::roles_of(self.solver_pools@),
                run.options,
                run.permissioned@,
                candidates,
            ) && #[trigger] crate::worker_pool_router::router::is_settled(
                self.guarded,
                run.options,
                candidates,
                settlement,
            ) && is_decided(run.options, settlement, elapsed_ms, next, action)
    }

    /// What an event leads to. Gas is refined before candidates are ranked, where the request asks for
    /// encoding; outside prices come before encoding.
    pub open spec fn proceeds(
        self,
        run: RequestRun,
        event: RequestEvent,
        elapsed_ms: u64,
        next: RequestStage,
        action: RequestAction,
    ) -> bool {
        match (run.stage, event) {
            (RequestStage::Solving, RequestEvent::Solved(responses)) => {
                match run.options.encoding_options {
                    None => self.ranks_and_settles(run, responses@, elapsed_ms, next, action),
                    Some(encoding) => {
                        ||| {
                            &&& next == (RequestStage::Estimating { responses })
                            &&& action matches RequestAction::Estimate(requests)
                            &&& are_all_requests(responses@, encoding, requests@)
                        }
                        ||| {
                            &&& next is Answered
                            &&& action matches RequestAction::Answer(Err(error))
                            &&& is_first_fault(responses@, encoding, error)
                        }
                    },
                }
            },
            (RequestStage::Estimating { responses }, RequestEvent::Estimated(estimates)) => {
                exists|refined: Seq<OrderResponses>| #[trigger]
                    crate::worker_pool_router::router::are_refined(
                        responses@,
                        estimates@,
                        refined,
                    ) && self.ranks_and_settles(run, refined, elapsed_ms, next, action)
            },
            (RequestStage::Guarding, RequestEvent::Validated(quotes)) => is_chosen(
                run.options,
                quotes@,
                elapsed_ms,
                next,
                action,
            ),
            (RequestStage::Guarding, RequestEvent::ValidationFailed(text)) => {
                next is Answered && action == RequestAction::Answer(Err(SolveError::Internal(text)))
            },
            (RequestStage::Encoding { quotes, plan }, RequestEvent::Encoded(encoded)) => {
                &&& next is Answered
                &&& action matches RequestAction::Answer(answer)
                &&& exists|done: Result<Vec<OrderQuote>, SolveError>| #[trigger]
                    crate::encoding::encoder::is_completed(
                        quotes@,
                        plan@,
                        encoded@,
                        run.options.encoding_options->Some_0,
                        crate::types::chain::native_address(self.encoder.chain),
                        self.encoder.router_fees,
                        done,
                    ) && match (done, answer) {
                        (Ok(list), Ok(quote)) => crate::worker_pool_router::router::is_answer(
                            list@,
                            elapsed_ms,
                            quote,
                        ),
                        (Err(error), Err(e)) => e == error,
                        _ => false,
                    }
            },
            (RequestStage::Encoding { .. }, RequestEvent::EncodingFailed(text)) => {
                next is Answered && action == RequestAction::Answer(
                    Err(SolveError::FailedEncoding(text)),
                )
            },
            _ => next == run.stage && action is Ignore,
        }
    }

    /// How a request sets out: its orders go to all pools, or it is answered at once where there are
    /// none.
    pub open spec fn takes_on(
        self,
        request: QuoteRequest,
        permissioned: Vec<ComponentId>,
        run: RequestRun,
        action: RequestAction,
    ) -> bool {
        &&& run.order_ids@ == ids_of(request.orders@)
        &&& run.options == request.options
        &&& run.permissioned == permissioned
        &&& match action {
            RequestAction::Solve(start) => run.stage is Solving && self.starts(request, Ok(start)),
            RequestAction::Answer(Err(error)) => run.stage is Answered && self.starts(
                request,
                Err(error),
            ),
            _ => false,
        }
    }

    /// How an event takes a request on: what it asks for stays.
    pub open spec fn advances(
        self,
        run: RequestRun,
        event: RequestEvent,
        elapsed_ms: u64,
        next: RequestRun,
        action: RequestAction,
    ) -> bool {
        &&& next.order_ids == run.order_ids
        &&& next.options == run.options
        &&& next.permissioned == run.permissioned
        &&& self.proceeds(run, event, elapsed_ms, next.stage, action)
    }

    /// The course of a request: runs that follow each other by events, with what each led to.
    pub open spec fn is_course(
        self,
        runs: Seq<RequestRun>,
        actions: Seq<RequestAction>,
        events: Seq<RequestEvent>,
        times: Seq<u64>,
    ) -> bool {
        &&& runs.len() == events.len() + 1
        &&& actions.len() == events.len() + 1
        &&& times.len() == events.len()
        &&& forall|n: int|
            0 <= n < events.len() ==> runs[n].expects(#[trigger] events[n]) && self.advances(
                runs[n],
                events[n],
                times[n],
                runs[n + 1],
                actions[n + 1],
            )
    }

    /// Takes a request on: its orders go to all pools, or it is answered at once where there are none.
    /// `permissioned` lists the components that only pools for all liquidity may route through.
    pub fn quote(&self, request: &QuoteRequest, permissioned: Vec<ComponentId>) -> (r: (
        RequestRun,
        RequestAction,
    ))
        ensures
            self.takes_on(*request, permissioned, r.0, r.1),
    {
        let options: QuoteOptions = request.options.clone();
        let order_ids: Vec<String> = list_ids(&request.orders);
        match self.start(request) {
            Ok(start) => (
                RequestRun { order_ids, options, permissioned, stage: RequestStage::Solving },
                RequestAction::Solve(start),
            ),
            Err(error) => (
                RequestRun { order_ids, options, permissioned, stage: RequestStage::Answered },
                RequestAction::Answer(Err(error)),
            ),
        }
    }

    /// Goes on with a request by an event, so many milliseconds after it came.
    pub fn proceed(&self, run: RequestRun, event: RequestEvent, elapsed_ms: u64) -> (r: (
        RequestRun,
        RequestAction,
    ))
        requires
            run.accepts(event, self.encoder.router_fees),
        ensures
            self.advances(run, event, elapsed_ms, r.0, r.1),
    {
        let RequestRun { order_ids, options, permissioned, stage } = run;
        let (next, action): (RequestStage, RequestAction) = match (stage, event) {
            (RequestStage::Solving, RequestEvent::Solved(responses)) => {
                match &options.encoding_options {
                    None => self.rank_and_settle(&options, &permissioned, &responses, elapsed_ms),
                    Some(encoding) => match request_estimates(&responses, encoding) {
                        Ok(requests) => (
                            RequestStage::Estimating { responses },
                            RequestAction::Estimate(requests),
                        ),
                        Err(error) => (RequestStage::Answered, RequestAction::Answer(Err(error))),
                    },
                }
            },
            (RequestStage::Estimating { responses }, RequestEvent::Estimated(estimates)) => {
                let refined: Vec<OrderResponses> = refine_gas_estimates(&responses, &estimates);
                assert(crate::worker_pool_router::router::are_refined(
                    responses@,
                    estimates@,
                    refined@,
                ));
                self.rank_and_settle(&options, &permissioned, &refined, elapsed_ms)
            },
            (RequestStage::Guarding, RequestEvent::Validated(quotes)) => {
                choose_quotes(&options, quotes, elapsed_ms)
            },
            (RequestStage::Guarding, RequestEvent::ValidationFailed(text)) => (
                RequestStage::Answered,
                RequestAction::Answer(Err(SolveError::Internal(text))),
            ),
            (RequestStage::Encoding { quotes, plan }, RequestEvent::Encoded(encoded)) => {
                match &options.encoding_options {
                    Some(encoding) => {
                        let done: Result<Vec<OrderQuote>, SolveError> = self.encoder.encode(
                            quotes,
                            &plan,
                            &encoded,
                            encoding,
                        );
                        assert(crate::encoding::encoder::is_completed(
                            quotes@,
                            plan@,
                            encoded@,
                            options.encoding_options->Some_0,
                            crate::types::chain::native_address(self.encoder.chain),
                            self.encoder.router_fees,
                            done,
                        ));
                        let answer: Result<Quote, SolveError> = match done {
                            Ok(list) => Ok(complete_quote(list, elapsed_ms)),
                            Err(error) => Err(error),
                        };
                        (RequestStage::Answered, RequestAction::Answer(answer))
                    },
                    None => (RequestStage::Encoding { quotes, plan }, RequestAction::Ignore),
                }
            },
            (RequestStage::Encoding { .. }, RequestEvent::EncodingFailed(text)) => (
                RequestStage::Answered,
                RequestAction::Answer(Err(SolveError::FailedEncoding(text))),
            ),
            (stage, _) => (stage, RequestAction::Ignore),
        };
        (RequestRun { order_ids, options, permissioned, stage: next }, action)
    }

    /// Ranks the candidates for all orders, and says what is to be done with them.
    fn rank_and_settle(
        &self,
        options: &QuoteOptions,
        permissioned: &Vec<ComponentId>,
        responses: &Vec<OrderResponses>,
        elapsed_ms: u64,
    ) -> (r: (RequestStage, RequestAction))
        ensures
            forall|run: RequestRun|
                run.options == *options && run.permissioned == *permissioned
                    ==> #[trigger] self.ranks_and_settles(run, responses@, elapsed_ms, r.0, r.1),
    {
        let ghost roles = crate::worker_pool_router::router::roles_of(self.solver_pools@);
        let mut candidates: Vec<Vec<OrderQuote>> = Vec::new();
        let mut o: usize = 0;
        while o < responses.len()
            invariant
                o <= responses@.len(),
                roles == crate::worker_pool_router::router::roles_of(self.solver_pools@),
                candidates@.len() == o,
                forall|p: int|
                    0 <= p < o ==> crate::worker_pool_router::router::are_candidates(
                        responses@[p],
                        roles,
                        *options,
                        permissioned@,
                        (#[trigger] candidates@[p])@,
                    ),
            decreases responses@.len() - o,
        {
            candidates.push(self.candidates(&responses[o], options, permissioned));
            o += 1;
        }
        let ghost all = candidates@;
        assert(are_all_candidates(responses@, roles, *options, permissioned@, all));
        let settlement: Result<Settlement, SolveError> = self.settle(candidates, options);
        let ghost settled = settlement;
        assert(crate::worker_pool_router::router::is_settled(
            self.guarded,
            *options,
            all,
            settled,
        ));
        let r: (RequestStage, RequestAction) = match settlement {
            Err(error) => (RequestStage::Answered, RequestAction::Answer(Err(error))),
            Ok(Settlement::Validate { candidates, config }) => (
                RequestStage::Guarding,
                RequestAction::Validate { candidates, config },
            ),
            Ok(Settlement::Selected(quotes)) => choose_quotes(options, quotes, elapsed_ms),
        };
        assert(is_decided(*options, settled, elapsed_ms, r.0, r.1));
        r
    }
}

/// The ids of orders.
fn list_ids(orders: &Vec<Order>) -> (r: Vec<String>)
    ensures
        r@ == ids_of(orders@),
{
    let mut ids: Vec<String> = Vec::new();
    let mut i: usize = 0;
    while i < orders.len()
        invariant
            i <= orders@.len(),
            ids@ == ids_of(orders@.take(i as int)),
        decreases orders@.len() - i,
    {
        ids.push(orders[i].id.clone());
        i += 1;
    }
    assert(orders@.take(i as int) == orders@);
    ids
}

/// What becomes of a request whose quotes are chosen.
fn choose_quotes(options: &QuoteOptions, quotes: Vec<OrderQuote>, elapsed_ms: u64) -> (r: (
    RequestStage,
    RequestAction,
))
    ensures
        is_chosen(*options, quotes@, elapsed_ms, r.0, r.1),
{
    match &options.encoding_options {
        None => (
            RequestStage::Answered,
            RequestAction::Answer(Ok(complete_quote(quotes, elapsed_ms))),
        ),
        Some(encoding) => match plan_encoding(&quotes, encoding) {
            Ok(plan) => (RequestStage::Encoding { quotes, plan }, RequestAction::Encode),
            Err(error) => (RequestStage::Answered, RequestAction::Answer(Err(error))),
        },
    }
}

/// Lists what an estimator is to be asked about all orders; the error of the first order with a quote
/// that cannot be estimated.
fn request_estimates(responses: &Vec<OrderResponses>, options: &EncodingOptions) -> (r: Result<
    Vec<Vec<EstimateRequest>>,
    SolveError,
>)
    ensures
        match r {
            Ok(requests) => are_all_requests(responses@, *options, requests@),
            Err(error) => is_first_fault(responses@, *options, error),
        },
{
    let mut requests: Vec<Vec<EstimateRequest>> = Vec::new();
    let mut o: usize = 0;
    while o < responses.len()
        invariant
            o <= responses@.len(),
            requests@.len() == o,
            forall|p: int|
                0 <= p < o ==> crate::worker_pool_router::gas::are_requested(
                    responses@[p],
                    *options,
                    Ok(#[trigger] requests@[p]),
                ),
            forall|p: int|
                0 <= p < o ==> crate::worker_pool_router::gas::can_estimate(
                    #[trigger] responses@[p],
                ),
        decreases responses@.len() - o,
    {
        match estimate_requests(&responses[o], options) {
            Ok(list) => {
                requests.push(list);
            },
            Err(error) => {
                assert(crate::worker_pool_router::gas::are_requested(
                    responses@[o as int],
                    *options,
                    Err(error),
                ));
                return Err(error);
            },
        }
        o += 1;
    }
    Ok(requests)
}

/// Whether a quote is the first candidate for an order.
pub open spec fn is_best_candidate(
    responses: OrderResponses,
    roles: Map<Seq<char>, PoolRole>,
    options: QuoteOptions,
    permissioned: Seq<ComponentId>,
    quote: OrderQuote,
) -> bool {
    exists|candidates: Seq<OrderQuote>| #[trigger]
        crate::worker_pool_router::router::are_candidates(
            responses,
            roles,
            options,
            permissioned,
            candidates,
        ) && candidates.len() > 0 && candidates[0] == quote
}

/// How many events a request is at most away from its answer.
pub open spec fn events_ahead(stage: RequestStage) -> nat {
    match stage {
        RequestStage::Solving => 4,
        RequestStage::Estimating { .. } => 3,
        RequestStage::Guarding => 2,
        RequestStage::Encoding { .. } => 1,
        RequestStage::Answered => 0,
    }
}

/// Every event that a request waits for brings it closer to its answer, and it is answered once, at the
/// end.
pub proof fn request_makes_progress<Q>(
    router: WorkerPoolRouter<Q>,
    run: RequestRun,
    event: RequestEvent,
    elapsed_ms: u64,
    next: RequestStage,
    action: RequestAction,
)
    requires
        router.proceeds(run, event, elapsed_ms, next, action),
    ensures
        !(action is Ignore) ==> events_ahead(next) < events_ahead(run.stage),
        action is Answer == (next is Answered && !(run.stage is Answered)),
        run.stage is Answered ==> action is Ignore,
{
}

proof fn each_has_a_first(candidates: Seq<Vec<OrderQuote>>)
    requires
        forall|o: int| 0 <= o < candidates.len() ==> (#[trigger] candidates[o])@.len() > 0,
    ensures
        crate::worker_pool_router::router::first_candidates(candidates).len() == candidates.len(),
        forall|o: int|
            0 <= o < candidates.len()
                ==> #[trigger] crate::worker_pool_router::router::first_candidates(candidates)[o]
                == candidates[o]@[0],
    decreases candidates.len(),
{
    if candidates.len() > 0 {
        each_has_a_first(candidates.drop_last());
    }
}

/// A request that does not ask for encoding is answered by its best candidates alone, one for each
/// order and in their order: no gas is estimated, no outside price consulted, and nothing encoded.
pub proof fn plain_request_is_answered_at_once<Q>(
    router: WorkerPoolRouter<Q>,
    run: RequestRun,
    responses: Vec<OrderResponses>,
    elapsed_ms: u64,
    next: RequestStage,
    action: RequestAction,
)
    requires
        run.stage is Solving,
        run.options.encoding_options is None,
        router.proceeds(run, RequestEvent::Solved(responses), elapsed_ms, next, action),
    ensures
        next is Answered,
        action matches RequestAction::Answer(Ok(answer)) && answer.solve_time_ms == elapsed_ms
            && answer.orders@.len() == responses@.len() && forall|o: int|
            0 <= o < responses@.len() ==> is_best_candidate(
                responses@[o],
                crate::worker_pool_router::router::roles_of(router.solver_pools@),
                run.options,
                run.permissioned@,
                #[trigger] answer.orders@[o],
            ),
{
    let roles = crate::worker_pool_router::router::roles_of(router.solver_pools@);
    let (candidates, settlement) = choose|
        candidates: Seq<Vec<OrderQuote>>,
        settlement: Result<Settlement, SolveError>,
    |
        #[trigger] are_all_candidates(
            responses@,
            roles,
            run.options,
            run.permissioned@,
            candidates,
        ) && #[trigger] crate::worker_pool_router::router::is_settled(
            router.guarded,
            run.options,
            candidates,
            settlement,
        ) && is_decided(run.options, settlement, elapsed_ms, next, action);
    assert forall|o: int| 0 <= o < candidates.len() implies (#[trigger] candidates[o])@.len()
        > 0 by {
        crate::worker_pool_router::router::every_order_has_a_candidate(
            responses@[o],
            roles,
            run.options,
            run.permissioned@,
            candidates[o]@,
        );
    }
    each_has_a_first(candidates);
    let firsts = crate::worker_pool_router::router::first_candidates(candidates);
    let answer = action->Answer_0->Ok_0;
    assert forall|o: int| 0 <= o < responses@.len() implies is_best_candidate(
        responses@[o],
        roles,
        run.options,
        run.permissioned@,
        #[trigger] answer.orders@[o],
    ) by {
        assert(firsts[o] == candidates[o]@[0]);
        assert(crate::worker_pool_router::router::are_candidates(
            responses@[o],
            roles,
            run.options,
            run.permissioned@,
            candidates[o]@,
        ));
    }
}

/// A request that asks for outside prices where there are none at hand is refused, whatever the pools
/// answered.
pub proof fn unguarded_router_refuses_price_checks<Q>(
    router: WorkerPoolRouter<Q>,
    run: RequestRun,
    responses: Seq<OrderResponses>,
    elapsed_ms: u64,
    next: RequestStage,
    action: RequestAction,
)
    requires
        !router.guarded,
        crate::worker_pool_router::router::requested_guard(run.options) is Some,
        router.ranks_and_settles(run, responses, elapsed_ms, next, action),
    ensures
        next is Answered,
        action matches RequestAction::Answer(Err(SolveError::Internal(_))),
{
}

proof fn ranking_serves_orders<Q>(
    router: WorkerPoolRouter<Q>,
    run: RequestRun,
    responses: Seq<OrderResponses>,
    elapsed_ms: u64,
    next: RequestRun,
    action: RequestAction,
)
    requires
        are_responses_for(run.order_ids@, responses),
        next.order_ids == run.order_ids,
        router.ranks_and_settles(run, responses, elapsed_ms, next.stage, action),
    ensures
        next.keeps_orders(),
        serves_orders(run.order_ids@, action),
{
    let ids = run.order_ids@;
    let roles = crate::worker_pool_router::router::roles_of(router.solver_pools@);
    let (candidates, settlement) = choose|
        candidates: Seq<Vec<OrderQuote>>,
        settlement: Result<Settlement, SolveError>,
    |
        #[trigger] are_all_candidates(
            responses,
            roles,
            run.options,
            run.permissioned@,
            candidates,
        ) && #[trigger] crate::worker_pool_router::router::is_settled(
            router.guarded,
            run.options,
            candidates,
            settlement,
        ) && is_decided(run.options, settlement, elapsed_ms, next.stage, action);
    assert forall|o: int| 0 <= o < candidates.len() implies (#[trigger] candidates[o])@.len() > 0
        && forall|k: int|
        0 <= k < candidates[o]@.len() ==> (#[trigger] candidates[o]@[k]).order_id@ == ids[o]@ by {
        assert(responses[o].are_for(ids[o]@));
        crate::worker_pool_router::router::candidates_carry_the_order_id(
            responses[o],
            roles,
            run.options,
            run.permissioned@,
            candidates[o]@,
            ids[o]@,
        );
    }
    assert(are_candidates_for(ids, candidates));
    each_has_a_first(candidates);
    let firsts = crate::worker_pool_router::router::first_candidates(candidates);
    assert(answers_orders(ids, firsts)) by {
        assert forall|o: int| 0 <= o < firsts.len() implies (#[trigger] firsts[o]).order_id@
            == ids[o]@ by {
            assert(firsts[o] == candidates[o]@[0]);
        }
    }
}

/// A request keeps to its orders: where the pools were asked about each of them and outside prices
/// picked one candidate of each, what an event leads to is about each of them, in their order and
/// under their ids, and so is the answer.
pub proof fn steps_serve_orders<Q>(
    router: WorkerPoolRouter<Q>,
    run: RequestRun,
    event: RequestEvent,
    elapsed_ms: u64,
    next: RequestRun,
    action: RequestAction,
)
    requires
        run.keeps_orders(),
        run.expects(event),
        router.advances(run, event, elapsed_ms, next, action),
    ensures
        next.keeps_orders(),
        serves_orders(run.order_ids@, action),
{
    let ids = run.order_ids@;
    match (run.stage, event) {
        (RequestStage::Solving, RequestEvent::Solved(responses)) => {
            if run.options.encoding_options is None {
                ranking_serves_orders(router, run, responses@, elapsed_ms, next, action);
            }
        },
        (RequestStage::Estimating { responses }, RequestEvent::Estimated(estimates)) => {
            let refined = choose|refined: Seq<OrderResponses>| #[trigger]
                crate::worker_pool_router::router::are_refined(responses@, estimates@, refined)
                    && router.ranks_and_settles(run, refined, elapsed_ms, next.stage, action);
            assert forall|o: int| 0 <= o < refined.len() implies (
            #[trigger] refined[o]).are_for(ids[o]@) by {
                assert(responses@[o].are_for(ids[o]@));
                assert forall|i: int| 0 <= i < refined[o].quotes@.len() implies (
                #[trigger] refined[o].quotes@[i]).1.order_id@ == ids[o]@ by {
                    assert(responses@[o].quotes@[i].1.order_id@ == ids[o]@);
                }
            }
            ranking_serves_orders(router, run, refined, elapsed_ms, next, action);
        },
        (RequestStage::Encoding { quotes, plan }, RequestEvent::Encoded(encoded)) => {
            let answer = action->Answer_0;
            let done = choose|done: Result<Vec<OrderQuote>, SolveError>| #[trigger]
                crate::encoding::encoder::is_completed(
                    quotes@,
                    plan@,
                    encoded@,
                    run.options.encoding_options->Some_0,
                    crate::types::chain::native_address(router.encoder.chain),
                    router.encoder.router_fees,
                    done,
                ) && match (done, answer) {
                    (Ok(list), Ok(quote)) => crate::worker_pool_router::router::is_answer(
                        list@,
                        elapsed_ms,
                        quote,
                    ),
                    (Err(error), Err(e)) => e == error,
                    _ => false,
                };
            if done is Ok {
                let list = done->Ok_0@;
                let n = crate::encoding::encoder::paired(plan@, encoded@);
                assert forall|o: int| 0 <= o < list.len() implies (#[trigger] list[o]).order_id@
                    == ids[o]@ by {
                    assert(quotes@[o].order_id@ == ids[o]@);
                    if exists|k: int| 0 <= k < n && (#[trigger] plan@[k]).0 == o {
                        let k = choose|k: int| 0 <= k < n && (#[trigger] plan@[k]).0 == o;
                        assert(plan@[k].0 == o);
                    } else {
                        assert(list[o] == quotes@[o]);
                    }
                }
            }
        },
        _ => {},
    }
}

/// The answer to a request holds one quote for each of its orders, in the request's order and under
/// their ids, encoded or not: whatever course the request takes, as long as the pools answer about
/// the orders that they were asked about and outside prices pick one candidate of each.
pub proof fn answer_holds_one_quote_per_order<Q>(
    router: WorkerPoolRouter<Q>,
    request: QuoteRequest,
    permissioned: Vec<ComponentId>,
    runs: Seq<RequestRun>,
    actions: Seq<RequestAction>,
    events: Seq<RequestEvent>,
    times: Seq<u64>,
    n: int,
)
    requires
        router.is_course(runs, actions, events, times),
        router.takes_on(request, permissioned, runs[0], actions[0]),
        0 <= n < runs.len(),
    ensures
        runs[n].order_ids@ == ids_of(request.orders@),
        runs[n].keeps_orders(),
        serves_orders(ids_of(request.orders@), actions[n]),
    decreases n,
{
    if n > 0 {
        answer_holds_one_quote_per_order(
            router,
            request,
            permissioned,
            runs,
            actions,
            events,
            times,
            n - 1,
        );
        assert(runs[n - 1].expects(events[n - 1]));
        assert(runs[n - 1 + 1] == runs[n] && actions[n - 1 + 1] == actions[n]);
        steps_serve_orders(
            router,
            runs[n - 1],
            events[n - 1],
            times[n - 1],
            runs[n],
            actions[n],
        );
    }
}

/// A request that asks for encoding has the gas of its quotes estimated first, order by order, unless a
/// successful quote is broken; nothing is ranked before.
pub proof fn gas_is_estimated_before_ranking<Q>(
    router: WorkerPoolRouter<Q>,
    run: RequestRun,
    responses: Vec<OrderResponses>,
    elapsed_ms: u64,
    next: RequestStage,
    action: RequestAction,
)
    requires
        run.stage is Solving,
        run.options.encoding_options is Some,
        router.proceeds(run, RequestEvent::Solved(responses), elapsed_ms, next, action),
    ensures
        (action is Estimate && (next matches RequestStage::Estimating { responses: kept } && kept
            == responses)) || (action matches RequestAction::Answer(Err(SolveError::FailedEncoding(_)))
            && next is Answered),
        action is Estimate <==> forall|o: int|
            0 <= o < responses@.len() ==> crate::worker_pool_router::gas::can_estimate(
                #[trigger] responses@[o],
            ),
        action matches RequestAction::Estimate(requests) ==> requests@.len() == responses@.len()
            && forall|o: int|
            0 <= o < responses@.len() ==> crate::worker_pool_router::gas::are_requested(
                responses@[o],
                run.options.encoding_options->Some_0,
                Ok(#[trigger] requests@[o]),
            ),
{
    let options = run.options.encoding_options->Some_0;
    match action {
        RequestAction::Estimate(requests) => {
            assert forall|o: int| 0 <= o < responses@.len() implies crate::worker_pool_router::gas::can_estimate(
                #[trigger] responses@[o],
            ) by {
                assert(crate::worker_pool_router::gas::are_requested(
                    responses@[o],
                    options,
                    Ok(requests@[o]),
                ));
            }
        },
        RequestAction::Answer(Err(error)) => {
            let o = choose|o: int|
                0 <= o < responses@.len()
                    && #[trigger] crate::worker_pool_router::gas::are_requested(
                    responses@[o],
                    options,
                    Err(error),
                ) && forall|p: int|
                    0 <= p < o ==> crate::worker_pool_router::gas::can_estimate(
                        #[trigger] responses@[p],
                    );
            assert(!crate::worker_pool_router::gas::can_estimate(responses@[o]));
        },
        _ => {},
    }
}

/// Once its gas is estimated, a request that does not ask for the price guard goes on to be encoded with
/// the best candidates, one for each order and in their order, by the refined gas.
pub proof fn refined_quotes_are_encoded<Q>(
    router: WorkerPoolRouter<Q>,
    run: RequestRun,
    responses: Vec<OrderResponses>,
    estimates: Vec<Vec<Amount>>,
    elapsed_ms: u64,
    next: RequestStage,
    action: RequestAction,
)
    requires
        run.stage == (RequestStage::Estimating { responses }),
        run.options.encoding_options is Some,
        !run.options.encoding_options->Some_0.price_guard.enabled,
        router.proceeds(run, RequestEvent::Estimated(estimates), elapsed_ms, next, action),
    ensures
        action is Encode ==> (next matches RequestStage::Encoding { quotes, plan } && quotes@.len()
            == responses@.len() && exists|refined: Seq<OrderResponses>| #[trigger]
            crate::worker_pool_router::router::are_refined(responses@, estimates@, refined)
                && forall|o: int|
                0 <= o < refined.len() ==> is_best_candidate(
                    refined[o],
                    crate::worker_pool_router::router::roles_of(router.solver_pools@),
                    run.options,
                    run.permissioned@,
                    #[trigger] quotes@[o],
                )),
        action is Encode || (action matches RequestAction::Answer(Err(SolveError::FailedEncoding(_)))),
{
    let refined = choose|refined: Seq<OrderResponses>| #[trigger]
        crate::worker_pool_router::router::are_refined(responses@, estimates@, refined)
            && router.ranks_and_settles(run, refined, elapsed_ms, next, action);
    let roles = crate::worker_pool_router::router::roles_of(router.solver_pools@);
    let (candidates, settlement) = choose|
        candidates: Seq<Vec<OrderQuote>>,
        settlement: Result<Settlement, SolveError>,
    |
        #[trigger] are_all_candidates(
            refined,
            roles,
            run.options,
            run.permissioned@,
            candidates,
        ) && #[trigger] crate::worker_pool_router::router::is_settled(
            router.guarded,
            run.options,
            candidates,
            settlement,
        ) && is_decided(run.options, settlement, elapsed_ms, next, action);
    assert forall|o: int| 0 <= o < candidates.len() implies (#[trigger] candidates[o])@.len()
        > 0 by {
        crate::worker_pool_router::router::every_order_has_a_candidate(
            refined[o],
            roles,
            run.options,
            run.permissioned@,
            candidates[o]@,
        );
    }
    each_has_a_first(candidates);
    let firsts = crate::worker_pool_router::router::first_candidates(candidates);
    match next {
        RequestStage::Encoding { quotes, plan } => {
            assert forall|o: int| 0 <= o < refined.len() implies is_best_candidate(
                refined[o],
                roles,
                run.options,
                run.permissioned@,
                #[trigger] quotes@[o],
            ) by {
                assert(firsts[o] == candidates[o]@[0]);
                assert(crate::worker_pool_router::router::are_candidates(
                    refined[o],
                    roles,
                    run.options,
                    run.permissioned@,
                    candidates[o]@,
                ));
            }
        },
        _ => {},
    }
}

/// Quotes that outside prices have decided on are taken as they are: answered where no encoding is asked
/// for, and else planned for encoding.
pub proof fn validated_quotes_are_taken<Q>(
    router: WorkerPoolRouter<Q>,
    run: RequestRun,
    quotes: Vec<OrderQuote>,
    elapsed_ms: u64,
    next: RequestStage,
    action: RequestAction,
)
    requires
        run.stage is Guarding,
        router.proceeds(run, RequestEvent::Validated(quotes), elapsed_ms, next, action),
    ensures
        run.options.encoding_options is None ==> next is Answered && (action
            matches RequestAction::Answer(Ok(answer)) && answer.orders@ == quotes@
            && answer.solve_time_ms == elapsed_ms),
        run.options.encoding_options is Some ==> (action is Encode && (next
            matches RequestStage::Encoding { quotes: kept, plan } && kept@ == quotes@
            && crate::encoding::encoder::is_plan(
            quotes@,
            run.options.encoding_options->Some_0,
            quotes@.len() as int,
            plan@,
        ))) || (next is Answered && (action
            matches RequestAction::Answer(Err(SolveError::FailedEncoding(_))))),
{
}

/// What fails outside is told in its own words: outside prices as an internal error, encoding as failed
/// encoding. Either answers the request.
pub proof fn outside_failures_are_told<Q>(
    router: WorkerPoolRouter<Q>,
    run: RequestRun,
    text: String,
    elapsed_ms: u64,
    next: RequestStage,
    action: RequestAction,
)
    ensures
        run.stage is Guarding && router.proceeds(
            run,
            RequestEvent::ValidationFailed(text),
            elapsed_ms,
            next,
            action,
        ) ==> next is Answered && action == RequestAction::Answer(Err(SolveError::Internal(text))),
        run.stage is Encoding && router.proceeds(
            run,
            RequestEvent::EncodingFailed(text),
            elapsed_ms,
            next,
            action,
        ) ==> next is Answered && action == RequestAction::Answer(
            Err(SolveError::FailedEncoding(text)),
        ),
{
}

/// Encoded solutions are answered with the quotes that they were planned for; the first that cannot be
/// encoded is told instead.
pub proof fn encoded_quotes_are_answered<Q>(
    router: WorkerPoolRouter<Q>,
    run: RequestRun,
    quotes: Vec<OrderQuote>,
    plan: Vec<(usize, Solution)>,
    encoded: Vec<EncodedSolution>,
    elapsed_ms: u64,
    next: RequestStage,
    action: RequestAction,
)
    requires
        run.stage == (RequestStage::Encoding { quotes, plan }),
        run.options.encoding_options is Some,
        plan@.len() == encoded@.len(),
        router.proceeds(run, RequestEvent::Encoded(encoded), elapsed_ms, next, action),
    ensures
        next is Answered,
        action is Answer,
        action->Answer_0 is Ok <==> forall|k: int|
            0 <= k < plan@.len() ==> crate::encoding::encoder::call_fault(
                encoded@[k],
                (#[trigger] plan@[k]).1,
                run.options.encoding_options->Some_0,
                router.encoder.router_fees,
            ) is None,
        action matches RequestAction::Answer(Ok(answer)) ==> answer.orders@.len() == quotes@.len()
            && answer.solve_time_ms == elapsed_ms && forall|k: int|
            0 <= k < plan@.len() ==> answer.orders@[(#[trigger] plan@[k]).0 as int].transaction is Some,
        action matches RequestAction::Answer(Err(error)) ==> error is FailedEncoding,
{
    let answer = action->Answer_0;
    let done = choose|done: Result<Vec<OrderQuote>, SolveError>| #[trigger]
        crate::encoding::encoder::is_completed(
            quotes@,
            plan@,
            encoded@,
            run.options.encoding_options->Some_0,
            crate::types::chain::native_address(router.encoder.chain),
            router.encoder.router_fees,
            done,
        ) && match (done, answer) {
            (Ok(list), Ok(quote)) => crate::worker_pool_router::router::is_answer(
                list@,
                elapsed_ms,
                quote,
            ),
            (Err(error), Err(e)) => e == error,
            _ => false,
        };
    match done {
        Ok(list) => {
            crate::encoding::encoder::encoding_touches_only_planned_quotes(
                quotes@,
                plan@,
                encoded@,
                run.options.encoding_options->Some_0,
                crate::types::chain::native_address(router.encoder.chain),
                router.encoder.router_fees,
                list,
            );
        },
        Err(error) => {},
    }
}

/// A request that asks for the price guard, where it is at hand, has outside prices decide on the
/// candidates of every order.
pub proof fn guarded_requests_are_validated<Q>(
    router: WorkerPoolRouter<Q>,
    run: RequestRun,
    responses: Seq<OrderResponses>,
    elapsed_ms: u64,
    next: RequestStage,
    action: RequestAction,
)
    requires
        router.guarded,
        run.options.encoding_options is Some,
        run.options.encoding_options->Some_0.price_guard.enabled,
        router.ranks_and_settles(run, responses, elapsed_ms, next, action),
    ensures
        next is Guarding,
        action matches RequestAction::Validate { candidates, config } && config
            == run.options.encoding_options->Some_0.price_guard && candidates@.len() == responses.len()
            && forall|o: int|
            0 <= o < responses.len() ==> crate::worker_pool_router::router::are_candidates(
                responses[o],
                crate::worker_pool_router::router::roles_of(router.solver_pools@),
                run.options,
                run.permissioned@,
                (#[trigger] candidates@[o])@,
            ),
{
}

} // verus!
