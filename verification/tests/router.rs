use fynd_core::amount::Amount;
use fynd_core::bytes::{Address, Bytes};
use fynd_core::encoding::encoder::{EncodedSolution, Encoder};
use fynd_core::encoding::fees::RouterFees;
use fynd_core::error::SolveError;
use fynd_core::split::Split;
use fynd_core::table::Table;
use fynd_core::types::chain::Chain;
use fynd_core::types::options::{EncodingOptions, PriceGuardConfig, QuoteOptions, QuoteRequest};
use fynd_core::types::order::{Order, OrderSide};
use fynd_core::types::quote::{BlockInfo, OrderQuote, Quote, QuoteStatus};
use fynd_core::types::route::{ProtocolComponent, Route, Swap, Token};
use fynd_core::worker_pool_router::collection::{failure_kind, Collection, PoolEvent};
use fynd_core::worker_pool_router::config::WorkerPoolRouterConfig;
use fynd_core::worker_pool_router::gas::{derive_strategy, estimate_requests, refine_quote, Strategy};
use fynd_core::worker_pool_router::ranking::{rank_quotes, OrderResponses, PoolRole};
use fynd_core::worker_pool_router::request::{RequestAction, RequestEvent, RequestStage};
use fynd_core::worker_pool_router::router::{
    complete_quote, refine_gas_estimates, Settlement, SolverPoolHandle, WorkerPoolRouter,
};
use fynd_core::worker_pool_router::surplus::combine_with_surplus;
use std::sync::Arc;

fn amount(n: u64) -> Amount {
    Amount::from_u64(n)
}

fn make_address(byte: u8) -> Address {
    Bytes::new(vec![byte; 20])
}

fn make_order() -> Order {
    Order::new(
        make_address(0x01),
        make_address(0x02),
        amount(1000),
        OrderSide::Sell,
        make_address(0xAA),
    )
    .with_id("test-order".to_string())
}

fn make_swap(component: &str, token_in: u8, token_out: u8, amount_out: u64) -> Swap {
    Swap::new(
        "pool-1".to_string(),
        "uniswap_v2".to_string(),
        make_address(token_in),
        make_address(token_out),
        amount(1000),
        amount(amount_out),
        amount(50_000),
        ProtocolComponent {
            id: component.to_string(),
            protocol_system: "uniswap_v2".to_string(),
            tokens: Arc::new(vec![make_address(token_in), make_address(token_out)]),
        },
    )
}

fn route_of(swaps: Vec<Swap>) -> Route {
    let mut tokens = Table::new();
    for swap in &swaps {
        for address in [&swap.token_in, &swap.token_out] {
            let token =
                Token { address: address.clone(), symbol: "T".to_string(), decimals: 18 };
            tokens.insert(address.clone(), token);
        }
    }
    Route::new(swaps, tokens)
}

fn quote_of(status: QuoteStatus, out: u64, gas: u64, net: u64) -> OrderQuote {
    OrderQuote::new(
        "test".to_string(),
        status,
        amount(1000),
        amount(out),
        amount(gas),
        amount(net),
        BlockInfo::new(1, "0x123".to_string(), 1000),
        "test".to_string(),
        make_address(0xAA),
        make_address(0xAA),
        "1".to_string(),
    )
}

fn make_single_quote(component: &str, out: u64) -> OrderQuote {
    quote_of(QuoteStatus::Success, out, 100_000, out)
        .with_route(route_of(vec![make_swap(component, 1, 2, out)]))
}

fn responses_of(quotes: Vec<(&str, OrderQuote)>, failed: Vec<(&str, SolveError)>) -> OrderResponses {
    OrderResponses {
        order_id: "test".to_string(),
        quotes: quotes.into_iter().map(|(p, q)| (p.to_string(), q)).collect(),
        failed_solvers: failed.into_iter().map(|(p, e)| (p.to_string(), e)).collect(),
    }
}

fn router(pools: Vec<(&str, PoolRole)>, config: WorkerPoolRouterConfig) -> WorkerPoolRouter<u8> {
    let handles = pools
        .into_iter()
        .map(|(name, role)| SolverPoolHandle::new(name.to_string(), 0).with_role(role))
        .collect();
    WorkerPoolRouter::new(handles, config, default_encoder())
}

fn default_encoder() -> Encoder {
    let fees = RouterFees::new(100_000_000, 100_000, 20_000_000, Table::new());
    Encoder::new(Chain::Ethereum, Ok(make_address(0x77)), fees).unwrap()
}

/// A quote for 990, of which gas leaves so much.
fn net_quote(net: u64) -> OrderQuote {
    quote_of(QuoteStatus::Success, 990, 100_000, net)
        .with_route(route_of(vec![make_swap("p", 1, 2, 990)]))
}

fn encoded_solution() -> EncodedSolution {
    EncodedSolution {
        swaps: vec![1, 2, 3],
        interacting_with: make_address(0x77),
        function_signature: "singleSwap(uint256)".to_string(),
        n_tokens: 2,
        estimated_gas: amount(130_000),
        client_fee_signature_offset: 0,
    }
}

/// Takes a request to its answer: every quote is estimated at 130,000 gas, and every solution encoded.
fn answer(
    worker_router: &WorkerPoolRouter<u8>,
    options: QuoteOptions,
    responses: OrderResponses,
) -> Result<Quote, SolveError> {
    let request = QuoteRequest::new(vec![make_order()], options);
    let (mut run, mut action) = worker_router.quote(&request, vec![]);
    let mut waiting = Some(responses);
    loop {
        let event = match action {
            RequestAction::Solve(_) => RequestEvent::Solved(vec![waiting.take().unwrap()]),
            RequestAction::Estimate(_) => match &run.stage {
                RequestStage::Estimating { responses } => {
                    let list = |r: &OrderResponses| r.quotes.iter().map(|_| amount(130_000)).collect();
                    RequestEvent::Estimated(responses.iter().map(list).collect())
                }
                other => panic!("{other:?}"),
            },
            RequestAction::Encode => match &run.stage {
                RequestStage::Encoding { plan, .. } => {
                    RequestEvent::Encoded(plan.iter().map(|_| encoded_solution()).collect())
                }
                other => panic!("{other:?}"),
            },
            RequestAction::Answer(result) => return result,
            other => panic!("{other:?}"),
        };
        (run, action) = worker_router.proceed(run, event, 12);
    }
}

#[test]
fn test_config_default() {
    let config = WorkerPoolRouterConfig::default();
    assert_eq!(config.default_timeout(), 1_000);
    assert_eq!(config.min_responses(), 1);
}

#[test]
fn test_config_builder() {
    let config = WorkerPoolRouterConfig::default().with_timeout(500).with_min_responses(2);
    assert_eq!(config.default_timeout(), 500);
    assert_eq!(config.min_responses(), 2);
}

#[test]
fn test_router_no_pools() {
    let worker_router = router(vec![], WorkerPoolRouterConfig::default());
    let request = QuoteRequest::new(vec![make_order()], QuoteOptions::default());
    assert!(matches!(worker_router.start(&request), Err(SolveError::Internal(_))));
}

#[test]
fn requests_set_their_own_limits() {
    let config = WorkerPoolRouterConfig::default().with_timeout(50).with_min_responses(2);
    let worker_router = router(vec![("a", PoolRole::Public)], config);
    let request = QuoteRequest::new(vec![make_order()], QuoteOptions::default());
    let start = worker_router.start(&request).unwrap();
    assert_eq!((start.timeout_ms, start.min_responses), (50, 2));
    let options = QuoteOptions::default()
        .with_timeout_ms(70)
        .with_min_responses(0)
        .with_state_label("pending".to_string());
    let start = worker_router.start(&QuoteRequest::new(vec![make_order()], options)).unwrap();
    assert_eq!((start.timeout_ms, start.min_responses), (70, 0));
    assert_eq!(start.params.state_label(), Some(&"pending".to_string()));
}

#[test]
fn test_router_single_pool_success() {
    let worker_router =
        router(vec![("pool_a", PoolRole::Public)], WorkerPoolRouterConfig::default());
    let options = QuoteOptions::default().with_encoding_options(EncodingOptions::new(10_000));
    let responses = responses_of(vec![("pool_a", net_quote(900))], vec![]);
    let quote = answer(&worker_router, options, responses).unwrap();
    assert_eq!(quote.orders().len(), 1);
    assert_eq!(quote.orders()[0].status(), QuoteStatus::Success);
    // The output net of gas is refined before ranking.
    assert_eq!(*quote.orders()[0].amount_out_net_gas(), amount(873));
    assert!(!quote.orders()[0].transaction().unwrap().data().is_empty());
    assert_eq!(quote.solve_time_ms(), 12);
}

#[test]
fn test_router_selects_best_of_two() {
    let worker_router = router(
        vec![("pool_a", PoolRole::Public), ("pool_b", PoolRole::Public)],
        WorkerPoolRouterConfig::default().with_min_responses(2),
    );
    let responses =
        responses_of(vec![("pool_a", net_quote(800)), ("pool_b", net_quote(950))], vec![]);
    let options = QuoteOptions::default().with_encoding_options(EncodingOptions::new(10_000));
    let quote = answer(&worker_router, options, responses).unwrap();
    assert_eq!(quote.orders().len(), 1);
    // The second pool wins by its refined output.
    assert_eq!(*quote.orders()[0].amount_out_net_gas(), amount(938));
    assert!(!quote.orders()[0].transaction().unwrap().data().is_empty());
}

#[test]
fn plain_requests_are_answered_at_once() {
    let worker_router =
        router(vec![("pool_a", PoolRole::Public)], WorkerPoolRouterConfig::default());
    let request = QuoteRequest::new(vec![make_order()], QuoteOptions::default());
    let (run, action) = worker_router.quote(&request, vec![]);
    assert!(matches!(action, RequestAction::Solve(_)));
    let responses = responses_of(vec![("pool_a", net_quote(900))], vec![]);
    let (run, action) = worker_router.proceed(run, RequestEvent::Solved(vec![responses]), 3);
    match action {
        RequestAction::Answer(Ok(quote)) => {
            assert_eq!(*quote.orders()[0].amount_out_net_gas(), amount(900));
            assert!(quote.orders()[0].transaction().is_none());
            assert_eq!(*quote.total_gas_estimate(), amount(100_000));
        }
        other => panic!("{other:?}"),
    }
    assert!(matches!(run.stage, RequestStage::Answered));
    let (_, action) = worker_router.proceed(run, RequestEvent::Solved(vec![]), 4);
    assert!(matches!(action, RequestAction::Ignore));
}

#[test]
fn requests_fail_with_their_steps() {
    let options = || QuoteOptions::default().with_encoding_options(EncodingOptions::new(0));
    let guarded = || {
        QuoteOptions::default().with_encoding_options(
            EncodingOptions::new(0).with_price_guard(PriceGuardConfig { enabled: true }),
        )
    };
    let pools = || vec![("a", PoolRole::Public)];
    let plain = router(pools(), WorkerPoolRouterConfig::default());
    // A quote without a route cannot be estimated.
    let routeless = responses_of(vec![("a", quote_of(QuoteStatus::Success, 9, 9, 9))], vec![]);
    assert!(matches!(
        answer(&plain, options(), routeless),
        Err(SolveError::FailedEncoding(text)) if text == "successful quote must have a route"
    ));
    let solved = || responses_of(vec![("a", net_quote(900))], vec![]);
    assert!(matches!(answer(&plain, guarded(), solved()), Err(SolveError::Internal(_))));
    let with_guard = router(pools(), WorkerPoolRouterConfig::default()).with_price_guard();
    let request = QuoteRequest::new(vec![make_order()], guarded());
    let start = || {
        let (run, _) = with_guard.quote(&request, vec![]);
        let (run, _) = with_guard.proceed(run, RequestEvent::Solved(vec![solved()]), 1);
        let estimates = RequestEvent::Estimated(vec![vec![amount(130_000)]]);
        let (run, action) = with_guard.proceed(run, estimates, 2);
        assert!(matches!(action, RequestAction::Validate { .. }));
        run
    };
    let failed = RequestEvent::ValidationFailed("no prices".to_string());
    let (_, action) = with_guard.proceed(start(), failed, 3);
    assert!(matches!(
        action,
        RequestAction::Answer(Err(SolveError::Internal(text))) if text == "no prices"
    ));
    let (run, action) =
        with_guard.proceed(start(), RequestEvent::Validated(vec![net_quote(900)]), 3);
    assert!(matches!(action, RequestAction::Encode));
    let failed = RequestEvent::EncodingFailed("no encoder".to_string());
    let (_, action) = with_guard.proceed(run, failed, 4);
    assert!(matches!(
        action,
        RequestAction::Answer(Err(SolveError::FailedEncoding(text))) if text == "no encoder"
    ));
}

#[test]
fn test_router_timeout() {
    let mut collection = Collection::new("test".to_string(), &vec!["slow_pool".to_string()], 1);
    collection.step(PoolEvent::Deadline { elapsed_ms: 50 });
    assert!(collection.done);
    let ranked = rank_quotes(&collection.into_responses(), &QuoteOptions::default());
    assert_eq!(ranked.len(), 1);
    assert_eq!(ranked[0].status(), QuoteStatus::Timeout);
}

#[test]
fn test_router_early_return_on_min_responses() {
    let pools = vec!["fast_pool".to_string(), "slow_pool".to_string()];
    let mut collection = Collection::new("test".to_string(), &pools, 1);
    collection.step(PoolEvent::Quote {
        pool: "fast_pool".to_string(),
        quote: make_single_quote("p", 800),
    });
    assert!(collection.done);
    assert_eq!(collection.remaining, vec!["slow_pool".to_string()]);
    let ranked = rank_quotes(&collection.into_responses(), &QuoteOptions::default());
    assert_eq!(ranked[0].status(), QuoteStatus::Success);
}

#[test]
fn test_router_captures_solver_errors() {
    let mut collection = Collection::new("test".to_string(), &vec!["error_pool".to_string()], 1);
    collection.step(PoolEvent::Failure {
        pool: "error_pool".to_string(),
        error: SolveError::NoRouteFound { order_id: "test-order".to_string() },
    });
    collection.step(PoolEvent::Exhausted);
    assert!(collection.done);
    let ranked = rank_quotes(&collection.into_responses(), &QuoteOptions::default());
    assert_eq!(ranked.len(), 1);
    assert_eq!(ranked[0].status(), QuoteStatus::NoRouteFound);
}

#[test]
fn zero_responses_waits_for_all_pools() {
    let pools = vec!["a".to_string(), "b".to_string()];
    let mut collection = Collection::new("test".to_string(), &pools, 0);
    collection.step(PoolEvent::Quote { pool: "a".to_string(), quote: make_single_quote("p", 1) });
    collection.step(PoolEvent::Quote { pool: "b".to_string(), quote: make_single_quote("p", 2) });
    assert!(!collection.done);
    collection.step(PoolEvent::Deadline { elapsed_ms: 9 });
    let responses = collection.into_responses();
    assert_eq!(responses.quotes.len(), 2);
    assert!(responses.failed_solvers.is_empty());
}

#[test]
fn a_finished_collection_takes_nothing_in() {
    let pools = vec!["a".to_string(), "b".to_string(), "c".to_string()];
    let mut collection = Collection::new("test".to_string(), &pools, 2);
    for pool in ["a", "b"] {
        let quote = make_single_quote("p", 1);
        collection.step(PoolEvent::Quote { pool: pool.to_string(), quote });
    }
    assert!(collection.done);
    let quote = make_single_quote("p", 2);
    collection.step(PoolEvent::Quote { pool: "c".to_string(), quote });
    collection.step(PoolEvent::Failure { pool: "c".to_string(), error: SolveError::QueueFull });
    collection.step(PoolEvent::Deadline { elapsed_ms: 9 });
    assert_eq!(collection.remaining, vec!["c".to_string()]);
    let responses = collection.into_responses();
    // As many quotes as were asked for, and no more.
    assert_eq!(responses.quotes.len(), 2);
    assert!(responses.failed_solvers.is_empty());
}

#[test]
fn every_pool_answers_once() {
    let pools = vec!["a".to_string(), "b".to_string(), "a".to_string(), "c".to_string()];
    let mut collection = Collection::new("test".to_string(), &pools, 0);
    assert_eq!(collection.remaining.len(), 3);
    let quote = make_single_quote("p", 1);
    collection.step(PoolEvent::Quote { pool: "b".to_string(), quote });
    collection.step(PoolEvent::Failure { pool: "c".to_string(), error: SolveError::QueueFull });
    assert_eq!(collection.remaining, vec!["a".to_string()]);
    collection.step(PoolEvent::Deadline { elapsed_ms: 9 });
    let responses = collection.into_responses();
    assert_eq!(responses.quotes.len(), 1);
    assert_eq!(responses.quotes[0].0, "b");
    let failed: Vec<&str> = responses.failed_solvers.iter().map(|(pool, _)| pool.as_str()).collect();
    assert_eq!(failed, vec!["c", "a"]);
}

#[test]
fn all_pools_are_settled_when_all_have_answered() {
    let pools = vec!["a".to_string(), "b".to_string(), "c".to_string()];
    let mut collection = Collection::new("test".to_string(), &pools, 2);
    for pool in ["a", "c"] {
        let error = SolveError::QueueFull;
        collection.step(PoolEvent::Failure { pool: pool.to_string(), error });
    }
    let quote = make_single_quote("p", 1);
    collection.step(PoolEvent::Quote { pool: "b".to_string(), quote });
    assert!(!collection.done && collection.remaining.is_empty());
    collection.step(PoolEvent::Exhausted);
    // One quote is less than was awaited, and every pool has answered.
    assert!(collection.done);
    let responses = collection.into_responses();
    assert_eq!(responses.quotes.len(), 1);
    assert_eq!(responses.failed_solvers.len(), 2);
}

fn order_named(id: &str) -> Order {
    make_order().with_id(id.to_string())
}

fn responses_for(id: &str, quotes: Vec<OrderQuote>) -> OrderResponses {
    OrderResponses {
        order_id: id.to_string(),
        quotes: quotes
            .into_iter()
            .map(|quote| ("a".to_string(), OrderQuote { order_id: id.to_string(), ..quote }))
            .collect(),
        failed_solvers: vec![],
    }
}

#[test]
fn answers_hold_one_quote_per_order() {
    let plain = router(vec![("a", PoolRole::Public)], WorkerPoolRouterConfig::default());
    let orders = || vec![order_named("first"), order_named("second"), order_named("third")];
    let responses = || {
        vec![
            responses_for("first", vec![net_quote(800), net_quote(900)]),
            // No pool has an answer to the second order.
            responses_for("second", vec![]),
            responses_for("third", vec![net_quote(700)]),
        ]
    };
    let ids = |quote: &Quote| -> Vec<String> {
        quote.orders().iter().map(|order| order.order_id.clone()).collect()
    };
    let expected = vec!["first".to_string(), "second".to_string(), "third".to_string()];

    let (run, _) = plain.quote(&QuoteRequest::new(orders(), QuoteOptions::default()), vec![]);
    assert_eq!(run.order_ids, expected);
    let (_, action) = plain.proceed(run, RequestEvent::Solved(responses()), 1);
    match action {
        RequestAction::Answer(Ok(quote)) => {
            assert_eq!(ids(&quote), expected);
            assert_eq!(*quote.orders()[0].amount_out_net_gas(), amount(900));
            assert_eq!(quote.orders()[1].status(), QuoteStatus::NoRouteFound);
        }
        other => panic!("{other:?}"),
    }

    let options = QuoteOptions::default().with_encoding_options(EncodingOptions::new(0));
    let (run, _) = plain.quote(&QuoteRequest::new(orders(), options), vec![]);
    let (run, _) = plain.proceed(run, RequestEvent::Solved(responses()), 1);
    let gas = || amount(130_000);
    let estimates = vec![vec![gas(), gas()], vec![], vec![gas()]];
    let (run, action) = plain.proceed(run, RequestEvent::Estimated(estimates), 2);
    assert!(matches!(action, RequestAction::Encode));
    assert_eq!(run.order_ids, expected);
    let encoded = vec![encoded_solution(), encoded_solution()];
    let (_, action) = plain.proceed(run, RequestEvent::Encoded(encoded), 3);
    match action {
        RequestAction::Answer(Ok(quote)) => {
            assert_eq!(ids(&quote), expected);
            assert!(quote.orders()[0].transaction().is_some());
            assert!(quote.orders()[1].transaction().is_none());
            assert!(quote.orders()[2].transaction().is_some());
        }
        other => panic!("{other:?}"),
    }
}

#[test]
fn failures_have_labels() {
    assert_eq!(failure_kind(&SolveError::Timeout { elapsed_ms: 1 }), "timeout");
    assert_eq!(
        failure_kind(&SolveError::NoRouteFound { order_id: "x".to_string() }),
        "no_route"
    );
}

#[test]
fn max_gas_constraint() {
    for (gas, max_gas, passes) in
        [(100, Some(200), true), (200, Some(200), true), (300, Some(200), false), (500, None, true)]
    {
        let responses =
            responses_of(vec![("pool", quote_of(QuoteStatus::Success, 990, gas, 900))], vec![]);
        let options = match max_gas {
            Some(gas) => QuoteOptions::default().with_max_gas(amount(gas)),
            None => QuoteOptions::default(),
        };
        let result = rank_quotes(&responses, &options);
        let expected = if passes { QuoteStatus::Success } else { QuoteStatus::NoRouteFound };
        assert_eq!(result[0].status(), expected);
    }
}

#[test]
fn test_rank_quotes_all_timeouts_returns_timeout_status() {
    let responses = responses_of(
        vec![],
        vec![
            ("pool_a", SolveError::Timeout { elapsed_ms: 100 }),
            ("pool_b", SolveError::Timeout { elapsed_ms: 100 }),
        ],
    );
    let result = rank_quotes(&responses, &QuoteOptions::default());
    assert_eq!(result.len(), 1);
    assert_eq!(result[0].status(), QuoteStatus::Timeout);
}

#[test]
fn test_rank_quotes_mixed_failures_returns_no_route_found() {
    let responses = responses_of(
        vec![],
        vec![
            ("pool_a", SolveError::Timeout { elapsed_ms: 100 }),
            ("pool_b", SolveError::NoRouteFound { order_id: "test".to_string() }),
        ],
    );
    let result = rank_quotes(&responses, &QuoteOptions::default());
    assert_eq!(result.len(), 1);
    assert_eq!(result[0].status(), QuoteStatus::NoRouteFound);
}

#[test]
fn test_rank_quotes_no_failures_returns_no_route_found() {
    let result = rank_quotes(&responses_of(vec![], vec![]), &QuoteOptions::default());
    assert_eq!(result.len(), 1);
    assert_eq!(result[0].status(), QuoteStatus::NoRouteFound);
    assert_eq!(result[0].solved_against(), "0");
}

#[test]
fn unready_pools_are_reported_as_such() {
    let responses = responses_of(
        vec![],
        vec![("pool_a", SolveError::NotReady("x".to_string()))],
    );
    let options = QuoteOptions::default().with_state_label("pending".to_string());
    let result = rank_quotes(&responses, &options);
    assert_eq!(result[0].status(), QuoteStatus::NotReady);
    assert_eq!(result[0].solved_against(), "pending");
}

#[test]
fn test_rank_quotes_returns_sorted_candidates() {
    let responses = responses_of(
        vec![
            ("pool_a", quote_of(QuoteStatus::Success, 800, 100_000, 800)),
            ("pool_b", quote_of(QuoteStatus::Success, 950, 100_000, 950)),
        ],
        vec![],
    );
    let result = rank_quotes(&responses, &QuoteOptions::default());
    assert_eq!(result.len(), 2);
    assert_eq!(*result[0].amount_out_net_gas(), amount(950));
    assert_eq!(*result[1].amount_out_net_gas(), amount(800));
}

fn surplus_responses(public_out: u64, surplus_out: u64) -> OrderResponses {
    responses_of(
        vec![
            ("public_pool", make_single_quote("public", public_out)),
            ("surplus_pool", make_single_quote("exclusive", surplus_out)),
        ],
        vec![],
    )
}

fn surplus_pool_roles() -> Table<String, PoolRole> {
    let mut roles = Table::new();
    roles.insert("public_pool".to_string(), PoolRole::Public);
    roles.insert("surplus_pool".to_string(), PoolRole::All);
    roles
}

#[test]
fn combine_prefers_surplus_when_it_beats_public() {
    let responses = surplus_responses(900, 950);
    let public_ranked = vec![make_single_quote("public", 900)];
    let combined = combine_with_surplus(
        &responses,
        &surplus_pool_roles(),
        &QuoteOptions::default(),
        &vec!["exclusive".to_string()],
        public_ranked,
    );
    // The surplus winner is at the head: user is quoted the committed public output, protocol
    // captures the surplus. The public candidate remains as a fallback.
    assert_eq!(*combined[0].amount_out(), amount(900));
    assert_eq!(combined[0].committed_amount_out(), Some(&amount(900)));
    assert_eq!(combined[0].eg_amount(), Some(&amount(50)));
    assert_eq!(combined.len(), 2);
    let leg = &combined[0].route().unwrap().swaps()[0];
    assert_eq!(leg.committed_amount_out(), Some(&amount(900)));
}

#[test]
fn combine_falls_back_to_public_when_surplus_does_not_beat_it() {
    let responses = surplus_responses(950, 900);
    let public_ranked = vec![make_single_quote("public", 950)];
    let combined = combine_with_surplus(
        &responses,
        &surplus_pool_roles(),
        &QuoteOptions::default(),
        &vec!["exclusive".to_string()],
        public_ranked,
    );
    assert_eq!(*combined[0].amount_out(), amount(950));
    assert_eq!(combined[0].eg_amount(), None);
}

#[test]
fn public_routes_capture_no_surplus() {
    let combined = combine_with_surplus(
        &surplus_responses(900, 950),
        &surplus_pool_roles(),
        &QuoteOptions::default(),
        &vec![],
        vec![make_single_quote("public", 900)],
    );
    assert_eq!(combined.len(), 1);
    assert_eq!(combined[0].eg_amount(), None);
}

#[test]
fn surplus_pools_do_not_set_the_public_reference() {
    let worker_router = router(
        vec![("public_pool", PoolRole::Public), ("surplus_pool", PoolRole::All)],
        WorkerPoolRouterConfig::default(),
    );
    let permissioned = vec!["exclusive".to_string()];
    let candidates = worker_router.candidates(
        &surplus_responses(900, 950),
        &QuoteOptions::default(),
        &permissioned,
    );
    assert_eq!(candidates.len(), 2);
    assert_eq!(*candidates[0].amount_out(), amount(900));
    assert_eq!(candidates[0].eg_amount(), Some(&amount(50)));
    assert_eq!(candidates[1].eg_amount(), None);
}

#[test]
fn commitments_are_rounded_in_the_users_favour() {
    let mut split = vec![
        make_swap("exclusive", 1, 2, 400),
        make_swap("exclusive", 1, 2, 601),
    ];
    split[0].split = Split::from_bits(0.4f64.to_bits());
    let surplus = quote_of(QuoteStatus::Success, 1001, 100_000, 1001).with_route(route_of(split));
    let responses = responses_of(vec![("surplus_pool", surplus)], vec![]);
    let combined = combine_with_surplus(
        &responses,
        &surplus_pool_roles(),
        &QuoteOptions::default(),
        &vec!["exclusive".to_string()],
        vec![make_single_quote("public", 900)],
    );
    let legs = combined[0].route().unwrap().swaps();
    // 400 * 900 / 1001 = 359.6.. and 601 * 900 / 1001 = 540.3..
    assert_eq!(legs[0].committed_amount_out(), Some(&amount(360)));
    assert_eq!(legs[1].committed_amount_out(), Some(&amount(541)));
}

#[test]
fn strategies_follow_routes() {
    let with = |swaps| quote_of(QuoteStatus::Success, 1, 1, 1).with_route(route_of(swaps));
    assert!(matches!(derive_strategy(&quote_of(QuoteStatus::Success, 1, 1, 1)), Strategy::Single));
    assert!(matches!(derive_strategy(&with(vec![make_swap("p", 1, 2, 1)])), Strategy::Single));
    let two = vec![make_swap("p", 1, 2, 1), make_swap("p", 2, 3, 1)];
    assert!(matches!(derive_strategy(&with(two)), Strategy::Sequential));
    let mut split = vec![make_swap("p", 1, 2, 1), make_swap("p", 1, 2, 1)];
    split[0].split = Split::from_bits(0.5f64.to_bits());
    assert!(matches!(derive_strategy(&with(split)), Strategy::Split));
}

#[test]
fn refined_gas_rescales_the_cost() {
    // A cost of 90 at 100_000 gas is 117 at 130_000.
    let quote = quote_of(QuoteStatus::Success, 990, 100_000, 900);
    let refined = refine_quote(&quote, &amount(130_000));
    assert_eq!(*refined.amount_out_net_gas(), amount(873));
    assert_eq!(*refined.gas_estimate(), amount(130_000));
    // A cost beyond the output leaves nothing.
    let refined = refine_quote(&quote, &amount(2_000_000));
    assert_eq!(*refined.amount_out_net_gas(), Amount::zero());
    // Without an estimate there is nothing to rescale.
    let free = quote_of(QuoteStatus::Success, 990, 0, 900);
    let same = refine_quote(&free, &amount(5));
    assert_eq!(*same.amount_out_net_gas(), amount(900));
    assert_eq!(*same.gas_estimate(), Amount::zero());
}

#[test]
fn successful_quotes_are_estimated() {
    let responses = responses_of(
        vec![
            ("a", quote_of(QuoteStatus::Timeout, 990, 1, 900)),
            ("b", make_single_quote("p", 950)),
        ],
        vec![],
    );
    let requests = estimate_requests(&responses, &EncodingOptions::new(0)).unwrap();
    assert_eq!(requests.len(), 1);
    assert_eq!(requests[0].quote, 1);
    let refined = refine_gas_estimates(&vec![responses], &vec![vec![amount(7), amount(200_000)]]);
    assert_eq!(*refined[0].quotes[0].1.gas_estimate(), amount(1));
    assert_eq!(*refined[0].quotes[1].1.gas_estimate(), amount(200_000));
    let missing = responses_of(vec![("b", quote_of(QuoteStatus::Success, 1, 1, 1))], vec![]);
    assert!(matches!(
        estimate_requests(&missing, &EncodingOptions::new(0)),
        Err(SolveError::FailedEncoding(_))
    ));
}

#[test]
fn price_guard_is_asked_where_it_is_there() {
    let plain = router(vec![("a", PoolRole::Public)], WorkerPoolRouterConfig::default());
    let candidates = || vec![vec![make_single_quote("p", 950), make_single_quote("p", 900)]];
    match plain.settle(candidates(), &QuoteOptions::default()) {
        Ok(Settlement::Selected(quotes)) => {
            assert_eq!(quotes.len(), 1);
            assert_eq!(*quotes[0].amount_out(), amount(950));
        }
        other => panic!("{other:?}"),
    }
    let guarded = QuoteOptions::default().with_encoding_options(
        EncodingOptions::new(0).with_price_guard(PriceGuardConfig { enabled: true }),
    );
    assert!(plain.settle(candidates(), &guarded).is_err());
    let with_guard =
        router(vec![("a", PoolRole::Public)], WorkerPoolRouterConfig::default()).with_price_guard();
    assert!(matches!(
        with_guard.settle(candidates(), &guarded),
        Ok(Settlement::Validate { .. })
    ));
}

#[test]
fn total_gas_adds_up() {
    let quote = complete_quote(
        vec![make_single_quote("p", 950), make_single_quote("p", 900)],
        12,
    );
    assert_eq!(*quote.total_gas_estimate(), amount(200_000));
    assert_eq!(quote.solve_time_ms(), 12);
    assert_eq!(quote.orders().len(), 2);
}
