use fynd_core::amount::Amount;
use fynd_core::bytes::{Address, Bytes};
use fynd_core::error::{AlgorithmError, SolveError};
use fynd_core::feed::market_data::{MarketEvent, MarketState};
use fynd_core::feed::permission::{ComponentScope, PermissionContext, PermissionPolicy};
use fynd_core::table::Table;
use fynd_core::types::options::SolveParams;
use fynd_core::types::order::{Order, OrderSide};
use fynd_core::types::quote::{
    BlockInfo, QuoteStatus, RouteResult, SignedAmount, SingleOrderQuote,
};
use fynd_core::types::route::{ProtocolComponent, Route, Swap};
use fynd_core::worker_pool::pool::{AlgorithmConfig, WorkerPoolBuilder, WorkerPoolConfig};
use fynd_core::worker_pool::quoting::{MarketReading, QuoteAction, QuoteEvent, QuoteRun};
use fynd_core::worker_pool::readiness::{wait_until_ready, Readiness, WaitAction, WaitEvent};
use fynd_core::worker_pool::registry::{
    built_in, AlgorithmSpawner, BuiltIn, Factory, UnknownAlgorithmError,
};
use fynd_core::worker_pool::worker::{SolverWorker, WorkerAction, WorkerEvent};
use std::sync::Arc;

type Predicate = fn(&ProtocolComponent) -> bool;

fn amount(n: u64) -> Amount {
    Amount::from_u64(n)
}

fn make_address(byte: u8) -> Address {
    Bytes::new(vec![byte; 20])
}

fn make_order() -> Order {
    Order::new(
        make_address(1),
        make_address(2),
        amount(1000),
        OrderSide::Sell,
        make_address(0xAA),
    )
    .with_id("order-1".to_string())
}

fn component(id: &str, protocol: &str) -> ProtocolComponent {
    ProtocolComponent {
        id: id.to_string(),
        protocol_system: protocol.to_string(),
        tokens: Arc::new(vec![make_address(1), make_address(2)]),
    }
}

fn make_swap(token_in: u8, token_out: u8, out: u64) -> Swap {
    Swap::new(
        "pool".to_string(),
        "uniswap_v2".to_string(),
        make_address(token_in),
        make_address(token_out),
        amount(1000),
        amount(out),
        amount(50_000),
        component("pool", "uniswap_v2"),
    )
}

fn readiness(has_requirements: bool, is_ready: bool, is_blocked: bool) -> Readiness {
    Readiness {
        has_requirements,
        is_ready,
        is_blocked,
        missing: "[\"spot_prices\"]".to_string(),
    }
}

fn look(time_left: bool) -> WaitEvent {
    WaitEvent::Look { time_left }
}

#[test]
fn wait_until_ready_returns_immediately_when_no_requirements() {
    let result = wait_until_ready(look(true), &readiness(false, false, false));
    assert!(matches!(result, WaitAction::Proceed));
}

#[test]
fn wait_until_ready_returns_immediately_when_already_ready() {
    let result = wait_until_ready(look(true), &readiness(true, true, false));
    assert!(matches!(result, WaitAction::Proceed));
}

#[test]
fn wait_until_ready_times_out_when_not_ready() {
    let state = readiness(true, false, false);
    assert!(matches!(wait_until_ready(look(true), &state), WaitAction::Wait));
    for late in [WaitEvent::Expired, look(false)] {
        match wait_until_ready(late, &state) {
            WaitAction::Fail(SolveError::NotReady(msg)) => {
                assert!(msg.contains("timeout"));
                assert!(msg.contains("spot_prices"));
            }
            other => panic!("Expected NotReady error, got {other:?}"),
        }
    }
}

#[test]
fn wait_until_ready_wakes_up_on_notify() {
    let state = readiness(true, false, false);
    assert!(matches!(wait_until_ready(WaitEvent::Notified, &state), WaitAction::LookAgain));
    // Woken up, but still not ready
    assert!(matches!(wait_until_ready(look(true), &state), WaitAction::Wait));
}

#[test]
fn wait_until_ready_succeeds_when_notified_and_ready() {
    let state = readiness(true, true, false);
    assert!(matches!(wait_until_ready(WaitEvent::Notified, &state), WaitAction::LookAgain));
    assert!(matches!(wait_until_ready(look(true), &state), WaitAction::Proceed));
}

#[test]
fn wait_until_ready_returns_immediately_on_blocked_state() {
    match wait_until_ready(WaitEvent::Notified, &readiness(true, false, true)) {
        WaitAction::Fail(SolveError::ComputationFailed(msg)) => {
            assert!(msg.contains("required computation failed"));
        }
        other => panic!("Expected ComputationFailed error, got {other:?}"),
    }
}

#[test]
fn wait_until_ready_returns_blocked_when_failure_already_processed() {
    match wait_until_ready(look(true), &readiness(true, false, true)) {
        WaitAction::Fail(SolveError::ComputationFailed(msg)) => {
            assert_eq!(
                msg,
                "required computation failed for current block: [\"spot_prices\"]"
            );
        }
        other => panic!("Expected ComputationFailed error, got {other:?}"),
    }
}

fn worker() -> SolverWorker<Predicate> {
    SolverWorker::new("most_liquid".to_string(), vec!["spot_prices".to_string()], 3)
}

#[test]
fn worker_updates_tracker_and_notifies_on_derived_event() {
    let worker = worker();
    assert_eq!(
        worker.react(&WorkerEvent::ComputationComplete("spot_prices".to_string())),
        WorkerAction::TrackReadiness { update_weights: true }
    );
    assert_eq!(
        worker.react(&WorkerEvent::ComputationComplete("pool_depths".to_string())),
        WorkerAction::TrackReadiness { update_weights: false }
    );
    assert_eq!(
        worker.react(&WorkerEvent::Derived),
        WorkerAction::TrackReadiness { update_weights: false }
    );
    assert_eq!(worker.react(&WorkerEvent::Shutdown), WorkerAction::Stop);
}

#[test]
fn worker_recovers_from_missed_events() {
    let worker = worker();
    assert_eq!(worker.react(&WorkerEvent::MarketLagged), WorkerAction::InitializeGraph);
    assert_eq!(worker.react(&WorkerEvent::DerivedLagged), WorkerAction::UpdateWeights);
    assert_eq!(worker.react(&WorkerEvent::DerivedClosed), WorkerAction::Continue);
    assert_eq!(worker.react(&WorkerEvent::MarketClosed), WorkerAction::Stop);
    assert_eq!(worker.react(&WorkerEvent::TasksClosed), WorkerAction::Stop);
    assert_eq!(worker.react(&WorkerEvent::Market), WorkerAction::ProcessEvent);
    assert_eq!(worker.react(&WorkerEvent::Task), WorkerAction::Solve);
}

fn is_exclusive(c: &ProtocolComponent) -> bool {
    c.protocol_system == "vm:permissioned"
}

#[test]
fn a_public_worker_never_sees_permissioned_components() {
    let mut market = MarketState::new();
    market.upsert_components(&vec![
        component("pub-1", "uniswap_v2"),
        component("perm-1", "vm:permissioned"),
    ]);
    let policy = PermissionPolicy::new(is_exclusive as Predicate);
    let mut public = worker().with_permission(PermissionContext::new(
        ComponentScope::ExcludePermissioned,
        Some(policy),
    ));
    assert!(!public.initialized);
    let graph = public.initialize_graph(&market);
    assert!(public.initialized);
    assert_eq!(graph.entries.len(), 1);
    assert_eq!(graph.entries[0].0, "pub-1");
    let event = MarketEvent::MarketUpdated {
        added_components: Table::new(),
        removed_components: vec!["perm-1".to_string()],
        updated_components: vec!["pub-1".to_string(), "perm-1".to_string()],
    };
    let MarketEvent::MarketUpdated { removed_components, updated_components, .. } =
        public.process_event(&market, event);
    assert!(removed_components.is_empty());
    assert_eq!(updated_components, vec!["pub-1".to_string()]);
    assert_eq!(worker().initialize_graph(&market).entries.len(), 2);
}

fn begun(initialized: bool) -> QuoteRun {
    let mut worker = worker();
    worker.initialized = initialized;
    worker.quote(&make_order(), SolveParams::default())
}

fn solving(label: Option<&str>) -> QuoteRun {
    let mut run = begun(true);
    let action = run.step(QuoteEvent::Begin(readiness(true, true, false)));
    assert!(matches!(action, QuoteAction::ReadMarket(None)));
    let reading = MarketReading {
        block: Some(BlockInfo::new(21_000_000, "0xabc".to_string(), 5)),
        label: label.map(str::to_string),
    };
    let action = run.step(QuoteEvent::MarketRead(reading));
    assert!(matches!(action, QuoteAction::FindRoute(None)));
    run
}

fn found(swaps: Vec<Swap>, negative: bool) -> QuoteEvent {
    QuoteEvent::RouteFound {
        result: RouteResult::new(
            Route::new(swaps, Table::new()),
            SignedAmount { negative, magnitude: amount(900) },
            amount(30),
        ),
        elapsed_ms: 17,
    }
}

fn answer(action: QuoteAction) -> Result<SingleOrderQuote, SolveError> {
    match action {
        QuoteAction::Answer(result) => result,
        other => panic!("{other:?}"),
    }
}

#[test]
fn an_unready_worker_refuses() {
    let mut run = begun(true);
    match answer(run.step(QuoteEvent::Begin(readiness(true, false, false)))) {
        Err(SolveError::NotReady(text)) => {
            assert_eq!(text, "derived data not ready: missing [\"spot_prices\"]")
        }
        other => panic!("{other:?}"),
    }
    assert!(matches!(run.step(QuoteEvent::Initialized), QuoteAction::Ignore));
}

#[test]
fn a_new_worker_builds_its_graph_first() {
    let mut run = begun(false);
    let action = run.step(QuoteEvent::Begin(readiness(false, false, false)));
    assert!(matches!(action, QuoteAction::InitializeGraph));
    assert!(matches!(run.step(QuoteEvent::Initialized), QuoteAction::ReadMarket(None)));
}

#[test]
fn labels_are_handed_to_the_market_and_the_algorithm() {
    let params = SolveParams::default().with_state_label("pending".to_string());
    let mut worker = worker();
    worker.initialized = true;
    let mut run = worker.quote(&make_order(), params);
    match run.step(QuoteEvent::Begin(readiness(false, false, false))) {
        QuoteAction::ReadMarket(Some(label)) => assert_eq!(label, "pending"),
        other => panic!("{other:?}"),
    }
    match answer(run.step(QuoteEvent::MarketRefused("no such label".to_string()))) {
        Err(SolveError::NotReady(text)) => assert_eq!(text, "no such label"),
        other => panic!("{other:?}"),
    }
}

#[test]
fn a_market_without_a_block_is_not_ready() {
    let mut run = begun(true);
    run.step(QuoteEvent::Begin(readiness(false, false, false)));
    let reading = MarketReading { block: None, label: None };
    match answer(run.step(QuoteEvent::MarketRead(reading))) {
        Err(SolveError::NotReady(text)) => assert_eq!(text, "No block info"),
        other => panic!("{other:?}"),
    }
}

#[test]
fn a_found_route_is_quoted() {
    // Two branches end in token 3; the first leg's output does not count.
    let swaps = vec![make_swap(1, 2, 500), make_swap(2, 3, 400), make_swap(1, 3, 590)];
    let quote = answer(solving(None).step(found(swaps, false))).unwrap();
    assert_eq!(quote.solve_time_ms(), 17);
    let order = quote.order();
    assert_eq!(order.status(), QuoteStatus::Success);
    assert_eq!(order.order_id(), "order-1");
    assert_eq!(*order.amount_in(), amount(1000));
    assert_eq!(*order.amount_out(), amount(990));
    assert_eq!(*order.amount_out_net_gas(), amount(900));
    assert_eq!(*order.gas_estimate(), amount(150_000));
    assert_eq!(order.gas_price(), Some(&amount(30)));
    assert_eq!(order.block().number(), 21_000_000);
    assert_eq!(order.algorithm(), "most_liquid");
    assert_eq!(order.solved_against(), "21000000");
    assert_eq!(*order.receiver(), make_address(0xAA));
    assert_eq!(order.route().unwrap().hop_count(), 3);
}

#[test]
fn a_negative_net_output_is_quoted_as_zero() {
    let swaps = vec![make_swap(1, 2, 500)];
    let quote = answer(solving(Some("pending")).step(found(swaps, true))).unwrap();
    assert_eq!(*quote.order().amount_out_net_gas(), Amount::zero());
    assert_eq!(quote.order().solved_against(), "pending");
}

#[test]
fn an_empty_route_is_no_route() {
    match answer(solving(None).step(found(vec![], false))) {
        Err(SolveError::NoRouteFound { order_id }) => assert_eq!(order_id, "order-1"),
        other => panic!("{other:?}"),
    }
}

#[test]
fn algorithm_errors_become_solve_errors() {
    let fail = |error: AlgorithmError| {
        answer(solving(None).step(QuoteEvent::AlgorithmFailed {
            error,
            text: "not implemented".to_string(),
        }))
        .unwrap_err()
    };
    assert!(matches!(
        fail(AlgorithmError::NoPath { reason: "x".to_string() }),
        SolveError::NoRouteFound { .. }
    ));
    assert!(matches!(
        fail(AlgorithmError::Timeout { elapsed_ms: 5 }),
        SolveError::Timeout { elapsed_ms: 5 }
    ));
    assert!(matches!(
        fail(AlgorithmError::Other("x".to_string())),
        SolveError::AlgorithmError(text) if text == "not implemented"
    ));
}

#[test]
fn test_registry_unknown_algorithm_returns_error() {
    let spawner: AlgorithmSpawner<u8> =
        AlgorithmSpawner::Registry { algorithm: "unknown_algorithm".to_string() };
    let result = spawner.spawn();
    assert!(result.is_err());
    let err: UnknownAlgorithmError = result.unwrap_err();
    assert_eq!(err.name(), "unknown_algorithm");
    assert!(err.message().contains("unknown_algorithm"));
    assert!(err.message().contains("most_liquid"));
    assert_eq!(
        err.message(),
        "unknown algorithm 'unknown_algorithm'. Available: most_liquid, bellman_ford, path_frank_wolfe"
    );
}

fn builder() -> WorkerPoolBuilder<u8, Predicate> {
    WorkerPoolBuilder::new()
}

#[test]
fn test_registry_spawns_correct_number_of_workers() {
    let pool = builder().algorithm("most_liquid".to_string()).num_workers(3).build().unwrap();
    assert_eq!(pool.num_workers(), 3);
    assert_eq!(
        pool.workers,
        vec!["most_liquid-worker-0", "most_liquid-worker-1", "most_liquid-worker-2"]
    );
    assert!(matches!(pool.factory, Factory::BuiltIn(BuiltIn::MostLiquid)));
}

#[test]
fn test_custom_spawner_bypasses_registry_for_unknown_names() {
    let rejected = builder().algorithm("my_custom_algo".to_string()).build();
    assert!(rejected.is_err());
    let pool =
        builder().with_algorithm("my_custom_algo".to_string(), 7).num_workers(2).build().unwrap();
    assert_eq!(pool.num_workers(), 2);
    assert_eq!(pool.algorithm(), "my_custom_algo");
    assert!(matches!(pool.factory, Factory::Custom(7)));
}

#[test]
fn test_registry_spawns_path_frank_wolfe() {
    let pool =
        builder().algorithm("path_frank_wolfe".to_string()).num_workers(1).build().unwrap();
    assert_eq!(pool.num_workers(), 1);
    assert!(matches!(built_in(&"bellman_ford".to_string()), Some(BuiltIn::BellmanFord)));
    assert_eq!(BuiltIn::PathFrankWolfe.name(), "path_frank_wolfe");
}

#[test]
fn a_default_pool_has_a_worker_for_each_cpu() {
    let config: WorkerPoolConfig<u8, Predicate> = WorkerPoolConfig::default();
    assert_eq!(config.num_workers, num_cpus::get());
    assert_eq!(config.algorithm_name(), "most_liquid");
    assert_eq!(config.task_queue_capacity, 1000);
    assert_eq!(config.component_scope, ComponentScope::IncludeAll);
}

#[test]
fn a_pool_is_built_as_configured() {
    let config = AlgorithmConfig {
        min_hops: 1,
        max_hops: 2,
        timeout_ms: 50,
        max_routes: None,
        connector_tokens: None,
    };
    let pool = builder()
        .name("fast".to_string())
        .algorithm_config(config)
        .task_queue_capacity(10)
        .component_scope(ComponentScope::ExcludePermissioned)
        .permission_policy(PermissionPolicy::new(is_exclusive as Predicate))
        .build()
        .unwrap();
    assert_eq!(pool.name(), "fast");
    assert_eq!(pool.algorithm(), "most_liquid");
    assert_eq!(pool.task_queue_capacity, 10);
    assert_eq!(pool.algorithm_config.unwrap().max_hops, 2);
    assert!(pool.permission.active_policy().is_some());
}
