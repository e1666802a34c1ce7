use fynd_core::amount::Amount;
use fynd_core::bytes::{Address, Bytes};
use fynd_core::encoding::encoder::Encoder;
use fynd_core::encoding::fees::RouterFees;
use fynd_core::error::AlgorithmError;
use fynd_core::feed::market_data::{MarketEvent, PairComponent, SynchronizerState, Update};
use fynd_core::feed::permission::ComponentScope;
use fynd_core::solver::assembly::{Assembly, AssemblyAction, AssemblyEvent, AssemblyStage};
use fynd_core::solver::builder::{FyndBuilder, Provider};
use fynd_core::solver::errors::{pending_result, SolverBuildError, WaitReadyError};
use fynd_core::solver::pool_config::{
    default_algo_timeout_ms, default_max_hops, default_min_hops, default_task_queue_capacity,
    parse_connector_tokens, PoolConfig, PoolRoleConfig,
};
use fynd_core::solver::readiness::{wait_until_ready, SolverStatus, SolverWait};
use fynd_core::solver::recording::{from_recording, Replay};
use fynd_core::table::Table;
use fynd_core::types::chain::{Chain, Real};
use fynd_core::types::quote::BlockInfo;
use fynd_core::types::route::{ProtocolComponent, Token};
use fynd_core::worker_pool::registry::{AlgorithmSpawner, Factory};
use fynd_core::worker_pool_router::ranking::PoolRole;
use fynd_core::worker_pool_router::router::SolverPoolHandle;
use std::sync::Arc;

const WETH: &str = "0xc02aaa39b223fe8d0a0e5c4f27ead9083c756cc2";
const USDC: &str = "0xa0b86991c6218b36c1d19d4a2e9eb0ce3606eb48";

type Predicate = fn(&ProtocolComponent) -> bool;
type Builder = FyndBuilder<u8, Predicate, &'static str, &'static str, u32>;
type Parts = Assembly<u8, Predicate, &'static str, &'static str, u32>;

fn texts(list: &[&str]) -> Vec<String> {
    list.iter().map(|t| t.to_string()).collect()
}

fn number(value: f64) -> Real {
    Real { bits: value.to_bits() }
}

fn builder() -> Builder {
    FyndBuilder::new(
        Chain::Ethereum,
        "ws://tycho".to_string(),
        "http://rpc".to_string(),
        texts(&["uniswap_v2"]),
        number(10.0),
    )
}

fn is_exclusive(c: &ProtocolComponent) -> bool {
    c.protocol_system == "vm:permissioned"
}

#[test]
fn pool_configuration_has_defaults() {
    let config = PoolConfig::new("most_liquid".to_string());
    assert_eq!(config.algorithm(), "most_liquid");
    assert_eq!(config.num_workers(), num_cpus::get());
    assert_eq!(config.task_queue_capacity(), 1000);
    assert_eq!(config.task_queue_capacity(), default_task_queue_capacity());
    assert_eq!((config.min_hops(), config.max_hops()), (1, 3));
    assert_eq!((default_min_hops(), default_max_hops()), (1, 3));
    assert_eq!(config.timeout_ms(), 100);
    assert_eq!(default_algo_timeout_ms(), 100);
    assert_eq!(config.max_routes(), None);
    assert_eq!(config.connector_tokens(), None);
    assert_eq!(config.role(), PoolRoleConfig::Public);
    let config = config
        .with_num_workers(4)
        .with_task_queue_capacity(7)
        .with_min_hops(2)
        .with_max_hops(5)
        .with_timeout_ms(250)
        .with_max_routes(Some(9))
        .with_connector_tokens(texts(&[WETH]))
        .with_role(PoolRoleConfig::Surplus);
    assert_eq!(config.num_workers(), 4);
    assert_eq!(config.task_queue_capacity(), 7);
    assert_eq!((config.min_hops(), config.max_hops()), (2, 5));
    assert_eq!(config.timeout_ms(), 250);
    assert_eq!(config.max_routes(), Some(9));
    assert_eq!(config.connector_tokens(), Some(&texts(&[WETH])));
    assert_eq!(config.role(), PoolRoleConfig::Surplus);
}

#[test]
fn roles_decide_what_workers_see() {
    assert_eq!(PoolRoleConfig::default(), PoolRoleConfig::Public);
    assert_eq!(PoolRoleConfig::Public.pool_role(), PoolRole::Public);
    assert_eq!(PoolRoleConfig::Surplus.pool_role(), PoolRole::All);
    assert_eq!(PoolRoleConfig::Public.component_scope(), ComponentScope::ExcludePermissioned);
    assert_eq!(PoolRoleConfig::Surplus.component_scope(), ComponentScope::IncludeAll);
}

#[test]
fn connector_tokens_are_addresses() {
    let address: Address = Bytes::parse(WETH).unwrap();
    assert!(parse_connector_tokens(None).unwrap().is_none());
    let upper = WETH.to_uppercase().replace("0X", "0x");
    let tokens = texts(&[WETH, USDC, &upper, &WETH[2..]]);
    let parsed = parse_connector_tokens(Some(&tokens)).unwrap().unwrap();
    assert_eq!(parsed, vec![address, Bytes::parse(USDC).unwrap()]);
    assert_eq!(parse_connector_tokens(Some(&vec![])).unwrap(), Some(vec![]));
}

#[test]
fn the_first_text_that_is_no_address_is_reported() {
    let tokens = texts(&[WETH, "no \"address\"", "xyz"]);
    match parse_connector_tokens(Some(&tokens)) {
        Err(SolverBuildError::AlgorithmConfig(AlgorithmError::InvalidConfiguration {
            reason,
        })) => {
            let start = "connector_tokens: invalid address \"no \\\"address\\\"\": ";
            assert!(reason.starts_with(start));
            assert!(reason.len() > start.len());
        }
        other => panic!("{other:?}"),
    }
}

#[test]
fn a_builder_has_defaults() {
    let b = builder();
    assert_eq!(b.chain(), Chain::Ethereum);
    assert!(b.tycho_use_tls);
    assert_eq!(b.min_token_quality, 100);
    assert_eq!(b.traded_n_days_ago, 3);
    assert_eq!(b.tvl_buffer_ratio, number(1.1));
    assert_eq!(b.gas_refresh_interval_ms, 30_000);
    assert_eq!(b.reconnect_delay_ms, 5_000);
    assert_eq!(b.router_timeout_ms, 10_000);
    assert_eq!(b.router_min_responses, 0);
    assert!(!b.price_guard_enabled && !b.partial_blocks);
    assert!(b.pools.is_empty() && b.encoder.is_none());
}

#[test]
fn algorithms_become_pools() {
    let b = builder().algorithm("bellman_ford".to_string()).with_algorithm("mine".to_string(), 7);
    assert_eq!(b.pools.len(), 2);
    assert_eq!(b.pools[0].name, "default");
    assert!(matches!(
        &b.pools[0].algorithm,
        AlgorithmSpawner::Registry { algorithm } if algorithm == "bellman_ford"
    ));
    assert_eq!(b.pools[0].num_workers, num_cpus::get());
    assert_eq!(b.pools[0].role(), PoolRoleConfig::Public);
    assert_eq!(b.pools[1].name, "mine");
    assert!(matches!(
        &b.pools[1].algorithm,
        AlgorithmSpawner::Custom { algorithm, spawner: 7 } if algorithm == "mine"
    ));
}

#[test]
fn a_pool_with_a_bad_token_is_refused() {
    let config =
        PoolConfig::new("most_liquid".to_string()).with_connector_tokens(texts(&["zz"]));
    let error = builder().add_pool("fast".to_string(), &config).unwrap_err();
    assert!(matches!(error, SolverBuildError::AlgorithmConfig(_)));
    assert_eq!(error.message("invalid configuration"), "invalid configuration");
    let config = config.with_connector_tokens(texts(&[USDC]));
    let b = builder().add_pool("fast".to_string(), &config).unwrap();
    assert_eq!(b.pools[0].connector_tokens, Some(vec![Bytes::parse(USDC).unwrap()]));
}

fn run_parts(mut parts: Parts) -> Vec<AssemblyStage> {
    let mut seen = vec![parts.stage];
    loop {
        match parts.step(AssemblyEvent::Created) {
            AssemblyAction::Create(stage) => seen.push(stage),
            AssemblyAction::SpawnPool { .. } => seen.push(AssemblyStage::Pool),
            AssemblyAction::Finish => return seen,
            other => panic!("{other:?}"),
        }
    }
}

#[test]
fn parts_are_set_up_in_order() {
    let config = PoolConfig::new("most_liquid".to_string()).with_role(PoolRoleConfig::Surplus);
    let parts = builder()
        .algorithm("most_liquid".to_string())
        .add_pool("surplus".to_string(), &config)
        .unwrap()
        .assemble_components()
        .unwrap();
    assert_eq!(
        run_parts(parts),
        vec![
            AssemblyStage::RpcClient,
            AssemblyStage::GasToken,
            AssemblyStage::ComputationManager,
            AssemblyStage::AlgorithmConfig,
            AssemblyStage::Pool,
            AssemblyStage::AlgorithmConfig,
            AssemblyStage::Pool,
            AssemblyStage::Encoder,
            AssemblyStage::FeeFetcher,
        ]
    );
    let parts = builder()
        .algorithm("most_liquid".to_string())
        .encoder("mine")
        .assemble_components()
        .unwrap();
    assert!(!run_parts(parts).contains(&AssemblyStage::Encoder));
}

#[test]
fn a_solver_needs_pools() {
    let error = builder().assemble_components().unwrap_err();
    assert!(matches!(error, SolverBuildError::NoPools));
    assert_eq!(error.message(""), "no worker pools configured");
}

#[test]
fn the_feed_is_configured_by_the_builder() {
    let parts = builder()
        .tycho_api_key("key".to_string())
        .tycho_use_tls(false)
        .min_tvl(number(20.0))
        .min_token_quality(50)
        .traded_n_days_ago(9)
        .tvl_buffer_ratio(number(1.5))
        .gas_refresh_interval(1_000)
        .reconnect_delay(2_000)
        .blocklisted_components(texts(&["0xbad"]))
        .partial_blocks(true)
        .worker_router_timeout(3_000)
        .worker_router_min_responses(2)
        .with_pending_indexer("uniswap_v2".to_string(), 5)
        .algorithm("most_liquid".to_string())
        .assemble_components()
        .unwrap();
    let feed = &parts.feed_config;
    assert_eq!(feed.tycho_url, "ws://tycho");
    assert_eq!(feed.tycho_api_key, Some("key".to_string()));
    assert!(!feed.use_tls && feed.partial_blocks);
    assert_eq!(feed.protocols, texts(&["uniswap_v2"]));
    assert_eq!(feed.min_tvl, number(20.0));
    assert_eq!(feed.min_token_quality, 50);
    assert_eq!(feed.traded_n_days_ago, Some(9));
    assert_eq!(feed.tvl_buffer_ratio, number(1.5));
    assert_eq!(feed.reconnect_delay_ms, 2_000);
    assert_eq!(feed.blocklisted_components, texts(&["0xbad"]));
    assert_eq!(parts.rpc_url, "http://rpc");
    assert_eq!(parts.gas_refresh_interval_ms, 1_000);
    assert_eq!(parts.router_config.default_timeout_ms, 3_000);
    assert_eq!(parts.router_config.min_responses, 2);
    assert_eq!(parts.pending_indexers, vec![("uniswap_v2".to_string(), 5)]);
}

#[test]
fn price_providers_are_started_only_for_a_guard() {
    let providers = |b: Builder| {
        b.algorithm("most_liquid".to_string()).assemble_components().unwrap().providers
    };
    assert!(providers(builder()).is_empty());
    assert!(providers(builder().register_price_provider("mine")).is_empty());
    assert!(matches!(
        providers(builder().price_guard_enabled(true))[..],
        [Provider::Hyperliquid, Provider::BinanceWs]
    ));
    assert!(matches!(
        providers(builder().price_guard_enabled(true).register_price_provider("mine"))[..],
        [Provider::Custom("mine")]
    ));
}

#[test]
fn pools_are_spawned_by_role() {
    let config = PoolConfig::new("bellman_ford".to_string())
        .with_role(PoolRoleConfig::Surplus)
        .with_num_workers(2);
    let mut parts = builder()
        .permission_policy(is_exclusive as Predicate)
        .add_pool("surplus".to_string(), &config)
        .unwrap()
        .add_pool("public".to_string(), &config.with_role(PoolRoleConfig::Public))
        .unwrap()
        .assemble_components()
        .unwrap();
    let mut spawned = vec![];
    loop {
        match parts.step(AssemblyEvent::Created) {
            AssemblyAction::SpawnPool { pool, role } => {
                assert_eq!(pool.num_workers(), 2);
                assert!(matches!(pool.factory, Factory::BuiltIn(_)));
                let filters = pool.permission.active_policy().is_some();
                spawned.push((pool.name().to_string(), role, filters));
            }
            AssemblyAction::Create(_) => {}
            AssemblyAction::Finish => break,
            other => panic!("{other:?}"),
        }
    }
    assert_eq!(
        spawned,
        vec![
            ("surplus".to_string(), PoolRole::All, false),
            ("public".to_string(), PoolRole::Public, true),
        ]
    );
}

fn parts_at(stage: AssemblyStage) -> Parts {
    let mut parts =
        builder().algorithm("most_liquid".to_string()).assemble_components().unwrap();
    while parts.stage != stage {
        parts.step(AssemblyEvent::Created);
    }
    parts
}

fn failure_at(stage: AssemblyStage) -> String {
    let mut parts = parts_at(stage);
    match parts.step(AssemblyEvent::Failed("boom".to_string())) {
        AssemblyAction::Fail(error) => {
            assert_eq!(parts.stage, AssemblyStage::Failed);
            assert!(matches!(parts.step(AssemblyEvent::Created), AssemblyAction::Ignore));
            error.message("")
        }
        other => panic!("{other:?}"),
    }
}

#[test]
fn a_part_that_cannot_be_set_up_is_named() {
    assert_eq!(
        failure_at(AssemblyStage::RpcClient),
        "failed to create ethereum RPC client: boom"
    );
    assert_eq!(failure_at(AssemblyStage::GasToken), "gas token not configured for chain");
    assert_eq!(
        failure_at(AssemblyStage::ComputationManager),
        "failed to create computation manager: boom"
    );
    assert_eq!(failure_at(AssemblyStage::Encoder), "failed to create encoder: boom");
    assert_eq!(
        failure_at(AssemblyStage::FeeFetcher),
        "failed to create router fee fetcher: boom"
    );
}

#[test]
fn an_unknown_algorithm_ends_the_assembly() {
    let mut parts = builder().algorithm("nobody".to_string()).assemble_components().unwrap();
    for _ in 0..3 {
        assert!(matches!(parts.step(AssemblyEvent::Created), AssemblyAction::Create(_)));
    }
    match parts.step(AssemblyEvent::Created) {
        AssemblyAction::Fail(error) => assert_eq!(
            error.message(""),
            "unknown algorithm 'nobody'. Available: most_liquid, bellman_ford, path_frank_wolfe"
        ),
        other => panic!("{other:?}"),
    }
    let mut parts = parts_at(AssemblyStage::AlgorithmConfig);
    let reason = "min_hops above max_hops".to_string();
    assert!(matches!(
        parts.step(AssemblyEvent::Rejected(AlgorithmError::InvalidConfiguration { reason })),
        AssemblyAction::Fail(SolverBuildError::AlgorithmConfig(_))
    ));
}

fn update(id: &str, block: Option<u64>) -> Update {
    let token = Token {
        address: Bytes::parse(WETH).unwrap(),
        symbol: "WETH".to_string(),
        decimals: 18,
    };
    let mut new_pairs = Table::new();
    new_pairs.insert(
        id.to_string(),
        PairComponent {
            id: id.to_string(),
            protocol_system: "uniswap_v2".to_string(),
            tokens: Arc::new(vec![token]),
        },
    );
    let mut states = Table::new();
    states.insert(id.to_string(), 1);
    Update {
        block_number_or_timestamp: 1,
        new_pairs,
        removed_pairs: vec![],
        states,
        sync_states: match block {
            Some(n) => vec![(
                "uniswap_v2".to_string(),
                SynchronizerState::Ready(BlockInfo::new(n, "0x".to_string(), n)),
            )],
            None => vec![],
        },
    }
}

type Recorded = Replay<u8, Predicate, &'static str, &'static str, u32>;

#[test]
fn a_recording_is_replayed() {
    let pools = vec![
        (
            "slow".to_string(),
            PoolConfig::new("most_liquid".to_string())
                .with_timeout_ms(7_000)
                .with_role(PoolRoleConfig::Surplus),
        ),
        ("fast".to_string(), PoolConfig::new("bellman_ford".to_string())),
    ];
    let updates = vec![update("a", Some(10)), update("b", Some(11))];
    let replay: Recorded =
        from_recording(Chain::Ethereum, &updates, &pools, Some(Amount::from_u64(3))).unwrap();
    assert!(replay.market.get_component(&"a".to_string()).is_some());
    assert!(replay.market.get_component(&"b".to_string()).is_some());
    assert_eq!(replay.gas_price, Amount::from_u64(3));
    assert_eq!(replay.gas_block, 11);
    let MarketEvent::MarketUpdated { added_components, removed_components, updated_components } =
        &replay.initial_event;
    assert_eq!(added_components.entries.len(), 2);
    assert!(removed_components.is_empty() && updated_components.is_empty());
    // The router waits for the slowest pool.
    assert_eq!(replay.assembly.router_config.default_timeout_ms, 7_000);
    assert_eq!(
        run_parts(replay.assembly),
        vec![
            AssemblyStage::GasToken,
            AssemblyStage::ComputationManager,
            AssemblyStage::AlgorithmConfig,
            AssemblyStage::Pool,
            AssemblyStage::AlgorithmConfig,
            AssemblyStage::Pool,
            AssemblyStage::Encoder,
        ]
    );
}

#[test]
fn recorded_pools_keep_their_configuration() {
    let surplus = PoolConfig::new("most_liquid".to_string())
        .with_role(PoolRoleConfig::Surplus)
        .with_num_workers(2)
        .with_connector_tokens(texts(&[WETH, USDC]));
    let public = PoolConfig::new("bellman_ford".to_string());
    let pools = vec![("surplus".to_string(), surplus), ("public".to_string(), public)];
    let mut parts =
        from_recording::<u8, Predicate, &'static str, &'static str, u32>(
            Chain::Ethereum,
            &vec![],
            &pools,
            None,
        )
        .unwrap()
        .assembly;
    let mut spawned = vec![];
    loop {
        match parts.step(AssemblyEvent::Created) {
            AssemblyAction::SpawnPool { pool, role } => {
                let connectors = pool.algorithm_config.unwrap().connector_tokens;
                spawned.push((pool.name, role, pool.permission.scope, connectors));
            }
            AssemblyAction::Create(_) => {}
            AssemblyAction::Finish => break,
            other => panic!("{other:?}"),
        }
    }
    let connectors = vec![Bytes::parse(WETH).unwrap(), Bytes::parse(USDC).unwrap()];
    assert_eq!(
        spawned,
        vec![
            ("surplus".to_string(), PoolRole::All, ComponentScope::IncludeAll, Some(connectors)),
            ("public".to_string(), PoolRole::Public, ComponentScope::ExcludePermissioned, None),
        ]
    );
}

#[test]
fn a_recording_refuses_a_bad_connector_token() {
    let good = PoolConfig::new("most_liquid".to_string()).with_connector_tokens(texts(&[USDC]));
    let bad = PoolConfig::new("most_liquid".to_string()).with_connector_tokens(texts(&["zz"]));
    let expected = match builder().add_pool("b".to_string(), &bad) {
        Err(SolverBuildError::AlgorithmConfig(AlgorithmError::InvalidConfiguration {
            reason,
        })) => reason,
        other => panic!("{other:?}"),
    };
    let pools = vec![("a".to_string(), good), ("b".to_string(), bad)];
    let refused: Result<Recorded, _> = from_recording(Chain::Ethereum, &vec![], &pools, None);
    match refused {
        Err(SolverBuildError::AlgorithmConfig(AlgorithmError::InvalidConfiguration {
            reason,
        })) => assert_eq!(reason, expected),
        other => panic!("{other:?}"),
    }
}

#[test]
fn a_recording_has_defaults() {
    let pools = vec![("fast".to_string(), PoolConfig::new("most_liquid".to_string()))];
    let replay: Recorded = from_recording(Chain::Ethereum, &vec![], &pools, None).unwrap();
    assert_eq!(replay.gas_price, Amount::from_u64(10_000_000_000));
    assert_eq!(replay.gas_block, 0);
    assert_eq!(replay.assembly.router_config.default_timeout_ms, 5_000);
    assert_eq!(replay.assembly.feed_config.tycho_url, "ws://replay");
    let nothing: Result<Recorded, _> = from_recording(Chain::Ethereum, &vec![], &vec![], None);
    assert!(matches!(nothing.unwrap_err(), SolverBuildError::NoPools));
}

#[test]
fn a_solver_is_ready_with_market_derived_data_and_fees() {
    let ready = SolverStatus { market: true, derived: true, router_fees: true };
    assert!(matches!(wait_until_ready(ready, false, 100), SolverWait::Ready));
    assert!(matches!(wait_until_ready(ready, true, 100), SolverWait::Ready));
    for lacking in [
        SolverStatus { market: false, ..ready },
        SolverStatus { derived: false, ..ready },
        SolverStatus { router_fees: false, ..ready },
    ] {
        assert!(matches!(wait_until_ready(lacking, false, 100), SolverWait::Poll(500)));
        match wait_until_ready(lacking, true, 100) {
            SolverWait::TimedOut(error) => assert_eq!(
                error.message(),
                "timed out after 100ms waiting for market data and derived computations"
            ),
            other => panic!("{other:?}"),
        }
    }
    assert_eq!(WaitReadyError { timeout_ms: 7 }.timeout_ms, 7);
}

#[test]
fn a_pending_processor_is_waited_for() {
    assert_eq!(pending_result(Some(Ok(5))).unwrap(), 5);
    assert_eq!(
        pending_result::<u8>(Some(Err("no feed".to_string()))).unwrap_err().message(""),
        "feed setup failed before delivering pending processor: no feed"
    );
    assert_eq!(
        pending_result::<u8>(None).unwrap_err().message(""),
        "pending processor channel closed before processor was delivered"
    );
    assert_eq!(
        SolverBuildError::Replay("bad".to_string()).message(""),
        "replay failed: bad"
    );
}

#[test]
fn spawned_pools_become_a_router() {
    for guarded in [false, true] {
        let parts = builder()
            .algorithm("most_liquid".to_string())
            .price_guard_enabled(guarded)
            .worker_router_min_responses(3)
            .assemble_components()
            .unwrap();
        let fees = RouterFees::new(100_000_000, 100_000, 20_000_000, Table::new());
        let encoder = Encoder::new(Chain::Ethereum, Ok(Bytes::parse(WETH).unwrap()), fees).unwrap();
        let handle = SolverPoolHandle::new("most_liquid".to_string(), 7u8);
        let router = parts.into_router(vec![handle], encoder);
        assert_eq!(router.num_pools(), 1);
        assert_eq!(router.pool_names(), texts(&["most_liquid"]));
        assert_eq!(router.config.min_responses, 3);
        assert_eq!(router.guarded, guarded);
    }
}
