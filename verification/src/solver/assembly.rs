//! Setting a solver's parts up, one after the other.
use vstd::prelude::*;

use crate::encoding::encoder::Encoder;
use crate::error::AlgorithmError;
use crate::feed::config::TychoFeedConfig;
use crate::feed::permission::PermissionPolicy;
use crate::solver::builder::{FyndBuilder, PoolEntry, Provider};
use crate::solver::errors::SolverBuildError;
use crate::types::chain::Chain;
use crate::worker_pool::pool::{
    AlgorithmConfig, WorkerPool, WorkerPoolBuilder, WorkerPoolConfig,
};
use crate::worker_pool_router::config::WorkerPoolRouterConfig;
use crate::worker_pool_router::ranking::PoolRole;
use crate::worker_pool_router::router::{SolverPoolHandle, WorkerPoolRouter};

verus! {

/// A pool to be set up, and the role that the router knows it by.
#[derive(Debug)]
pub struct PlannedPool<S, F> {
    pub config: WorkerPoolConfig<S, F>,
    pub role: PoolRole,
}

/// The pool that an entry asks for: its workers see what its role lets them, by the policy that all
/// pools share.
pub open spec fn planned<S, F>(
    entry: PoolEntry<S>,
    policy: Option<PermissionPolicy<F>>,
) -> PlannedPool<S, F> {
    PlannedPool {
        config: WorkerPoolConfig {
            name: entry.name,
            spawner: entry.algorithm,
            num_workers: entry.num_workers,
            algorithm_config: Some(
                AlgorithmConfig {
                    min_hops: entry.min_hops,
                    max_hops: entry.max_hops,
                    timeout_ms: entry.timeout_ms,
                    max_routes: entry.max_routes,
                    connector_tokens: entry.connector_tokens,
                },
            ),
            task_queue_capacity: entry.task_queue_capacity,
            component_scope: entry.role.spec_component_scope(),
            permission_policy: policy,
        },
        role: entry.role.spec_pool_role(),
    }
}

/// The pools that entries ask for.
pub open spec fn all_planned<S, F>(
    entries: Seq<PoolEntry<S>>,
    policy: Option<PermissionPolicy<F>>,
) -> Seq<PlannedPool<S, F>> {
    Seq::new(entries.len(), |i: int| planned(entries[i], policy))
}

/// A part of a solver that is being set up.
#[derive(Debug, Clone, Copy, PartialEq, Eq, Structural)]
pub enum AssemblyStage {
    RpcClient,
    GasToken,
    ComputationManager,
    /// The configuration of the next pool's algorithm.
    AlgorithmConfig,
    /// The workers of a pool.
    Pool,
    Encoder,
    FeeFetcher,
    /// All is set up.
    Assembled,
    /// Something could not be set up.
    Failed,
}

/// What becomes of the part.
#[derive(Debug)]
pub enum AssemblyEvent {
    /// It is set up.
    Created,
    /// It cannot be set up.
    Failed(String),
    /// The algorithm does not accept its configuration.
    Rejected(AlgorithmError),
}

/// What is to be done next.
#[derive(Debug)]
pub enum AssemblyAction<S, F> {
    /// Set the part up.
    Create(AssemblyStage),
    /// Spawn a pool, and hand it to the router under its role.
    SpawnPool { pool: WorkerPool<S, F>, role: PoolRole },
    /// Put the parts together.
    Finish,
    /// Give up.
    Fail(SolverBuildError),
    /// Nothing.
    Ignore,
}

/// A solver that is being set up.
#[derive(Debug)]
pub struct Assembly<S, F, E, P, I> {
    pub chain: Chain,
    /// Whether the solver runs on a live feed, rather than on a recording.
    pub live: bool,
    pub rpc_url: String,
    pub feed_config: TychoFeedConfig,
    pub gas_refresh_interval_ms: u64,
    /// The pools that are not set up, in their order.
    pub pools: Vec<PlannedPool<S, F>>,
    /// The encoder, where the caller has brought one.
    pub encoder: Option<E>,
    pub router_config: WorkerPoolRouterConfig,
    /// Whether quotes can be checked against outside prices.
    pub price_guard: bool,
    /// The price providers to start.
    pub providers: Vec<Provider<P>>,
    pub pending_indexers: Vec<(String, I)>,
    pub stage: AssemblyStage,
}

/// What the router of a live solver waits for.
pub open spec fn live_router_config<S, F, E, P, I>(
    builder: FyndBuilder<S, F, E, P, I>,
) -> WorkerPoolRouterConfig {
    WorkerPoolRouterConfig {
        default_timeout_ms: builder.router_timeout_ms,
        min_responses: builder.router_min_responses,
    }
}

/// The price providers that a solver starts: none where the guard is disabled; the built-in ones where
/// the caller has registered none.
pub open spec fn started_providers<S, F, E, P, I>(
    builder: FyndBuilder<S, F, E, P, I>,
) -> Seq<Provider<P>> {
    if !builder.price_guard_enabled {
        seq![]
    } else if builder.price_providers@.len() == 0 {
        crate::solver::builder::default_providers()
    } else {
        builder.price_providers@
    }
}

/// Whether a solver is about to be set up as a builder asks for.
pub open spec fn is_begun<S, F, E, P, I>(
    builder: FyndBuilder<S, F, E, P, I>,
    assembly: Assembly<S, F, E, P, I>,
) -> bool {
    &&& assembly.chain == builder.chain
    &&& assembly.live
    &&& assembly.rpc_url == builder.rpc_url
    &&& assembly.feed_config == (TychoFeedConfig {
        tycho_url: builder.tycho_url,
        chain: builder.chain,
        tycho_api_key: builder.tycho_api_key,
        use_tls: builder.tycho_use_tls,
        protocols: builder.protocols,
        min_tvl: builder.min_tvl,
        min_token_quality: builder.min_token_quality,
        tvl_buffer_ratio: builder.tvl_buffer_ratio,
        reconnect_delay_ms: builder.reconnect_delay_ms,
        traded_n_days_ago: Some(builder.traded_n_days_ago),
        blocklisted_components: builder.blocklisted_components,
        partial_blocks: builder.partial_blocks,
    })
    &&& assembly.gas_refresh_interval_ms == builder.gas_refresh_interval_ms
    &&& assembly.pools@ == all_planned(builder.pools@, builder.permission_policy)
    &&& assembly.encoder == builder.encoder
    &&& assembly.router_config == live_router_config(builder)
    &&& assembly.price_guard == builder.price_guard_enabled
    &&& assembly.providers@ == started_providers(builder)
    &&& assembly.pending_indexers == builder.pending_indexers
    &&& assembly.stage == AssemblyStage::RpcClient
}

/// The pool that an entry asks for.
pub(crate) fn plan_pool<S, F>(entry: PoolEntry<S>, policy: &Option<PermissionPolicy<F>>) -> (r: PlannedPool<S, F>)
    ensures
        r == planned(entry, *policy),
{
    let role: PoolRole = entry.role.pool_role();
    let algorithm_config: AlgorithmConfig = AlgorithmConfig {
        min_hops: entry.min_hops,
        max_hops: entry.max_hops,
        timeout_ms: entry.timeout_ms,
        max_routes: entry.max_routes,
        connector_tokens: entry.connector_tokens,
    };
    let mut builder: WorkerPoolBuilder<S, F> = WorkerPoolBuilder::new().name(
        entry.name,
    ).algorithm_config(algorithm_config).num_workers(entry.num_workers).task_queue_capacity(
        entry.task_queue_capacity,
    ).component_scope(entry.role.component_scope());
    match policy {
        Some(p) => {
            builder = builder.permission_policy(p.clone());
        },
        None => {},
    }
    builder.config.spawner = entry.algorithm;
    PlannedPool { config: builder.config, role }
}

impl<S, F, E, P, I> FyndBuilder<S, F, E, P, I> {
    /// Begins to set all parts up; an error where there are no pools.
    pub fn assemble_components(self) -> (r: Result<Assembly<S, F, E, P, I>, SolverBuildError>)
        ensures
            match r {
                Ok(assembly) => self.pools@.len() > 0 && is_begun(self, assembly),
                Err(error) => self.pools@.len() == 0 && error is NoPools,
            },
    {
        let ghost entries = self.pools@;
        let ghost policy = self.permission_policy;
        if self.pools.len() == 0 {
            return Err(SolverBuildError::NoPools);
        }
        let builder: Self = if self.price_providers.len() == 0 {
            self.add_default_price_providers()
        } else {
            self
        };
        assert(builder.price_providers@ == if self.price_providers@.len() == 0 {
            crate::solver::builder::default_providers()
        } else {
            self.price_providers@
        });
        let feed_config: TychoFeedConfig = TychoFeedConfig::new(
            builder.tycho_url,
            builder.chain,
            builder.tycho_api_key,
            builder.tycho_use_tls,
            builder.protocols,
            builder.min_tvl,
        ).tvl_buffer_ratio(builder.tvl_buffer_ratio).reconnect_delay(
            builder.reconnect_delay_ms,
        ).min_token_quality(builder.min_token_quality).traded_n_days_ago(
            builder.traded_n_days_ago,
        ).blocklisted_components(builder.blocklisted_components).partial_blocks(
            builder.partial_blocks,
        );
        let mut rest: Vec<PoolEntry<S>> = builder.pools;
        let mut pools: Vec<PlannedPool<S, F>> = Vec::new();
        let permission_policy: Option<PermissionPolicy<F>> = builder.permission_policy;
        while rest.len() > 0
            invariant
                rest@.len() <= entries.len(),
                rest@ == entries.skip(entries.len() - rest@.len()),
                permission_policy == policy,
                pools@ == all_planned(entries.take(entries.len() - rest@.len()), policy),
            decreases rest@.len(),
        {
            let ghost done = entries.len() - rest@.len();
            let entry: PoolEntry<S> = rest.remove(0);
            proof {
                assert(entry == entries[done]);
                assert(rest@ == entries.skip(done + 1));
            }
            pools.push(plan_pool(entry, &permission_policy));
            assert(pools@ == all_planned(entries.take(done + 1), policy));
        }
        assert(entries.take(entries.len() as int) == entries);
        let router_config: WorkerPoolRouterConfig = WorkerPoolRouterConfig::default().with_timeout(
            builder.router_timeout_ms,
        ).with_min_responses(builder.router_min_responses);
        let providers: Vec<Provider<P>> = if builder.price_guard_enabled {
            builder.price_providers
        } else {
            Vec::new()
        };
        Ok(
            Assembly {
                chain: builder.chain,
                live: true,
                rpc_url: builder.rpc_url,
                feed_config,
                gas_refresh_interval_ms: builder.gas_refresh_interval_ms,
                pools,
                encoder: builder.encoder,
                router_config,
                price_guard: builder.price_guard_enabled,
                providers,
                pending_indexers: builder.pending_indexers,
                stage: AssemblyStage::RpcClient,
            },
        )
    }
}

/// Whether the first pool that is left can be spawned, and is the pool of an action.
pub open spec fn spawns<S, F>(planned: PlannedPool<S, F>, action: AssemblyAction<S, F>) -> bool {
    &&& action matches AssemblyAction::SpawnPool { pool, role }
    &&& crate::worker_pool::pool::is_pool_of(planned.config, pool)
    &&& role == planned.role
}

impl<S, F, E, P, I> Assembly<S, F, E, P, I> {
    /// The stage after the pools: the encoder unless there is one, then, on a live feed, the fees.
    pub open spec fn stage_after_pools(self) -> AssemblyStage {
        if self.encoder is None {
            AssemblyStage::Encoder
        } else {
            self.stage_after_encoder()
        }
    }

    pub open spec fn stage_after_encoder(self) -> AssemblyStage {
        if self.live {
            AssemblyStage::FeeFetcher
        } else {
            AssemblyStage::Assembled
        }
    }

    /// The stage after one whose part is set up, other than the configuration of an algorithm.
    pub open spec fn stage_after(self) -> AssemblyStage {
        let pools = if self.pools@.len() > 0 {
            AssemblyStage::AlgorithmConfig
        } else {
            self.stage_after_pools()
        };
        match self.stage {
            AssemblyStage::RpcClient => AssemblyStage::GasToken,
            AssemblyStage::GasToken => AssemblyStage::ComputationManager,
            AssemblyStage::ComputationManager => pools,
            AssemblyStage::Pool => pools,
            AssemblyStage::Encoder => self.stage_after_encoder(),
            AssemblyStage::FeeFetcher => AssemblyStage::Assembled,
            _ => self.stage,
        }
    }

    /// What to do on coming to a stage.
    pub open spec fn turning_to(stage: AssemblyStage) -> AssemblyAction<S, F> {
        if stage == AssemblyStage::Assembled {
            AssemblyAction::Finish
        } else {
            AssemblyAction::Create(stage)
        }
    }

    /// What an error of a stage comes to.
    pub open spec fn failure(self, text: String) -> Option<SolverBuildError> {
        match self.stage {
            AssemblyStage::RpcClient => Some(SolverBuildError::RpcClient(text)),
            AssemblyStage::GasToken => Some(SolverBuildError::GasToken),
            AssemblyStage::ComputationManager => Some(SolverBuildError::ComputationManager(text)),
            AssemblyStage::Encoder => Some(SolverBuildError::Encoder(text)),
            AssemblyStage::FeeFetcher => Some(SolverBuildError::RouterFeeFetcher(text)),
            _ => None,
        }
    }

    /// What an event leads to.
    pub open spec fn advances(
        self,
        event: AssemblyEvent,
        next: Self,
        action: AssemblyAction<S, F>,
    ) -> bool {
        let settled = self.stage == AssemblyStage::Assembled || self.stage == AssemblyStage::Failed;
        let stays = next == (Assembly { stage: next.stage, ..self });
        match event {
            AssemblyEvent::Created => if settled {
                next == self && action is Ignore
            } else if self.stage != AssemblyStage::AlgorithmConfig {
                &&& stays
                &&& next.stage == self.stage_after()
                &&& action == Self::turning_to(next.stage)
            } else if self.pools@.len() == 0 {
                next == self && action is Ignore
            } else if crate::worker_pool::pool::is_known(self.pools@[0].config.spawner) {
                &&& next == (Assembly { stage: AssemblyStage::Pool, pools: next.pools, ..self })
                &&& next.pools@ == self.pools@.skip(1)
                &&& spawns(self.pools@[0], action)
            } else {
                &&& next == (Assembly { stage: AssemblyStage::Failed, pools: next.pools, ..self })
                &&& action matches AssemblyAction::Fail(SolverBuildError::UnknownAlgorithm(error))
                &&& error.name@ == self.pools@[0].config.spawner.spec_name()
            },
            AssemblyEvent::Failed(text) => match self.failure(text) {
                Some(error) => {
                    &&& stays
                    &&& next.stage == AssemblyStage::Failed
                    &&& action == AssemblyAction::<S, F>::Fail(error)
                },
                None => next == self && action is Ignore,
            },
            AssemblyEvent::Rejected(error) => if self.stage == AssemblyStage::AlgorithmConfig {
                &&& stays
                &&& next.stage == AssemblyStage::Failed
                &&& action == AssemblyAction::<S, F>::Fail(SolverBuildError::AlgorithmConfig(error))
            } else {
                next == self && action is Ignore
            },
        }
    }

    /// Goes on by an event: parts are set up in their order, and the first that cannot be set up ends
    /// it.
    pub fn step(&mut self, event: AssemblyEvent) -> (r: AssemblyAction<S, F>)
        ensures
            old(self).advances(event, *final(self), r),
    {
        match event {
            AssemblyEvent::Created => self.advance(),
            AssemblyEvent::Failed(text) => {
                let error: SolverBuildError = match self.stage {
                    AssemblyStage::RpcClient => SolverBuildError::RpcClient(text),
                    AssemblyStage::GasToken => SolverBuildError::GasToken,
                    AssemblyStage::ComputationManager => SolverBuildError::ComputationManager(text),
                    AssemblyStage::Encoder => SolverBuildError::Encoder(text),
                    AssemblyStage::FeeFetcher => SolverBuildError::RouterFeeFetcher(text),
                    _ => {
                        return AssemblyAction::Ignore;
                    },
                };
                self.stage = AssemblyStage::Failed;
                AssemblyAction::Fail(error)
            },
            AssemblyEvent::Rejected(error) => {
                if self.stage != AssemblyStage::AlgorithmConfig {
                    return AssemblyAction::Ignore;
                }
                self.stage = AssemblyStage::Failed;
                AssemblyAction::Fail(SolverBuildError::AlgorithmConfig(error))
            },
        }
    }

    /// Goes on from a part that is set up.
    fn advance(&mut self) -> (r: AssemblyAction<S, F>)
        ensures
            old(self).advances(AssemblyEvent::Created, *final(self), r),
    {
        let after_encoder: AssemblyStage = if self.live {
            AssemblyStage::FeeFetcher
        } else {
            AssemblyStage::Assembled
        };
        let pools: AssemblyStage = if self.pools.len() > 0 {
            AssemblyStage::AlgorithmConfig
        } else if self.encoder.is_none() {
            AssemblyStage::Encoder
        } else {
            after_encoder
        };
        let stage: AssemblyStage = match self.stage {
            AssemblyStage::RpcClient => AssemblyStage::GasToken,
            AssemblyStage::GasToken => AssemblyStage::ComputationManager,
            AssemblyStage::ComputationManager => pools,
            AssemblyStage::Pool => pools,
            AssemblyStage::Encoder => after_encoder,
            AssemblyStage::FeeFetcher => AssemblyStage::Assembled,
            AssemblyStage::AlgorithmConfig => {
                return self.spawn_next();
            },
            _ => {
                return AssemblyAction::Ignore;
            },
        };
        self.stage = stage;
        if stage == AssemblyStage::Assembled {
            AssemblyAction::Finish
        } else {
            AssemblyAction::Create(stage)
        }
    }

    /// Goes on with the pool whose algorithm accepts its configuration.
    fn spawn_next(&mut self) -> (r: AssemblyAction<S, F>)
        requires
            old(self).stage == AssemblyStage::AlgorithmConfig,
        ensures
            old(self).advances(AssemblyEvent::Created, *final(self), r),
    {
        if self.pools.len() == 0 {
            return AssemblyAction::Ignore;
        }
        let next: PlannedPool<S, F> = self.pools.remove(0);
        assert(self.pools@ == old(self).pools@.skip(1));
        let role: PoolRole = next.role;
        match WorkerPool::spawn(next.config) {
            Ok(pool) => {
                self.stage = AssemblyStage::Pool;
                AssemblyAction::SpawnPool { pool, role }
            },
            Err(error) => {
                self.stage = AssemblyStage::Failed;
                AssemblyAction::Fail(SolverBuildError::UnknownAlgorithm(error))
            },
        }
    }
}

impl<S, F, E, P, I> Assembly<S, F, E, P, I> {
    /// The router over the pools that were spawned. It can check quotes against outside prices where
    /// the price guard is enabled.
    pub fn into_router<Q>(
        self,
        solver_pools: Vec<SolverPoolHandle<Q>>,
        encoder: Encoder,
    ) -> (r: WorkerPoolRouter<Q>)
        ensures
            r == (WorkerPoolRouter {
                solver_pools,
                config: self.router_config,
                encoder,
                guarded: self.price_guard,
            }),
    {
        let router: WorkerPoolRouter<Q> = WorkerPoolRouter::new(
            solver_pools,
            self.router_config,
            encoder,
        );
        if self.price_guard {
            router.with_price_guard()
        } else {
            router
        }
    }
}

/// How many parts are at most to be set up.
pub open spec fn parts_ahead<S, F, E, P, I>(assembly: Assembly<S, F, E, P, I>) -> nat {
    let pools = 2 * assembly.pools@.len() + 2;
    match assembly.stage {
        AssemblyStage::RpcClient => pools + 4,
        AssemblyStage::GasToken => pools + 3,
        AssemblyStage::ComputationManager => pools + 2,
        AssemblyStage::Pool => pools + 1,
        AssemblyStage::AlgorithmConfig => pools,
        AssemblyStage::Encoder => 2,
        AssemblyStage::FeeFetcher => 1,
        AssemblyStage::Assembled => 0,
        AssemblyStage::Failed => 0,
    }
}

/// Setting up comes to an end: every event that is taken note of leaves fewer parts to be set up.
pub proof fn assembly_makes_progress<S, F, E, P, I>(
    before: Assembly<S, F, E, P, I>,
    event: AssemblyEvent,
    after: Assembly<S, F, E, P, I>,
    action: AssemblyAction<S, F>,
)
    requires
        before.advances(event, after, action),
        !(action is Ignore),
    ensures
        parts_ahead(after) < parts_ahead(before),
{
}

/// A solver is put together only when every pool is set up.
pub proof fn finished_assembly_has_all_pools<S, F, E, P, I>(
    before: Assembly<S, F, E, P, I>,
    event: AssemblyEvent,
    after: Assembly<S, F, E, P, I>,
    action: AssemblyAction<S, F>,
)
    requires
        before.advances(event, after, action),
        before.stage == AssemblyStage::Encoder || before.stage == AssemblyStage::FeeFetcher
            ==> before.pools@.len() == 0,
    ensures
        action is Finish ==> after.pools@.len() == 0,
        after.stage == AssemblyStage::Encoder || after.stage == AssemblyStage::FeeFetcher
            ==> after.pools@.len() == 0,
{
}

/// A solver is set up with a pool for each that was asked for, in their order. Each keeps its name, its
/// algorithm, its limits and its connector tokens; a public one sees no permissioned component, and one
/// for surplus sees all and is ranked apart.
pub proof fn pools_are_planned_as_asked<S, F, E, P, I>(
    builder: FyndBuilder<S, F, E, P, I>,
    assembly: Assembly<S, F, E, P, I>,
    i: int,
)
    requires
        is_begun(builder, assembly),
        0 <= i < builder.pools@.len(),
    ensures
        assembly.pools@.len() == builder.pools@.len(),
        ({
            let entry = builder.pools@[i];
            let pool = assembly.pools@[i];
            &&& pool.config.name == entry.name
            &&& pool.config.spawner == entry.algorithm
            &&& pool.config.num_workers == entry.num_workers
            &&& pool.config.task_queue_capacity == entry.task_queue_capacity
            &&& pool.config.permission_policy == builder.permission_policy
            &&& entry.role == crate::solver::pool_config::PoolRoleConfig::Public
                ==> pool.config.component_scope
                == crate::feed::permission::ComponentScope::ExcludePermissioned && pool.role
                == PoolRole::Public
            &&& entry.role == crate::solver::pool_config::PoolRoleConfig::Surplus
                ==> pool.config.component_scope
                == crate::feed::permission::ComponentScope::IncludeAll && pool.role == PoolRole::All
            &&& pool.config.algorithm_config matches Some(algorithm)
            &&& algorithm.min_hops == entry.min_hops
            &&& algorithm.max_hops == entry.max_hops
            &&& algorithm.timeout_ms == entry.timeout_ms
            &&& algorithm.max_routes == entry.max_routes
            &&& algorithm.connector_tokens == entry.connector_tokens
        }),
{
}

/// A solver is set up with what its builder was told: the feed's configuration, the router's terms, and
/// the price providers, which run only with the price guard and are the built-in ones where none was
/// named.
pub proof fn solvers_are_set_up_as_asked<S, F, E, P, I>(
    builder: FyndBuilder<S, F, E, P, I>,
    assembly: Assembly<S, F, E, P, I>,
)
    requires
        is_begun(builder, assembly),
    ensures
        assembly.live && assembly.stage == AssemblyStage::RpcClient,
        assembly.chain == builder.chain && assembly.feed_config.chain == builder.chain,
        assembly.feed_config.tycho_url == builder.tycho_url,
        assembly.feed_config.tycho_api_key == builder.tycho_api_key,
        assembly.feed_config.use_tls == builder.tycho_use_tls,
        assembly.feed_config.protocols == builder.protocols,
        assembly.feed_config.min_tvl == builder.min_tvl,
        assembly.feed_config.min_token_quality == builder.min_token_quality,
        assembly.feed_config.tvl_buffer_ratio == builder.tvl_buffer_ratio,
        assembly.feed_config.reconnect_delay_ms == builder.reconnect_delay_ms,
        assembly.feed_config.traded_n_days_ago == Some(builder.traded_n_days_ago),
        assembly.feed_config.blocklisted_components == builder.blocklisted_components,
        assembly.feed_config.partial_blocks == builder.partial_blocks,
        assembly.rpc_url == builder.rpc_url,
        assembly.gas_refresh_interval_ms == builder.gas_refresh_interval_ms,
        assembly.encoder == builder.encoder,
        assembly.router_config.default_timeout_ms == builder.router_timeout_ms,
        assembly.router_config.min_responses == builder.router_min_responses,
        assembly.price_guard == builder.price_guard_enabled,
        assembly.pending_indexers == builder.pending_indexers,
        !builder.price_guard_enabled ==> assembly.providers@.len() == 0,
        builder.price_guard_enabled && builder.price_providers@.len() > 0 ==> assembly.providers@
            == builder.price_providers@,
        builder.price_guard_enabled && builder.price_providers@.len() == 0 ==> assembly.providers@.len()
            == 2 && assembly.providers@[0] is Hyperliquid && assembly.providers@[1] is BinanceWs,
{
}

/// A part that is there leads on to the next: the RPC client, the gas token, the computation manager, each
/// pool after its algorithm's configuration, an encoder unless one was given, and the fees of the router
/// unless the solver runs on a recording.
pub proof fn parts_are_set_up_in_order<S, F, E, P, I>(
    before: Assembly<S, F, E, P, I>,
    after: Assembly<S, F, E, P, I>,
    action: AssemblyAction<S, F>,
)
    requires
        before.advances(AssemblyEvent::Created, after, action),
    ensures
        before.stage == AssemblyStage::RpcClient ==> after.stage == AssemblyStage::GasToken,
        before.stage == AssemblyStage::GasToken ==> after.stage == AssemblyStage::ComputationManager,
        before.stage == AssemblyStage::ComputationManager || before.stage == AssemblyStage::Pool
            ==> after.stage == (if before.pools@.len() > 0 {
            AssemblyStage::AlgorithmConfig
        } else if before.encoder is None {
            AssemblyStage::Encoder
        } else if before.live {
            AssemblyStage::FeeFetcher
        } else {
            AssemblyStage::Assembled
        }),
        before.stage == AssemblyStage::Encoder ==> after.stage == (if before.live {
            AssemblyStage::FeeFetcher
        } else {
            AssemblyStage::Assembled
        }),
        before.stage == AssemblyStage::FeeFetcher ==> after.stage == AssemblyStage::Assembled,
        action is Finish <==> before.stage != AssemblyStage::Assembled && after.stage
            == AssemblyStage::Assembled,
        action matches AssemblyAction::Create(stage) ==> stage == after.stage,
        before.stage == AssemblyStage::Assembled || before.stage == AssemblyStage::Failed ==> after
            == before && action is Ignore,
{
}

/// The pools are spawned one by one, from the first. One whose algorithm is built in, or the caller's
/// own, becomes a pool of its role and leaves the list; any other ends the set-up with its name.
pub proof fn pools_are_spawned_from_the_first<S, F, E, P, I>(
    before: Assembly<S, F, E, P, I>,
    after: Assembly<S, F, E, P, I>,
    action: AssemblyAction<S, F>,
)
    requires
        before.advances(AssemblyEvent::Created, after, action),
        before.stage == AssemblyStage::AlgorithmConfig,
        before.pools@.len() > 0,
    ensures
        ({
            let first = before.pools@[0];
            let name = first.config.spawner.spec_name();
            let known = first.config.spawner is Custom || name == "most_liquid"@ || name
                == "bellman_ford"@ || name == "path_frank_wolfe"@;
            &&& known ==> after.stage == AssemblyStage::Pool && after.pools@ == before.pools@.skip(1) && (
            action matches AssemblyAction::SpawnPool { pool, role } && role == first.role && pool.name
                == first.config.name && pool.workers@.len() == first.config.num_workers)
            &&& !known ==> after.stage == AssemblyStage::Failed && (action matches AssemblyAction::Fail(
                SolverBuildError::UnknownAlgorithm(error),
            ) && error.name@ == name)
        }),
{
    let name = before.pools@[0].config.spawner.spec_name();
    crate::worker_pool::registry::names_of_built_in_algorithms();
    if name == "most_liquid"@ {
        assert(crate::worker_pool::registry::BuiltIn::MostLiquid.spec_name() == name);
    } else if name == "bellman_ford"@ {
        assert(crate::worker_pool::registry::BuiltIn::BellmanFord.spec_name() == name);
    } else if name == "path_frank_wolfe"@ {
        assert(crate::worker_pool::registry::BuiltIn::PathFrankWolfe.spec_name() == name);
    }
}

/// A part that cannot be had ends the set-up with its own error. Pools have none: what an algorithm does
/// not accept is told apart.
pub proof fn failed_parts_end_the_set_up<S, F, E, P, I>(
    before: Assembly<S, F, E, P, I>,
    text: String,
    error: AlgorithmError,
    after: Assembly<S, F, E, P, I>,
    action: AssemblyAction<S, F>,
)
    ensures
        before.advances(AssemblyEvent::Failed(text), after, action) ==> {
            &&& before.stage == AssemblyStage::RpcClient ==> action == AssemblyAction::<S, F>::Fail(
                SolverBuildError::RpcClient(text),
            )
            &&& before.stage == AssemblyStage::GasToken ==> action == AssemblyAction::<S, F>::Fail(
                SolverBuildError::GasToken,
            )
            &&& before.stage == AssemblyStage::ComputationManager ==> action == AssemblyAction::<
                S,
                F,
            >::Fail(SolverBuildError::ComputationManager(text))
            &&& before.stage == AssemblyStage::Encoder ==> action == AssemblyAction::<S, F>::Fail(
                SolverBuildError::Encoder(text),
            )
            &&& before.stage == AssemblyStage::FeeFetcher ==> action == AssemblyAction::<S, F>::Fail(
                SolverBuildError::RouterFeeFetcher(text),
            )
            &&& action is Fail ==> after.stage == AssemblyStage::Failed
            &&& !(action is Fail) ==> action is Ignore && after == before
        },
        before.advances(AssemblyEvent::Rejected(error), after, action) ==> {
            &&& before.stage == AssemblyStage::AlgorithmConfig ==> after.stage == AssemblyStage::Failed
                && action == AssemblyAction::<S, F>::Fail(SolverBuildError::AlgorithmConfig(error))
            &&& before.stage != AssemblyStage::AlgorithmConfig ==> after == before && action is Ignore
        },
{
}

/// A solver is set up exactly where it has a pool.
pub proof fn solvers_need_a_pool<S, F, E, P, I>(
    builder: FyndBuilder<S, F, E, P, I>,
    r: Result<Assembly<S, F, E, P, I>, SolverBuildError>,
)
    requires
        call_ensures(FyndBuilder::<S, F, E, P, I>::assemble_components, (builder,), r),
    ensures
        r is Ok <==> builder.pools@.len() > 0,
        r matches Err(error) ==> error is NoPools,
        r matches Ok(assembly) ==> is_begun(builder, assembly),
{
}

/// Setting parts up changes nothing of what they are set up with: only the stage moves on, and only a pool
/// that is spawned leaves those to come.
pub proof fn settings_stay_while_parts_are_set_up<S, F, E, P, I>(
    before: Assembly<S, F, E, P, I>,
    event: AssemblyEvent,
    after: Assembly<S, F, E, P, I>,
    action: AssemblyAction<S, F>,
)
    requires
        before.advances(event, after, action),
    ensures
        after.chain == before.chain && after.live == before.live,
        after.rpc_url == before.rpc_url && after.feed_config == before.feed_config,
        after.gas_refresh_interval_ms == before.gas_refresh_interval_ms,
        after.encoder == before.encoder && after.router_config == before.router_config,
        after.price_guard == before.price_guard && after.providers == before.providers,
        after.pending_indexers == before.pending_indexers,
        before.stage != AssemblyStage::AlgorithmConfig ==> after.pools == before.pools,
{
}

} // verus!
