//! Collecting what a solver is set up with.
use vstd::prelude::*;

use crate::bytes::Address;
use crate::feed::permission::PermissionPolicy;
use crate::solver::defaults::{
    GAS_REFRESH_INTERVAL_MS, MIN_TOKEN_QUALITY, POOL_MAX_HOPS, POOL_MIN_HOPS,
    POOL_TASK_QUEUE_CAPACITY, POOL_TIMEOUT_MS, RECONNECT_DELAY_MS, ROUTER_MIN_RESPONSES,
    ROUTER_TIMEOUT_MS, TRADED_N_DAYS_AGO, TVL_BUFFER_RATIO_BITS, TYCHO_USE_TLS,
};
use crate::solver::errors::SolverBuildError;
use crate::solver::pool_config::{parse_connector_tokens, PoolConfig, PoolRoleConfig};
use crate::types::chain::{Chain, Real};
use crate::worker_pool::pool::cpu_count;
use crate::worker_pool::registry::AlgorithmSpawner;

verus! {

/// A pool to be set up.
#[derive(Debug)]
pub struct PoolEntry<S> {
    pub name: String,
    /// How the workers' algorithms are made: built in, or by a factory of the caller's.
    pub algorithm: AlgorithmSpawner<S>,
    pub num_workers: usize,
    pub task_queue_capacity: usize,
    pub min_hops: usize,
    pub max_hops: usize,
    pub timeout_ms: u64,
    pub max_routes: Option<usize>,
    /// Tokens that routes may lead through; all, where not given.
    pub connector_tokens: Option<Vec<Address>>,
    pub role: PoolRoleConfig,
}

impl<S> PoolEntry<S> {
    /// The part that the pool plays.
    pub fn role(&self) -> (r: PoolRoleConfig)
        ensures
            r == self.role,
    {
        self.role
    }
}

/// Whether a pool has defaults for all but its name and its algorithm.
pub open spec fn is_default_entry<S>(
    name: Seq<char>,
    algorithm: AlgorithmSpawner<S>,
    entry: PoolEntry<S>,
) -> bool {
    &&& entry.name@ == name
    &&& entry.algorithm == algorithm
    &&& entry.num_workers >= 1
    &&& entry.task_queue_capacity == POOL_TASK_QUEUE_CAPACITY
    &&& entry.min_hops == POOL_MIN_HOPS
    &&& entry.max_hops == POOL_MAX_HOPS
    &&& entry.timeout_ms == POOL_TIMEOUT_MS
    &&& entry.max_routes is None
    &&& entry.connector_tokens is None
    &&& entry.role == PoolRoleConfig::Public
}

/// Whether a pool is the one that a configuration asks for.
pub open spec fn is_configured_entry<S>(
    name: String,
    config: PoolConfig,
    entry: PoolEntry<S>,
) -> bool {
    &&& entry.name == name
    &&& entry.algorithm == AlgorithmSpawner::<S>::Registry { algorithm: config.algorithm }
    &&& entry.num_workers == config.num_workers
    &&& entry.task_queue_capacity == config.task_queue_capacity
    &&& entry.min_hops == config.min_hops
    &&& entry.max_hops == config.max_hops
    &&& entry.timeout_ms == config.timeout_ms
    &&& entry.max_routes == config.max_routes
    &&& match config.connector_tokens {
        Some(texts) => {
            &&& entry.connector_tokens matches Some(tokens)
            &&& tokens@.map_values(|a: Address| a@) == crate::table::distinct(
                crate::solver::pool_config::addresses_of(texts@),
            )
        },
        None => entry.connector_tokens is None,
    }
    &&& entry.role == config.role
}

/// Whether a configuration names an address that is none.
pub open spec fn has_bad_token(config: PoolConfig) -> bool {
    config.connector_tokens matches Some(texts) && exists|i: int|
        0 <= i < texts@.len() && !crate::solver::pool_config::is_address_text(#[trigger] texts@[i])
}

/// Whether an error is that of the first connector token of a configuration that is no address.
pub open spec fn is_configuration_error(config: PoolConfig, error: SolverBuildError) -> bool {
    config.connector_tokens matches Some(texts) && exists|i: int| #[trigger]
        crate::solver::pool_config::is_first_fault(texts@, i)
            && crate::solver::pool_config::is_token_error(texts@[i], error)
}

/// The pool that a configuration asks for; an error where a connector token is no address.
pub(crate) fn configured_entry<S>(name: String, config: &PoolConfig) -> (r: Result<
    PoolEntry<S>,
    SolverBuildError,
>)
    ensures
        r is Err == has_bad_token(*config),
        match r {
            Ok(entry) => is_configured_entry(name, *config, entry),
            Err(error) => is_configuration_error(*config, error),
        },
{
    match parse_connector_tokens(config.connector_tokens()) {
        Ok(connector_tokens) => Ok(
            PoolEntry {
                name,
                algorithm: AlgorithmSpawner::Registry { algorithm: config.algorithm.clone() },
                num_workers: config.num_workers,
                task_queue_capacity: config.task_queue_capacity,
                min_hops: config.min_hops,
                max_hops: config.max_hops,
                timeout_ms: config.timeout_ms,
                max_routes: config.max_routes,
                connector_tokens,
                role: config.role,
            },
        ),
        Err(error) => Err(error),
    }
}

/// A source of outside prices.
#[derive(Debug)]
pub enum Provider<P> {
    Hyperliquid,
    BinanceWs,
    /// The caller's own.
    Custom(P),
}

/// Collects what a solver is set up with.
///
/// The parameters stand for what is carried through: factories of algorithms, the predicate of
/// permissioned components, the encoder, price providers and indexers of pending blocks.
#[must_use]
#[derive(Debug)]
pub struct FyndBuilder<S, F, E, P, I> {
    pub chain: Chain,
    pub tycho_url: String,
    pub rpc_url: String,
    pub protocols: Vec<String>,
    pub min_tvl: Real,
    pub tycho_api_key: Option<String>,
    pub tycho_use_tls: bool,
    pub min_token_quality: i32,
    pub traded_n_days_ago: u64,
    pub tvl_buffer_ratio: Real,
    pub gas_refresh_interval_ms: u64,
    pub reconnect_delay_ms: u64,
    pub blocklisted_components: Vec<String>,
    pub partial_blocks: bool,
    pub router_timeout_ms: u64,
    pub router_min_responses: usize,
    pub encoder: Option<E>,
    pub pools: Vec<PoolEntry<S>>,
    pub price_guard_enabled: bool,
    pub price_providers: Vec<Provider<P>>,
    pub pending_indexers: Vec<(String, I)>,
    /// Which components are permissioned. Without it no pool filters anything.
    pub permission_policy: Option<PermissionPolicy<F>>,
}

/// Whether a builder has defaults for all but what it is made with.
pub open spec fn is_fresh<S, F, E, P, I>(builder: FyndBuilder<S, F, E, P, I>) -> bool {
    &&& builder.tycho_api_key is None
    &&& builder.tycho_use_tls == TYCHO_USE_TLS
    &&& builder.min_token_quality == MIN_TOKEN_QUALITY
    &&& builder.traded_n_days_ago == TRADED_N_DAYS_AGO
    &&& builder.tvl_buffer_ratio == (Real { bits: TVL_BUFFER_RATIO_BITS })
    &&& builder.gas_refresh_interval_ms == GAS_REFRESH_INTERVAL_MS
    &&& builder.reconnect_delay_ms == RECONNECT_DELAY_MS
    &&& builder.blocklisted_components@.len() == 0
    &&& !builder.partial_blocks
    &&& builder.router_timeout_ms == ROUTER_TIMEOUT_MS
    &&& builder.router_min_responses == ROUTER_MIN_RESPONSES
    &&& builder.encoder is None
    &&& builder.pools@.len() == 0
    &&& !builder.price_guard_enabled
    &&& builder.price_providers@.len() == 0
    &&& builder.pending_indexers@.len() == 0
    &&& builder.permission_policy is None
}

impl<S, F, E, P, I> FyndBuilder<S, F, E, P, I> {
    /// Creates a builder.
    pub fn new(
        chain: Chain,
        tycho_url: String,
        rpc_url: String,
        protocols: Vec<String>,
        min_tvl: Real,
    ) -> (r: Self)
        ensures
            r.chain == chain,
            r.tycho_url == tycho_url,
            r.rpc_url == rpc_url,
            r.protocols == protocols,
            r.min_tvl == min_tvl,
            is_fresh(r),
    {
        FyndBuilder {
            chain,
            tycho_url,
            rpc_url,
            protocols,
            min_tvl,
            tycho_api_key: None,
            tycho_use_tls: TYCHO_USE_TLS,
            min_token_quality: MIN_TOKEN_QUALITY,
            traded_n_days_ago: TRADED_N_DAYS_AGO,
            tvl_buffer_ratio: Real { bits: TVL_BUFFER_RATIO_BITS },
            gas_refresh_interval_ms: GAS_REFRESH_INTERVAL_MS,
            reconnect_delay_ms: RECONNECT_DELAY_MS,
            blocklisted_components: Vec::new(),
            partial_blocks: false,
            router_timeout_ms: ROUTER_TIMEOUT_MS,
            router_min_responses: ROUTER_MIN_RESPONSES,
            encoder: None,
            pools: Vec::new(),
            price_guard_enabled: false,
            price_providers: Vec::new(),
            pending_indexers: Vec::new(),
            permission_policy: None,
        }
    }

    /// The blockchain.
    pub fn chain(&self) -> (r: Chain)
        ensures
            r == self.chain,
    {
        self.chain
    }

    /// Sets the API key of the feed.
    pub fn tycho_api_key(self, key: String) -> (r: Self)
        ensures
            r == (FyndBuilder { tycho_api_key: Some(key), ..self }),
    {
        FyndBuilder { tycho_api_key: Some(key), ..self }
    }

    /// Replaces the minimum TVL.
    pub fn min_tvl(self, min_tvl: Real) -> (r: Self)
        ensures
            r == (FyndBuilder { min_tvl: min_tvl, ..self }),
    {
        FyndBuilder { min_tvl: min_tvl, ..self }
    }

    /// Enables or disables TLS for the feed.
    pub fn tycho_use_tls(self, use_tls: bool) -> (r: Self)
        ensures
            r == (FyndBuilder { tycho_use_tls: use_tls, ..self }),
    {
        FyndBuilder { tycho_use_tls: use_tls, ..self }
    }

    /// Sets the minimum token quality score.
    pub fn min_token_quality(self, quality: i32) -> (r: Self)
        ensures
            r == (FyndBuilder { min_token_quality: quality, ..self }),
    {
        FyndBuilder { min_token_quality: quality, ..self }
    }

    /// Leaves out tokens that were not traded within so many days.
    pub fn traded_n_days_ago(self, days: u64) -> (r: Self)
        ensures
            r == (FyndBuilder { traded_n_days_ago: days, ..self }),
    {
        FyndBuilder { traded_n_days_ago: days, ..self }
    }

    /// Sets the ratio between the bounds of the TVL filter.
    pub fn tvl_buffer_ratio(self, ratio: Real) -> (r: Self)
        ensures
            r == (FyndBuilder { tvl_buffer_ratio: ratio, ..self }),
    {
        FyndBuilder { tvl_buffer_ratio: ratio, ..self }
    }

    /// Sets how often the gas price is refreshed, in milliseconds.
    pub fn gas_refresh_interval(self, interval_ms: u64) -> (r: Self)
        ensures
            r == (FyndBuilder { gas_refresh_interval_ms: interval_ms, ..self }),
    {
        FyndBuilder { gas_refresh_interval_ms: interval_ms, ..self }
    }

    /// Sets the delay before the feed reconnects, in milliseconds.
    pub fn reconnect_delay(self, delay_ms: u64) -> (r: Self)
        ensures
            r == (FyndBuilder { reconnect_delay_ms: delay_ms, ..self }),
    {
        FyndBuilder { reconnect_delay_ms: delay_ms, ..self }
    }

    /// Sets the components to leave out of the feed.
    pub fn blocklisted_components(self, components: Vec<String>) -> (r: Self)
        ensures
            r == (FyndBuilder { blocklisted_components: components, ..self }),
    {
        FyndBuilder { blocklisted_components: components, ..self }
    }

    /// Enables or disables updates in the middle of a block.
    pub fn partial_blocks(self, enabled: bool) -> (r: Self)
        ensures
            r == (FyndBuilder { partial_blocks: enabled, ..self }),
    {
        FyndBuilder { partial_blocks: enabled, ..self }
    }

    /// Sets the time for the router to answer, in milliseconds.
    pub fn worker_router_timeout(self, timeout_ms: u64) -> (r: Self)
        ensures
            r == (FyndBuilder { router_timeout_ms: timeout_ms, ..self }),
    {
        FyndBuilder { router_timeout_ms: timeout_ms, ..self }
    }

    /// Sets the number of responses to wait for.
    pub fn worker_router_min_responses(self, min: usize) -> (r: Self)
        ensures
            r == (FyndBuilder { router_min_responses: min, ..self }),
    {
        FyndBuilder { router_min_responses: min, ..self }
    }

    /// Replaces the default encoder.
    pub fn encoder(self, encoder: E) -> (r: Self)
        ensures
            r == (FyndBuilder { encoder: Some(encoder), ..self }),
    {
        FyndBuilder { encoder: Some(encoder), ..self }
    }

    /// Enables or disables the price guard. Disabled, no provider is started.
    pub fn price_guard_enabled(self, enabled: bool) -> (r: Self)
        ensures
            r == (FyndBuilder { price_guard_enabled: enabled, ..self }),
    {
        FyndBuilder { price_guard_enabled: enabled, ..self }
    }

    /// Adds a pool named "default" with a built-in algorithm.
    pub fn algorithm(self, algorithm: String) -> (r: Self)
        ensures
            r == (FyndBuilder { pools: r.pools, ..self }),
            r.pools@.len() == self.pools@.len() + 1,
            r.pools@.drop_last() == self.pools@,
            is_default_entry(
                "default"@,
                AlgorithmSpawner::<S>::Registry { algorithm },
                r.pools@.last(),
            ),
    {
        let mut builder: Self = self;
        builder.pools.push(
            default_entry("default".to_string(), AlgorithmSpawner::Registry { algorithm }),
        );
        assert(builder.pools@.drop_last() == self.pools@);
        builder
    }

    /// Adds a pool with an algorithm of the caller's own, made by a factory. The pool has its name.
    pub fn with_algorithm(self, name: String, factory: S) -> (r: Self)
        ensures
            r == (FyndBuilder { pools: r.pools, ..self }),
            r.pools@.len() == self.pools@.len() + 1,
            r.pools@.drop_last() == self.pools@,
            is_default_entry(
                name@,
                AlgorithmSpawner::Custom { algorithm: name, spawner: factory },
                r.pools@.last(),
            ),
    {
        let mut builder: Self = self;
        builder.pools.push(
            default_entry(
                name.clone(),
                AlgorithmSpawner::Custom { algorithm: name, spawner: factory },
            ),
        );
        assert(builder.pools@.drop_last() == self.pools@);
        builder
    }

    /// Registers the built-in price providers.
    pub fn add_default_price_providers(self) -> (r: Self)
        ensures
            r == (FyndBuilder { price_providers: r.price_providers, ..self }),
            r.price_providers@ == self.price_providers@ + default_providers(),
    {
        let mut builder: Self = self;
        builder.price_providers.push(Provider::Hyperliquid);
        builder.price_providers.push(Provider::BinanceWs);
        assert(builder.price_providers@ == self.price_providers@ + default_providers());
        builder
    }

    /// Registers a price provider of the caller's own. The built-in ones are then left out.
    pub fn register_price_provider(self, provider: P) -> (r: Self)
        ensures
            r == (FyndBuilder { price_providers: r.price_providers, ..self }),
            r.price_providers@ == self.price_providers@.push(Provider::Custom(provider)),
    {
        let mut builder: Self = self;
        builder.price_providers.push(Provider::Custom(provider));
        builder
    }

    /// Registers an indexer of pending blocks for a protocol.
    pub fn with_pending_indexer(self, extractor: String, indexer: I) -> (r: Self)
        ensures
            r == (FyndBuilder { pending_indexers: r.pending_indexers, ..self }),
            r.pending_indexers@ == self.pending_indexers@.push((extractor, indexer)),
    {
        let mut builder: Self = self;
        builder.pending_indexers.push((extractor, indexer));
        builder
    }

    /// Sets which components are permissioned: public pools leave them out.
    pub fn permission_policy(self, predicate: F) -> (r: Self)
        ensures
            r == (FyndBuilder { permission_policy: r.permission_policy, ..self }),
            r.permission_policy matches Some(policy) && *policy.predicate == predicate,
    {
        let policy: PermissionPolicy<F> = PermissionPolicy {
            predicate: std::sync::Arc::new(predicate),
        };
        FyndBuilder { permission_policy: Some(policy), ..self }
    }

    /// Adds a pool by its configuration; an error where a connector token is no address.
    pub fn add_pool(self, name: String, config: &PoolConfig) -> (r: Result<Self, SolverBuildError>)
        ensures
            r is Err == has_bad_token(*config),
            match r {
                Ok(builder) => {
                    &&& builder == (FyndBuilder { pools: builder.pools, ..self })
                    &&& builder.pools@.len() == self.pools@.len() + 1
                    &&& builder.pools@.drop_last() == self.pools@
                    &&& is_configured_entry(name, *config, builder.pools@.last())
                },
                Err(error) => is_configuration_error(*config, error),
            },
    {
        let entry: PoolEntry<S> = match configured_entry(name, config) {
            Ok(entry) => entry,
            Err(error) => {
                return Err(error);
            },
        };
        let mut builder: Self = self;
        builder.pools.push(entry);
        assert(builder.pools@.drop_last() == self.pools@);
        Ok(builder)
    }
}

/// The built-in price providers.
pub open spec fn default_providers<P>() -> Seq<Provider<P>> {
    seq![Provider::<P>::Hyperliquid, Provider::<P>::BinanceWs]
}

/// A pool with defaults for all but its name and its algorithm.
fn default_entry<S>(name: String, algorithm: AlgorithmSpawner<S>) -> (r: PoolEntry<S>)
    ensures
        is_default_entry(name@, algorithm, r),
{
    PoolEntry {
        name,
        algorithm,
        num_workers: cpu_count(),
        task_queue_capacity: POOL_TASK_QUEUE_CAPACITY,
        min_hops: POOL_MIN_HOPS,
        max_hops: POOL_MAX_HOPS,
        timeout_ms: POOL_TIMEOUT_MS,
        max_routes: None,
        connector_tokens: None,
        role: PoolRoleConfig::Public,
    }
}

/// A solver for which nothing else was asked connects over TLS, takes tokens of full quality that were
/// traded within three days, refreshes gas twice a minute, waits five seconds before it connects again,
/// gives the router ten seconds and has it wait for all pools.
pub proof fn fresh_builders_have_the_defaults<S, F, E, P, I>(builder: FyndBuilder<S, F, E, P, I>)
    requires
        is_fresh(builder),
    ensures
        builder.tycho_use_tls,
        builder.tycho_api_key is None,
        builder.min_token_quality == 100,
        builder.traded_n_days_ago == 3,
        builder.tvl_buffer_ratio.bits == 0x3ff1_9999_9999_999au64,
        builder.gas_refresh_interval_ms == 30_000,
        builder.reconnect_delay_ms == 5_000,
        builder.router_timeout_ms == 10_000,
        builder.router_min_responses == 0,
        !builder.partial_blocks && !builder.price_guard_enabled,
        builder.encoder is None && builder.permission_policy is None,
        builder.pools@.len() == 0 && builder.price_providers@.len() == 0
            && builder.pending_indexers@.len() == 0 && builder.blocklisted_components@.len() == 0,
{
}

/// A pool of which only the algorithm is known searches one to three hops within a tenth of a second, for
/// public liquidity and over all tokens.
pub proof fn default_pools_have_the_defaults<S>(
    name: Seq<char>,
    algorithm: AlgorithmSpawner<S>,
    entry: PoolEntry<S>,
)
    requires
        is_default_entry(name, algorithm, entry),
    ensures
        entry.name@ == name && entry.algorithm == algorithm,
        entry.num_workers >= 1,
        entry.task_queue_capacity == 1000,
        entry.min_hops == 1 && entry.max_hops == 3,
        entry.timeout_ms == 100,
        entry.max_routes is None && entry.connector_tokens is None,
        entry.role == PoolRoleConfig::Public,
{
}

/// A configured pool is as its configuration says. Its connector tokens are the addresses of the
/// configured texts: every one of them, nothing else, and none twice.
pub proof fn configured_pools_keep_their_configuration<S>(
    name: String,
    config: PoolConfig,
    entry: PoolEntry<S>,
    i: int,
)
    requires
        is_configured_entry(name, config, entry),
    ensures
        entry.name == name,
        entry.algorithm matches AlgorithmSpawner::Registry { algorithm } && algorithm
            == config.algorithm,
        entry.num_workers == config.num_workers,
        entry.task_queue_capacity == config.task_queue_capacity,
        entry.min_hops == config.min_hops && entry.max_hops == config.max_hops,
        entry.timeout_ms == config.timeout_ms && entry.max_routes == config.max_routes,
        entry.role == config.role,
        entry.connector_tokens is Some <==> config.connector_tokens is Some,
        config.connector_tokens matches Some(texts) ==> ({
            let tokens = entry.connector_tokens->Some_0@;
            &&& forall|k: int, l: int| 0 <= k < l < tokens.len() ==> tokens[k]@ != tokens[l]@
            &&& 0 <= i < texts@.len() ==> exists|k: int|
                0 <= k < tokens.len() && (#[trigger] tokens[k])@ == crate::bytes::hex_bytes(
                    crate::bytes::without_prefix(texts@[i]@),
                )
            &&& 0 <= i < tokens.len() ==> exists|k: int|
                0 <= k < texts@.len() && tokens[i]@ == crate::bytes::hex_bytes(
                    crate::bytes::without_prefix((#[trigger] texts@[k])@),
                )
        }),
{
    if config.connector_tokens is Some {
        let texts = config.connector_tokens->Some_0@;
        let tokens = entry.connector_tokens->Some_0@;
        let addresses = crate::solver::pool_config::addresses_of(texts);
        let views = tokens.map_values(|a: Address| a@);
        crate::table::distinct_values_are_distinct(addresses);
        assert forall|k: int, l: int| 0 <= k < l < tokens.len() implies tokens[k]@
            != tokens[l]@ by {
            assert(views[k] != views[l]);
        }
        if 0 <= i < texts.len() {
            assert(addresses[i] == crate::bytes::hex_bytes(crate::bytes::without_prefix(texts[i]@)));
            assert(addresses.contains(addresses[i]));
            assert(views.contains(addresses[i]));
            let k = choose|k: int| 0 <= k < views.len() && views[k] == addresses[i];
            assert(tokens[k]@ == views[k]);
        }
        if 0 <= i < tokens.len() {
            assert(views[i] == tokens[i]@);
            assert(views.contains(views[i]));
            assert(addresses.contains(views[i]));
            let k = choose|k: int| 0 <= k < addresses.len() && addresses[k] == views[i];
            assert(addresses[k] == crate::bytes::hex_bytes(crate::bytes::without_prefix(texts[k]@)));
        }
    }
}

} // verus!
