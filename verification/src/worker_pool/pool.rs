//! Pools of workers.
//!
//! A pool works with one algorithm, built in or the caller's own; several pools compete for each
//! order.
use vstd::prelude::*;

use crate::bytes::Address;
use crate::feed::permission::{ComponentScope, PermissionContext, PermissionPolicy};
use crate::worker_pool::registry::{
    thread_names, AlgorithmSpawner, Factory, UnknownAlgorithmError, DEFAULT_ALGORITHM,
};

verus! {

/// What an algorithm is told about the routes to search.
#[derive(Debug)]
pub struct AlgorithmConfig {
    pub min_hops: usize,
    pub max_hops: usize,
    pub timeout_ms: u64,
    pub max_routes: Option<usize>,
    /// The tokens that routes may lead through; all, where not given.
    pub connector_tokens: Option<Vec<Address>>,
}

/// Configuration of a pool.
#[derive(Debug)]
pub struct WorkerPoolConfig<S, F> {
    /// Name of the pool. Can differ from the algorithm's, to tell pools with the same algorithm apart.
    pub name: String,
    /// How the workers' algorithms are made.
    pub spawner: AlgorithmSpawner<S>,
    /// Number of worker threads.
    pub num_workers: usize,
    /// Configuration for the algorithm of each worker; its own default, where not given.
    pub algorithm_config: Option<AlgorithmConfig>,
    /// Maximum number of pending tasks.
    pub task_queue_capacity: usize,
    /// Which components the workers may see.
    pub component_scope: ComponentScope,
    /// Which components are permissioned. Without it nothing is filtered, whatever the scope.
    pub permission_policy: Option<PermissionPolicy<F>>,
}

/// Calls `num_cpus::get`, which counts the CPUs of the machine: at least one. How many there are, the
/// machine decides.
#[verifier::external_body]
pub(crate) fn cpu_count() -> (r: usize)
    ensures
        r >= 1,
{
    num_cpus::get()
}

/// Whether a configuration is a default one: of the default algorithm and with a worker for each CPU.
pub open spec fn is_default_config<S, F>(config: WorkerPoolConfig<S, F>) -> bool {
    &&& config.name@ == DEFAULT_ALGORITHM@
    &&& config.spawner matches AlgorithmSpawner::Registry { algorithm }
    &&& algorithm@ == DEFAULT_ALGORITHM@
    &&& config.num_workers >= 1
    &&& config.algorithm_config is None
    &&& config.task_queue_capacity == 1000
    &&& config.component_scope == ComponentScope::IncludeAll
    &&& config.permission_policy is None
}

impl<S, F> Default for WorkerPoolConfig<S, F> {
    fn default() -> (r: Self)
        ensures
            is_default_config(r),
    {
        WorkerPoolConfig {
            name: DEFAULT_ALGORITHM.to_string(),
            spawner: AlgorithmSpawner::Registry { algorithm: DEFAULT_ALGORITHM.to_string() },
            num_workers: cpu_count(),
            algorithm_config: None,
            task_queue_capacity: 1000,
            component_scope: ComponentScope::IncludeAll,
            permission_policy: None,
        }
    }
}

impl<S, F> WorkerPoolConfig<S, F> {
    /// The name of the pool's algorithm.
    pub fn algorithm_name(&self) -> (r: &str)
        ensures
            r@ == self.spawner.spec_name(),
    {
        self.spawner.algorithm_name()
    }
}

/// A pool to be spawned: what its workers' threads are made of.
#[derive(Debug)]
pub struct WorkerPool<S, F> {
    pub name: String,
    pub algorithm: String,
    /// The names of the workers' threads.
    pub workers: Vec<String>,
    /// What makes the workers' algorithms.
    pub factory: Factory<S>,
    pub algorithm_config: Option<AlgorithmConfig>,
    /// What the workers may see.
    pub permission: PermissionContext<F>,
    /// Maximum number of pending tasks.
    pub task_queue_capacity: usize,
}

/// Whether a pool is the one for a configuration.
pub open spec fn is_pool_of<S, F>(config: WorkerPoolConfig<S, F>, pool: WorkerPool<S, F>) -> bool {
    &&& pool.name == config.name
    &&& pool.algorithm@ == config.spawner.spec_name()
    &&& pool.workers@.len() == config.num_workers
    &&& forall|i: int|
        0 <= i < config.num_workers ==> (#[trigger] pool.workers@[i])@
            == crate::worker_pool::registry::thread_name(config.spawner.spec_name(), i as nat)
    &&& match config.spawner {
        AlgorithmSpawner::Registry { algorithm } => {
            pool.factory matches Factory::BuiltIn(b) && b.spec_name() == algorithm@
        },
        AlgorithmSpawner::Custom { spawner, .. } => pool.factory == Factory::Custom(spawner),
    }
    &&& pool.algorithm_config == config.algorithm_config
    &&& pool.permission == (PermissionContext {
        scope: config.component_scope,
        policy: config.permission_policy,
    })
    &&& pool.task_queue_capacity == config.task_queue_capacity
}

/// Whether a spawner can make workers: it has a factory of its own, or names a built-in algorithm.
pub open spec fn is_known<S>(spawner: AlgorithmSpawner<S>) -> bool {
    spawner is Custom || exists|b: crate::worker_pool::registry::BuiltIn| #[trigger]
        b.spec_name() == spawner.spec_name()
}

impl<S, F> WorkerPool<S, F> {
    /// The pool for a configuration; an error where no built-in algorithm has its name.
    pub fn spawn(config: WorkerPoolConfig<S, F>) -> (r: Result<Self, UnknownAlgorithmError>)
        ensures
            r is Ok == is_known(config.spawner),
            match r {
                Ok(pool) => is_pool_of(config, pool),
                Err(error) => error.name@ == config.spawner.spec_name(),
            },
    {
        let algorithm: String = config.spawner.algorithm_name().to_string();
        let workers: Vec<String> = thread_names(algorithm.as_str(), config.num_workers);
        match config.spawner.spawn() {
            Ok(factory) => Ok(
                WorkerPool {
                    name: config.name,
                    algorithm,
                    workers,
                    factory,
                    algorithm_config: config.algorithm_config,
                    permission: PermissionContext::new(
                        config.component_scope,
                        config.permission_policy,
                    ),
                    task_queue_capacity: config.task_queue_capacity,
                },
            ),
            Err(error) => Err(error),
        }
    }

    /// The pool name.
    pub fn name(&self) -> (r: &str)
        ensures
            r@ == self.name@,
    {
        self.name.as_str()
    }

    /// The algorithm name.
    pub fn algorithm(&self) -> (r: &str)
        ensures
            r@ == self.algorithm@,
    {
        self.algorithm.as_str()
    }

    /// The number of workers.
    pub fn num_workers(&self) -> (r: usize)
        ensures
            r == self.workers@.len(),
    {
        self.workers.len()
    }
}

/// Builds a pool.
#[derive(Debug)]
pub struct WorkerPoolBuilder<S, F> {
    pub config: WorkerPoolConfig<S, F>,
}

impl<S, F> Default for WorkerPoolBuilder<S, F> {
    fn default() -> (r: Self)
        ensures
            is_default_config(r.config),
    {
        WorkerPoolBuilder { config: WorkerPoolConfig::default() }
    }
}

impl<S, F> WorkerPoolBuilder<S, F> {
    /// A builder with the default configuration.
    pub fn new() -> (r: Self)
        ensures
            is_default_config(r.config),
    {
        WorkerPoolBuilder { config: WorkerPoolConfig::default() }
    }

    /// Sets the pool name.
    pub fn name(self, name: String) -> (r: Self)
        ensures
            r.config == (WorkerPoolConfig { name: name, ..self.config }),
    {
        WorkerPoolBuilder { config: WorkerPoolConfig { name: name, ..self.config } }
    }

    /// Sets the algorithm by name, to be looked up among the built-in ones.
    pub fn algorithm(self, algorithm: String) -> (r: Self)
        ensures
            r.config == (WorkerPoolConfig {
                spawner: AlgorithmSpawner::Registry { algorithm },
                ..self.config
            }),
    {
        WorkerPoolBuilder {
            config: WorkerPoolConfig {
                spawner: AlgorithmSpawner::Registry { algorithm },
                ..self.config
            },
        }
    }

    /// Sets an algorithm of the caller's own, made by a factory.
    pub fn with_algorithm(self, name: String, factory: S) -> (r: Self)
        ensures
            r.config == (WorkerPoolConfig {
                spawner: AlgorithmSpawner::Custom { algorithm: name, spawner: factory },
                ..self.config
            }),
    {
        WorkerPoolBuilder {
            config: WorkerPoolConfig {
                spawner: AlgorithmSpawner::Custom { algorithm: name, spawner: factory },
                ..self.config
            },
        }
    }

    /// Sets the algorithm configuration.
    pub fn algorithm_config(self, config: AlgorithmConfig) -> (r: Self)
        ensures
            r.config == (WorkerPoolConfig { algorithm_config: Some(config), ..self.config }),
    {
        WorkerPoolBuilder {
            config: WorkerPoolConfig { algorithm_config: Some(config), ..self.config },
        }
    }

    /// Sets the number of worker threads.
    pub fn num_workers(self, n: usize) -> (r: Self)
        ensures
            r.config == (WorkerPoolConfig { num_workers: n, ..self.config }),
    {
        WorkerPoolBuilder { config: WorkerPoolConfig { num_workers: n, ..self.config } }
    }

    /// Sets the task queue capacity.
    pub fn task_queue_capacity(self, capacity: usize) -> (r: Self)
        ensures
            r.config == (WorkerPoolConfig { task_queue_capacity: capacity, ..self.config }),
    {
        WorkerPoolBuilder {
            config: WorkerPoolConfig { task_queue_capacity: capacity, ..self.config },
        }
    }

    /// Sets which components the workers may see. Without a policy this has no effect.
    pub fn component_scope(self, scope: ComponentScope) -> (r: Self)
        ensures
            r.config == (WorkerPoolConfig { component_scope: scope, ..self.config }),
    {
        WorkerPoolBuilder { config: WorkerPoolConfig { component_scope: scope, ..self.config } }
    }

    /// Sets which components are permissioned.
    pub fn permission_policy(self, policy: PermissionPolicy<F>) -> (r: Self)
        ensures
            r.config == (WorkerPoolConfig { permission_policy: Some(policy), ..self.config }),
    {
        WorkerPoolBuilder {
            config: WorkerPoolConfig { permission_policy: Some(policy), ..self.config },
        }
    }

    /// The pool, to be spawned with a task queue of its capacity.
    pub fn build(self) -> (r: Result<WorkerPool<S, F>, UnknownAlgorithmError>)
        ensures
            r is Ok == is_known(self.config.spawner),
            match r {
                Ok(pool) => is_pool_of(self.config, pool),
                Err(error) => error.name@ == self.config.spawner.spec_name(),
            },
    {
        WorkerPool::spawn(self.config)
    }
}

/// A spawner can make workers exactly where it is the caller's own or names a built-in algorithm.
pub proof fn known_algorithms<S>(spawner: AlgorithmSpawner<S>)
    ensures
        is_known(spawner) <==> spawner is Custom || spawner.spec_name() == "most_liquid"@
            || spawner.spec_name() == "bellman_ford"@ || spawner.spec_name() == "path_frank_wolfe"@,
{
    crate::worker_pool::registry::names_of_built_in_algorithms();
    let name = spawner.spec_name();
    if name == "most_liquid"@ {
        assert(crate::worker_pool::registry::BuiltIn::MostLiquid.spec_name() == name);
    } else if name == "bellman_ford"@ {
        assert(crate::worker_pool::registry::BuiltIn::BellmanFord.spec_name() == name);
    } else if name == "path_frank_wolfe"@ {
        assert(crate::worker_pool::registry::BuiltIn::PathFrankWolfe.spec_name() == name);
    }
}

/// A pool has the workers, the limits and the sight that its configuration gives it, and its algorithm is
/// the built-in one of that name or the caller's own.
pub proof fn pools_keep_their_configuration<S, F>(
    config: WorkerPoolConfig<S, F>,
    pool: WorkerPool<S, F>,
)
    requires
        is_pool_of(config, pool),
    ensures
        pool.name == config.name,
        pool.workers@.len() == config.num_workers,
        pool.algorithm_config == config.algorithm_config,
        pool.permission.scope == config.component_scope,
        pool.permission.policy == config.permission_policy,
        pool.task_queue_capacity == config.task_queue_capacity,
        config.spawner matches AlgorithmSpawner::Custom { algorithm, spawner } ==> pool.algorithm@
            == algorithm@ && pool.factory == Factory::Custom(spawner),
        config.spawner matches AlgorithmSpawner::Registry { algorithm } ==> pool.algorithm@
            == algorithm@ && (pool.factory matches Factory::BuiltIn(b) && (algorithm@
            == "most_liquid"@ ==> b == crate::worker_pool::registry::BuiltIn::MostLiquid) && (
        algorithm@ == "bellman_ford"@ ==> b == crate::worker_pool::registry::BuiltIn::BellmanFord) && (
        algorithm@ == "path_frank_wolfe"@ ==> b
            == crate::worker_pool::registry::BuiltIn::PathFrankWolfe)),
{
    crate::worker_pool::registry::names_of_built_in_algorithms();
    match pool.factory {
        Factory::BuiltIn(b) => {
            crate::worker_pool::registry::names_are_distinct(
                b,
                crate::worker_pool::registry::BuiltIn::MostLiquid,
            );
            crate::worker_pool::registry::names_are_distinct(
                b,
                crate::worker_pool::registry::BuiltIn::BellmanFord,
            );
            crate::worker_pool::registry::names_are_distinct(
                b,
                crate::worker_pool::registry::BuiltIn::PathFrankWolfe,
            );
        },
        _ => {},
    }
}

/// A pool for which nothing was asked works with the most liquid routes and sees all components.
pub proof fn default_pools_work_with_most_liquid_routes<S, F>(config: WorkerPoolConfig<S, F>)
    requires
        is_default_config(config),
    ensures
        config.name@ == "most_liquid"@ && config.spawner.spec_name() == "most_liquid"@,
        config.spawner is Registry,
        config.num_workers >= 1,
        config.algorithm_config is None && config.permission_policy is None,
        config.task_queue_capacity == 1000,
        config.component_scope == ComponentScope::IncludeAll,
{
}

/// The workers of a pool are named by its algorithm and numbered from zero.
pub proof fn workers_are_numbered<S, F>(
    config: WorkerPoolConfig<S, F>,
    pool: WorkerPool<S, F>,
    i: int,
)
    requires
        is_pool_of(config, pool),
        0 <= i < config.num_workers,
    ensures
        pool.workers@[i]@ == config.spawner.spec_name() + "-worker-"@ + crate::text::decimal_text(
            i as nat,
        ),
{
}

} // verus!
