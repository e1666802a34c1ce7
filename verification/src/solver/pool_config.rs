//! Configuration of a pool.
use vstd::prelude::*;
use vstd::string::StringExecFns;

use crate::bytes::{is_among, Address};
use crate::error::AlgorithmError;
use crate::feed::permission::ComponentScope;
use crate::solver::defaults::{
    POOL_MAX_HOPS, POOL_MIN_HOPS, POOL_TASK_QUEUE_CAPACITY, POOL_TIMEOUT_MS,
};
use crate::solver::errors::SolverBuildError;
use crate::text::quoted;
use crate::worker_pool::pool::cpu_count;
use crate::worker_pool_router::ranking::PoolRole;

verus! {

/// The task queue capacity of a pool that does not set its own.
pub fn default_task_queue_capacity() -> (r: usize)
    ensures
        r == POOL_TASK_QUEUE_CAPACITY,
{
    POOL_TASK_QUEUE_CAPACITY
}

/// The minimum hops of a pool that does not set its own.
pub fn default_min_hops() -> (r: usize)
    ensures
        r == POOL_MIN_HOPS,
{
    POOL_MIN_HOPS
}

/// The maximum hops of a pool that does not set its own.
pub fn default_max_hops() -> (r: usize)
    ensures
        r == POOL_MAX_HOPS,
{
    POOL_MAX_HOPS
}

/// The time of a pool that does not set its own, in milliseconds.
pub fn default_algo_timeout_ms() -> (r: u64)
    ensures
        r == POOL_TIMEOUT_MS,
{
    POOL_TIMEOUT_MS
}

/// The addresses that texts in base 16 stand for.
pub open spec fn addresses_of(texts: Seq<String>) -> Seq<Seq<u8>> {
    texts.map_values(
        |t: String| crate::bytes::hex_bytes(crate::bytes::without_prefix(t@)),
    )
}

/// Whether a text stands for an address.
pub open spec fn is_address_text(text: String) -> bool {
    crate::bytes::is_hex_text(crate::bytes::without_prefix(text@))
}

/// Whether text `i` is the first that stands for no address.
pub open spec fn is_first_fault(texts: Seq<String>, i: int) -> bool {
    &&& 0 <= i < texts.len()
    &&& !is_address_text(texts[i])
    &&& forall|j: int| 0 <= j < i ==> is_address_text(#[trigger] texts[j])
}

/// The error for a text that stands for no address.
pub open spec fn is_token_error(text: String, error: SolverBuildError) -> bool {
    &&& error matches SolverBuildError::AlgorithmConfig(AlgorithmError::InvalidConfiguration {
        reason,
    })
    &&& reason@ == "connector_tokens: invalid address "@ + crate::text::quoted_text(text@) + ": "@
        + crate::bytes::parse_failure_text(text@)
}

/// Reads the addresses of connector tokens, each once. The first text that is not one is an error.
pub fn parse_connector_tokens(raw: Option<&Vec<String>>) -> (r: Result<
    Option<Vec<Address>>,
    SolverBuildError,
>)
    ensures
        match raw {
            None => r == Ok::<Option<Vec<Address>>, SolverBuildError>(None),
            Some(texts) => match r {
                Ok(tokens) => {
                    &&& forall|i: int| 0 <= i < texts@.len() ==> is_address_text(#[trigger] texts@[i])
                    &&& tokens matches Some(list)
                    &&& list@.map_values(|a: Address| a@) == crate::table::distinct(addresses_of(texts@))
                },
                Err(error) => exists|i: int| #[trigger]
                    is_first_fault(texts@, i) && is_token_error(texts@[i], error),
            },
        },
{
    let texts: &Vec<String> = match raw {
        Some(texts) => texts,
        None => {
            return Ok(None);
        },
    };
    let mut tokens: Vec<Address> = Vec::new();
    let mut i: usize = 0;
    while i < texts.len()
        invariant
            raw matches Some(t) && t@ == texts@,
            i <= texts@.len(),
            forall|j: int| 0 <= j < i ==> is_address_text(#[trigger] texts@[j]),
            tokens@.map_values(|a: Address| a@) == crate::table::distinct(addresses_of(texts@.take(i as int))),
        decreases texts@.len() - i,
    {
        let ghost views = tokens@.map_values(|a: Address| a@);
        match Address::parse(texts[i].as_str()) {
            Ok(address) => {
                let ghost next = addresses_of(texts@.take(i + 1));
                proof {
                    assert(next.drop_last() == addresses_of(texts@.take(i as int)));
                    assert(next.last() == address@);
                }
                let known: bool = is_among(&tokens, &address);
                proof {
                    assert(known == views.contains(address@)) by {
                        if known {
                            let k = choose|k: int|
                                0 <= k < tokens@.len() && #[trigger] tokens@[k]@ == address@;
                            assert(views[k] == address@);
                        } else if views.contains(address@) {
                            let k = choose|k: int| 0 <= k < views.len() && views[k] == address@;
                            assert(tokens@[k]@ == address@);
                        }
                    }
                }
                if !known {
                    tokens.push(address);
                    assert(tokens@.map_values(|a: Address| a@) == views.push(address@));
                }
            },
            Err(reason) => {
                let error: SolverBuildError = SolverBuildError::AlgorithmConfig(
                    AlgorithmError::InvalidConfiguration {
                        reason: "connector_tokens: invalid address ".to_string().concat(
                            quoted(texts[i].as_str()).as_str(),
                        ).concat(": ").concat(reason.as_str()),
                    },
                );
                assert(is_first_fault(texts@, i as int));
                assert(is_token_error(texts@[i as int], error));
                return Err(error);
            },
        }
        i += 1;
    }
    assert(texts@.take(i as int) == texts@);
    Ok(Some(tokens))
}

/// The part that a configured pool plays.
#[derive(Debug, Clone, Copy, PartialEq, Eq, Structural)]
pub enum PoolRoleConfig {
    /// Routes through public liquidity only.
    Public,
    /// Routes through all liquidity, to capture what permissioned pools yield beyond the public rate.
    Surplus,
}

impl Default for PoolRoleConfig {
    fn default() -> (r: Self)
        ensures
            r == PoolRoleConfig::Public,
    {
        PoolRoleConfig::Public
    }
}

impl PoolRoleConfig {
    /// The role that the router knows a pool by.
    pub open spec fn spec_pool_role(self) -> PoolRole {
        match self {
            PoolRoleConfig::Public => PoolRole::Public,
            PoolRoleConfig::Surplus => PoolRole::All,
        }
    }

    /// What the workers of a pool may see.
    pub open spec fn spec_component_scope(self) -> ComponentScope {
        match self {
            PoolRoleConfig::Public => ComponentScope::ExcludePermissioned,
            PoolRoleConfig::Surplus => ComponentScope::IncludeAll,
        }
    }

    /// The role that the router knows a pool by.
    pub fn pool_role(self) -> (r: PoolRole)
        ensures
            r == self.spec_pool_role(),
    {
        match self {
            PoolRoleConfig::Public => PoolRole::Public,
            PoolRoleConfig::Surplus => PoolRole::All,
        }
    }

    /// What the workers of a pool may see.
    pub fn component_scope(self) -> (r: ComponentScope)
        ensures
            r == self.spec_component_scope(),
    {
        match self {
            PoolRoleConfig::Public => ComponentScope::ExcludePermissioned,
            PoolRoleConfig::Surplus => ComponentScope::IncludeAll,
        }
    }
}

/// A pool whose workers may see permissioned components is never taken for a public one, and the other
/// way round.
pub proof fn roles_match_scopes(role: PoolRoleConfig)
    ensures
        role.spec_pool_role() == PoolRole::Public <==> role.spec_component_scope()
            == ComponentScope::ExcludePermissioned,
{
}

/// Configuration of one pool.
#[derive(Debug)]
pub struct PoolConfig {
    /// Algorithm name, such as "most_liquid".
    pub algorithm: String,
    /// Number of worker threads.
    pub num_workers: usize,
    /// Task queue capacity.
    pub task_queue_capacity: usize,
    /// Minimum hops to search.
    pub min_hops: usize,
    /// Maximum hops to search.
    pub max_hops: usize,
    /// Time for solving, in milliseconds.
    pub timeout_ms: u64,
    /// Maximum number of paths to simulate per order; all, where not given.
    pub max_routes: Option<usize>,
    /// Addresses that routes may lead through; all, where not given.
    pub connector_tokens: Option<Vec<String>>,
    /// The part that the pool plays.
    pub role: PoolRoleConfig,
}

impl PoolConfig {
    /// Creates a configuration with an algorithm name, a worker for each CPU, and defaults for the
    /// rest.
    pub fn new(algorithm: String) -> (r: Self)
        ensures
            r.num_workers >= 1,
            r == (PoolConfig {
                algorithm,
                num_workers: r.num_workers,
                task_queue_capacity: POOL_TASK_QUEUE_CAPACITY,
                min_hops: POOL_MIN_HOPS,
                max_hops: POOL_MAX_HOPS,
                timeout_ms: POOL_TIMEOUT_MS,
                max_routes: None,
                connector_tokens: None,
                role: PoolRoleConfig::Public,
            }),
    {
        PoolConfig {
            algorithm,
            num_workers: cpu_count(),
            task_queue_capacity: POOL_TASK_QUEUE_CAPACITY,
            min_hops: POOL_MIN_HOPS,
            max_hops: POOL_MAX_HOPS,
            timeout_ms: POOL_TIMEOUT_MS,
            max_routes: None,
            connector_tokens: None,
            role: PoolRoleConfig::Public,
        }
    }

    /// The algorithm name.
    pub fn algorithm(&self) -> (r: &str)
        ensures
            r@ == self.algorithm@,
    {
        self.algorithm.as_str()
    }

    /// The addresses that routes may lead through, as given.
    pub fn connector_tokens(&self) -> (r: Option<&Vec<String>>)
        ensures
            match self.connector_tokens {
                Some(v) => r == Some(&v),
                None => r is None,
            },
    {
        self.connector_tokens.as_ref()
    }

    /// Restricts the tokens that routes may lead through to addresses in base 16, with or without a
    /// leading `0x`.
    pub fn with_connector_tokens(self, tokens: Vec<String>) -> (r: Self)
        ensures
            r == (PoolConfig { connector_tokens: Some(tokens), ..self }),
    {
        PoolConfig { connector_tokens: Some(tokens), ..self }
    }

    /// The part that the pool plays.
    pub fn role(&self) -> (r: PoolRoleConfig)
        ensures
            r == self.role,
    {
        self.role
    }

    /// Sets the part that the pool plays.
    pub fn with_role(self, role: PoolRoleConfig) -> (r: Self)
        ensures
            r == (PoolConfig { role: role, ..self }),
    {
        PoolConfig { role: role, ..self }
    }

    /// The number of worker threads.
    pub fn num_workers(&self) -> (r: usize)
        ensures
            r == self.num_workers,
    {
        self.num_workers
    }

    /// Sets the number of worker threads.
    pub fn with_num_workers(self, num_workers: usize) -> (r: Self)
        ensures
            r == (PoolConfig { num_workers: num_workers, ..self }),
    {
        PoolConfig { num_workers: num_workers, ..self }
    }

    /// The task queue capacity.
    pub fn task_queue_capacity(&self) -> (r: usize)
        ensures
            r == self.task_queue_capacity,
    {
        self.task_queue_capacity
    }

    /// Sets the task queue capacity.
    pub fn with_task_queue_capacity(self, task_queue_capacity: usize) -> (r: Self)
        ensures
            r == (PoolConfig { task_queue_capacity: task_queue_capacity, ..self }),
    {
        PoolConfig { task_queue_capacity: task_queue_capacity, ..self }
    }

    /// The minimum hops.
    pub fn min_hops(&self) -> (r: usize)
        ensures
            r == self.min_hops,
    {
        self.min_hops
    }

    /// Sets the minimum hops.
    pub fn with_min_hops(self, min_hops: usize) -> (r: Self)
        ensures
            r == (PoolConfig { min_hops: min_hops, ..self }),
    {
        PoolConfig { min_hops: min_hops, ..self }
    }

    /// The maximum hops.
    pub fn max_hops(&self) -> (r: usize)
        ensures
            r == self.max_hops,
    {
        self.max_hops
    }

    /// Sets the maximum hops.
    pub fn with_max_hops(self, max_hops: usize) -> (r: Self)
        ensures
            r == (PoolConfig { max_hops: max_hops, ..self }),
    {
        PoolConfig { max_hops: max_hops, ..self }
    }

    /// The time for solving, in milliseconds.
    pub fn timeout_ms(&self) -> (r: u64)
        ensures
            r == self.timeout_ms,
    {
        self.timeout_ms
    }

    /// Sets the time for solving, in milliseconds.
    pub fn with_timeout_ms(self, timeout_ms: u64) -> (r: Self)
        ensures
            r == (PoolConfig { timeout_ms: timeout_ms, ..self }),
    {
        PoolConfig { timeout_ms: timeout_ms, ..self }
    }

    /// The maximum number of paths to simulate.
    pub fn max_routes(&self) -> (r: Option<usize>)
        ensures
            r == self.max_routes,
    {
        self.max_routes
    }

    /// Sets the maximum number of paths to simulate.
    pub fn with_max_routes(self, max_routes: Option<usize>) -> (r: Self)
        ensures
            r == (PoolConfig { max_routes: max_routes, ..self }),
    {
        PoolConfig { max_routes: max_routes, ..self }
    }
}

/// A public pool is ranked among the others and its workers see no permissioned component; a pool for
/// surplus is ranked apart and its workers see all.
pub proof fn roles_decide_what_is_seen(role: PoolRoleConfig)
    ensures
        role == PoolRoleConfig::Public ==> role.spec_pool_role() == PoolRole::Public
            && role.spec_component_scope() == ComponentScope::ExcludePermissioned,
        role == PoolRoleConfig::Surplus ==> role.spec_pool_role() == PoolRole::All
            && role.spec_component_scope() == ComponentScope::IncludeAll,
{
}

/// A text stands for an address exactly where it holds pairs of digits in base 16, after a leading `0x`
/// or without one.
pub proof fn address_texts_are_pairs_of_digits(text: String)
    ensures
        text@.len() >= 2 && text@[0] == '0' && text@[1] == 'x' ==> is_address_text(text)
            == crate::bytes::is_hex_text(text@.skip(2)),
        !(text@.len() >= 2 && text@[0] == '0' && text@[1] == 'x') ==> is_address_text(text)
            == crate::bytes::is_hex_text(text@),
{
}

/// Connector tokens are read exactly where every text stands for an address. They are then the addresses
/// of all texts, and none twice; without texts there are none to read.
pub proof fn connector_tokens_are_read_as_addresses(
    texts: Vec<String>,
    r: Result<Option<Vec<Address>>, SolverBuildError>,
    i: int,
)
    requires
        call_ensures(parse_connector_tokens, (Some(&texts),), r),
    ensures
        r is Ok <==> forall|k: int|
            0 <= k < texts@.len() ==> crate::bytes::is_hex_text(
                crate::bytes::without_prefix((#[trigger] texts@[k])@),
            ),
        r matches Ok(tokens) ==> tokens is Some,
        r is Ok && 0 <= i < texts@.len() ==> exists|k: int|
            0 <= k < r->Ok_0->Some_0@.len() && (#[trigger] r->Ok_0->Some_0@[k])@
                == crate::bytes::hex_bytes(crate::bytes::without_prefix(texts@[i]@)),
        r is Ok ==> forall|k: int, l: int|
            0 <= k < l < r->Ok_0->Some_0@.len() ==> (#[trigger] r->Ok_0->Some_0@[k])@ != (
            #[trigger] r->Ok_0->Some_0@[l])@,
{
    match r {
        Ok(tokens) => {
            let list = tokens->Some_0@;
            let addresses = addresses_of(texts@);
            let views = list.map_values(|a: Address| a@);
            crate::table::distinct_values_are_distinct(addresses);
            assert forall|k: int| 0 <= k < texts@.len() implies crate::bytes::is_hex_text(
                crate::bytes::without_prefix((#[trigger] texts@[k])@),
            ) by {
                assert(is_address_text(texts@[k]));
            }
            if 0 <= i < texts@.len() {
                assert(addresses.contains(addresses[i]));
                assert(views.contains(addresses[i]));
                let k = choose|k: int| 0 <= k < views.len() && views[k] == addresses[i];
                assert(list[k]@ == views[k]);
            }
            assert forall|k: int, l: int| 0 <= k < l < list.len() implies (#[trigger] list[k])@ != (
            #[trigger] list[l])@ by {
                assert(views[k] != views[l]);
            }
        },
        Err(error) => {
            let k = choose|k: int| #[trigger]
                is_first_fault(texts@, k) && is_token_error(texts@[k], error);
            assert(!is_address_text(texts@[k]));
        },
    }
}

} // verus!
