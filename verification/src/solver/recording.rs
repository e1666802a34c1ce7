//! Setting a solver up from recorded updates instead of a live feed.
use vstd::prelude::*;

use crate::amount::Amount;
use crate::bytes::Address;
use crate::encoding::fees::RouterFees;
use crate::feed::config::TychoFeedConfig;
use crate::feed::market_data::{MarketEvent, MarketState, Update};
use crate::feed::permission::PermissionPolicy;
use crate::feed::update::handle_tycho_message;
use crate::solver::assembly::{plan_pool, Assembly, AssemblyStage, PlannedPool};
use crate::solver::builder::{configured_entry, PoolEntry};
use crate::solver::defaults::{
    GAS_REFRESH_INTERVAL_MS, RECORDED_FEE_UNITS, RECORDED_GAS_PRICE_WEI,
    RECORDED_ROUTER_TIMEOUT_MS, ROUTER_MIN_RESPONSES,
};
use crate::solver::errors::SolverBuildError;
use crate::solver::pool_config::PoolConfig;
use crate::table::Table;
use crate::types::chain::{Chain, Real};
use crate::worker_pool_router::config::WorkerPoolRouterConfig;

verus! {

/// A solver that is being set up from a recording.
#[derive(Debug)]
pub struct Replay<S, F, E, P, I> {
    /// The market after all recorded updates.
    pub market: MarketState,
    /// The gas price, in wei.
    pub gas_price: Amount,
    /// The block of the gas price.
    pub gas_block: u64,
    /// Router fees: there is no one to ask for them, and nothing is charged.
    pub router_fees: RouterFees,
    /// What solvers are told when all is set up.
    pub initial_event: MarketEvent,
    pub assembly: Assembly<S, F, E, P, I>,
}

/// A market without anything in it.
pub open spec fn is_empty_market(market: MarketState) -> bool {
    &&& market.components@ == Map::<Seq<char>, crate::types::route::ProtocolComponent>::empty()
    &&& market.tokens@ == Map::<Seq<u8>, crate::types::route::Token>::empty()
    &&& market.states@ == Map::<Seq<char>, crate::feed::market_data::StateHandle>::empty()
    &&& market.sync_states@ == Map::<
        Seq<char>,
        crate::feed::market_data::SynchronizerState,
    >::empty()
    &&& market.last_updated is None
}

/// Whether markets follow each other by updates, from an empty one.
pub open spec fn is_history(updates: Seq<Update>, markets: Seq<MarketState>) -> bool {
    &&& markets.len() == updates.len() + 1
    &&& is_empty_market(markets[0])
    &&& forall|i: int|
        0 <= i < updates.len() ==> crate::feed::update::is_updated(
            markets[i],
            #[trigger] updates[i],
            markets[i + 1],
        )
}

/// Whether a market is what updates make of an empty one.
pub open spec fn is_replayed(updates: Seq<Update>, market: MarketState) -> bool {
    exists|markets: Seq<MarketState>| #[trigger]
        is_history(updates, markets) && markets.last() == market
}

/// The longest time that any of the pools has for an order.
pub open spec fn longest_timeout(pools: Seq<(String, PoolConfig)>) -> nat
    decreases pools.len(),
{
    if pools.len() == 0 {
        0
    } else {
        let before = longest_timeout(pools.drop_last());
        let last = pools.last().1.timeout_ms as nat;
        if last > before {
            last
        } else {
            before
        }
    }
}

/// Whether pools are those that a live solver has for the same configurations: each has its role, sees
/// what its role lets it, and leads its routes through its connector tokens. There is no policy that
/// tells permissioned components apart.
pub open spec fn are_replayed_pools<S, F>(
    pools: Seq<(String, PoolConfig)>,
    replayed: Seq<PlannedPool<S, F>>,
) -> bool {
    exists|entries: Seq<PoolEntry<S>>| #[trigger]
        are_configured_entries(pools, entries) && replayed
            == crate::solver::assembly::all_planned::<S, F>(entries, None)
}

/// Whether pools are those that configurations ask for.
pub open spec fn are_configured_entries<S>(
    pools: Seq<(String, PoolConfig)>,
    entries: Seq<PoolEntry<S>>,
) -> bool {
    &&& entries.len() == pools.len()
    &&& forall|i: int|
        0 <= i < pools.len() ==> crate::solver::builder::is_configured_entry(
            pools[i].0,
            pools[i].1,
            #[trigger] entries[i],
        )
}

/// Whether pool `i` is the first whose configuration names an address that is none.
pub open spec fn is_first_bad_pool(pools: Seq<(String, PoolConfig)>, i: int) -> bool {
    &&& 0 <= i < pools.len()
    &&& crate::solver::builder::has_bad_token(pools[i].1)
    &&& forall|j: int|
        0 <= j < i ==> !crate::solver::builder::has_bad_token((#[trigger] pools[j]).1)
}

/// Whether the fees on record charge nothing.
pub open spec fn charges_nothing(fees: RouterFees) -> bool {
    &&& fees.max_fee_units == RECORDED_FEE_UNITS
    &&& fees.on_output == 0
    &&& fees.on_client_fee == 0
    &&& fees.custom@ == Map::<Seq<u8>, (u32, u32)>::empty()
}

/// Whether a configuration is the one of a feed that does not run: it connects to nothing.
pub open spec fn is_replay_feed(chain: Chain, config: TychoFeedConfig) -> bool {
    &&& config.tycho_url@ == "ws://replay"@
    &&& config.chain == chain
    &&& config.tycho_api_key is None
    &&& !config.use_tls
    &&& config.protocols@.len() == 0
    &&& config.min_tvl == (Real { bits: 0 })
}

/// Whether a solver is about to be set up from a recording.
pub open spec fn is_replay<S, F, E, P, I>(
    chain: Chain,
    updates: Seq<Update>,
    pools: Seq<(String, PoolConfig)>,
    gas_price_wei: Option<Amount>,
    replay: Replay<S, F, E, P, I>,
) -> bool {
    &&& is_replayed(updates, replay.market)
    &&& match gas_price_wei {
        Some(price) => replay.gas_price == price,
        None => replay.gas_price@ == RECORDED_GAS_PRICE_WEI,
    }
    &&& replay.gas_block == match replay.market.last_updated {
        Some(block) => block.number,
        None => 0,
    }
    &&& charges_nothing(replay.router_fees)
    &&& replay.initial_event matches MarketEvent::MarketUpdated {
        added_components,
        removed_components,
        updated_components,
    }
    &&& added_components.entries@ == crate::feed::market_data::topology_of(
        replay.market.components.entries@,
    )
    &&& removed_components@.len() == 0
    &&& updated_components@.len() == 0
    &&& replay.assembly.chain == chain
    &&& !replay.assembly.live
    &&& is_replay_feed(chain, replay.assembly.feed_config)
    &&& replay.assembly.rpc_url@.len() == 0
    &&& replay.assembly.gas_refresh_interval_ms == GAS_REFRESH_INTERVAL_MS
    &&& are_replayed_pools(pools, replay.assembly.pools@)
    &&& replay.assembly.encoder is None
    &&& replay.assembly.router_config.default_timeout_ms == if longest_timeout(pools)
        > RECORDED_ROUTER_TIMEOUT_MS {
        longest_timeout(pools)
    } else {
        RECORDED_ROUTER_TIMEOUT_MS as nat
    }
    &&& replay.assembly.router_config.min_responses == ROUTER_MIN_RESPONSES
    &&& !replay.assembly.price_guard
    &&& replay.assembly.providers@.len() == 0
    &&& replay.assembly.pending_indexers@.len() == 0
    &&& replay.assembly.stage == AssemblyStage::GasToken
}

/// Applies recorded updates to an empty market.
pub fn replay(updates: &Vec<Update>) -> (r: MarketState)
    ensures
        is_replayed(updates@, r),
{
    let mut market: MarketState = MarketState::new();
    let ghost mut markets: Seq<MarketState> = seq![market];
    let mut i: usize = 0;
    while i < updates.len()
        invariant
            i <= updates@.len(),
            is_history(updates@.take(i as int), markets),
            markets.last() == market,
        decreases updates@.len() - i,
    {
        let ghost done = updates@.take(i as int);
        let _ = handle_tycho_message(&mut market, &updates[i]);
        proof {
            let before = markets;
            markets = markets.push(market);
            let next = updates@.take(i + 1);
            assert forall|j: int| 0 <= j < next.len() implies crate::feed::update::is_updated(
                markets[j],
                #[trigger] next[j],
                markets[j + 1],
            ) by {
                if j < i {
                    assert(next[j] == done[j]);
                    assert(crate::feed::update::is_updated(before[j], done[j], before[j + 1]));
                }
            }
            assert(is_history(next, markets));
        }
        i += 1;
    }
    assert(updates@.take(i as int) == updates@);
    assert(is_history(updates@, markets));
    market
}

/// Begins to set a solver up from recorded updates; an error where there are no pools, or where a
/// connector token is no address. The market is what the updates make of it, and the pools are those of
/// a live solver; nothing is charged, and the router waits as long as its slowest pool may take.
pub fn from_recording<S, F, E, P, I>(
    chain: Chain,
    updates: &Vec<Update>,
    pools: &Vec<(String, PoolConfig)>,
    gas_price_wei: Option<Amount>,
) -> (r: Result<Replay<S, F, E, P, I>, SolverBuildError>)
    ensures
        match r {
            Ok(replay) => {
                &&& pools@.len() > 0
                &&& forall|i: int|
                    0 <= i < pools@.len() ==> !crate::solver::builder::has_bad_token(
                        (#[trigger] pools@[i]).1,
                    )
                &&& is_replay(chain, updates@, pools@, gas_price_wei, replay)
            },
            Err(error) => {
                ||| pools@.len() == 0 && error is NoPools
                ||| exists|i: int| #[trigger]
                    is_first_bad_pool(pools@, i) && crate::solver::builder::is_configuration_error(
                        pools@[i].1,
                        error,
                    )
            },
        },
{
    if pools.len() == 0 {
        return Err(SolverBuildError::NoPools);
    }
    let feed_config: TychoFeedConfig = TychoFeedConfig::new(
        "ws://replay".to_string(),
        chain,
        None,
        false,
        Vec::new(),
        Real { bits: 0 },
    );
    let market: MarketState = replay(updates);
    let gas_price: Amount = match gas_price_wei {
        Some(price) => price,
        None => Amount::from_u64(RECORDED_GAS_PRICE_WEI),
    };
    let gas_block: u64 = match market.last_updated() {
        Some(block) => block.number(),
        None => 0,
    };
    let policy: Option<PermissionPolicy<F>> = None;
    let ghost mut entries: Seq<PoolEntry<S>> = seq![];
    let mut planned: Vec<PlannedPool<S, F>> = Vec::new();
    let mut timeout_ms: u64 = 0;
    let mut i: usize = 0;
    while i < pools.len()
        invariant
            i <= pools@.len(),
            policy is None,
            are_configured_entries(pools@.take(i as int), entries),
            planned@ == crate::solver::assembly::all_planned(entries, policy),
            forall|j: int|
                0 <= j < i ==> !crate::solver::builder::has_bad_token((#[trigger] pools@[j]).1),
            timeout_ms == longest_timeout(pools@.take(i as int)),
        decreases pools@.len() - i,
    {
        let pool: &(String, PoolConfig) = &pools[i];
        let entry: PoolEntry<S> = match configured_entry(pool.0.clone(), &pool.1) {
            Ok(entry) => entry,
            Err(error) => {
                assert(is_first_bad_pool(pools@, i as int));
                return Err(error);
            },
        };
        proof {
            let before = entries;
            let next = pools@.take(i + 1);
            assert(next.drop_last() == pools@.take(i as int));
            entries = entries.push(entry);
            assert forall|j: int|
                0 <= j < next.len() implies crate::solver::builder::is_configured_entry(
                next[j].0,
                next[j].1,
                #[trigger] entries[j],
            ) by {
                if j < i {
                    assert(pools@.take(i as int)[j] == next[j]);
                    assert(entries[j] == before[j]);
                }
            }
        }
        planned.push(plan_pool(entry, &policy));
        assert(planned@ == crate::solver::assembly::all_planned(entries, policy));
        if pool.1.timeout_ms > timeout_ms {
            timeout_ms = pool.1.timeout_ms;
        }
        i += 1;
    }
    assert(pools@.take(i as int) == pools@);
    assert(are_replayed_pools(pools@, planned@));
    if timeout_ms < RECORDED_ROUTER_TIMEOUT_MS {
        timeout_ms = RECORDED_ROUTER_TIMEOUT_MS;
    }
    let router_config: WorkerPoolRouterConfig = WorkerPoolRouterConfig::default().with_timeout(
        timeout_ms,
    ).with_min_responses(ROUTER_MIN_RESPONSES);
    let initial_event: MarketEvent = MarketEvent::MarketUpdated {
        added_components: market.component_topology(),
        removed_components: Vec::new(),
        updated_components: Vec::new(),
    };
    Ok(
        Replay {
            market,
            gas_price,
            gas_block,
            router_fees: RouterFees::new(RECORDED_FEE_UNITS, 0, 0, Table::new()),
            initial_event,
            assembly: Assembly {
                chain,
                live: false,
                rpc_url: String::new(),
                feed_config,
                gas_refresh_interval_ms: GAS_REFRESH_INTERVAL_MS,
                pools: planned,
                encoder: None,
                router_config,
                price_guard: false,
                providers: Vec::new(),
                pending_indexers: Vec::new(),
                stage: AssemblyStage::GasToken,
            },
        },
    )
}

/// A pool on a recording is what a live solver has for its configuration: it has the configured role,
/// its workers see what the role lets them, and its routes lead through the configured tokens alone.
pub proof fn recorded_pools_keep_their_configuration<S, F>(
    pools: Seq<(String, PoolConfig)>,
    replayed: Seq<PlannedPool<S, F>>,
    i: int,
)
    requires
        are_replayed_pools(pools, replayed),
        0 <= i < pools.len(),
    ensures
        replayed.len() == pools.len(),
        replayed[i].config.name == pools[i].0,
        replayed[i].role == pools[i].1.role.spec_pool_role(),
        replayed[i].config.component_scope == pools[i].1.role.spec_component_scope(),
        replayed[i].config.algorithm_config matches Some(algorithm) && match (
            pools[i].1.connector_tokens,
            algorithm.connector_tokens,
        ) {
            (Some(texts), Some(tokens)) => tokens@.map_values(|a: Address| a@)
                == crate::table::distinct(
                crate::solver::pool_config::addresses_of(texts@),
            ),
            (None, None) => true,
            _ => false,
        },
{
    let entries = choose|entries: Seq<PoolEntry<S>>| #[trigger]
        are_configured_entries(pools, entries) && replayed
            == crate::solver::assembly::all_planned::<S, F>(entries, None);
    assert(crate::solver::builder::is_configured_entry(pools[i].0, pools[i].1, entries[i]));
}

/// The longest time of pools is as long as that of each, and is that of one of them.
pub proof fn longest_timeout_is_the_longest(pools: Seq<(String, PoolConfig)>, i: int)
    requires
        0 <= i < pools.len(),
    ensures
        longest_timeout(pools) >= pools[i].1.timeout_ms,
        exists|k: int|
            0 <= k < pools.len() && longest_timeout(pools) == (#[trigger] pools[k]).1.timeout_ms,
    decreases pools.len(),
{
    reveal_with_fuel(longest_timeout, 2);
    let n = pools.len() - 1;
    let front = pools.drop_last();
    if front.len() > 0 {
        longest_timeout_is_the_longest(
            front,
            if i < n {
                i
            } else {
                0
            },
        );
        let k = choose|k: int|
            0 <= k < front.len() && longest_timeout(front) == (#[trigger] front[k]).1.timeout_ms;
        assert(pools[k] == front[k]);
        if i < n {
            assert(front[i] == pools[i]);
        }
    }
    assert(pools[n] == pools.last());
}

/// A solver on a recording charges nothing, has the given gas price or ten gwei, at the block up to which
/// the recorded market is known, and gives its router five seconds, or as long as its slowest pool takes
/// if that is longer.
pub proof fn recorded_solvers_have_their_terms<S, F, E, P, I>(
    chain: Chain,
    updates: Seq<Update>,
    pools: Seq<(String, PoolConfig)>,
    gas_price_wei: Option<Amount>,
    replay: Replay<S, F, E, P, I>,
    i: int,
)
    requires
        is_replay(chain, updates, pools, gas_price_wei, replay),
        0 <= i < pools.len(),
    ensures
        gas_price_wei is Some ==> replay.gas_price == gas_price_wei->Some_0,
        gas_price_wei is None ==> replay.gas_price@ == 10_000_000_000,
        replay.market.last_updated matches Some(block) ==> replay.gas_block == block.number,
        replay.market.last_updated is None ==> replay.gas_block == 0,
        replay.router_fees.on_output == 0 && replay.router_fees.on_client_fee == 0
            && replay.router_fees.max_fee_units == 100_000_000,
        forall|client: Seq<u8>| !(#[trigger] replay.router_fees.custom@.dom().contains(client)),
        replay.assembly.router_config.default_timeout_ms >= 5_000,
        replay.assembly.router_config.default_timeout_ms >= pools[i].1.timeout_ms,
        replay.assembly.router_config.default_timeout_ms == 5_000 || exists|k: int|
            0 <= k < pools.len() && replay.assembly.router_config.default_timeout_ms == (
            #[trigger] pools[k]).1.timeout_ms,
        replay.assembly.router_config.min_responses == 0,
        replay.assembly.gas_refresh_interval_ms == 30_000,
        !replay.assembly.live && !replay.assembly.price_guard && replay.assembly.encoder is None,
        replay.assembly.chain == chain && replay.assembly.feed_config.chain == chain,
        replay.assembly.stage == AssemblyStage::GasToken,
        replay.initial_event matches MarketEvent::MarketUpdated {
            added_components,
            removed_components,
            updated_components,
        } && added_components.entries@.len() == replay.market.components.entries@.len()
            && removed_components@.len() == 0 && updated_components@.len() == 0,
{
    longest_timeout_is_the_longest(pools, i);
}

/// The market of a recording begins empty and takes each update in, in their order.
pub proof fn recorded_markets_take_every_update_in(
    updates: Seq<Update>,
    market: MarketState,
) -> (markets: Seq<MarketState>)
    requires
        is_replayed(updates, market),
    ensures
        markets.len() == updates.len() + 1,
        markets.last() == market,
        markets[0].last_updated is None,
        forall|id: Seq<char>| !(#[trigger] markets[0].components@.dom().contains(id)),
        forall|id: Seq<char>| !(#[trigger] markets[0].states@.dom().contains(id)),
        forall|address: Seq<u8>| !(#[trigger] markets[0].tokens@.dom().contains(address)),
        forall|i: int|
            0 <= i < updates.len() ==> crate::feed::update::is_updated(
                markets[i],
                #[trigger] updates[i],
                markets[i + 1],
            ),
{
    choose|markets: Seq<MarketState>| #[trigger]
        is_history(updates, markets) && markets.last() == market
}

/// A solver is set up from a recording exactly where it has a pool and every connector token of every pool
/// is an address.
pub proof fn recorded_solvers_need_pools<S, F, E, P, I>(
    chain: Chain,
    updates: Vec<Update>,
    pools: Vec<(String, PoolConfig)>,
    gas_price_wei: Option<Amount>,
    r: Result<Replay<S, F, E, P, I>, SolverBuildError>,
)
    requires
        call_ensures(from_recording::<S, F, E, P, I>, (chain, &updates, &pools, gas_price_wei), r),
    ensures
        r is Ok <==> pools@.len() > 0 && forall|i: int|
            0 <= i < pools@.len() ==> !crate::solver::builder::has_bad_token((#[trigger] pools@[i]).1),
        pools@.len() == 0 ==> (r matches Err(SolverBuildError::NoPools)),
        r matches Ok(replay) ==> is_replay(chain, updates@, pools@, gas_price_wei, replay),
{
    if r is Err && pools@.len() > 0 {
        let i = choose|i: int| #[trigger]
            is_first_bad_pool(pools@, i) && crate::solver::builder::is_configuration_error(
                pools@[i].1,
                r->Err_0,
            );
        assert(crate::solver::builder::has_bad_token(pools@[i].1));
    }
}

/// A solver on a recording knows the market that its updates make and has the pools that were configured.
/// It connects to nothing: not to a feed, not to a node, not to prices.
pub proof fn recorded_solvers_connect_to_nothing<S, F, E, P, I>(
    chain: Chain,
    updates: Seq<Update>,
    pools: Seq<(String, PoolConfig)>,
    gas_price_wei: Option<Amount>,
    replay: Replay<S, F, E, P, I>,
)
    requires
        is_replay(chain, updates, pools, gas_price_wei, replay),
    ensures
        is_replayed(updates, replay.market),
        replay.assembly.pools@.len() == pools.len(),
        are_replayed_pools(pools, replay.assembly.pools@),
        replay.assembly.feed_config.tycho_url@ == "ws://replay"@,
        replay.assembly.feed_config.tycho_api_key is None && !replay.assembly.feed_config.use_tls,
        replay.assembly.feed_config.protocols@.len() == 0,
        replay.assembly.feed_config.min_tvl.bits == 0,
        replay.assembly.rpc_url@.len() == 0,
        replay.assembly.providers@.len() == 0 && replay.assembly.pending_indexers@.len() == 0,
{
}

/// A recorded pool keeps the limits of its configuration and the algorithm that it names; a public one
/// sees no permissioned component, and one for surplus sees all and is ranked apart.
pub proof fn recorded_pools_keep_their_limits<S, F>(
    pools: Seq<(String, PoolConfig)>,
    replayed: Seq<PlannedPool<S, F>>,
    i: int,
)
    requires
        are_replayed_pools(pools, replayed),
        0 <= i < pools.len(),
    ensures
        replayed.len() == pools.len(),
        ({
            let config = pools[i].1;
            let pool = replayed[i];
            &&& pool.config.name == pools[i].0
            &&& pool.config.spawner matches crate::worker_pool::registry::AlgorithmSpawner::Registry {
                algorithm,
            }
            &&& algorithm == config.algorithm
            &&& pool.config.num_workers == config.num_workers
            &&& pool.config.task_queue_capacity == config.task_queue_capacity
            &&& pool.config.permission_policy is None
            &&& pool.config.algorithm_config matches Some(limits)
            &&& limits.min_hops == config.min_hops && limits.max_hops == config.max_hops
            &&& limits.timeout_ms == config.timeout_ms && limits.max_routes == config.max_routes
            &&& config.role == crate::solver::pool_config::PoolRoleConfig::Public <==> pool.role
                == crate::worker_pool_router::ranking::PoolRole::Public
            &&& config.role == crate::solver::pool_config::PoolRoleConfig::Public <==> pool.config.component_scope
                == crate::feed::permission::ComponentScope::ExcludePermissioned
        }),
{
    let entries = choose|entries: Seq<PoolEntry<S>>| #[trigger]
        are_configured_entries(pools, entries) && replayed == crate::solver::assembly::all_planned::<
            S,
            F,
        >(entries, None);
    assert(crate::solver::builder::is_configured_entry(pools[i].0, pools[i].1, entries[i]));
}

/// Where a connector token of a pool is no address, the error is that of the first such pool.
pub proof fn first_bad_pool_is_told<S, F, E, P, I>(
    chain: Chain,
    updates: Vec<Update>,
    pools: Vec<(String, PoolConfig)>,
    gas_price_wei: Option<Amount>,
    r: Result<Replay<S, F, E, P, I>, SolverBuildError>,
    i: int,
)
    requires
        call_ensures(from_recording::<S, F, E, P, I>, (chain, &updates, &pools, gas_price_wei), r),
        0 <= i < pools@.len(),
        crate::solver::builder::has_bad_token(pools@[i].1),
        forall|j: int|
            0 <= j < i ==> !crate::solver::builder::has_bad_token((#[trigger] pools@[j]).1),
    ensures
        r matches Err(error) && crate::solver::builder::is_configuration_error(pools@[i].1, error),
{
    assert(crate::solver::builder::has_bad_token(pools@[i].1));
    if r is Err {
        let k = choose|k: int| #[trigger]
            is_first_bad_pool(pools@, k) && crate::solver::builder::is_configuration_error(
                pools@[k].1,
                r->Err_0,
            );
        assert(crate::solver::builder::has_bad_token(pools@[k].1));
        if k < i {
            assert(!crate::solver::builder::has_bad_token(pools@[k].1));
        } else if k > i {
            assert(!crate::solver::builder::has_bad_token(pools@[i].1));
        }
    }
}

} // verus!
