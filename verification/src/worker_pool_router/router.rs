//! The course of a request through the router.
use vstd::prelude::*;

use crate::amount::Amount;
use crate::encoding::encoder::Encoder;
use crate::error::SolveError;
use crate::table::Table;
use crate::types::options::{PriceGuardConfig, QuoteOptions, QuoteRequest, SolveParams};
use crate::types::quote::{OrderQuote, Quote};
use crate::types::route::ComponentId;
use crate::worker_pool_router::config::WorkerPoolRouterConfig;
use crate::worker_pool_router::gas::refine_responses;
use crate::worker_pool_router::ranking::{rank_quotes, OrderResponses, PoolRole};
use crate::worker_pool_router::surplus::combine_with_surplus;

verus! {

/// Handle to a solver pool for dispatching orders, over whatever its queue is.
#[derive(Debug)]
pub struct SolverPoolHandle<Q> {
    /// Human-readable name for this pool.
    pub name: String,
    /// Queue handle for this pool.
    pub queue: Q,
    /// Whether this pool routes public-only or all liquidity.
    pub role: PoolRole,
}

impl<Q> SolverPoolHandle<Q> {
    /// Creates a handle of a public pool.
    pub fn new(name: String, queue: Q) -> (r: Self)
        ensures
            r == (SolverPoolHandle { name, queue, role: PoolRole::Public }),
    {
        SolverPoolHandle { name, queue, role: PoolRole::Public }
    }

    /// Sets the pool's role.
    pub fn with_role(self, role: PoolRole) -> (r: Self)
        ensures
            r == (SolverPoolHandle { role, ..self }),
    {
        SolverPoolHandle { role, ..self }
    }

    /// The pool name.
    pub fn name(&self) -> (r: &str)
        ensures
            r@ == self.name@,
    {
        self.name.as_str()
    }

    /// The task queue handle.
    pub fn queue(&self) -> (r: &Q)
        ensures
            *r == self.queue,
    {
        &self.queue
    }

    /// The pool's role.
    pub fn role(&self) -> (r: PoolRole)
        ensures
            r == self.role,
    {
        self.role
    }
}

/// Orchestrates multiple solver pools to find the best quote.
#[derive(Debug)]
pub struct WorkerPoolRouter<Q> {
    /// All registered solver pools.
    pub solver_pools: Vec<SolverPoolHandle<Q>>,
    pub config: WorkerPoolRouterConfig,
    /// Encodes quotes into transactions.
    pub encoder: Encoder,
    /// Whether quotes can be checked against outside prices.
    pub guarded: bool,
}

/// What the pools are asked for an order.
#[derive(Debug)]
pub struct SolveStart {
    /// Time for the pools to answer.
    pub timeout_ms: u64,
    /// Number of quotes to wait for; zero waits for all pools.
    pub min_responses: usize,
    pub params: SolveParams,
}

/// What is to be done with ranked candidates.
#[derive(Debug)]
pub enum Settlement {
    /// Outside prices decide which candidate of each order is taken.
    Validate { candidates: Vec<Vec<OrderQuote>>, config: PriceGuardConfig },
    /// The best candidate of each order is taken.
    Selected(Vec<OrderQuote>),
}

/// The roles of pools by name; the last of a name counts.
pub open spec fn roles_of<Q>(pools: Seq<SolverPoolHandle<Q>>) -> Map<Seq<char>, PoolRole>
    decreases pools.len(),
{
    if pools.len() == 0 {
        Map::empty()
    } else {
        roles_of(pools.drop_last()).insert(pools.last().name@, pools.last().role)
    }
}

/// Whether any pool is one for all liquidity.
pub open spec fn has_all_pool(roles: Map<Seq<char>, PoolRole>) -> bool {
    exists|name: Seq<char>| roles.dom().contains(name) && #[trigger] roles[name] == PoolRole::All
}

/// The responses of public pools.
pub open spec fn is_public_part(
    responses: OrderResponses,
    roles: Map<Seq<char>, PoolRole>,
    part: OrderResponses,
) -> bool {
    &&& part.order_id == responses.order_id
    &&& part.quotes@ == responses.quotes@.filter(
        |p: (String, OrderQuote)|
            crate::worker_pool_router::ranking::role_of(roles, p.0@) == PoolRole::Public,
    )
    &&& part.failed_solvers@ == responses.failed_solvers@
}

/// The candidates for an order, best first. Where a pool routes through permissioned components, its
/// quotes do not count as public ones and only add surplus.
pub open spec fn are_candidates(
    responses: OrderResponses,
    roles: Map<Seq<char>, PoolRole>,
    options: QuoteOptions,
    permissioned: Seq<ComponentId>,
    candidates: Seq<OrderQuote>,
) -> bool {
    if has_all_pool(roles) {
        exists|part: OrderResponses, ranked: Seq<OrderQuote>| #[trigger]
            is_public_part(responses, roles, part) && #[trigger]
            crate::worker_pool_router::ranking::is_ranked(part, options, ranked)
                && crate::worker_pool_router::surplus::is_combined(
                responses,
                roles,
                options,
                permissioned,
                ranked,
                candidates,
            )
    } else {
        crate::worker_pool_router::ranking::is_ranked(responses, options, candidates)
    }
}

/// The first candidate of each order that has one.
pub open spec fn first_candidates(candidates: Seq<Vec<OrderQuote>>) -> Seq<OrderQuote>
    decreases candidates.len(),
{
    if candidates.len() == 0 {
        seq![]
    } else {
        let before = first_candidates(candidates.drop_last());
        if candidates.last()@.len() > 0 {
            before.push(candidates.last()@[0])
        } else {
            before
        }
    }
}

/// The gas of quotes, added up.
pub open spec fn total_gas(quotes: Seq<OrderQuote>) -> nat
    decreases quotes.len(),
{
    if quotes.len() == 0 {
        0
    } else {
        total_gas(quotes.drop_last()) + quotes.last().gas_estimate@
    }
}

/// The price guard that a request asks for.
pub open spec fn requested_guard(options: QuoteOptions) -> Option<PriceGuardConfig> {
    match options.encoding_options {
        Some(encoding) => if encoding.price_guard.enabled {
            Some(encoding.price_guard)
        } else {
            None
        },
        None => None,
    }
}

/// Whether a result says what is to be done with candidates: outside prices decide where a request asks
/// for it, which it may only where they are at hand; otherwise the best are taken.
pub open spec fn is_settled(
    guarded: bool,
    options: QuoteOptions,
    candidates: Seq<Vec<OrderQuote>>,
    r: Result<Settlement, SolveError>,
) -> bool {
    match (guarded, requested_guard(options)) {
        (true, Some(guard)) => {
            &&& r matches Ok(Settlement::Validate { candidates: c, config })
            &&& c@ == candidates
            &&& config == guard
        },
        (false, Some(_)) => r matches Err(SolveError::Internal(text)) && text@
            == "price guard config provided but price guard is not enabled on this server"@,
        _ => r matches Ok(Settlement::Selected(quotes)) && quotes@ == first_candidates(candidates),
    }
}

impl<Q> WorkerPoolRouter<Q> {
    /// Creates a router over solver pools.
    pub fn new(
        solver_pools: Vec<SolverPoolHandle<Q>>,
        config: WorkerPoolRouterConfig,
        encoder: Encoder,
    ) -> (r: Self)
        ensures
            r == (WorkerPoolRouter { solver_pools, config, encoder, guarded: false }),
    {
        WorkerPoolRouter { solver_pools, config, encoder, guarded: false }
    }

    /// Makes price guard validation available. It only runs for requests that ask for it.
    pub fn with_price_guard(self) -> (r: Self)
        ensures
            r == (WorkerPoolRouter { guarded: true, ..self }),
    {
        WorkerPoolRouter { guarded: true, ..self }
    }

    /// The number of registered solver pools.
    pub fn num_pools(&self) -> (r: usize)
        ensures
            r == self.solver_pools@.len(),
    {
        self.solver_pools.len()
    }

    /// The time for a request, in milliseconds: its own, or the default.
    pub fn effective_timeout(&self, options: &QuoteOptions) -> (r: u64)
        ensures
            r == match options.timeout_ms {
                Some(ms) => ms,
                None => self.config.default_timeout_ms,
            },
    {
        match options.timeout_ms {
            Some(ms) => ms,
            None => self.config.default_timeout_ms,
        }
    }

    /// Whether a result is what the pools are asked for each order of a request; without pools there is
    /// no one to ask.
    pub open spec fn starts(self, request: QuoteRequest, r: Result<SolveStart, SolveError>) -> bool {
        if self.solver_pools@.len() == 0 {
            r matches Err(SolveError::Internal(text)) && text@ == "no solver pools configured"@
        } else {
            &&& r matches Ok(start)
            &&& start.timeout_ms == match request.options.timeout_ms {
                Some(ms) => ms,
                None => self.config.default_timeout_ms,
            }
            &&& start.min_responses == match request.options.min_responses {
                Some(n) => n,
                None => self.config.min_responses,
            }
            &&& start.params.state_label == request.options.state_label
        }
    }

    /// What the pools are asked for each order of a request.
    pub fn start(&self, request: &QuoteRequest) -> (r: Result<SolveStart, SolveError>)
        ensures
            self.starts(*request, r),
    {
        if self.solver_pools.len() == 0 {
            return Err(SolveError::Internal("no solver pools configured".to_string()));
        }
        let params: SolveParams = match &request.options.state_label {
            Some(label) => SolveParams::default().with_state_label(label.clone()),
            None => SolveParams::default(),
        };
        Ok(
            SolveStart {
                timeout_ms: self.effective_timeout(&request.options),
                min_responses: match request.options.min_responses {
                    Some(n) => n,
                    None => self.config.min_responses,
                },
                params,
            },
        )
    }

    /// The names of the pools.
    pub fn pool_names(&self) -> (r: Vec<String>)
        ensures
            r@ == self.solver_pools@.map_values(|p: SolverPoolHandle<Q>| p.name),
    {
        let mut names: Vec<String> = Vec::new();
        let mut i: usize = 0;
        while i < self.solver_pools.len()
            invariant
                i <= self.solver_pools@.len(),
                names@ == self.solver_pools@.take(i as int).map_values(
                    |p: SolverPoolHandle<Q>| p.name,
                ),
            decreases self.solver_pools@.len() - i,
        {
            names.push(self.solver_pools[i].name.clone());
            i += 1;
        }
        assert(self.solver_pools@.take(i as int) == self.solver_pools@);
        names
    }

    /// The roles of the pools by name.
    pub fn pool_roles(&self) -> (r: Table<String, PoolRole>)
        ensures
            r@ == roles_of(self.solver_pools@),
    {
        let mut roles: Table<String, PoolRole> = Table::new();
        let mut i: usize = 0;
        while i < self.solver_pools.len()
            invariant
                i <= self.solver_pools@.len(),
                roles@ == roles_of(self.solver_pools@.take(i as int)),
            decreases self.solver_pools@.len() - i,
        {
            roles.insert(self.solver_pools[i].name.clone(), self.solver_pools[i].role);
            i += 1;
            assert(self.solver_pools@.take(i as int).drop_last() == self.solver_pools@.take(i - 1));
        }
        assert(self.solver_pools@.take(i as int) == self.solver_pools@);
        roles
    }

    /// The candidates for an order, best first. `permissioned` lists the components that only pools
    /// for all liquidity may route through.
    pub fn candidates(
        &self,
        responses: &OrderResponses,
        options: &QuoteOptions,
        permissioned: &Vec<ComponentId>,
    ) -> (r: Vec<OrderQuote>)
        ensures
            are_candidates(
                *responses,
                roles_of(self.solver_pools@),
                *options,
                permissioned@,
                r@,
            ),
    {
        let roles: Table<String, PoolRole> = self.pool_roles();
        if any_all_pool(&roles) {
            let part: OrderResponses = responses.public_only(&roles);
            let ranked: Vec<OrderQuote> = rank_quotes(&part, options);
            let ghost public_ranked = ranked@;
            let r: Vec<OrderQuote> = combine_with_surplus(
                responses,
                &roles,
                options,
                permissioned,
                ranked,
            );
            assert(is_public_part(*responses, roles@, part));
            assert(crate::worker_pool_router::ranking::is_ranked(part, *options, public_ranked));
            r
        } else {
            rank_quotes(responses, options)
        }
    }

    /// What is to be done with the candidates of all orders. A request that asks for the price guard
    /// is refused where there is none.
    pub fn settle(&self, candidates: Vec<Vec<OrderQuote>>, options: &QuoteOptions) -> (r: Result<
        Settlement,
        SolveError,
    >)
        ensures
            is_settled(self.guarded, *options, candidates@, r),
    {
        let requested: Option<PriceGuardConfig> = match &options.encoding_options {
            Some(encoding) => if encoding.price_guard.enabled {
                Some(encoding.price_guard)
            } else {
                None
            },
            None => None,
        };
        match requested {
            Some(config) => if self.guarded {
                Ok(Settlement::Validate { candidates, config })
            } else {
                Err(
                    SolveError::Internal(
                        "price guard config provided but price guard is not enabled on this server".to_string(),
                    ),
                )
            },
            None => Ok(Settlement::Selected(take_first(&candidates))),
        }
    }
}

/// Whether any pool is one for all liquidity.
fn any_all_pool(roles: &Table<String, PoolRole>) -> (r: bool)
    ensures
        r == has_all_pool(roles@),
{
    let mut i: usize = 0;
    while i < roles.entries.len()
        invariant
            i <= roles.entries@.len(),
            forall|j: int|
                0 <= j < i && roles@.dom().contains((#[trigger] roles.entries@[j]).0@)
                    ==> roles@[roles.entries@[j].0@] != PoolRole::All,
        decreases roles.entries@.len() - i,
    {
        let name: &String = &roles.entries[i].0;
        match roles.get(name) {
            Some(role) => {
                if *role == PoolRole::All {
                    assert(roles@[name@] == PoolRole::All);
                    return true;
                }
            },
            None => {},
        }
        i += 1;
    }
    proof {
        assert forall|name: Seq<char>| roles@.dom().contains(name) implies #[trigger] roles@[name]
            != PoolRole::All by {
            lookup_has_entry(roles.entries@, name);
            let j = choose|j: int|
                0 <= j < roles.entries@.len() && (#[trigger] roles.entries@[j]).0@ == name;
            assert(roles.entries@[j].0@ == name);
        }
    }
    false
}

proof fn lookup_has_entry(entries: Seq<(String, PoolRole)>, name: Seq<char>)
    requires
        crate::table::lookup(entries, name) is Some,
    ensures
        exists|j: int| 0 <= j < entries.len() && (#[trigger] entries[j]).0@ == name,
    decreases entries.len(),
{
    if entries.len() > 0 {
        if entries[0].0@ == name {
        } else {
            let rest = entries.drop_first();
            lookup_has_entry(rest, name);
            let j = choose|j: int| 0 <= j < rest.len() && (#[trigger] rest[j]).0@ == name;
            assert(entries[j + 1].0@ == name);
        }
    }
}

/// The first candidate of each order that has one.
fn take_first(candidates: &Vec<Vec<OrderQuote>>) -> (r: Vec<OrderQuote>)
    ensures
        r@ == first_candidates(candidates@),
{
    let mut quotes: Vec<OrderQuote> = Vec::new();
    let mut i: usize = 0;
    while i < candidates.len()
        invariant
            i <= candidates@.len(),
            quotes@ == first_candidates(candidates@.take(i as int)),
        decreases candidates@.len() - i,
    {
        if candidates[i].len() > 0 {
            quotes.push(candidates[i][0].clone());
        }
        i += 1;
        assert(candidates@.take(i as int).drop_last() == candidates@.take(i - 1));
    }
    assert(candidates@.take(i as int) == candidates@);
    quotes
}

/// Whether there is an estimate for each quote, and gas was paid out of each output.
pub open spec fn can_refine(responses: Seq<OrderResponses>, estimates: Seq<Vec<Amount>>) -> bool {
    &&& estimates.len() == responses.len()
    &&& forall|o: int|
        0 <= o < responses.len() ==> estimates[o]@.len() == (
        #[trigger] responses[o]).quotes@.len()
    &&& forall|o: int, i: int|
        0 <= o < responses.len() && 0 <= i < responses[o].quotes@.len()
            ==> crate::worker_pool_router::gas::gas_was_paid(
            (#[trigger] responses[o].quotes@[i]).1,
        )
}

/// Whether responses are others with refined gas estimates.
pub open spec fn are_refined(
    before: Seq<OrderResponses>,
    estimates: Seq<Vec<Amount>>,
    after: Seq<OrderResponses>,
) -> bool {
    &&& after.len() == before.len()
    &&& forall|o: int|
        0 <= o < after.len() ==> {
            &&& (#[trigger] after[o]).order_id == before[o].order_id
            &&& after[o].failed_solvers@ == before[o].failed_solvers@
            &&& after[o].quotes@.len() == before[o].quotes@.len()
            &&& forall|i: int|
                0 <= i < after[o].quotes@.len() ==> (#[trigger] after[o].quotes@[i]).0
                    == before[o].quotes@[i].0 && crate::worker_pool_router::gas::is_refinement(
                    before[o].quotes@[i].1,
                    estimates[o]@[i],
                    after[o].quotes@[i].1,
                )
        }
}

/// Refines the gas estimates of the quotes for all orders, given an estimate for each quote.
pub fn refine_gas_estimates(
    order_responses: &Vec<OrderResponses>,
    estimates: &Vec<Vec<Amount>>,
) -> (r: Vec<OrderResponses>)
    requires
        can_refine(order_responses@, estimates@),
    ensures
        are_refined(order_responses@, estimates@, r@),
{
    let mut refined: Vec<OrderResponses> = Vec::new();
    let mut o: usize = 0;
    while o < order_responses.len()
        invariant
            o <= order_responses@.len(),
            refined@.len() == o,
            estimates@.len() == order_responses@.len(),
            forall|m: int|
                0 <= m < order_responses@.len() ==> estimates@[m]@.len() == (
                #[trigger] order_responses@[m]).quotes@.len(),
            forall|m: int, i: int|
                0 <= m < order_responses@.len() && 0 <= i < order_responses@[m].quotes@.len()
                    ==> crate::worker_pool_router::gas::gas_was_paid(
                    (#[trigger] order_responses@[m].quotes@[i]).1,
                ),
            forall|m: int|
                0 <= m < o ==> {
                    &&& (#[trigger] refined@[m]).order_id == order_responses@[m].order_id
                    &&& refined@[m].failed_solvers@ == order_responses@[m].failed_solvers@
                    &&& refined@[m].quotes@.len() == order_responses@[m].quotes@.len()
                    &&& forall|i: int|
                        0 <= i < refined@[m].quotes@.len() ==> (#[trigger] refined@[m].quotes@[i]).0
                            == order_responses@[m].quotes@[i].0
                            && crate::worker_pool_router::gas::is_refinement(
                            order_responses@[m].quotes@[i].1,
                            estimates@[m]@[i],
                            refined@[m].quotes@[i].1,
                        )
                },
        decreases order_responses@.len() - o,
    {
        refined.push(refine_responses(&order_responses[o], &estimates[o]));
        o += 1;
    }
    refined
}

/// Whether a quote is the answer to a request: the quotes of its orders, and their gas added up.
pub open spec fn is_answer(quotes: Seq<OrderQuote>, solve_time_ms: u64, answer: Quote) -> bool {
    &&& answer.orders@ == quotes
    &&& answer.total_gas_estimate@ == total_gas(quotes)
    &&& answer.solve_time_ms == solve_time_ms
}

/// The answer to a request: the quotes, and their gas added up.
pub fn complete_quote(order_quotes: Vec<OrderQuote>, solve_time_ms: u64) -> (r: Quote)
    ensures
        is_answer(order_quotes@, solve_time_ms, r),
        r.orders == order_quotes,
{
    let mut sum: Amount = Amount::zero();
    let mut i: usize = 0;
    while i < order_quotes.len()
        invariant
            i <= order_quotes@.len(),
            sum@ == total_gas(order_quotes@.take(i as int)),
        decreases order_quotes@.len() - i,
    {
        sum = sum.plus(&order_quotes[i].gas_estimate);
        i += 1;
        assert(order_quotes@.take(i as int).drop_last() == order_quotes@.take(i - 1));
    }
    assert(order_quotes@.take(i as int) == order_quotes@);
    Quote::new(order_quotes, sum, solve_time_ms)
}

/// Every order gets a candidate, whatever the pools answered.
pub proof fn every_order_has_a_candidate(
    responses: OrderResponses,
    roles: Map<Seq<char>, PoolRole>,
    options: QuoteOptions,
    permissioned: Seq<ComponentId>,
    candidates: Seq<OrderQuote>,
)
    requires
        are_candidates(responses, roles, options, permissioned, candidates),
    ensures
        candidates.len() > 0,
{
}

/// Every candidate for an order carries its id, where the pools' quotes do.
pub proof fn candidates_carry_the_order_id(
    responses: OrderResponses,
    roles: Map<Seq<char>, PoolRole>,
    options: QuoteOptions,
    permissioned: Seq<ComponentId>,
    candidates: Seq<OrderQuote>,
    id: Seq<char>,
)
    requires
        responses.are_for(id),
        are_candidates(responses, roles, options, permissioned, candidates),
    ensures
        candidates.len() > 0,
        forall|k: int| 0 <= k < candidates.len() ==> (#[trigger] candidates[k]).order_id@ == id,
{
    if has_all_pool(roles) {
        let (part, ranked) = choose|part: OrderResponses, ranked: Seq<OrderQuote>| #[trigger]
            is_public_part(responses, roles, part) && #[trigger]
            crate::worker_pool_router::ranking::is_ranked(part, options, ranked)
                && crate::worker_pool_router::surplus::is_combined(
                responses,
                roles,
                options,
                permissioned,
                ranked,
                candidates,
            );
        let is_public = |p: (String, OrderQuote)|
            crate::worker_pool_router::ranking::role_of(roles, p.0@) == PoolRole::Public;
        assert forall|i: int| 0 <= i < part.quotes@.len() implies (
        #[trigger] part.quotes@[i]).1.order_id@ == id by {
            responses.quotes@.lemma_filter_pred(is_public, i);
            responses.quotes@.lemma_filter_contains_rev(is_public, part.quotes@[i]);
            let j = choose|j: int|
                0 <= j < responses.quotes@.len() && responses.quotes@[j] == part.quotes@[i];
            assert(responses.quotes@[j].1.order_id@ == id);
        }
        ranked_quotes_carry_the_order_id(part, options, ranked, id);
        assert forall|k: int| 0 <= k < candidates.len() implies (
        #[trigger] candidates[k]).order_id@ == id by {
            if candidates.len() > ranked.len() {
                if k > 0 {
                    assert(candidates.skip(1)[k - 1] == candidates[k]);
                    assert(ranked[k - 1].order_id@ == id);
                }
            } else {
                assert(ranked[k].order_id@ == id);
            }
        }
    } else {
        ranked_quotes_carry_the_order_id(responses, options, candidates, id);
    }
}

proof fn ranked_quotes_carry_the_order_id(
    responses: OrderResponses,
    options: QuoteOptions,
    ranked: Seq<OrderQuote>,
    id: Seq<char>,
)
    requires
        responses.are_for(id),
        crate::worker_pool_router::ranking::is_ranked(responses, options, ranked),
    ensures
        ranked.len() > 0,
        forall|k: int| 0 <= k < ranked.len() ==> (#[trigger] ranked[k]).order_id@ == id,
{
    let quotes = responses.quotes@;
    let max_gas = options.max_gas;
    if exists|places: Seq<int>| #[trigger]
        crate::worker_pool_router::ranking::ranks(quotes, max_gas, places) && places.len() > 0
            && ranked == places.map_values(|i: int| quotes[i].1) {
        let places = choose|places: Seq<int>| #[trigger]
            crate::worker_pool_router::ranking::ranks(quotes, max_gas, places) && places.len() > 0
                && ranked == places.map_values(|i: int| quotes[i].1);
        assert forall|k: int| 0 <= k < ranked.len() implies (#[trigger] ranked[k]).order_id@
            == id by {
            assert(0 <= places[k] < quotes.len());
            assert(ranked[k] == quotes[places[k]].1);
        }
    }
}

/// A quote of a pool for all liquidity is never returned as a public one: where there is such a pool,
/// every successful candidate is a public pool's quote, or carries the surplus that it captures.
pub proof fn permissioned_quotes_only_add_surplus(
    responses: OrderResponses,
    roles: Map<Seq<char>, PoolRole>,
    options: QuoteOptions,
    permissioned: Seq<ComponentId>,
    candidates: Seq<OrderQuote>,
    k: int,
)
    requires
        has_all_pool(roles),
        are_candidates(responses, roles, options, permissioned, candidates),
        0 <= k < candidates.len(),
        candidates[k].status == crate::types::quote::QuoteStatus::Success,
    ensures
        (k == 0 && candidates[k].surplus is Some) || exists|i: int|
            0 <= i < responses.quotes@.len() && (#[trigger] responses.quotes@[i]).1
                == candidates[k] && crate::worker_pool_router::ranking::role_of(
                roles,
                responses.quotes@[i].0@,
            ) == PoolRole::Public,
{
    let (part, ranked) = choose|part: OrderResponses, ranked: Seq<OrderQuote>| #[trigger]
        is_public_part(responses, roles, part) && #[trigger]
        crate::worker_pool_router::ranking::is_ranked(part, options, ranked)
            && crate::worker_pool_router::surplus::is_combined(
            responses,
            roles,
            options,
            permissioned,
            ranked,
            candidates,
        );
    let is_public = |p: (String, OrderQuote)|
        crate::worker_pool_router::ranking::role_of(roles, p.0@) == PoolRole::Public;
    let overlaid = candidates.len() - ranked.len();
    crate::worker_pool_router::surplus::user_is_never_quoted_worse(
        responses,
        roles,
        options,
        permissioned,
        ranked,
        candidates,
    );
    if k >= overlaid {
        let quote = ranked[k - overlaid];
        assert(candidates.skip(overlaid)[k - overlaid] == quote);
        let quotes = part.quotes@;
        let max_gas = options.max_gas;
        let places = choose|places: Seq<int>| #[trigger]
            crate::worker_pool_router::ranking::ranks(quotes, max_gas, places) && places.len() > 0
                && ranked == places.map_values(|i: int| quotes[i].1);
        let at = places[k - overlaid];
        assert(0 <= at < quotes.len());
        assert(quotes[at].1 == quote);
        responses.quotes@.lemma_filter_pred(is_public, at);
        responses.quotes@.lemma_filter_contains_rev(is_public, quotes[at]);
        let i = choose|i: int|
            0 <= i < responses.quotes@.len() && responses.quotes@[i] == quotes[at];
        assert(responses.quotes@[i].1 == candidates[k]);
    }
}

/// A pool plays the role that the last pool of its name was given.
pub proof fn pools_play_the_role_given_last<Q>(pools: Seq<SolverPoolHandle<Q>>, i: int)
    requires
        0 <= i < pools.len(),
        forall|j: int| i < j < pools.len() ==> (#[trigger] pools[j]).name@ != pools[i].name@,
    ensures
        roles_of(pools).dom().contains(pools[i].name@),
        roles_of(pools)[pools[i].name@] == pools[i].role,
    decreases pools.len(),
{
    let n = pools.len() - 1;
    if i < n {
        let front = pools.drop_last();
        assert forall|j: int| i < j < front.len() implies (#[trigger] front[j]).name@
            != front[i].name@ by {
            assert(pools[j].name@ != pools[i].name@);
        }
        pools_play_the_role_given_last(front, i);
        assert(pools[n].name@ != pools[i].name@);
    }
}

/// Only pools of the router have roles on record.
pub proof fn other_names_play_no_role<Q>(pools: Seq<SolverPoolHandle<Q>>, name: Seq<char>)
    requires
        forall|i: int| 0 <= i < pools.len() ==> (#[trigger] pools[i]).name@ != name,
    ensures
        !roles_of(pools).dom().contains(name),
    decreases pools.len(),
{
    if pools.len() > 0 {
        let front = pools.drop_last();
        assert forall|i: int| 0 <= i < front.len() implies (#[trigger] front[i]).name@ != name by {
            assert(pools[i].name@ != name);
        }
        other_names_play_no_role(front, name);
        assert(pools[pools.len() - 1].name@ != name);
    }
}

/// Without a pool for all liquidity the candidates are the ranked quotes of all pools. With one, they
/// are the ranked quotes of the others, on which surplus is overlaid.
pub proof fn surplus_pools_do_not_compete(
    responses: OrderResponses,
    roles: Map<Seq<char>, PoolRole>,
    options: QuoteOptions,
    permissioned: Seq<ComponentId>,
    candidates: Seq<OrderQuote>,
)
    requires
        are_candidates(responses, roles, options, permissioned, candidates),
    ensures
        (forall|name: Seq<char>|
            roles.dom().contains(name) ==> #[trigger] roles[name] == PoolRole::Public)
            ==> crate::worker_pool_router::ranking::is_ranked(responses, options, candidates),
        (exists|name: Seq<char>|
            roles.dom().contains(name) && #[trigger] roles[name] == PoolRole::All) ==> exists|
            public: OrderResponses,
            ranked: Seq<OrderQuote>,
        |
            {
                &&& public.order_id == responses.order_id
                &&& public.failed_solvers@ == responses.failed_solvers@
                &&& forall|i: int|
                    0 <= i < responses.quotes@.len() ==> (public.quotes@.contains(
                        #[trigger] responses.quotes@[i],
                    ) <==> !(roles.dom().contains(responses.quotes@[i].0@)
                        && roles[responses.quotes@[i].0@] == PoolRole::All))
                &&& forall|k: int|
                    0 <= k < public.quotes@.len() ==> responses.quotes@.contains(
                        #[trigger] public.quotes@[k],
                    )
                &&& #[trigger] crate::worker_pool_router::ranking::is_ranked(public, options, ranked)
                &&& crate::worker_pool_router::surplus::is_combined(
                    responses,
                    roles,
                    options,
                    permissioned,
                    ranked,
                    candidates,
                )
            },
{
    if exists|name: Seq<char>|
        roles.dom().contains(name) && #[trigger] roles[name] == PoolRole::All {
        assert(has_all_pool(roles));
        let (part, ranked) = choose|part: OrderResponses, ranked: Seq<OrderQuote>| #[trigger]
            is_public_part(responses, roles, part) && #[trigger]
            crate::worker_pool_router::ranking::is_ranked(part, options, ranked)
                && crate::worker_pool_router::surplus::is_combined(
                responses,
                roles,
                options,
                permissioned,
                ranked,
                candidates,
            );
        let is_public = |p: (String, OrderQuote)|
            crate::worker_pool_router::ranking::role_of(roles, p.0@) == PoolRole::Public;
        assert forall|i: int| 0 <= i < responses.quotes@.len() implies (part.quotes@.contains(
            #[trigger] responses.quotes@[i],
        ) <==> !(roles.dom().contains(responses.quotes@[i].0@) && roles[responses.quotes@[i].0@]
            == PoolRole::All)) by {
            crate::worker_pool_router::ranking::unknown_pools_are_public(
                roles,
                responses.quotes@[i].0@,
            );
            if is_public(responses.quotes@[i]) {
                responses.quotes@.lemma_filter_contains(is_public, i);
            }
            if part.quotes@.contains(responses.quotes@[i]) {
                let k = choose|k: int|
                    0 <= k < part.quotes@.len() && part.quotes@[k] == responses.quotes@[i];
                responses.quotes@.lemma_filter_pred(is_public, k);
            }
        }
        assert forall|k: int| 0 <= k < part.quotes@.len() implies responses.quotes@.contains(
            #[trigger] part.quotes@[k],
        ) by {
            responses.quotes@.lemma_filter_contains_rev(is_public, part.quotes@[k]);
        }
    } else {
        if has_all_pool(roles) {
            let name = choose|name: Seq<char>|
                roles.dom().contains(name) && #[trigger] roles[name] == PoolRole::All;
            assert(roles[name] == PoolRole::All);
        }
    }
    if forall|name: Seq<char>|
        roles.dom().contains(name) ==> #[trigger] roles[name] == PoolRole::Public {
        assert(!has_all_pool(roles));
    }
}

/// A request asks for the price guard exactly where it asks for encoding with the guard enabled. It is
/// then answered by outside prices where they are at hand, and refused where they are not; any other
/// request gets the first candidate of each order.
pub proof fn candidates_are_settled_as_asked(
    guarded: bool,
    options: QuoteOptions,
    candidates: Seq<Vec<OrderQuote>>,
    r: Result<Settlement, SolveError>,
)
    requires
        is_settled(guarded, options, candidates, r),
        forall|o: int| 0 <= o < candidates.len() ==> (#[trigger] candidates[o])@.len() > 0,
    ensures
        ({
            let asks = options.encoding_options is Some
                && options.encoding_options->Some_0.price_guard.enabled;
            &&& asks && guarded ==> (r matches Ok(Settlement::Validate { candidates: c, config }) && c@
                == candidates && config == options.encoding_options->Some_0.price_guard)
            &&& asks && !guarded ==> (r matches Err(SolveError::Internal(text)) && text@
                == "price guard config provided but price guard is not enabled on this server"@)
            &&& !asks ==> (r matches Ok(Settlement::Selected(quotes)) && quotes@.len()
                == candidates.len() && forall|o: int|
                0 <= o < candidates.len() ==> #[trigger] quotes@[o] == candidates[o]@[0])
        }),
{
    firsts_are_taken(candidates);
}

proof fn firsts_are_taken(candidates: Seq<Vec<OrderQuote>>)
    requires
        forall|o: int| 0 <= o < candidates.len() ==> (#[trigger] candidates[o])@.len() > 0,
    ensures
        first_candidates(candidates).len() == candidates.len(),
        forall|o: int|
            0 <= o < candidates.len() ==> #[trigger] first_candidates(candidates)[o]
                == candidates[o]@[0],
    decreases candidates.len(),
{
    if candidates.len() > 0 {
        firsts_are_taken(candidates.drop_last());
    }
}

/// An answer holds the quotes as they are, with the sum of their gas and the time it took.
pub proof fn answers_add_up_the_gas(quotes: Seq<OrderQuote>, solve_time_ms: u64, answer: Quote)
    requires
        is_answer(quotes, solve_time_ms, answer),
    ensures
        answer.orders@ == quotes,
        answer.total_gas_estimate@ == quotes.fold_left(
            0nat,
            |sum: nat, q: OrderQuote| sum + q.gas_estimate@,
        ),
        answer.solve_time_ms == solve_time_ms,
{
    gas_is_a_sum(quotes);
}

proof fn gas_is_a_sum(quotes: Seq<OrderQuote>)
    ensures
        total_gas(quotes) == quotes.fold_left(
            0nat,
            |sum: nat, q: OrderQuote| sum + q.gas_estimate@,
        ),
    decreases quotes.len(),
{
    reveal(Seq::fold_left);
    if quotes.len() > 0 {
        gas_is_a_sum(quotes.drop_last());
    }
}

/// Refining keeps who answered what: the same orders, the same pools in the same order, the same
/// failures; only quotes change, each by its own estimate.
pub proof fn refining_keeps_who_answered(
    before: Seq<OrderResponses>,
    estimates: Seq<Vec<Amount>>,
    after: Seq<OrderResponses>,
    o: int,
    i: int,
)
    requires
        are_refined(before, estimates, after),
        0 <= o < before.len(),
        0 <= i < before[o].quotes@.len(),
    ensures
        after.len() == before.len(),
        after[o].order_id == before[o].order_id,
        after[o].failed_solvers@ == before[o].failed_solvers@,
        after[o].quotes@.len() == before[o].quotes@.len(),
        after[o].quotes@[i].0 == before[o].quotes@[i].0,
        crate::worker_pool_router::gas::is_refinement(
            before[o].quotes@[i].1,
            estimates[o]@[i],
            after[o].quotes@[i].1,
        ),
{
    assert(after[o].quotes@[i].0 == before[o].quotes@[i].0);
}

/// Pools are given the time, the number of answers and the state that a request asks for, and the
/// router's own where it asks for none; a router without pools refuses it.
pub proof fn requests_set_their_own_terms<Q>(
    router: WorkerPoolRouter<Q>,
    request: QuoteRequest,
    r: Result<SolveStart, SolveError>,
)
    requires
        router.starts(request, r),
    ensures
        r is Ok <==> router.solver_pools@.len() > 0,
        r is Ok && request.options.timeout_ms is Some ==> r->Ok_0.timeout_ms
            == request.options.timeout_ms->Some_0,
        r is Ok && request.options.timeout_ms is None ==> r->Ok_0.timeout_ms
            == router.config.default_timeout_ms,
        r is Ok && request.options.min_responses is Some ==> r->Ok_0.min_responses
            == request.options.min_responses->Some_0,
        r is Ok && request.options.min_responses is None ==> r->Ok_0.min_responses
            == router.config.min_responses,
        r is Ok ==> r->Ok_0.params.state_label == request.options.state_label,
        r is Err ==> (r->Err_0 matches SolveError::Internal(text) && text@
            == "no solver pools configured"@),
{
}

/// A request has its own time where it sets one, and else the router's.
pub proof fn requests_have_their_own_time<Q>(
    router: WorkerPoolRouter<Q>,
    options: QuoteOptions,
    r: u64,
)
    requires
        call_ensures(WorkerPoolRouter::<Q>::effective_timeout, (&router, &options), r),
    ensures
        options.timeout_ms is Some ==> r == options.timeout_ms->Some_0,
        options.timeout_ms is None ==> r == router.config.default_timeout_ms,
{
}

} // verus!
