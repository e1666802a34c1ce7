//! Which of the collected quotes are valid, and in what order they are preferred.
use vstd::prelude::*;

use crate::amount::Amount;
use crate::bytes::Bytes;
use crate::error::SolveError;
use crate::table::Table;
use crate::types::options::QuoteOptions;
use crate::types::quote::{BlockInfo, OrderQuote, QuoteStatus};

verus! {

/// The role a solver pool plays in a quote.
///
/// Public pools route only through public liquidity and provide the committed reference output. A
/// pool for all liquidity also routes through permissioned components and may beat that reference,
/// in which case the protocol captures the surplus.
#[derive(Debug, Clone, Copy, PartialEq, Eq, Structural)]
pub enum PoolRole {
    /// Routes through public liquidity only.
    Public,
    /// Routes through all liquidity, including permissioned components.
    All,
}

/// Collected responses for a single order from multiple solvers.
#[derive(Debug)]
pub struct OrderResponses {
    /// ID of the order these responses correspond to.
    pub order_id: String,
    /// Quotes received from each solver pool (pool name, quote).
    pub quotes: Vec<(String, OrderQuote)>,
    /// Solver pools that failed with their respective errors (pool name, error).
    pub failed_solvers: Vec<(String, SolveError)>,
}

/// The role of a pool: public where nothing is known of it.
pub open spec fn role_of(pool_roles: Map<Seq<char>, PoolRole>, pool: Seq<char>) -> PoolRole {
    if pool_roles.dom().contains(pool) {
        pool_roles[pool]
    } else {
        PoolRole::Public
    }
}

/// The role of a pool: public where nothing is known of it.
pub fn pool_role(pool_roles: &Table<String, PoolRole>, pool: &String) -> (r: PoolRole)
    ensures
        r == role_of(pool_roles@, pool@),
{
    match pool_roles.get(pool) {
        Some(role) => *role,
        None => PoolRole::Public,
    }
}

impl OrderResponses {
    /// The responses are about the order with this id, and so is every quote among them.
    pub open spec fn are_for(self, id: Seq<char>) -> bool {
        &&& self.order_id@ == id
        &&& forall|i: int|
            0 <= i < self.quotes@.len() ==> (#[trigger] self.quotes@[i]).1.order_id@ == id
    }

    /// The responses without the quotes of pools that are not public. Failures stay.
    pub fn public_only(&self, pool_roles: &Table<String, PoolRole>) -> (r: OrderResponses)
        ensures
            r.order_id == self.order_id,
            r.quotes@ == self.quotes@.filter(
                |p: (String, OrderQuote)| role_of(pool_roles@, p.0@) == PoolRole::Public,
            ),
            r.failed_solvers@ == self.failed_solvers@,
    {
        let ghost is_public = |p: (String, OrderQuote)|
            role_of(pool_roles@, p.0@) == PoolRole::Public;
        let mut quotes: Vec<(String, OrderQuote)> = Vec::new();
        let mut i: usize = 0;
        assert(self.quotes@.take(0).filter(is_public) =~= Seq::<(String, OrderQuote)>::empty()) by {
            reveal(Seq::filter);
        }
        while i < self.quotes.len()
            invariant
                i <= self.quotes@.len(),
                is_public == (|p: (String, OrderQuote)|
                    role_of(pool_roles@, p.0@) == PoolRole::Public),
                quotes@ == self.quotes@.take(i as int).filter(is_public),
            decreases self.quotes@.len() - i,
        {
            proof {
                self.quotes@.take(i as int).lemma_filter_push(self.quotes@[i as int], is_public);
                assert(self.quotes@.take(i as int).push(self.quotes@[i as int]) == self.quotes@.take(
                    i + 1,
                ));
            }
            let pair: &(String, OrderQuote) = &self.quotes[i];
            if pool_role(pool_roles, &pair.0) == PoolRole::Public {
                quotes.push((pair.0.clone(), pair.1.clone()));
            }
            i += 1;
        }
        assert(self.quotes@.take(i as int) == self.quotes@);
        let failed_solvers: Vec<(String, SolveError)> = copy_failures(&self.failed_solvers);
        OrderResponses { order_id: self.order_id.clone(), quotes, failed_solvers }
    }
}

/// A copy of failures.
pub(crate) fn copy_failures(failures: &Vec<(String, SolveError)>) -> (r: Vec<(String, SolveError)>)
    ensures
        r@ == failures@,
{
    let mut copies: Vec<(String, SolveError)> = Vec::new();
    let mut k: usize = 0;
    while k < failures.len()
        invariant
            k <= failures@.len(),
            copies@ == failures@.take(k as int),
        decreases failures@.len() - k,
    {
        let pair: &(String, SolveError) = &failures[k];
        copies.push((pair.0.clone(), pair.1.clone()));
        k += 1;
    }
    assert(failures@.take(k as int) == failures@);
    copies
}

/// Whether a quote may be returned: it found a route, and its gas is within the limit.
pub open spec fn is_valid(quote: OrderQuote, max_gas: Option<Amount>) -> bool {
    &&& quote.status == QuoteStatus::Success
    &&& max_gas matches Some(max) ==> quote.gas_estimate@ <= max@
}

/// Whether quote `i` is preferred to quote `j`: it yields more net of gas, or as much and came first.
pub open spec fn is_ahead(quotes: Seq<(String, OrderQuote)>, i: int, j: int) -> bool {
    let a = quotes[i].1.amount_out_net_gas@;
    let b = quotes[j].1.amount_out_net_gas@;
    a > b || (a == b && i < j)
}

/// `places` lists the valid quotes, each once, the preferred ones first.
pub open spec fn ranks(
    quotes: Seq<(String, OrderQuote)>,
    max_gas: Option<Amount>,
    places: Seq<int>,
) -> bool {
    &&& forall|k: int|
        0 <= k < places.len() ==> 0 <= #[trigger] places[k] < quotes.len() && is_valid(
            quotes[places[k]].1,
            max_gas,
        )
    &&& forall|k: int, l: int|
        0 <= k < l < places.len() ==> is_ahead(quotes, #[trigger] places[k], #[trigger] places[l])
    &&& forall|i: int|
        0 <= i < quotes.len() && is_valid((#[trigger] quotes[i]).1, max_gas) ==> places.contains(i)
}

/// Whether all failures are of one kind.
pub open spec fn all_timeouts(failed: Seq<(String, SolveError)>) -> bool {
    forall|i: int| 0 <= i < failed.len() ==> (#[trigger] failed[i]).1 is Timeout
}

pub open spec fn all_not_ready(failed: Seq<(String, SolveError)>) -> bool {
    forall|i: int| 0 <= i < failed.len() ==> (#[trigger] failed[i]).1 is NotReady
}

/// The status of an order that no pool answered.
pub open spec fn unanswered_status(failed: Seq<(String, SolveError)>) -> QuoteStatus {
    if failed.len() == 0 {
        QuoteStatus::NoRouteFound
    } else if all_timeouts(failed) {
        QuoteStatus::Timeout
    } else if all_not_ready(failed) {
        QuoteStatus::NotReady
    } else {
        QuoteStatus::NoRouteFound
    }
}

/// Whether a quote offers nothing: no amounts, no route, no transaction.
pub open spec fn offers_nothing(quote: OrderQuote) -> bool {
    &&& quote.amount_out@ == 0
    &&& quote.gas_estimate@ == 0
    &&& quote.amount_out_net_gas@ == 0
    &&& quote.algorithm@.len() == 0
    &&& quote.route is None
    &&& quote.price_impact_bps is None
    &&& quote.gas_price is None
    &&& quote.transaction is None
    &&& quote.fee_breakdown is None
    &&& quote.surplus is None
}

/// The stand-in for an order without a valid quote. Where some pool answered, the first answer tells
/// the block and the parties; otherwise the failures tell the status.
pub open spec fn is_placeholder(
    responses: OrderResponses,
    options: QuoteOptions,
    quote: OrderQuote,
) -> bool {
    &&& offers_nothing(quote)
    &&& quote.order_id == responses.order_id
    &&& if responses.quotes@.len() > 0 {
        let first = responses.quotes@[0].1;
        &&& quote.status == QuoteStatus::NoRouteFound
        &&& quote.amount_in == first.amount_in
        &&& quote.block == first.block
        &&& quote.sender == first.sender
        &&& quote.receiver == first.receiver
        &&& quote.solved_against == first.solved_against
    } else {
        &&& quote.status == unanswered_status(responses.failed_solvers@)
        &&& quote.amount_in@ == 0
        &&& quote.block.number == 0
        &&& quote.block.hash@.len() == 0
        &&& quote.block.timestamp == 0
        &&& quote.sender@.len() == 0
        &&& quote.receiver@.len() == 0
        &&& quote.solved_against@ == match options.state_label {
            Some(label) => label@,
            None => "0"@,
        }
    }
}

/// The candidates for an order, best first: the valid quotes in order of preference, or a single
/// placeholder where there is none.
pub open spec fn is_ranked(
    responses: OrderResponses,
    options: QuoteOptions,
    candidates: Seq<OrderQuote>,
) -> bool {
    let quotes = responses.quotes@;
    ||| exists|places: Seq<int>| #[trigger]
        ranks(quotes, options.max_gas, places) && places.len() > 0 && candidates == places.map_values(
            |i: int| quotes[i].1,
        )
    ||| {
        &&& forall|i: int|
            0 <= i < quotes.len() ==> !is_valid((#[trigger] quotes[i]).1, options.max_gas)
        &&& candidates.len() == 1
        &&& is_placeholder(responses, options, candidates[0])
    }
}

/// Whether a quote may be returned.
pub fn quote_is_valid(quote: &OrderQuote, max_gas: &Option<Amount>) -> (r: bool)
    ensures
        r == is_valid(*quote, *max_gas),
{
    if quote.status != QuoteStatus::Success {
        return false;
    }
    match max_gas {
        Some(max) => quote.gas_estimate.at_most(max),
        None => true,
    }
}

/// The positions of the valid quotes, the preferred ones first.
fn rank_places(quotes: &Vec<(String, OrderQuote)>, max_gas: &Option<Amount>) -> (r: Vec<usize>)
    ensures
        ranks(quotes@, *max_gas, r@.map_values(|i: usize| i as int)),
{
    let mut places: Vec<usize> = Vec::new();
    let mut i: usize = 0;
    while i < quotes.len()
        invariant
            i <= quotes@.len(),
            forall|k: int|
                0 <= k < places@.len() ==> #[trigger] places@[k] < i && is_valid(
                    quotes@[places@[k] as int].1,
                    *max_gas,
                ),
            forall|k: int, l: int|
                0 <= k < l < places@.len() ==> is_ahead(
                    quotes@,
                    #[trigger] places@[k] as int,
                    #[trigger] places@[l] as int,
                ),
            forall|m: int|
                0 <= m < i && is_valid((#[trigger] quotes@[m]).1, *max_gas) ==> places@.contains(
                    m as usize,
                ),
        decreases quotes@.len() - i,
    {
        if quote_is_valid(&quotes[i].1, max_gas) {
            let mut at: usize = 0;
            while at < places.len() && quotes[i].1.amount_out_net_gas.at_most(
                &quotes[places[at]].1.amount_out_net_gas,
            )
                invariant
                    at <= places@.len(),
                    i < quotes@.len(),
                    forall|k: int| 0 <= k < places@.len() ==> #[trigger] places@[k] < i,
                    forall|k: int|
                        0 <= k < at ==> is_ahead(quotes@, #[trigger] places@[k] as int, i as int),
                decreases places@.len() - at,
            {
                at += 1;
            }
            let ghost before = places@;
            places.insert(at, i);
            proof {
                let after = places@;
                assert forall|k: int, l: int| 0 <= k < l < after.len() implies is_ahead(
                    quotes@,
                    #[trigger] after[k] as int,
                    #[trigger] after[l] as int,
                ) by {
                    if k == at {
                        assert(after[l] == before[l - 1]);
                        if l - 1 > at {
                            assert(is_ahead(quotes@, before[at as int] as int, before[l - 1] as int));
                        }
                    } else if l == at {
                        assert(after[k] == before[k]);
                    } else {
                        let k0 = if k < at { k } else { k - 1 };
                        let l0 = if l < at { l } else { l - 1 };
                        assert(after[k] == before[k0]);
                        assert(after[l] == before[l0]);
                    }
                }
                assert forall|m: int|
                    0 <= m < i + 1 && is_valid(
                        (#[trigger] quotes@[m]).1,
                        *max_gas,
                    ) implies after.contains(m as usize) by {
                    if m < i {
                        let k = choose|k: int| 0 <= k < before.len() && before[k] == m as usize;
                        if k < at {
                            assert(after[k] == m as usize);
                        } else {
                            assert(after[k + 1] == m as usize);
                        }
                    } else {
                        assert(after[at as int] == m as usize);
                    }
                }
            }
        }
        i += 1;
    }
    proof {
        let spots = places@.map_values(|p: usize| p as int);
        assert forall|m: int|
            0 <= m < quotes@.len() && is_valid(
                (#[trigger] quotes@[m]).1,
                *max_gas,
            ) implies spots.contains(m) by {
            let k = choose|k: int| 0 <= k < places@.len() && places@[k] == m as usize;
            assert(spots[k] == m);
        }
    }
    places
}

/// The status of an order that no pool answered.
fn status_of_failures(failed: &Vec<(String, SolveError)>) -> (r: QuoteStatus)
    ensures
        r == unanswered_status(failed@),
{
    if failed.len() == 0 {
        return QuoteStatus::NoRouteFound;
    }
    let mut timeouts: bool = true;
    let mut not_ready: bool = true;
    let mut i: usize = 0;
    while i < failed.len()
        invariant
            i <= failed@.len(),
            timeouts == all_timeouts(failed@.take(i as int)),
            not_ready == all_not_ready(failed@.take(i as int)),
        decreases failed@.len() - i,
    {
        let ghost done = failed@.take(i as int);
        let ghost next = failed@.take(i + 1);
        proof {
            assert forall|j: int| 0 <= j < done.len() implies done[j] == #[trigger] next[j] by {}
            assert forall|j: int| 0 <= j < done.len() implies next[j] == #[trigger] done[j] by {}
            assert(next[i as int] == failed@[i as int]);
        }
        timeouts = timeouts && matches!(failed[i].1, SolveError::Timeout { .. });
        not_ready = not_ready && matches!(failed[i].1, SolveError::NotReady(_));
        i += 1;
    }
    assert(failed@.take(i as int) == failed@);
    if timeouts {
        QuoteStatus::Timeout
    } else if not_ready {
        QuoteStatus::NotReady
    } else {
        QuoteStatus::NoRouteFound
    }
}

/// The stand-in for an order without a valid quote.
fn placeholder(responses: &OrderResponses, options: &QuoteOptions) -> (r: OrderQuote)
    ensures
        is_placeholder(*responses, *options, r),
{
    if responses.quotes.len() > 0 {
        let first: &OrderQuote = &responses.quotes[0].1;
        OrderQuote::new(
            responses.order_id.clone(),
            QuoteStatus::NoRouteFound,
            first.amount_in.clone(),
            Amount::zero(),
            Amount::zero(),
            Amount::zero(),
            first.block.clone(),
            String::new(),
            first.sender.clone(),
            first.receiver.clone(),
            first.solved_against.clone(),
        )
    } else {
        let label: String = match &options.state_label {
            Some(label) => label.clone(),
            None => "0".to_string(),
        };
        OrderQuote::new(
            responses.order_id.clone(),
            status_of_failures(&responses.failed_solvers),
            Amount::zero(),
            Amount::zero(),
            Amount::zero(),
            Amount::zero(),
            BlockInfo::new(0, String::new(), 0),
            String::new(),
            Bytes::new(Vec::new()),
            Bytes::new(Vec::new()),
            label,
        )
    }
}

/// The candidates for an order, best first. There is always at least one: where no quote is valid it
/// is a placeholder.
pub fn rank_quotes(responses: &OrderResponses, options: &QuoteOptions) -> (r: Vec<OrderQuote>)
    ensures
        is_ranked(*responses, *options, r@),
{
    let places: Vec<usize> = rank_places(&responses.quotes, &options.max_gas);
    let ghost spots = places@.map_values(|p: usize| p as int);
    if places.len() == 0 {
        proof {
            assert forall|i: int| 0 <= i < responses.quotes@.len() implies !is_valid(
                (#[trigger] responses.quotes@[i]).1,
                options.max_gas,
            ) by {
                if is_valid(responses.quotes@[i].1, options.max_gas) {
                    assert(spots.contains(i));
                }
            }
        }
        let mut only: Vec<OrderQuote> = Vec::new();
        only.push(placeholder(responses, options));
        return only;
    }
    let mut ranked: Vec<OrderQuote> = Vec::new();
    let mut k: usize = 0;
    while k < places.len()
        invariant
            k <= places@.len(),
            spots == places@.map_values(|p: usize| p as int),
            ranks(responses.quotes@, options.max_gas, spots),
            ranked@ == spots.take(k as int).map_values(|i: int| responses.quotes@[i].1),
        decreases places@.len() - k,
    {
        assert(0 <= spots[k as int] < responses.quotes@.len());
        ranked.push(responses.quotes[places[k]].1.clone());
        k += 1;
    }
    assert(spots.take(k as int) == spots);
    assert(ranks(responses.quotes@, options.max_gas, spots));
    ranked
}

/// The best quote comes first: it is valid, and no valid quote yields more net of gas. Where there is
/// none, the only candidate is not a success.
pub proof fn best_quote_comes_first(
    responses: OrderResponses,
    options: QuoteOptions,
    candidates: Seq<OrderQuote>,
)
    requires
        is_ranked(responses, options, candidates),
    ensures
        candidates.len() > 0,
        forall|i: int|
            0 <= i < responses.quotes@.len() && is_valid(
                (#[trigger] responses.quotes@[i]).1,
                options.max_gas,
            ) ==> {
                &&& is_valid(candidates[0], options.max_gas)
                &&& responses.quotes@[i].1.amount_out_net_gas@ <= candidates[0].amount_out_net_gas@
            },
        candidates[0].status == QuoteStatus::Success ==> exists|i: int|
            0 <= i < responses.quotes@.len() && (#[trigger] responses.quotes@[i]).1 == candidates[0],
{
    let quotes = responses.quotes@;
    if exists|places: Seq<int>| #[trigger]
        ranks(quotes, options.max_gas, places) && places.len() > 0 && candidates
            == places.map_values(|i: int| quotes[i].1) {
        let places = choose|places: Seq<int>| #[trigger]
            ranks(quotes, options.max_gas, places) && places.len() > 0 && candidates
                == places.map_values(|i: int| quotes[i].1);
        assert(0 <= places[0] < quotes.len());
        assert(quotes[places[0]].1 == candidates[0]);
        assert forall|i: int|
            0 <= i < quotes.len() && is_valid((#[trigger] quotes[i]).1, options.max_gas) implies {
            &&& is_valid(candidates[0], options.max_gas)
            &&& quotes[i].1.amount_out_net_gas@ <= candidates[0].amount_out_net_gas@
        } by {
            assert(places.contains(i));
            let k = choose|k: int| 0 <= k < places.len() && places[k] == i;
            if k > 0 {
                assert(is_ahead(quotes, places[0], places[k]));
            }
        }
    }
}

/// Candidates are ranked: none yields more net of gas than one before it.
pub proof fn candidates_descend(
    responses: OrderResponses,
    options: QuoteOptions,
    candidates: Seq<OrderQuote>,
    k: int,
    l: int,
)
    requires
        is_ranked(responses, options, candidates),
        0 <= k <= l < candidates.len(),
    ensures
        candidates[l].amount_out_net_gas@ <= candidates[k].amount_out_net_gas@,
{
    let quotes = responses.quotes@;
    if exists|places: Seq<int>| #[trigger]
        ranks(quotes, options.max_gas, places) && places.len() > 0 && candidates
            == places.map_values(|i: int| quotes[i].1) {
        let places = choose|places: Seq<int>| #[trigger]
            ranks(quotes, options.max_gas, places) && places.len() > 0 && candidates
                == places.map_values(|i: int| quotes[i].1);
        if k < l {
            assert(is_ahead(quotes, places[k], places[l]));
        }
    }
}

/// A quote may be returned exactly where it found a route and its gas is within the limit, if there is
/// one.
pub proof fn valid_quotes_keep_the_gas_limit(quote: OrderQuote, max_gas: Option<Amount>)
    ensures
        is_valid(quote, max_gas) <==> quote.status == QuoteStatus::Success && (max_gas is None
            || quote.gas_estimate@ <= max_gas->Some_0@),
{
}

/// Every successful quote within the gas limit is a candidate.
pub proof fn valid_quotes_are_candidates(
    responses: OrderResponses,
    options: QuoteOptions,
    candidates: Seq<OrderQuote>,
    i: int,
)
    requires
        is_ranked(responses, options, candidates),
        0 <= i < responses.quotes@.len(),
        responses.quotes@[i].1.status == QuoteStatus::Success,
        options.max_gas is None || responses.quotes@[i].1.gas_estimate@ <= options.max_gas->Some_0@,
    ensures
        candidates.contains(responses.quotes@[i].1),
{
    let quotes = responses.quotes@;
    assert(is_valid(quotes[i].1, options.max_gas));
    let places = choose|places: Seq<int>| #[trigger]
        ranks(quotes, options.max_gas, places) && places.len() > 0 && candidates
            == places.map_values(|i: int| quotes[i].1);
    assert(places.contains(i));
    let k = choose|k: int| 0 <= k < places.len() && places[k] == i;
    assert(candidates[k] == quotes[i].1);
}

/// Where any quote is successful and within the gas limit, every candidate is such a quote, and of two
/// candidates the one in front yields more net of gas, or as much and its quote came first.
pub proof fn candidates_are_ranked_net_of_gas(
    responses: OrderResponses,
    options: QuoteOptions,
    candidates: Seq<OrderQuote>,
    k: int,
    l: int,
)
    requires
        is_ranked(responses, options, candidates),
        exists|m: int|
            0 <= m < responses.quotes@.len() && (#[trigger] responses.quotes@[m]).1.status
                == QuoteStatus::Success && (options.max_gas is None
                || responses.quotes@[m].1.gas_estimate@ <= options.max_gas->Some_0@),
        0 <= k < l < candidates.len(),
    ensures
        exists|i: int, j: int|
            {
                &&& 0 <= i < responses.quotes@.len() && 0 <= j < responses.quotes@.len()
                &&& (#[trigger] responses.quotes@[i]).1 == candidates[k]
                &&& (#[trigger] responses.quotes@[j]).1 == candidates[l]
                &&& candidates[k].amount_out_net_gas@ > candidates[l].amount_out_net_gas@ || (
                candidates[k].amount_out_net_gas@ == candidates[l].amount_out_net_gas@ && i < j)
            },
        candidates[k].status == QuoteStatus::Success && candidates[l].status == QuoteStatus::Success,
        options.max_gas is Some ==> candidates[k].gas_estimate@ <= options.max_gas->Some_0@
            && candidates[l].gas_estimate@ <= options.max_gas->Some_0@,
{
    let quotes = responses.quotes@;
    let m = choose|m: int|
        0 <= m < quotes.len() && (#[trigger] quotes[m]).1.status == QuoteStatus::Success && (
        options.max_gas is None || quotes[m].1.gas_estimate@ <= options.max_gas->Some_0@);
    assert(is_valid(quotes[m].1, options.max_gas));
    let places = choose|places: Seq<int>| #[trigger]
        ranks(quotes, options.max_gas, places) && places.len() > 0 && candidates
            == places.map_values(|i: int| quotes[i].1);
    assert(is_ahead(quotes, places[k], places[l]));
    assert(quotes[places[k]].1 == candidates[k] && quotes[places[l]].1 == candidates[l]);
}

/// Where no quote is successful and within the gas limit there is one candidate, which offers nothing
/// under the order's id. Where some pool answered, no route was found in the block and for the parties
/// of the first answer; where none did, the failures tell why: all timeouts, all not ready, or else no
/// route.
pub proof fn orders_without_a_quote_get_a_placeholder(
    responses: OrderResponses,
    options: QuoteOptions,
    candidates: Seq<OrderQuote>,
)
    requires
        is_ranked(responses, options, candidates),
        forall|m: int|
            0 <= m < responses.quotes@.len() ==> !((#[trigger] responses.quotes@[m]).1.status
                == QuoteStatus::Success && (options.max_gas is None
                || responses.quotes@[m].1.gas_estimate@ <= options.max_gas->Some_0@)),
    ensures
        candidates.len() == 1,
        candidates[0].order_id == responses.order_id,
        candidates[0].amount_out@ == 0 && candidates[0].amount_out_net_gas@ == 0
            && candidates[0].gas_estimate@ == 0,
        candidates[0].route is None && candidates[0].transaction is None && candidates[0].surplus is None
            && candidates[0].fee_breakdown is None,
        responses.quotes@.len() > 0 ==> {
            let first = responses.quotes@[0].1;
            &&& candidates[0].status == QuoteStatus::NoRouteFound
            &&& candidates[0].amount_in == first.amount_in
            &&& candidates[0].block == first.block
            &&& candidates[0].sender == first.sender
            &&& candidates[0].receiver == first.receiver
            &&& candidates[0].solved_against == first.solved_against
        },
        responses.quotes@.len() == 0 ==> {
            let failed = responses.failed_solvers@;
            &&& candidates[0].status == QuoteStatus::Timeout <==> failed.len() > 0 && forall|i: int|
                0 <= i < failed.len() ==> (#[trigger] failed[i]).1 is Timeout
            &&& candidates[0].status == QuoteStatus::NotReady <==> failed.len() > 0 && forall|i: int|
                0 <= i < failed.len() ==> (#[trigger] failed[i]).1 is NotReady
            &&& candidates[0].status == QuoteStatus::Timeout || candidates[0].status
                == QuoteStatus::NotReady || candidates[0].status == QuoteStatus::NoRouteFound
            &&& candidates[0].amount_in@ == 0
            &&& options.state_label matches Some(label) ==> candidates[0].solved_against@ == label@
            &&& options.state_label is None ==> candidates[0].solved_against@ == "0"@
        },
{
    let quotes = responses.quotes@;
    assert forall|i: int| 0 <= i < quotes.len() implies !is_valid(
        (#[trigger] quotes[i]).1,
        options.max_gas,
    ) by {
        assert(!(quotes[i].1.status == QuoteStatus::Success && (options.max_gas is None
            || quotes[i].1.gas_estimate@ <= options.max_gas->Some_0@)));
    }
    if exists|places: Seq<int>| #[trigger]
        ranks(quotes, options.max_gas, places) && places.len() > 0 && candidates
            == places.map_values(|i: int| quotes[i].1) {
        let places = choose|places: Seq<int>| #[trigger]
            ranks(quotes, options.max_gas, places) && places.len() > 0 && candidates
                == places.map_values(|i: int| quotes[i].1);
        assert(0 <= places[0] < quotes.len());
        assert(is_valid(quotes[places[0]].1, options.max_gas));
    }
    let failed = responses.failed_solvers@;
    if failed.len() > 0 {
        assert(failed[0] == failed[0]);
        if all_timeouts(failed) {
            assert(failed[0].1 is Timeout);
        }
        if all_not_ready(failed) {
            assert(failed[0].1 is NotReady);
        }
    }
}

/// A pool of which nothing is known is public, and any other plays the role on record.
pub proof fn unknown_pools_are_public(pool_roles: Map<Seq<char>, PoolRole>, pool: Seq<char>)
    ensures
        role_of(pool_roles, pool) == PoolRole::All <==> pool_roles.dom().contains(pool)
            && pool_roles[pool] == PoolRole::All,
{
}

/// The stand-in for an order that no pool answered names no algorithm, no price, no block and no party;
/// one for an order with answers names no algorithm and no price.
pub proof fn placeholders_are_empty(
    responses: OrderResponses,
    options: QuoteOptions,
    quote: OrderQuote,
)
    requires
        is_placeholder(responses, options, quote),
    ensures
        quote.algorithm@.len() == 0 && quote.price_impact_bps is None && quote.gas_price is None,
        responses.quotes@.len() == 0 ==> quote.block.number == 0 && quote.block.timestamp == 0
            && quote.block.hash@.len() == 0 && quote.sender@.len() == 0 && quote.receiver@.len() == 0,
{
}

} // verus!
