//! Executing through permissioned pools for the benefit of the protocol.
//!
//! The user is committed to the best public output. Where a route through permissioned pools yields
//! more, the trade executes there and the protocol captures the difference.
use std::sync::Arc;

use vstd::prelude::*;

use crate::amount::Amount;
use crate::table::Table;
use crate::text::name_is_among;
use crate::types::options::QuoteOptions;
use crate::types::quote::{OrderQuote, QuoteStatus, SurplusInfo};
use crate::types::route::{ComponentId, Route, Swap};
use crate::worker_pool_router::ranking::{pool_role, quote_is_valid, OrderResponses, PoolRole};

verus! {

/// Whether a swap runs on one of the permissioned components.
pub open spec fn is_permissioned_leg(permissioned: Seq<ComponentId>, swap: Swap) -> bool {
    crate::text::is_named(permissioned, swap.protocol_component.id@)
}

/// Whether every path of a route has exactly one permissioned leg, at its end: the legs that yield
/// the route's output are permissioned, and no other.
pub open spec fn ends_permissioned(permissioned: Seq<ComponentId>, swaps: Seq<Swap>) -> bool {
    &&& swaps.len() > 0
    &&& forall|i: int|
        0 <= i < swaps.len() ==> is_permissioned_leg(permissioned, #[trigger] swaps[i]) == (
        swaps[i].token_out@ == swaps.last().token_out@)
}

/// Whether quote `i` can capture surplus.
pub open spec fn captures_surplus(
    responses: OrderResponses,
    pool_roles: Map<Seq<char>, PoolRole>,
    max_gas: Option<Amount>,
    permissioned: Seq<ComponentId>,
    i: int,
) -> bool {
    let (pool, quote) = responses.quotes@[i];
    &&& crate::worker_pool_router::ranking::role_of(pool_roles, pool@) == PoolRole::All
    &&& crate::worker_pool_router::ranking::is_valid(quote, max_gas)
    &&& quote.route matches Some(route) && ends_permissioned(permissioned, route.swaps@)
}

/// Whether quote `i` captures surplus and is preferred to all others that do.
pub open spec fn is_best_surplus(
    responses: OrderResponses,
    pool_roles: Map<Seq<char>, PoolRole>,
    max_gas: Option<Amount>,
    permissioned: Seq<ComponentId>,
    i: int,
) -> bool {
    &&& 0 <= i < responses.quotes@.len()
    &&& captures_surplus(responses, pool_roles, max_gas, permissioned, i)
    &&& forall|j: int|
        0 <= j < responses.quotes@.len() && j != i && #[trigger] captures_surplus(
            responses,
            pool_roles,
            max_gas,
            permissioned,
            j,
        ) ==> crate::worker_pool_router::ranking::is_ahead(responses.quotes@, i, j)
}

/// Whether a surplus quote beats the public reference: the reference is a quote, the surplus quote
/// yields more net of gas, and at least as much before gas.
pub open spec fn beats(surplus: OrderQuote, reference: OrderQuote) -> bool {
    &&& reference.status == QuoteStatus::Success
    &&& surplus.amount_out_net_gas@ > reference.amount_out_net_gas@
    &&& surplus.amount_out@ >= reference.amount_out@
    &&& surplus.amount_out@ > 0
}

/// What a leg is committed to: its output, reduced in the proportion in which the whole order is
/// reduced, rounded up in the user's favour.
pub open spec fn committed_share(leg: nat, committed: nat, realized: nat) -> nat {
    ((leg * committed + realized - 1) as nat) / realized
}

/// Whether a swap of the executed route is the swap of the surplus route, with its commitment where
/// it is a permissioned leg.
pub open spec fn is_committed_swap(
    permissioned: Seq<ComponentId>,
    committed: nat,
    realized: nat,
    before: Swap,
    after: Swap,
) -> bool {
    if is_permissioned_leg(permissioned, before) {
        &&& after == (Swap { committed_amount_out: after.committed_amount_out, ..before })
        &&& after.committed_amount_out matches Some(share) && share@ == committed_share(
            before.amount_out@,
            committed,
            realized,
        )
    } else {
        after == before
    }
}

/// Whether a quote executes a surplus quote while the user is quoted the public reference.
pub open spec fn is_executed(
    permissioned: Seq<ComponentId>,
    surplus: OrderQuote,
    reference: OrderQuote,
    quote: OrderQuote,
) -> bool {
    &&& quote == (OrderQuote {
        amount_out: reference.amount_out,
        route: quote.route,
        surplus: quote.surplus,
        ..surplus
    })
    &&& quote.surplus matches Some(info) && info.committed_amount_out == reference.amount_out
        && info.eg_amount@ == surplus.amount_out@ - reference.amount_out@
    &&& quote.route is Some
    &&& quote.route->Some_0.tokens == surplus.route->Some_0.tokens
    &&& quote.route->Some_0.swaps@.len() == surplus.route->Some_0.swaps@.len()
    &&& forall|k: int|
        0 <= k < surplus.route->Some_0.swaps@.len() ==> is_committed_swap(
            permissioned,
            reference.amount_out@,
            surplus.amount_out@,
            surplus.route->Some_0.swaps@[k],
            #[trigger] quote.route->Some_0.swaps@[k],
        )
}

/// The candidates for an order once surplus is considered: where the best quote that captures
/// surplus beats the public reference, it comes first and the public candidates stay behind it;
/// otherwise they stay alone.
pub open spec fn is_combined(
    responses: OrderResponses,
    pool_roles: Map<Seq<char>, PoolRole>,
    options: QuoteOptions,
    permissioned: Seq<ComponentId>,
    public_ranked: Seq<OrderQuote>,
    combined: Seq<OrderQuote>,
) -> bool {
    let quotes = responses.quotes@;
    if public_ranked.len() > 0 && exists|i: int| #[trigger]
        is_best_surplus(responses, pool_roles, options.max_gas, permissioned, i) && beats(
            quotes[i].1,
            public_ranked[0],
        ) {
        exists|i: int| #[trigger]
            is_best_surplus(responses, pool_roles, options.max_gas, permissioned, i) && beats(
                quotes[i].1,
                public_ranked[0],
            ) && combined.len() == public_ranked.len() + 1 && is_executed(
                permissioned,
                quotes[i].1,
                public_ranked[0],
                combined[0],
            ) && combined.skip(1) == public_ranked
    } else {
        combined == public_ranked
    }
}

fn leg_is_permissioned(permissioned: &Vec<ComponentId>, swap: &Swap) -> (r: bool)
    ensures
        r == is_permissioned_leg(permissioned@, *swap),
{
    name_is_among(permissioned, &swap.protocol_component.id)
}

fn route_ends_permissioned(permissioned: &Vec<ComponentId>, swaps: &Vec<Swap>) -> (r: bool)
    ensures
        r == ends_permissioned(permissioned@, swaps@),
{
    let n: usize = swaps.len();
    if n == 0 {
        return false;
    }
    let mut i: usize = 0;
    while i < n
        invariant
            n == swaps@.len(),
            n > 0,
            i <= n,
            forall|j: int|
                0 <= j < i ==> is_permissioned_leg(permissioned@, #[trigger] swaps@[j]) == (
                swaps@[j].token_out@ == swaps@.last().token_out@),
        decreases n - i,
    {
        let terminal: bool = swaps[i].token_out.same(&swaps[n - 1].token_out);
        if leg_is_permissioned(permissioned, &swaps[i]) != terminal {
            assert(is_permissioned_leg(permissioned@, swaps@[i as int]) != (
            swaps@[i as int].token_out@ == swaps@.last().token_out@));
            return false;
        }
        i += 1;
    }
    true
}

fn quote_captures_surplus(
    responses: &OrderResponses,
    pool_roles: &Table<String, PoolRole>,
    max_gas: &Option<Amount>,
    permissioned: &Vec<ComponentId>,
    i: usize,
) -> (r: bool)
    requires
        i < responses.quotes@.len(),
    ensures
        r == captures_surplus(*responses, pool_roles@, *max_gas, permissioned@, i as int),
{
    let pair: &(String, OrderQuote) = &responses.quotes[i];
    if pool_role(pool_roles, &pair.0) != PoolRole::All || !quote_is_valid(&pair.1, max_gas) {
        return false;
    }
    match &pair.1.route {
        Some(route) => route_ends_permissioned(permissioned, &route.swaps),
        None => false,
    }
}

/// The position of the best quote that captures surplus.
fn find_best_surplus(
    responses: &OrderResponses,
    pool_roles: &Table<String, PoolRole>,
    max_gas: &Option<Amount>,
    permissioned: &Vec<ComponentId>,
) -> (r: Option<usize>)
    ensures
        match r {
            Some(i) => is_best_surplus(
                *responses,
                pool_roles@,
                *max_gas,
                permissioned@,
                i as int,
            ),
            None => forall|j: int|
                0 <= j < responses.quotes@.len() ==> !#[trigger] captures_surplus(
                    *responses,
                    pool_roles@,
                    *max_gas,
                    permissioned@,
                    j,
                ),
        },
{
    let mut best: Option<usize> = None;
    let mut i: usize = 0;
    while i < responses.quotes.len()
        invariant
            i <= responses.quotes@.len(),
            match best {
                Some(b) => b < i && captures_surplus(
                    *responses,
                    pool_roles@,
                    *max_gas,
                    permissioned@,
                    b as int,
                ) && forall|j: int|
                    0 <= j < i && j != b && #[trigger] captures_surplus(
                        *responses,
                        pool_roles@,
                        *max_gas,
                        permissioned@,
                        j,
                    ) ==> crate::worker_pool_router::ranking::is_ahead(
                        responses.quotes@,
                        b as int,
                        j,
                    ),
                None => forall|j: int|
                    0 <= j < i ==> !#[trigger] captures_surplus(
                        *responses,
                        pool_roles@,
                        *max_gas,
                        permissioned@,
                        j,
                    ),
            },
        decreases responses.quotes@.len() - i,
    {
        if quote_captures_surplus(responses, pool_roles, max_gas, permissioned, i) {
            match best {
                Some(b) => {
                    if responses.quotes[b].1.amount_out_net_gas.less_than(
                        &responses.quotes[i].1.amount_out_net_gas,
                    ) {
                        best = Some(i);
                    }
                },
                None => {
                    best = Some(i);
                },
            }
        }
        i += 1;
    }
    best
}

/// What a leg is committed to.
fn share_of(leg: &Amount, committed: &Amount, realized: &Amount) -> (r: Amount)
    requires
        realized@ > 0,
    ensures
        r@ == committed_share(leg@, committed@, realized@),
{
    let one: Amount = Amount::from_u64(1);
    leg.times(committed).plus(realized).minus(&one).divided_by(realized)
}

/// The quote that executes a surplus quote while the user is quoted the public reference.
fn execute_surplus(
    permissioned: &Vec<ComponentId>,
    surplus: &OrderQuote,
    reference: &OrderQuote,
) -> (r: OrderQuote)
    requires
        beats(*surplus, *reference),
        surplus.route is Some,
    ensures
        is_executed(permissioned@, *surplus, *reference, r),
{
    let mut quote: OrderQuote = surplus.clone();
    match &surplus.route {
        Some(route) => {
            let mut legs: Vec<Swap> = Vec::new();
            let mut k: usize = 0;
            while k < route.swaps.len()
                invariant
                    k <= route.swaps@.len(),
                    legs@.len() == k,
                    surplus.amount_out@ > 0,
                    forall|j: int|
                        0 <= j < k ==> is_committed_swap(
                            permissioned@,
                            reference.amount_out@,
                            surplus.amount_out@,
                            route.swaps@[j],
                            #[trigger] legs@[j],
                        ),
                decreases route.swaps@.len() - k,
            {
                let mut leg: Swap = route.swaps[k].clone();
                if leg_is_permissioned(permissioned, &route.swaps[k]) {
                    leg.committed_amount_out = Some(
                        share_of(
                            &route.swaps[k].amount_out,
                            &reference.amount_out,
                            &surplus.amount_out,
                        ),
                    );
                }
                legs.push(leg);
                k += 1;
            }
            quote.route = Some(Route { swaps: Arc::new(legs), tokens: route.tokens.clone() });
        },
        None => {},
    }
    quote.surplus = Some(
        SurplusInfo::new(
            surplus.amount_out.minus(&reference.amount_out),
            reference.amount_out.clone(),
        ),
    );
    quote.amount_out = reference.amount_out.clone();
    quote
}

/// Overlays the surplus winner onto the ranked public candidates for one order.
///
/// `permissioned` lists the components that only this solver may route through. The user is never
/// quoted worse than the public market: the winner's output is pinned to the public reference.
pub fn combine_with_surplus(
    responses: &OrderResponses,
    pool_roles: &Table<String, PoolRole>,
    options: &QuoteOptions,
    permissioned: &Vec<ComponentId>,
    public_ranked: Vec<OrderQuote>,
) -> (r: Vec<OrderQuote>)
    ensures
        is_combined(
            *responses,
            pool_roles@,
            *options,
            permissioned@,
            public_ranked@,
            r@,
        ),
{
    if public_ranked.len() == 0 {
        return public_ranked;
    }
    let best: Option<usize> = find_best_surplus(
        responses,
        pool_roles,
        &options.max_gas,
        permissioned,
    );
    match best {
        None => {
            proof {
                assert forall|i: int| !#[trigger] is_best_surplus(
                    *responses,
                    pool_roles@,
                    options.max_gas,
                    permissioned@,
                    i,
                ) by {}
            }
            public_ranked
        },
        Some(i) => {
            let surplus: &OrderQuote = &responses.quotes[i].1;
            proof {
                assert forall|j: int| #[trigger]
                    is_best_surplus(
                        *responses,
                        pool_roles@,
                        options.max_gas,
                        permissioned@,
                        j,
                    ) implies j == i by {
                    if j != i {
                        assert(captures_surplus(
                            *responses,
                            pool_roles@,
                            options.max_gas,
                            permissioned@,
                            j,
                        ));
                        assert(captures_surplus(
                            *responses,
                            pool_roles@,
                            options.max_gas,
                            permissioned@,
                            i as int,
                        ));
                    }
                }
            }
            let reference: &OrderQuote = &public_ranked[0];
            let wins: bool = reference.status == QuoteStatus::Success
                && reference.amount_out_net_gas.less_than(&surplus.amount_out_net_gas)
                && reference.amount_out.at_most(&surplus.amount_out) && !surplus.amount_out.is_zero();
            if wins {
                let executed: OrderQuote = execute_surplus(permissioned, surplus, reference);
                let mut combined: Vec<OrderQuote> = public_ranked;
                combined.insert(0, executed);
                assert(combined@.skip(1) =~= public_ranked@);
                combined
            } else {
                public_ranked
            }
        },
    }
}

/// However surplus is considered, the user is quoted exactly the output that the public market
/// offers, and the public candidates stay available in their order.
pub proof fn user_is_never_quoted_worse(
    responses: OrderResponses,
    pool_roles: Map<Seq<char>, PoolRole>,
    options: QuoteOptions,
    permissioned: Seq<ComponentId>,
    public_ranked: Seq<OrderQuote>,
    combined: Seq<OrderQuote>,
)
    requires
        is_combined(responses, pool_roles, options, permissioned, public_ranked, combined),
        public_ranked.len() > 0,
    ensures
        combined.len() > 0,
        combined[0].amount_out == public_ranked[0].amount_out,
        combined.skip(combined.len() - public_ranked.len()) == public_ranked,
        combined[0] != public_ranked[0] ==> combined[0].amount_out_net_gas@
            > public_ranked[0].amount_out_net_gas@ && combined[0].surplus is Some,
{
    assert(public_ranked.skip(0) =~= public_ranked);
}

/// A leg is never committed to more than it yields.
pub proof fn leg_keeps_surplus(leg: nat, committed: nat, realized: nat)
    requires
        committed <= realized,
        realized > 0,
    ensures
        committed_share(leg, committed, realized) <= leg,
        committed_share(leg, committed, realized) * realized >= leg * committed,
{
    let total = leg * committed;
    let share = committed_share(leg, committed, realized);
    let numerator = (total + realized - 1) as nat;
    vstd::arithmetic::div_mod::lemma_fundamental_div_mod(numerator as int, realized as int);
    vstd::arithmetic::div_mod::lemma_mod_bound(numerator as int, realized as int);
    assert(leg * committed <= leg * realized) by (nonlinear_arith)
        requires
            committed <= realized,
    ;
    let rest = numerator % realized;
    assert(share * realized >= total) by (nonlinear_arith)
        requires
            numerator == realized * share + rest,
            rest < realized,
            numerator == total + realized - 1,
    ;
    assert(share <= leg) by (nonlinear_arith)
        requires
            realized * share <= total + realized - 1,
            total <= leg * realized,
            realized > 0,
    ;
}

/// The outputs of the permissioned legs of a route, added up.
pub open spec fn permissioned_output(permissioned: Seq<ComponentId>, swaps: Seq<Swap>) -> nat
    decreases swaps.len(),
{
    if swaps.len() == 0 {
        0
    } else {
        permissioned_output(permissioned, swaps.drop_last()) + if is_permissioned_leg(
            permissioned,
            swaps.last(),
        ) {
            swaps.last().amount_out@
        } else {
            0
        }
    }
}

/// What the permissioned legs of a route are committed to, added up.
pub open spec fn permissioned_commitment(permissioned: Seq<ComponentId>, swaps: Seq<Swap>) -> nat
    decreases swaps.len(),
{
    if swaps.len() == 0 {
        0
    } else {
        permissioned_commitment(permissioned, swaps.drop_last()) + match swaps.last().committed_amount_out {
            Some(share) if is_permissioned_leg(permissioned, swaps.last()) => share@,
            _ => 0,
        }
    }
}

/// The commitments of the legs cover the output that the user is committed to: where the permissioned
/// legs yield the realized output between them, their commitments add up to at least the committed
/// one.
pub proof fn commitments_cover_the_user(
    permissioned: Seq<ComponentId>,
    surplus: OrderQuote,
    reference: OrderQuote,
    quote: OrderQuote,
)
    requires
        beats(surplus, reference),
        surplus.route is Some,
        is_executed(permissioned, surplus, reference, quote),
        permissioned_output(permissioned, surplus.route->Some_0.swaps@) == surplus.amount_out@,
    ensures
        permissioned_commitment(permissioned, quote.route->Some_0.swaps@) >= reference.amount_out@,
{
    let realized = surplus.amount_out@;
    let committed = reference.amount_out@;
    let before = surplus.route->Some_0.swaps@;
    let after = quote.route->Some_0.swaps@;
    commitments_cover(permissioned, committed, realized, before, after);
    let sum = permissioned_commitment(permissioned, after);
    assert(sum >= committed) by (nonlinear_arith)
        requires
            sum * realized >= realized * committed,
            realized > 0,
    ;
}

proof fn commitments_cover(
    permissioned: Seq<ComponentId>,
    committed: nat,
    realized: nat,
    before: Seq<Swap>,
    after: Seq<Swap>,
)
    requires
        committed <= realized,
        realized > 0,
        before.len() == after.len(),
        forall|k: int|
            0 <= k < before.len() ==> is_committed_swap(
                permissioned,
                committed,
                realized,
                before[k],
                #[trigger] after[k],
            ),
    ensures
        permissioned_commitment(permissioned, after) * realized >= permissioned_output(
            permissioned,
            before,
        ) * committed,
    decreases before.len(),
{
    if before.len() > 0 {
        let b = before.drop_last();
        let a = after.drop_last();
        let leg = before.last();
        assert forall|k: int| 0 <= k < b.len() implies is_committed_swap(
            permissioned,
            committed,
            realized,
            b[k],
            #[trigger] a[k],
        ) by {
            assert(a[k] == after[k]);
        }
        commitments_cover(permissioned, committed, realized, b, a);
        assert(is_committed_swap(permissioned, committed, realized, leg, after[after.len() - 1]));
        let out = permissioned_output(permissioned, b);
        let promised = permissioned_commitment(permissioned, a);
        if is_permissioned_leg(permissioned, leg) {
            leg_keeps_surplus(leg.amount_out@, committed, realized);
            let share = committed_share(leg.amount_out@, committed, realized);
            let yielded = leg.amount_out@;
            assert((promised + share) * realized >= (out + yielded) * committed)
                by (nonlinear_arith)
                requires
                    promised * realized >= out * committed,
                    share * realized >= yielded * committed,
            ;
            assert(permissioned_commitment(permissioned, after) == promised + share);
            assert(permissioned_output(permissioned, before) == out + yielded);
        } else {
            assert(permissioned_commitment(permissioned, after) == promised);
            assert(permissioned_output(permissioned, before) == out);
        }
    } else {
        assert(0 * realized >= 0 * committed) by (nonlinear_arith);
    }
}

/// A quote that captures surplus: a pool for all liquidity has found it within the gas limit, and the
/// legs of its route that yield its last token, and no others, run on permissioned components.
pub open spec fn may_capture(
    responses: OrderResponses,
    pool_roles: Map<Seq<char>, PoolRole>,
    options: QuoteOptions,
    permissioned: Seq<ComponentId>,
    i: int,
) -> bool {
    let pool = responses.quotes@[i].0@;
    let quote = responses.quotes@[i].1;
    &&& 0 <= i < responses.quotes@.len()
    &&& pool_roles.dom().contains(pool) && pool_roles[pool] == PoolRole::All
    &&& quote.status == QuoteStatus::Success
    &&& options.max_gas is None || quote.gas_estimate@ <= options.max_gas->Some_0@
    &&& quote.route is Some
    &&& quote.route->Some_0.swaps@.len() > 0
    &&& only_ends_are_permissioned(quote.route->Some_0.swaps@, permissioned)
}

/// Whether the swaps that yield the last token, and no others, run on permissioned components.
pub open spec fn only_ends_are_permissioned(swaps: Seq<Swap>, permissioned: Seq<ComponentId>) -> bool {
    forall|k: int|
        0 <= k < swaps.len() ==> ((exists|m: int|
            0 <= m < permissioned.len() && (#[trigger] permissioned[m])@
                == swaps[k].protocol_component.id@) <==> (#[trigger] swaps[k]).token_out@
            == swaps.last().token_out@)
}

proof fn capturing_is_judged_directly(
    responses: OrderResponses,
    pool_roles: Map<Seq<char>, PoolRole>,
    options: QuoteOptions,
    permissioned: Seq<ComponentId>,
    i: int,
)
    requires
        0 <= i < responses.quotes@.len(),
    ensures
        captures_surplus(responses, pool_roles, options.max_gas, permissioned, i) <==> may_capture(
            responses,
            pool_roles,
            options,
            permissioned,
            i,
        ),
{
    let quote = responses.quotes@[i].1;
    crate::worker_pool_router::ranking::valid_quotes_keep_the_gas_limit(quote, options.max_gas);
    crate::worker_pool_router::ranking::unknown_pools_are_public(
        pool_roles,
        responses.quotes@[i].0@,
    );
    if quote.route is Some {
        let swaps = quote.route->Some_0.swaps@;
        assert forall|k: int| 0 <= k < swaps.len() implies (is_permissioned_leg(
            permissioned,
            #[trigger] swaps[k],
        ) <==> exists|m: int|
            0 <= m < permissioned.len() && (#[trigger] permissioned[m])@
                == swaps[k].protocol_component.id@) by {
            if is_permissioned_leg(permissioned, swaps[k]) {
                let m = choose|m: int|
                    0 <= m < permissioned.len() && #[trigger] permissioned[m]@
                        == swaps[k].protocol_component.id@;
                assert(permissioned[m]@ == swaps[k].protocol_component.id@);
            }
        }
    }
}

/// Surplus is captured only by a quote that may capture it, that yields more than the public reference
/// net of gas and at least as much before, and that no other such quote is preferred to; and only where
/// the public reference is a quote.
pub proof fn only_better_quotes_capture_surplus(
    responses: OrderResponses,
    pool_roles: Map<Seq<char>, PoolRole>,
    options: QuoteOptions,
    permissioned: Seq<ComponentId>,
    public_ranked: Seq<OrderQuote>,
    combined: Seq<OrderQuote>,
)
    requires
        is_combined(responses, pool_roles, options, permissioned, public_ranked, combined),
        combined != public_ranked,
    ensures
        public_ranked.len() > 0,
        public_ranked[0].status == QuoteStatus::Success,
        combined.len() == public_ranked.len() + 1,
        combined.skip(1) == public_ranked,
        exists|i: int|
            {
                let quote = responses.quotes@[i].1;
                &&& #[trigger] may_capture(responses, pool_roles, options, permissioned, i)
                &&& quote.amount_out_net_gas@ > public_ranked[0].amount_out_net_gas@
                &&& quote.amount_out@ >= public_ranked[0].amount_out@
                &&& combined[0].order_id == quote.order_id
                &&& combined[0].amount_in == quote.amount_in
                &&& combined[0].amount_out == public_ranked[0].amount_out
                &&& combined[0].amount_out_net_gas == quote.amount_out_net_gas
                &&& combined[0].gas_estimate == quote.gas_estimate
                &&& combined[0].status == QuoteStatus::Success
                &&& combined[0].sender == quote.sender
                &&& combined[0].receiver == quote.receiver
                &&& combined[0].surplus matches Some(info)
                &&& info.committed_amount_out == public_ranked[0].amount_out
                &&& info.eg_amount@ == quote.amount_out@ - public_ranked[0].amount_out@
            },
{
    let i = choose|i: int| #[trigger]
        is_best_surplus(responses, pool_roles, options.max_gas, permissioned, i) && beats(
            responses.quotes@[i].1,
            public_ranked[0],
        ) && combined.len() == public_ranked.len() + 1 && is_executed(
            permissioned,
            responses.quotes@[i].1,
            public_ranked[0],
            combined[0],
        ) && combined.skip(1) == public_ranked;
    capturing_is_judged_directly(responses, pool_roles, options, permissioned, i);
    assert(may_capture(responses, pool_roles, options, permissioned, i));
}

/// Surplus is captured wherever the best quote that may capture it, which yields most net of gas and
/// came first of those that yield as much, yields more than a public reference net of gas and something,
/// and no less, before.
pub proof fn better_quotes_capture_surplus(
    responses: OrderResponses,
    pool_roles: Map<Seq<char>, PoolRole>,
    options: QuoteOptions,
    permissioned: Seq<ComponentId>,
    public_ranked: Seq<OrderQuote>,
    combined: Seq<OrderQuote>,
    i: int,
)
    requires
        is_combined(responses, pool_roles, options, permissioned, public_ranked, combined),
        public_ranked.len() > 0,
        public_ranked[0].status == QuoteStatus::Success,
        may_capture(responses, pool_roles, options, permissioned, i),
        forall|j: int| #[trigger]
            may_capture(responses, pool_roles, options, permissioned, j) && j != i
                ==> responses.quotes@[j].1.amount_out_net_gas@
                < responses.quotes@[i].1.amount_out_net_gas@ || (
            responses.quotes@[j].1.amount_out_net_gas@ == responses.quotes@[i].1.amount_out_net_gas@
                && i < j),
        responses.quotes@[i].1.amount_out_net_gas@ > public_ranked[0].amount_out_net_gas@,
        responses.quotes@[i].1.amount_out@ >= public_ranked[0].amount_out@,
        responses.quotes@[i].1.amount_out@ > 0,
    ensures
        combined.len() == public_ranked.len() + 1,
        combined[0].surplus is Some,
        combined[0].amount_out_net_gas == responses.quotes@[i].1.amount_out_net_gas,
{
    capturing_is_judged_directly(responses, pool_roles, options, permissioned, i);
    assert forall|j: int|
        0 <= j < responses.quotes@.len() && j != i && #[trigger] captures_surplus(
            responses,
            pool_roles,
            options.max_gas,
            permissioned,
            j,
        ) implies crate::worker_pool_router::ranking::is_ahead(responses.quotes@, i, j) by {
        capturing_is_judged_directly(responses, pool_roles, options, permissioned, j);
        assert(may_capture(responses, pool_roles, options, permissioned, j));
    }
    assert(is_best_surplus(responses, pool_roles, options.max_gas, permissioned, i));
    assert(beats(responses.quotes@[i].1, public_ranked[0]));
    let k = choose|k: int| #[trigger]
        is_best_surplus(responses, pool_roles, options.max_gas, permissioned, k) && beats(
            responses.quotes@[k].1,
            public_ranked[0],
        ) && combined.len() == public_ranked.len() + 1 && is_executed(
            permissioned,
            responses.quotes@[k].1,
            public_ranked[0],
            combined[0],
        ) && combined.skip(1) == public_ranked;
    if k != i {
        capturing_is_judged_directly(responses, pool_roles, options, permissioned, k);
        assert(may_capture(responses, pool_roles, options, permissioned, k));
        assert(crate::worker_pool_router::ranking::is_ahead(responses.quotes@, k, i));
    }
}

/// The legs of an executed quote are those of the surplus route. A leg on a permissioned component is
/// committed to its output in the proportion of the committed output to the realized one, rounded up;
/// any other is as it was.
pub proof fn legs_are_committed_in_proportion(
    permissioned: Seq<ComponentId>,
    surplus: OrderQuote,
    reference: OrderQuote,
    quote: OrderQuote,
    k: int,
)
    requires
        is_executed(permissioned, surplus, reference, quote),
        surplus.route is Some,
        surplus.amount_out@ > 0,
        0 <= k < surplus.route->Some_0.swaps@.len(),
    ensures
        quote.route is Some,
        quote.route->Some_0.swaps@.len() == surplus.route->Some_0.swaps@.len(),
        ({
            let before = surplus.route->Some_0.swaps@[k];
            let after = quote.route->Some_0.swaps@[k];
            let realized = surplus.amount_out@;
            let committed = reference.amount_out@;
            if exists|m: int|
                0 <= m < permissioned.len() && (#[trigger] permissioned[m])@
                    == before.protocol_component.id@ {
                &&& after.component_id == before.component_id
                &&& after.token_in == before.token_in && after.token_out == before.token_out
                &&& after.amount_in == before.amount_in && after.amount_out == before.amount_out
                &&& after.split == before.split
                &&& after.committed_amount_out matches Some(share)
                &&& share@ * realized >= before.amount_out@ * committed
                &&& (share@ - 1) * realized < before.amount_out@ * committed || share@ == 0
            } else {
                after == before
            }
        }),
{
    let before = surplus.route->Some_0.swaps@[k];
    let after = quote.route->Some_0.swaps@[k];
    let realized = surplus.amount_out@;
    let committed = reference.amount_out@;
    assert(is_committed_swap(permissioned, committed, realized, before, after));
    if exists|m: int|
        0 <= m < permissioned.len() && (#[trigger] permissioned[m])@
            == before.protocol_component.id@ {
        let m = choose|m: int|
            0 <= m < permissioned.len() && (#[trigger] permissioned[m])@
                == before.protocol_component.id@;
        assert(permissioned[m]@ == before.protocol_component.id@);
        assert(is_permissioned_leg(permissioned, before));
        let share = after.committed_amount_out->Some_0@ as int;
        let total = before.amount_out@ * committed;
        let numerator = total + realized - 1;
        let rest = numerator % realized as int;
        vstd::arithmetic::div_mod::lemma_fundamental_div_mod(numerator, realized as int);
        assert(share * realized >= total && (share - 1) * realized < total) by (nonlinear_arith)
            requires
                numerator == realized * share + rest,
                0 <= rest < realized,
                numerator == total + realized - 1,
        ;
    } else if is_permissioned_leg(permissioned, before) {
        let m = choose|m: int|
            0 <= m < permissioned.len() && #[trigger] permissioned[m]@
                == before.protocol_component.id@;
        assert(permissioned[m]@ == before.protocol_component.id@);
    }
}

} // verus!
