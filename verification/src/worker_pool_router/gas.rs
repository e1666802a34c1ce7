//! Better gas estimates, before quotes of different pools are compared.
use vstd::prelude::*;

use crate::amount::Amount;
use crate::encoding::solution::Solution;
use crate::error::SolveError;
use crate::types::options::EncodingOptions;
use crate::types::quote::{OrderQuote, QuoteStatus};
use crate::worker_pool_router::ranking::{copy_failures, OrderResponses};

verus! {

/// How the swaps of a solution hang together.
#[derive(Debug, Clone, Copy, PartialEq, Eq, Structural)]
pub enum Strategy {
    Single,
    Sequential,
    Split,
}

/// How the swaps of a quote hang together.
pub open spec fn strategy_of(quote: OrderQuote) -> Strategy {
    match quote.route {
        None => Strategy::Single,
        Some(route) => if route.swaps@.len() == 1 {
            Strategy::Single
        } else if crate::types::route::takes_shares(route.swaps@) {
            Strategy::Split
        } else {
            Strategy::Sequential
        },
    }
}

/// How the swaps of a quote hang together.
pub fn derive_strategy(quote: &OrderQuote) -> (r: Strategy)
    ensures
        r == strategy_of(*quote),
{
    match &quote.route {
        None => Strategy::Single,
        Some(route) => if route.swaps.len() == 1 {
            Strategy::Single
        } else if route.is_split() {
            Strategy::Split
        } else {
            Strategy::Sequential
        },
    }
}

/// The cost of gas in output tokens, for another amount of gas at the same price.
pub open spec fn rescaled_cost(amount_out: nat, net: nat, naive_gas: nat, refined_gas: nat) -> nat {
    ((amount_out - net) as nat) * refined_gas / naive_gas
}

/// The output net of gas, for another amount of gas at the same price; nothing where gas costs more
/// than the output.
pub open spec fn rescaled_net(amount_out: nat, net: nat, naive_gas: nat, refined_gas: nat) -> nat {
    let cost = rescaled_cost(amount_out, net, naive_gas, refined_gas);
    if cost <= amount_out {
        (amount_out - cost) as nat
    } else {
        0
    }
}

/// Whether the gas estimate of a quote is refined: it found a route, and its own estimate is there to
/// scale from.
pub open spec fn is_refined(quote: OrderQuote) -> bool {
    quote.status == QuoteStatus::Success && quote.gas_estimate@ > 0
}

/// Whether `after` is `before` with a refined gas estimate.
pub open spec fn is_refinement(before: OrderQuote, refined_gas: Amount, after: OrderQuote) -> bool {
    if is_refined(before) {
        &&& after == (OrderQuote {
            amount_out_net_gas: after.amount_out_net_gas,
            gas_estimate: refined_gas,
            ..before
        })
        &&& after.amount_out_net_gas@ == rescaled_net(
            before.amount_out@,
            before.amount_out_net_gas@,
            before.gas_estimate@,
            refined_gas@,
        )
    } else {
        after == before
    }
}

/// Gas was paid out of the output.
pub open spec fn gas_was_paid(quote: OrderQuote) -> bool {
    is_refined(quote) ==> quote.amount_out_net_gas@ <= quote.amount_out@
}

/// Replaces the gas estimate of a quote and rescales its output net of gas in proportion.
pub fn refine_quote(quote: &OrderQuote, refined_gas: &Amount) -> (r: OrderQuote)
    requires
        gas_was_paid(*quote),
    ensures
        is_refinement(*quote, *refined_gas, r),
{
    let mut refined: OrderQuote = quote.clone();
    if quote.status == QuoteStatus::Success && !quote.gas_estimate.is_zero() {
        let cost: Amount = quote.amount_out.minus(&quote.amount_out_net_gas).times(
            refined_gas,
        ).divided_by(&quote.gas_estimate);
        let net: Amount = if cost.at_most(&quote.amount_out) {
            quote.amount_out.minus(&cost)
        } else {
            Amount::zero()
        };
        refined.set_amount_out_net_gas(net);
        refined.set_gas_estimate(refined_gas.clone());
    }
    refined
}

/// Refines the gas estimates of the quotes for one order, given an estimate for each.
pub fn refine_responses(responses: &OrderResponses, estimates: &Vec<Amount>) -> (r: OrderResponses)
    requires
        estimates@.len() == responses.quotes@.len(),
        forall|i: int| 0 <= i < responses.quotes@.len() ==> gas_was_paid(
            (#[trigger] responses.quotes@[i]).1,
        ),
    ensures
        r.order_id == responses.order_id,
        r.failed_solvers@ == responses.failed_solvers@,
        r.quotes@.len() == responses.quotes@.len(),
        forall|i: int|
            0 <= i < responses.quotes@.len() ==> (#[trigger] r.quotes@[i]).0
                == responses.quotes@[i].0 && is_refinement(
                responses.quotes@[i].1,
                estimates@[i],
                r.quotes@[i].1,
            ),
{
    let mut quotes: Vec<(String, OrderQuote)> = Vec::new();
    let mut i: usize = 0;
    while i < responses.quotes.len()
        invariant
            i <= responses.quotes@.len(),
            quotes@.len() == i,
            estimates@.len() == responses.quotes@.len(),
            forall|j: int| 0 <= j < responses.quotes@.len() ==> gas_was_paid(
                (#[trigger] responses.quotes@[j]).1,
            ),
            forall|j: int|
                0 <= j < i ==> (#[trigger] quotes@[j]).0 == responses.quotes@[j].0
                    && is_refinement(responses.quotes@[j].1, estimates@[j], quotes@[j].1),
        decreases responses.quotes@.len() - i,
    {
        let pair: &(String, OrderQuote) = &responses.quotes[i];
        assert(gas_was_paid(responses.quotes@[i as int].1));
        quotes.push((pair.0.clone(), refine_quote(&pair.1, &estimates[i])));
        i += 1;
    }
    let failed_solvers: Vec<(String, SolveError)> = copy_failures(&responses.failed_solvers);
    OrderResponses { order_id: responses.order_id.clone(), quotes, failed_solvers }
}

/// What an estimator is asked about a quote.
#[derive(Debug)]
pub struct EstimateRequest {
    /// The position of the quote among those of its order.
    pub quote: usize,
    pub solution: Solution,
    pub strategy: Strategy,
}

/// Why quote `i` cannot be estimated.
pub open spec fn estimate_fault(quotes: Seq<(String, OrderQuote)>, i: int) -> Option<Seq<char>> {
    if quotes[i].1.status == QuoteStatus::Success {
        crate::encoding::solution::solution_fault(quotes[i].1)
    } else {
        None
    }
}

/// Whether a request is that of a quote.
pub open spec fn is_request(
    quotes: Seq<(String, OrderQuote)>,
    options: EncodingOptions,
    request: EstimateRequest,
) -> bool {
    let quote = quotes[request.quote as int].1;
    &&& request.quote < quotes.len()
    &&& quote.status == QuoteStatus::Success
    &&& quote.route is Some
    &&& request.strategy == strategy_of(quote)
    &&& request.solution.user_transfer_type == options.transfer_type
    &&& crate::encoding::solution::is_solution(
        quote,
        quote.route->Some_0,
        (Solution {
            user_transfer_type: crate::types::options::UserTransferType::TransferFrom,
            ..request.solution
        }),
    )
}

/// Whether every successful quote for an order can be estimated.
pub open spec fn can_estimate(responses: OrderResponses) -> bool {
    forall|i: int|
        0 <= i < responses.quotes@.len() ==> #[trigger] estimate_fault(responses.quotes@, i) is None
}

/// Whether a result is that of listing what an estimator is to be asked: a request for each successful
/// quote, or the first fault.
pub open spec fn are_requested(
    responses: OrderResponses,
    options: EncodingOptions,
    r: Result<Vec<EstimateRequest>, SolveError>,
) -> bool {
    let quotes = responses.quotes@;
    match r {
        Ok(requests) => {
            &&& forall|k: int|
                0 <= k < requests@.len() ==> is_request(quotes, options, #[trigger] requests@[k])
            &&& forall|k: int, l: int|
                0 <= k < l < requests@.len() ==> (#[trigger] requests@[k]).quote < (
                #[trigger] requests@[l]).quote
            &&& forall|i: int|
                0 <= i < quotes.len() && (#[trigger] quotes[i]).1.status == QuoteStatus::Success
                    ==> exists|k: int|
                    0 <= k < requests@.len() && (#[trigger] requests@[k]).quote == i
            &&& can_estimate(responses)
        },
        Err(error) => exists|i: int|
            0 <= i < quotes.len() && (forall|j: int|
                0 <= j < i ==> #[trigger] estimate_fault(quotes, j) is None) && (
            #[trigger] estimate_fault(quotes, i) matches Some(text) && error
                matches SolveError::FailedEncoding(t) && t@ == text),
    }
}

/// Lists what an estimator is to be asked about the quotes for one order: the successful ones. The
/// estimator itself is in the `evm` feature of `tycho-execution`, whose dependencies are too many to be
/// built with this library.
pub fn estimate_requests(
    responses: &OrderResponses,
    encoding_options: &EncodingOptions,
) -> (r: Result<Vec<EstimateRequest>, SolveError>)
    ensures
        are_requested(*responses, *encoding_options, r),
{
    let mut requests: Vec<EstimateRequest> = Vec::new();
    let mut i: usize = 0;
    while i < responses.quotes.len()
        invariant
            i <= responses.quotes@.len(),
            forall|k: int|
                0 <= k < requests@.len() ==> is_request(
                    responses.quotes@,
                    *encoding_options,
                    #[trigger] requests@[k],
                ) && requests@[k].quote < i,
            forall|k: int, l: int|
                0 <= k < l < requests@.len() ==> (#[trigger] requests@[k]).quote < (
                #[trigger] requests@[l]).quote,
            forall|m: int|
                0 <= m < i && (#[trigger] responses.quotes@[m]).1.status == QuoteStatus::Success
                    ==> exists|k: int|
                    0 <= k < requests@.len() && (#[trigger] requests@[k]).quote == m,
            forall|j: int| 0 <= j < i ==> #[trigger] estimate_fault(responses.quotes@, j) is None,
        decreases responses.quotes@.len() - i,
    {
        let quote: &OrderQuote = &responses.quotes[i].1;
        if quote.status == QuoteStatus::Success {
            let ghost before = requests@;
            match Solution::try_from(quote) {
                Ok(solution) => {
                    requests.push(
                        EstimateRequest {
                            quote: i,
                            solution: solution.with_user_transfer_type(
                                encoding_options.transfer_type,
                            ),
                            strategy: derive_strategy(quote),
                        },
                    );
                    proof {
                        assert(estimate_fault(responses.quotes@, i as int) is None);
                        assert((Solution {
                            user_transfer_type:
                                crate::types::options::UserTransferType::TransferFrom,
                            ..requests@[before.len() as int].solution
                        }) == solution);
                        assert forall|m: int|
                            0 <= m < i + 1 && (#[trigger] responses.quotes@[m]).1.status
                                == QuoteStatus::Success implies exists|k: int|
                            0 <= k < requests@.len() && (#[trigger] requests@[k]).quote == m by {
                            if m < i {
                                let k = choose|k: int|
                                    0 <= k < before.len() && (#[trigger] before[k]).quote == m;
                                assert(requests@[k].quote == m);
                            } else {
                                assert(requests@[before.len() as int].quote == m);
                            }
                        }
                    }
                },
                Err(error) => {
                    assert(estimate_fault(responses.quotes@, i as int) is Some);
                    return Err(error);
                },
            }
        }
        i += 1;
    }
    Ok(requests)
}

/// A refined output net of gas is never more than the output, and with the gas that was estimated
/// before it stays what it was.
pub proof fn refinement_is_sound(amount_out: nat, net: nat, naive_gas: nat, refined_gas: nat)
    requires
        net <= amount_out,
        naive_gas > 0,
    ensures
        rescaled_net(amount_out, net, naive_gas, refined_gas) <= amount_out,
        refined_gas == naive_gas ==> rescaled_net(amount_out, net, naive_gas, refined_gas) == net,
        refined_gas <= naive_gas ==> rescaled_net(amount_out, net, naive_gas, refined_gas) >= net,
{
    let cost = (amount_out - net) as nat;
    vstd::arithmetic::div_mod::lemma_div_multiples_vanish(cost as int, naive_gas as int);
    vstd::arithmetic::mul::lemma_mul_is_commutative(cost as int, naive_gas as int);
    if refined_gas <= naive_gas {
        vstd::arithmetic::mul::lemma_mul_inequality(
            refined_gas as int,
            naive_gas as int,
            cost as int,
        );
        vstd::arithmetic::mul::lemma_mul_is_commutative(cost as int, refined_gas as int);
        vstd::arithmetic::div_mod::lemma_div_is_ordered(
            (cost * refined_gas) as int,
            (cost * naive_gas) as int,
            naive_gas as int,
        );
    }
}

/// Refining a quote scales what its gas costs in proportion to the gas, rounded down: with half the gas
/// it costs half, with twice the gas twice as much, and where gas costs at least the whole output nothing
/// is left. Only the gas and the output net of gas change.
pub proof fn refined_cost_is_in_proportion(
    before: OrderQuote,
    refined_gas: Amount,
    after: OrderQuote,
)
    requires
        before.status == QuoteStatus::Success,
        before.gas_estimate@ > 0,
        before.amount_out_net_gas@ <= before.amount_out@,
        is_refinement(before, refined_gas, after),
    ensures
        ({
            let output = before.amount_out@;
            let naive_gas = before.gas_estimate@;
            let paid = output - before.amount_out_net_gas@;
            let cost = output - after.amount_out_net_gas@;
            &&& cost >= 0
            &&& after.amount_out_net_gas@ > 0 ==> cost * naive_gas <= paid * refined_gas@ < (cost + 1)
                * naive_gas
            &&& after.amount_out_net_gas@ == 0 ==> output * naive_gas <= paid * refined_gas@
        }),
        after.gas_estimate@ == refined_gas@,
        after.order_id == before.order_id,
        after.status == QuoteStatus::Success,
        after.route == before.route,
        after.amount_in == before.amount_in,
        after.amount_out == before.amount_out,
        after.block == before.block,
        after.sender == before.sender,
        after.receiver == before.receiver,
        after.surplus == before.surplus,
        after.solved_against == before.solved_against,
{
    let output = before.amount_out@ as int;
    let naive = before.gas_estimate@ as int;
    let paid = output - before.amount_out_net_gas@;
    let work = paid * refined_gas@;
    let cost = work / naive;
    assert(work >= 0) by (nonlinear_arith)
        requires
            work == paid * refined_gas@,
            paid >= 0,
            refined_gas@ >= 0,
    ;
    vstd::arithmetic::div_mod::lemma_fundamental_div_mod(work, naive);
    vstd::arithmetic::div_mod::lemma_div_pos_is_pos(work, naive);
    assert(cost * naive <= work < (cost + 1) * naive) by (nonlinear_arith)
        requires
            work == naive * cost + work % naive,
            0 <= work % naive < naive,
    ;
    if cost >= output {
        assert(output * naive <= cost * naive) by (nonlinear_arith)
            requires
                output <= cost,
                naive > 0,
        ;
    }
}

/// A quote that found no route, or that has no estimate to scale from, stays as it is.
pub proof fn other_quotes_are_not_refined(before: OrderQuote, refined_gas: Amount, after: OrderQuote)
    requires
        before.status != QuoteStatus::Success || before.gas_estimate@ == 0,
        is_refinement(before, refined_gas, after),
    ensures
        after == before,
{
}

/// A quote without a route, or with a route of one swap, is single; with another number of swaps it is
/// split where one of them takes a share above zero, and else sequential.
pub proof fn strategy_follows_the_route(quote: OrderQuote)
    ensures
        strategy_of(quote) == Strategy::Single <==> (quote.route is None
            || quote.route->Some_0.swaps@.len() == 1),
        strategy_of(quote) == Strategy::Split <==> (quote.route is Some
            && quote.route->Some_0.swaps@.len() != 1 && exists|i: int|
            0 <= i < quote.route->Some_0.swaps@.len() && 0 < (
            #[trigger] quote.route->Some_0.swaps@[i]).split.bits <= 0x7ff0_0000_0000_0000),
{
    if quote.route is Some {
        let swaps = quote.route->Some_0.swaps@;
        if crate::types::route::takes_shares(swaps) {
            let i = choose|i: int|
                0 <= i < swaps.len() && (#[trigger] swaps[i]).split.spec_is_positive();
            assert(0 < swaps[i].split.bits <= 0x7ff0_0000_0000_0000);
        }
        if exists|i: int|
            0 <= i < swaps.len() && 0 < (#[trigger] swaps[i]).split.bits <= 0x7ff0_0000_0000_0000 {
            let i = choose|i: int|
                0 <= i < swaps.len() && 0 < (#[trigger] swaps[i]).split.bits
                    <= 0x7ff0_0000_0000_0000;
            assert(swaps[i].split.spec_is_positive());
        }
    }
}

/// An estimator is asked about every successful quote once, and about no other: under its position, with
/// the quote's amounts and parties, and the tokens that its route starts from and ends at.
pub proof fn estimator_is_asked_about_successful_quotes(
    responses: OrderResponses,
    options: EncodingOptions,
    requests: Vec<EstimateRequest>,
)
    requires
        are_requested(responses, options, Ok(requests)),
    ensures
        forall|i: int|
            0 <= i < responses.quotes@.len() ==> ((#[trigger] responses.quotes@[i]).1.status
                == QuoteStatus::Success <==> exists|k: int|
                0 <= k < requests@.len() && (#[trigger] requests@[k]).quote == i),
        forall|k: int, l: int|
            0 <= k < l < requests@.len() ==> (#[trigger] requests@[k]).quote != (
            #[trigger] requests@[l]).quote,
        forall|k: int|
            0 <= k < requests@.len() ==> {
                let quote = responses.quotes@[(#[trigger] requests@[k]).quote as int].1;
                let solution = requests@[k].solution;
                &&& solution.sender == quote.sender
                &&& solution.receiver == quote.receiver
                &&& solution.amount_in == quote.amount_in
                &&& solution.min_amount_out == quote.amount_out
                &&& quote.route is Some
                &&& solution.token_in == quote.route->Some_0.swaps@[0].token_in
                &&& solution.token_out == quote.route->Some_0.swaps@.last().token_out
                &&& solution.user_transfer_type == options.transfer_type
            },
{
    assert forall|i: int|
        0 <= i < responses.quotes@.len() implies ((#[trigger] responses.quotes@[i]).1.status
        == QuoteStatus::Success <==> exists|k: int|
        0 <= k < requests@.len() && (#[trigger] requests@[k]).quote == i) by {
        if exists|k: int| 0 <= k < requests@.len() && (#[trigger] requests@[k]).quote == i {
            let k = choose|k: int| 0 <= k < requests@.len() && (#[trigger] requests@[k]).quote == i;
            assert(is_request(responses.quotes@, options, requests@[k]));
        }
    }
}

/// Estimating fails only where a successful quote does not make a solution: it has no route, a route
/// without swaps, or a swap whose token the route does not know.
pub proof fn estimating_fails_only_on_broken_quotes(
    responses: OrderResponses,
    options: EncodingOptions,
    r: Result<Vec<EstimateRequest>, SolveError>,
)
    requires
        are_requested(responses, options, r),
    ensures
        r is Err <==> exists|i: int|
            0 <= i < responses.quotes@.len() && (#[trigger] responses.quotes@[i]).1.status
                == QuoteStatus::Success && !crate::encoding::solution::makes_solution(
                responses.quotes@[i].1,
            ),
{
    let quotes = responses.quotes@;
    assert forall|i: int|
        0 <= i < quotes.len() && (#[trigger] quotes[i]).1.status == QuoteStatus::Success implies (
    estimate_fault(quotes, i) is None <==> crate::encoding::solution::makes_solution(
        quotes[i].1,
    )) by {
        crate::encoding::solution::faultless_quotes_make_solutions(quotes[i].1);
    }
    if r is Ok {
        assert forall|i: int|
            0 <= i < quotes.len() && (#[trigger] quotes[i]).1.status
                == QuoteStatus::Success implies crate::encoding::solution::makes_solution(
            quotes[i].1,
        ) by {
            assert(estimate_fault(quotes, i) is None);
        }
    } else {
        let i = choose|i: int|
            0 <= i < quotes.len() && (forall|j: int|
                0 <= j < i ==> #[trigger] estimate_fault(quotes, j) is None) && (
            #[trigger] estimate_fault(quotes, i) matches Some(text) && r->Err_0
                matches SolveError::FailedEncoding(t) && t@ == text);
        assert(quotes[i].1.status == QuoteStatus::Success);
    }
}

/// An estimator is asked about a quote in the shape of its route: split, sequential, or a single swap.
pub proof fn estimator_is_told_the_shape_of_the_route(
    responses: OrderResponses,
    options: EncodingOptions,
    requests: Vec<EstimateRequest>,
    k: int,
)
    requires
        are_requested(responses, options, Ok(requests)),
        0 <= k < requests@.len(),
    ensures
        requests@[k].quote < responses.quotes@.len(),
        requests@[k].strategy == strategy_of(responses.quotes@[requests@[k].quote as int].1),
        requests@[k].solution.user_transfer_type == options.transfer_type,
{
    assert(is_request(responses.quotes@, options, requests@[k]));
}

} // verus!
