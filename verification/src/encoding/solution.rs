//! What the router encoder is given of a quote.
use vstd::prelude::*;
use vstd::string::StringExecFns;

use crate::amount::Amount;
use crate::bytes::{Address, Bytes};
use crate::error::SolveError;
use crate::split::Split;
use crate::table::Table;
use crate::types::options::UserTransferType;
use crate::types::quote::{OrderQuote, QuoteStatus};
use crate::types::route::{ProtocolComponent, Route, Swap, Token};

verus! {

/// A swap of a solution.
#[derive(Debug)]
pub struct SolutionSwap {
    pub component: ProtocolComponent,
    pub token_in: Token,
    pub token_out: Token,
    pub estimated_gas: Amount,
    pub split: Split,
    pub estimated_amount_in: Amount,
}

impl Clone for SolutionSwap {
    fn clone(&self) -> (r: Self)
        ensures
            r == *self,
    {
        SolutionSwap {
            component: self.component.clone(),
            token_in: self.token_in.clone(),
            token_out: self.token_out.clone(),
            estimated_gas: self.estimated_gas.clone(),
            split: self.split,
            estimated_amount_in: self.estimated_amount_in.clone(),
        }
    }
}

/// An order and the swaps that fill it.
#[derive(Debug)]
pub struct Solution {
    pub sender: Bytes,
    pub receiver: Bytes,
    pub token_in: Address,
    pub token_out: Address,
    pub amount_in: Amount,
    /// The quoted output.
    pub min_amount_out: Amount,
    pub swaps: Vec<SolutionSwap>,
    pub user_transfer_type: UserTransferType,
}

/// The name of a status, as error messages give it.
pub open spec fn status_name(status: QuoteStatus) -> Seq<char> {
    match status {
        QuoteStatus::Success => "Success"@,
        QuoteStatus::NoRouteFound => "NoRouteFound"@,
        QuoteStatus::InsufficientLiquidity => "InsufficientLiquidity"@,
        QuoteStatus::Timeout => "Timeout"@,
        QuoteStatus::NotReady => "NotReady"@,
        QuoteStatus::PriceCheckFailed => "PriceCheckFailed"@,
    }
}

fn name_of_status(status: QuoteStatus) -> (r: &'static str)
    ensures
        r@ == status_name(status),
{
    match status {
        QuoteStatus::Success => "Success",
        QuoteStatus::NoRouteFound => "NoRouteFound",
        QuoteStatus::InsufficientLiquidity => "InsufficientLiquidity",
        QuoteStatus::Timeout => "Timeout",
        QuoteStatus::NotReady => "NotReady",
        QuoteStatus::PriceCheckFailed => "PriceCheckFailed",
    }
}

/// The message about a token that a route does not know.
pub open spec fn unknown_token_text(token: Address) -> Seq<char> {
    "token Bytes(0x"@ + crate::text::hex_text(token@)
        + ") not found in route's token map; algorithm must populate Route::with_tokens for every swap token"@
}

/// The first token of a swap that a route does not know.
pub open spec fn unknown_token(tokens: Map<Seq<u8>, Token>, swap: Swap) -> Option<Address> {
    if !tokens.dom().contains(swap.token_in@) {
        Some(swap.token_in)
    } else if !tokens.dom().contains(swap.token_out@) {
        Some(swap.token_out)
    } else {
        None
    }
}

/// The first token of swaps that a route does not know.
pub open spec fn first_unknown_token(tokens: Map<Seq<u8>, Token>, swaps: Seq<Swap>) -> Option<
    Address,
>
    decreases swaps.len(),
{
    if swaps.len() == 0 {
        None
    } else {
        match first_unknown_token(tokens, swaps.drop_last()) {
            Some(token) => Some(token),
            None => unknown_token(tokens, swaps.last()),
        }
    }
}

/// Why a quote does not make a solution: only a successful quote does, with a route that has a swap
/// and knows all of its tokens.
pub open spec fn solution_fault(quote: OrderQuote) -> Option<Seq<char>> {
    if quote.status != QuoteStatus::Success {
        Some("cannot convert quote with status "@ + status_name(quote.status) + " to Solution"@)
    } else {
        match quote.route {
            None => Some("successful quote must have a route"@),
            Some(route) => if route.swaps@.len() == 0 {
                Some("route has no input token"@)
            } else {
                match first_unknown_token(route.tokens@, route.swaps@) {
                    Some(token) => Some(unknown_token_text(token)),
                    None => None,
                }
            },
        }
    }
}

/// The swap of a solution that a swap of a route becomes.
pub open spec fn solution_swap(tokens: Map<Seq<u8>, Token>, swap: Swap) -> SolutionSwap {
    SolutionSwap {
        component: swap.protocol_component,
        token_in: tokens[swap.token_in@],
        token_out: tokens[swap.token_out@],
        estimated_gas: swap.gas_estimate,
        split: swap.split,
        estimated_amount_in: swap.amount_in,
    }
}

/// Whether a solution is that of a quote.
pub open spec fn is_solution(quote: OrderQuote, route: Route, solution: Solution) -> bool {
    &&& solution.sender == quote.sender
    &&& solution.receiver == quote.receiver
    &&& solution.token_in == route.swaps@[0].token_in
    &&& solution.token_out == route.swaps@.last().token_out
    &&& solution.amount_in == quote.amount_in
    &&& solution.min_amount_out == quote.amount_out
    &&& solution.swaps@ == route.swaps@.map_values(|s: Swap| solution_swap(route.tokens@, s))
    &&& solution.user_transfer_type == UserTransferType::TransferFrom
}

proof fn unknown_token_stays(tokens: Map<Seq<u8>, Token>, swaps: Seq<Swap>, k: int)
    requires
        0 <= k <= swaps.len(),
        first_unknown_token(tokens, swaps.take(k)) is Some,
    ensures
        first_unknown_token(tokens, swaps) == first_unknown_token(tokens, swaps.take(k)),
    decreases swaps.len(),
{
    if k < swaps.len() {
        assert(swaps.drop_last().take(k) =~= swaps.take(k));
        unknown_token_stays(tokens, swaps.drop_last(), k);
    } else {
        assert(swaps.take(k) =~= swaps);
    }
}

/// A token that a route knows, or the message about one that it does not.
fn find_token(tokens: &Table<Address, Token>, token: &Address) -> (r: Result<Token, SolveError>)
    ensures
        match r {
            Ok(found) => tokens@.dom().contains(token@) && found == tokens@[token@],
            Err(error) => {
                &&& !tokens@.dom().contains(token@)
                &&& error matches SolveError::FailedEncoding(text)
                &&& text@ == unknown_token_text(*token)
            },
        },
{
    match tokens.get(token) {
        Some(found) => Ok(found.clone()),
        None => {
            let text: String = "token ".to_string().concat(token.to_debug_text().as_str()).concat(
                " not found in route's token map; algorithm must populate Route::with_tokens for every swap token",
            );
            proof {
                reveal_strlit("token ");
                reveal_strlit("Bytes(0x");
                reveal_strlit("token Bytes(0x");
                reveal_strlit(")");
                reveal_strlit(
                    " not found in route's token map; algorithm must populate Route::with_tokens for every swap token",
                );
                reveal_strlit(
                    ") not found in route's token map; algorithm must populate Route::with_tokens for every swap token",
                );
                assert(text@ =~= unknown_token_text(*token));
            }
            Err(SolveError::FailedEncoding(text))
        },
    }
}

impl Solution {
    /// The solution that a quote stands for.
    pub fn try_from(quote: &OrderQuote) -> (r: Result<Self, SolveError>)
        ensures
            match solution_fault(*quote) {
                Some(text) => r matches Err(SolveError::FailedEncoding(t)) && t@ == text,
                None => {
                    &&& r matches Ok(solution)
                    &&& quote.route matches Some(route)
                    &&& is_solution(*quote, route, solution)
                },
            },
    {
        if quote.status != QuoteStatus::Success {
            return Err(
                SolveError::FailedEncoding(
                    "cannot convert quote with status ".to_string().concat(
                        name_of_status(quote.status),
                    ).concat(" to Solution"),
                ),
            );
        }
        let route: &Route = match &quote.route {
            Some(route) => route,
            None => {
                return Err(
                    SolveError::FailedEncoding("successful quote must have a route".to_string()),
                );
            },
        };
        let (token_in, token_out) = match (route.input_token(), route.output_token()) {
            (Some(token_in), Some(token_out)) => (token_in, token_out),
            _ => {
                return Err(SolveError::FailedEncoding("route has no input token".to_string()));
            },
        };
        let mut swaps: Vec<SolutionSwap> = Vec::new();
        let mut i: usize = 0;
        while i < route.swaps.len()
            invariant
                i <= route.swaps@.len(),
                route.swaps@.len() > 0,
                quote.status == QuoteStatus::Success,
                quote.route == Some(*route),
                first_unknown_token(route.tokens@, route.swaps@.take(i as int)) is None,
                swaps@ == route.swaps@.take(i as int).map_values(
                    |s: Swap| solution_swap(route.tokens@, s),
                ),
            decreases route.swaps@.len() - i,
        {
            let swap: &Swap = &route.swaps[i];
            proof {
                let next = route.swaps@.take(i + 1);
                assert(next.drop_last() == route.swaps@.take(i as int));
                if unknown_token(route.tokens@, *swap) is Some {
                    unknown_token_stays(route.tokens@, route.swaps@, i + 1);
                }
            }
            let token_in: Token = match find_token(&route.tokens, &swap.token_in) {
                Ok(token) => token,
                Err(error) => {
                    return Err(error);
                },
            };
            let token_out: Token = match find_token(&route.tokens, &swap.token_out) {
                Ok(token) => token,
                Err(error) => {
                    return Err(error);
                },
            };
            swaps.push(
                SolutionSwap {
                    component: swap.protocol_component.clone(),
                    token_in,
                    token_out,
                    estimated_gas: swap.gas_estimate.clone(),
                    split: swap.split,
                    estimated_amount_in: swap.amount_in.clone(),
                },
            );
            i += 1;
        }
        assert(route.swaps@.take(i as int) == route.swaps@);
        Ok(
            Solution {
                sender: quote.sender.clone(),
                receiver: quote.receiver.clone(),
                token_in,
                token_out,
                amount_in: quote.amount_in.clone(),
                min_amount_out: quote.amount_out.clone(),
                swaps,
                user_transfer_type: UserTransferType::TransferFrom,
            },
        )
    }

    /// Sets how the router obtains the input tokens.
    pub fn with_user_transfer_type(self, user_transfer_type: UserTransferType) -> (r: Self)
        ensures
            r == (Solution { user_transfer_type, ..self }),
    {
        Solution { user_transfer_type, ..self }
    }
}

/// A quote that makes a solution: it is successful, and it has a route with a swap which knows the
/// tokens of all its swaps.
pub open spec fn makes_solution(quote: OrderQuote) -> bool {
    &&& quote.status == QuoteStatus::Success
    &&& quote.route is Some
    &&& quote.route->Some_0.swaps@.len() > 0
    &&& forall|i: int|
        0 <= i < quote.route->Some_0.swaps@.len() ==> {
            &&& quote.route->Some_0.tokens@.dom().contains(
                (#[trigger] quote.route->Some_0.swaps@[i]).token_in@,
            )
            &&& quote.route->Some_0.tokens@.dom().contains(
                quote.route->Some_0.swaps@[i].token_out@,
            )
        }
}

proof fn unknown_token_is_found(tokens: Map<Seq<u8>, Token>, swaps: Seq<Swap>)
    ensures
        match first_unknown_token(tokens, swaps) {
            None => forall|i: int|
                0 <= i < swaps.len() ==> tokens.dom().contains((#[trigger] swaps[i]).token_in@)
                    && tokens.dom().contains(swaps[i].token_out@),
            Some(token) => {
                &&& !tokens.dom().contains(token@)
                &&& exists|i: int|
                    0 <= i < swaps.len() && ((#[trigger] swaps[i]).token_in == token
                        || swaps[i].token_out == token) && forall|j: int|
                        0 <= j < i ==> tokens.dom().contains((#[trigger] swaps[j]).token_in@)
                            && tokens.dom().contains(swaps[j].token_out@)
            },
        },
    decreases swaps.len(),
{
    if swaps.len() > 0 {
        let front = swaps.drop_last();
        unknown_token_is_found(tokens, front);
        match first_unknown_token(tokens, front) {
            None => {
                assert forall|j: int| 0 <= j < front.len() implies tokens.dom().contains(
                    (#[trigger] swaps[j]).token_in@,
                ) && tokens.dom().contains(swaps[j].token_out@) by {
                    assert(front[j] == swaps[j]);
                }
                assert(swaps[swaps.len() - 1] == swaps.last());
            },
            Some(token) => {
                let i = choose|i: int|
                    0 <= i < front.len() && ((#[trigger] front[i]).token_in == token
                        || front[i].token_out == token) && forall|j: int|
                        0 <= j < i ==> tokens.dom().contains((#[trigger] front[j]).token_in@)
                            && tokens.dom().contains(front[j].token_out@);
                assert(swaps[i] == front[i]);
                assert forall|j: int| 0 <= j < i implies tokens.dom().contains(
                    (#[trigger] swaps[j]).token_in@,
                ) && tokens.dom().contains(swaps[j].token_out@) by {
                    assert(front[j] == swaps[j]);
                }
            },
        }
    }
}

/// Exactly the quotes that are successful, and whose route has a swap and knows the tokens of all its
/// swaps, make a solution.
pub proof fn faultless_quotes_make_solutions(quote: OrderQuote)
    ensures
        solution_fault(quote) is None <==> makes_solution(quote),
{
    if quote.route is Some {
        unknown_token_is_found(quote.route->Some_0.tokens@, quote.route->Some_0.swaps@);
    }
}

/// What is said of a quote that makes no solution names its status, or what its route lacks: the first
/// token that it does not know.
pub proof fn faults_of_quotes_are_named(quote: OrderQuote)
    requires
        solution_fault(quote) is Some,
    ensures
        quote.status == QuoteStatus::NoRouteFound ==> solution_fault(quote)->Some_0
            == "cannot convert quote with status "@ + "NoRouteFound"@ + " to Solution"@,
        quote.status == QuoteStatus::InsufficientLiquidity ==> solution_fault(quote)->Some_0
            == "cannot convert quote with status "@ + "InsufficientLiquidity"@ + " to Solution"@,
        quote.status == QuoteStatus::Timeout ==> solution_fault(quote)->Some_0
            == "cannot convert quote with status "@ + "Timeout"@ + " to Solution"@,
        quote.status == QuoteStatus::NotReady ==> solution_fault(quote)->Some_0
            == "cannot convert quote with status "@ + "NotReady"@ + " to Solution"@,
        quote.status == QuoteStatus::PriceCheckFailed ==> solution_fault(quote)->Some_0
            == "cannot convert quote with status "@ + "PriceCheckFailed"@ + " to Solution"@,
        quote.status == QuoteStatus::Success && quote.route is None ==> solution_fault(quote)->Some_0
            == "successful quote must have a route"@,
        quote.status == QuoteStatus::Success && quote.route is Some
            && quote.route->Some_0.swaps@.len() == 0 ==> solution_fault(quote)->Some_0
            == "route has no input token"@,
        quote.status == QuoteStatus::Success && quote.route is Some
            && quote.route->Some_0.swaps@.len() > 0 ==> {
            let swaps = quote.route->Some_0.swaps@;
            let known = quote.route->Some_0.tokens@.dom();
            exists|i: int, token: Address|
                0 <= i < swaps.len() && ((#[trigger] swaps[i]).token_in == token
                    || swaps[i].token_out == token) && !known.contains((#[trigger] token@))
                    && solution_fault(quote)->Some_0 == "token Bytes(0x"@ + crate::text::hex_text(
                    token@,
                )
                    + ") not found in route's token map; algorithm must populate Route::with_tokens for every swap token"@
                    && forall|j: int|
                    0 <= j < i ==> known.contains((#[trigger] swaps[j]).token_in@)
                        && known.contains(swaps[j].token_out@)
        },
{
    if quote.status == QuoteStatus::Success && quote.route is Some
        && quote.route->Some_0.swaps@.len() > 0 {
        let swaps = quote.route->Some_0.swaps@;
        let known = quote.route->Some_0.tokens@;
        unknown_token_is_found(known, swaps);
        let token = first_unknown_token(known, swaps)->Some_0;
        let i = choose|i: int|
            0 <= i < swaps.len() && ((#[trigger] swaps[i]).token_in == token || swaps[i].token_out
                == token) && forall|j: int|
                0 <= j < i ==> known.dom().contains((#[trigger] swaps[j]).token_in@)
                    && known.dom().contains(swaps[j].token_out@);
        assert(swaps[i].token_in == token || swaps[i].token_out == token);
        assert(!known.dom().contains(token@));
    }
}

/// A solution is what its quote says: who sends and who receives, how much goes in and comes out, from
/// the first token of the route to its last; and its swaps are those of the route, one for one and in
/// their order, each on its component, with its share, amount and gas, and with its tokens in full.
pub proof fn solution_speaks_for_its_quote(quote: OrderQuote, route: Route, solution: Solution)
    requires
        is_solution(quote, route, solution),
    ensures
        solution.sender == quote.sender,
        solution.receiver == quote.receiver,
        solution.amount_in == quote.amount_in,
        solution.min_amount_out == quote.amount_out,
        solution.token_in == route.swaps@[0].token_in,
        solution.token_out == route.swaps@[route.swaps@.len() - 1].token_out,
        solution.user_transfer_type == UserTransferType::TransferFrom,
        solution.swaps@.len() == route.swaps@.len(),
        forall|i: int|
            0 <= i < route.swaps@.len() ==> {
                let swap = route.swaps@[i];
                let made = #[trigger] solution.swaps@[i];
                &&& made.component == swap.protocol_component
                &&& made.token_in == route.tokens@[swap.token_in@]
                &&& made.token_out == route.tokens@[swap.token_out@]
                &&& made.estimated_gas == swap.gas_estimate
                &&& made.split == swap.split
                &&& made.estimated_amount_in == swap.amount_in
            },
{
}

} // verus!
