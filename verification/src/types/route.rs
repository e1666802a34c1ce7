//! Routes and the swaps they are made of.
use std::sync::Arc;

use vstd::prelude::*;
use vstd::string::StringExecFns;

use crate::amount::Amount;
use crate::bytes::{is_among_part, Address};
use crate::split::{add_up, one, Split};
use crate::table::Table;
use crate::text::{decimal, join};

verus! {

/// Identifier of a liquidity pool component.
pub type ComponentId = String;

/// A token, as far as routing needs to know it.
#[derive(Debug)]
pub struct Token {
    pub address: Address,
    pub symbol: String,
    pub decimals: u32,
}

impl Clone for Token {
    fn clone(&self) -> (r: Self)
        ensures
            r == *self,
    {
        Token {
            address: self.address.clone(),
            symbol: self.symbol.clone(),
            decimals: self.decimals,
        }
    }
}

/// A liquidity pool component of a protocol.
#[derive(Debug)]
pub struct ProtocolComponent {
    pub id: ComponentId,
    pub protocol_system: String,
    pub tokens: Arc<Vec<Address>>,
}

impl Clone for ProtocolComponent {
    fn clone(&self) -> (r: Self)
        ensures
            r == *self,
    {
        ProtocolComponent {
            id: self.id.clone(),
            protocol_system: self.protocol_system.clone(),
            tokens: self.tokens.clone(),
        }
    }
}

/// A single swap within a route: an atomic swap on one liquidity pool.
#[derive(Debug)]
pub struct Swap {
    /// Identifier of the liquidity pool component.
    pub component_id: ComponentId,
    /// Protocol system identifier (e.g., "uniswap_v2", "vm:balancer").
    pub protocol: String,
    pub token_in: Address,
    pub token_out: Address,
    pub amount_in: Amount,
    pub amount_out: Amount,
    /// Estimated gas cost for this swap.
    pub gas_estimate: Amount,
    /// Protocol component to perform the swap.
    pub protocol_component: ProtocolComponent,
    /// Share of the amount that is swapped in this operation; zero takes what is left.
    pub split: Split,
    /// Committed output of a permissioned swap: the pool captures what it yields beyond. `None` for
    /// ordinary public swaps.
    pub committed_amount_out: Option<Amount>,
}

/// A copy of an optional amount.
pub fn copy_amount(amount: &Option<Amount>) -> (r: Option<Amount>)
    ensures
        r == *amount,
{
    match amount {
        Some(a) => Some(a.clone()),
        None => None,
    }
}

impl Clone for Swap {
    fn clone(&self) -> (r: Self)
        ensures
            r == *self,
    {
        Swap {
            component_id: self.component_id.clone(),
            protocol: self.protocol.clone(),
            token_in: self.token_in.clone(),
            token_out: self.token_out.clone(),
            amount_in: self.amount_in.clone(),
            amount_out: self.amount_out.clone(),
            gas_estimate: self.gas_estimate.clone(),
            protocol_component: self.protocol_component.clone(),
            split: self.split,
            committed_amount_out: copy_amount(&self.committed_amount_out),
        }
    }
}

impl Swap {
    /// Creates a swap of everything.
    pub fn new(
        component_id: ComponentId,
        protocol: String,
        token_in: Address,
        token_out: Address,
        amount_in: Amount,
        amount_out: Amount,
        gas_estimate: Amount,
        protocol_component: ProtocolComponent,
    ) -> (r: Self)
        ensures
            r == (Swap {
                component_id,
                protocol,
                token_in,
                token_out,
                amount_in,
                amount_out,
                gas_estimate,
                protocol_component,
                split: Split { bits: 0 },
                committed_amount_out: None,
            }),
    {
        Swap {
            component_id,
            protocol,
            token_in,
            token_out,
            amount_in,
            amount_out,
            gas_estimate,
            protocol_component,
            split: Split { bits: 0 },
            committed_amount_out: None,
        }
    }

    /// Sets the share that this swap takes.
    pub fn with_split(self, split: Split) -> (r: Self)
        ensures
            r == (Swap { split: split, ..self }),
    {
        Swap { split: split, ..self }
    }

    /// Sets the committed output of a permissioned swap.
    pub fn with_committed_amount_out(self, committed_amount_out: Amount) -> (r: Self)
        ensures
            r == (Swap { committed_amount_out: Some(committed_amount_out), ..self }),
    {
        Swap { committed_amount_out: Some(committed_amount_out), ..self }
    }

    /// The component ID of the liquidity pool.
    pub fn component_id(&self) -> (r: &str)
        ensures
            r@ == self.component_id@,
    {
        self.component_id.as_str()
    }

    /// The protocol identifier.
    pub fn protocol(&self) -> (r: &str)
        ensures
            r@ == self.protocol@,
    {
        self.protocol.as_str()
    }

    /// The input token address.
    pub fn token_in(&self) -> (r: &Address)
        ensures
            *r == self.token_in,
    {
        &self.token_in
    }

    /// The output token address.
    pub fn token_out(&self) -> (r: &Address)
        ensures
            *r == self.token_out,
    {
        &self.token_out
    }

    /// The input amount.
    pub fn amount_in(&self) -> (r: &Amount)
        ensures
            *r == self.amount_in,
    {
        &self.amount_in
    }

    /// The output amount.
    pub fn amount_out(&self) -> (r: &Amount)
        ensures
            *r == self.amount_out,
    {
        &self.amount_out
    }

    /// The estimated gas cost.
    pub fn gas_estimate(&self) -> (r: &Amount)
        ensures
            *r == self.gas_estimate,
    {
        &self.gas_estimate
    }

    /// The protocol component.
    pub fn protocol_component(&self) -> (r: &ProtocolComponent)
        ensures
            *r == self.protocol_component,
    {
        &self.protocol_component
    }

    /// The share that this swap takes.
    pub fn split(&self) -> (r: &Split)
        ensures
            *r == self.split,
    {
        &self.split
    }

    /// The committed output of a permissioned swap.
    pub fn committed_amount_out(&self) -> (r: Option<&Amount>)
        ensures
            match self.committed_amount_out {
                Some(v) => r == Some(&v),
                None => r is None,
            },
    {
        self.committed_amount_out.as_ref()
    }
}

/// A route consisting of one or more swaps, either sequential or split.
///
/// In a sequential route the output of each swap is the input of the next. In a split route the
/// input is divided over parallel swaps, each of which carries its share.
#[derive(Debug)]
pub struct Route {
    /// Ordered sequence of swaps to execute.
    pub swaps: Arc<Vec<Swap>>,
    /// The tokens of the route by address.
    pub tokens: Arc<Table<Address, Token>>,
}

impl Clone for Route {
    fn clone(&self) -> (r: Self)
        ensures
            r == *self,
    {
        Route { swaps: self.swaps.clone(), tokens: self.tokens.clone() }
    }
}

/// How the shares of the swaps that draw on one token break the rules.
#[derive(Debug)]
pub enum SplitFault {
    /// The only swap of a token takes a share instead of everything.
    SingleNotZero { token_in: Address, split: Split },
    /// A swap before the last one takes a share that is not between zero and one.
    OutOfRange { index: usize, token_in: Address, split: Split },
    /// The last swap of a token takes a share instead of the remainder.
    LastNotZero { token_in: Address, split: Split },
    /// The shares leave no remainder.
    SumNotBelowOne { token_in: Address },
}

/// Errors that can occur when validating a [`Route`].
#[derive(Debug)]
pub enum RouteValidationError {
    /// Route contains no swaps.
    EmptyRoute,
    /// Adjacent swaps in the route do not share a token.
    DisconnectedSwaps { first_out: Address, second_in: Address },
    /// A token appears more than once, and not only as the first and the last one.
    UnsupportedCycle { token: Address, first: Address, last: Address },
    /// A split route has invalid split fractions.
    InvalidSplit { reason: SplitFault },
    /// An output is neither consumed by a later step nor the terminal token.
    DisconnectedSplitEnd { token_out: Address, terminal_token: Address },
    /// An input is not reachable from the route's start token.
    DisconnectedSplitStart { token_in: Address, start_token: Address },
}

/// What is wrong with shares, in words. `number` is the share, or the sum of shares, that is at fault.
pub open spec fn split_fault_text(fault: SplitFault, number: Seq<char>) -> Seq<char> {
    match fault {
        SplitFault::SingleNotZero { token_in, .. } => {
            "single swap for token_in "@ + ("0x"@ + crate::text::hex_text(token_in@))
                + " must have split == 0.0, got "@ + number
        },
        SplitFault::OutOfRange { index, token_in, .. } => {
            "swap "@ + crate::text::decimal_text(index as nat) + " for token_in "@ + ("0x"@
                + crate::text::hex_text(token_in@)) + " must have 0.0 < split < 1.0, got "@ + number
        },
        SplitFault::LastNotZero { token_in, .. } => {
            "last branch in collection for token_in "@ + ("0x"@ + crate::text::hex_text(token_in@))
                + " must have split == 0.0 (remainder), got "@ + number
        },
        SplitFault::SumNotBelowOne { token_in } => {
            "split sum for token_in "@ + ("0x"@ + crate::text::hex_text(token_in@))
                + " must be < 1.0, got "@ + number
        },
    }
}

/// What is wrong with a route, in words.
pub open spec fn route_error_text(error: RouteValidationError, number: Seq<char>) -> Seq<char> {
    match error {
        RouteValidationError::EmptyRoute => "route must contain at least one swap"@,
        RouteValidationError::DisconnectedSwaps { first_out, second_in } => {
            "swaps are not connected: "@ + ("0x"@ + crate::text::hex_text(first_out@)) + " != "@ + (
            "0x"@ + crate::text::hex_text(second_in@))
        },
        RouteValidationError::UnsupportedCycle { token, first, last } => {
            "unsupported cycle: token "@ + ("0x"@ + crate::text::hex_text(token@))
                + " appears more than once in route "@ + ("0x"@ + crate::text::hex_text(first@))
                + " -> ... -> "@ + ("0x"@ + crate::text::hex_text(last@))
                + " (only first == last cycles are supported)"@
        },
        RouteValidationError::InvalidSplit { reason } => {
            "invalid split route: "@ + split_fault_text(reason, number)
        },
        RouteValidationError::DisconnectedSplitEnd { token_out, terminal_token } => {
            "disconnected split end: "@ + ("0x"@ + crate::text::hex_text(token_out@))
                + " is not consumed by any later step in the route and is not the terminal token "@
                + ("0x"@ + crate::text::hex_text(terminal_token@))
        },
        RouteValidationError::DisconnectedSplitStart { token_in, start_token } => {
            "disconnected split start: input "@ + ("0x"@ + crate::text::hex_text(token_in@))
                + " is not reachable from start token "@ + ("0x"@ + crate::text::hex_text(
                start_token@,
            ))
        },
    }
}

impl SplitFault {
    /// What is wrong, in words. `number` is the share, or the sum of shares, that is at fault.
    pub fn message(&self, number: &str) -> (r: String)
        ensures
            r@ == split_fault_text(*self, number@),
    {
        match self {
            SplitFault::SingleNotZero { token_in, .. } => {
                "single swap for token_in ".to_string().concat(token_in.to_text().as_str()).concat(
                    " must have split == 0.0, got ",
                ).concat(number)
            },
            SplitFault::OutOfRange { index, token_in, .. } => {
                "swap ".to_string().concat(decimal(*index as u64).as_str()).concat(
                    " for token_in ",
                ).concat(token_in.to_text().as_str()).concat(
                    " must have 0.0 < split < 1.0, got ",
                ).concat(number)
            },
            SplitFault::LastNotZero { token_in, .. } => {
                "last branch in collection for token_in ".to_string().concat(
                    token_in.to_text().as_str(),
                ).concat(" must have split == 0.0 (remainder), got ").concat(number)
            },
            SplitFault::SumNotBelowOne { token_in } => {
                "split sum for token_in ".to_string().concat(token_in.to_text().as_str()).concat(
                    " must be < 1.0, got ",
                ).concat(number)
            },
        }
    }
}

impl RouteValidationError {
    /// What is wrong, in words. `number` is the share, or the sum of shares, that is at fault; it only
    /// counts for shares.
    pub fn message(&self, number: &str) -> (r: String)
        ensures
            r@ == route_error_text(*self, number@),
    {
        match self {
            RouteValidationError::EmptyRoute => "route must contain at least one swap".to_string(),
            RouteValidationError::DisconnectedSwaps { first_out, second_in } => {
                "swaps are not connected: ".to_string().concat(first_out.to_text().as_str()).concat(
                    " != ",
                ).concat(second_in.to_text().as_str())
            },
            RouteValidationError::UnsupportedCycle { token, first, last } => {
                "unsupported cycle: token ".to_string().concat(token.to_text().as_str()).concat(
                    " appears more than once in route ",
                ).concat(first.to_text().as_str()).concat(" -> ... -> ").concat(
                    last.to_text().as_str(),
                ).concat(" (only first == last cycles are supported)")
            },
            RouteValidationError::InvalidSplit { reason } => {
                "invalid split route: ".to_string().concat(reason.message(number).as_str())
            },
            RouteValidationError::DisconnectedSplitEnd { token_out, terminal_token } => {
                "disconnected split end: ".to_string().concat(token_out.to_text().as_str()).concat(
                    " is not consumed by any later step in the route and is not the terminal token ",
                ).concat(terminal_token.to_text().as_str())
            },
            RouteValidationError::DisconnectedSplitStart { token_in, start_token } => {
                "disconnected split start: input ".to_string().concat(
                    token_in.to_text().as_str(),
                ).concat(" is not reachable from start token ").concat(
                    start_token.to_text().as_str(),
                )
            },
        }
    }
}

/// The first of `n` possible faults that is there.
pub open spec fn first_fault(
    n: nat,
    fault: spec_fn(int) -> Option<RouteValidationError>,
) -> Option<RouteValidationError>
    decreases n,
{
    if n == 0 {
        None
    } else {
        match first_fault((n - 1) as nat, fault) {
            Some(error) => Some(error),
            None => fault(n - 1),
        }
    }
}

proof fn first_fault_stays(
    m: nat,
    n: nat,
    fault: spec_fn(int) -> Option<RouteValidationError>,
)
    requires
        m <= n,
        first_fault(m, fault) is Some,
    ensures
        first_fault(n, fault) == first_fault(m, fault),
    decreases n,
{
    if m < n {
        first_fault_stays(m, (n - 1) as nat, fault);
    }
}

/// Swap `i` does not hand its output to the next swap.
pub open spec fn break_after(swaps: Seq<Swap>) -> spec_fn(int) -> Option<RouteValidationError> {
    |i: int|
        if swaps[i].token_out@ != swaps[i + 1].token_in@ {
            Some(
                RouteValidationError::DisconnectedSwaps {
                    first_out: swaps[i].token_out,
                    second_in: swaps[i + 1].token_in,
                },
            )
        } else {
            None
        }
}

/// The output of swap `i` is a token that the path has met before.
pub open spec fn revisits(swaps: Seq<Swap>, i: int) -> bool {
    ||| swaps[i].token_out@ == swaps[0].token_in@
    ||| exists|j: int| 0 <= j < i && #[trigger] swaps[j].token_out@ == swaps[i].token_out@
}

/// The path comes back, at swap `i`, to a token other than by closing a round trip.
pub open spec fn cycle_at(swaps: Seq<Swap>) -> spec_fn(int) -> Option<RouteValidationError> {
    |i: int|
        if revisits(swaps, i) && !(i == swaps.len() - 1 && swaps[i].token_out@
            == swaps[0].token_in@) {
            Some(
                RouteValidationError::UnsupportedCycle {
                    token: swaps[i].token_out,
                    first: swaps[0].token_in,
                    last: swaps.last().token_out,
                },
            )
        } else {
            None
        }
}

/// What is wrong with a sequential route.
pub open spec fn sequential_fault(swaps: Seq<Swap>) -> Option<RouteValidationError> {
    match first_fault((swaps.len() - 1) as nat, break_after(swaps)) {
        Some(error) => Some(error),
        None => first_fault(swaps.len(), cycle_at(swaps)),
    }
}

/// The tokens that swaps draw on, each once, in the order of their first swaps.
pub open spec fn inputs(swaps: Seq<Swap>) -> Seq<Address>
    decreases swaps.len(),
{
    if swaps.len() == 0 {
        seq![]
    } else {
        let before = inputs(swaps.drop_last());
        if crate::bytes::among(before, swaps.last().token_in@) {
            before
        } else {
            before.push(swaps.last().token_in)
        }
    }
}

/// The swaps that draw on a token.
pub open spec fn branches(swaps: Seq<Swap>, token: Seq<u8>) -> Seq<Swap> {
    swaps.filter(|s: Swap| s.token_in@ == token)
}

pub open spec fn invalid_split(reason: SplitFault) -> Option<RouteValidationError> {
    Some(RouteValidationError::InvalidSplit { reason })
}

/// Swap `i` of those that draw on one token takes a share it must not take. All but the last take a
/// share between zero and one; the last takes the remainder.
pub open spec fn share_fault(token_in: Address, branch: Seq<Swap>) -> spec_fn(int) -> Option<
    RouteValidationError,
> {
    |i: int|
        {
            let split = branch[i].split;
            if i < branch.len() - 1 {
                if split.spec_is_zero() || split.spec_is_negative() || split.spec_is_at_least_one() {
                    invalid_split(SplitFault::OutOfRange { index: i as usize, token_in, split })
                } else {
                    None
                }
            } else if !split.spec_is_zero() {
                invalid_split(SplitFault::LastNotZero { token_in, split })
            } else {
                None
            }
        }
}

/// The shares of swaps.
pub open spec fn shares(swaps: Seq<Swap>) -> Seq<Split> {
    swaps.map_values(|s: Swap| s.split)
}

/// What is wrong with the shares of the swaps that draw on one token.
pub open spec fn branch_fault(token_in: Address, branch: Seq<Swap>) -> Option<
    RouteValidationError,
> {
    if branch.len() == 1 {
        if !branch[0].split.spec_is_zero() {
            invalid_split(SplitFault::SingleNotZero { token_in, split: branch[0].split })
        } else {
            None
        }
    } else {
        let before_last = shares(branch.drop_last());
        match first_fault(branch.len(), share_fault(token_in, branch)) {
            Some(error) => Some(error),
            None => if crate::split::sum_units(before_last) >= crate::split::units_of_one() && !has_nan(before_last) {
                invalid_split(SplitFault::SumNotBelowOne { token_in })
            } else {
                None
            },
        }
    }
}

pub open spec fn has_nan(shares: Seq<Split>) -> bool {
    exists|i: int| 0 <= i < shares.len() && (#[trigger] shares[i]).spec_is_nan()
}

/// The shares that draw on input `g` break the rules.
pub open spec fn split_fault(swaps: Seq<Swap>) -> spec_fn(int) -> Option<RouteValidationError> {
    |g: int| branch_fault(inputs(swaps)[g], branches(swaps, inputs(swaps)[g]@))
}

/// Some swap turns token `a` into token `b`.
pub open spec fn feeds(swaps: Seq<Swap>, a: Seq<u8>, b: Seq<u8>) -> bool {
    exists|k: int|
        0 <= k < swaps.len() && #[trigger] swaps[k].token_in@ == a && swaps[k].token_out@ == b
}

/// A chain of tokens, each of which some swap turns into the next.
pub open spec fn is_chain(swaps: Seq<Swap>, chain: Seq<Seq<u8>>) -> bool {
    &&& chain.len() > 0
    &&& forall|i: int| 0 < i < chain.len() ==> feeds(swaps, chain[i - 1], #[trigger] chain[i])
}

/// Whether swaps lead from one token to another.
pub open spec fn reachable(swaps: Seq<Swap>, start: Seq<u8>, token: Seq<u8>) -> bool {
    exists|chain: Seq<Seq<u8>>| #[trigger]
        is_chain(swaps, chain) && chain[0] == start && chain.last() == token
}

/// Input `g` cannot be reached from the first one.
pub open spec fn unreachable_at(swaps: Seq<Swap>) -> spec_fn(int) -> Option<RouteValidationError> {
    |g: int|
        if !reachable(swaps, inputs(swaps)[0]@, inputs(swaps)[g]@) {
            Some(
                RouteValidationError::DisconnectedSplitStart {
                    token_in: inputs(swaps)[g],
                    start_token: inputs(swaps)[0],
                },
            )
        } else {
            None
        }
}

/// The output of swap `i` of a branch is neither the input of a later one nor the terminal token.
pub open spec fn dead_end_of(swaps: Seq<Swap>, branch: Seq<Swap>) -> spec_fn(int) -> Option<
    RouteValidationError,
> {
    |i: int|
        if !crate::bytes::among(inputs(swaps).skip(1), branch[i].token_out@) && branch[i].token_out@
            != swaps.last().token_out@ {
            Some(
                RouteValidationError::DisconnectedSplitEnd {
                    token_out: branch[i].token_out,
                    terminal_token: swaps.last().token_out,
                },
            )
        } else {
            None
        }
}

/// Some swap that draws on input `g` leads nowhere.
pub open spec fn dead_end_at(swaps: Seq<Swap>) -> spec_fn(int) -> Option<RouteValidationError> {
    |g: int|
        {
            let branch = branches(swaps, inputs(swaps)[g]@);
            first_fault(branch.len(), dead_end_of(swaps, branch))
        }
}

/// Whether a route ends at the token it starts from.
pub open spec fn is_round_trip(swaps: Seq<Swap>) -> bool {
    inputs(swaps)[0]@ == swaps.last().token_out@
}

/// The output of swap `i` of the branch of input `g` goes back to this or an earlier input, other
/// than to close a round trip.
pub open spec fn back_edge_of(swaps: Seq<Swap>, g: int, branch: Seq<Swap>) -> spec_fn(
    int,
) -> Option<RouteValidationError> {
    |i: int|
        if crate::bytes::among(inputs(swaps).take(g + 1), branch[i].token_out@) && !(is_round_trip(swaps)
            && branch[i].token_out@ == inputs(swaps)[0]@) {
            Some(
                RouteValidationError::UnsupportedCycle {
                    token: branch[i].token_out,
                    first: inputs(swaps)[0],
                    last: swaps.last().token_out,
                },
            )
        } else {
            None
        }
}

/// Some swap that draws on input `g` goes back.
pub open spec fn back_edge_at(swaps: Seq<Swap>) -> spec_fn(int) -> Option<RouteValidationError> {
    |g: int|
        {
            let branch = branches(swaps, inputs(swaps)[g]@);
            first_fault(branch.len(), back_edge_of(swaps, g, branch))
        }
}

/// A cycle in a split route: a round trip must pass through another input, and apart from closing
/// it no swap goes back.
pub open spec fn split_cycle_fault(swaps: Seq<Swap>) -> Option<RouteValidationError> {
    if is_round_trip(swaps) && inputs(swaps).len() <= 1 {
        Some(
            RouteValidationError::UnsupportedCycle {
                token: inputs(swaps)[0],
                first: inputs(swaps)[0],
                last: swaps.last().token_out,
            },
        )
    } else {
        first_fault(inputs(swaps).len(), back_edge_at(swaps))
    }
}

/// What is wrong with a split route: first the shares, then inputs that cannot be reached, outputs
/// that lead nowhere, and cycles.
pub open spec fn split_route_fault(swaps: Seq<Swap>) -> Option<RouteValidationError> {
    let n = inputs(swaps).len();
    match first_fault(n, split_fault(swaps)) {
        Some(error) => Some(error),
        None => match first_fault(n, unreachable_at(swaps)) {
            Some(error) => Some(error),
            None => match first_fault(n, dead_end_at(swaps)) {
                Some(error) => Some(error),
                None => split_cycle_fault(swaps),
            },
        },
    }
}

/// Whether any swap takes a share.
pub open spec fn takes_shares(swaps: Seq<Swap>) -> bool {
    exists|i: int| 0 <= i < swaps.len() && (#[trigger] swaps[i]).split.spec_is_positive()
}

/// What is wrong with a route.
pub open spec fn route_fault(swaps: Seq<Swap>) -> Option<RouteValidationError> {
    if swaps.len() == 0 {
        Some(RouteValidationError::EmptyRoute)
    } else if takes_shares(swaps) {
        split_route_fault(swaps)
    } else {
        sequential_fault(swaps)
    }
}

/// The outcome of a validation that looks for a fault.
pub open spec fn verdict(fault: Option<RouteValidationError>) -> Result<(), RouteValidationError> {
    match fault {
        Some(error) => Err(error),
        None => Ok(()),
    }
}

/// The tokens that swaps draw on, each once, in the order of their first swaps.
fn collect_inputs(swaps: &Vec<Swap>) -> (r: Vec<Address>)
    ensures
        r@ == inputs(swaps@),
{
    let mut tokens: Vec<Address> = Vec::new();
    let mut i: usize = 0;
    while i < swaps.len()
        invariant
            i <= swaps@.len(),
            tokens@ == inputs(swaps@.take(i as int)),
        decreases swaps@.len() - i,
    {
        let n: usize = tokens.len();
        let known: bool = is_among_part(&tokens, 0, n, &swaps[i].token_in);
        assert(tokens@.subrange(0, n as int) == tokens@);
        if !known {
            tokens.push(swaps[i].token_in.clone());
        }
        i += 1;
        assert(swaps@.take(i as int).drop_last() == swaps@.take(i - 1));
    }
    assert(swaps@.take(i as int) == swaps@);
    tokens
}

/// The swaps that draw on a token.
fn collect_branches(swaps: &Vec<Swap>, token: &Address) -> (r: Vec<Swap>)
    ensures
        r@ == branches(swaps@, token@),
{
    let ghost draws = |s: Swap| s.token_in@ == token@;
    let mut found: Vec<Swap> = Vec::new();
    let mut i: usize = 0;
    assert(swaps@.take(0).filter(draws) =~= Seq::<Swap>::empty()) by {
        reveal(Seq::filter);
    }
    while i < swaps.len()
        invariant
            i <= swaps@.len(),
            draws == (|s: Swap| s.token_in@ == token@),
            found@ == swaps@.take(i as int).filter(draws),
        decreases swaps@.len() - i,
    {
        proof {
            swaps@.take(i as int).lemma_filter_push(swaps@[i as int], draws);
            assert(swaps@.take(i as int).push(swaps@[i as int]) == swaps@.take(i + 1));
        }
        if swaps[i].token_in.same(token) {
            found.push(swaps[i].clone());
        }
        i += 1;
    }
    assert(swaps@.take(i as int) == swaps@);
    found
}

/// Whether the shares of the swaps that draw on one token are right.
fn validate_branch(token_in: &Address, branch: &Vec<Swap>) -> (r: Result<(), RouteValidationError>)
    requires
        branch@.len() > 0,
    ensures
        r == verdict(branch_fault(*token_in, branch@)),
{
    if branch.len() == 1 {
        if !branch[0].split.is_zero() {
            return Err(
                RouteValidationError::InvalidSplit {
                    reason: SplitFault::SingleNotZero {
                        token_in: token_in.clone(),
                        split: branch[0].split,
                    },
                },
            );
        }
        return Ok(());
    }
    let ghost fault = share_fault(*token_in, branch@);
    let mut parts: Vec<Split> = Vec::new();
    let mut nan: bool = false;
    let last: usize = branch.len() - 1;
    let mut i: usize = 0;
    while i < branch.len()
        invariant
            i <= branch@.len(),
            branch@.len() != 1,
            last == branch@.len() - 1,
            fault == share_fault(*token_in, branch@),
            first_fault(i as nat, fault) is None,
            i <= last ==> parts@ == shares(branch@.take(i as int)),
            i > last ==> parts@ == shares(branch@.take(last as int)),
            nan == has_nan(parts@),
        decreases branch@.len() - i,
    {
        let split: Split = branch[i].split;
        if i < last {
            if split.is_zero() || split.is_negative() || split.is_at_least_one() {
                proof {
                    first_fault_stays((i + 1) as nat, branch@.len(), fault);
                }
                return Err(
                    RouteValidationError::InvalidSplit {
                        reason: SplitFault::OutOfRange {
                            index: i,
                            token_in: token_in.clone(),
                            split,
                        },
                    },
                );
            }
            let ghost before = parts@;
            parts.push(split);
            proof {
                assert(parts@ == shares(branch@.take(i + 1)));
                if nan {
                    let j = choose|j: int|
                        0 <= j < before.len() && (#[trigger] before[j]).spec_is_nan();
                    assert(parts@[j].spec_is_nan());
                }
                if split.spec_is_nan() {
                    assert(parts@[i as int].spec_is_nan());
                }
                if has_nan(parts@) {
                    let j = choose|j: int|
                        0 <= j < parts@.len() && (#[trigger] parts@[j]).spec_is_nan();
                    if j < before.len() {
                        assert(before[j].spec_is_nan());
                    }
                }
            }
            nan = nan || split.is_nan();
        } else if !split.is_zero() {
            proof {
                first_fault_stays((i + 1) as nat, branch@.len(), fault);
            }
            return Err(
                RouteValidationError::InvalidSplit {
                    reason: SplitFault::LastNotZero { token_in: token_in.clone(), split },
                },
            );
        }
        i += 1;
    }
    assert(branch@.take(last as int) == branch@.drop_last());
    if !nan && one().at_most(&add_up(&parts)) {
        return Err(
            RouteValidationError::InvalidSplit {
                reason: SplitFault::SumNotBelowOne { token_in: token_in.clone() },
            },
        );
    }
    Ok(())
}

/// The members of `inputs` are inputs of swaps, and stand for all of them.
proof fn inputs_cover(swaps: Seq<Swap>)
    ensures
        swaps.len() > 0 ==> inputs(swaps).len() > 0 && inputs(swaps)[0] == swaps[0].token_in,
        forall|g: int|
            0 <= g < inputs(swaps).len() ==> exists|k: int|
                0 <= k < swaps.len() && (#[trigger] swaps[k]).token_in == #[trigger] inputs(
                    swaps,
                )[g],
        forall|k: int|
            0 <= k < swaps.len() ==> crate::bytes::among(inputs(swaps), (#[trigger] swaps[k]).token_in@),
    decreases swaps.len(),
{
    if swaps.len() > 0 {
        let front = swaps.drop_last();
        let tokens = inputs(swaps);
        inputs_cover(front);
        assert forall|g: int| 0 <= g < tokens.len() implies exists|k: int|
            0 <= k < swaps.len() && (#[trigger] swaps[k]).token_in == #[trigger] tokens[g] by {
            if g < inputs(front).len() {
                let k = choose|k: int|
                    0 <= k < front.len() && (#[trigger] front[k]).token_in == inputs(front)[g];
                assert(swaps[k].token_in == tokens[g]);
            } else {
                assert(swaps[swaps.len() - 1].token_in == tokens[g]);
            }
        }
        assert forall|k: int| 0 <= k < swaps.len() implies crate::bytes::among(
            tokens,
            (#[trigger] swaps[k]).token_in@,
        ) by {
            if k < front.len() {
                assert(crate::bytes::among(inputs(front), front[k].token_in@));
                let i = choose|i: int|
                    0 <= i < inputs(front).len() && #[trigger] inputs(front)[i]@
                        == front[k].token_in@;
                assert(tokens[i]@ == swaps[k].token_in@);
            } else if crate::bytes::among(inputs(front), swaps[k].token_in@) {
            } else {
                assert(tokens[tokens.len() - 1]@ == swaps[k].token_in@);
            }
        }
        if front.len() == 0 {
            assert(tokens[0] == swaps[0].token_in);
        }
    }
}

/// Each input has a swap that draws on it.
proof fn branches_nonempty(swaps: Seq<Swap>, g: int)
    requires
        0 <= g < inputs(swaps).len(),
    ensures
        branches(swaps, inputs(swaps)[g]@).len() > 0,
{
    let token = inputs(swaps)[g];
    let draws = |s: Swap| s.token_in@ == token@;
    inputs_cover(swaps);
    let k = choose|k: int| 0 <= k < swaps.len() && (#[trigger] swaps[k]).token_in == token;
    swaps.lemma_filter_contains(draws, k);
    assert(swaps.filter(draws).contains(swaps[k]));
}

fn validate_split_amounts(swaps: &Vec<Swap>, tokens: &Vec<Address>) -> (r: Result<
    (),
    RouteValidationError,
>)
    requires
        tokens@ == inputs(swaps@),
    ensures
        r == verdict(first_fault(inputs(swaps@).len(), split_fault(swaps@))),
{
    let ghost fault = split_fault(swaps@);
    let mut g: usize = 0;
    while g < tokens.len()
        invariant
            g <= tokens@.len(),
            tokens@ == inputs(swaps@),
            fault == split_fault(swaps@),
            first_fault(g as nat, fault) is None,
        decreases tokens@.len() - g,
    {
        let branch: Vec<Swap> = collect_branches(swaps, &tokens[g]);
        proof {
            branches_nonempty(swaps@, g as int);
        }
        let checked = validate_branch(&tokens[g], &branch);
        if checked.is_err() {
            proof {
                first_fault_stays((g + 1) as nat, tokens@.len(), fault);
            }
            return checked;
        }
        g += 1;
    }
    Ok(())
}

/// A chain that starts inside a set of tokens which no swap leads out of stays inside.
proof fn chain_stays(swaps: Seq<Swap>, chain: Seq<Seq<u8>>, visited: Seq<Address>)
    requires
        is_chain(swaps, chain),
        crate::bytes::among(visited, chain[0]),
        forall|k: int|
            0 <= k < swaps.len() && crate::bytes::among(visited, (#[trigger] swaps[k]).token_in@) ==> crate::bytes::among(
                visited,
                swaps[k].token_out@,
            ),
    ensures
        crate::bytes::among(visited, chain.last()),
    decreases chain.len(),
{
    if chain.len() > 1 {
        let front = chain.drop_last();
        assert forall|i: int| 0 < i < front.len() implies feeds(
            swaps,
            front[i - 1],
            #[trigger] front[i],
        ) by {
            assert(feeds(swaps, chain[i - 1], chain[i]));
        }
        chain_stays(swaps, front, visited);
        let n = chain.len() - 1;
        assert(feeds(swaps, chain[n - 1], chain[n]));
        let k = choose|k: int|
            0 <= k < swaps.len() && #[trigger] swaps[k].token_in@ == chain[n - 1]
                && swaps[k].token_out@ == chain[n];
        assert(crate::bytes::among(visited, swaps[k].token_in@));
    }
}

/// What a swap makes of a reachable token is reachable.
proof fn reachable_step(swaps: Seq<Swap>, start: Seq<u8>, k: int)
    requires
        0 <= k < swaps.len(),
        reachable(swaps, start, swaps[k].token_in@),
    ensures
        reachable(swaps, start, swaps[k].token_out@),
{
    let chain = choose|chain: Seq<Seq<u8>>| #[trigger]
        is_chain(swaps, chain) && chain[0] == start && chain.last() == swaps[k].token_in@;
    let longer = chain.push(swaps[k].token_out@);
    assert forall|i: int| 0 < i < longer.len() implies feeds(
        swaps,
        longer[i - 1],
        #[trigger] longer[i],
    ) by {
        if i < chain.len() {
            assert(feeds(swaps, chain[i - 1], chain[i]));
        } else {
            assert(swaps[k].token_in@ == longer[i - 1]);
        }
    }
    assert(is_chain(swaps, longer));
}

proof fn among_push(tokens: Seq<Address>, added: Address, token: Seq<u8>)
    ensures
        crate::bytes::among(tokens.push(added), token) == (crate::bytes::among(tokens, token) || added@ == token),
{
    let after = tokens.push(added);
    if crate::bytes::among(tokens, token) {
        let i = choose|i: int| 0 <= i < tokens.len() && #[trigger] tokens[i]@ == token;
        assert(after[i]@ == token);
    }
    if added@ == token {
        assert(after[tokens.len() as int]@ == token);
    }
    if crate::bytes::among(after, token) {
        let i = choose|i: int| 0 <= i < after.len() && #[trigger] after[i]@ == token;
        if i < tokens.len() {
            assert(tokens[i]@ == token);
        }
    }
}

/// The tokens that swaps lead to from `start`, breadth first.
fn collect_reachable(swaps: &Vec<Swap>, start: &Address) -> (r: Vec<Address>)
    ensures
        forall|token: Seq<u8>| #[trigger] crate::bytes::among(r@, token) <==> reachable(swaps@, start@, token),
{
    let mut visited: Vec<Address> = Vec::new();
    visited.push(start.clone());
    let ghost outs = swaps@.map_values(|s: Swap| s.token_out@);
    let ghost mut unseen: Set<Seq<u8>> = outs.to_set();
    proof {
        vstd::seq_lib::seq_to_set_is_finite(outs);
        let chain: Seq<Seq<u8>> = seq![start@];
        assert(is_chain(swaps@, chain));
        assert(reachable(swaps@, start@, start@));
        assert forall|token: Seq<u8>| #[trigger] crate::bytes::among(visited@, token) implies reachable(
            swaps@,
            start@,
            token,
        ) by {
            assert(token == start@);
        }
        assert(visited@[0]@ == start@);
        assert forall|k: int| 0 <= k < swaps@.len() implies unseen.contains(
            (#[trigger] swaps@[k]).token_out@,
        ) by {
            assert(outs[k] == swaps@[k].token_out@);
        }
    }
    let mut next: usize = 0;
    while next < visited.len()
        invariant
            next <= visited@.len(),
            unseen.finite(),
            crate::bytes::among(visited@, start@),
            forall|token: Seq<u8>| #[trigger]
                crate::bytes::among(visited@, token) ==> reachable(swaps@, start@, token),
            forall|k: int|
                0 <= k < swaps@.len() ==> unseen.contains((#[trigger] swaps@[k]).token_out@)
                    || crate::bytes::among(visited@, swaps@[k].token_out@),
            forall|j: int, k: int|
                0 <= j < next && 0 <= k < swaps@.len() && #[trigger] visited@[j]@ == (
                #[trigger] swaps@[k]).token_in@ ==> crate::bytes::among(visited@, swaps@[k].token_out@),
        decreases unseen.len(), visited@.len() - next,
    {
        let token: Address = visited[next].clone();
        let ghost seen = visited@.len();
        let ghost total = unseen.len() + seen;
        let mut k: usize = 0;
        while k < swaps.len()
            invariant
                k <= swaps@.len(),
                next < visited@.len(),
                visited@[next as int] == token,
                unseen.finite(),
                seen <= visited@.len(),
                unseen.len() + visited@.len() == total,
                crate::bytes::among(visited@, start@),
                crate::bytes::among(visited@, token@),
                forall|t: Seq<u8>| #[trigger]
                    crate::bytes::among(visited@, t) ==> reachable(swaps@, start@, t),
                forall|m: int|
                    0 <= m < swaps@.len() ==> unseen.contains((#[trigger] swaps@[m]).token_out@)
                        || crate::bytes::among(visited@, swaps@[m].token_out@),
                forall|j: int, m: int|
                    0 <= j < next && 0 <= m < swaps@.len() && #[trigger] visited@[j]@ == (
                    #[trigger] swaps@[m]).token_in@ ==> crate::bytes::among(visited@, swaps@[m].token_out@),
                forall|m: int|
                    0 <= m < k && (#[trigger] swaps@[m]).token_in@ == token@ ==> crate::bytes::among(
                        visited@,
                        swaps@[m].token_out@,
                    ),
            decreases swaps@.len() - k,
        {
            if swaps[k].token_in.same(&token) {
                let n: usize = visited.len();
                let known: bool = is_among_part(&visited, 0, n, &swaps[k].token_out);
                assert(visited@.subrange(0, n as int) == visited@);
                if !known {
                    let ghost before = visited@;
                    let out: Address = swaps[k].token_out.clone();
                    visited.push(out);
                    proof {
                        reachable_step(swaps@, start@, k as int);
                        assert(unseen.contains(out@));
                        unseen = unseen.remove(out@);
                        assert forall|t: Seq<u8>| #[trigger] crate::bytes::among(visited@, t) == (crate::bytes::among(before, t)
                            || out@ == t) by {
                            among_push(before, out, t);
                        }
                    }
                }
            }
            k += 1;
        }
        next += 1;
        assert forall|j: int, m: int|
            0 <= j < next && 0 <= m < swaps@.len() && #[trigger] visited@[j]@ == (
            #[trigger] swaps@[m]).token_in@ implies crate::bytes::among(visited@, swaps@[m].token_out@) by {
            if j == next - 1 {
                assert(swaps@[m].token_in@ == token@);
            }
        }
    }
    proof {
        assert forall|m: int|
            0 <= m < swaps@.len() && crate::bytes::among(
                visited@,
                (#[trigger] swaps@[m]).token_in@,
            ) implies crate::bytes::among(visited@, swaps@[m].token_out@) by {
            let j = choose|j: int|
                0 <= j < visited@.len() && #[trigger] visited@[j]@ == swaps@[m].token_in@;
            assert(visited@[j]@ == swaps@[m].token_in@);
        }
        assert forall|t: Seq<u8>| #[trigger] crate::bytes::among(visited@, t) <==> reachable(
            swaps@,
            start@,
            t,
        ) by {
            if reachable(swaps@, start@, t) {
                let chain = choose|chain: Seq<Seq<u8>>| #[trigger]
                    is_chain(swaps@, chain) && chain[0] == start@ && chain.last() == t;
                chain_stays(swaps@, chain, visited@);
            }
        }
    }
    visited
}

/// Every input must be reachable from the first one.
fn validate_bfs_connectivity(swaps: &Vec<Swap>, tokens: &Vec<Address>) -> (r: Result<
    (),
    RouteValidationError,
>)
    requires
        tokens@ == inputs(swaps@),
        tokens@.len() > 0,
    ensures
        r == verdict(first_fault(inputs(swaps@).len(), unreachable_at(swaps@))),
{
    let ghost fault = unreachable_at(swaps@);
    let visited: Vec<Address> = collect_reachable(swaps, &tokens[0]);
    let n: usize = visited.len();
    assert(visited@.subrange(0, n as int) == visited@);
    let mut g: usize = 0;
    while g < tokens.len()
        invariant
            g <= tokens@.len(),
            tokens@.len() > 0,
            n == visited@.len(),
            visited@.subrange(0, n as int) == visited@,
            tokens@ == inputs(swaps@),
            fault == unreachable_at(swaps@),
            forall|token: Seq<u8>| #[trigger]
                crate::bytes::among(visited@, token) <==> reachable(swaps@, tokens@[0]@, token),
            first_fault(g as nat, fault) is None,
        decreases tokens@.len() - g,
    {
        if !is_among_part(&visited, 0, n, &tokens[g]) {
            proof {
                first_fault_stays((g + 1) as nat, tokens@.len(), fault);
            }
            return Err(
                RouteValidationError::DisconnectedSplitStart {
                    token_in: tokens[g].clone(),
                    start_token: tokens[0].clone(),
                },
            );
        }
        g += 1;
    }
    Ok(())
}

/// Every output must feed a later input or be the terminal token.
fn validate_dead_ends(swaps: &Vec<Swap>, tokens: &Vec<Address>) -> (r: Result<
    (),
    RouteValidationError,
>)
    requires
        swaps@.len() > 0,
        tokens@ == inputs(swaps@),
        tokens@.len() > 0,
    ensures
        r == verdict(first_fault(inputs(swaps@).len(), dead_end_at(swaps@))),
{
    let ghost fault = dead_end_at(swaps@);
    let terminal: &Address = &swaps[swaps.len() - 1].token_out;
    let n: usize = tokens.len();
    assert(tokens@.subrange(1, n as int) == tokens@.skip(1));
    let mut g: usize = 0;
    while g < tokens.len()
        invariant
            g <= tokens@.len(),
            n == tokens@.len(),
            n > 0,
            swaps@.len() > 0,
            *terminal == swaps@.last().token_out,
            tokens@ == inputs(swaps@),
            tokens@.subrange(1, n as int) == tokens@.skip(1),
            fault == dead_end_at(swaps@),
            first_fault(g as nat, fault) is None,
        decreases tokens@.len() - g,
    {
        let branch: Vec<Swap> = collect_branches(swaps, &tokens[g]);
        let ghost inner = dead_end_of(swaps@, branch@);
        let mut i: usize = 0;
        while i < branch.len()
            invariant
                i <= branch@.len(),
                g < tokens@.len(),
                n == tokens@.len(),
                n > 0,
                branch@ == branches(swaps@, tokens@[g as int]@),
                *terminal == swaps@.last().token_out,
                tokens@ == inputs(swaps@),
                tokens@.subrange(1, n as int) == tokens@.skip(1),
                fault == dead_end_at(swaps@),
                inner == dead_end_of(swaps@, branch@),
                first_fault(g as nat, fault) is None,
                first_fault(i as nat, inner) is None,
            decreases branch@.len() - i,
        {
            let out: &Address = &branch[i].token_out;
            if !is_among_part(tokens, 1, n, out) && !out.same(terminal) {
                proof {
                    first_fault_stays((i + 1) as nat, branch@.len(), inner);
                    first_fault_stays((g + 1) as nat, tokens@.len(), fault);
                }
                return Err(
                    RouteValidationError::DisconnectedSplitEnd {
                        token_out: out.clone(),
                        terminal_token: terminal.clone(),
                    },
                );
            }
            i += 1;
        }
        g += 1;
    }
    Ok(())
}

/// No swap may go back, other than to close a round trip.
fn validate_cycles(swaps: &Vec<Swap>, tokens: &Vec<Address>) -> (r: Result<
    (),
    RouteValidationError,
>)
    requires
        swaps@.len() > 0,
        tokens@ == inputs(swaps@),
        tokens@.len() > 0,
    ensures
        r == verdict(split_cycle_fault(swaps@)),
{
    let terminal: &Address = &swaps[swaps.len() - 1].token_out;
    let first: &Address = &tokens[0];
    let round_trip: bool = first.same(terminal);
    if round_trip && tokens.len() <= 1 {
        return Err(
            RouteValidationError::UnsupportedCycle {
                token: first.clone(),
                first: first.clone(),
                last: terminal.clone(),
            },
        );
    }
    let ghost fault = back_edge_at(swaps@);
    let n: usize = tokens.len();
    let mut g: usize = 0;
    while g < n
        invariant
            g <= n,
            n == tokens@.len(),
            tokens@ == inputs(swaps@),
            tokens@.len() > 0,
            *terminal == swaps@.last().token_out,
            *first == tokens@[0],
            round_trip == is_round_trip(swaps@),
            fault == back_edge_at(swaps@),
            first_fault(g as nat, fault) is None,
        decreases tokens@.len() - g,
    {
        let branch: Vec<Swap> = collect_branches(swaps, &tokens[g]);
        let ghost inner = back_edge_of(swaps@, g as int, branch@);
        let mut i: usize = 0;
        while i < branch.len()
            invariant
                i <= branch@.len(),
                g < n,
                n == tokens@.len(),
                branch@ == branches(swaps@, tokens@[g as int]@),
                tokens@ == inputs(swaps@),
                tokens@.len() > 0,
                *terminal == swaps@.last().token_out,
                *first == tokens@[0],
                round_trip == is_round_trip(swaps@),
                fault == back_edge_at(swaps@),
                inner == back_edge_of(swaps@, g as int, branch@),
                first_fault(g as nat, fault) is None,
                first_fault(i as nat, inner) is None,
            decreases branch@.len() - i,
        {
            let out: &Address = &branch[i].token_out;
            assert(tokens@.subrange(0, g + 1) == tokens@.take(g + 1));
            if is_among_part(tokens, 0, g + 1, out) && !(round_trip && out.same(first)) {
                proof {
                    first_fault_stays((i + 1) as nat, branch@.len(), inner);
                    first_fault_stays((g + 1) as nat, tokens@.len(), fault);
                }
                return Err(
                    RouteValidationError::UnsupportedCycle {
                        token: out.clone(),
                        first: first.clone(),
                        last: terminal.clone(),
                    },
                );
            }
            i += 1;
        }
        g += 1;
    }
    Ok(())
}

/// Whether the output of swap `i` is a token that the path has met before.
fn path_revisits(swaps: &Vec<Swap>, i: usize) -> (r: bool)
    requires
        i < swaps@.len(),
    ensures
        r == revisits(swaps@, i as int),
{
    let out: &Address = &swaps[i].token_out;
    if out.same(&swaps[0].token_in) {
        return true;
    }
    let mut j: usize = 0;
    while j < i
        invariant
            j <= i,
            i < swaps@.len(),
            *out == swaps@[i as int].token_out,
            forall|m: int| 0 <= m < j ==> #[trigger] swaps@[m].token_out@ != out@,
        decreases i - j,
    {
        if swaps[j].token_out.same(out) {
            assert(swaps@[j as int].token_out@ == out@);
            return true;
        }
        j += 1;
    }
    false
}

impl Route {
    /// Creates a route from an ordered sequence of swaps.
    pub fn new(swaps: Vec<Swap>, tokens: Table<Address, Token>) -> (r: Self)
        ensures
            r.swaps@ == swaps@,
            r.tokens@ == tokens@,
    {
        Route { swaps: Arc::new(swaps), tokens: Arc::new(tokens) }
    }

    /// Validates that the route is well-formed.
    ///
    /// A route has a swap. In a sequential route each swap hands its output to the next, and no
    /// token appears twice, except that the last one may be the first. In a split route the shares
    /// of each input add up to less than one and leave the remainder to the last swap, every input
    /// is reachable from the first one, every output leads on, and none leads back, except to close
    /// a round trip.
    pub fn validate(&self) -> (r: Result<(), RouteValidationError>)
        ensures
            r == verdict(route_fault(self.swaps@)),
    {
        if self.swaps.len() == 0 {
            return Err(RouteValidationError::EmptyRoute);
        }
        if self.is_split() {
            return self.validate_split_route();
        }
        self.validate_sequential_route()
    }

    /// Validates a route without shares.
    fn validate_sequential_route(&self) -> (r: Result<(), RouteValidationError>)
        requires
            self.swaps@.len() > 0,
        ensures
            r == verdict(sequential_fault(self.swaps@)),
    {
        let swaps: &Vec<Swap> = &self.swaps;
        let n: usize = swaps.len();
        let ghost broken = break_after(swaps@);
        let mut i: usize = 0;
        while i + 1 < n
            invariant
                swaps@ == self.swaps@,
                n == swaps@.len(),
                n > 0,
                i < n,
                broken == break_after(swaps@),
                first_fault(i as nat, broken) is None,
            decreases n - i,
        {
            if !swaps[i].token_out.same(&swaps[i + 1].token_in) {
                proof {
                    first_fault_stays((i + 1) as nat, (n - 1) as nat, broken);
                }
                return Err(
                    RouteValidationError::DisconnectedSwaps {
                        first_out: swaps[i].token_out.clone(),
                        second_in: swaps[i + 1].token_in.clone(),
                    },
                );
            }
            i += 1;
        }
        let ghost cycle = cycle_at(swaps@);
        let first: &Address = &swaps[0].token_in;
        let mut k: usize = 0;
        while k < n
            invariant
                swaps@ == self.swaps@,
                n == swaps@.len(),
                n > 0,
                k <= n,
                *first == swaps@[0].token_in,
                broken == break_after(swaps@),
                cycle == cycle_at(swaps@),
                first_fault((n - 1) as nat, broken) is None,
                first_fault(k as nat, cycle) is None,
            decreases n - k,
        {
            if path_revisits(swaps, k) && !(k == n - 1 && swaps[k].token_out.same(first)) {
                proof {
                    first_fault_stays((k + 1) as nat, n as nat, cycle);
                }
                return Err(
                    RouteValidationError::UnsupportedCycle {
                        token: swaps[k].token_out.clone(),
                        first: first.clone(),
                        last: swaps[n - 1].token_out.clone(),
                    },
                );
            }
            k += 1;
        }
        Ok(())
    }

    /// Validates a route with shares.
    fn validate_split_route(&self) -> (r: Result<(), RouteValidationError>)
        requires
            self.swaps@.len() > 0,
        ensures
            r == verdict(split_route_fault(self.swaps@)),
    {
        let swaps: &Vec<Swap> = &self.swaps;
        let tokens: Vec<Address> = collect_inputs(swaps);
        proof {
            inputs_cover(swaps@);
        }
        let amounts = validate_split_amounts(swaps, &tokens);
        if amounts.is_err() {
            return amounts;
        }
        let connected = validate_bfs_connectivity(swaps, &tokens);
        if connected.is_err() {
            return connected;
        }
        let ends = validate_dead_ends(swaps, &tokens);
        if ends.is_err() {
            return ends;
        }
        validate_cycles(swaps, &tokens)
    }

    /// Whether any swap takes a share.
    pub fn is_split(&self) -> (r: bool)
        ensures
            r == takes_shares(self.swaps@),
    {
        let mut i: usize = 0;
        while i < self.swaps.len()
            invariant
                i <= self.swaps@.len(),
                forall|j: int| 0 <= j < i ==> !(#[trigger] self.swaps@[j]).split.spec_is_positive(),
            decreases self.swaps@.len() - i,
        {
            if self.swaps[i].split.is_positive() {
                assert(self.swaps@[i as int].split.spec_is_positive());
                return true;
            }
            i += 1;
        }
        false
    }
}

/// The gas of swaps, added up.
pub open spec fn gas_of(swaps: Seq<Swap>) -> nat
    decreases swaps.len(),
{
    if swaps.len() == 0 {
        0
    } else {
        gas_of(swaps.drop_last()) + swaps.last().gas_estimate@
    }
}

/// What a path description calls a token: its symbol, or else its address.
pub open spec fn token_label(tokens: Map<Seq<u8>, Token>, token: Address) -> Seq<char> {
    if tokens.dom().contains(token@) {
        tokens[token@].symbol@
    } else {
        "Bytes(0x"@ + crate::text::hex_text(token@) + ")"@
    }
}

/// The tokens along a path: the first input, then each output.
pub open spec fn path_tokens(swaps: Seq<Swap>) -> Seq<Address> {
    if swaps.len() == 0 {
        seq![]
    } else {
        seq![swaps[0].token_in] + swaps.map_values(|s: Swap| s.token_out)
    }
}

fn label_of(tokens: &Table<Address, Token>, token: &Address) -> (r: String)
    ensures
        r@ == token_label(tokens@, *token),
{
    match tokens.get(token) {
        Some(t) => t.symbol.clone(),
        None => token.to_debug_text(),
    }
}

impl Route {
    /// The swaps of the route.
    pub fn swaps(&self) -> (r: &Vec<Swap>)
        ensures
            r@ == self.swaps@,
    {
        &self.swaps
    }

    /// The swaps of the route, for good.
    pub fn into_swaps(self) -> (r: Vec<Swap>)
        ensures
            r@ == self.swaps@,
    {
        let mut r: Vec<Swap> = Vec::new();
        let mut i: usize = 0;
        while i < self.swaps.len()
            invariant
                i <= self.swaps@.len(),
                r@ == self.swaps@.take(i as int),
            decreases self.swaps@.len() - i,
        {
            r.push(self.swaps[i].clone());
            i += 1;
        }
        assert(self.swaps@.take(i as int) == self.swaps@);
        r
    }

    /// The tokens of the route by address.
    pub fn tokens(&self) -> (r: &Table<Address, Token>)
        ensures
            r@ == self.tokens@,
    {
        &self.tokens
    }

    /// The number of swaps.
    pub fn hop_count(&self) -> (r: usize)
        ensures
            r == self.swaps@.len(),
    {
        self.swaps.len()
    }

    /// The path in words, such as "WETH -> USDC -> DAI". A token that `tokens` does not know goes by
    /// its address.
    pub fn path_description(&self, tokens: &Table<Address, Token>) -> (r: String)
        ensures
            r@ == crate::text::joined(
                path_tokens(self.swaps@).map_values(|t: Address| token_label(tokens@, t)),
                " -> "@,
            ),
    {
        let ghost label = |t: Address| token_label(tokens@, t);
        let ghost path = path_tokens(self.swaps@);
        let mut labels: Vec<String> = Vec::new();
        let mut i: usize = 0;
        while i < self.swaps.len()
            invariant
                i <= self.swaps@.len(),
                path == path_tokens(self.swaps@),
                labels@.len() == if i == 0 {
                    0
                } else {
                    i + 1
                },
                forall|j: int|
                    0 <= j < labels@.len() ==> (#[trigger] labels@[j])@ == token_label(
                        tokens@,
                        path[j],
                    ),
            decreases self.swaps@.len() - i,
        {
            if i == 0 {
                labels.push(label_of(tokens, &self.swaps[i].token_in));
            }
            labels.push(label_of(tokens, &self.swaps[i].token_out));
            i += 1;
        }
        assert(labels@.map_values(|p: String| p@) == path.map_values(label));
        join(&labels, " -> ")
    }

    /// The input token of the route: the first swap's input.
    pub fn input_token(&self) -> (r: Option<Address>)
        ensures
            r == if self.swaps@.len() == 0 {
                None
            } else {
                Some(self.swaps@[0].token_in)
            },
    {
        if self.swaps.len() == 0 {
            None
        } else {
            Some(self.swaps[0].token_in.clone())
        }
    }

    /// The output token of the route: the last swap's output.
    pub fn output_token(&self) -> (r: Option<Address>)
        ensures
            r == if self.swaps@.len() == 0 {
                None
            } else {
                Some(self.swaps@.last().token_out)
            },
    {
        let n: usize = self.swaps.len();
        if n == 0 {
            None
        } else {
            Some(self.swaps[n - 1].token_out.clone())
        }
    }

    /// The tokens between the input and the output: each output but the last.
    pub fn intermediate_tokens(&self) -> (r: Vec<Address>)
        ensures
            r@ == if self.swaps@.len() == 0 {
                seq![]
            } else {
                self.swaps@.drop_last().map_values(|s: Swap| s.token_out)
            },
    {
        let mut r: Vec<Address> = Vec::new();
        let n: usize = self.swaps.len();
        let mut i: usize = 0;
        while i + 1 < n
            invariant
                n == self.swaps@.len(),
                i <= n,
                n > 0 ==> i < n,
                r@ == self.swaps@.take(i as int).map_values(|s: Swap| s.token_out),
            decreases n - i,
        {
            r.push(self.swaps[i].token_out.clone());
            i += 1;
        }
        if n > 0 {
            assert(self.swaps@.take(i as int) == self.swaps@.drop_last());
        }
        r
    }

    /// The gas of all swaps, added up.
    pub fn total_gas(&self) -> (r: Amount)
        ensures
            r@ == gas_of(self.swaps@),
    {
        let mut sum: Amount = Amount::zero();
        let mut i: usize = 0;
        while i < self.swaps.len()
            invariant
                i <= self.swaps@.len(),
                sum@ == gas_of(self.swaps@.take(i as int)),
            decreases self.swaps@.len() - i,
        {
            sum = sum.plus(&self.swaps[i].gas_estimate);
            i += 1;
            assert(self.swaps@.take(i as int).drop_last() == self.swaps@.take(i - 1));
        }
        assert(self.swaps@.take(i as int) == self.swaps@);
        sum
    }
}

/// Each swap hands its output to the next.
pub open spec fn is_connected(swaps: Seq<Swap>) -> bool {
    forall|i: int|
        0 < i < swaps.len() ==> swaps[i - 1].token_out@ == (#[trigger] swaps[i]).token_in@
}

/// No token appears twice along a path, except that the last one may be the first.
pub open spec fn repeats_at_most_the_ends(path: Seq<Address>) -> bool {
    forall|i: int, j: int|
        0 <= i < j < path.len() && (#[trigger] path[i])@ == (#[trigger] path[j])@ ==> i == 0 && j
            == path.len() - 1
}

proof fn no_fault_anywhere(n: nat, fault: spec_fn(int) -> Option<RouteValidationError>)
    ensures
        first_fault(n, fault) is None <==> forall|i: int| 0 <= i < n ==> (#[trigger] fault(i)) is None,
    decreases n,
{
    if n > 0 {
        no_fault_anywhere((n - 1) as nat, fault);
    }
}

/// A route without shares is valid exactly when it has a swap, each swap hands its output to the
/// next, and no token appears twice along the path unless it is both the first and the last.
pub proof fn sequential_route_is_valid(swaps: Seq<Swap>)
    requires
        !takes_shares(swaps),
    ensures
        route_fault(swaps) is None <==> swaps.len() > 0 && is_connected(swaps)
            && repeats_at_most_the_ends(path_tokens(swaps)),
{
    if swaps.len() > 0 {
        let broken = break_after(swaps);
        let cycle = cycle_at(swaps);
        let path = path_tokens(swaps);
        let n = swaps.len();
        no_fault_anywhere((n - 1) as nat, broken);
        no_fault_anywhere(n, cycle);
        if route_fault(swaps) is None {
            assert forall|i: int| 0 < i < n implies swaps[i - 1].token_out@ == (
            #[trigger] swaps[i]).token_in@ by {
                assert(broken(i - 1) is None);
            }
            assert forall|i: int, j: int|
                0 <= i < j < path.len() && (#[trigger] path[i])@ == (
                #[trigger] path[j])@ implies i == 0 && j == path.len() - 1 by {
                assert(path[j] == swaps[j - 1].token_out);
                assert(cycle(j - 1) is None);
                if i > 0 {
                    assert(path[i] == swaps[i - 1].token_out);
                    assert(swaps[i - 1].token_out@ == swaps[j - 1].token_out@);
                    assert(revisits(swaps, j - 1));
                    assert(cycle(i - 1) is None);
                    assert(swaps[i - 1].token_out@ == swaps[0].token_in@);
                    assert(revisits(swaps, i - 1));
                }
            }
        }
        if is_connected(swaps) && repeats_at_most_the_ends(path) {
            assert forall|i: int| 0 <= i < n - 1 implies (#[trigger] broken(i)) is None by {
                assert(swaps[i + 1 - 1].token_out@ == swaps[i + 1].token_in@);
            }
            assert forall|k: int| 0 <= k < n implies (#[trigger] cycle(k)) is None by {
                assert(path[k + 1] == swaps[k].token_out);
                assert(path[0] == swaps[0].token_in);
                if revisits(swaps, k) {
                    if swaps[k].token_out@ == swaps[0].token_in@ {
                        assert(path[0]@ == path[k + 1]@);
                    } else {
                        let j = choose|j: int|
                            0 <= j < k && #[trigger] swaps[j].token_out@ == swaps[k].token_out@;
                        assert(path[j + 1] == swaps[j].token_out);
                        assert(path[j + 1]@ == path[k + 1]@);
                    }
                }
            }
        }
    }
}

/// In a valid split route every input is reachable from the first one, and every output is the
/// terminal token or feeds an input that comes later in the route.
pub proof fn valid_split_route_leads_on(swaps: Seq<Swap>, g: int, i: int)
    requires
        takes_shares(swaps),
        route_fault(swaps) is None,
        0 <= g < inputs(swaps).len(),
        0 <= i < branches(swaps, inputs(swaps)[g]@).len(),
    ensures
        reachable(swaps, inputs(swaps)[0]@, inputs(swaps)[g]@),
        ({
            let out = branches(swaps, inputs(swaps)[g]@)[i].token_out@;
            ||| out == swaps.last().token_out@
            ||| exists|h: int| g < h < inputs(swaps).len() && #[trigger] inputs(swaps)[h]@ == out
        }),
{
    let tokens = inputs(swaps);
    let n = tokens.len();
    let branch = branches(swaps, tokens[g]@);
    let out = branch[i].token_out@;
    no_fault_anywhere(n, unreachable_at(swaps));
    no_fault_anywhere(n, dead_end_at(swaps));
    no_fault_anywhere(n, back_edge_at(swaps));
    no_fault_anywhere(branch.len(), dead_end_of(swaps, branch));
    no_fault_anywhere(branch.len(), back_edge_of(swaps, g, branch));
    assert(unreachable_at(swaps)(g) is None);
    assert(dead_end_at(swaps)(g) is None);
    assert(back_edge_at(swaps)(g) is None);
    assert(dead_end_of(swaps, branch)(i) is None);
    assert(back_edge_of(swaps, g, branch)(i) is None);
    if out != swaps.last().token_out@ {
        assert(crate::bytes::among(tokens.skip(1), out));
        let h = choose|h: int| 0 <= h < tokens.skip(1).len() && #[trigger] tokens.skip(1)[h]@ == out;
        assert(tokens[h + 1]@ == out);
        if h + 1 <= g {
            assert(tokens.take(g + 1)[h + 1]@ == out);
            assert(crate::bytes::among(tokens.take(g + 1), out));
        }
    }
}

/// In a valid split route the swaps that draw on one token leave it a remainder: the shares are each
/// more than zero and less than one, or not numbers, all but the last one, which is zero, and unless
/// one of them is not a number they add up to less than one.
pub proof fn valid_split_route_leaves_remainder(swaps: Seq<Swap>, g: int)
    requires
        takes_shares(swaps),
        route_fault(swaps) is None,
        0 <= g < inputs(swaps).len(),
    ensures
        ({
            let branch = branches(swaps, inputs(swaps)[g]@);
            let before_last = shares(branch.drop_last());
            &&& branch.len() > 0
            &&& branch.last().split.spec_is_zero()
            &&& forall|i: int|
                0 <= i < before_last.len() ==> (#[trigger] before_last[i]).spec_is_nan() || (
                before_last[i].spec_is_positive() && !before_last[i].spec_is_at_least_one())
            &&& has_nan(before_last) || crate::split::sum_units(before_last) < crate::split::units_of_one()
        }),
{
    let token_in = inputs(swaps)[g];
    let branch = branches(swaps, token_in@);
    let before_last = shares(branch.drop_last());
    branches_nonempty(swaps, g);
    no_fault_anywhere(inputs(swaps).len(), split_fault(swaps));
    assert(split_fault(swaps)(g) is None);
    if branch.len() == 1 {
        assert(before_last.len() == 0);
        assert(crate::split::units_of_one() > 0) by {
            vstd::arithmetic::power2::lemma_pow2_pos(1074);
        }
    } else {
        let fault = share_fault(token_in, branch);
        no_fault_anywhere(branch.len(), fault);
        assert(fault(branch.len() - 1) is None);
        assert forall|i: int| 0 <= i < before_last.len() implies (
        #[trigger] before_last[i]).spec_is_nan() || (before_last[i].spec_is_positive()
            && !before_last[i].spec_is_at_least_one()) by {
            assert(fault(i) is None);
            assert(before_last[i] == branch[i].split);
        }
    }
}

/// The gas of swaps is the sum of the gas of each.
pub proof fn gas_is_a_sum(swaps: Seq<Swap>)
    ensures
        gas_of(swaps) == swaps.fold_left(0nat, |sum: nat, s: Swap| sum + s.gas_estimate@),
    decreases swaps.len(),
{
    reveal(Seq::fold_left);
    if swaps.len() > 0 {
        gas_is_a_sum(swaps.drop_last());
    }
}

proof fn first_fault_is_first(
    n: nat,
    fault: spec_fn(int) -> Option<RouteValidationError>,
) -> (i: int)
    requires
        first_fault(n, fault) is Some,
    ensures
        0 <= i < n,
        fault(i) == first_fault(n, fault),
        forall|j: int| 0 <= j < i ==> (#[trigger] fault(j)) is None,
    decreases n,
{
    let before = (n - 1) as nat;
    if first_fault(before, fault) is Some {
        first_fault_is_first(before, fault)
    } else {
        no_fault_anywhere(before, fault);
        n - 1
    }
}

/// The inputs up to one of them are those tokens that a swap draws on before any swap draws on it, and
/// itself.
proof fn inputs_come_in_order(swaps: Seq<Swap>, g: int, token: Seq<u8>)
    requires
        0 <= g < inputs(swaps).len(),
    ensures
        crate::bytes::among(inputs(swaps).take(g + 1), token) <==> exists|k: int|
            0 <= k < swaps.len() && (#[trigger] swaps[k]).token_in@ == token && forall|m: int|
                0 <= m < k ==> (#[trigger] swaps[m]).token_in@ != inputs(swaps)[g]@,
    decreases swaps.len(),
{
    let front = swaps.drop_last();
    let n = front.len() as int;
    let tokens = inputs(swaps);
    let earlier = inputs(front);
    let last = swaps.last().token_in;
    inputs_cover(front);
    inputs_cover(swaps);
    assert(forall|m: int| 0 <= m < n ==> (#[trigger] swaps[m]) == front[m]);
    if g < earlier.len() {
        inputs_come_in_order(front, g, token);
        assert(tokens.take(g + 1) =~= earlier.take(g + 1));
        assert(tokens[g] == earlier[g]);
        let own = choose|k: int|
            0 <= k < front.len() && (#[trigger] front[k]).token_in == earlier[g];
        if crate::bytes::among(tokens.take(g + 1), token) {
            let k = choose|k: int|
                0 <= k < front.len() && (#[trigger] front[k]).token_in@ == token && forall|m: int|
                    0 <= m < k ==> (#[trigger] front[m]).token_in@ != earlier[g]@;
            assert(swaps[k].token_in@ == token);
            assert forall|m: int| 0 <= m < k implies (#[trigger] swaps[m]).token_in@
                != tokens[g]@ by {
                assert(front[m].token_in@ != earlier[g]@);
            }
        }
        if exists|k: int|
            0 <= k < swaps.len() && (#[trigger] swaps[k]).token_in@ == token && forall|m: int|
                0 <= m < k ==> (#[trigger] swaps[m]).token_in@ != tokens[g]@ {
            let k = choose|k: int|
                0 <= k < swaps.len() && (#[trigger] swaps[k]).token_in@ == token && forall|m: int|
                    0 <= m < k ==> (#[trigger] swaps[m]).token_in@ != tokens[g]@;
            assert(swaps[own].token_in@ == tokens[g]@);
            assert(k < n);
            assert(front[k].token_in@ == token);
            assert forall|m: int| 0 <= m < k implies (#[trigger] front[m]).token_in@
                != earlier[g]@ by {
                assert(swaps[m].token_in@ != tokens[g]@);
            }
        }
    } else {
        assert(tokens.take(g + 1) =~= tokens);
        assert(tokens[g] == last);
        if crate::bytes::among(tokens, token) {
            let h = choose|h: int| 0 <= h < tokens.len() && #[trigger] tokens[h]@ == token;
            let k = choose|k: int|
                0 <= k < swaps.len() && (#[trigger] swaps[k]).token_in == tokens[h];
            assert(swaps[k].token_in@ == token);
            assert forall|m: int| 0 <= m < k implies (#[trigger] swaps[m]).token_in@ != last@ by {
                assert(crate::bytes::among(earlier, front[m].token_in@));
            }
        }
        if exists|k: int|
            0 <= k < swaps.len() && (#[trigger] swaps[k]).token_in@ == token && forall|m: int|
                0 <= m < k ==> (#[trigger] swaps[m]).token_in@ != tokens[g]@ {
            let k = choose|k: int|
                0 <= k < swaps.len() && (#[trigger] swaps[k]).token_in@ == token && forall|m: int|
                    0 <= m < k ==> (#[trigger] swaps[m]).token_in@ != tokens[g]@;
            assert(crate::bytes::among(tokens, swaps[k].token_in@));
        }
    }
}

/// The output of swap `i` is the token that the route ends at, or a token that some swap draws on and
/// that is not the one it starts from.
pub open spec fn leads_on(swaps: Seq<Swap>, i: int) -> bool {
    ||| swaps[i].token_out@ == swaps.last().token_out@
    ||| swaps[i].token_out@ != swaps[0].token_in@ && exists|k: int|
        0 <= k < swaps.len() && (#[trigger] swaps[k]).token_in@ == swaps[i].token_out@
}

/// The output of swap `i` is a token that is drawn on no later than its own input.
pub open spec fn goes_back(swaps: Seq<Swap>, i: int) -> bool {
    exists|k: int|
        0 <= k < swaps.len() && (#[trigger] swaps[k]).token_in@ == swaps[i].token_out@ && forall|m: int|
            0 <= m < k ==> (#[trigger] swaps[m]).token_in@ != swaps[i].token_in@
}

/// The swaps that draw on a token leave it a remainder: the last of them takes no share, every other
/// one between nothing and all, and together less than all. A share that is no number passes, and then
/// nothing is known of the sum.
pub open spec fn leaves_a_remainder(swaps: Seq<Swap>, token: Seq<u8>) -> bool {
    let taken = swaps.filter(|s: Swap| s.token_in@ == token).map_values(|s: Swap| s.split);
    let given = taken.drop_last();
    taken.len() > 0 ==> {
        &&& taken.last().bits == 0 || taken.last().bits == 0x8000_0000_0000_0000
        &&& forall|i: int|
            0 <= i < given.len() ==> {
                ||| 0 < (#[trigger] given[i]).bits < 0x3ff0_0000_0000_0000
                ||| 0x7ff0_0000_0000_0000 < given[i].bits < 0x8000_0000_0000_0000
                ||| 0xfff0_0000_0000_0000 < given[i].bits
            }
        &&& (forall|i: int|
            0 <= i < given.len() ==> 0 < (#[trigger] given[i]).bits < 0x3ff0_0000_0000_0000)
            ==> crate::split::sum_units(given) < vstd::arithmetic::power2::pow2(1074)
    }
}

/// The swaps that draw on a token are picked by their inputs alone.
proof fn branches_are_picked(swaps: Seq<Swap>, token: Address, draws: spec_fn(Swap) -> bool)
    requires
        forall|s: Swap| #[trigger] draws(s) == (s.token_in@ == token@),
    ensures
        branches(swaps, token@) == swaps.filter(draws),
{
    let own = |s: Swap| s.token_in@ == token@;
    assert(branches(swaps, token@) == swaps.filter(own));
    assert(own =~= draws);
}

proof fn remainder_is_judged_by_branch(swaps: Seq<Swap>, g: int)
    requires
        0 <= g < inputs(swaps).len(),
    ensures
        split_fault(swaps)(g) is None <==> leaves_a_remainder(swaps, inputs(swaps)[g]@),
{
    let token_in = inputs(swaps)[g];
    let token = token_in@;
    let branch = branches(swaps, token);
    let taken = swaps.filter(|s: Swap| s.token_in@ == token).map_values(|s: Swap| s.split);
    let given = taken.drop_last();
    branches_nonempty(swaps, g);
    branches_are_picked(swaps, token_in, |s: Swap| s.token_in@ == token);
    assert(taken =~= shares(branch));
    assert(given =~= shares(branch.drop_last()));
    vstd::arithmetic::power2::lemma_pow2_pos(1074);
    let n = branch.len();
    if n == 1 {
        assert(given.len() == 0);
        assert(crate::split::sum_units(given) == 0);
    } else {
        let fault = share_fault(token_in, branch);
        no_fault_anywhere(n, fault);
        if split_fault(swaps)(g) is None {
            assert(fault(n - 1) is None);
            assert forall|i: int| 0 <= i < given.len() implies {
                ||| 0 < (#[trigger] given[i]).bits < 0x3ff0_0000_0000_0000
                ||| 0x7ff0_0000_0000_0000 < given[i].bits < 0x8000_0000_0000_0000
                ||| 0xfff0_0000_0000_0000 < given[i].bits
            } by {
                assert(fault(i) is None);
            }
            if forall|i: int|
                0 <= i < given.len() ==> 0 < (#[trigger] given[i]).bits < 0x3ff0_0000_0000_0000 {
                assert(!has_nan(given));
            }
        }
        if leaves_a_remainder(swaps, token) {
            assert forall|i: int| 0 <= i < n implies (#[trigger] fault(i)) is None by {
                if i < n - 1 {
                    assert(given[i] == branch[i].split);
                }
            }
            if !has_nan(given) {
                assert forall|i: int| 0 <= i < given.len() implies 0 < (#[trigger] given[i]).bits
                    < 0x3ff0_0000_0000_0000 by {
                    assert(!given[i].spec_is_nan());
                }
            }
        }
    }
}

proof fn ends_are_judged_by_swap(swaps: Seq<Swap>, g: int)
    requires
        swaps.len() > 0,
        0 <= g < inputs(swaps).len(),
    ensures
        dead_end_at(swaps)(g) is None <==> forall|i: int|
            0 <= i < swaps.len() && (#[trigger] swaps[i]).token_in@ == inputs(swaps)[g]@ ==> leads_on(
                swaps,
                i,
            ),
        back_edge_at(swaps)(g) is None <==> forall|i: int|
            0 <= i < swaps.len() && (#[trigger] swaps[i]).token_in@ == inputs(swaps)[g]@ && goes_back(
                swaps,
                i,
            ) ==> swaps[0].token_in@ == swaps.last().token_out@ && swaps[i].token_out@
                == swaps[0].token_in@,
{
    let tokens = inputs(swaps);
    let token = tokens[g]@;
    let draws = |s: Swap| s.token_in@ == token;
    let branch = branches(swaps, token);
    branches_are_picked(swaps, tokens[g], draws);
    let ends = dead_end_of(swaps, branch);
    let back = back_edge_of(swaps, g, branch);
    inputs_cover(swaps);
    no_fault_anywhere(branch.len(), ends);
    no_fault_anywhere(branch.len(), back);
    assert forall|j: int| 0 <= j < branch.len() implies exists|i: int|
        0 <= i < swaps.len() && (#[trigger] swaps[i]).token_in@ == token && swaps[i]
            == #[trigger] branch[j] by {
        swaps.lemma_filter_pred(draws, j);
        swaps.lemma_filter_contains_rev(draws, branch[j]);
        let i = choose|i: int| 0 <= i < swaps.len() && swaps[i] == branch[j];
        assert(swaps[i].token_in@ == token);
    }
    assert forall|i: int|
        0 <= i < swaps.len() && (#[trigger] swaps[i]).token_in@ == token implies branch.contains(
        swaps[i],
    ) by {
        swaps.lemma_filter_contains(draws, i);
    }
    assert forall|i: int| 0 <= i < swaps.len() implies (leads_on(swaps, i) <==> (
    crate::bytes::among(tokens.skip(1), (#[trigger] swaps[i]).token_out@) || swaps[i].token_out@
        == swaps.last().token_out@)) by {
        output_leads_on(swaps, i);
    }
    assert forall|i: int|
        0 <= i < swaps.len() && (#[trigger] swaps[i]).token_in@ == token implies (goes_back(swaps, i)
        <==> crate::bytes::among(tokens.take(g + 1), swaps[i].token_out@)) by {
        inputs_come_in_order(swaps, g, swaps[i].token_out@);
    }
    if dead_end_at(swaps)(g) is None {
        assert forall|i: int|
            0 <= i < swaps.len() && (#[trigger] swaps[i]).token_in@ == token implies leads_on(
            swaps,
            i,
        ) by {
            let j = choose|j: int| 0 <= j < branch.len() && branch[j] == swaps[i];
            assert(ends(j) is None);
        }
    }
    if forall|i: int|
        0 <= i < swaps.len() && (#[trigger] swaps[i]).token_in@ == token ==> leads_on(swaps, i) {
        assert forall|j: int| 0 <= j < branch.len() implies (#[trigger] ends(j)) is None by {
            let b = branch[j];
            let i = choose|i: int|
                0 <= i < swaps.len() && (#[trigger] swaps[i]).token_in@ == token && swaps[i] == b;
            assert(leads_on(swaps, i));
        }
    }
    if back_edge_at(swaps)(g) is None {
        assert forall|i: int|
            0 <= i < swaps.len() && (#[trigger] swaps[i]).token_in@ == token && goes_back(
                swaps,
                i,
            ) implies swaps[0].token_in@ == swaps.last().token_out@ && swaps[i].token_out@
            == swaps[0].token_in@ by {
            let j = choose|j: int| 0 <= j < branch.len() && branch[j] == swaps[i];
            assert(back(j) is None);
        }
    }
    if forall|i: int|
        0 <= i < swaps.len() && (#[trigger] swaps[i]).token_in@ == token && goes_back(swaps, i)
            ==> swaps[0].token_in@ == swaps.last().token_out@ && swaps[i].token_out@
            == swaps[0].token_in@ {
        assert forall|j: int| 0 <= j < branch.len() implies (#[trigger] back(j)) is None by {
            let b = branch[j];
            let i = choose|i: int|
                0 <= i < swaps.len() && (#[trigger] swaps[i]).token_in@ == token && swaps[i] == b;
            assert(swaps[i].token_in@ == token);
        }
    }
}

/// No input is listed twice.
proof fn inputs_differ(swaps: Seq<Swap>, g: int, h: int)
    requires
        0 <= g < h < inputs(swaps).len(),
    ensures
        inputs(swaps)[g]@ != inputs(swaps)[h]@,
    decreases swaps.len(),
{
    let earlier = inputs(swaps.drop_last());
    if h < earlier.len() {
        inputs_differ(swaps.drop_last(), g, h);
    } else if inputs(swaps)[g]@ == inputs(swaps)[h]@ {
        assert(earlier[g]@ == swaps.last().token_in@);
    }
}

proof fn output_leads_on(swaps: Seq<Swap>, i: int)
    requires
        swaps.len() > 0,
        0 <= i < swaps.len(),
    ensures
        leads_on(swaps, i) <==> (crate::bytes::among(inputs(swaps).skip(1), swaps[i].token_out@)
            || swaps[i].token_out@ == swaps.last().token_out@),
{
    let tokens = inputs(swaps);
    let out = swaps[i].token_out@;
    inputs_cover(swaps);
    if crate::bytes::among(tokens.skip(1), out) {
        let h = choose|h: int| 0 <= h < tokens.skip(1).len() && #[trigger] tokens.skip(1)[h]@ == out;
        assert(tokens[h + 1]@ == out);
        inputs_differ(swaps, 0, h + 1);
        let k = choose|k: int|
            0 <= k < swaps.len() && (#[trigger] swaps[k]).token_in == tokens[h + 1];
        assert(swaps[k].token_in@ == out);
    }
    if out != swaps[0].token_in@ && exists|k: int|
        0 <= k < swaps.len() && (#[trigger] swaps[k]).token_in@ == out {
        let k = choose|k: int| 0 <= k < swaps.len() && (#[trigger] swaps[k]).token_in@ == out;
        assert(crate::bytes::among(tokens, swaps[k].token_in@));
        let h = choose|h: int| 0 <= h < tokens.len() && #[trigger] tokens[h]@ == out;
        assert(h > 0);
        assert(tokens.skip(1)[h - 1]@ == out);
    }
}

/// The input of a swap is among the inputs.
proof fn input_of(swaps: Seq<Swap>, i: int) -> (g: int)
    requires
        0 <= i < swaps.len(),
    ensures
        0 <= g < inputs(swaps).len(),
        inputs(swaps)[g]@ == swaps[i].token_in@,
{
    inputs_cover(swaps);
    assert(crate::bytes::among(inputs(swaps), swaps[i].token_in@));
    choose|g: int| 0 <= g < inputs(swaps).len() && #[trigger] inputs(swaps)[g]@ == swaps[i].token_in@
}

/// A swap draws on an input.
proof fn swap_of(swaps: Seq<Swap>, g: int) -> (i: int)
    requires
        0 <= g < inputs(swaps).len(),
    ensures
        0 <= i < swaps.len(),
        swaps[i].token_in == inputs(swaps)[g],
{
    inputs_cover(swaps);
    choose|i: int| 0 <= i < swaps.len() && (#[trigger] swaps[i]).token_in == inputs(swaps)[g]
}

/// Some swap takes a share above zero.
pub open spec fn has_shares(swaps: Seq<Swap>) -> bool {
    exists|i: int|
        0 <= i < swaps.len() && 0 < (#[trigger] swaps[i]).split.bits <= 0x7ff0_0000_0000_0000
}

proof fn shares_are_positive(swaps: Seq<Swap>)
    ensures
        takes_shares(swaps) <==> has_shares(swaps),
{
    if takes_shares(swaps) {
        let i = choose|i: int|
            0 <= i < swaps.len() && (#[trigger] swaps[i]).split.spec_is_positive();
        assert(0 < swaps[i].split.bits <= 0x7ff0_0000_0000_0000);
    }
    if has_shares(swaps) {
        let i = choose|i: int|
            0 <= i < swaps.len() && 0 < (#[trigger] swaps[i]).split.bits <= 0x7ff0_0000_0000_0000;
        assert(swaps[i].split.spec_is_positive());
    }
}

proof fn split_faults_by_swap(swaps: Seq<Swap>)
    requires
        swaps.len() > 0,
    ensures
        ({
            let n = inputs(swaps).len();
            &&& first_fault(n, split_fault(swaps)) is None <==> forall|i: int|
                0 <= i < swaps.len() ==> leaves_a_remainder(swaps, (#[trigger] swaps[i]).token_in@)
            &&& first_fault(n, unreachable_at(swaps)) is None <==> forall|i: int|
                0 <= i < swaps.len() ==> reachable(
                    swaps,
                    swaps[0].token_in@,
                    (#[trigger] swaps[i]).token_in@,
                )
            &&& first_fault(n, dead_end_at(swaps)) is None <==> forall|i: int|
                0 <= i < swaps.len() ==> #[trigger] leads_on(swaps, i)
            &&& first_fault(n, back_edge_at(swaps)) is None <==> forall|i: int|
                0 <= i < swaps.len() && #[trigger] goes_back(swaps, i) ==> swaps[0].token_in@
                    == swaps.last().token_out@ && swaps[i].token_out@ == swaps[0].token_in@
        }),
{
    let tokens = inputs(swaps);
    let n = tokens.len();
    inputs_cover(swaps);
    no_fault_anywhere(n, split_fault(swaps));
    no_fault_anywhere(n, unreachable_at(swaps));
    no_fault_anywhere(n, dead_end_at(swaps));
    no_fault_anywhere(n, back_edge_at(swaps));
    if first_fault(n, split_fault(swaps)) is None {
        assert forall|i: int| 0 <= i < swaps.len() implies leaves_a_remainder(
            swaps,
            (#[trigger] swaps[i]).token_in@,
        ) by {
            let g = input_of(swaps, i);
            assert(split_fault(swaps)(g) is None);
            remainder_is_judged_by_branch(swaps, g);
        }
    }
    if forall|i: int|
        0 <= i < swaps.len() ==> leaves_a_remainder(swaps, (#[trigger] swaps[i]).token_in@) {
        assert forall|g: int| 0 <= g < n implies (#[trigger] split_fault(swaps)(g)) is None by {
            let i = swap_of(swaps, g);
            assert(leaves_a_remainder(swaps, swaps[i].token_in@));
            remainder_is_judged_by_branch(swaps, g);
        }
    }
    if first_fault(n, unreachable_at(swaps)) is None {
        assert forall|i: int| 0 <= i < swaps.len() implies reachable(
            swaps,
            swaps[0].token_in@,
            (#[trigger] swaps[i]).token_in@,
        ) by {
            let g = input_of(swaps, i);
            assert(unreachable_at(swaps)(g) is None);
        }
    }
    if forall|i: int|
        0 <= i < swaps.len() ==> reachable(
            swaps,
            swaps[0].token_in@,
            (#[trigger] swaps[i]).token_in@,
        ) {
        assert forall|g: int| 0 <= g < n implies (#[trigger] unreachable_at(swaps)(g)) is None by {
            let i = swap_of(swaps, g);
            assert(reachable(swaps, swaps[0].token_in@, swaps[i].token_in@));
        }
    }
    if first_fault(n, dead_end_at(swaps)) is None {
        assert forall|i: int| 0 <= i < swaps.len() implies #[trigger] leads_on(swaps, i) by {
            let g = input_of(swaps, i);
            assert(dead_end_at(swaps)(g) is None);
            ends_are_judged_by_swap(swaps, g);
            assert(swaps[i].token_in@ == tokens[g]@);
        }
    }
    if forall|i: int| 0 <= i < swaps.len() ==> #[trigger] leads_on(swaps, i) {
        assert forall|g: int| 0 <= g < n implies (#[trigger] dead_end_at(swaps)(g)) is None by {
            ends_are_judged_by_swap(swaps, g);
        }
    }
    if first_fault(n, back_edge_at(swaps)) is None {
        assert forall|i: int| 0 <= i < swaps.len() && #[trigger] goes_back(swaps, i) implies swaps[0].token_in@
            == swaps.last().token_out@ && swaps[i].token_out@ == swaps[0].token_in@ by {
            let g = input_of(swaps, i);
            assert(back_edge_at(swaps)(g) is None);
            ends_are_judged_by_swap(swaps, g);
            assert(swaps[i].token_in@ == tokens[g]@);
        }
    }
    if forall|i: int|
        0 <= i < swaps.len() && #[trigger] goes_back(swaps, i) ==> swaps[0].token_in@
            == swaps.last().token_out@ && swaps[i].token_out@ == swaps[0].token_in@ {
        assert forall|g: int| 0 <= g < n implies (#[trigger] back_edge_at(swaps)(g)) is None by {
            ends_are_judged_by_swap(swaps, g);
        }
    }
}

/// A route starts and ends at the same token without drawing on any other.
pub open spec fn stays_at_one_token(swaps: Seq<Swap>) -> bool {
    &&& swaps[0].token_in@ == swaps.last().token_out@
    &&& forall|i: int|
        0 <= i < swaps.len() ==> (#[trigger] swaps[i]).token_in@ == swaps[0].token_in@
}

proof fn round_trips_pass_through(swaps: Seq<Swap>)
    requires
        swaps.len() > 0,
    ensures
        is_round_trip(swaps) && inputs(swaps).len() <= 1 <==> stays_at_one_token(swaps),
{
    let tokens = inputs(swaps);
    inputs_cover(swaps);
    if tokens.len() <= 1 {
        assert forall|i: int| 0 <= i < swaps.len() implies (#[trigger] swaps[i]).token_in@
            == swaps[0].token_in@ by {
            let g = input_of(swaps, i);
        }
    }
    if stays_at_one_token(swaps) && tokens.len() > 1 {
        let i = swap_of(swaps, 1);
        assert(swaps[i].token_in@ == swaps[0].token_in@);
        inputs_differ(swaps, 0, 1);
    }
}

/// A route with a share is valid exactly where its shares leave every token a remainder, every input can
/// be reached from the token it starts from, every output is the token it ends at or leads on to another
/// input, and no output goes back to an input of the same swap or an earlier one; only a route that ends
/// where it starts may go back there, and it must draw on another token on its way.
pub proof fn split_route_is_valid(swaps: Seq<Swap>)
    requires
        has_shares(swaps),
    ensures
        route_fault(swaps) is None <==> {
            &&& forall|i: int|
                0 <= i < swaps.len() ==> leaves_a_remainder(swaps, (#[trigger] swaps[i]).token_in@)
            &&& forall|i: int|
                0 <= i < swaps.len() ==> reachable(
                    swaps,
                    swaps[0].token_in@,
                    (#[trigger] swaps[i]).token_in@,
                )
            &&& forall|i: int| 0 <= i < swaps.len() ==> #[trigger] leads_on(swaps, i)
            &&& forall|i: int|
                0 <= i < swaps.len() && #[trigger] goes_back(swaps, i) ==> swaps[0].token_in@
                    == swaps.last().token_out@ && swaps[i].token_out@ == swaps[0].token_in@
            &&& !stays_at_one_token(swaps)
        },
{
    shares_are_positive(swaps);
    split_faults_by_swap(swaps);
    round_trips_pass_through(swaps);
}

/// What is told of a route with shares is the first thing that is wrong with it: the shares of a token,
/// then an input that cannot be reached, then an output that leads nowhere, then one that goes back or a
/// route that stays where it starts. The tokens that are named are those.
pub proof fn faults_of_split_routes_are_true(swaps: Seq<Swap>, error: RouteValidationError)
    requires
        has_shares(swaps),
        route_fault(swaps) == Some(error),
    ensures
        error is InvalidSplit <==> exists|i: int|
            0 <= i < swaps.len() && !leaves_a_remainder(swaps, (#[trigger] swaps[i]).token_in@),
        error matches RouteValidationError::DisconnectedSplitStart { token_in, start_token }
            ==> start_token == swaps[0].token_in && !reachable(swaps, start_token@, token_in@)
            && exists|i: int| 0 <= i < swaps.len() && (#[trigger] swaps[i]).token_in == token_in,
        error is DisconnectedSplitEnd || error is UnsupportedCycle ==> forall|i: int|
            0 <= i < swaps.len() ==> reachable(
                swaps,
                swaps[0].token_in@,
                (#[trigger] swaps[i]).token_in@,
            ),
        error matches RouteValidationError::DisconnectedSplitEnd { token_out, terminal_token }
            ==> terminal_token == swaps.last().token_out && exists|i: int|
            0 <= i < swaps.len() && (#[trigger] swaps[i]).token_out == token_out && !leads_on(swaps, i),
        error is UnsupportedCycle ==> forall|i: int|
            0 <= i < swaps.len() ==> #[trigger] leads_on(swaps, i),
        error matches RouteValidationError::UnsupportedCycle { token, first, last } ==> first
            == swaps[0].token_in && last == swaps.last().token_out && (stays_at_one_token(swaps)
            || exists|i: int|
            0 <= i < swaps.len() && (#[trigger] swaps[i]).token_out == token && goes_back(swaps, i)
                && !(first@ == last@ && token@ == first@)),
        !(error is EmptyRoute) && !(error is DisconnectedSwaps),
{
    shares_are_positive(swaps);
    split_faults_by_swap(swaps);
    round_trips_pass_through(swaps);
    inputs_cover(swaps);
    let tokens = inputs(swaps);
    let n = tokens.len();
    if first_fault(n, split_fault(swaps)) is Some {
        let g = first_fault_is_first(n, split_fault(swaps));
        let branch = branches(swaps, tokens[g]@);
        assert(error is InvalidSplit) by {
            if branch.len() != 1 {
                let fault = share_fault(tokens[g], branch);
                if first_fault(branch.len(), fault) is Some {
                    let i = first_fault_is_first(branch.len(), fault);
                }
            }
        }
    } else if first_fault(n, unreachable_at(swaps)) is Some {
        let g = first_fault_is_first(n, unreachable_at(swaps));
        let i = swap_of(swaps, g);
        assert(swaps[i].token_in == tokens[g]);
    } else if first_fault(n, dead_end_at(swaps)) is Some {
        let g = first_fault_is_first(n, dead_end_at(swaps));
        let token = tokens[g]@;
        let draws = |s: Swap| s.token_in@ == token;
        let branch = branches(swaps, token);
        branches_are_picked(swaps, tokens[g], draws);
        let j = first_fault_is_first(branch.len(), dead_end_of(swaps, branch));
        swaps.lemma_filter_pred(draws, j);
        swaps.lemma_filter_contains_rev(draws, branch[j]);
        let i = choose|i: int| 0 <= i < swaps.len() && swaps[i] == branch[j];
        output_leads_on(swaps, i);
        assert(swaps[i].token_out == branch[j].token_out);
    } else if !stays_at_one_token(swaps) {
        let g = first_fault_is_first(n, back_edge_at(swaps));
        let token = tokens[g]@;
        let draws = |s: Swap| s.token_in@ == token;
        let branch = branches(swaps, token);
        branches_are_picked(swaps, tokens[g], draws);
        let j = first_fault_is_first(branch.len(), back_edge_of(swaps, g, branch));
        swaps.lemma_filter_pred(draws, j);
        swaps.lemma_filter_contains_rev(draws, branch[j]);
        let i = choose|i: int| 0 <= i < swaps.len() && swaps[i] == branch[j];
        inputs_come_in_order(swaps, g, swaps[i].token_out@);
        assert(swaps[i].token_out == branch[j].token_out);
    }
}

proof fn first_share_leaves_the_rest(swaps: Seq<Swap>, token: Seq<u8>)
    requires
        swaps.len() == 2,
        branches(swaps, token) == swaps,
        0 < swaps[0].split.bits < 0x3ff0_0000_0000_0000,
        swaps[1].split.bits == 0,
        crate::split::sum_units(seq![swaps[0].split]) < vstd::arithmetic::power2::pow2(1074),
    ensures
        leaves_a_remainder(swaps, token),
{
    let taken = branches(swaps, token).map_values(|s: Swap| s.split);
    assert(taken.drop_last() =~= seq![swaps[0].split]);
}

/// Two swaps side by side from one token to another, of which the first takes a share and the second the
/// rest, are a valid route.
pub proof fn parallel_swaps_are_valid(swaps: Seq<Swap>)
    requires
        swaps.len() == 2,
        swaps[0].token_in@ == swaps[1].token_in@,
        swaps[0].token_out@ == swaps[1].token_out@,
        swaps[0].token_in@ != swaps[0].token_out@,
        0 < swaps[0].split.bits < 0x3ff0_0000_0000_0000,
        swaps[1].split.bits == 0,
        crate::split::sum_units(seq![swaps[0].split]) < vstd::arithmetic::power2::pow2(1074),
    ensures
        route_fault(swaps) is None,
{
    assert(0 < swaps[0].split.bits <= 0x7ff0_0000_0000_0000);
    split_route_is_valid(swaps);
    let token = swaps[0].token_in@;
    let draws = |s: Swap| s.token_in@ == token;
    assert(swaps.filter(draws) =~= swaps) by {
        reveal(Seq::filter);
        assert(swaps.drop_last().drop_last() =~= Seq::<Swap>::empty());
        reveal_with_fuel(Seq::filter, 3);
    }
    branches_are_picked(swaps, swaps[0].token_in, draws);
    assert forall|i: int| 0 <= i < swaps.len() implies leaves_a_remainder(
        swaps,
        (#[trigger] swaps[i]).token_in@,
    ) by {
        first_share_leaves_the_rest(swaps, token);
    }
    let chain: Seq<Seq<u8>> = seq![token];
    assert(is_chain(swaps, chain));
    assert(reachable(swaps, token, token));
}

/// A route without shares is valid exactly where it has a swap, each swap hands its output to the next,
/// and no token is met twice except that the last may be the first; else the first break is told, and
/// where there is none the first token that is met again.
pub proof fn faults_of_sequential_routes_are_true(swaps: Seq<Swap>)
    requires
        swaps.len() > 0,
        !has_shares(swaps),
    ensures
        route_fault(swaps) matches Some(RouteValidationError::DisconnectedSwaps {
            first_out,
            second_in,
        }) ==> exists|i: int|
            0 < i < swaps.len() && swaps[i - 1].token_out == first_out && (
            #[trigger] swaps[i]).token_in == second_in && first_out@ != second_in@ && forall|j: int|
                0 < j < i ==> swaps[j - 1].token_out@ == (#[trigger] swaps[j]).token_in@,
        (exists|i: int|
            0 < i < swaps.len() && swaps[i - 1].token_out@ != (#[trigger] swaps[i]).token_in@)
            <==> route_fault(swaps) matches Some(RouteValidationError::DisconnectedSwaps { .. }),
        route_fault(swaps) matches Some(RouteValidationError::UnsupportedCycle { token, first, last })
            ==> first == swaps[0].token_in && last == swaps.last().token_out && exists|i: int|
            0 <= i < swaps.len() && (#[trigger] swaps[i]).token_out == token && !(i == swaps.len() - 1
                && token@ == first@) && (token@ == first@ || exists|j: int|
                0 <= j < i && (#[trigger] swaps[j]).token_out@ == token@),
        route_fault(swaps) is None || route_fault(swaps)->Some_0 is DisconnectedSwaps || route_fault(
            swaps,
        )->Some_0 is UnsupportedCycle,
        route_fault(swaps) is None <==> {
            &&& forall|i: int|
                0 < i < swaps.len() ==> swaps[i - 1].token_out@ == (#[trigger] swaps[i]).token_in@
            &&& forall|i: int, j: int|
                0 <= i < j < swaps.len() ==> (#[trigger] swaps[i]).token_out@ != (
                #[trigger] swaps[j]).token_out@
            &&& forall|i: int|
                0 <= i < swaps.len() - 1 ==> (#[trigger] swaps[i]).token_out@ != swaps[0].token_in@
        },
{
    shares_are_positive(swaps);
    let broken = break_after(swaps);
    let cycle = cycle_at(swaps);
    let n = swaps.len();
    no_fault_anywhere((n - 1) as nat, broken);
    no_fault_anywhere(n, cycle);
    if first_fault((n - 1) as nat, broken) is Some {
        let i = first_fault_is_first((n - 1) as nat, broken);
        assert(swaps[i + 1 - 1].token_out@ != swaps[i + 1].token_in@);
        assert forall|j: int| 0 < j < i + 1 implies swaps[j - 1].token_out@ == (
        #[trigger] swaps[j]).token_in@ by {
            assert(broken(j - 1) is None);
        }
    } else {
        assert forall|i: int| 0 < i < n implies swaps[i - 1].token_out@ == (
        #[trigger] swaps[i]).token_in@ by {
            assert(broken(i - 1) is None);
        }
        if first_fault(n, cycle) is Some {
            let i = first_fault_is_first(n, cycle);
            assert(swaps[i].token_out == swaps[i].token_out);
            if swaps[i].token_out@ != swaps[0].token_in@ {
                let j = choose|j: int|
                    0 <= j < i && #[trigger] swaps[j].token_out@ == swaps[i].token_out@;
                assert(swaps[j].token_out@ == swaps[i].token_out@);
            }
        } else {
            assert forall|i: int| 0 <= i < n - 1 implies (#[trigger] swaps[i]).token_out@
                != swaps[0].token_in@ by {
                assert(cycle(i) is None);
            }
            assert forall|i: int, j: int| 0 <= i < j < n implies (#[trigger] swaps[i]).token_out@ != (
            #[trigger] swaps[j]).token_out@ by {
                assert(cycle(j) is None);
                assert(cycle(i) is None);
                if swaps[i].token_out@ == swaps[j].token_out@ {
                    assert(revisits(swaps, j));
                    assert(swaps[j].token_out@ == swaps[0].token_in@);
                    assert(revisits(swaps, i));
                }
            }
        }
    }
}

/// What swaps lead to from a token is the least that holds it and, with the input of a swap, its output:
/// whatever holds these holds everything that can be reached.
pub proof fn reachable_tokens_are_the_least_closed(
    swaps: Seq<Swap>,
    start: Seq<u8>,
    token: Seq<u8>,
    inside: spec_fn(Seq<u8>) -> bool,
)
    ensures
        reachable(swaps, start, start),
        forall|k: int|
            0 <= k < swaps.len() && reachable(swaps, start, (#[trigger] swaps[k]).token_in@)
                ==> reachable(swaps, start, swaps[k].token_out@),
        reachable(swaps, start, token) && inside(start) && (forall|k: int|
            0 <= k < swaps.len() && inside((#[trigger] swaps[k]).token_in@) ==> inside(
                swaps[k].token_out@,
            )) ==> inside(token),
{
    let alone: Seq<Seq<u8>> = seq![start];
    assert(is_chain(swaps, alone));
    assert forall|k: int|
        0 <= k < swaps.len() && reachable(swaps, start, (#[trigger] swaps[k]).token_in@) implies reachable(
        swaps,
        start,
        swaps[k].token_out@,
    ) by {
        reachable_step(swaps, start, k);
    }
    if reachable(swaps, start, token) && inside(start) && (forall|k: int|
        0 <= k < swaps.len() && inside((#[trigger] swaps[k]).token_in@) ==> inside(
            swaps[k].token_out@,
        )) {
        let chain = choose|chain: Seq<Seq<u8>>| #[trigger]
            is_chain(swaps, chain) && chain[0] == start && chain.last() == token;
        chain_stays_inside(swaps, chain, inside);
    }
}

proof fn chain_stays_inside(
    swaps: Seq<Swap>,
    chain: Seq<Seq<u8>>,
    inside: spec_fn(Seq<u8>) -> bool,
)
    requires
        is_chain(swaps, chain),
        inside(chain[0]),
        forall|k: int|
            0 <= k < swaps.len() && inside((#[trigger] swaps[k]).token_in@) ==> inside(
                swaps[k].token_out@,
            ),
    ensures
        inside(chain.last()),
    decreases chain.len(),
{
    if chain.len() > 1 {
        let front = chain.drop_last();
        assert forall|i: int| 0 < i < front.len() implies feeds(
            swaps,
            front[i - 1],
            #[trigger] front[i],
        ) by {
            assert(feeds(swaps, chain[i - 1], chain[i]));
        }
        chain_stays_inside(swaps, front, inside);
        let n = chain.len() - 1;
        assert(feeds(swaps, chain[n - 1], chain[n]));
        let k = choose|k: int|
            0 <= k < swaps.len() && #[trigger] swaps[k].token_in@ == chain[n - 1]
                && swaps[k].token_out@ == chain[n];
        assert(inside(swaps[k].token_in@));
    }
}

/// A path description names the token that a route starts from and then each output, by its symbol where
/// it is known and else by its address.
pub proof fn paths_name_every_token(swaps: Seq<Swap>, tokens: Map<Seq<u8>, Token>, i: int)
    requires
        0 <= i < swaps.len(),
    ensures
        path_tokens(swaps).len() == swaps.len() + 1,
        path_tokens(swaps)[0] == swaps[0].token_in,
        path_tokens(swaps)[i + 1] == swaps[i].token_out,
        tokens.dom().contains(swaps[i].token_out@) ==> token_label(tokens, swaps[i].token_out)
            == tokens[swaps[i].token_out@].symbol@,
        !tokens.dom().contains(swaps[i].token_out@) ==> token_label(tokens, swaps[i].token_out)
            == "Bytes(0x"@ + crate::text::hex_text(swaps[i].token_out@) + ")"@,
{
}

/// A route leads from the input of its first swap to the output of its last, through the outputs of all
/// others in their order.
pub proof fn routes_lead_through_their_swaps(
    route: Route,
    from: Option<Address>,
    to: Option<Address>,
    between: Vec<Address>,
    i: int,
)
    requires
        call_ensures(Route::input_token, (&route,), from),
        call_ensures(Route::output_token, (&route,), to),
        call_ensures(Route::intermediate_tokens, (&route,), between),
    ensures
        route.swaps@.len() == 0 ==> from is None && to is None && between@.len() == 0,
        route.swaps@.len() > 0 ==> from == Some(route.swaps@[0].token_in) && to == Some(
            route.swaps@[route.swaps@.len() - 1].token_out,
        ) && between@.len() == route.swaps@.len() - 1,
        0 <= i < route.swaps@.len() - 1 ==> between@[i] == route.swaps@[i].token_out,
{
}

} // verus!
