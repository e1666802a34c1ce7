//! Quotes: what solving an order comes to.
use vstd::prelude::*;

use crate::amount::Amount;
use crate::bytes::Bytes;
use crate::error::AlgorithmError;
use crate::types::options::StateLabel;
use crate::types::route::Route;

verus! {

/// Status of an order solution.
#[derive(Debug, Clone, Copy, PartialEq, Eq, Structural)]
pub enum QuoteStatus {
    /// A valid route was found.
    Success,
    /// No route exists between the specified tokens.
    NoRouteFound,
    /// A route exists but available liquidity is insufficient.
    InsufficientLiquidity,
    /// The solver timed out before finding a route.
    Timeout,
    /// No solver workers are ready (e.g., market data not yet initialized).
    NotReady,
    /// The solution failed external price validation.
    PriceCheckFailed,
}

impl QuoteStatus {
    /// The status of an order that an algorithm failed on.
    pub open spec fn of_failure(error: AlgorithmError) -> QuoteStatus {
        match error {
            AlgorithmError::InsufficientLiquidity => QuoteStatus::InsufficientLiquidity,
            AlgorithmError::Timeout { .. } => QuoteStatus::Timeout,
            _ => QuoteStatus::NoRouteFound,
        }
    }
}

impl From<AlgorithmError> for QuoteStatus {
    fn from(error: AlgorithmError) -> (r: Self) {
        match error {
            AlgorithmError::InsufficientLiquidity => QuoteStatus::InsufficientLiquidity,
            AlgorithmError::Timeout { .. } => QuoteStatus::Timeout,
            _ => QuoteStatus::NoRouteFound,
        }
    }
}

impl vstd::std_specs::convert::FromSpecImpl<AlgorithmError> for QuoteStatus {
    open spec fn obeys_from_spec() -> bool {
        true
    }

    open spec fn from_spec(error: AlgorithmError) -> Self {
        QuoteStatus::of_failure(error)
    }
}

/// Block at which a quote was computed. A quote is only valid for its block.
#[derive(Debug)]
pub struct BlockInfo {
    /// Block number.
    pub number: u64,
    /// Block hash as a hex string.
    pub hash: String,
    /// Block timestamp in Unix seconds.
    pub timestamp: u64,
}

impl Clone for BlockInfo {
    fn clone(&self) -> (r: Self)
        ensures
            r == *self,
    {
        BlockInfo {
            number: self.number,
            hash: self.hash.clone(),
            timestamp: self.timestamp,
        }
    }
}

impl BlockInfo {
    /// Creates block info.
    pub fn new(number: u64, hash: String, timestamp: u64) -> (r: Self)
        ensures
            r == (BlockInfo { number, hash, timestamp }),
    {
        BlockInfo { number, hash, timestamp }
    }

    /// The block number.
    pub fn number(&self) -> (r: u64)
        ensures
            r == self.number,
    {
        self.number
    }

    /// The block hash.
    pub fn hash(&self) -> (r: &str)
        ensures
            r@ == self.hash@,
    {
        self.hash.as_str()
    }

    /// The block timestamp in Unix seconds.
    pub fn timestamp(&self) -> (r: u64)
        ensures
            r == self.timestamp,
    {
        self.timestamp
    }
}

/// Fees applied to the swap output, in output token units.
#[derive(Debug)]
pub struct FeeBreakdown {
    /// Router protocol fee: the fee on output and the router's share of the client fee.
    pub router_fee: Amount,
    /// The client's portion of the fee, after the router takes its share.
    pub client_fee: Amount,
    /// Maximum slippage: the output after fees times the slippage tolerance.
    pub max_slippage: Amount,
    /// Minimum amount the user receives: the output after fees and slippage.
    pub min_amount_received: Amount,
    /// Hash of the encoded swaps, present when a client fee was asked for.
    pub swaps_hash: Option<[u8; 32]>,
}

impl Clone for FeeBreakdown {
    fn clone(&self) -> (r: Self)
        ensures
            r == *self,
    {
        FeeBreakdown {
            router_fee: self.router_fee.clone(),
            client_fee: self.client_fee.clone(),
            max_slippage: self.max_slippage.clone(),
            min_amount_received: self.min_amount_received.clone(),
            swaps_hash: self.swaps_hash,
        }
    }
}

impl FeeBreakdown {
    /// Creates a fee breakdown without a hash.
    pub fn new(router_fee: Amount, client_fee: Amount, max_slippage: Amount, min_amount_received: Amount) -> (r: Self)
        ensures
            r == (FeeBreakdown { router_fee, client_fee, max_slippage, min_amount_received, swaps_hash: None }),
    {
        FeeBreakdown { router_fee, client_fee, max_slippage, min_amount_received, swaps_hash: None }
    }

    /// Attaches the hash of the encoded swap bytes.
    pub fn with_swaps_hash(self, hash: [u8; 32]) -> (r: Self)
        ensures
            r == (FeeBreakdown { swaps_hash: Some(hash), ..self }),
    {
        FeeBreakdown { swaps_hash: Some(hash), ..self }
    }

    /// Router protocol fee amount.
    pub fn router_fee(&self) -> (r: &Amount)
        ensures
            *r == self.router_fee,
    {
        &self.router_fee
    }

    /// Client fee amount.
    pub fn client_fee(&self) -> (r: &Amount)
        ensures
            *r == self.client_fee,
    {
        &self.client_fee
    }

    /// Maximum slippage amount.
    pub fn max_slippage(&self) -> (r: &Amount)
        ensures
            *r == self.max_slippage,
    {
        &self.max_slippage
    }

    /// Minimum amount the user receives on-chain.
    pub fn min_amount_received(&self) -> (r: &Amount)
        ensures
            *r == self.min_amount_received,
    {
        &self.min_amount_received
    }

    /// Hash of the encoded swap bytes.
    pub fn swaps_hash(&self) -> (r: Option<&[u8; 32]>)
        ensures
            match self.swaps_hash {
                Some(v) => r == Some(&v),
                None => r is None,
            },
    {
        self.swaps_hash.as_ref()
    }
}

/// An encoded EVM transaction ready to be submitted on-chain.
#[derive(Debug)]
pub struct Transaction {
    /// Contract address to call.
    pub to: Bytes,
    /// Native token value to send with the transaction.
    pub value: Amount,
    /// ABI-encoded calldata.
    pub data: Bytes,
    /// Byte offset of the client fee signature within `data`, for clients to patch it in.
    pub client_fee_signature_offset: Option<usize>,
}

impl Clone for Transaction {
    fn clone(&self) -> (r: Self)
        ensures
            r == *self,
    {
        Transaction {
            to: self.to.clone(),
            value: self.value.clone(),
            data: self.data.clone(),
            client_fee_signature_offset: self.client_fee_signature_offset,
        }
    }
}

impl Transaction {
    /// Creates a transaction.
    pub fn new(to: Bytes, value: Amount, data: Bytes) -> (r: Self)
        ensures
            r == (Transaction { to, value, data, client_fee_signature_offset: None }),
    {
        Transaction { to, value, data, client_fee_signature_offset: None }
    }

    /// Attaches the byte offset of the client fee signature within the calldata.
    pub fn with_client_fee_signature_offset(self, offset: usize) -> (r: Self)
        ensures
            r == (Transaction { client_fee_signature_offset: Some(offset), ..self }),
    {
        Transaction { client_fee_signature_offset: Some(offset), ..self }
    }

    /// The contract address to call.
    pub fn to(&self) -> (r: &Bytes)
        ensures
            *r == self.to,
    {
        &self.to
    }

    /// The native token value to send.
    pub fn value(&self) -> (r: &Amount)
        ensures
            *r == self.value,
    {
        &self.value
    }

    /// The ABI-encoded calldata.
    pub fn data(&self) -> (r: &Vec<u8>)
        ensures
            r@ == self.data@,
    {
        self.data.as_vec()
    }

    /// Byte offset of the client fee signature within the calldata.
    pub fn client_fee_signature_offset(&self) -> (r: Option<usize>)
        ensures
            r == self.client_fee_signature_offset,
    {
        self.client_fee_signature_offset
    }
}

/// Surplus of a quote that executes through a permissioned pool: the user is quoted the best public output, and the protocol captures what the pool yields beyond.
#[derive(Debug)]
pub struct SurplusInfo {
    /// Surplus captured: realized output minus the committed output.
    pub eg_amount: Amount,
    /// The best public-market output, which the user is committed to.
    pub committed_amount_out: Amount,
}

impl Clone for SurplusInfo {
    fn clone(&self) -> (r: Self)
        ensures
            r == *self,
    {
        SurplusInfo {
            eg_amount: self.eg_amount.clone(),
            committed_amount_out: self.committed_amount_out.clone(),
        }
    }
}

impl SurplusInfo {
    /// Creates surplus info from the captured surplus and the committed public output.
    pub fn new(eg_amount: Amount, committed_amount_out: Amount) -> (r: Self)
        ensures
            r == (SurplusInfo { eg_amount, committed_amount_out }),
    {
        SurplusInfo { eg_amount, committed_amount_out }
    }

    /// The surplus amount captured by the protocol.
    pub fn eg_amount(&self) -> (r: &Amount)
        ensures
            *r == self.eg_amount,
    {
        &self.eg_amount
    }

    /// The committed public-market output the user is quoted.
    pub fn committed_amount_out(&self) -> (r: &Amount)
        ensures
            *r == self.committed_amount_out,
    {
        &self.committed_amount_out
    }
}

/// Quote for a single order: the route (if found), amounts, gas and status.
#[derive(Debug)]
pub struct OrderQuote {
    /// ID of the order this solution corresponds to.
    pub order_id: String,
    /// Whether a route was found.
    pub status: QuoteStatus,
    /// The route to execute, if a valid route was found.
    pub route: Option<Route>,
    /// Amount of input token.
    pub amount_in: Amount,
    /// Amount of output token.
    pub amount_out: Amount,
    /// Estimated gas cost for executing this route.
    pub gas_estimate: Amount,
    /// Price impact in basis points.
    pub price_impact_bps: Option<i32>,
    /// Amount out minus gas cost in output token terms, by which quotes are compared.
    pub amount_out_net_gas: Amount,
    /// Block at which this quote was computed.
    pub block: BlockInfo,
    /// Algorithm that found this solution.
    pub algorithm: String,
    /// Effective gas price (in wei) at the time the route was computed.
    pub gas_price: Option<Amount>,
    /// An encoded EVM transaction ready to be submitted on-chain.
    pub transaction: Option<Transaction>,
    /// Fee breakdown, with an encoded transaction.
    pub fee_breakdown: Option<FeeBreakdown>,
    /// Address of the sender.
    pub sender: Bytes,
    /// Address of the receiver.
    pub receiver: Bytes,
    /// The state overlay this quote was computed against, or the number of the base block.
    pub solved_against: StateLabel,
    /// Surplus captured when this quote executes through a permissioned pool.
    pub surplus: Option<SurplusInfo>,
}

impl Clone for OrderQuote {
    fn clone(&self) -> (r: Self)
        ensures
            r == *self,
    {
        OrderQuote {
            order_id: self.order_id.clone(),
            status: self.status,
            route: match &self.route {
                Some(v) => Some(v.clone()),
                None => None,
            },
            amount_in: self.amount_in.clone(),
            amount_out: self.amount_out.clone(),
            gas_estimate: self.gas_estimate.clone(),
            price_impact_bps: self.price_impact_bps,
            amount_out_net_gas: self.amount_out_net_gas.clone(),
            block: self.block.clone(),
            algorithm: self.algorithm.clone(),
            gas_price: match &self.gas_price {
                Some(v) => Some(v.clone()),
                None => None,
            },
            transaction: match &self.transaction {
                Some(v) => Some(v.clone()),
                None => None,
            },
            fee_breakdown: match &self.fee_breakdown {
                Some(v) => Some(v.clone()),
                None => None,
            },
            sender: self.sender.clone(),
            receiver: self.receiver.clone(),
            solved_against: self.solved_against.clone(),
            surplus: match &self.surplus {
                Some(v) => Some(v.clone()),
                None => None,
            },
        }
    }
}

impl OrderQuote {
    /// Creates a quote without route, transaction or surplus.
    pub fn new(
        order_id: String,
        status: QuoteStatus,
        amount_in: Amount,
        amount_out: Amount,
        gas_estimate: Amount,
        amount_out_net_gas: Amount,
        block: BlockInfo,
        algorithm: String,
        sender: Bytes,
        receiver: Bytes,
        solved_against: StateLabel,
    ) -> (r: Self)
        ensures
            r == (OrderQuote {
                order_id,
                status,
                route: None,
                amount_in,
                amount_out,
                gas_estimate,
                price_impact_bps: None,
                amount_out_net_gas,
                block,
                algorithm,
                gas_price: None,
                transaction: None,
                fee_breakdown: None,
                sender,
                receiver,
                solved_against,
                surplus: None,
            }),
    {
        OrderQuote {
            order_id,
            status,
            route: None,
            amount_in,
            amount_out,
            gas_estimate,
            price_impact_bps: None,
            amount_out_net_gas,
            block,
            algorithm,
            gas_price: None,
            transaction: None,
            fee_breakdown: None,
            sender,
            receiver,
            solved_against,
            surplus: None,
        }
    }

    /// Attaches the surplus of a permissioned pool.
    pub fn with_surplus(self, surplus: SurplusInfo) -> (r: Self)
        ensures
            r == (OrderQuote { surplus: Some(surplus), ..self }),
    {
        OrderQuote { surplus: Some(surplus), ..self }
    }

    /// Sets the route for this solution.
    pub fn with_route(self, route: Route) -> (r: Self)
        ensures
            r == (OrderQuote { route: Some(route), ..self }),
    {
        OrderQuote { route: Some(route), ..self }
    }

    /// Sets the effective gas price.
    pub fn with_gas_price(self, gas_price: Amount) -> (r: Self)
        ensures
            r == (OrderQuote { gas_price: Some(gas_price), ..self }),
    {
        OrderQuote { gas_price: Some(gas_price), ..self }
    }

    /// Sets the price impact in basis points.
    pub fn with_price_impact_bps(self, bps: i32) -> (r: Self)
        ensures
            r == (OrderQuote { price_impact_bps: Some(bps), ..self }),
    {
        OrderQuote { price_impact_bps: Some(bps), ..self }
    }

    /// Sets the status of this quote.
    pub fn set_status(&mut self, status: QuoteStatus)
        ensures
            *final(self) == (OrderQuote { status: status, ..*old(self) }),
    {
        self.status = status;
    }

    /// Sets the encoded EVM transaction in place.
    pub fn set_transaction(&mut self, transaction: Transaction)
        ensures
            *final(self) == (OrderQuote { transaction: Some(transaction), ..*old(self) }),
    {
        self.transaction = Some(transaction);
    }

    /// Sets the gas estimate in place.
    pub fn set_gas_estimate(&mut self, gas_estimate: Amount)
        ensures
            *final(self) == (OrderQuote { gas_estimate: gas_estimate, ..*old(self) }),
    {
        self.gas_estimate = gas_estimate;
    }

    /// Sets the output net of gas in place.
    pub fn set_amount_out_net_gas(&mut self, value: Amount)
        ensures
            *final(self) == (OrderQuote { amount_out_net_gas: value, ..*old(self) }),
    {
        self.amount_out_net_gas = value;
    }

    /// Sets the fee breakdown in place.
    pub fn set_fee_breakdown(&mut self, fb: FeeBreakdown)
        ensures
            *final(self) == (OrderQuote { fee_breakdown: Some(fb), ..*old(self) }),
    {
        self.fee_breakdown = Some(fb);
    }

    /// The captured surplus, if this quote routes through a permissioned pool.
    pub fn eg_amount(&self) -> (r: Option<&Amount>)
        ensures
            match self.surplus {
                Some(s) => r == Some(&s.eg_amount),
                None => r is None,
            },
    {
        match &self.surplus {
            Some(s) => Some(&s.eg_amount),
            None => None,
        }
    }

    /// The committed public-market output, if this quote routes through a permissioned pool.
    pub fn committed_amount_out(&self) -> (r: Option<&Amount>)
        ensures
            match self.surplus {
                Some(s) => r == Some(&s.committed_amount_out),
                None => r is None,
            },
    {
        match &self.surplus {
            Some(s) => Some(&s.committed_amount_out),
            None => None,
        }
    }

    /// Consumes this solution and returns the route.
    pub fn into_route(self) -> (r: Option<Route>)
        ensures
            r == self.route,
    {
        self.route
    }

    /// The order ID.
    pub fn order_id(&self) -> (r: &str)
        ensures
            r@ == self.order_id@,
    {
        self.order_id.as_str()
    }

    /// The solution status.
    pub fn status(&self) -> (r: QuoteStatus)
        ensures
            r == self.status,
    {
        self.status
    }

    /// The route, if a valid route was found.
    pub fn route(&self) -> (r: Option<&Route>)
        ensures
            match self.route {
                Some(v) => r == Some(&v),
                None => r is None,
            },
    {
        self.route.as_ref()
    }

    /// The input amount.
    pub fn amount_in(&self) -> (r: &Amount)
        ensures
            *r == self.amount_in,
    {
        &self.amount_in
    }

    /// The output amount.
    pub fn amount_out(&self) -> (r: &Amount)
        ensures
            *r == self.amount_out,
    {
        &self.amount_out
    }

    /// The estimated gas cost.
    pub fn gas_estimate(&self) -> (r: &Amount)
        ensures
            *r == self.gas_estimate,
    {
        &self.gas_estimate
    }

    /// The price impact in basis points, if available.
    pub fn price_impact_bps(&self) -> (r: Option<i32>)
        ensures
            r == self.price_impact_bps,
    {
        self.price_impact_bps
    }

    /// The output amount minus gas cost in output token terms.
    pub fn amount_out_net_gas(&self) -> (r: &Amount)
        ensures
            *r == self.amount_out_net_gas,
    {
        &self.amount_out_net_gas
    }

    /// The block at which this solution was computed.
    pub fn block(&self) -> (r: &BlockInfo)
        ensures
            *r == self.block,
    {
        &self.block
    }

    /// The name of the algorithm that found this solution.
    pub fn algorithm(&self) -> (r: &str)
        ensures
            r@ == self.algorithm@,
    {
        self.algorithm.as_str()
    }

    /// The effective gas price at the time the route was computed.
    pub fn gas_price(&self) -> (r: Option<&Amount>)
        ensures
            match self.gas_price {
                Some(v) => r == Some(&v),
                None => r is None,
            },
    {
        self.gas_price.as_ref()
    }

    /// The encoded EVM transaction, if available.
    pub fn transaction(&self) -> (r: Option<&Transaction>)
        ensures
            match self.transaction {
                Some(v) => r == Some(&v),
                None => r is None,
            },
    {
        self.transaction.as_ref()
    }

    /// The fee breakdown, if encoding was requested.
    pub fn fee_breakdown(&self) -> (r: Option<&FeeBreakdown>)
        ensures
            match self.fee_breakdown {
                Some(v) => r == Some(&v),
                None => r is None,
            },
    {
        self.fee_breakdown.as_ref()
    }

    /// The sender address.
    pub fn sender(&self) -> (r: &Bytes)
        ensures
            *r == self.sender,
    {
        &self.sender
    }

    /// The receiver address.
    pub fn receiver(&self) -> (r: &Bytes)
        ensures
            *r == self.receiver,
    {
        &self.receiver
    }

    /// The state overlay this quote was computed against.
    pub fn solved_against(&self) -> (r: &StateLabel)
        ensures
            *r == self.solved_against,
    {
        &self.solved_against
    }
}

/// A quote and how long one worker took for it.
#[derive(Debug)]
pub struct SingleOrderQuote {
    /// The solution for the order.
    pub order: OrderQuote,
    /// Time taken by this worker to compute the solution, in milliseconds.
    pub solve_time_ms: u64,
}

impl SingleOrderQuote {
    /// Puts a quote and its time together.
    pub fn new(order: OrderQuote, solve_time_ms: u64) -> (r: Self)
        ensures
            r == (SingleOrderQuote { order, solve_time_ms }),
    {
        SingleOrderQuote { order, solve_time_ms }
    }

    /// The order solution.
    pub fn order(&self) -> (r: &OrderQuote)
        ensures
            *r == self.order,
    {
        &self.order
    }

    /// The time taken by this worker, in milliseconds.
    pub fn solve_time_ms(&self) -> (r: u64)
        ensures
            r == self.solve_time_ms,
    {
        self.solve_time_ms
    }
}

/// Complete solution for a request: a quote for each order, in the order of the request.
#[derive(Debug)]
pub struct Quote {
    /// Quotes for each order, in the same order as the request.
    pub orders: Vec<OrderQuote>,
    /// Total estimated gas for executing all swaps.
    pub total_gas_estimate: Amount,
    /// Time taken to compute this solution, in milliseconds.
    pub solve_time_ms: u64,
}

impl Quote {
    /// Puts a solution together.
    pub fn new(orders: Vec<OrderQuote>, total_gas_estimate: Amount, solve_time_ms: u64) -> (r: Self)
        ensures
            r == (Quote { orders, total_gas_estimate, solve_time_ms }),
    {
        Quote { orders, total_gas_estimate, solve_time_ms }
    }

    /// The solutions for each order.
    pub fn orders(&self) -> (r: &Vec<OrderQuote>)
        ensures
            *r == self.orders,
    {
        &self.orders
    }

    /// Consumes this solution and returns the order solutions.
    pub fn into_orders(self) -> (r: Vec<OrderQuote>)
        ensures
            r == self.orders,
    {
        self.orders
    }

    /// The total estimated gas for all swaps.
    pub fn total_gas_estimate(&self) -> (r: &Amount)
        ensures
            *r == self.total_gas_estimate,
    {
        &self.total_gas_estimate
    }

    /// The time taken to compute this solution, in milliseconds.
    pub fn solve_time_ms(&self) -> (r: u64)
        ensures
            r == self.solve_time_ms,
    {
        self.solve_time_ms
    }
}

/// A whole number of any size.
#[derive(Debug)]
pub struct SignedAmount {
    /// Whether the number is the magnitude below zero.
    pub negative: bool,
    pub magnitude: Amount,
}

impl View for SignedAmount {
    type V = int;

    open spec fn view(&self) -> int {
        if self.negative {
            -(self.magnitude@ as int)
        } else {
            self.magnitude@ as int
        }
    }
}

impl SignedAmount {
    /// The number, or zero in place of a negative one.
    pub fn or_zero(&self) -> (r: Amount)
        ensures
            r@ == if self@ < 0 {
                0
            } else {
                self@
            },
    {
        if self.negative {
            Amount::zero()
        } else {
            self.magnitude.clone()
        }
    }
}

/// The result of a route-finding algorithm: a route and its output net of gas.
#[derive(Debug)]
pub struct RouteResult {
    /// The route to execute.
    pub route: Route,
    /// Output after gas costs in output token terms. Negative if gas exceeds output.
    pub net_amount_out: SignedAmount,
    /// Effective gas price (in wei) at the time the route was computed.
    pub gas_price: Amount,
}

impl RouteResult {
    /// Creates a route result.
    pub fn new(route: Route, net_amount_out: SignedAmount, gas_price: Amount) -> (r: Self)
        ensures
            r == (RouteResult { route, net_amount_out, gas_price }),
    {
        RouteResult { route, net_amount_out, gas_price }
    }

    /// The route to execute.
    pub fn route(&self) -> (r: &Route)
        ensures
            *r == self.route,
    {
        &self.route
    }

    /// The output after gas costs.
    pub fn net_amount_out(&self) -> (r: &SignedAmount)
        ensures
            *r == self.net_amount_out,
    {
        &self.net_amount_out
    }

    /// The effective gas price.
    pub fn gas_price(&self) -> (r: &Amount)
        ensures
            *r == self.gas_price,
    {
        &self.gas_price
    }

    /// Consumes the result and returns the route.
    pub fn into_route(self) -> (r: Route)
        ensures
            r == self.route,
    {
        self.route
    }
}

/// An algorithm that failed for want of liquidity or of time says so; every other failure is that no route
/// was found. No failure is a success.
pub proof fn failures_have_their_status(error: AlgorithmError)
    ensures
        QuoteStatus::of_failure(error) == QuoteStatus::InsufficientLiquidity
            <==> error is InsufficientLiquidity,
        QuoteStatus::of_failure(error) == QuoteStatus::Timeout <==> error is Timeout,
        QuoteStatus::of_failure(error) == QuoteStatus::NoRouteFound <==> !(error
            is InsufficientLiquidity) && !(error is Timeout),
{
}

/// A signed number lies as far from zero as its magnitude, on the side of its sign.
pub proof fn signs_decide_the_side(amount: SignedAmount)
    ensures
        amount@ + amount.magnitude@ == 0 || amount@ == amount.magnitude@,
        amount.magnitude@ > 0 ==> (amount@ < 0 <==> amount.negative),
        amount.magnitude@ == 0 ==> amount@ == 0,
{
}

/// A negative number counts for nothing, and any other for itself.
pub proof fn negative_amounts_count_for_nothing(amount: SignedAmount, r: Amount)
    requires
        call_ensures(SignedAmount::or_zero, (&amount,), r),
    ensures
        amount.negative ==> r@ == 0,
        !amount.negative ==> r@ == amount.magnitude@,
{
}

} // verus!
