//! What a request for quotes asks for.
use vstd::prelude::*;

use crate::amount::Amount;
use crate::bytes::Bytes;
use crate::types::order::Order;

verus! {

/// Name of a state overlay.
pub type StateLabel = String;

/// How the router obtains the input tokens.
#[derive(Debug, Clone, Copy, PartialEq, Eq, Structural)]
pub enum UserTransferType {
    /// A Permit2 authorization.
    TransferFromPermit2,
    /// An ordinary token approval.
    TransferFrom,
    /// Funds that already lie in the router's vault.
    UseVaultsFunds,
}

/// Per-request price guard configuration.
#[derive(Debug, Clone, Copy, PartialEq, Eq, Structural)]
pub struct PriceGuardConfig {
    /// Whether the request wants its quotes checked against outside prices.
    pub enabled: bool,
}

impl Default for PriceGuardConfig {
    fn default() -> (r: Self)
        ensures
            !r.enabled,
    {
        PriceGuardConfig { enabled: false }
    }
}

impl PriceGuardConfig {
    /// Whether the request wants its quotes checked.
    pub fn enabled(&self) -> (r: bool)
        ensures
            r == self.enabled,
    {
        self.enabled
    }
}

/// Details for a permit2 single-token permit.
#[derive(Debug)]
pub struct PermitDetails {
    /// Token address for which the permit is granted.
    pub token: Bytes,
    /// Amount of tokens approved.
    pub amount: Amount,
    /// Expiration timestamp for the permit.
    pub expiration: Amount,
    /// Nonce to prevent replay attacks.
    pub nonce: Amount,
}

impl Clone for PermitDetails {
    fn clone(&self) -> (r: Self)
        ensures
            r == *self,
    {
        PermitDetails {
            token: self.token.clone(),
            amount: self.amount.clone(),
            expiration: self.expiration.clone(),
            nonce: self.nonce.clone(),
        }
    }
}

impl PermitDetails {
    /// Creates permit details.
    pub fn new(token: Bytes, amount: Amount, expiration: Amount, nonce: Amount) -> (r: Self)
        ensures
            r == (PermitDetails { token, amount, expiration, nonce }),
    {
        PermitDetails { token, amount, expiration, nonce }
    }

    /// The token address.
    pub fn token(&self) -> (r: &Bytes)
        ensures
            *r == self.token,
    {
        &self.token
    }

    /// The approved amount.
    pub fn amount(&self) -> (r: &Amount)
        ensures
            *r == self.amount,
    {
        &self.amount
    }

    /// The expiration timestamp.
    pub fn expiration(&self) -> (r: &Amount)
        ensures
            *r == self.expiration,
    {
        &self.expiration
    }

    /// The nonce.
    pub fn nonce(&self) -> (r: &Amount)
        ensures
            *r == self.nonce,
    {
        &self.nonce
    }
}

/// A single permit for permit2 token transfer authorization.
#[derive(Debug)]
pub struct PermitSingle {
    /// The permit details (token, amount, expiration, nonce).
    pub details: PermitDetails,
    /// Address authorized to spend the tokens (typically the router).
    pub spender: Bytes,
    /// Deadline timestamp for the permit signature.
    pub sig_deadline: Amount,
}

impl Clone for PermitSingle {
    fn clone(&self) -> (r: Self)
        ensures
            r == *self,
    {
        PermitSingle {
            details: self.details.clone(),
            spender: self.spender.clone(),
            sig_deadline: self.sig_deadline.clone(),
        }
    }
}

impl PermitSingle {
    /// Creates a permit.
    pub fn new(details: PermitDetails, spender: Bytes, sig_deadline: Amount) -> (r: Self)
        ensures
            r == (PermitSingle { details, spender, sig_deadline }),
    {
        PermitSingle { details, spender, sig_deadline }
    }

    /// The permit details.
    pub fn details(&self) -> (r: &PermitDetails)
        ensures
            *r == self.details,
    {
        &self.details
    }

    /// The spender address.
    pub fn spender(&self) -> (r: &Bytes)
        ensures
            *r == self.spender,
    {
        &self.spender
    }

    /// The signature deadline.
    pub fn sig_deadline(&self) -> (r: &Amount)
        ensures
            *r == self.sig_deadline,
    {
        &self.sig_deadline
    }
}

/// Client fee configuration: the router charges the fee on the swap output.
#[derive(Debug)]
pub struct ClientFeeParams {
    /// Fee in basis points (0 to 10,000). 100 is one percent.
    pub bps: u16,
    /// Address that receives the fee, which is also the required signer.
    pub receiver: Bytes,
    /// Maximum subsidy from the client's vault balance, in output tokens.
    pub max_contribution: Amount,
    /// Unix timestamp after which the signature is invalid.
    pub deadline: u64,
    /// 65-byte signature by `receiver`.
    pub signature: Bytes,
}

impl Clone for ClientFeeParams {
    fn clone(&self) -> (r: Self)
        ensures
            r == *self,
    {
        ClientFeeParams {
            bps: self.bps,
            receiver: self.receiver.clone(),
            max_contribution: self.max_contribution.clone(),
            deadline: self.deadline,
            signature: self.signature.clone(),
        }
    }
}

impl ClientFeeParams {
    /// Creates client fee params.
    pub fn new(bps: u16, receiver: Bytes, max_contribution: Amount, deadline: u64, signature: Bytes) -> (r: Self)
        ensures
            r == (ClientFeeParams { bps, receiver, max_contribution, deadline, signature }),
    {
        ClientFeeParams { bps, receiver, max_contribution, deadline, signature }
    }

    /// Fee in basis points.
    pub fn bps(&self) -> (r: u16)
        ensures
            r == self.bps,
    {
        self.bps
    }

    /// Address that receives the fee.
    pub fn receiver(&self) -> (r: &Bytes)
        ensures
            *r == self.receiver,
    {
        &self.receiver
    }

    /// Maximum subsidy from client vault.
    pub fn max_contribution(&self) -> (r: &Amount)
        ensures
            *r == self.max_contribution,
    {
        &self.max_contribution
    }

    /// Signature deadline timestamp.
    pub fn deadline(&self) -> (r: u64)
        ensures
            r == self.deadline,
    {
        self.deadline
    }

    /// Signature by the receiver.
    pub fn signature(&self) -> (r: &Bytes)
        ensures
            *r == self.signature,
    {
        &self.signature
    }
}

/// Options to customize the encoding behavior.
#[derive(Debug)]
pub struct EncodingOptions {
    /// Slippage tolerance in millionths.
    pub slippage: u64,
    /// Token transfer method.
    pub transfer_type: UserTransferType,
    /// Permit2 authorization. Required with `TransferFromPermit2`.
    pub permit: Option<PermitSingle>,
    /// Permit2 signature. Required when `permit` is set.
    pub permit2_signature: Option<Bytes>,
    /// Client fee configuration. When absent, no client fee is charged.
    pub client_fee_params: Option<ClientFeeParams>,
    /// Per-request price guard configuration.
    pub price_guard: PriceGuardConfig,
}

impl Clone for EncodingOptions {
    fn clone(&self) -> (r: Self)
        ensures
            r == *self,
    {
        EncodingOptions {
            slippage: self.slippage,
            transfer_type: self.transfer_type,
            permit: match &self.permit {
                Some(v) => Some(v.clone()),
                None => None,
            },
            permit2_signature: match &self.permit2_signature {
                Some(v) => Some(v.clone()),
                None => None,
            },
            client_fee_params: match &self.client_fee_params {
                Some(v) => Some(v.clone()),
                None => None,
            },
            price_guard: self.price_guard,
        }
    }
}

/// The transfer type of a request that does not name one.
pub fn default_transfer_type() -> (r: UserTransferType)
    ensures
        r == UserTransferType::TransferFrom,
{
    UserTransferType::TransferFrom
}

impl EncodingOptions {
    /// Creates encoding options with the given slippage tolerance and defaults otherwise.
    pub fn new(slippage: u64) -> (r: Self)
        ensures
            r == (EncodingOptions {
                slippage,
                transfer_type: UserTransferType::TransferFrom,
                permit: None,
                permit2_signature: None,
                client_fee_params: None,
                price_guard: PriceGuardConfig { enabled: false },
            }),
    {
        EncodingOptions {
            slippage,
            transfer_type: default_transfer_type(),
            permit: None,
            permit2_signature: None,
            client_fee_params: None,
            price_guard: PriceGuardConfig::default(),
        }
    }

    /// Sets the token transfer type.
    pub fn with_transfer_type(self, transfer_type: UserTransferType) -> (r: Self)
        ensures
            r == (EncodingOptions { transfer_type: transfer_type, ..self }),
    {
        EncodingOptions { transfer_type: transfer_type, ..self }
    }

    /// Sets the permit2 authorization.
    pub fn with_permit(self, permit: PermitSingle) -> (r: Self)
        ensures
            r == (EncodingOptions { permit: Some(permit), ..self }),
    {
        EncodingOptions { permit: Some(permit), ..self }
    }

    /// Sets the permit2 signature.
    pub fn with_signature(self, sig: Bytes) -> (r: Self)
        ensures
            r == (EncodingOptions { permit2_signature: Some(sig), ..self }),
    {
        EncodingOptions { permit2_signature: Some(sig), ..self }
    }

    /// Sets the client fee params.
    pub fn with_client_fee_params(self, params: ClientFeeParams) -> (r: Self)
        ensures
            r == (EncodingOptions { client_fee_params: Some(params), ..self }),
    {
        EncodingOptions { client_fee_params: Some(params), ..self }
    }

    /// Sets per-request price guard configuration.
    pub fn with_price_guard(self, config: PriceGuardConfig) -> (r: Self)
        ensures
            r == (EncodingOptions { price_guard: config, ..self }),
    {
        EncodingOptions { price_guard: config, ..self }
    }

    /// The slippage tolerance in millionths.
    pub fn slippage(&self) -> (r: u64)
        ensures
            r == self.slippage,
    {
        self.slippage
    }

    /// The token transfer type.
    pub fn transfer_type(&self) -> (r: &UserTransferType)
        ensures
            *r == self.transfer_type,
    {
        &self.transfer_type
    }

    /// The permit2 authorization, if set.
    pub fn permit(&self) -> (r: Option<&PermitSingle>)
        ensures
            match self.permit {
                Some(v) => r == Some(&v),
                None => r is None,
            },
    {
        self.permit.as_ref()
    }

    /// The permit2 signature, if set.
    pub fn permit2_signature(&self) -> (r: Option<&Bytes>)
        ensures
            match self.permit2_signature {
                Some(v) => r == Some(&v),
                None => r is None,
            },
    {
        self.permit2_signature.as_ref()
    }

    /// The client fee params, if set.
    pub fn client_fee_params(&self) -> (r: Option<&ClientFeeParams>)
        ensures
            match self.client_fee_params {
                Some(v) => r == Some(&v),
                None => r is None,
            },
    {
        self.client_fee_params.as_ref()
    }

    /// The per-request price guard configuration.
    pub fn price_guard(&self) -> (r: &PriceGuardConfig)
        ensures
            *r == self.price_guard,
    {
        &self.price_guard
    }
}

/// Options to customize the solving behavior.
#[derive(Debug)]
pub struct QuoteOptions {
    /// Timeout in milliseconds. If `None`, the router default applies.
    pub timeout_ms: Option<u64>,
    /// Number of solver responses to wait for. If `None` or zero, all solvers respond or time out.
    pub min_responses: Option<usize>,
    /// Maximum gas cost allowed. Quotes exceeding this are filtered out.
    pub max_gas: Option<Amount>,
    /// How to encode the solution. If `None`, it is returned without a transaction.
    pub encoding_options: Option<EncodingOptions>,
    /// Solve against this named state overlay. `None` solves against the base state.
    pub state_label: Option<StateLabel>,
}

impl Clone for QuoteOptions {
    fn clone(&self) -> (r: Self)
        ensures
            r == *self,
    {
        QuoteOptions {
            timeout_ms: self.timeout_ms,
            min_responses: self.min_responses,
            max_gas: match &self.max_gas {
                Some(v) => Some(v.clone()),
                None => None,
            },
            encoding_options: match &self.encoding_options {
                Some(v) => Some(v.clone()),
                None => None,
            },
            state_label: match &self.state_label {
                Some(v) => Some(v.clone()),
                None => None,
            },
        }
    }
}

impl Default for QuoteOptions {
    fn default() -> (r: Self)
        ensures
            r == (QuoteOptions {
                timeout_ms: None,
                min_responses: None,
                max_gas: None,
                encoding_options: None,
                state_label: None,
            }),
    {
        QuoteOptions {
            timeout_ms: None,
            min_responses: None,
            max_gas: None,
            encoding_options: None,
            state_label: None,
        }
    }
}

impl QuoteOptions {
    /// Sets the timeout in milliseconds.
    pub fn with_timeout_ms(self, ms: u64) -> (r: Self)
        ensures
            r == (QuoteOptions { timeout_ms: Some(ms), ..self }),
    {
        QuoteOptions { timeout_ms: Some(ms), ..self }
    }

    /// Sets the number of solver responses to wait for.
    pub fn with_min_responses(self, n: usize) -> (r: Self)
        ensures
            r == (QuoteOptions { min_responses: Some(n), ..self }),
    {
        QuoteOptions { min_responses: Some(n), ..self }
    }

    /// Sets the maximum gas cost allowed.
    pub fn with_max_gas(self, gas: Amount) -> (r: Self)
        ensures
            r == (QuoteOptions { max_gas: Some(gas), ..self }),
    {
        QuoteOptions { max_gas: Some(gas), ..self }
    }

    /// Sets the encoding options.
    pub fn with_encoding_options(self, opts: EncodingOptions) -> (r: Self)
        ensures
            r == (QuoteOptions { encoding_options: Some(opts), ..self }),
    {
        QuoteOptions { encoding_options: Some(opts), ..self }
    }

    /// Targets a named state overlay.
    pub fn with_state_label(self, label: StateLabel) -> (r: Self)
        ensures
            r == (QuoteOptions { state_label: Some(label), ..self }),
    {
        QuoteOptions { state_label: Some(label), ..self }
    }

    /// The timeout in milliseconds.
    pub fn timeout_ms(&self) -> (r: Option<u64>)
        ensures
            r == self.timeout_ms,
    {
        self.timeout_ms
    }

    /// The number of solver responses to wait for.
    pub fn min_responses(&self) -> (r: Option<usize>)
        ensures
            r == self.min_responses,
    {
        self.min_responses
    }

    /// The maximum gas cost constraint.
    pub fn max_gas(&self) -> (r: Option<&Amount>)
        ensures
            match self.max_gas {
                Some(v) => r == Some(&v),
                None => r is None,
            },
    {
        self.max_gas.as_ref()
    }

    /// The encoding options.
    pub fn encoding_options(&self) -> (r: Option<&EncodingOptions>)
        ensures
            match self.encoding_options {
                Some(v) => r == Some(&v),
                None => r is None,
            },
    {
        self.encoding_options.as_ref()
    }

    /// The overlay label, if one was set.
    pub fn state_label(&self) -> (r: Option<&StateLabel>)
        ensures
            match self.state_label {
                Some(v) => r == Some(&v),
                None => r is None,
            },
    {
        self.state_label.as_ref()
    }
}

/// Parameters for a single solve operation.
#[derive(Debug)]
pub struct SolveParams {
    /// Solve against this labeled state overlay. `None` uses the base state.
    pub state_label: Option<StateLabel>,
}

impl Clone for SolveParams {
    fn clone(&self) -> (r: Self)
        ensures
            r == *self,
    {
        SolveParams {
            state_label: match &self.state_label {
                Some(v) => Some(v.clone()),
                None => None,
            },
        }
    }
}

impl Default for SolveParams {
    fn default() -> (r: Self)
        ensures
            r == (SolveParams { state_label: None }),
    {
        SolveParams { state_label: None }
    }
}

impl SolveParams {
    /// Targets a named state overlay.
    pub fn with_state_label(self, label: StateLabel) -> (r: Self)
        ensures
            r == (SolveParams { state_label: Some(label), ..self }),
    {
        SolveParams { state_label: Some(label), ..self }
    }

    /// The overlay label, if one was set.
    pub fn state_label(&self) -> (r: Option<&StateLabel>)
        ensures
            match self.state_label {
                Some(v) => r == Some(&v),
                None => r is None,
            },
    {
        self.state_label.as_ref()
    }
}

/// Request to solve one or more swap orders.
#[derive(Debug)]
pub struct QuoteRequest {
    /// Orders to solve.
    pub orders: Vec<Order>,
    /// Solving parameters that apply to all orders.
    pub options: QuoteOptions,
}

impl QuoteRequest {
    /// Creates a request.
    pub fn new(orders: Vec<Order>, options: QuoteOptions) -> (r: Self)
        ensures
            r == (QuoteRequest { orders, options }),
    {
        QuoteRequest { orders, options }
    }

    /// The orders to solve.
    pub fn orders(&self) -> (r: &Vec<Order>)
        ensures
            *r == self.orders,
    {
        &self.orders
    }

    /// The solving options.
    pub fn options(&self) -> (r: &QuoteOptions)
        ensures
            *r == self.options,
    {
        &self.options
    }
}

} // verus!
