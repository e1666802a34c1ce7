//! Encoding quotes into calls of the router contract.
use vstd::prelude::*;
use vstd::string::{StrSliceExecFns, StringExecFns};

use crate::amount::Amount;
use crate::bytes::{Address, Bytes};
use crate::encoding::call::{
    encode_permit_split_swap, encode_permit_swap, encode_split_swap, encode_swap, keccak256,
    to_bytes, PermitCall, RouterCall,
};
use crate::encoding::fees::{
    calculate_fee_breakdown, check_rates, take_fees, take_slippage, FeeRates, RouterFees,
    SLIPPAGE_UNITS,
};
use crate::encoding::solution::Solution;
use crate::error::{EncodingError, SolveError};
use crate::text::{contains, decimal};
use crate::types::chain::Chain;
use crate::types::options::{EncodingOptions, PermitSingle};
use crate::types::quote::{FeeBreakdown, OrderQuote, QuoteStatus, Transaction};

verus! {

/// Canonical Permit2 contract address, identical on all EVM chains.
pub const PERMIT2_ADDRESS: &'static str = "0x000000000022D473030F116dDEE9F6B43aC78BA3";

/// A solution, encoded for execution.
#[derive(Debug)]
pub struct EncodedSolution {
    /// Encoded swaps.
    pub swaps: Vec<u8>,
    /// Address of the contract to be called.
    pub interacting_with: Address,
    /// Signature of the function to be called.
    pub function_signature: String,
    /// Number of tokens in the swaps.
    pub n_tokens: usize,
    pub estimated_gas: Amount,
    /// Where the client fee signature stands in the calldata.
    pub client_fee_signature_offset: usize,
}

/// The address by which the router knows the native token.
pub open spec fn router_eth() -> Seq<u8> {
    Seq::new(20, |i: int| 0xeeu8)
}

/// The address by which the router knows a token.
pub open spec fn router_token(native: Seq<u8>, token: Seq<u8>) -> Seq<u8> {
    if token == native {
        router_eth()
    } else {
        token
    }
}

pub open spec fn is_address(bytes: Seq<u8>) -> bool {
    bytes.len() == 20
}

/// The client whose router fees apply: the receiver of the client fee, or else the sender.
pub open spec fn fee_client(solution: Solution, options: EncodingOptions) -> Seq<u8> {
    match options.client_fee_params {
        Some(fee) => fee.receiver@,
        None => solution.sender@,
    }
}

pub open spec fn client_fee_bps(options: EncodingOptions) -> u16 {
    match options.client_fee_params {
        Some(fee) => fee.bps,
        None => 0,
    }
}

/// Room for a client fee signature: 65 bytes, of which those given come first.
pub open spec fn padded_signature(signature: Seq<u8>) -> Seq<u8> {
    Seq::new(
        65,
        |i: int|
            if i < signature.len() {
                signature[i]
            } else {
                0u8
            },
    )
}

/// All numbers of a solution and its options fit the contract's types.
pub open spec fn numbers_fit(solution: Solution, options: EncodingOptions) -> bool {
    &&& solution.amount_in@ < vstd::arithmetic::power::pow(256, 32)
    &&& solution.min_amount_out@ < vstd::arithmetic::power::pow(256, 32)
    &&& options.slippage <= SLIPPAGE_UNITS
    &&& options.client_fee_params matches Some(fee) ==> fee.max_contribution@ < vstd::arithmetic::power::pow(256, 32)
    &&& options.permit matches Some(permit) ==> {
        &&& permit.details.amount@ < vstd::arithmetic::power::pow(256, 20)
        &&& permit.details.expiration@ < vstd::arithmetic::power::pow(256, 6)
        &&& permit.details.nonce@ < vstd::arithmetic::power::pow(256, 6)
        &&& permit.sig_deadline@ < vstd::arithmetic::power::pow(256, 32)
    }
}

/// The first number that does not fit into so many bytes.
fn limit(bytes: u64) -> (r: Amount)
    ensures
        r@ == vstd::arithmetic::power::pow(256, bytes as nat),
{
    proof {
        reveal(vstd::arithmetic::power::pow);
    }
    let base: Amount = Amount::from_u64(256);
    let mut power: Amount = Amount::from_u64(1);
    let mut i: u64 = 0;
    while i < bytes
        invariant
            i <= bytes,
            base@ == 256,
            power@ == vstd::arithmetic::power::pow(256, i as nat),
        decreases bytes - i,
    {
        proof {
            reveal(vstd::arithmetic::power::pow);
            assert(vstd::arithmetic::power::pow(256, (i + 1) as nat) == 256
                * vstd::arithmetic::power::pow(256, i as nat));
        }
        power = base.times(&power);
        i += 1;
    }
    power
}

/// Fees can be reckoned by the rates that apply to a solution.
pub open spec fn fees_are_usable(
    solution: Solution,
    options: EncodingOptions,
    fees: RouterFees,
) -> bool {
    fees.rates_of(fee_client(solution, options)).spec_is_usable()
}

/// The rates that apply to a solution: those of the client.
fn rates_for(solution: &Solution, options: &EncodingOptions, router_fees: &RouterFees) -> (r: FeeRates)
    ensures
        r == router_fees.rates_of(fee_client(*solution, *options)),
{
    match &options.client_fee_params {
        Some(fee) => router_fees.fees_for(&fee.receiver),
        None => router_fees.fees_for(&solution.sender),
    }
}

/// The fee that the client asks for.
fn fee_bps(options: &EncodingOptions) -> (r: u16)
    ensures
        r == client_fee_bps(*options),
{
    match &options.client_fee_params {
        Some(fee) => fee.bps,
        None => 0,
    }
}

/// Why a permit cannot be part of a call.
pub open spec fn permit_fault(options: EncodingOptions) -> Option<EncodingError> {
    match options.permit {
        Some(permit) => if !is_address(permit.details.token@) {
            Some(EncodingError::InvalidAddress { address: permit.details.token })
        } else if !is_address(permit.spender@) {
            Some(EncodingError::InvalidAddress { address: permit.spender })
        } else if options.permit2_signature is None {
            Some(EncodingError::MissingPermitSignature)
        } else {
            None
        },
        None => None,
    }
}

/// Why the arguments of a call cannot be made.
pub open spec fn arguments_fault(
    solution: Solution,
    options: EncodingOptions,
    fees: RouterFees,
) -> Option<EncodingError> {
    match crate::encoding::fees::fee_fault(
        client_fee_bps(options),
        fees.rates_of(fee_client(solution, options)),
    ) {
        Some(error) => Some(error),
        None => if !is_address(solution.token_in@) {
            Some(EncodingError::InvalidAddress { address: solution.token_in })
        } else if !is_address(solution.token_out@) {
            Some(EncodingError::InvalidAddress { address: solution.token_out })
        } else if !is_address(solution.receiver@) {
            Some(EncodingError::InvalidAddress { address: solution.receiver })
        } else {
            match permit_fault(options) {
                Some(error) => Some(error),
                None => match options.client_fee_params {
                    Some(fee) if !is_address(fee.receiver@) => Some(
                        EncodingError::InvalidAddress { address: fee.receiver },
                    ),
                    _ => None,
                },
            }
        },
    }
}

/// The addresses of a solution are addresses.
pub open spec fn has_addresses(solution: Solution) -> bool {
    is_address(solution.token_in@) && is_address(solution.token_out@) && is_address(
        solution.receiver@,
    )
}

/// The numbers of a permit fit the contract's types, as far as they are read: a bad address among them
/// ends the reading.
pub open spec fn permit_fits(options: EncodingOptions) -> bool {
    match options.permit {
        Some(permit) => is_address(permit.details.token@) ==> {
            &&& permit.details.amount@ < vstd::arithmetic::power::pow(256, 20)
            &&& permit.details.expiration@ < vstd::arithmetic::power::pow(256, 6)
            &&& permit.details.nonce@ < vstd::arithmetic::power::pow(256, 6)
            &&& is_address(permit.spender@) ==> permit.sig_deadline@
                < vstd::arithmetic::power::pow(256, 32)
        },
        None => true,
    }
}

/// The most that a client contributes fits the contract's type, where its address is one.
pub open spec fn contribution_fits(options: EncodingOptions) -> bool {
    match options.client_fee_params {
        Some(fee) => is_address(fee.receiver@) ==> fee.max_contribution@
            < vstd::arithmetic::power::pow(256, 32),
        None => true,
    }
}

/// A call can be made of a solution, or is refused with an error: fees can be reckoned, and every number
/// that is read before a fault is found fits the contract's types.
pub open spec fn can_encode(solution: Solution, options: EncodingOptions, fees: RouterFees) -> bool {
    let rates = fees.rates_of(fee_client(solution, options));
    let bps = client_fee_bps(options);
    let output = solution.min_amount_out@;
    &&& solution.amount_in@ < vstd::arithmetic::power::pow(256, 32)
    &&& rates.spec_is_usable()
    &&& crate::encoding::fees::fee_fault(bps, rates) is None ==> {
        &&& crate::encoding::fees::slippage_fits(output, bps, options.slippage, rates)
        &&& crate::encoding::fees::least_received(output, bps, options.slippage, rates)
            < vstd::arithmetic::power::pow(256, 32)
        &&& has_addresses(solution) ==> permit_fits(options)
        &&& has_addresses(solution) && permit_fault(options) is None ==> contribution_fits(options)
    }
}

fn check_address(address: &Bytes) -> (r: Result<(), EncodingError>)
    ensures
        r == if is_address(address@) {
            Ok(())
        } else {
            Err(EncodingError::InvalidAddress { address: *address })
        },
{
    if address.len() == 20 {
        Ok(())
    } else {
        Err(EncodingError::InvalidAddress { address: address.clone() })
    }
}

/// Whether the addresses of a solution are addresses; else the first that is none.
fn check_addresses(solution: &Solution) -> (r: Result<(), EncodingError>)
    ensures
        r == if !is_address(solution.token_in@) {
            Err(EncodingError::InvalidAddress { address: solution.token_in })
        } else if !is_address(solution.token_out@) {
            Err(EncodingError::InvalidAddress { address: solution.token_out })
        } else if !is_address(solution.receiver@) {
            Err(EncodingError::InvalidAddress { address: solution.receiver })
        } else {
            Ok(())
        },
{
    if let Err(error) = check_address(&solution.token_in) {
        return Err(error);
    }
    if let Err(error) = check_address(&solution.token_out) {
        return Err(error);
    }
    check_address(&solution.receiver)
}

/// Whether a permit can be part of a call.
fn check_permit(options: &EncodingOptions) -> (r: Result<(), EncodingError>)
    ensures
        r == match permit_fault(*options) {
            Some(error) => Err(error),
            None => Ok(()),
        },
{
    match &options.permit {
        None => Ok(()),
        Some(permit) => {
            if let Err(error) = check_address(&permit.details.token) {
                return Err(error);
            }
            if let Err(error) = check_address(&permit.spender) {
                return Err(error);
            }
            match &options.permit2_signature {
                None => Err(EncodingError::MissingPermitSignature),
                Some(_) => Ok(()),
            }
        },
    }
}

/// Whether the arguments of a call can be made.
fn check_arguments(
    solution: &Solution,
    options: &EncodingOptions,
    router_fees: &RouterFees,
) -> (r: Result<(), EncodingError>)
    ensures
        r == match arguments_fault(*solution, *options, *router_fees) {
            Some(error) => Err(error),
            None => Ok(()),
        },
{
    if let Err(error) = check_rates(fee_bps(options), rates_for(solution, options, router_fees)) {
        return Err(error);
    }
    if let Err(error) = check_addresses(solution) {
        return Err(error);
    }
    if let Err(error) = check_permit(options) {
        return Err(error);
    }
    match &options.client_fee_params {
        Some(fee) => check_address(&fee.receiver),
        None => Ok(()),
    }
}

/// Whether the numbers of a permit fit the contract's types, as far as they are read.
fn check_permit_numbers(options: &EncodingOptions) -> (r: bool)
    ensures
        r == permit_fits(*options),
{
    match &options.permit {
        Some(permit) => {
            let time: Amount = limit(6);
            permit.details.token.len() != 20 || (permit.details.amount.less_than(&limit(20))
                && permit.details.expiration.less_than(&time) && permit.details.nonce.less_than(
                &time,
            ) && (permit.spender.len() != 20 || permit.sig_deadline.less_than(&limit(32))))
        },
        None => true,
    }
}

/// Whether a call can be made of a solution, or is refused with an error.
pub fn check_call(
    solution: &Solution,
    options: &EncodingOptions,
    router_fees: &RouterFees,
) -> (r: bool)
    ensures
        r == can_encode(*solution, *options, *router_fees),
{
    let word: Amount = limit(32);
    let rates: FeeRates = rates_for(solution, options, router_fees);
    let bps: u16 = fee_bps(options);
    if !solution.amount_in.less_than(&word) || !rates.is_usable() {
        return false;
    }
    if check_rates(bps, rates).is_err() {
        return true;
    }
    let (_, _, left) = take_fees(&solution.min_amount_out, bps, rates);
    let slippage: Amount = take_slippage(&left, options.slippage);
    if !slippage.at_most(&left) || !left.minus(&slippage).less_than(&word) {
        return false;
    }
    if check_addresses(solution).is_err() {
        return true;
    }
    if !check_permit_numbers(options) {
        return false;
    }
    if check_permit(options).is_err() {
        return true;
    }
    match &options.client_fee_params {
        Some(fee) => fee.receiver.len() != 20 || fee.max_contribution.less_than(&word),
        None => true,
    }
}

/// Where all numbers fit the contract's types and fees can be reckoned, a call can be made or is
/// refused with an error.
pub proof fn fitting_numbers_can_be_encoded(
    solution: Solution,
    options: EncodingOptions,
    fees: RouterFees,
)
    requires
        numbers_fit(solution, options),
        fees_are_usable(solution, options, fees),
    ensures
        can_encode(solution, options, fees),
{
    let rates = fees.rates_of(fee_client(solution, options));
    let bps = client_fee_bps(options);
    let output = solution.min_amount_out@;
    if crate::encoding::fees::fee_fault(bps, rates) is None {
        crate::encoding::fees::slippage_up_to_the_whole_fits(output, bps, options.slippage, rates);
        crate::encoding::fees::fees_are_bounded(output, bps, rates);
        let left = crate::encoding::fees::after_fees(output, bps, rates);
        assert(left * options.slippage >= 0) by (nonlinear_arith)
            requires
                left >= 0,
        ;
        vstd::arithmetic::div_mod::lemma_div_pos_is_pos(
            left * options.slippage,
            SLIPPAGE_UNITS as int,
        );
        vstd::arithmetic::div_mod::lemma_div_pos_is_pos(
            output * crate::encoding::fees::scaled_client_fee(bps, rates) as int,
            rates.max_fee_units as int,
        );
        vstd::arithmetic::div_mod::lemma_div_pos_is_pos(
            output * rates.on_output as int,
            rates.max_fee_units as int,
        );
    }
}

/// The arguments of a call: tokens by their router addresses, and no fee where no client asks for
/// one.
pub open spec fn call_of(
    native: Seq<u8>,
    solution: Solution,
    options: EncodingOptions,
    min_amount_out: nat,
    swaps: Seq<u8>,
) -> crate::encoding::call::RouterCallView {
    crate::encoding::call::RouterCallView {
        amount_in: solution.amount_in@,
        token_in: router_token(native, solution.token_in@),
        token_out: router_token(native, solution.token_out@),
        min_amount_out,
        receiver: solution.receiver@,
        fee_bps: client_fee_bps(options),
        fee_receiver: match options.client_fee_params {
            Some(fee) => fee.receiver@,
            None => Seq::new(20, |i: int| 0u8),
        },
        fee_max_contribution: match options.client_fee_params {
            Some(fee) => fee.max_contribution@,
            None => 0,
        },
        fee_deadline: match options.client_fee_params {
            Some(fee) => fee.deadline as nat,
            None => (vstd::arithmetic::power::pow(256, 32) - 1) as nat,
        },
        fee_signature: match options.client_fee_params {
            Some(fee) => padded_signature(fee.signature@),
            None => seq![],
        },
        swaps,
    }
}

/// The arguments of a permit and its signature.
pub open spec fn permit_of(
    permit: PermitSingle,
    signature: Seq<u8>,
) -> crate::encoding::call::PermitCallView {
    crate::encoding::call::PermitCallView {
        token: permit.details.token@,
        amount: permit.details.amount@,
        expiration: permit.details.expiration@,
        nonce: permit.details.nonce@,
        spender: permit.spender@,
        sig_deadline: permit.sig_deadline@,
        signature,
    }
}

/// The arguments of a call, ready to be encoded.
#[derive(Debug)]
pub struct PreparedCall {
    pub call: RouterCall,
    pub permit: Option<PermitCall>,
    pub fees: FeeBreakdown,
}

/// Whether a prepared call is that of a solution.
pub open spec fn is_prepared(
    native: Seq<u8>,
    solution: Solution,
    options: EncodingOptions,
    fees: RouterFees,
    swaps: Seq<u8>,
    prepared: PreparedCall,
) -> bool {
    &&& crate::encoding::fees::is_breakdown(
        solution.min_amount_out@,
        client_fee_bps(options),
        options.slippage,
        fees.rates_of(fee_client(solution, options)),
        prepared.fees,
    )
    &&& prepared.call.fits()
    &&& prepared.call@ == call_of(
        native,
        solution,
        options,
        prepared.fees.min_amount_received@,
        swaps,
    )
    &&& match (options.permit, options.permit2_signature) {
        (Some(permit), Some(signature)) => {
            &&& prepared.permit matches Some(made)
            &&& made.fits()
            &&& made@ == permit_of(permit, signature@)
        },
        _ => prepared.permit is None,
    }
}

fn copy_bytes(bytes: &Bytes) -> (r: Vec<u8>)
    ensures
        r@ == bytes@,
{
    copy_vec(bytes.as_vec())
}

fn copy_vec(bytes: &Vec<u8>) -> (r: Vec<u8>)
    ensures
        r@ == bytes@,
{
    let mut r: Vec<u8> = Vec::new();
    let mut i: usize = 0;
    while i < bytes.len()
        invariant
            i <= bytes@.len(),
            r@ == bytes@.take(i as int),
        decreases bytes@.len() - i,
    {
        r.push(bytes[i]);
        i += 1;
    }
    assert(bytes@.take(i as int) == bytes@);
    r
}

/// `count` times the same byte.
fn repeat(byte: u8, count: usize) -> (r: Vec<u8>)
    ensures
        r@ == Seq::new(count as nat, |i: int| byte),
{
    let mut r: Vec<u8> = Vec::new();
    let mut i: usize = 0;
    while i < count
        invariant
            i <= count,
            r@ == Seq::new(i as nat, |j: int| byte),
        decreases count - i,
    {
        r.push(byte);
        i += 1;
    }
    r
}

proof fn all_ones(width: nat)
    ensures
        crate::encoding::call::big_endian_value(Seq::new(width, |i: int| 0xffu8)) == vstd::arithmetic::power::pow(256, width)
            - 1,
        crate::encoding::call::big_endian_value(Seq::new(width, |i: int| 0u8)) == 0,
    decreases width,
{
    reveal(vstd::arithmetic::power::pow);
    if width > 0 {
        let rest = (width - 1) as nat;
        all_ones(rest);
        assert(Seq::new(width, |i: int| 0xffu8).drop_last() =~= Seq::new(rest, |i: int| 0xffu8));
        assert(Seq::new(width, |i: int| 0u8).drop_last() =~= Seq::new(rest, |i: int| 0u8));
    }
}

proof fn widths()
    ensures
        0x1_0000_0000_0000_0000 <= vstd::arithmetic::power::pow(256, 32),
{
    vstd::arithmetic::power::lemma_pow_increases(256, 8, 32);
    assert(vstd::arithmetic::power::pow(256, 8) == 0x1_0000_0000_0000_0000) by {
        reveal_with_fuel(vstd::arithmetic::power::pow, 9);
    }
}

/// The address by which the router knows a token.
fn to_router_token(native: &Address, token: &Address) -> (r: Vec<u8>)
    ensures
        r@ == router_token(native@, token@),
{
    if token.same(native) {
        repeat(0xee, 20)
    } else {
        copy_bytes(token)
    }
}

/// The arguments of a permit, with its signature.
fn prepare_permit(options: &EncodingOptions) -> (r: Option<PermitCall>)
    requires
        permit_fits(*options),
        permit_fault(*options) is None,
    ensures
        match (options.permit, options.permit2_signature) {
            (Some(permit), Some(signature)) => {
                &&& r matches Some(made)
                &&& made.fits()
                &&& made@ == permit_of(permit, signature@)
            },
            _ => r is None,
        },
{
    match (&options.permit, &options.permit2_signature) {
        (Some(permit), Some(signature)) => Some(
            PermitCall {
                token: copy_bytes(&permit.details.token),
                amount: to_bytes(&permit.details.amount, Ghost(20)),
                expiration: to_bytes(&permit.details.expiration, Ghost(6)),
                nonce: to_bytes(&permit.details.nonce, Ghost(6)),
                spender: copy_bytes(&permit.spender),
                sig_deadline: to_bytes(&permit.sig_deadline, Ghost(32)),
                signature: copy_bytes(signature),
            },
        ),
        _ => None,
    }
}

/// Room for a client fee signature.
fn pad_signature(signature: &Bytes) -> (r: Vec<u8>)
    ensures
        r@ == padded_signature(signature@),
{
    let mut r: Vec<u8> = Vec::new();
    let mut i: usize = 0;
    while i < 65
        invariant
            i <= 65,
            r@ == padded_signature(signature@).take(i as int),
        decreases 65 - i,
    {
        if i < signature.len() {
            r.push(signature.get(i));
        } else {
            r.push(0);
        }
        i += 1;
    }
    assert(padded_signature(signature@).take(65) == padded_signature(signature@));
    r
}

/// Makes the arguments of a call. Fees mirror the contract, so that the least amount which the user
/// receives passes the router's check after fees.
pub fn prepare_call(
    native_token: &Address,
    swaps: &Vec<u8>,
    solution: &Solution,
    options: &EncodingOptions,
    router_fees: &RouterFees,
) -> (r: Result<PreparedCall, EncodingError>)
    requires
        can_encode(*solution, *options, *router_fees),
    ensures
        match arguments_fault(*solution, *options, *router_fees) {
            Some(error) => r == Err::<PreparedCall, EncodingError>(error),
            None => r matches Ok(prepared) && is_prepared(
                native_token@,
                *solution,
                *options,
                *router_fees,
                swaps@,
                prepared,
            ),
        },
{
    if let Err(error) = check_arguments(solution, options, router_fees) {
        return Err(error);
    }
    let bps: u16 = fee_bps(options);
    let fees: FeeBreakdown = match calculate_fee_breakdown(
        &solution.min_amount_out,
        bps,
        options.slippage,
        rates_for(solution, options, router_fees),
    ) {
        Ok(fees) => fees,
        Err(error) => {
            return Err(error);
        },
    };
    proof {
        widths();
        all_ones(32);
        all_ones(20);
        all_ones(1);
    }
    let permit: Option<PermitCall> = prepare_permit(options);
    let (fee_receiver, fee_max_contribution, fee_deadline, fee_signature) = match &options.client_fee_params {
        Some(fee) => (
            copy_bytes(&fee.receiver),
            to_bytes(&fee.max_contribution, Ghost(32)),
            to_bytes(&Amount::from_u64(fee.deadline), Ghost(32)),
            pad_signature(&fee.signature),
        ),
        None => (repeat(0, 20), repeat(0, 1), repeat(0xff, 32), Vec::new()),
    };
    let call = RouterCall {
        amount_in: to_bytes(&solution.amount_in, Ghost(32)),
        token_in: to_router_token(native_token, &solution.token_in),
        token_out: to_router_token(native_token, &solution.token_out),
        min_amount_out: to_bytes(&fees.min_amount_received, Ghost(32)),
        receiver: copy_bytes(&solution.receiver),
        fee_bps: bps,
        fee_receiver,
        fee_max_contribution,
        fee_deadline,
        fee_signature,
        swaps: copy_vec(swaps),
    };
    Ok(PreparedCall { call, permit, fees })
}

/// The functions of the router, by the arguments that they take.
#[derive(Debug, Clone, Copy, PartialEq, Eq, Structural)]
pub enum RouterFunction {
    Swap,
    SplitSwap,
    PermitSwap,
    PermitSplitSwap,
}

/// The function that a signature names.
pub open spec fn function_of(signature: Seq<char>) -> Option<RouterFunction> {
    let split = crate::text::has_part(signature, "splitSwap"@);
    if crate::text::has_part(signature, "Permit2"@) {
        if split {
            Some(RouterFunction::PermitSplitSwap)
        } else {
            Some(RouterFunction::PermitSwap)
        }
    } else if split {
        Some(RouterFunction::SplitSwap)
    } else if crate::text::has_part(signature, "singleSwap"@) || crate::text::has_part(
        signature,
        "sequentialSwap"@,
    ) {
        Some(RouterFunction::Swap)
    } else {
        None
    }
}

/// Why a function cannot be called.
pub open spec fn function_fault(signature: String, has_permit: bool) -> Option<EncodingError> {
    match function_of(signature@) {
        None => Some(EncodingError::UnsupportedFunction { signature }),
        Some(function) => if !has_permit && (function == RouterFunction::PermitSwap || function
            == RouterFunction::PermitSplitSwap) {
            Some(EncodingError::MissingPermit)
        } else {
            None
        },
    }
}

/// Finds the function that a signature names. The functions with a permit need one.
pub fn select_function(signature: &String, has_permit: bool) -> (r: Result<
    RouterFunction,
    EncodingError,
>)
    ensures
        match function_fault(*signature, has_permit) {
            Some(error) => r == Err::<RouterFunction, EncodingError>(error),
            None => r matches Ok(function) && Some(function) == function_of(signature@),
        },
{
    let split: bool = contains(signature.as_str(), "splitSwap");
    if contains(signature.as_str(), "Permit2") {
        if !has_permit {
            return Err(EncodingError::MissingPermit);
        }
        if split {
            Ok(RouterFunction::PermitSplitSwap)
        } else {
            Ok(RouterFunction::PermitSwap)
        }
    } else if split {
        Ok(RouterFunction::SplitSwap)
    } else if contains(signature.as_str(), "singleSwap") || contains(
        signature.as_str(),
        "sequentialSwap",
    ) {
        Ok(RouterFunction::Swap)
    } else {
        Err(EncodingError::UnsupportedFunction { signature: signature.clone() })
    }
}

/// Whether encoded arguments start with the offset that marks dynamic data.
pub open spec fn starts_with_offset(args: Seq<u8>) -> bool {
    &&& args.len() > 32
    &&& forall|i: int| 0 <= i < 31 ==> #[trigger] args[i] == 0
    &&& args[31] == 32
}

/// Calldata: the first four bytes of the hash of the function's signature, then the arguments
/// without the offset that marks dynamic data.
pub open spec fn calldata_of(signature_hash: Seq<u8>, args: Seq<u8>) -> Seq<u8> {
    signature_hash.take(4) + if starts_with_offset(args) {
        args.skip(32)
    } else {
        args
    }
}

/// Puts calldata together.
pub fn assemble_input(signature_hash: &[u8; 32], args: &Vec<u8>) -> (r: Vec<u8>)
    ensures
        r@ == calldata_of(signature_hash@, args@),
{
    let mut offset: bool = args.len() > 32 && args[31] == 32;
    let mut i: usize = 0;
    while offset && i < 31
        invariant
            i <= 31,
            offset ==> args@.len() > 32 && args@[31] == 32 && forall|j: int|
                0 <= j < i ==> #[trigger] args@[j] == 0,
            !offset ==> !starts_with_offset(args@),
        decreases 31 - i,
    {
        if args[i] != 0 {
            offset = false;
        }
        i += 1;
    }
    let from: usize = if offset { 32 } else { 0 };
    let mut data: Vec<u8> = Vec::new();
    data.push(signature_hash[0]);
    data.push(signature_hash[1]);
    data.push(signature_hash[2]);
    data.push(signature_hash[3]);
    assert(data@ =~= signature_hash@.take(4));
    let mut k: usize = from;
    while k < args.len()
        invariant
            from <= k <= args@.len(),
            data@ == signature_hash@.take(4) + args@.subrange(from as int, k as int),
        decreases args@.len() - k,
    {
        data.push(args[k]);
        k += 1;
    }
    assert(args@.subrange(0, args@.len() as int) =~= args@);
    data
}

/// Calldata of a function by its signature.
pub fn encode_input(signature: &str, args: &Vec<u8>) -> (r: Vec<u8>)
    ensures
        crate::encoding::call::keccak256_of(vstd::utf8::encode_utf8(signature@)).len() == 32,
        r@ == calldata_of(
            crate::encoding::call::keccak256_of(vstd::utf8::encode_utf8(signature@)),
            args@,
        ),
{
    assemble_input(&keccak256(&signature.as_bytes_vec()), args)
}

/// The encoded arguments of a function.
pub open spec fn encoded_arguments(
    function: RouterFunction,
    call: crate::encoding::call::RouterCallView,
    n_tokens: nat,
    permit: crate::encoding::call::PermitCallView,
) -> Seq<u8> {
    crate::encoding::call::abi_encoded(
        match function {
            RouterFunction::Swap => crate::encoding::call::swap_values(call),
            RouterFunction::SplitSwap => crate::encoding::call::split_swap_values(call, n_tokens),
            RouterFunction::PermitSwap => crate::encoding::call::permit_swap_values(call, permit),
            RouterFunction::PermitSplitSwap => crate::encoding::call::permit_split_swap_values(
                call,
                n_tokens,
                permit,
            ),
        },
    )
}

/// What goes with a call in native tokens: the input, where it is the native token.
pub open spec fn call_value(native: Seq<u8>, solution: Solution) -> nat {
    if router_token(native, solution.token_in@) == router_eth() {
        solution.amount_in@
    } else {
        0
    }
}

/// Why a solution cannot be encoded.
pub open spec fn call_fault(
    encoded: EncodedSolution,
    solution: Solution,
    options: EncodingOptions,
    fees: RouterFees,
) -> Option<EncodingError> {
    match arguments_fault(solution, options, fees) {
        Some(error) => Some(error),
        None => function_fault(encoded.function_signature, options.permit is Some),
    }
}

/// Whether a transaction and its fees are those of an encoded solution.
pub open spec fn is_encoded(
    native: Seq<u8>,
    encoded: EncodedSolution,
    solution: Solution,
    options: EncodingOptions,
    router_fees: RouterFees,
    transaction: Transaction,
    fees: FeeBreakdown,
) -> bool {
    let call = call_of(native, solution, options, fees.min_amount_received@, encoded.swaps@);
    let permit = permit_of(options.permit->Some_0, options.permit2_signature->Some_0@);
    let signature_hash = crate::encoding::call::keccak256_of(
        vstd::utf8::encode_utf8(encoded.function_signature@),
    );
    &&& crate::encoding::fees::is_breakdown(
        solution.min_amount_out@,
        client_fee_bps(options),
        options.slippage,
        router_fees.rates_of(fee_client(solution, options)),
        (FeeBreakdown { swaps_hash: None, ..fees }),
    )
    &&& match options.client_fee_params {
        Some(_) => {
            &&& fees.swaps_hash matches Some(hash)
            &&& hash@ == crate::encoding::call::keccak256_of(encoded.swaps@)
        },
        None => fees.swaps_hash is None,
    }
    &&& transaction.to == encoded.interacting_with
    &&& transaction.value@ == call_value(native, solution)
    &&& signature_hash.len() == 32
    &&& transaction.data@ == calldata_of(
        signature_hash,
        encoded_arguments(
            function_of(encoded.function_signature@)->Some_0,
            call,
            encoded.n_tokens as nat,
            permit,
        ),
    )
    &&& transaction.client_fee_signature_offset == match options.client_fee_params {
        Some(_) => Some(encoded.client_fee_signature_offset),
        None => None,
    }
}

/// Whether the input of a solution is the native token.
fn pays_native(native: &Address, solution: &Solution) -> (r: bool)
    ensures
        r == (router_token(native@, solution.token_in@) == router_eth()),
{
    let token: Vec<u8> = to_router_token(native, &solution.token_in);
    let eth: Vec<u8> = repeat(0xee, 20);
    Bytes::new(token).same(&Bytes::new(eth))
}

/// Encodes a call of one of the router's swap functions, which the function signature of the encoded
/// solution selects.
pub fn encode_tycho_router_call(
    chain: Chain,
    encoded_solution: &EncodedSolution,
    solution: &Solution,
    encoding_options: &EncodingOptions,
    router_fees: &RouterFees,
) -> (r: Result<(Transaction, FeeBreakdown), EncodingError>)
    requires
        can_encode(*solution, *encoding_options, *router_fees),
    ensures
        match call_fault(*encoded_solution, *solution, *encoding_options, *router_fees) {
            Some(error) => r == Err::<(Transaction, FeeBreakdown), EncodingError>(error),
            None => r matches Ok((transaction, fees)) && is_encoded(
                crate::types::chain::native_address(chain),
                *encoded_solution,
                *solution,
                *encoding_options,
                *router_fees,
                transaction,
                fees,
            ),
        },
{
    let native_token: Address = chain.native_token();
    let prepared: PreparedCall = match prepare_call(
        &native_token,
        &encoded_solution.swaps,
        solution,
        encoding_options,
        router_fees,
    ) {
        Ok(prepared) => prepared,
        Err(error) => {
            return Err(error);
        },
    };
    let function: RouterFunction = match select_function(
        &encoded_solution.function_signature,
        prepared.permit.is_some(),
    ) {
        Ok(function) => function,
        Err(error) => {
            return Err(error);
        },
    };
    let n_tokens: usize = encoded_solution.n_tokens;
    let args: Vec<u8> = match (function, &prepared.permit) {
        (RouterFunction::PermitSplitSwap, Some(permit)) => encode_permit_split_swap(
            &prepared.call,
            n_tokens,
            permit,
        ),
        (RouterFunction::PermitSwap, Some(permit)) => encode_permit_swap(&prepared.call, permit),
        (RouterFunction::SplitSwap, _) => encode_split_swap(&prepared.call, n_tokens),
        _ => encode_swap(&prepared.call),
    };
    let data: Vec<u8> = encode_input(encoded_solution.function_signature.as_str(), &args);
    let value: Amount = if pays_native(&native_token, solution) {
        solution.amount_in.clone()
    } else {
        Amount::zero()
    };
    let transaction = Transaction::new(
        encoded_solution.interacting_with.clone(),
        value,
        Bytes::new(data),
    );
    match encoding_options.client_fee_params {
        Some(_) => Ok(
            (
                transaction.with_client_fee_signature_offset(
                    encoded_solution.client_fee_signature_offset,
                ),
                prepared.fees.with_swaps_hash(keccak256(&encoded_solution.swaps)),
            ),
        ),
        None => Ok((transaction, prepared.fees)),
    }
}

/// The message of an encoding error.
pub open spec fn encoding_error_text(error: EncodingError) -> Seq<char> {
    match error {
        EncodingError::FeeTooHigh { client_fee_bps, fee_on_output, max_fee_units } => {
            "Fatal error: client fee ("@ + crate::text::decimal_text(client_fee_bps as nat)
                + " bps) plus router fee on output ("@ + crate::text::decimal_text(
                fee_on_output as nat,
            ) + " fee units) exceed the "@ + crate::text::decimal_text(max_fee_units as nat)
                + " fee-unit cap (100%); the router would revert"@
        },
        EncodingError::ClientShareTooHigh { fee_on_client_fee, max_fee_units } => {
            "Fatal error: router fee on client fee ("@ + crate::text::decimal_text(
                fee_on_client_fee as nat,
            ) + " fee units) exceeds the "@ + crate::text::decimal_text(max_fee_units as nat)
                + " fee-unit cap (100%); the router would revert"@
        },
        EncodingError::InvalidAddress { address } => {
            "Invalid input: Invalid address: "@ + ("0x"@ + crate::text::hex_text(address@))
        },
        EncodingError::MissingPermitSignature => {
            "Fatal error: Signature must be provided for permit2"@
        },
        EncodingError::MissingPermit => {
            "Fatal error: permit2 object must be set to use permit2"@
        },
        EncodingError::UnsupportedFunction { signature } => {
            "Fatal error: unsupported function signature for Tycho router: "@ + signature@
        },
    }
}

impl EncodingError {
    /// What is wrong, in words.
    pub fn message(&self) -> (r: String)
        ensures
            r@ == encoding_error_text(*self),
    {
        match self {
            EncodingError::FeeTooHigh { client_fee_bps, fee_on_output, max_fee_units } => {
                "Fatal error: client fee (".to_string().concat(
                    decimal(*client_fee_bps as u64).as_str(),
                ).concat(" bps) plus router fee on output (").concat(
                    decimal(*fee_on_output as u64).as_str(),
                ).concat(" fee units) exceed the ").concat(decimal(*max_fee_units).as_str()).concat(
                    " fee-unit cap (100%); the router would revert",
                )
            },
            EncodingError::ClientShareTooHigh { fee_on_client_fee, max_fee_units } => {
                "Fatal error: router fee on client fee (".to_string().concat(
                    decimal(*fee_on_client_fee as u64).as_str(),
                ).concat(" fee units) exceeds the ").concat(decimal(*max_fee_units).as_str()).concat(
                    " fee-unit cap (100%); the router would revert",
                )
            },
            EncodingError::InvalidAddress { address } => {
                "Invalid input: Invalid address: ".to_string().concat(address.to_text().as_str())
            },
            EncodingError::MissingPermitSignature => {
                "Fatal error: Signature must be provided for permit2".to_string()
            },
            EncodingError::MissingPermit => {
                "Fatal error: permit2 object must be set to use permit2".to_string()
            },
            EncodingError::UnsupportedFunction { signature } => {
                "Fatal error: unsupported function signature for Tycho router: ".to_string().concat(
                    signature.as_str(),
                )
            },
        }
    }
}

/// Why quote `i` stops the encoding of quotes.
pub open spec fn plan_fault(quotes: Seq<OrderQuote>, i: int) -> Option<Seq<char>> {
    if quotes[i].status == QuoteStatus::Success {
        crate::encoding::solution::solution_fault(quotes[i])
    } else {
        None
    }
}

/// Whether a plan lists the first `n` quotes that are to be encoded: the successful ones, in order,
/// with their solutions.
pub open spec fn is_plan(
    quotes: Seq<OrderQuote>,
    options: EncodingOptions,
    n: int,
    plan: Seq<(usize, Solution)>,
) -> bool {
    &&& forall|k: int, l: int|
        0 <= k < l < plan.len() ==> (#[trigger] plan[k]).0 < (#[trigger] plan[l]).0
    &&& forall|k: int|
        0 <= k < plan.len() ==> {
            &&& (#[trigger] plan[k]).0 < n
            &&& quotes[plan[k].0 as int].status == QuoteStatus::Success
            &&& quotes[plan[k].0 as int].route is Some
            &&& plan[k].1.user_transfer_type == options.transfer_type
            &&& crate::encoding::solution::is_solution(
                quotes[plan[k].0 as int],
                quotes[plan[k].0 as int].route->Some_0,
                (Solution {
                    user_transfer_type: crate::types::options::UserTransferType::TransferFrom,
                    ..plan[k].1
                }),
            )
        }
    &&& forall|i: int|
        0 <= i < n && (#[trigger] quotes[i]).status == QuoteStatus::Success ==> exists|k: int|
            0 <= k < plan.len() && (#[trigger] plan[k]).0 == i
}

/// Whether a result is that of listing the quotes that are to be encoded: the plan, or the first fault.
pub open spec fn is_planned(
    quotes: Seq<OrderQuote>,
    options: EncodingOptions,
    r: Result<Vec<(usize, Solution)>, SolveError>,
) -> bool {
    match r {
        Ok(plan) => is_plan(quotes, options, quotes.len() as int, plan@) && forall|i: int|
            0 <= i < quotes.len() ==> #[trigger] plan_fault(quotes, i) is None,
        Err(error) => exists|i: int|
            0 <= i < quotes.len() && (forall|j: int|
                0 <= j < i ==> #[trigger] plan_fault(quotes, j) is None) && (
            #[trigger] plan_fault(quotes, i) matches Some(text) && error
                matches SolveError::FailedEncoding(t) && t@ == text),
    }
}

/// Lists the quotes that are to be encoded, with their solutions. Only successful quotes are.
pub fn plan_encoding(quotes: &Vec<OrderQuote>, encoding_options: &EncodingOptions) -> (r: Result<
    Vec<(usize, Solution)>,
    SolveError,
>)
    ensures
        is_planned(quotes@, *encoding_options, r),
{
    let mut plan: Vec<(usize, Solution)> = Vec::new();
    let mut i: usize = 0;
    while i < quotes.len()
        invariant
            i <= quotes@.len(),
            is_plan(quotes@, *encoding_options, i as int, plan@),
            forall|j: int| 0 <= j < i ==> #[trigger] plan_fault(quotes@, j) is None,
        decreases quotes@.len() - i,
    {
        if quotes[i].status == QuoteStatus::Success {
            let ghost before = plan@;
            match Solution::try_from(&quotes[i]) {
                Ok(solution) => {
                    plan.push(
                        (i, solution.with_user_transfer_type(encoding_options.transfer_type)),
                    );
                    proof {
                        assert(plan_fault(quotes@, i as int) is None);
                        assert((Solution {
                            user_transfer_type:
                                crate::types::options::UserTransferType::TransferFrom,
                            ..plan@[before.len() as int].1
                        }) == solution);
                        assert forall|m: int|
                            0 <= m < i + 1 && (#[trigger] quotes@[m]).status
                                == QuoteStatus::Success implies exists|k: int|
                            0 <= k < plan@.len() && (#[trigger] plan@[k]).0 == m by {
                            if m < i {
                                let k = choose|k: int|
                                    0 <= k < before.len() && (#[trigger] before[k]).0 == m;
                                assert(plan@[k].0 == m);
                            } else {
                                assert(plan@[before.len() as int].0 == m);
                            }
                        }
                    }
                },
                Err(error) => {
                    assert(plan_fault(quotes@, i as int) is Some);
                    return Err(error);
                },
            }
        }
        i += 1;
    }
    Ok(plan)
}

/// Whether a quote has been given the transaction of an encoded solution.
pub open spec fn is_finished(
    native: Seq<u8>,
    encoded: EncodedSolution,
    solution: Solution,
    options: EncodingOptions,
    router_fees: RouterFees,
    before: OrderQuote,
    after: OrderQuote,
) -> bool {
    &&& after == (OrderQuote {
        gas_estimate: encoded.estimated_gas,
        transaction: after.transaction,
        fee_breakdown: after.fee_breakdown,
        ..before
    })
    &&& after.transaction is Some
    &&& after.fee_breakdown is Some
    &&& is_encoded(
        native,
        encoded,
        solution,
        options,
        router_fees,
        after.transaction->Some_0,
        after.fee_breakdown->Some_0,
    )
}

/// The number of planned quotes for which there is an encoded solution.
pub open spec fn paired(plan: Seq<(usize, Solution)>, encoded: Seq<EncodedSolution>) -> int {
    if plan.len() <= encoded.len() {
        plan.len() as int
    } else {
        encoded.len() as int
    }
}

/// Whether calls can be made of planned solutions, one after the other, until one is refused.
pub open spec fn plan_can_be_encoded(
    plan: Seq<(usize, Solution)>,
    encoded: Seq<EncodedSolution>,
    options: EncodingOptions,
    fees: RouterFees,
) -> bool {
    forall|k: int|
        0 <= k < paired(plan, encoded) && (forall|j: int|
            0 <= j < k ==> call_fault(encoded[j], (#[trigger] plan[j]).1, options, fees) is None)
            ==> can_encode((#[trigger] plan[k]).1, options, fees)
}

/// Whether calls can be made of planned solutions, one after the other, until one is refused.
pub fn check_plan(
    plan: &Vec<(usize, Solution)>,
    encoded_solutions: &Vec<EncodedSolution>,
    encoding_options: &EncodingOptions,
    router_fees: &RouterFees,
) -> (r: bool)
    ensures
        r == plan_can_be_encoded(
            plan@,
            encoded_solutions@,
            *encoding_options,
            *router_fees,
        ),
{
    let mut k: usize = 0;
    while k < plan.len() && k < encoded_solutions.len()
        invariant
            k <= plan@.len(),
            k <= encoded_solutions@.len(),
            forall|j: int|
                0 <= j < k ==> can_encode(
                    (#[trigger] plan@[j]).1,
                    *encoding_options,
                    *router_fees,
                ),
            forall|j: int|
                0 <= j < k ==> call_fault(
                    encoded_solutions@[j],
                    (#[trigger] plan@[j]).1,
                    *encoding_options,
                    *router_fees,
                ) is None,
        decreases plan@.len() - k,
    {
        let solution: &Solution = &plan[k].1;
        assert(plan@[k as int].1 == *solution);
        if !check_call(solution, encoding_options, router_fees) {
            return false;
        }
        if check_arguments(solution, encoding_options, router_fees).is_err() || select_function(
            &encoded_solutions[k].function_signature,
            encoding_options.permit.is_some(),
        ).is_err() {
            return true;
        }
        k += 1;
    }
    true
}

/// Whether planned quotes can be given their transactions: the plan names each of them once, in their
/// order, and calls can be made of their solutions until one is refused.
pub open spec fn can_finish(
    quotes: Seq<OrderQuote>,
    plan: Seq<(usize, Solution)>,
    encoded: Seq<EncodedSolution>,
    options: EncodingOptions,
    fees: RouterFees,
) -> bool {
    &&& forall|k: int| 0 <= k < plan.len() ==> (#[trigger] plan[k]).0 < quotes.len()
    &&& forall|k: int, l: int|
        0 <= k < l < plan.len() ==> (#[trigger] plan[k]).0 < (#[trigger] plan[l]).0
    &&& plan_can_be_encoded(plan, encoded, options, fees)
}

/// Whether a result is that of giving planned quotes their transactions: the quotes, or the error of the
/// first that cannot be encoded.
pub open spec fn is_completed(
    quotes: Seq<OrderQuote>,
    plan: Seq<(usize, Solution)>,
    encoded: Seq<EncodedSolution>,
    options: EncodingOptions,
    native: Seq<u8>,
    fees: RouterFees,
    r: Result<Vec<OrderQuote>, SolveError>,
) -> bool {
    let n = paired(plan, encoded);
    match r {
        Ok(done) => {
            &&& done@.len() == quotes.len()
            &&& forall|k: int|
                0 <= k < n ==> is_finished(
                    native,
                    encoded[k],
                    (#[trigger] plan[k]).1,
                    options,
                    fees,
                    quotes[plan[k].0 as int],
                    done@[plan[k].0 as int],
                )
            &&& forall|i: int|
                0 <= i < quotes.len() && (forall|k: int|
                    0 <= k < n ==> (#[trigger] plan[k]).0 != i) ==> #[trigger] done@[i] == quotes[i]
            &&& forall|k: int|
                0 <= k < n ==> call_fault(
                    encoded[k],
                    (#[trigger] plan[k]).1,
                    options,
                    fees,
                ) is None
        },
        Err(error) => exists|k: int|
            0 <= k < n && (call_fault(
                encoded[k],
                (#[trigger] plan[k]).1,
                options,
                fees,
            ) matches Some(fault) && error matches SolveError::FailedEncoding(text) && text@
                == encoding_error_text(fault)) && forall|j: int|
                0 <= j < k ==> call_fault(
                    encoded[j],
                    (#[trigger] plan[j]).1,
                    options,
                    fees,
                ) is None,
    }
}

/// Gives the planned quotes their transactions, gas estimates and fees. Quotes that are not planned,
/// or that no encoded solution is left for, stay as they are.
pub fn finish_encoding(
    quotes: Vec<OrderQuote>,
    plan: &Vec<(usize, Solution)>,
    encoded_solutions: &Vec<EncodedSolution>,
    encoding_options: &EncodingOptions,
    chain: Chain,
    router_fees: &RouterFees,
) -> (r: Result<Vec<OrderQuote>, SolveError>)
    requires
        can_finish(quotes@, plan@, encoded_solutions@, *encoding_options, *router_fees),
    ensures
        is_completed(
            quotes@,
            plan@,
            encoded_solutions@,
            *encoding_options,
            crate::types::chain::native_address(chain),
            *router_fees,
            r,
        ),
{
    let mut done: Vec<OrderQuote> = quotes;
    let mut k: usize = 0;
    while k < plan.len() && k < encoded_solutions.len()
        invariant
            k <= plan@.len(),
            k <= encoded_solutions@.len(),
            can_finish(quotes@, plan@, encoded_solutions@, *encoding_options, *router_fees),
            done@.len() == quotes@.len(),
            forall|m: int|
                0 <= m < k ==> is_finished(
                    crate::types::chain::native_address(chain),
                    encoded_solutions@[m],
                    (#[trigger] plan@[m]).1,
                    *encoding_options,
                    *router_fees,
                    quotes@[plan@[m].0 as int],
                    done@[plan@[m].0 as int],
                ),
            forall|i: int|
                0 <= i < quotes@.len() && (forall|m: int|
                    0 <= m < k ==> (#[trigger] plan@[m]).0 != i) ==> #[trigger] done@[i]
                    == quotes@[i],
            forall|m: int|
                0 <= m < k ==> call_fault(
                    encoded_solutions@[m],
                    (#[trigger] plan@[m]).1,
                    *encoding_options,
                    *router_fees,
                ) is None,
        decreases plan@.len() - k,
    {
        let place: usize = plan[k].0;
        match encode_tycho_router_call(
            chain,
            &encoded_solutions[k],
            &plan[k].1,
            encoding_options,
            router_fees,
        ) {
            Ok((transaction, fees)) => {
                let ghost before = done@;
                let mut quote: OrderQuote = done[place].clone();
                assert(before[place as int] == quotes@[place as int]) by {
                    assert forall|m: int| 0 <= m < k implies (#[trigger] plan@[m]).0 != place by {
                        assert(plan@[m].0 < plan@[k as int].0);
                    }
                }
                quote.set_gas_estimate(encoded_solutions[k].estimated_gas.clone());
                quote.set_transaction(transaction);
                quote.set_fee_breakdown(fees);
                done.set(place, quote);
                proof {
                    assert forall|m: int| 0 <= m < k + 1 implies is_finished(
                        crate::types::chain::native_address(chain),
                        encoded_solutions@[m],
                        (#[trigger] plan@[m]).1,
                        *encoding_options,
                        *router_fees,
                        quotes@[plan@[m].0 as int],
                        done@[plan@[m].0 as int],
                    ) by {
                        if m < k {
                            assert(plan@[m].0 < plan@[k as int].0);
                            assert(done@[plan@[m].0 as int] == before[plan@[m].0 as int]);
                        }
                    }
                    assert forall|i: int|
                        0 <= i < quotes@.len() && (forall|m: int|
                            0 <= m < k + 1 ==> (#[trigger] plan@[m]).0
                                != i) implies #[trigger] done@[i] == quotes@[i] by {
                        assert(plan@[k as int].0 != i);
                        assert(done@[i] == before[i]);
                    }
                }
            },
            Err(error) => {
                assert(plan@[k as int].0 == place);
                return Err(SolveError::FailedEncoding(error.message()));
            },
        }
        k += 1;
    }
    Ok(done)
}

/// Encodes quotes for one chain.
#[derive(Debug)]
pub struct Encoder {
    pub chain: Chain,
    /// The router contract on this chain.
    pub router_address: Address,
    /// The router fees, as last read from the chain.
    pub router_fees: RouterFees,
}

impl Encoder {
    /// Creates an encoder for a chain. `router` is the router contract of the chain, or why there is
    /// none to encode for: the table of contracts is in the `evm` feature of `tycho-execution`, whose
    /// dependencies are too many to be built with this library.
    pub fn new(
        chain: Chain,
        router: Result<Address, String>,
        router_fees: RouterFees,
    ) -> (r: Result<Self, SolveError>)
        ensures
            r == match router {
                Ok(router_address) => Ok(Encoder { chain, router_address, router_fees }),
                Err(text) => Err(SolveError::FailedEncoding(text)),
            },
    {
        match router {
            Ok(router_address) => Ok(Encoder { chain, router_address, router_fees }),
            Err(text) => Err(SolveError::FailedEncoding(text)),
        }
    }

    /// The router contract on this chain.
    pub fn router_address(&self) -> (r: &Address)
        ensures
            *r == self.router_address,
    {
        &self.router_address
    }

    /// The router fees that the encoder reckons with.
    pub fn router_fees(&self) -> (r: &RouterFees)
        ensures
            *r == self.router_fees,
    {
        &self.router_fees
    }

    /// Encodes quotes whose solutions are encoded: gives each successful one its transaction, its gas
    /// estimate and its fees.
    pub fn encode(
        &self,
        quotes: Vec<OrderQuote>,
        plan: &Vec<(usize, Solution)>,
        encoded_solutions: &Vec<EncodedSolution>,
        encoding_options: &EncodingOptions,
    ) -> (r: Result<Vec<OrderQuote>, SolveError>)
        requires
            can_finish(
                quotes@,
                plan@,
                encoded_solutions@,
                *encoding_options,
                self.router_fees,
            ),
        ensures
            is_completed(
                quotes@,
                plan@,
                encoded_solutions@,
                *encoding_options,
                crate::types::chain::native_address(self.chain),
                self.router_fees,
                r,
            ),
    {
        finish_encoding(
            quotes,
            plan,
            encoded_solutions,
            encoding_options,
            self.chain,
            &self.router_fees,
        )
    }
}

/// A plan names each quote that is to be encoded once, in their order: where calls can be made of its
/// solutions until one is refused, its quotes can be given their transactions.
pub proof fn plan_can_be_finished(
    quotes: Seq<OrderQuote>,
    options: EncodingOptions,
    plan: Seq<(usize, Solution)>,
    encoded: Seq<EncodedSolution>,
    fees: RouterFees,
)
    requires
        is_plan(quotes, options, quotes.len() as int, plan),
        plan_can_be_encoded(plan, encoded, options, fees),
    ensures
        can_finish(quotes, plan, encoded, options, fees),
{
}

/// Whatever the arguments are, calldata starts with the function's selector, and the arguments follow
/// it to the end.
pub proof fn calldata_keeps_selector_and_arguments(signature_hash: Seq<u8>, args: Seq<u8>)
    requires
        signature_hash.len() == 32,
    ensures
        calldata_of(signature_hash, args).take(4) == signature_hash.take(4),
        !starts_with_offset(args) ==> calldata_of(signature_hash, args).skip(4) == args,
        starts_with_offset(args) ==> calldata_of(signature_hash, args).skip(4) == args.skip(32),
{
    let data = calldata_of(signature_hash, args);
    assert(data.take(4) =~= signature_hash.take(4));
    if starts_with_offset(args) {
        assert(data.skip(4) =~= args.skip(32));
    } else {
        assert(data.skip(4) =~= args);
    }
}

/// In the arguments of a call both tokens go by their router addresses: the chain's native token by
/// twenty bytes 0xee, and any other by its own address. No native address stands in a call.
pub proof fn calls_name_tokens_by_router_addresses(
    native: Seq<u8>,
    solution: Solution,
    options: EncodingOptions,
    fees: RouterFees,
    swaps: Seq<u8>,
    prepared: PreparedCall,
)
    requires
        is_prepared(native, solution, options, fees, swaps, prepared),
    ensures
        solution.token_in@ != native ==> prepared.call.token_in@ == solution.token_in@,
        solution.token_out@ != native ==> prepared.call.token_out@ == solution.token_out@,
        solution.token_in@ == native ==> prepared.call.token_in@.len() == 20 && forall|i: int|
            0 <= i < 20 ==> #[trigger] prepared.call.token_in@[i] == 0xee,
        solution.token_out@ == native ==> prepared.call.token_out@.len() == 20 && forall|i: int|
            0 <= i < 20 ==> #[trigger] prepared.call.token_out@[i] == 0xee,
        native == Seq::new(20, |i: int| 0u8) ==> prepared.call.token_in@ != native
            && prepared.call.token_out@ != native,
{
    if native == Seq::new(20, |i: int| 0u8) {
        assert(native[0] == 0);
        if solution.token_in@ == native {
            assert(prepared.call.token_in@[0] == 0xee);
        }
        if solution.token_out@ == native {
            assert(prepared.call.token_out@[0] == 0xee);
        }
    }
}

/// The arguments of a call are the solution's and the options': what goes in, the least that the user
/// receives, who receives it, and the client fee with room for a signature of 65 bytes; without a client
/// there is no fee, which never expires.
pub proof fn calls_carry_the_solution(
    native: Seq<u8>,
    solution: Solution,
    options: EncodingOptions,
    fees: RouterFees,
    swaps: Seq<u8>,
    prepared: PreparedCall,
)
    requires
        is_prepared(native, solution, options, fees, swaps, prepared),
    ensures
        crate::encoding::call::big_endian_value(prepared.call.amount_in@) == solution.amount_in@,
        crate::encoding::call::big_endian_value(prepared.call.min_amount_out@)
            == prepared.fees.min_amount_received@,
        prepared.call.receiver@ == solution.receiver@,
        prepared.call.swaps@ == swaps,
        options.client_fee_params is None ==> {
            &&& prepared.call.fee_bps == 0
            &&& prepared.call.fee_receiver@.len() == 20
            &&& forall|i: int| 0 <= i < 20 ==> #[trigger] prepared.call.fee_receiver@[i] == 0
            &&& crate::encoding::call::big_endian_value(prepared.call.fee_max_contribution@) == 0
            &&& crate::encoding::call::big_endian_value(prepared.call.fee_deadline@)
                == vstd::arithmetic::power::pow(256, 32) - 1
            &&& prepared.call.fee_signature@.len() == 0
        },
        options.client_fee_params matches Some(fee) ==> {
            &&& prepared.call.fee_bps == fee.bps
            &&& prepared.call.fee_receiver@ == fee.receiver@
            &&& crate::encoding::call::big_endian_value(prepared.call.fee_max_contribution@)
                == fee.max_contribution@
            &&& crate::encoding::call::big_endian_value(prepared.call.fee_deadline@) == fee.deadline
            &&& prepared.call.fee_signature@.len() == 65
            &&& forall|i: int|
                0 <= i < 65 && i < fee.signature@.len() ==> #[trigger] prepared.call.fee_signature@[i]
                    == fee.signature@[i]
            &&& forall|i: int|
                fee.signature@.len() <= i < 65 ==> #[trigger] prepared.call.fee_signature@[i] == 0
        },
        options.permit is Some && options.permit2_signature is Some ==> {
            let permit = options.permit->Some_0;
            &&& prepared.permit matches Some(made)
            &&& made.token@ == permit.details.token@
            &&& crate::encoding::call::big_endian_value(made.amount@) == permit.details.amount@
            &&& crate::encoding::call::big_endian_value(made.expiration@)
                == permit.details.expiration@
            &&& crate::encoding::call::big_endian_value(made.nonce@) == permit.details.nonce@
            &&& made.spender@ == permit.spender@
            &&& crate::encoding::call::big_endian_value(made.sig_deadline@) == permit.sig_deadline@
            &&& made.signature@ == options.permit2_signature->Some_0@
        },
        options.permit is None ==> prepared.permit is None,
{
    widths();
}

/// The calldata of a swap is the first four bytes of the hash of its function's signature, followed by
/// its arguments in the contract's order: what goes in, from which token to which, the least that comes
/// out, the number of tokens where shares are taken, the receiver, the client fee, the permit with its
/// signature where there is one, and the swaps. The native token goes by twenty bytes 0xee; without a
/// client the fee is nothing, to nobody and without an end; and an offset that leads the arguments is
/// left out.
pub proof fn calldata_holds_the_arguments_in_order(
    native: Seq<u8>,
    encoded: EncodedSolution,
    solution: Solution,
    options: EncodingOptions,
    router_fees: RouterFees,
    transaction: Transaction,
    fees: FeeBreakdown,
    token_in: Seq<u8>,
    token_out: Seq<u8>,
    fee_bps: nat,
    fee_receiver: Seq<u8>,
    fee_most: nat,
    fee_deadline: nat,
    fee_signature: Seq<u8>,
    values: Seq<crate::encoding::call::AbiValue>,
)
    requires
        call_fault(encoded, solution, options, router_fees) is None,
        is_encoded(native, encoded, solution, options, router_fees, transaction, fees),
        solution.token_in@ != native ==> token_in == solution.token_in@,
        solution.token_in@ == native ==> token_in.len() == 20 && forall|i: int|
            0 <= i < 20 ==> #[trigger] token_in[i] == 0xee,
        solution.token_out@ != native ==> token_out == solution.token_out@,
        solution.token_out@ == native ==> token_out.len() == 20 && forall|i: int|
            0 <= i < 20 ==> #[trigger] token_out[i] == 0xee,
        options.client_fee_params is None ==> {
            &&& fee_bps == 0 && fee_most == 0
            &&& fee_deadline == vstd::arithmetic::power::pow(256, 32) - 1
            &&& fee_signature.len() == 0
            &&& fee_receiver.len() == 20
            &&& forall|i: int| 0 <= i < 20 ==> #[trigger] fee_receiver[i] == 0
        },
        options.client_fee_params matches Some(fee) ==> {
            &&& fee_bps == fee.bps && fee_most == fee.max_contribution@
            &&& fee_deadline == fee.deadline
            &&& fee_receiver == fee.receiver@
            &&& fee_signature.len() == 65
            &&& forall|i: int|
                0 <= i < 65 ==> #[trigger] fee_signature[i] == if i < fee.signature@.len() {
                    fee.signature@[i]
                } else {
                    0
                }
        },
        values == ({
            let signature = encoded.function_signature@;
            let details = options.permit->Some_0.details;
            let head = seq![
                crate::encoding::call::AbiValue::Uint { bits: 256, value: solution.amount_in@ },
                crate::encoding::call::AbiValue::Address(token_in),
                crate::encoding::call::AbiValue::Address(token_out),
                crate::encoding::call::AbiValue::Uint { bits: 256, value: fees.min_amount_received@ },
            ];
            let count = if crate::text::has_part(signature, "splitSwap"@) {
                seq![crate::encoding::call::AbiValue::Uint { bits: 256, value: encoded.n_tokens as nat }]
            } else {
                seq![]
            };
            let parties = seq![
                crate::encoding::call::AbiValue::Address(solution.receiver@),
                crate::encoding::call::AbiValue::Tuple(
                    seq![
                        crate::encoding::call::AbiValue::Uint { bits: 16, value: fee_bps },
                        crate::encoding::call::AbiValue::Address(fee_receiver),
                        crate::encoding::call::AbiValue::Uint { bits: 256, value: fee_most },
                        crate::encoding::call::AbiValue::Uint { bits: 256, value: fee_deadline },
                        crate::encoding::call::AbiValue::Bytes(fee_signature),
                    ],
                ),
            ];
            let permission = if crate::text::has_part(signature, "Permit2"@) {
                seq![
                    crate::encoding::call::AbiValue::Tuple(
                        seq![
                            crate::encoding::call::AbiValue::Tuple(
                                seq![
                                    crate::encoding::call::AbiValue::Address(details.token@),
                                    crate::encoding::call::AbiValue::Uint { bits: 160, value: details.amount@ },
                                    crate::encoding::call::AbiValue::Uint { bits: 48, value: details.expiration@ },
                                    crate::encoding::call::AbiValue::Uint { bits: 48, value: details.nonce@ },
                                ],
                            ),
                            crate::encoding::call::AbiValue::Address(options.permit->Some_0.spender@),
                            crate::encoding::call::AbiValue::Uint { bits: 256, value: options.permit->Some_0.sig_deadline@ },
                        ],
                    ),
                    crate::encoding::call::AbiValue::Bytes(options.permit2_signature->Some_0@),
                ]
            } else {
                seq![]
            };
            head + count + parties + permission + seq![crate::encoding::call::AbiValue::Bytes(encoded.swaps@)]
        }),
    ensures
        ({
            let args = crate::encoding::call::abi_encoded(values);
            let selector = crate::encoding::call::keccak256_of(
                vstd::utf8::encode_utf8(encoded.function_signature@),
            ).take(4);
            let led = args.len() > 32 && args[31] == 32 && forall|i: int|
                0 <= i < 31 ==> #[trigger] args[i] == 0;
            &&& led ==> transaction.data@ == selector + args.skip(32)
            &&& !led ==> transaction.data@ == selector + args
        }),
{
    let call = call_of(native, solution, options, fees.min_amount_received@, encoded.swaps@);
    let permit = permit_of(options.permit->Some_0, options.permit2_signature->Some_0@);
    widths();
    assert(call.token_in =~= token_in);
    assert(call.token_out =~= token_out);
    assert(call.fee_receiver =~= fee_receiver);
    assert(call.fee_signature =~= fee_signature);
    let head = seq![
        crate::encoding::call::AbiValue::Uint { bits: 256, value: solution.amount_in@ },
        crate::encoding::call::AbiValue::Address(token_in),
        crate::encoding::call::AbiValue::Address(token_out),
        crate::encoding::call::AbiValue::Uint { bits: 256, value: fees.min_amount_received@ },
    ];
    let parties = seq![
        crate::encoding::call::AbiValue::Address(solution.receiver@),
        crate::encoding::call::fee_value(call),
    ];
    let permission = seq![
        crate::encoding::call::permit_value(permit),
        crate::encoding::call::AbiValue::Bytes(options.permit2_signature->Some_0@),
    ];
    let count = seq![crate::encoding::call::AbiValue::Uint { bits: 256, value: encoded.n_tokens as nat }];
    let tail = seq![crate::encoding::call::AbiValue::Bytes(encoded.swaps@)];
    let none = Seq::<crate::encoding::call::AbiValue>::empty();
    assert(head + none + parties + none + tail =~= crate::encoding::call::swap_values(call));
    assert(head + count + parties + none + tail =~= crate::encoding::call::split_swap_values(
        call,
        encoded.n_tokens as nat,
    ));
    assert(head + none + parties + permission + tail =~= crate::encoding::call::permit_swap_values(
        call,
        permit,
    ));
    assert(head + count + parties + permission + tail
        =~= crate::encoding::call::permit_split_swap_values(call, encoded.n_tokens as nat, permit));
}

/// A transaction goes to the contract that the encoded solution interacts with, takes along the input
/// where that is the native token and else nothing, and says where the client's signature stands exactly
/// where a client asks for a fee; then its fees also carry the hash of the swaps.
pub proof fn transactions_pay_native_inputs(
    native: Seq<u8>,
    encoded: EncodedSolution,
    solution: Solution,
    options: EncodingOptions,
    router_fees: RouterFees,
    transaction: Transaction,
    fees: FeeBreakdown,
)
    requires
        native != Seq::new(20, |i: int| 0xeeu8),
        solution.token_in@ != Seq::new(20, |i: int| 0xeeu8),
        is_encoded(native, encoded, solution, options, router_fees, transaction, fees),
    ensures
        transaction.to == encoded.interacting_with,
        solution.token_in@ == native ==> transaction.value@ == solution.amount_in@,
        solution.token_in@ != native ==> transaction.value@ == 0,
        options.client_fee_params is Some ==> transaction.client_fee_signature_offset == Some(
            encoded.client_fee_signature_offset,
        ) && (fees.swaps_hash matches Some(hash) && hash@ == crate::encoding::call::keccak256_of(
            encoded.swaps@,
        )),
        options.client_fee_params is None ==> transaction.client_fee_signature_offset is None
            && fees.swaps_hash is None,
{
    assert(router_eth() =~= Seq::new(20, |i: int| 0xeeu8));
}

/// The fees of a transaction are those of the client who receives the client fee, or of the sender where
/// there is none, on the quoted output.
pub proof fn fees_are_those_of_the_client(
    native: Seq<u8>,
    encoded: EncodedSolution,
    solution: Solution,
    options: EncodingOptions,
    router_fees: RouterFees,
    transaction: Transaction,
    fees: FeeBreakdown,
)
    requires
        is_encoded(native, encoded, solution, options, router_fees, transaction, fees),
    ensures
        options.client_fee_params matches Some(fee) ==> crate::encoding::fees::is_breakdown(
            solution.min_amount_out@,
            fee.bps,
            options.slippage,
            router_fees.rates_of(fee.receiver@),
            (FeeBreakdown { swaps_hash: None, ..fees }),
        ),
        options.client_fee_params is None ==> crate::encoding::fees::is_breakdown(
            solution.min_amount_out@,
            0,
            options.slippage,
            router_fees.rates_of(solution.sender@),
            (FeeBreakdown { swaps_hash: None, ..fees }),
        ),
{
}

/// A solution can be encoded exactly where its fees are not refused, all addresses have twenty bytes, a
/// permit comes with its signature, and the signature of the function names a swap of the router, with a
/// permit where it asks for one.
pub proof fn only_faultless_calls_are_encoded(
    encoded: EncodedSolution,
    solution: Solution,
    options: EncodingOptions,
    fees: RouterFees,
)
    ensures
        call_fault(encoded, solution, options, fees) is None <==> {
            let signature = encoded.function_signature@;
            let permitted = crate::text::has_part(signature, "Permit2"@);
            &&& options.client_fee_params matches Some(fee)
                ==> crate::encoding::fees::fee_fault(fee.bps, fees.rates_of(fee.receiver@)) is None
                && fee.receiver@.len() == 20
            &&& options.client_fee_params is None ==> crate::encoding::fees::fee_fault(
                0,
                fees.rates_of(solution.sender@),
            ) is None
            &&& solution.token_in@.len() == 20
            &&& solution.token_out@.len() == 20
            &&& solution.receiver@.len() == 20
            &&& options.permit matches Some(permit) ==> permit.details.token@.len() == 20
                && permit.spender@.len() == 20 && options.permit2_signature is Some
            &&& permitted ==> options.permit is Some
            &&& permitted || crate::text::has_part(signature, "splitSwap"@) || crate::text::has_part(
                signature,
                "singleSwap"@,
            ) || crate::text::has_part(signature, "sequentialSwap"@)
        },
{
}

/// What is told of a solution that cannot be encoded is true of it: an invalid address is one of the
/// call's and has not twenty bytes, a missing permit or signature is missing, and an unsupported function
/// is the one that was asked for.
pub proof fn faults_of_calls_are_true(
    encoded: EncodedSolution,
    solution: Solution,
    options: EncodingOptions,
    fees: RouterFees,
    error: EncodingError,
)
    requires
        call_fault(encoded, solution, options, fees) == Some(error),
    ensures
        error matches EncodingError::InvalidAddress { address } ==> address@.len() != 20 && (address
            == solution.token_in || address == solution.token_out || address == solution.receiver || (
        options.permit matches Some(permit) && (address == permit.details.token || address
            == permit.spender)) || (options.client_fee_params matches Some(fee) && address
            == fee.receiver)),
        error is MissingPermitSignature ==> options.permit is Some
            && options.permit2_signature is None,
        error is MissingPermit ==> options.permit is None && crate::text::has_part(
            encoded.function_signature@,
            "Permit2"@,
        ),
        error matches EncodingError::UnsupportedFunction { signature } ==> signature
            == encoded.function_signature && !crate::text::has_part(signature@, "Permit2"@)
            && !crate::text::has_part(signature@, "splitSwap"@) && !crate::text::has_part(
            signature@,
            "singleSwap"@,
        ) && !crate::text::has_part(signature@, "sequentialSwap"@),
        error is FeeTooHigh || error is ClientShareTooHigh ==> (options.client_fee_params
            matches Some(fee) && crate::encoding::fees::fee_fault(
            fee.bps,
            fees.rates_of(fee.receiver@),
        ) == Some(error)) || (options.client_fee_params is None && crate::encoding::fees::fee_fault(
            0,
            fees.rates_of(solution.sender@),
        ) == Some(error)),
{
}

/// A plan lists exactly the successful quotes, each once and in their order, with their amounts and
/// parties, and as the options say how the router obtains the input.
pub proof fn plans_list_the_successful_quotes(
    quotes: Seq<OrderQuote>,
    options: EncodingOptions,
    plan: Seq<(usize, Solution)>,
    i: int,
)
    requires
        is_plan(quotes, options, quotes.len() as int, plan),
        0 <= i < quotes.len(),
    ensures
        quotes[i].status == QuoteStatus::Success <==> exists|k: int|
            0 <= k < plan.len() && (#[trigger] plan[k]).0 == i,
        forall|k: int, l: int|
            0 <= k < l < plan.len() ==> (#[trigger] plan[k]).0 < (#[trigger] plan[l]).0,
        forall|k: int|
            0 <= k < plan.len() && (#[trigger] plan[k]).0 == i ==> {
                &&& plan[k].1.sender == quotes[i].sender
                &&& plan[k].1.receiver == quotes[i].receiver
                &&& plan[k].1.amount_in == quotes[i].amount_in
                &&& plan[k].1.min_amount_out == quotes[i].amount_out
                &&& plan[k].1.user_transfer_type == options.transfer_type
            },
{
}

/// Encoding gives a quote its transaction, its gas and its fees, and changes nothing else; quotes that
/// are not planned stay as they are, and none comes or goes.
pub proof fn encoding_touches_only_planned_quotes(
    quotes: Seq<OrderQuote>,
    plan: Seq<(usize, Solution)>,
    encoded: Seq<EncodedSolution>,
    options: EncodingOptions,
    native: Seq<u8>,
    fees: RouterFees,
    done: Vec<OrderQuote>,
)
    requires
        plan.len() == encoded.len(),
        is_completed(quotes, plan, encoded, options, native, fees, Ok(done)),
    ensures
        done@.len() == quotes.len(),
        forall|k: int|
            0 <= k < plan.len() ==> {
                let before = quotes[(#[trigger] plan[k]).0 as int];
                let after = done@[plan[k].0 as int];
                &&& after.transaction is Some
                &&& after.fee_breakdown is Some
                &&& after.gas_estimate == encoded[k].estimated_gas
                &&& after.order_id == before.order_id
                &&& after.status == before.status
                &&& after.route == before.route
                &&& after.amount_in == before.amount_in
                &&& after.amount_out == before.amount_out
                &&& after.amount_out_net_gas == before.amount_out_net_gas
                &&& after.sender == before.sender
                &&& after.receiver == before.receiver
                &&& after.surplus == before.surplus
                &&& after.block == before.block
            },
        forall|i: int|
            0 <= i < quotes.len() && (forall|k: int|
                0 <= k < plan.len() ==> (#[trigger] plan[k]).0 != i) ==> #[trigger] done@[i]
                == quotes[i],
{
    assert forall|k: int| 0 <= k < plan.len() implies {
        let before = quotes[(#[trigger] plan[k]).0 as int];
        let after = done@[plan[k].0 as int];
        &&& after.transaction is Some
        &&& after.fee_breakdown is Some
        &&& after.gas_estimate == encoded[k].estimated_gas
        &&& after.order_id == before.order_id
        &&& after.status == before.status
        &&& after.route == before.route
        &&& after.amount_in == before.amount_in
        &&& after.amount_out == before.amount_out
        &&& after.amount_out_net_gas == before.amount_out_net_gas
        &&& after.sender == before.sender
        &&& after.receiver == before.receiver
        &&& after.surplus == before.surplus
        &&& after.block == before.block
    } by {
        assert(is_finished(
            native,
            encoded[k],
            plan[k].1,
            options,
            fees,
            quotes[plan[k].0 as int],
            done@[plan[k].0 as int],
        ));
    }
}

/// The fees of a prepared call are taken from the least output of its solution at the rates of its client,
/// and what they leave, less the slippage, is the least that the call accepts.
pub proof fn prepared_calls_accept_what_fees_leave(
    native: Seq<u8>,
    solution: Solution,
    options: EncodingOptions,
    fees: RouterFees,
    swaps: Seq<u8>,
    prepared: PreparedCall,
)
    requires
        is_prepared(native, solution, options, fees, swaps, prepared),
    ensures
        prepared.call@.min_amount_out == prepared.fees.min_amount_received@,
        prepared.fees.router_fee@ + prepared.fees.client_fee@ + prepared.fees.max_slippage@
            + prepared.fees.min_amount_received@ == solution.min_amount_out@,
{
    crate::encoding::fees::breakdown_adds_up(
        solution.min_amount_out@,
        client_fee_bps(options),
        options.slippage,
        fees.rates_of(fee_client(solution, options)),
        prepared.fees,
    );
}

/// Encoding is stopped only by a successful quote that makes no solution, and by the first such: quotes
/// without success never stop it.
pub proof fn only_broken_successes_stop_encoding(
    quotes: Seq<OrderQuote>,
    options: EncodingOptions,
    r: Result<Vec<(usize, Solution)>, SolveError>,
)
    requires
        is_planned(quotes, options, r),
    ensures
        r is Ok <==> forall|i: int|
            0 <= i < quotes.len() && (#[trigger] quotes[i]).status == QuoteStatus::Success
                ==> crate::encoding::solution::solution_fault(quotes[i]) is None,
        r is Err ==> exists|i: int|
            {
                &&& 0 <= i < quotes.len()
                &&& (#[trigger] quotes[i]).status == QuoteStatus::Success
                &&& crate::encoding::solution::solution_fault(quotes[i]) matches Some(text)
                &&& r->Err_0 matches SolveError::FailedEncoding(t)
                &&& t@ == text
                &&& forall|j: int|
                    0 <= j < i && (#[trigger] quotes[j]).status == QuoteStatus::Success
                        ==> crate::encoding::solution::solution_fault(quotes[j]) is None
            },
{
    match r {
        Ok(plan) => {
            assert forall|i: int|
                0 <= i < quotes.len() && (#[trigger] quotes[i]).status
                    == QuoteStatus::Success implies crate::encoding::solution::solution_fault(
                quotes[i],
            ) is None by {
                assert(plan_fault(quotes, i) is None);
            }
        },
        Err(error) => {
            let i = choose|i: int|
                0 <= i < quotes.len() && (forall|j: int|
                    0 <= j < i ==> #[trigger] plan_fault(quotes, j) is None) && (
                #[trigger] plan_fault(quotes, i) matches Some(text) && error
                    matches SolveError::FailedEncoding(t) && t@ == text);
            assert(quotes[i].status == QuoteStatus::Success);
            assert forall|j: int|
                0 <= j < i && (#[trigger] quotes[j]).status
                    == QuoteStatus::Success implies crate::encoding::solution::solution_fault(
                quotes[j],
            ) is None by {
                assert(plan_fault(quotes, j) is None);
            }
        },
    }
}

} // verus!
