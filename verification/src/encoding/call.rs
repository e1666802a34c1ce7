//! The arguments of a call of the router contract.
use alloy::primitives::{aliases::U48, Address as EvmAddress, U160, U256};
use alloy::sol_types::SolValue;
use vstd::prelude::*;

use crate::amount::Amount;

verus! {

/// The number that bytes stand for, most significant byte first.
pub open spec fn big_endian_value(bytes: Seq<u8>) -> nat
    decreases bytes.len(),
{
    if bytes.len() == 0 {
        0
    } else {
        256 * big_endian_value(bytes.drop_last()) + bytes.last() as nat
    }
}

/// The bytes of a number, most significant byte first and without leading zeros.
pub open spec fn big_endian(n: nat) -> Seq<u8>
    decreases n,
{
    if n < 256 {
        seq![n as u8]
    } else {
        big_endian(n / 256).push((n % 256) as u8)
    }
}

/// `num_bigint::BigUint::to_bytes_be`: the bytes of a number, most significant byte first, without
/// leading zeros; a single zero for zero.
#[verifier::external_body]
fn bytes_of_digits(digits: &Vec<u32>) -> (r: Vec<u8>)
    ensures
        r@ == big_endian(crate::amount::digits_value(digits@)),
{
    num_bigint::BigUint::from_slice(digits).to_bytes_be()
}

/// A number below 256^n has at most `n` bytes.
proof fn big_endian_length(n: nat, width: nat)
    requires
        n < vstd::arithmetic::power::pow(256, width),
        width > 0,
    ensures
        big_endian(n).len() <= width,
        big_endian_value(big_endian(n)) == n,
    decreases n,
{
    if n < 256 {
        assert(big_endian_value(seq![n as u8]) == n) by {
            assert(seq![n as u8].drop_last() =~= Seq::<u8>::empty());
            reveal_with_fuel(big_endian_value, 2);
        }
    } else {
        if width == 1 {
            vstd::arithmetic::power::lemma_pow1(256);
        }
        let rest = (width - 1) as nat;
        reveal(vstd::arithmetic::power::pow);
        assert(vstd::arithmetic::power::pow(256, width) == 256 * vstd::arithmetic::power::pow(256, rest));
        assert(n / 256 < vstd::arithmetic::power::pow(256, rest)) by (nonlinear_arith)
            requires
                n < 256 * vstd::arithmetic::power::pow(256, rest),
        ;
        big_endian_length(n / 256, rest);
        assert(big_endian(n).drop_last() =~= big_endian(n / 256));
    }
}

/// The bytes of an amount, most significant byte first.
pub(crate) fn to_bytes(amount: &Amount, width: Ghost<nat>) -> (r: Vec<u8>)
    requires
        amount@ < vstd::arithmetic::power::pow(256, width@),
        width@ > 0,
    ensures
        r@.len() <= width@,
        big_endian_value(r@) == amount@,
{
    let r: Vec<u8> = bytes_of_digits(&amount.to_digits());
    proof {
        big_endian_length(amount@, width@);
    }
    r
}

/// The arguments that every function of the router takes. Numbers are given by their bytes, most
/// significant byte first.
#[derive(Debug)]
pub struct RouterCall {
    pub amount_in: Vec<u8>,
    pub token_in: Vec<u8>,
    pub token_out: Vec<u8>,
    pub min_amount_out: Vec<u8>,
    pub receiver: Vec<u8>,
    pub fee_bps: u16,
    pub fee_receiver: Vec<u8>,
    pub fee_max_contribution: Vec<u8>,
    pub fee_deadline: Vec<u8>,
    pub fee_signature: Vec<u8>,
    pub swaps: Vec<u8>,
}

/// The values of the arguments that every function of the router takes.
pub struct RouterCallView {
    pub amount_in: nat,
    pub token_in: Seq<u8>,
    pub token_out: Seq<u8>,
    pub min_amount_out: nat,
    pub receiver: Seq<u8>,
    pub fee_bps: u16,
    pub fee_receiver: Seq<u8>,
    pub fee_max_contribution: nat,
    pub fee_deadline: nat,
    pub fee_signature: Seq<u8>,
    pub swaps: Seq<u8>,
}

impl View for RouterCall {
    type V = RouterCallView;

    open spec fn view(&self) -> RouterCallView {
        RouterCallView {
            amount_in: big_endian_value(self.amount_in@),
            token_in: self.token_in@,
            token_out: self.token_out@,
            min_amount_out: big_endian_value(self.min_amount_out@),
            receiver: self.receiver@,
            fee_bps: self.fee_bps,
            fee_receiver: self.fee_receiver@,
            fee_max_contribution: big_endian_value(self.fee_max_contribution@),
            fee_deadline: big_endian_value(self.fee_deadline@),
            fee_signature: self.fee_signature@,
            swaps: self.swaps@,
        }
    }
}

impl RouterCall {
    /// Numbers have at most the width of a word, and addresses the width of one.
    pub open spec fn fits(self) -> bool {
        &&& self.amount_in@.len() <= 32
        &&& self.token_in@.len() == 20
        &&& self.token_out@.len() == 20
        &&& self.min_amount_out@.len() <= 32
        &&& self.receiver@.len() == 20
        &&& self.fee_receiver@.len() == 20
        &&& self.fee_max_contribution@.len() <= 32
        &&& self.fee_deadline@.len() <= 32
    }
}

/// The arguments of a permit.
#[derive(Debug)]
pub struct PermitCall {
    pub token: Vec<u8>,
    pub amount: Vec<u8>,
    pub expiration: Vec<u8>,
    pub nonce: Vec<u8>,
    pub spender: Vec<u8>,
    pub sig_deadline: Vec<u8>,
    pub signature: Vec<u8>,
}

/// The values of the arguments of a permit.
pub struct PermitCallView {
    pub token: Seq<u8>,
    pub amount: nat,
    pub expiration: nat,
    pub nonce: nat,
    pub spender: Seq<u8>,
    pub sig_deadline: nat,
    pub signature: Seq<u8>,
}

impl View for PermitCall {
    type V = PermitCallView;

    open spec fn view(&self) -> PermitCallView {
        PermitCallView {
            token: self.token@,
            amount: big_endian_value(self.amount@),
            expiration: big_endian_value(self.expiration@),
            nonce: big_endian_value(self.nonce@),
            spender: self.spender@,
            sig_deadline: big_endian_value(self.sig_deadline@),
            signature: self.signature@,
        }
    }
}

impl PermitCall {
    /// Numbers have at most their widths in the contract, and addresses the width of one.
    pub open spec fn fits(self) -> bool {
        &&& self.token@.len() == 20
        &&& self.amount@.len() <= 20
        &&& self.expiration@.len() <= 6
        &&& self.nonce@.len() <= 6
        &&& self.spender@.len() == 20
        &&& self.sig_deadline@.len() <= 32
    }
}

/// A value of the contract's types.
pub enum AbiValue {
    /// A number of so many bits.
    Uint { bits: nat, value: nat },
    Address(Seq<u8>),
    Bytes(Seq<u8>),
    Tuple(Seq<AbiValue>),
}

pub open spec fn word(value: nat) -> AbiValue {
    AbiValue::Uint { bits: 256, value }
}

/// The client fee, as the contract takes it.
pub open spec fn fee_value(call: RouterCallView) -> AbiValue {
    AbiValue::Tuple(
        seq![
            AbiValue::Uint { bits: 16, value: call.fee_bps as nat },
            AbiValue::Address(call.fee_receiver),
            word(call.fee_max_contribution),
            word(call.fee_deadline),
            AbiValue::Bytes(call.fee_signature),
        ],
    )
}

/// The permit, as the contract takes it.
pub open spec fn permit_value(permit: PermitCallView) -> AbiValue {
    AbiValue::Tuple(
        seq![
            AbiValue::Tuple(
                seq![
                    AbiValue::Address(permit.token),
                    AbiValue::Uint { bits: 160, value: permit.amount },
                    AbiValue::Uint { bits: 48, value: permit.expiration },
                    AbiValue::Uint { bits: 48, value: permit.nonce },
                ],
            ),
            AbiValue::Address(permit.spender),
            word(permit.sig_deadline),
        ],
    )
}

/// The arguments of a swap without shares, in their order.
pub open spec fn swap_values(call: RouterCallView) -> Seq<AbiValue> {
    seq![
        word(call.amount_in),
        AbiValue::Address(call.token_in),
        AbiValue::Address(call.token_out),
        word(call.min_amount_out),
        AbiValue::Address(call.receiver),
        fee_value(call),
        AbiValue::Bytes(call.swaps),
    ]
}

/// The arguments of a swap with shares over so many tokens, in their order.
pub open spec fn split_swap_values(call: RouterCallView, n_tokens: nat) -> Seq<AbiValue> {
    seq![
        word(call.amount_in),
        AbiValue::Address(call.token_in),
        AbiValue::Address(call.token_out),
        word(call.min_amount_out),
        word(n_tokens),
        AbiValue::Address(call.receiver),
        fee_value(call),
        AbiValue::Bytes(call.swaps),
    ]
}

/// The arguments of a swap without shares and with a permit, in their order.
pub open spec fn permit_swap_values(call: RouterCallView, permit: PermitCallView) -> Seq<AbiValue> {
    seq![
        word(call.amount_in),
        AbiValue::Address(call.token_in),
        AbiValue::Address(call.token_out),
        word(call.min_amount_out),
        AbiValue::Address(call.receiver),
        fee_value(call),
        permit_value(permit),
        AbiValue::Bytes(permit.signature),
        AbiValue::Bytes(call.swaps),
    ]
}

/// The arguments of a swap with shares and with a permit, in their order.
pub open spec fn permit_split_swap_values(
    call: RouterCallView,
    n_tokens: nat,
    permit: PermitCallView,
) -> Seq<AbiValue> {
    seq![
        word(call.amount_in),
        AbiValue::Address(call.token_in),
        AbiValue::Address(call.token_out),
        word(call.min_amount_out),
        word(n_tokens),
        AbiValue::Address(call.receiver),
        fee_value(call),
        permit_value(permit),
        AbiValue::Bytes(permit.signature),
        AbiValue::Bytes(call.swaps),
    ]
}

/// A tuple of values, encoded by the contract's conventions.
pub uninterp spec fn abi_encoded(values: Seq<AbiValue>) -> Seq<u8>;

/// `alloy::sol_types::SolValue::abi_encode` of the argument tuple of a swap without shares. The
/// encoding depends on the values and types of the tuple alone, in their order; it is named, not spelled
/// out.
#[verifier::external_body]
pub(crate) fn encode_swap(c: &RouterCall) -> (r: Vec<u8>)
    requires
        c.fits(),
    ensures
        r@ == abi_encoded(swap_values(c@)),
{
    (
        U256::from_be_slice(&c.amount_in),
        EvmAddress::from_slice(&c.token_in),
        EvmAddress::from_slice(&c.token_out),
        U256::from_be_slice(&c.min_amount_out),
        EvmAddress::from_slice(&c.receiver),
        (
            c.fee_bps, EvmAddress::from_slice(&c.fee_receiver),
            U256::from_be_slice(&c.fee_max_contribution), U256::from_be_slice(&c.fee_deadline),
            c.fee_signature.clone(),
        ),
        c.swaps.clone(),
    ).abi_encode()
}

/// `alloy::sol_types::SolValue::abi_encode` of the argument tuple of a swap with shares. The
/// encoding depends on the values and types of the tuple alone, in their order; it is named, not spelled
/// out.
#[verifier::external_body]
pub(crate) fn encode_split_swap(c: &RouterCall, n_tokens: usize) -> (r: Vec<u8>)
    requires
        c.fits(),
    ensures
        r@ == abi_encoded(split_swap_values(c@, n_tokens as nat)),
{
    (
        U256::from_be_slice(&c.amount_in),
        EvmAddress::from_slice(&c.token_in),
        EvmAddress::from_slice(&c.token_out),
        U256::from_be_slice(&c.min_amount_out), U256::from(n_tokens),
        EvmAddress::from_slice(&c.receiver),
        (
            c.fee_bps, EvmAddress::from_slice(&c.fee_receiver),
            U256::from_be_slice(&c.fee_max_contribution), U256::from_be_slice(&c.fee_deadline),
            c.fee_signature.clone(),
        ),
        c.swaps.clone(),
    ).abi_encode()
}

/// `alloy::sol_types::SolValue::abi_encode` of the argument tuple of a swap without shares and with a
/// permit. The encoding depends on the values and types of the tuple alone, in their order; it is named,
/// not spelled out.
#[verifier::external_body]
pub(crate) fn encode_permit_swap(c: &RouterCall, p: &PermitCall) -> (r: Vec<u8>)
    requires
        c.fits(),
        p.fits(),
    ensures
        r@ == abi_encoded(permit_swap_values(c@, p@)),
{
    (
        U256::from_be_slice(&c.amount_in), EvmAddress::from_slice(&c.token_in),
        EvmAddress::from_slice(&c.token_out), U256::from_be_slice(&c.min_amount_out),
        EvmAddress::from_slice(&c.receiver),
        (c.fee_bps, EvmAddress::from_slice(&c.fee_receiver),
            U256::from_be_slice(&c.fee_max_contribution), U256::from_be_slice(&c.fee_deadline),
            c.fee_signature.clone()),
        ((EvmAddress::from_slice(&p.token), U160::from_be_slice(&p.amount),
            U48::from_be_slice(&p.expiration), U48::from_be_slice(&p.nonce)),
            EvmAddress::from_slice(&p.spender), U256::from_be_slice(&p.sig_deadline)),
        p.signature.clone(), c.swaps.clone(),
    ).abi_encode()
}

/// `alloy::sol_types::SolValue::abi_encode` of the argument tuple of a swap with shares and with a
/// permit. The encoding depends on the values and types of the tuple alone, in their order; it is named,
/// not spelled out.
#[verifier::external_body]
pub(crate) fn encode_permit_split_swap(
    c: &RouterCall,
    n_tokens: usize,
    p: &PermitCall,
) -> (r: Vec<u8>)
    requires
        c.fits(),
        p.fits(),
    ensures
        r@ == abi_encoded(permit_split_swap_values(c@, n_tokens as nat, p@)),
{
    (
        U256::from_be_slice(&c.amount_in), EvmAddress::from_slice(&c.token_in),
        EvmAddress::from_slice(&c.token_out), U256::from_be_slice(&c.min_amount_out),
        U256::from(n_tokens), EvmAddress::from_slice(&c.receiver),
        (c.fee_bps, EvmAddress::from_slice(&c.fee_receiver),
            U256::from_be_slice(&c.fee_max_contribution), U256::from_be_slice(&c.fee_deadline),
            c.fee_signature.clone()),
        ((EvmAddress::from_slice(&p.token), U160::from_be_slice(&p.amount),
            U48::from_be_slice(&p.expiration), U48::from_be_slice(&p.nonce)),
            EvmAddress::from_slice(&p.spender), U256::from_be_slice(&p.sig_deadline)),
        p.signature.clone(), c.swaps.clone(),
    ).abi_encode()
}

/// What the Keccak-256 hash function makes of bytes.
pub uninterp spec fn keccak256_of(data: Seq<u8>) -> Seq<u8>;

/// `alloy::primitives::keccak256`: the Keccak-256 hash of bytes, 32 bytes that depend on the data
/// alone. The hash is named, not spelled out.
#[verifier::external_body]
pub(crate) fn keccak256(data: &Vec<u8>) -> (r: [u8; 32])
    ensures
        r@ == keccak256_of(data@),
{
    alloy::primitives::keccak256(data).0
}

/// Each further byte counts once, and what stands before it 256 times as much.
pub proof fn further_bytes_shift_the_rest(bytes: Seq<u8>, byte: u8)
    ensures
        big_endian_value(Seq::<u8>::empty()) == 0,
        big_endian_value(bytes.push(byte)) == 256 * big_endian_value(bytes) + byte,
{
    assert(bytes.push(byte).drop_last() =~= bytes);
}

} // verus!
