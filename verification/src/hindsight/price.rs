//! Which prices a token is valued by.
use vstd::prelude::*;

use crate::bytes::{Address, Bytes};
use crate::table::Table;
use crate::types::chain::Real;

verus! {

/// The address that stands for the native token.
pub open spec fn native_address() -> Seq<u8> {
    Seq::new(20, |i: int| 0u8)
}

/// The address of the wrapped native token.
pub open spec fn wrapped_address() -> Seq<u8> {
    seq![
        0xc0u8, 0x2a, 0xaa, 0x39, 0xb2, 0x23, 0xfe, 0x8d, 0x0a, 0x0e, 0x5c, 0x4f, 0x27, 0xea, 0xd9,
        0x08, 0x3c, 0x75, 0x6c, 0xc2,
    ]
}

/// The address of the wrapped native token.
pub fn wrapped_token() -> (r: Address)
    ensures
        r@ == wrapped_address(),
{
    let data: Vec<u8> = vec![
        0xc0u8, 0x2a, 0xaa, 0x39, 0xb2, 0x23, 0xfe, 0x8d, 0x0a, 0x0e, 0x5c, 0x4f, 0x27, 0xea, 0xd9,
        0x08, 0x3c, 0x75, 0x6c, 0xc2,
    ];
    assert(data@ == wrapped_address());
    Bytes::new(data)
}

/// A number that is above zero and not infinite: its sign bit is clear, and its exponent is not the
/// largest one.
pub open spec fn is_price(price: Real) -> bool {
    0 < price.bits < 0x7ff0_0000_0000_0000
}

/// The price on record for a token, whatever it is. The native token and the wrapped one stand for each
/// other where only one of them has a price.
pub open spec fn recorded_price(prices: Map<Seq<u8>, Real>, token: Seq<u8>) -> Option<Real> {
    let other = if token == native_address() {
        Some(wrapped_address())
    } else if token == wrapped_address() {
        Some(native_address())
    } else {
        None
    };
    if prices.dom().contains(token) {
        Some(prices[token])
    } else if other is Some && prices.dom().contains(other->Some_0) {
        Some(prices[other->Some_0])
    } else {
        None
    }
}

/// The price to value a token by: the one on record, where it is a proper price.
pub open spec fn price_in(prices: Map<Seq<u8>, Real>, token: Seq<u8>) -> Option<Real> {
    match recorded_price(prices, token) {
        Some(price) if is_price(price) => Some(price),
        _ => None,
    }
}

/// The price to value a token by.
pub fn price_of(prices: &Table<Address, Real>, token: &Address) -> (r: Option<Real>)
    ensures
        r == price_in(prices@, token@),
{
    let native: Address = Bytes::zero(20);
    let wrapped: Address = wrapped_token();
    let found: Option<Real> = match prices.get(token) {
        Some(price) => Some(*price),
        None => {
            let fallback: Option<&Real> = if token.same(&native) {
                prices.get(&wrapped)
            } else if token.same(&wrapped) {
                prices.get(&native)
            } else {
                None
            };
            match fallback {
                Some(price) => Some(*price),
                None => None,
            }
        },
    };
    assert(found == recorded_price(prices@, token@));
    match found {
        Some(price) => if 0 < price.bits && price.bits < 0x7ff0_0000_0000_0000 {
            Some(price)
        } else {
            None
        },
        None => None,
    }
}

/// The native token and the wrapped one are valued alike where only one of them is on record.
pub proof fn native_and_wrapped_are_interchangeable(prices: Map<Seq<u8>, Real>)
    requires
        !prices.dom().contains(native_address()) || !prices.dom().contains(wrapped_address()),
    ensures
        price_in(prices, native_address()) == price_in(prices, wrapped_address()),
{
    assert(native_address()[0] != wrapped_address()[0]);
}

/// The native token is known by twenty zero bytes, and the wrapped one by its contract.
pub proof fn native_and_wrapped_have_their_addresses(i: int)
    ensures
        native_address().len() == 20,
        0 <= i < 20 ==> native_address()[i] == 0,
        wrapped_address() == crate::bytes::hex_bytes("c02aaa39b223fe8d0a0e5c4f27ead9083c756cc2"@),
{
    reveal_strlit("c02aaa39b223fe8d0a0e5c4f27ead9083c756cc2");
    assert(wrapped_address() =~= crate::bytes::hex_bytes(
        "c02aaa39b223fe8d0a0e5c4f27ead9083c756cc2"@,
    ));
}

/// A token is valued by its own price where there is one on record, however improper; the native token and
/// the wrapped one by each other's where there is none of their own; and any other not at all. A price
/// that is not above zero, or not finite, values nothing.
pub proof fn tokens_are_valued_by_proper_prices(
    prices: Map<Seq<u8>, Real>,
    token: Seq<u8>,
    other: Seq<u8>,
)
    requires
        (token == native_address() && other == wrapped_address()) || (token == wrapped_address()
            && other == native_address()),
    ensures
        ({
            let own = prices.dom().contains(token);
            let price = if own {
                prices[token]
            } else {
                prices[other]
            };
            &&& (own || prices.dom().contains(other)) && 0 < price.bits
                < 0x7ff0_0000_0000_0000u64 ==> price_in(prices, token) == Some(price)
            &&& !(own || prices.dom().contains(other)) || price.bits == 0 || price.bits
                >= 0x7ff0_0000_0000_0000u64 ==> price_in(prices, token) is None
        }),
{
    native_and_wrapped_have_their_addresses(0);
    assert(native_address()[0] == 0 && wrapped_address()[0] == 0xc0);
}

/// A token that is neither the native one nor the wrapped one is valued by its own proper price alone.
pub proof fn other_tokens_are_valued_by_their_own_price(prices: Map<Seq<u8>, Real>, token: Seq<u8>)
    requires
        token != native_address(),
        token != wrapped_address(),
    ensures
        price_in(prices, token) is Some <==> prices.dom().contains(token) && 0 < prices[token].bits
            < 0x7ff0_0000_0000_0000u64,
        price_in(prices, token) is Some ==> price_in(prices, token)->Some_0 == prices[token],
{
}

} // verus!
