//! Chains, and numbers that are carried through without being looked into.
use tycho_common::models::Chain as IndexedChain;
use vstd::prelude::*;

use crate::bytes::{Address, Bytes};

verus! {

/// A blockchain.
#[derive(Debug, Clone, Copy, PartialEq, Eq, Structural)]
pub enum Chain {
    Ethereum,
    Starknet,
    ZkSync,
    Arbitrum,
    Base,
    Bsc,
    Unichain,
    Polygon,
    Plasma,
    Robinhood,
    Arc,
}

/// The address by which a chain's native token is known: zero on every chain.
pub open spec fn native_address(chain: Chain) -> Seq<u8> {
    Seq::new(20, |i: int| 0u8)
}

/// `tycho_common::models::Chain::native_token` and its `address`: the address of a chain's native
/// token. On the chains that are built in it is 20 zero bytes.
#[verifier::external_body]
fn native_token_address(chain: Chain) -> (r: Vec<u8>)
    ensures
        r@ == native_address(chain),
{
    let indexed = match chain {
        Chain::Ethereum => IndexedChain::Ethereum,
        Chain::Starknet => IndexedChain::Starknet,
        Chain::ZkSync => IndexedChain::ZkSync,
        Chain::Arbitrum => IndexedChain::Arbitrum,
        Chain::Base => IndexedChain::Base,
        Chain::Bsc => IndexedChain::Bsc,
        Chain::Unichain => IndexedChain::Unichain,
        Chain::Polygon => IndexedChain::Polygon,
        Chain::Plasma => IndexedChain::Plasma,
        Chain::Robinhood => IndexedChain::Robinhood,
        Chain::Arc => IndexedChain::Arc,
    };
    indexed.native_token().address.to_vec()
}

impl Chain {
    /// The address of the chain's native token.
    pub fn native_token(self) -> (r: Address)
        ensures
            r@ == native_address(self),
    {
        Bytes::new(native_token_address(self))
    }
}

/// A double-precision number, by its bits.
#[derive(Debug, Clone, Copy, PartialEq, Eq, Structural)]
pub struct Real {
    pub bits: u64,
}

/// The native token of a chain has an address of 20 bytes, all of them zero.
pub proof fn native_tokens_have_the_zero_address(chain: Chain, i: int)
    ensures
        native_address(chain).len() == 20,
        0 <= i < 20 ==> native_address(chain)[i] == 0,
{
}

} // verus!
