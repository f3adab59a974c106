//! Fixed-width byte values: account addresses and 32-byte hashes.

use crate::endian::{be_fixed, lemma_be_fixed_of_value};
use crate::uint::M256;
use vstd::prelude::*;

verus! {

/// A 20-byte account address.
#[derive(Clone, Copy, Debug, PartialEq, Eq, Hash)]
pub struct Address(pub [u8; 20]);

/// A 32-byte value, such as a salt or a hash.
#[derive(Clone, Copy, Debug, PartialEq, Eq, Hash)]
pub struct H256(pub [u8; 32]);

impl View for Address {
    type V = Seq<u8>;

    open spec fn view(&self) -> Seq<u8> {
        self.0@
    }
}

impl View for H256 {
    type V = Seq<u8>;

    open spec fn view(&self) -> Seq<u8> {
        self.0@
    }
}

impl Address {
    /// The low 160 bits of `value`: the last 20 of its 32 big-endian bytes.
    pub fn from_m256(value: M256) -> (address: Address)
        ensures
            address@ == be_fixed(value@, 32).subrange(12, 32),
    {
        let source = value.0.0;
        let mut bytes = [0u8; 20];
        let mut i: usize = 0;
        while i < 20
            invariant
                i <= 20,
                forall|j: int| 0 <= j < i ==> bytes@[j] == source@[12 + j],
            decreases 20 - i,
        {
            bytes[i] = source[12 + i];
            i += 1;
        }
        proof {
            lemma_be_fixed_of_value(source@);
            assert(bytes@ =~= source@.subrange(12, 32));
        }
        Address(bytes)
    }
}

impl H256 {
    /// The 32 big-endian bytes of `value`.
    pub fn from_m256(value: M256) -> (hash: H256)
        ensures
            hash@ == be_fixed(value@, 32),
    {
        proof {
            lemma_be_fixed_of_value(value.0.0@);
        }
        H256(value.0.0)
    }
}

/// Two addresses with the same bytes are the same address.
pub proof fn lemma_address_ext(a: Address, b: Address)
    requires
        a@ == b@,
    ensures
        a == b,
{
    assert(a.0 =~= b.0);
}

/// Two 32-byte values with the same bytes are the same value.
pub proof fn lemma_h256_ext(a: H256, b: H256)
    requires
        a@ == b@,
    ensures
        a == b,
{
    assert(a.0 =~= b.0);
}

} // verus!
