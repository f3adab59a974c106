//! 256-bit unsigned integers, held as 32 big-endian bytes.

use crate::endian::{
    be_value, lemma_be_fixed_of_value, lemma_be_value_bound, lemma_be_value_concat,
    lemma_be_value_single,
};
use crate::fixed::H256;
use vstd::arithmetic::power2::{lemma2_to64, lemma_pow2_adds, pow2};
use vstd::prelude::*;

verus! {

/// An unsigned integer below `2^256`. The field holds its 32 bytes, most
/// significant first.
#[derive(Clone, Copy, Debug, PartialEq, Eq, Hash)]
pub struct U256(pub [u8; 32]);

/// A 256-bit integer as the virtual machine's word: the same range of
/// values as `U256`.
#[derive(Clone, Copy, Debug, PartialEq, Eq, Hash)]
pub struct M256(pub U256);

impl View for U256 {
    type V = nat;

    open spec fn view(&self) -> nat {
        be_value(self.0@)
    }
}

impl View for M256 {
    type V = nat;

    open spec fn view(&self) -> nat {
        self.0@
    }
}

impl U256 {
    /// The integer `value`.
    pub fn from_u64(value: u64) -> (n: U256)
        ensures
            n@ == value,
    {
        let mut bytes = [0u8; 32];
        let mut rest: u64 = value;
        let mut i: usize = 0;
        proof {
            lemma2_to64();
            assert(bytes@.subrange(32, 32) =~= Seq::<u8>::empty());
            assert(rest * 1 == rest);
        }
        while i < 8
            invariant
                i <= 8,
                forall|j: int| 0 <= j < 32 - i ==> bytes@[j] == 0,
                be_value(bytes@.subrange(32 - i, 32)) + rest * pow2(8 * i as nat) == value,
            decreases 8 - i,
        {
            let digit: u8 = (rest % 256) as u8;
            proof {
                let tail = bytes@.subrange(32 - i, 32);
                lemma_be_value_concat(seq![digit], tail);
                lemma_pow2_adds(8 * i as nat, 8);
                lemma2_to64();
                lemma_be_value_single(digit);
                assert(bytes@.update(31 - i, digit).subrange(31 - i, 32) =~= seq![digit] + tail);
                assert(digit * pow2(8 * i as nat) + (rest / 256) * (pow2(8 * i as nat) * 256)
                    == rest * pow2(8 * i as nat)) by (nonlinear_arith)
                    requires
                        digit == rest % 256,
                ;
            }
            bytes[31 - i] = digit;
            rest = rest / 256;
            i += 1;
        }
        proof {
            let head = bytes@.subrange(0, 24);
            let tail = bytes@.subrange(24, 32);
            lemma_be_value_zeros(head);
            lemma_be_value_concat(head, tail);
            assert(bytes@ =~= head + tail);
            lemma_be_value_bound(tail);
            assert(rest * pow2(64) == 0 ==> rest == 0) by (nonlinear_arith)
                requires
                    pow2(64) > 0,
            ;
            assert(rest == 0) by (nonlinear_arith)
                requires
                    be_value(tail) + rest * pow2(64) == value,
                    value < pow2(64),
                    rest >= 0,
                    pow2(64) > 0,
            ;
        }
        U256(bytes)
    }
}

impl M256 {
    /// The integer `value`.
    pub fn from_u64(value: u64) -> (n: M256)
        ensures
            n@ == value,
    {
        M256(U256::from_u64(value))
    }

    /// The integer that the 32 bytes of `hash` denote, read big-endian.
    pub fn from_h256(hash: H256) -> (n: M256)
        ensures
            n@ == be_value(hash@),
    {
        M256(U256(hash.0))
    }
}

/// A byte string of zeros denotes zero.
pub proof fn lemma_be_value_zeros(bytes: Seq<u8>)
    requires
        forall|j: int| 0 <= j < bytes.len() ==> bytes[j] == 0,
    ensures
        be_value(bytes) == 0,
    decreases bytes.len(),
{
    if bytes.len() > 0 {
        lemma_be_value_zeros(bytes.drop_last());
    }
}

/// Every 256-bit integer is below `2^256`.
pub proof fn lemma_u256_bound(n: U256)
    ensures
        n@ < pow2(256),
{
    lemma_be_value_bound(n.0@);
}

/// Two 256-bit integers with the same value are the same.
pub proof fn lemma_u256_ext(a: U256, b: U256)
    requires
        a@ == b@,
    ensures
        a == b,
{
    lemma_be_fixed_of_value(a.0@);
    lemma_be_fixed_of_value(b.0@);
    assert(a.0 =~= b.0);
}

} // verus!
