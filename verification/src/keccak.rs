//! The Keccak-256 hash function of the `sha3` crate.

use vstd::prelude::*;

verus! {

/// The Keccak-256 digest of `data`: 32 bytes.
pub uninterp spec fn keccak256(data: Seq<u8>) -> Seq<u8>;

/// `Keccak256::digest`: the digest of `data`, which depends on `data` alone.
#[verifier::external_body]
pub(crate) fn keccak256_digest(data: &[u8]) -> (hash: [u8; 32])
    ensures
        hash@ == keccak256(data@),
{
    let digest = <sha3::Keccak256 as sha3::Digest>::digest(data);
    let mut hash = [0u8; 32];
    hash.copy_from_slice(digest.as_slice());
    hash
}

} // verus!
