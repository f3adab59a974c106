//! The decoder of the `rlp` crate on a byte string, and what each of its
//! answers is in terms of the format.

use crate::error::DecodeError;
use crate::fixed::{Address, H256};
use crate::wire::{
    byte_at, fixed_at, fixed_bytes, is_empty_item, item_extent, string_end_overflows,
};
use vstd::prelude::*;

verus! {

#[verifier::external_type_specification]
#[verifier::external_body]
pub struct ExDecoderError(rlp::DecoderError);

/// The error of this library that stands for an error of the decoder: the
/// variant of the same name.
pub uninterp spec fn error_kind(e: rlp::DecoderError) -> DecodeError;

/// Tells the variants of `rlp::DecoderError` apart.
#[verifier::external_body]
pub(crate) fn decoder_error_kind(e: rlp::DecoderError) -> (kind: DecodeError)
    ensures
        kind == error_kind(e),
{
    match e {
        rlp::DecoderError::RlpIsTooBig => DecodeError::RlpIsTooBig,
        rlp::DecoderError::RlpIsTooShort => DecodeError::RlpIsTooShort,
        rlp::DecoderError::RlpExpectedToBeList => DecodeError::RlpExpectedToBeList,
        rlp::DecoderError::RlpExpectedToBeData => DecodeError::RlpExpectedToBeData,
        rlp::DecoderError::RlpIncorrectListLen => DecodeError::RlpIncorrectListLen,
        rlp::DecoderError::RlpDataLenWithZeroPrefix => DecodeError::RlpDataLenWithZeroPrefix,
        rlp::DecoderError::RlpListLenWithZeroPrefix => DecodeError::RlpListLenWithZeroPrefix,
        rlp::DecoderError::RlpInvalidIndirection => DecodeError::RlpInvalidIndirection,
        rlp::DecoderError::RlpInconsistentLengthAndData => DecodeError::RlpInconsistentLengthAndData,
        rlp::DecoderError::Custom(message) => DecodeError::Custom(message),
    }
}

/// `UntrustedRlp::is_empty`: whether the first byte is that of the empty
/// string or of the empty list.
#[verifier::external_body]
pub(crate) fn rlp_is_empty(bytes: &[u8]) -> (empty: bool)
    ensures
        empty == is_empty_item(bytes@),
{
    rlp::UntrustedRlp::new(bytes).is_empty()
}

/// `UntrustedRlp::payload_info`: the length of the header and the length
/// of the payload of the item that the input starts with, where the input
/// holds all of it.
#[verifier::external_body]
pub(crate) fn rlp_payload_info(bytes: &[u8]) -> (r: Result<(usize, usize), rlp::DecoderError>)
    ensures
        match r {
            Ok((header, payload)) => item_extent(bytes@) == Ok::<(nat, nat), DecodeError>(
                (header as nat, payload as nat),
            ),
            Err(e) => item_extent(bytes@) == Err::<(nat, nat), DecodeError>(error_kind(e)),
        },
{
    rlp::UntrustedRlp::new(bytes).payload_info().map(|info| (info.header_len, info.value_len))
}

/// `UntrustedRlp::val_at` for a `u8`, on a view that was not read before:
/// the item at `index` of the list, read as a byte.
#[verifier::external_body]
pub(crate) fn rlp_val_at_byte(bytes: &[u8], index: usize) -> (r: Result<u8, rlp::DecoderError>)
    requires
        index < usize::MAX,
    ensures
        match r {
            Ok(value) => byte_at(bytes@, index as nat) == Ok::<u8, DecodeError>(value),
            Err(e) => byte_at(bytes@, index as nat) == Err::<u8, DecodeError>(error_kind(e)),
        },
{
    rlp::UntrustedRlp::new(bytes).val_at::<u8>(index)
}

/// `UntrustedRlp::val_at` for a `bigint::H256`, on a view that was not read
/// before: the item at `index` of the list, read as a string of 32 bytes.
#[verifier::external_body]
pub(crate) fn rlp_val_at_hash(bytes: &[u8], index: usize) -> (r: Result<H256, rlp::DecoderError>)
    requires
        index < usize::MAX,
    ensures
        match r {
            Ok(value) => fixed_at(bytes@, index as nat, 32) == Ok::<Seq<u8>, DecodeError>(value@),
            Err(e) => fixed_at(bytes@, index as nat, 32) == Err::<Seq<u8>, DecodeError>(
                error_kind(e),
            ),
        },
{
    rlp::UntrustedRlp::new(bytes).val_at::<bigint::H256>(index).map(|hash| H256(hash.0))
}

/// `UntrustedRlp::as_val` for a `bigint::H160`: the input read as a string
/// of 20 bytes. Left out are the inputs on which the decoder adds up a
/// header's length and a declared length that do not fit in a machine word
/// together.
#[verifier::external_body]
pub(crate) fn rlp_as_address(bytes: &[u8]) -> (r: Result<Address, rlp::DecoderError>)
    requires
        !string_end_overflows(bytes@),
    ensures
        match r {
            Ok(value) => fixed_bytes(bytes@, 20) == Ok::<Seq<u8>, DecodeError>(value@),
            Err(e) => fixed_bytes(bytes@, 20) == Err::<Seq<u8>, DecodeError>(error_kind(e)),
        },
{
    rlp::UntrustedRlp::new(bytes).as_val::<bigint::H160>().map(|address| Address(address.0))
}

} // verus!
