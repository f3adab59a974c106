//! Why a byte string was not accepted as an encoded value.

use vstd::prelude::*;

verus! {

/// The ways in which decoding can fail.
#[derive(Clone, Copy, Debug, PartialEq, Eq)]
pub enum DecodeError {
    /// A value is longer than its type allows.
    RlpIsTooBig,
    /// The input ends before the item does, or a value is shorter than its
    /// type requires.
    RlpIsTooShort,
    /// A list was expected and the input is something else.
    RlpExpectedToBeList,
    /// A byte string was expected and the input is a list.
    RlpExpectedToBeData,
    /// A list has another number of items than expected.
    RlpIncorrectListLen,
    /// The length in a long header starts with a zero byte.
    RlpDataLenWithZeroPrefix,
    /// The length in a long list header starts with a zero byte.
    RlpListLenWithZeroPrefix,
    /// A value is written in a longer form than necessary.
    RlpInvalidIndirection,
    /// A byte string's header declares more bytes than follow it.
    RlpInconsistentLengthAndData,
    /// Another failure, described by its message.
    Custom(&'static str),
}

} // verus!
