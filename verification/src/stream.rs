//! The encoder of the `rlp` crate, and what each call does to the bytes it
//! has gathered.
//!
//! A stream holds the bytes written so far and, for every list that was
//! begun and not yet completed, where that list's payload starts and how many
//! items it still lacks. A list is begun with one placeholder byte for its
//! header. When its last item arrives the header is written over the
//! placeholder, and grows by the bytes of the length where the payload is
//! longer than 55 bytes.

use crate::endian::be_minimal;
use crate::fixed::{Address, H256};
use crate::uint::U256;
use crate::wire::{list_item, string_item};
use vstd::prelude::*;

verus! {

#[verifier::external_type_specification]
#[verifier::external_body]
pub struct ExRlpStream(rlp::RlpStream);

/// The bytes that the stream holds: all that `RlpStream::as_raw` shows.
pub uninterp spec fn stream_bytes(s: rlp::RlpStream) -> Seq<u8>;

/// The lists that were begun with a length and are not complete, outermost
/// first. Each is given by the index in `stream_bytes` at which its payload
/// starts and the number of items that it still lacks.
pub uninterp spec fn stream_pending(s: rlp::RlpStream) -> Seq<(int, int)>;

/// Whether an item of `extra` bytes may be appended: at most one list is
/// open, it lacks at least one item, and its payload stays below `2^32` bytes.
pub open spec fn accepts_item(bytes: Seq<u8>, pending: Seq<(int, int)>, extra: int) -> bool {
    &&& pending.len() <= 1
    &&& pending.len() == 1 ==> {
        &&& 1 <= pending[0].0 <= bytes.len()
        &&& 1 <= pending[0].1
        &&& bytes.len() + extra - pending[0].0 < 0x1_0000_0000
    }
}

/// The bytes of a stream after the encoded `item` was appended to it. If the
/// item is the last of the open list, the list is completed.
pub open spec fn bytes_after_item(bytes: Seq<u8>, pending: Seq<(int, int)>, item: Seq<u8>) -> Seq<
    u8,
> {
    let written = bytes + item;
    if pending.len() == 1 && pending[0].1 == 1 {
        let start = pending[0].0;
        written.subrange(0, start - 1) + list_item(written.subrange(start, written.len() as int))
    } else {
        written
    }
}

/// The open lists of a stream after one item was appended to it.
pub open spec fn pending_after_item(pending: Seq<(int, int)>) -> Seq<(int, int)> {
    if pending.len() == 1 && pending[0].1 > 1 {
        seq![(pending[0].0, pending[0].1 - 1)]
    } else {
        Seq::empty()
    }
}

/// `RlpStream::new`: a stream without bytes and without open lists.
#[verifier::external_body]
pub(crate) fn stream_new() -> (s: rlp::RlpStream)
    ensures
        stream_bytes(s) == Seq::<u8>::empty(),
        stream_pending(s) == Seq::<(int, int)>::empty(),
{
    rlp::RlpStream::new()
}

/// `RlpStream::begin_list` with a positive length: writes the placeholder
/// byte and opens a list of `len` items behind it.
#[verifier::external_body]
pub(crate) fn stream_begin_list(s: &mut rlp::RlpStream, len: usize)
    requires
        len > 0,
    ensures
        stream_bytes(*final(s)) == stream_bytes(*old(s)).push(0u8),
        stream_pending(*final(s)) == stream_pending(*old(s)).push(
            (stream_bytes(*old(s)).len() as int + 1, len as int),
        ),
{
    s.begin_list(len);
}

/// `RlpStream::append` of a `u8`: appends the one-byte string holding
/// `value`, or the empty string where `value` is zero.
#[verifier::external_body]
pub(crate) fn stream_append_byte(s: &mut rlp::RlpStream, value: u8)
    requires
        accepts_item(stream_bytes(*old(s)), stream_pending(*old(s)), 2),
    ensures
        stream_bytes(*final(s)) == bytes_after_item(
            stream_bytes(*old(s)),
            stream_pending(*old(s)),
            string_item(if value == 0 { Seq::empty() } else { seq![value] }),
        ),
        stream_pending(*final(s)) == pending_after_item(stream_pending(*old(s))),
{
    s.append(&value);
}

/// `RlpStream::append` of a `bigint::H160`: appends the string of its 20
/// bytes.
#[verifier::external_body]
pub(crate) fn stream_append_address(s: &mut rlp::RlpStream, value: &Address)
    requires
        accepts_item(stream_bytes(*old(s)), stream_pending(*old(s)), 21),
    ensures
        stream_bytes(*final(s)) == bytes_after_item(
            stream_bytes(*old(s)),
            stream_pending(*old(s)),
            string_item(value@),
        ),
        stream_pending(*final(s)) == pending_after_item(stream_pending(*old(s))),
{
    s.append(&bigint::H160(value.0));
}

/// `RlpStream::append` of a `bigint::H256`: appends the string of its 32
/// bytes.
#[verifier::external_body]
pub(crate) fn stream_append_hash(s: &mut rlp::RlpStream, value: &H256)
    requires
        accepts_item(stream_bytes(*old(s)), stream_pending(*old(s)), 33),
    ensures
        stream_bytes(*final(s)) == bytes_after_item(
            stream_bytes(*old(s)),
            stream_pending(*old(s)),
            string_item(value@),
        ),
        stream_pending(*final(s)) == pending_after_item(stream_pending(*old(s))),
{
    s.append(&bigint::H256(value.0));
}

/// `RlpStream::append` of a `bigint::U256`: appends the string of its
/// big-endian bytes without leading zeros, which is empty for zero.
#[verifier::external_body]
pub(crate) fn stream_append_uint(s: &mut rlp::RlpStream, value: &U256)
    requires
        accepts_item(stream_bytes(*old(s)), stream_pending(*old(s)), 33),
    ensures
        stream_bytes(*final(s)) == bytes_after_item(
            stream_bytes(*old(s)),
            stream_pending(*old(s)),
            string_item(be_minimal(value@)),
        ),
        stream_pending(*final(s)) == pending_after_item(stream_pending(*old(s))),
{
    s.append(&bigint::U256::from(&value.0[..]));
}

/// `BasicEncoder::encode_value` on the stream's encoder: writes the string
/// `value` and counts no item.
#[verifier::external_body]
pub(crate) fn stream_encode_value(s: &mut rlp::RlpStream, value: &[u8])
    requires
        value@.len() < 0x1_0000_0000,
    ensures
        stream_bytes(*final(s)) == stream_bytes(*old(s)) + string_item(value@),
        stream_pending(*final(s)) == stream_pending(*old(s)),
{
    s.encoder().encode_value(value);
}

/// `RlpStream::out` on a stream without open lists: its bytes.
#[verifier::external_body]
pub(crate) fn stream_out(s: rlp::RlpStream) -> (bytes: Vec<u8>)
    requires
        stream_pending(s).len() == 0,
    ensures
        bytes@ == stream_bytes(s),
{
    s.out()
}

} // verus!
