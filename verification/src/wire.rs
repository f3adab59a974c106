//! The length-prefixed format of byte strings and lists, as a model over
//! sequences of bytes.
//!
//! An item is either a byte string or a list of items. Its first byte tells
//! which, and how long:
//!
//! | first byte    | item                                                      |
//! |---------------|-----------------------------------------------------------|
//! | `0x00..=0x7f` | the one-byte string holding that byte                     |
//! | `0x80..=0xb7` | a string of `first - 0x80` bytes                          |
//! | `0xb8..=0xbf` | a string whose length fills the next `first - 0xb7` bytes |
//! | `0xc0..=0xf7` | a list whose items fill `first - 0xc0` bytes              |
//! | `0xf8..=0xff` | a list whose length fills the next `first - 0xf7` bytes   |

use crate::endian::{be_minimal, be_value};
use crate::error::DecodeError;
use vstd::prelude::*;

verus! {

/// The encoding of the byte string `payload`.
pub open spec fn string_item(payload: Seq<u8>) -> Seq<u8> {
    if payload.len() == 1 && payload[0] < 0x80 {
        payload
    } else if payload.len() <= 55 {
        seq![(0x80 + payload.len()) as u8] + payload
    } else {
        let width = be_minimal(payload.len());
        seq![(0xb7 + width.len()) as u8] + width + payload
    }
}

/// The encoding of the list whose encoded items, joined, are `payload`.
pub open spec fn list_item(payload: Seq<u8>) -> Seq<u8> {
    if payload.len() <= 55 {
        seq![(0xc0 + payload.len()) as u8] + payload
    } else {
        let width = be_minimal(payload.len());
        seq![(0xf7 + width.len()) as u8] + width + payload
    }
}

/// Whether `bytes` starts with the empty string or the empty list.
pub open spec fn is_empty_item(bytes: Seq<u8>) -> bool {
    bytes.len() > 0 && (bytes[0] == 0xc0 || bytes[0] == 0x80)
}

/// Whether `bytes` starts with the empty string.
pub open spec fn is_empty_string(bytes: Seq<u8>) -> bool {
    bytes.len() > 0 && bytes[0] == 0x80
}

/// The length that the bytes of a long header spell out. It must fit in a
/// machine word and must not start with a zero byte.
pub open spec fn length_field(field: Seq<u8>) -> Result<nat, DecodeError>
    recommends
        field.len() > 0,
{
    if field.len() > usize::BITS / 8 {
        Err(DecodeError::RlpIsTooBig)
    } else if field[0] == 0 {
        Err(DecodeError::RlpInvalidIndirection)
    } else {
        Ok(be_value(field))
    }
}

/// Header length and payload length of an item whose length is spelled out
/// in the `width` bytes after the first.
pub open spec fn long_header(bytes: Seq<u8>, width: int) -> Result<(nat, nat), DecodeError>
    recommends
        1 <= width <= 8,
{
    if bytes.len() < 2 {
        Err(DecodeError::RlpIsTooShort)
    } else if bytes[1] == 0 {
        Err(DecodeError::RlpDataLenWithZeroPrefix)
    } else if bytes.len() < 1 + width {
        Err(DecodeError::RlpIsTooShort)
    } else {
        match length_field(bytes.subrange(1, 1 + width)) {
            Ok(length) => Ok(((1 + width) as nat, length)),
            Err(e) => Err(e),
        }
    }
}

/// Header length and payload length of the item that `bytes` starts with,
/// provided `bytes` holds all of it.
pub open spec fn item_extent(bytes: Seq<u8>) -> Result<(nat, nat), DecodeError> {
    let declared = if bytes.len() == 0 {
        Err(DecodeError::RlpIsTooShort)
    } else if bytes[0] < 0x80 {
        Ok((0nat, 1nat))
    } else if bytes[0] < 0xb8 {
        Ok((1nat, (bytes[0] - 0x80) as nat))
    } else if bytes[0] < 0xc0 {
        long_header(bytes, bytes[0] - 0xb7)
    } else if bytes[0] < 0xf8 {
        Ok((1nat, (bytes[0] - 0xc0) as nat))
    } else {
        long_header(bytes, bytes[0] - 0xf7)
    };
    match declared {
        Ok((header, payload)) => if header + payload <= bytes.len() {
            declared
        } else {
            Err(DecodeError::RlpIsTooShort)
        },
        Err(e) => declared,
    }
}

/// What is left of `bytes` after `count` whole items.
pub open spec fn skip_items(bytes: Seq<u8>, count: nat) -> Result<Seq<u8>, DecodeError>
    decreases count,
{
    if count == 0 {
        Ok(bytes)
    } else {
        match item_extent(bytes) {
            Ok((header, payload)) => skip_items(
                bytes.skip((header + payload) as int),
                (count - 1) as nat,
            ),
            Err(e) => Err(e),
        }
    }
}

/// The item at position `index` of the list that `bytes` starts with: its
/// header and payload. The items are read from what follows the list's
/// header, one after the other.
pub open spec fn item_at(bytes: Seq<u8>, index: nat) -> Result<Seq<u8>, DecodeError> {
    if bytes.len() == 0 || bytes[0] < 0xc0 {
        Err(DecodeError::RlpExpectedToBeList)
    } else {
        match item_extent(bytes) {
            Err(e) => Err(e),
            Ok((header, _)) => match skip_items(bytes.skip(header as int), index) {
                Err(e) => Err(e),
                Ok(rest) => match item_extent(rest) {
                    Err(e) => Err(e),
                    Ok((h, p)) => Ok(rest.take((h + p) as int)),
                },
            },
        }
    }
}

/// Whether `bytes` starts with a list that holds exactly `count` items: the
/// payload that its header declares is `count` whole items and not a byte
/// more.
pub open spec fn list_holds(bytes: Seq<u8>, count: nat) -> bool {
    &&& bytes.len() > 0
    &&& bytes[0] >= 0xc0
    &&& match item_extent(bytes) {
        Ok((header, payload)) => skip_items(
            bytes.subrange(header as int, (header + payload) as int),
            count,
        ) == Ok::<Seq<u8>, DecodeError>(Seq::empty()),
        Err(_) => false,
    }
}

/// The payload of the byte string that `bytes` starts with.
pub open spec fn string_payload(bytes: Seq<u8>) -> Result<Seq<u8>, DecodeError> {
    if bytes.len() == 0 {
        Err(DecodeError::RlpIsTooShort)
    } else if bytes[0] < 0x80 {
        Ok(bytes.take(1))
    } else if bytes[0] < 0xb8 {
        let end = 1 + (bytes[0] - 0x80);
        if bytes.len() < end {
            Err(DecodeError::RlpInconsistentLengthAndData)
        } else if bytes[0] == 0x81 && bytes[1] < 0x80 {
            Err(DecodeError::RlpInvalidIndirection)
        } else {
            Ok(bytes.subrange(1, end))
        }
    } else if bytes[0] < 0xc0 {
        let start = 1 + (bytes[0] - 0xb7);
        if bytes.len() < start {
            Err(DecodeError::RlpInconsistentLengthAndData)
        } else {
            match length_field(bytes.subrange(1, start)) {
                Err(e) => Err(e),
                Ok(length) => if bytes.len() < start + length {
                    Err(DecodeError::RlpInconsistentLengthAndData)
                } else {
                    Ok(bytes.subrange(start, start + length))
                },
            }
        }
    } else {
        Err(DecodeError::RlpExpectedToBeData)
    }
}

/// The byte that the string at the start of `bytes` stands for: the empty
/// string is zero, a one-byte string is its byte unless that is zero.
pub open spec fn byte_value(bytes: Seq<u8>) -> Result<u8, DecodeError> {
    match string_payload(bytes) {
        Err(e) => Err(e),
        Ok(payload) => if payload.len() == 0 {
            Ok(0u8)
        } else if payload.len() > 1 {
            Err(DecodeError::RlpIsTooBig)
        } else if payload[0] == 0 {
            Err(DecodeError::RlpInvalidIndirection)
        } else {
            Ok(payload[0])
        },
    }
}

/// The payload of the string at the start of `bytes`, which must be
/// `width` bytes long.
pub open spec fn fixed_bytes(bytes: Seq<u8>, width: nat) -> Result<Seq<u8>, DecodeError> {
    match string_payload(bytes) {
        Err(e) => Err(e),
        Ok(payload) => if payload.len() < width {
            Err(DecodeError::RlpIsTooShort)
        } else if payload.len() > width {
            Err(DecodeError::RlpIsTooBig)
        } else {
            Ok(payload)
        },
    }
}

/// The byte that item `index` of the list in `bytes` stands for.
pub open spec fn byte_at(bytes: Seq<u8>, index: nat) -> Result<u8, DecodeError> {
    match item_at(bytes, index) {
        Err(e) => Err(e),
        Ok(item) => byte_value(item),
    }
}

/// The `width` bytes that item `index` of the list in `bytes` holds.
pub open spec fn fixed_at(bytes: Seq<u8>, index: nat, width: nat) -> Result<
    Seq<u8>,
    DecodeError,
> {
    match item_at(bytes, index) {
        Err(e) => Err(e),
        Ok(item) => fixed_bytes(item, width),
    }
}

/// Whether `bytes` starts with a long string header that declares an end
/// beyond what a machine word can count.
pub open spec fn string_end_overflows(bytes: Seq<u8>) -> bool {
    &&& bytes.len() > 0
    &&& 0xb8 <= bytes[0] < 0xc0
    &&& bytes.len() >= 1 + (bytes[0] - 0xb7)
    &&& match length_field(bytes.subrange(1, 1 + (bytes[0] - 0xb7))) {
        Ok(length) => 1 + (bytes[0] - 0xb7) + length > usize::MAX,
        Err(_) => false,
    }
}

} // verus!
