//! The action of a transaction, its encoding and the address it implies.

use crate::endian::{
    be_fixed, be_minimal, be_value, lemma_be_fixed_of_value, lemma_be_minimal_len,
    lemma_be_value_bound,
};
use crate::error::DecodeError;
use crate::fixed::{Address, H256};
use crate::keccak::{keccak256, keccak256_digest};
use crate::reader::{
    decoder_error_kind, rlp_as_address, rlp_is_empty, rlp_payload_info, rlp_val_at_byte,
    rlp_val_at_hash,
};
use crate::stream::{
    stream_append_address, stream_append_byte, stream_append_hash, stream_append_uint,
    stream_begin_list, stream_bytes, stream_encode_value, stream_new, stream_out,
};
use crate::theorems::{lemma_decode_encode, lemma_view_injective};
use crate::uint::{M256, U256};
use crate::wire::{
    byte_at, fixed_at, fixed_bytes, is_empty_string, item_extent, list_holds, list_item,
    skip_items, string_end_overflows, string_item, string_payload,
};
use vstd::arithmetic::power2::{lemma2_to64_rest, lemma_pow2_strictly_increases, pow2};
use vstd::prelude::*;
use vstd::slice::slice_subrange;

verus! {

/// The byte that opens the list of a `Create2` action.
pub const CREATE2_TAG: u8 = 0xc2;

/// What a transaction does with its target.
#[derive(Clone, Copy, Debug, PartialEq, Eq)]
pub enum TransactionAction {
    /// Calls the account at this address.
    Call(Address),
    /// Deploys code at the address that the sender and its nonce determine.
    Create,
    /// Deploys code at the address that the sender, this salt and this code
    /// hash determine.
    Create2(H256, M256),
}

/// A transaction action as a mathematical value: addresses and salts as
/// byte sequences, the code hash as a number.
pub enum ActionView {
    Call(Seq<u8>),
    Create,
    Create2(Seq<u8>, nat),
}

impl View for TransactionAction {
    type V = ActionView;

    open spec fn view(&self) -> ActionView {
        match *self {
            TransactionAction::Call(address) => ActionView::Call(address@),
            TransactionAction::Create => ActionView::Create,
            TransactionAction::Create2(salt, code_hash) => ActionView::Create2(salt@, code_hash@),
        }
    }
}

impl ActionView {
    /// Whether this is the view of an action: an address has 20 bytes, a
    /// salt 32, and a code hash is below `2^256`.
    pub open spec fn wf(self) -> bool {
        match self {
            ActionView::Call(address) => address.len() == 20,
            ActionView::Create => true,
            ActionView::Create2(salt, code_hash) => salt.len() == 32 && code_hash < pow2(256),
        }
    }

    /// The canonical encoding: a call is the string of its address, a
    /// creation the empty string, a salted creation the list of the tag, the
    /// salt and the 32 bytes of the code hash.
    pub open spec fn encoding(self) -> Seq<u8> {
        match self {
            ActionView::Call(address) => string_item(address),
            ActionView::Create => string_item(Seq::empty()),
            ActionView::Create2(salt, code_hash) => list_item(
                string_item(seq![CREATE2_TAG]) + string_item(salt) + string_item(
                    be_fixed(code_hash, 32),
                ),
            ),
        }
    }

    /// The address that the action targets when `caller` sends it with
    /// `nonce`. A call targets its own address. A creation targets the last
    /// 20 bytes of the hash of `create_preimage`, a salted creation the last
    /// 20 bytes of the hash of `create2_preimage`.
    pub open spec fn derived_address(self, caller: Seq<u8>, nonce: nat) -> Seq<u8> {
        match self {
            ActionView::Call(address) => address,
            ActionView::Create => keccak256(create_preimage(caller, nonce)).subrange(12, 32),
            ActionView::Create2(salt, code_hash) => keccak256(
                create2_preimage(caller, salt, code_hash),
            ).subrange(12, 32),
        }
    }
}

/// What is hashed for a creation: the list of the caller, as a string, and
/// the nonce, as the string of its bytes without leading zeros.
pub open spec fn create_preimage(caller: Seq<u8>, nonce: nat) -> Seq<u8> {
    list_item(string_item(caller) + string_item(be_minimal(nonce)))
}

/// What is hashed for a salted creation: the byte `0xff`, the caller, the
/// salt and the 32 bytes of the code hash, one after the other.
pub open spec fn create2_preimage(caller: Seq<u8>, salt: Seq<u8>, code_hash: nat) -> Seq<u8> {
    seq![0xffu8] + caller + salt + be_fixed(code_hash, 32)
}

/// What `bytes` decodes to. An input that starts with the empty string is
/// a creation. Otherwise, an input whose first list item is the tag is a
/// salted creation, if it is a list of exactly three items and the second and
/// the third are strings of 32 bytes, the salt and the code hash. Any other
/// input is a call if it is a string of 20 bytes, and nothing else is
/// accepted.
pub open spec fn decoded(bytes: Seq<u8>) -> Result<ActionView, DecodeError> {
    if is_empty_string(bytes) {
        Ok(ActionView::Create)
    } else if byte_at(bytes, 0) == Ok::<u8, DecodeError>(CREATE2_TAG) {
        if !list_holds(bytes, 3) {
            Err(DecodeError::RlpIncorrectListLen)
        } else {
            match fixed_at(bytes, 1, 32) {
                Err(e) => Err(e),
                Ok(salt) => match fixed_at(bytes, 2, 32) {
                    Err(e) => Err(e),
                    Ok(code_hash) => Ok(ActionView::Create2(salt, be_value(code_hash))),
                },
            }
        }
    } else {
        match fixed_bytes(bytes, 20) {
            Err(e) => Err(e),
            Ok(address) => Ok(ActionView::Call(address)),
        }
    }
}

/// Whether `bytes` starts with a list that holds exactly `count` items.
fn list_holds_exactly(bytes: &[u8], count: usize) -> (holds: bool)
    ensures
        holds == list_holds(bytes@, count as nat),
{
    if bytes.len() == 0 || bytes[0] < 0xc0 {
        return false;
    }
    let (header, payload) = match rlp_payload_info(bytes) {
        Ok(extent) => extent,
        Err(_) => {
            return false;
        },
    };
    let end: usize = header + payload;
    let mut at: usize = header;
    let mut seen: usize = 0;
    while seen < count
        invariant
            bytes@.len() > 0,
            bytes@[0] >= 0xc0,
            item_extent(bytes@) == Ok::<(nat, nat), DecodeError>((header as nat, payload as nat)),
            end == header + payload,
            header <= at <= end <= bytes@.len(),
            seen <= count,
            skip_items(bytes@.subrange(header as int, end as int), count as nat) == skip_items(
                bytes@.subrange(at as int, end as int),
                (count - seen) as nat,
            ),
        decreases count - seen,
    {
        let rest = slice_subrange(bytes, at, end);
        match rlp_payload_info(rest) {
            Err(_) => {
                assert(skip_items(rest@, (count - seen) as nat) is Err);
                return false;
            },
            Ok((h, p)) => {
                proof {
                    assert(rest@.skip((h + p) as int) =~= bytes@.subrange(
                        at + h + p,
                        end as int,
                    ));
                }
                at = at + h + p;
                seen += 1;
            },
        }
    }
    proof {
        let left = bytes@.subrange(at as int, end as int);
        assert(skip_items(left, 0) == Ok::<Seq<u8>, DecodeError>(left));
        if at == end {
            assert(left =~= Seq::<u8>::empty());
        }
    }
    at == end
}

/// Whether `bytes` starts with a long string header, with a well-formed
/// length, that declares more bytes than follow it.
fn long_string_is_cut(bytes: &[u8]) -> (cut: bool)
    ensures
        cut ==> string_payload(bytes@) == Err::<Seq<u8>, DecodeError>(
            DecodeError::RlpInconsistentLengthAndData,
        ),
        !cut ==> !string_end_overflows(bytes@),
{
    if bytes.len() == 0 {
        return false;
    }
    let first = bytes[0];
    if first < 0xb8 || first >= 0xc0 {
        return false;
    }
    let width: usize = (first - 0xb7) as usize;
    if bytes.len() < 1 + width || width > (usize::BITS / 8) as usize || bytes[1] == 0 {
        return false;
    }
    let ghost field = bytes@.subrange(1, 1 + width);
    let mut length: u64 = 0;
    let mut i: usize = 0;
    proof {
        assert(field.subrange(0, 0) =~= Seq::<u8>::empty());
    }
    while i < width
        invariant
            i <= width <= 8,
            bytes@.len() >= 1 + width,
            field == bytes@.subrange(1, 1 + width),
            length == be_value(field.subrange(0, i as int)),
        decreases width - i,
    {
        proof {
            let before = field.subrange(0, i as int);
            let after = field.subrange(0, i + 1);
            assert(after.drop_last() =~= before);
            assert(after.last() == bytes@[1 + i]);
            lemma_be_value_bound(after);
            if 8 * after.len() < 64 {
                lemma_pow2_strictly_increases(8 * after.len(), 64);
            }
            lemma2_to64_rest();
        }
        length = length * 256 + bytes[1 + i] as u64;
        i += 1;
    }
    proof {
        assert(field.subrange(0, width as int) =~= field);
    }
    let room: u64 = (bytes.len() - 1 - width) as u64;
    length > room
}

/// Whether `bytes` is a list whose first item reads as the tag.
fn first_item_is_tag(bytes: &[u8]) -> (tagged: bool)
    ensures
        tagged == (byte_at(bytes@, 0) == Ok::<u8, DecodeError>(CREATE2_TAG)),
{
    match rlp_val_at_byte(bytes, 0) {
        Ok(tag) => tag == CREATE2_TAG,
        Err(_) => false,
    }
}

/// The address that `bytes` holds as a string of 20 bytes.
fn address_item(bytes: &[u8]) -> (r: Result<Address, DecodeError>)
    ensures
        match r {
            Ok(address) => fixed_bytes(bytes@, 20) == Ok::<Seq<u8>, DecodeError>(address@),
            Err(e) => fixed_bytes(bytes@, 20) == Err::<Seq<u8>, DecodeError>(e),
        },
{
    if long_string_is_cut(bytes) {
        Err(DecodeError::RlpInconsistentLengthAndData)
    } else {
        match rlp_as_address(bytes) {
            Ok(address) => Ok(address),
            Err(e) => Err(decoder_error_kind(e)),
        }
    }
}

/// The low 160 bits of a hash, as an address.
fn address_of_hash(hash: [u8; 32]) -> (address: Address)
    ensures
        address@ == hash@.subrange(12, 32),
{
    proof {
        lemma_be_fixed_of_value(hash@);
    }
    Address::from_m256(M256(U256(hash)))
}

impl TransactionAction {
    /// The canonical encoding of this action, which `decode` reads back.
    pub fn encode(&self) -> (bytes: Vec<u8>)
        ensures
            bytes@ == self@.encoding(),
            decoded(bytes@) == Ok::<ActionView, DecodeError>(self@),
    {
        proof {
            lemma_decode_encode(*self);
        }
        let mut s = stream_new();
        match *self {
            TransactionAction::Call(address) => {
                stream_encode_value(&mut s, address.0.as_slice());
            },
            TransactionAction::Create => {
                let nothing: Vec<u8> = Vec::new();
                stream_encode_value(&mut s, nothing.as_slice());
            },
            TransactionAction::Create2(salt, code_hash) => {
                let hash_bytes = H256::from_m256(code_hash);
                stream_begin_list(&mut s, 3);
                stream_append_byte(&mut s, CREATE2_TAG);
                stream_append_hash(&mut s, &salt);
                stream_append_hash(&mut s, &hash_bytes);
                proof {
                    let items = string_item(seq![CREATE2_TAG]) + string_item(salt@) + string_item(
                        hash_bytes@,
                    );
                    let written = seq![0u8] + items;
                    assert(written.subrange(1, written.len() as int) =~= items);
                    assert(written.subrange(0, 0) + list_item(items) =~= list_item(items));
                    assert(stream_bytes(s) =~= list_item(items));
                }
            },
        }
        stream_out(s)
    }

    /// Reads an action from its encoding, or says why `bytes` is none. What
    /// `encode` wrote is read back as the action it was written from.
    pub fn decode(bytes: &[u8]) -> (r: Result<TransactionAction, DecodeError>)
        ensures
            match r {
                Ok(action) => decoded(bytes@) == Ok::<ActionView, DecodeError>(action@),
                Err(e) => decoded(bytes@) == Err::<ActionView, DecodeError>(e),
            },
            forall|action: TransactionAction| #[trigger]
                action@.encoding() == bytes@ ==> r == Ok::<TransactionAction, DecodeError>(action),
    {
        let r = if rlp_is_empty(bytes) && bytes[0] == 0x80 {
            Ok(TransactionAction::Create)
        } else if first_item_is_tag(bytes) {
            if !list_holds_exactly(bytes, 3) {
                Err(DecodeError::RlpIncorrectListLen)
            } else {
                match rlp_val_at_hash(bytes, 1) {
                    Err(e) => Err(decoder_error_kind(e)),
                    Ok(salt) => match rlp_val_at_hash(bytes, 2) {
                        Err(e) => Err(decoder_error_kind(e)),
                        Ok(code_hash) => Ok(
                            TransactionAction::Create2(salt, M256::from_h256(code_hash)),
                        ),
                    },
                }
            }
        } else {
            match address_item(bytes) {
                Ok(address) => Ok(TransactionAction::Call(address)),
                Err(e) => Err(e),
            }
        };
        proof {
            assert forall|action: TransactionAction| #[trigger]
                action@.encoding() == bytes@ implies r == Ok::<TransactionAction, DecodeError>(
                action,
            ) by {
                lemma_decode_encode(action);
                lemma_view_injective(r->Ok_0, action);
            }
        }
        r
    }

    /// The address that this action targets when `caller` sends it with
    /// `nonce`.
    pub fn address(&self, caller: Address, nonce: U256) -> (derived: Address)
        ensures
            derived@ == self@.derived_address(caller@, nonce@),
    {
        match *self {
            TransactionAction::Call(address) => address,
            TransactionAction::Create => {
                let mut s = stream_new();
                stream_begin_list(&mut s, 2);
                stream_append_address(&mut s, &caller);
                proof {
                    lemma_be_minimal_len(nonce.0@);
                }
                stream_append_uint(&mut s, &nonce);
                let encoded = stream_out(s);
                proof {
                    let items = string_item(caller@) + string_item(be_minimal(nonce@));
                    let written = seq![0u8] + items;
                    assert(written.subrange(1, written.len() as int) =~= items);
                    assert(written.subrange(0, 0) + list_item(items) =~= list_item(items));
                    assert(encoded@ =~= list_item(items));
                }
                address_of_hash(keccak256_digest(encoded.as_slice()))
            },
            TransactionAction::Create2(salt, code_hash) => {
                let hash_bytes = H256::from_m256(code_hash);
                let mut data: Vec<u8> = Vec::new();
                data.push(0xff);
                data.extend_from_slice(caller.0.as_slice());
                data.extend_from_slice(salt.0.as_slice());
                data.extend_from_slice(hash_bytes.0.as_slice());
                proof {
                    assert(data@ =~= seq![0xffu8] + caller@ + salt@ + be_fixed(code_hash@, 32));
                }
                address_of_hash(keccak256_digest(data.as_slice()))
            },
        }
    }
}

} // verus!
