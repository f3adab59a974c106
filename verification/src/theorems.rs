//! What holds of encoding, decoding and address derivation together.

use crate::endian::{
    be_fixed, be_minimal, lemma_be_fixed_len, lemma_be_minimal_len, lemma_be_value_of_fixed,
    lemma_be_value_of_minimal, lemma_be_value_single,
};
use crate::error::DecodeError;
use crate::fixed::{lemma_address_ext, lemma_h256_ext, Address, H256};
use crate::transaction::{
    create2_preimage, create_preimage, decoded, ActionView, TransactionAction, CREATE2_TAG,
};
use crate::uint::{lemma_u256_bound, lemma_u256_ext, M256, U256};
use crate::wire::{
    byte_at, byte_value, fixed_at, fixed_bytes, is_empty_string, item_at, item_extent,
    list_holds, list_item, skip_items, string_item, string_payload,
};
use vstd::prelude::*;

verus! {

/// A string of at most 55 bytes that is not a single byte below `0x80`, at
/// the front of any input: the decoder finds its one-byte header and its
/// payload, and what follows it starts right behind the payload.
proof fn lemma_short_string_front(payload: Seq<u8>, rest: Seq<u8>)
    requires
        payload.len() <= 55,
        !(payload.len() == 1 && payload[0] < 0x80),
    ensures
        string_item(payload).len() == 1 + payload.len(),
        item_extent(string_item(payload) + rest) == Ok::<(nat, nat), DecodeError>(
            (1nat, payload.len()),
        ),
        (string_item(payload) + rest).take(1 + payload.len() as int) == string_item(payload),
        (string_item(payload) + rest).skip(1 + payload.len() as int) == rest,
        string_payload(string_item(payload)) == Ok::<Seq<u8>, DecodeError>(payload),
{
    let item = string_item(payload);
    let all = item + rest;
    assert(item =~= seq![(0x80 + payload.len()) as u8] + payload);
    assert(all[0] == 0x80 + payload.len());
    assert(all.take(1 + payload.len() as int) =~= item);
    assert(all.skip(1 + payload.len() as int) =~= rest);
    assert(item.subrange(1, 1 + payload.len() as int) =~= payload);
    if payload.len() == 1 {
        assert(item[1] == payload[0]);
    }
}

/// The encoding of a salted creation, byte by byte: the two bytes of the
/// list's header, then the items of tag, salt and code hash.
proof fn lemma_create2_encoding(salt: Seq<u8>, code_hash: nat)
    requires
        salt.len() == 32,
    ensures
        ActionView::Create2(salt, code_hash).encoding() == seq![0xf8u8, 0x44u8] + (string_item(
            seq![CREATE2_TAG],
        ) + string_item(salt) + string_item(be_fixed(code_hash, 32))),
        ActionView::Create2(salt, code_hash).encoding().len() == 70,
{
    let hash_bytes = be_fixed(code_hash, 32);
    lemma_be_fixed_len(code_hash, 32);
    let items = string_item(seq![CREATE2_TAG]) + string_item(salt) + string_item(hash_bytes);
    lemma_short_string_front(seq![CREATE2_TAG], Seq::empty());
    lemma_short_string_front(salt, Seq::empty());
    lemma_short_string_front(hash_bytes, Seq::empty());
    assert(items.len() == 68);
    assert(be_minimal(0) =~= Seq::<u8>::empty());
    assert(be_minimal(68) =~= seq![0x44u8]) by {
        assert(68nat / 256 == 0 && 68nat % 256 == 68);
        assert(be_minimal(68) == be_minimal(0).push(68u8));
    }
    assert(list_item(items) =~= seq![0xf8u8, 0x44u8] + items);
}

/// The three items of an encoded salted creation, as the decoder finds
/// them, and the want of a fourth.
proof fn lemma_create2_items(salt: Seq<u8>, code_hash: nat)
    requires
        salt.len() == 32,
    ensures
        ({
            let bytes = ActionView::Create2(salt, code_hash).encoding();
            &&& bytes.len() == 70
            &&& bytes[0] == 0xf8
            &&& byte_at(bytes, 0) == Ok::<u8, DecodeError>(CREATE2_TAG)
            &&& fixed_at(bytes, 1, 32) == Ok::<Seq<u8>, DecodeError>(salt)
            &&& fixed_at(bytes, 2, 32) == Ok::<Seq<u8>, DecodeError>(be_fixed(code_hash, 32))
            &&& list_holds(bytes, 3)
        }),
{
    let bytes = ActionView::Create2(salt, code_hash).encoding();
    let hash_bytes = be_fixed(code_hash, 32);
    let tag_item = string_item(seq![CREATE2_TAG]);
    let salt_item = string_item(salt);
    let hash_item = string_item(hash_bytes);
    let items = tag_item + salt_item + hash_item;
    let after_tag = salt_item + hash_item;
    let nothing = Seq::<u8>::empty();
    lemma_be_fixed_len(code_hash, 32);
    lemma_create2_encoding(salt, code_hash);
    lemma_be_value_single(0x44u8);
    // the header of the list
    assert(bytes[0] == 0xf8 && bytes[1] == 0x44);
    assert(bytes.subrange(1, 2) =~= seq![0x44u8]);
    assert(item_extent(bytes) == Ok::<(nat, nat), DecodeError>((2nat, 68nat)));
    assert(bytes.skip(2) =~= items);
    // the items, one after the other
    lemma_short_string_front(seq![CREATE2_TAG], after_tag);
    lemma_short_string_front(salt, hash_item);
    lemma_short_string_front(hash_bytes, nothing);
    assert(items =~= tag_item + after_tag);
    assert(hash_item + nothing =~= hash_item);
    assert(skip_items(items, 0) == Ok::<Seq<u8>, DecodeError>(items));
    assert(skip_items(after_tag, 0) == Ok::<Seq<u8>, DecodeError>(after_tag));
    assert(skip_items(hash_item, 0) == Ok::<Seq<u8>, DecodeError>(hash_item));
    assert(skip_items(nothing, 0) == Ok::<Seq<u8>, DecodeError>(nothing));
    assert(skip_items(hash_item, 1) == Ok::<Seq<u8>, DecodeError>(nothing));
    assert(skip_items(items, 1) == Ok::<Seq<u8>, DecodeError>(after_tag));
    assert(skip_items(after_tag, 1) == Ok::<Seq<u8>, DecodeError>(hash_item));
    assert(skip_items(after_tag, 2) == Ok::<Seq<u8>, DecodeError>(nothing));
    assert(skip_items(items, 2) == Ok::<Seq<u8>, DecodeError>(hash_item));
    assert(skip_items(items, 3) == Ok::<Seq<u8>, DecodeError>(nothing));
    assert(bytes.subrange(2, 70) =~= items);
    assert(item_at(bytes, 0) == Ok::<Seq<u8>, DecodeError>(tag_item));
    assert(item_at(bytes, 1) == Ok::<Seq<u8>, DecodeError>(salt_item));
    assert(item_at(bytes, 2) == Ok::<Seq<u8>, DecodeError>(hash_item));
    assert(byte_value(tag_item) == Ok::<u8, DecodeError>(CREATE2_TAG));
    assert(fixed_bytes(salt_item, 32) == Ok::<Seq<u8>, DecodeError>(salt));
    assert(fixed_bytes(hash_item, 32) == Ok::<Seq<u8>, DecodeError>(hash_bytes));
}

/// Decoding the encoding of an action gives the action back.
pub proof fn lemma_decode_encoding(action: ActionView)
    requires
        action.wf(),
    ensures
        decoded(action.encoding()) == Ok::<ActionView, DecodeError>(action),
{
    let bytes = action.encoding();
    match action {
        ActionView::Create => {
            assert(bytes =~= seq![0x80u8]);
        },
        ActionView::Call(address) => {
            lemma_short_string_front(address, Seq::empty());
            assert(bytes + Seq::<u8>::empty() =~= bytes);
            assert(bytes[0] == 0x94);
        },
        ActionView::Create2(salt, code_hash) => {
            lemma_create2_items(salt, code_hash);
            lemma_be_value_of_fixed(code_hash, 32);
        },
    }
}

/// The view of every action is well formed.
pub proof fn lemma_view_wf(action: TransactionAction)
    ensures
        action@.wf(),
{
    match action {
        TransactionAction::Call(address) => {},
        TransactionAction::Create => {},
        TransactionAction::Create2(salt, code_hash) => {
            lemma_u256_bound(code_hash.0);
        },
    }
}

/// Two actions with the same view are the same action.
pub proof fn lemma_view_injective(a: TransactionAction, b: TransactionAction)
    requires
        a@ == b@,
    ensures
        a == b,
{
    match (a, b) {
        (TransactionAction::Call(x), TransactionAction::Call(y)) => {
            lemma_address_ext(x, y);
        },
        (TransactionAction::Create2(s, g), TransactionAction::Create2(t, h)) => {
            lemma_h256_ext(s, t);
            lemma_u256_ext(g.0, h.0);
        },
        _ => {},
    }
}

/// Round trip: the encoding of an action decodes to that action.
pub proof fn lemma_decode_encode(action: TransactionAction)
    ensures
        decoded(action@.encoding()) == Ok::<ActionView, DecodeError>(action@),
{
    lemma_view_wf(action);
    lemma_decode_encoding(action@);
}

/// The shape of each encoding. A call is the byte `0x94` and the 20 bytes of
/// the address. A creation is the single byte `0x80`. A salted creation is a
/// list of 70 bytes that holds exactly three items, the first of which is the
/// tag. So the first byte tells the three apart, and only a salted creation
/// is a list.
pub proof fn lemma_encoding_shape(action: ActionView)
    requires
        action.wf(),
    ensures
        match action {
            ActionView::Call(address) => action.encoding() == seq![0x94u8] + address,
            ActionView::Create => action.encoding() == seq![0x80u8],
            ActionView::Create2(salt, code_hash) => {
                &&& action.encoding().len() == 70
                &&& action.encoding()[0] == 0xf8
                &&& byte_at(action.encoding(), 0) == Ok::<u8, DecodeError>(CREATE2_TAG)
                &&& list_holds(action.encoding(), 3)
            },
        },
{
    let bytes = action.encoding();
    match action {
        ActionView::Create => {
            assert(bytes =~= seq![0x80u8]);
        },
        ActionView::Call(address) => {
            assert(bytes =~= seq![0x94u8] + address);
        },
        ActionView::Create2(salt, code_hash) => {
            lemma_create2_items(salt, code_hash);
        },
    }
}

/// No two actions share an encoding.
pub proof fn lemma_encoding_injective(a: ActionView, b: ActionView)
    requires
        a.wf(),
        b.wf(),
        a.encoding() == b.encoding(),
    ensures
        a == b,
{
    lemma_decode_encoding(a);
    lemma_decode_encoding(b);
}

/// A call targets its own address, whoever sends it and with whatever nonce.
pub proof fn lemma_call_targets_its_address(address: Seq<u8>, caller: Seq<u8>, nonce: nat)
    ensures
        ActionView::Call(address).derived_address(caller, nonce) == address,
{
}

/// The derived address is a function of action, caller and nonce: two
/// addresses that one action yields for one caller and one nonce are equal.
pub proof fn lemma_address_is_determined(
    action: TransactionAction,
    caller: Address,
    nonce: U256,
    first: Address,
    second: Address,
)
    requires
        first@ == action@.derived_address(caller@, nonce@),
        second@ == action@.derived_address(caller@, nonce@),
    ensures
        first == second,
{
    lemma_address_ext(first, second);
}

/// The target of a salted creation does not depend on the nonce.
pub proof fn lemma_create2_ignores_nonce(
    salt: Seq<u8>,
    code_hash: nat,
    caller: Seq<u8>,
    nonce: nat,
    other_nonce: nat,
)
    ensures
        ActionView::Create2(salt, code_hash).derived_address(caller, nonce) == ActionView::Create2(
            salt,
            code_hash,
        ).derived_address(caller, other_nonce),
{
}

/// Skipping items in two steps is skipping them in one.
proof fn lemma_skip_items_twice(bytes: Seq<u8>, first: nat, second: nat)
    ensures
        skip_items(bytes, first + second) == match skip_items(bytes, first) {
            Ok(rest) => skip_items(rest, second),
            Err(e) => Err(e),
        },
    decreases first,
{
    if first > 0 {
        match item_extent(bytes) {
            Ok((header, payload)) => {
                lemma_skip_items_twice(
                    bytes.skip((header + payload) as int),
                    (first - 1) as nat,
                    second,
                );
            },
            Err(_) => {},
        }
    }
}

/// A list holds exactly one number of items.
pub proof fn lemma_list_holds_one_count(bytes: Seq<u8>, count: nat, other: nat)
    requires
        list_holds(bytes, count),
        list_holds(bytes, other),
    ensures
        count == other,
{
    let extent = item_extent(bytes)->Ok_0;
    let payload = bytes.subrange(extent.0 as int, (extent.0 + extent.1) as int);
    let nothing = Seq::<u8>::empty();
    assert(item_extent(nothing) is Err);
    if count < other {
        lemma_skip_items_twice(payload, count, (other - count) as nat);
        assert(skip_items(nothing, (other - count) as nat) is Err);
    } else if other < count {
        lemma_skip_items_twice(payload, other, (count - other) as nat);
        assert(skip_items(nothing, (count - other) as nat) is Err);
    }
}

/// A list that carries the tag as its first item and holds another number
/// of items than three is rejected, whether it holds fewer or more.
pub proof fn lemma_rejects_other_list_length(bytes: Seq<u8>, count: nat)
    requires
        byte_at(bytes, 0) == Ok::<u8, DecodeError>(CREATE2_TAG),
        list_holds(bytes, count),
        count != 3,
    ensures
        decoded(bytes) == Err::<ActionView, DecodeError>(DecodeError::RlpIncorrectListLen),
{
    if list_holds(bytes, 3) {
        lemma_list_holds_one_count(bytes, count, 3);
    }
}

/// An input that carries the tag as its first item is rejected unless the
/// payload that its header declares is three whole items: so where an item
/// is cut, where bytes are left over, and where the header declares another
/// length than the items have.
pub proof fn lemma_rejects_inexact_list(bytes: Seq<u8>)
    requires
        byte_at(bytes, 0) == Ok::<u8, DecodeError>(CREATE2_TAG),
        !list_holds(bytes, 3),
    ensures
        decoded(bytes) == Err::<ActionView, DecodeError>(DecodeError::RlpIncorrectListLen),
{
}

/// A list of three items that carries the tag is rejected if its second or
/// its third item is a string of another length than 32: as too short if the
/// first such string is shorter, as too big if it is longer.
pub proof fn lemma_rejects_field_width(bytes: Seq<u8>, index: nat, item: Seq<u8>, field: Seq<u8>)
    requires
        byte_at(bytes, 0) == Ok::<u8, DecodeError>(CREATE2_TAG),
        list_holds(bytes, 3),
        index == 1 || index == 2,
        item_at(bytes, index) == Ok::<Seq<u8>, DecodeError>(item),
        string_payload(item) == Ok::<Seq<u8>, DecodeError>(field),
        field.len() != 32,
    ensures
        decoded(bytes) is Err,
        index == 1 || fixed_at(bytes, 1, 32) is Ok ==> decoded(bytes) == Err::<
            ActionView,
            DecodeError,
        >(
            if field.len() < 32 {
                DecodeError::RlpIsTooShort
            } else {
                DecodeError::RlpIsTooBig
            },
        ),
{
}

/// The inputs that are accepted, and no others: the empty string, a string
/// of 20 bytes, and a list of exactly three items that are the tag and two
/// strings of 32 bytes.
pub proof fn lemma_accepted_inputs(bytes: Seq<u8>)
    ensures
        decoded(bytes) is Ok <==> {
            ||| is_empty_string(bytes)
            ||| fixed_bytes(bytes, 20) is Ok
            ||| {
                &&& byte_at(bytes, 0) == Ok::<u8, DecodeError>(CREATE2_TAG)
                &&& list_holds(bytes, 3)
                &&& fixed_at(bytes, 1, 32) is Ok
                &&& fixed_at(bytes, 2, 32) is Ok
            }
        },
{
    if fixed_bytes(bytes, 20) is Ok {
        let payload = string_payload(bytes)->Ok_0;
        assert(bytes[0] < 0xc0);
        assert(bytes[0] != 0x80) by {
            if bytes[0] == 0x80 {
                assert(payload =~= Seq::<u8>::empty());
            }
        }
    }
    if byte_at(bytes, 0) is Ok {
        assert(bytes[0] >= 0xc0);
    }
}

/// An input that is a string of neither 0 nor 20 bytes is rejected: as too
/// short below 20 bytes, as too big above.
pub proof fn lemma_rejects_call_width(bytes: Seq<u8>, payload: Seq<u8>)
    requires
        string_payload(bytes) == Ok::<Seq<u8>, DecodeError>(payload),
        payload.len() != 0,
        payload.len() != 20,
    ensures
        decoded(bytes) == Err::<ActionView, DecodeError>(
            if payload.len() < 20 {
                DecodeError::RlpIsTooShort
            } else {
                DecodeError::RlpIsTooBig
            },
        ),
{
    assert(bytes[0] != 0x80) by {
        if bytes[0] == 0x80 {
            assert(payload =~= Seq::<u8>::empty());
        }
    }
}

/// Two strings of at most 55 bytes with the same encoding are equal.
proof fn lemma_string_item_injective(p: Seq<u8>, q: Seq<u8>)
    requires
        p.len() <= 55,
        q.len() <= 55,
        string_item(p) == string_item(q),
    ensures
        p == q,
{
    let low_p = p.len() == 1 && p[0] < 0x80;
    let low_q = q.len() == 1 && q[0] < 0x80;
    if low_p && low_q {
    } else if low_p {
        assert(string_item(q)[0] == 0x80 + q.len());
    } else if low_q {
        assert(string_item(p)[0] == 0x80 + p.len());
    } else {
        assert(string_item(p).skip(1) =~= p);
        assert(string_item(q).skip(1) =~= q);
    }
}

/// What is hashed for a creation tells caller and nonce: two creations
/// that hash the same bytes have the same caller and the same nonce. So two
/// of them can only share an address where the hash function collides on
/// their last 20 bytes.
pub proof fn lemma_create_preimage_injective(
    caller: Address,
    nonce: U256,
    other_caller: Address,
    other_nonce: U256,
)
    requires
        create_preimage(caller@, nonce@) == create_preimage(other_caller@, other_nonce@),
    ensures
        caller == other_caller,
        nonce == other_nonce,
{
    let n = be_minimal(nonce@);
    let m = be_minimal(other_nonce@);
    lemma_be_minimal_len(nonce.0@);
    lemma_be_minimal_len(other_nonce.0@);
    let a = string_item(caller@) + string_item(n);
    let b = string_item(other_caller@) + string_item(m);
    assert(string_item(caller@) =~= seq![0x94u8] + caller@);
    assert(string_item(other_caller@) =~= seq![0x94u8] + other_caller@);
    assert(list_item(a).skip(1) =~= a);
    assert(list_item(b).skip(1) =~= b);
    assert(a.subrange(1, 21) =~= caller@);
    assert(b.subrange(1, 21) =~= other_caller@);
    assert(a.skip(21) =~= string_item(n));
    assert(b.skip(21) =~= string_item(m));
    lemma_string_item_injective(n, m);
    lemma_be_value_of_minimal(nonce@);
    lemma_be_value_of_minimal(other_nonce@);
    lemma_address_ext(caller, other_caller);
    lemma_u256_ext(nonce, other_nonce);
}

/// What is hashed for a salted creation tells caller, salt and code hash:
/// two salted creations that hash the same bytes agree in all three. So two
/// of them can only share an address where the hash function collides on
/// their last 20 bytes.
pub proof fn lemma_create2_preimage_injective(
    caller: Address,
    salt: H256,
    code_hash: M256,
    other_caller: Address,
    other_salt: H256,
    other_code_hash: M256,
)
    requires
        create2_preimage(caller@, salt@, code_hash@) == create2_preimage(
            other_caller@,
            other_salt@,
            other_code_hash@,
        ),
    ensures
        caller == other_caller,
        salt == other_salt,
        code_hash == other_code_hash,
{
    let a = create2_preimage(caller@, salt@, code_hash@);
    let b = create2_preimage(other_caller@, other_salt@, other_code_hash@);
    lemma_be_fixed_len(code_hash@, 32);
    lemma_be_fixed_len(other_code_hash@, 32);
    assert(a.subrange(1, 21) =~= caller@);
    assert(b.subrange(1, 21) =~= other_caller@);
    assert(a.subrange(21, 53) =~= salt@);
    assert(b.subrange(21, 53) =~= other_salt@);
    assert(a.subrange(53, 85) =~= be_fixed(code_hash@, 32));
    assert(b.subrange(53, 85) =~= be_fixed(other_code_hash@, 32));
    lemma_u256_bound(code_hash.0);
    lemma_u256_bound(other_code_hash.0);
    lemma_be_value_of_fixed(code_hash@, 32);
    lemma_be_value_of_fixed(other_code_hash@, 32);
    lemma_address_ext(caller, other_caller);
    lemma_h256_ext(salt, other_salt);
    lemma_u256_ext(code_hash.0, other_code_hash.0);
}

} // verus!
