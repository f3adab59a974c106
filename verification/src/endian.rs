//! Big-endian byte strings and the natural numbers they stand for.

use vstd::arithmetic::power2::{lemma2_to64, lemma_pow2_adds, pow2};
use vstd::prelude::*;

verus! {

/// The number that a byte string denotes when read most significant byte first.
pub open spec fn be_value(bytes: Seq<u8>) -> nat
    decreases bytes.len(),
{
    if bytes.len() == 0 {
        0
    } else {
        be_value(bytes.drop_last()) * 256 + bytes.last() as nat
    }
}

/// The `width` low-order base-256 digits of `n`, most significant first.
pub open spec fn be_fixed(n: nat, width: nat) -> Seq<u8>
    decreases width,
{
    if width == 0 {
        Seq::empty()
    } else {
        be_fixed(n / 256, (width - 1) as nat).push((n % 256) as u8)
    }
}

/// The shortest byte string whose big-endian value is `n`. It is empty for
/// zero and never starts with a zero byte.
pub open spec fn be_minimal(n: nat) -> Seq<u8>
    decreases n,
{
    if n == 0 {
        Seq::empty()
    } else {
        be_minimal(n / 256).push((n % 256) as u8)
    }
}

/// `be_fixed` yields exactly `width` bytes.
pub proof fn lemma_be_fixed_len(n: nat, width: nat)
    ensures
        be_fixed(n, width).len() == width,
    decreases width,
{
    if width > 0 {
        lemma_be_fixed_len(n / 256, (width - 1) as nat);
    }
}

/// A byte string of `k` bytes denotes a number below `2^(8k)`.
pub proof fn lemma_be_value_bound(bytes: Seq<u8>)
    ensures
        be_value(bytes) < pow2(8 * bytes.len()),
    decreases bytes.len(),
{
    lemma2_to64();
    if bytes.len() > 0 {
        let init = bytes.drop_last();
        lemma_be_value_bound(init);
        lemma_pow2_adds(8 * init.len(), 8);
        assert(8 * init.len() + 8 == 8 * bytes.len());
        assert(be_value(bytes) < pow2(8 * init.len()) * 256) by (nonlinear_arith)
            requires
                be_value(bytes) == be_value(init) * 256 + bytes.last() as nat,
                be_value(init) < pow2(8 * init.len()),
                bytes.last() < 256,
        ;
    }
}

/// Writing the value of a byte string back at the same width restores it.
pub proof fn lemma_be_fixed_of_value(bytes: Seq<u8>)
    ensures
        be_fixed(be_value(bytes), bytes.len()) == bytes,
    decreases bytes.len(),
{
    if bytes.len() > 0 {
        let init = bytes.drop_last();
        lemma_be_fixed_of_value(init);
        assert(be_value(bytes) / 256 == be_value(init));
        assert(be_value(bytes) % 256 == bytes.last());
        assert(init.push(bytes.last()) =~= bytes);
    }
}

/// Reading back the `width` digits of a number that fits in them restores it.
pub proof fn lemma_be_value_of_fixed(n: nat, width: nat)
    requires
        n < pow2(8 * width),
    ensures
        be_value(be_fixed(n, width)) == n,
    decreases width,
{
    lemma2_to64();
    if width > 0 {
        let rest = (width - 1) as nat;
        lemma_pow2_adds(8 * rest, 8);
        assert(8 * rest + 8 == 8 * width);
        assert(n / 256 < pow2(8 * rest)) by (nonlinear_arith)
            requires
                n < pow2(8 * rest) * 256,
        ;
        lemma_be_value_of_fixed(n / 256, rest);
        let s = be_fixed(n, width);
        assert(s.drop_last() =~= be_fixed(n / 256, rest));
        assert(s.last() == (n % 256) as u8);
    }
}

/// The value of two strings joined: the first shifted past the second.
pub proof fn lemma_be_value_concat(high: Seq<u8>, low: Seq<u8>)
    ensures
        be_value(high + low) == be_value(high) * pow2(8 * low.len()) + be_value(low),
    decreases low.len(),
{
    lemma2_to64();
    if low.len() == 0 {
        assert(high + low =~= high);
        assert(be_value(high) * 1 == be_value(high));
    } else {
        let init = low.drop_last();
        let all = high + low;
        lemma_be_value_concat(high, init);
        lemma_pow2_adds(8 * init.len(), 8);
        assert(8 * init.len() + 8 == 8 * low.len());
        assert(all.drop_last() =~= high + init);
        assert(all.last() == low.last());
        let h = be_value(high);
        let p = pow2(8 * init.len());
        assert(be_value(all) == be_value(high + init) * 256 + low.last() as nat);
        assert((h * p + be_value(init)) * 256 == h * (p * 256) + be_value(init) * 256)
            by (nonlinear_arith);
    }
}

/// A one-byte string denotes its byte.
pub proof fn lemma_be_value_single(byte: u8)
    ensures
        be_value(seq![byte]) == byte,
{
    assert(seq![byte].drop_last() =~= Seq::<u8>::empty());
    assert(be_value(Seq::<u8>::empty()) == 0);
}

/// The minimal form of a byte string's value is no longer than the string.
pub proof fn lemma_be_minimal_len(bytes: Seq<u8>)
    ensures
        be_minimal(be_value(bytes)).len() <= bytes.len(),
    decreases bytes.len(),
{
    if bytes.len() > 0 {
        let init = bytes.drop_last();
        lemma_be_minimal_len(init);
        assert(be_value(bytes) / 256 == be_value(init));
    }
}

/// The minimal form of a number denotes that number.
pub proof fn lemma_be_value_of_minimal(n: nat)
    ensures
        be_value(be_minimal(n)) == n,
    decreases n,
{
    if n > 0 {
        lemma_be_value_of_minimal(n / 256);
        let s = be_minimal(n);
        assert(s.drop_last() =~= be_minimal(n / 256));
        assert(s.last() == (n % 256) as u8);
    }
}

} // verus!
