//! Big-endian byte strings and the integers they stand for.
//!
//! Every multi-byte value of the protocol travels as a big-endian string:
//! the most significant byte comes first. `be_to_nat` reads such a string,
//! `nat_to_be` writes one of a chosen width, and the lemmas relate the two.

use vstd::prelude::*;
use vstd::arithmetic::div_mod::lemma_mod_breakdown;

verus! {

/// Width of an ABI slot in bytes.
pub const WORD_LEN: usize = 32;

/// `256^n`, the number of byte strings of length `n`.
pub open spec fn pow256(n: nat) -> nat
    decreases n,
{
    if n == 0 {
        1
    } else {
        256 * pow256((n - 1) as nat)
    }
}

/// The integer that a big-endian byte string stands for.
pub open spec fn be_to_nat(bytes: Seq<u8>) -> nat
    decreases bytes.len(),
{
    if bytes.len() == 0 {
        0
    } else {
        be_to_nat(bytes.drop_last()) * 256 + bytes.last() as nat
    }
}

/// The `len` low-order bytes of `value`, most significant first.
pub open spec fn nat_to_be(value: nat, len: nat) -> Seq<u8>
    decreases len,
{
    if len == 0 {
        Seq::empty()
    } else {
        nat_to_be(value / 256, (len - 1) as nat).push((value % 256) as u8)
    }
}

/// A string of `n` zero bytes.
pub open spec fn zeros(n: nat) -> Seq<u8> {
    Seq::new(n, |i: int| 0u8)
}

/// `2^128` and `2^256` written out.
pub proof fn lemma_pow256_values()
    ensures
        pow256(16) == 0x1_0000_0000_0000_0000_0000_0000_0000_0000,
        pow256(32)
            == 0x1_0000_0000_0000_0000_0000_0000_0000_0000_0000_0000_0000_0000_0000_0000_0000_0000,
{
    reveal_with_fuel(pow256, 17);
    assert(pow256(16) == 0x1_0000_0000_0000_0000_0000_0000_0000_0000);
    assert(pow256(32) == pow256(16) * pow256(16)) by {
        lemma_pow256_add(16, 16);
    }
}

/// `256^(a + b) == 256^a * 256^b`.
pub proof fn lemma_pow256_add(a: nat, b: nat)
    ensures
        pow256(a + b) == pow256(a) * pow256(b),
        pow256(a) > 0,
    decreases a,
{
    if a == 0 {
        assert(1 * pow256(b) == pow256(b)) by (nonlinear_arith);
    } else {
        let below = (a - 1) as nat;
        lemma_pow256_add(below, b);
        let x = pow256(below);
        let y = pow256(b);
        assert(pow256(a + b) == 256 * pow256(below + b));
        assert(256 * (x * y) == (256 * x) * y) by (nonlinear_arith);
    }
}

/// A string of `len` bytes is what `nat_to_be` writes for width `len`.
pub proof fn lemma_nat_to_be_len(value: nat, len: nat)
    ensures
        nat_to_be(value, len).len() == len,
    decreases len,
{
    if len > 0 {
        lemma_nat_to_be_len(value / 256, (len - 1) as nat);
    }
}

/// A byte string of length `n` stands for an integer below `256^n`.
pub proof fn lemma_be_to_nat_bound(bytes: Seq<u8>)
    ensures
        be_to_nat(bytes) < pow256(bytes.len()),
    decreases bytes.len(),
{
    if bytes.len() > 0 {
        lemma_be_to_nat_bound(bytes.drop_last());
    }
}

/// Writing the integer of a byte string at the string's own width gives the
/// string back.
pub proof fn lemma_nat_to_be_of_be(bytes: Seq<u8>)
    ensures
        nat_to_be(be_to_nat(bytes), bytes.len()) == bytes,
    decreases bytes.len(),
{
    if bytes.len() == 0 {
        assert(nat_to_be(be_to_nat(bytes), 0) =~= bytes);
    } else {
        let head = bytes.drop_last();
        let value = be_to_nat(bytes);
        lemma_nat_to_be_of_be(head);
        assert(value / 256 == be_to_nat(head));
        assert(value % 256 == bytes.last() as nat);
        assert(nat_to_be(value, bytes.len()) =~= head.push(bytes.last()));
        assert(head.push(bytes.last()) =~= bytes);
    }
}

/// Reading what `nat_to_be` wrote gives the value reduced to the width.
pub proof fn lemma_be_of_nat_to_be(value: nat, len: nat)
    ensures
        be_to_nat(nat_to_be(value, len)) == value % pow256(len),
    decreases len,
{
    if len == 0 {
    } else {
        let rest = (len - 1) as nat;
        let head = nat_to_be(value / 256, rest);
        lemma_be_of_nat_to_be(value / 256, rest);
        lemma_pow256_add(rest, 0);
        assert(head.push((value % 256) as u8).drop_last() =~= head);
        lemma_mod_breakdown(value as int, 256, pow256(rest) as int);
    }
}

/// A value that fits the width survives the round trip through bytes.
pub proof fn lemma_be_of_nat_to_be_small(value: nat, len: nat)
    requires
        value < pow256(len),
    ensures
        be_to_nat(nat_to_be(value, len)) == value,
{
    lemma_be_of_nat_to_be(value, len);
    vstd::arithmetic::div_mod::lemma_small_mod(value, pow256(len));
}

/// Two byte strings of one length that stand for the same integer are equal.
pub proof fn lemma_be_to_nat_injective(a: Seq<u8>, b: Seq<u8>)
    requires
        a.len() == b.len(),
        be_to_nat(a) == be_to_nat(b),
    ensures
        a == b,
{
    lemma_nat_to_be_of_be(a);
    lemma_nat_to_be_of_be(b);
}

/// The integer of a concatenation: the left part is shifted by the width of
/// the right part.
pub proof fn lemma_be_to_nat_concat(left: Seq<u8>, right: Seq<u8>)
    ensures
        be_to_nat(left + right) == be_to_nat(left) * pow256(right.len()) + be_to_nat(right),
    decreases right.len(),
{
    if right.len() == 0 {
        assert(left + right =~= left);
        assert(be_to_nat(left) * 1 == be_to_nat(left)) by (nonlinear_arith);
    } else {
        let head = right.drop_last();
        lemma_be_to_nat_concat(left, head);
        assert((left + right).drop_last() =~= left + head);
        assert((left + right).last() == right.last());
        let x = be_to_nat(left);
        let y = pow256(head.len());
        assert(pow256(right.len()) == 256 * y);
        assert(x * (256 * y) == (x * y) * 256) by (nonlinear_arith);
    }
}

/// Zero bytes stand for zero.
pub proof fn lemma_be_to_nat_zeros(n: nat)
    ensures
        be_to_nat(zeros(n)) == 0,
    decreases n,
{
    if n > 0 {
        lemma_be_to_nat_zeros((n - 1) as nat);
        assert(zeros(n).drop_last() =~= zeros((n - 1) as nat));
    }
}

/// Only zero bytes stand for zero.
pub proof fn lemma_be_to_nat_zero_iff(bytes: Seq<u8>)
    ensures
        be_to_nat(bytes) == 0 <==> bytes == zeros(bytes.len()),
{
    lemma_be_to_nat_zeros(bytes.len());
    if be_to_nat(bytes) == 0 {
        lemma_be_to_nat_injective(bytes, zeros(bytes.len()));
    }
}

/// Leading zero bytes do not change the integer.
pub proof fn lemma_be_to_nat_leading_zeros(n: nat, bytes: Seq<u8>)
    ensures
        be_to_nat(zeros(n) + bytes) == be_to_nat(bytes),
{
    lemma_be_to_nat_concat(zeros(n), bytes);
    lemma_be_to_nat_zeros(n);
    assert(0 * pow256(bytes.len()) == 0) by (nonlinear_arith);
}

/// Copies `bytes` into the low end of a zeroed 32-byte word.
pub fn left_pad_word(bytes: &[u8]) -> (word: [u8; 32])
    requires
        bytes@.len() <= WORD_LEN,
    ensures
        word@ == zeros((WORD_LEN - bytes@.len()) as nat) + bytes@,
        be_to_nat(word@) == be_to_nat(bytes@),
{
    let len = bytes.len();
    let offset = WORD_LEN - len;
    let mut word = [0u8; 32];
    let mut i: usize = 0;
    while i < len
        invariant
            len == bytes@.len(),
            len <= WORD_LEN,
            offset == WORD_LEN - len,
            i <= len,
            forall|k: int| 0 <= k < offset ==> word@[k] == 0u8,
            forall|k: int| 0 <= k < i ==> word@[offset + k] == bytes@[k],
        decreases len - i,
    {
        word[offset + i] = bytes[i];
        i += 1;
    }
    proof {
        assert(word@ =~= zeros(offset as nat) + bytes@);
        lemma_be_to_nat_leading_zeros(offset as nat, bytes@);
    }
    word
}

/// Appends every byte of `tail` to `buffer`.
pub fn append_bytes(buffer: &mut Vec<u8>, tail: &[u8])
    ensures
        final(buffer)@ == old(buffer)@ + tail@,
{
    let len = tail.len();
    let mut i: usize = 0;
    while i < len
        invariant
            len == tail@.len(),
            i <= len,
            buffer@ == old(buffer)@ + tail@.subrange(0, i as int),
        decreases len - i,
    {
        buffer.push(tail[i]);
        assert(tail@.subrange(0, i as int).push(tail@[i as int]) =~= tail@.subrange(0, i + 1));
        i += 1;
    }
    assert(tail@.subrange(0, len as int) =~= tail@);
}

/// Copies `source[start..start + 32]` into a word.
pub fn word_at(source: &[u8], start: usize) -> (word: [u8; 32])
    requires
        start + WORD_LEN <= source@.len(),
    ensures
        word@ == source@.subrange(start as int, start + WORD_LEN),
{
    let len = source.len();
    let mut word = [0u8; 32];
    let mut i: usize = 0;
    while i < WORD_LEN
        invariant
            len == source@.len(),
            start + WORD_LEN <= len,
            i <= WORD_LEN,
            forall|k: int| 0 <= k < i ==> word@[k] == source@[start + k],
        decreases WORD_LEN - i,
    {
        word[i] = source[start + i];
        i += 1;
    }
    assert(word@ =~= source@.subrange(start as int, start + WORD_LEN));
    word
}

/// The 16-byte big-endian form of a 128-bit integer.
pub fn u128_to_be_bytes(value: u128) -> (out: [u8; 16])
    ensures
        out@ == nat_to_be(value as nat, 16),
{
    let mut out = [0u8; 16];
    let mut rest: u128 = value;
    let mut written: usize = 0;
    while written < 16
        invariant
            written <= 16,
            nat_to_be(value as nat, 16) == nat_to_be(rest as nat, (16 - written) as nat)
                + out@.subrange(16 - written, 16),
        decreases 16 - written,
    {
        let ghost before = out@;
        let low: u8 = (rest % 256) as u8;
        out[15 - written] = low;
        proof {
            let width = (16 - written) as nat;
            assert(nat_to_be(rest as nat, width) == nat_to_be(
                (rest / 256) as nat,
                (width - 1) as nat,
            ).push(low));
            assert(out@.subrange(15 - written, 16) =~= seq![low] + before.subrange(
                16 - written,
                16,
            ));
            assert(nat_to_be((rest / 256) as nat, (width - 1) as nat).push(low) + before.subrange(
                16 - written,
                16,
            ) =~= nat_to_be((rest / 256) as nat, (width - 1) as nat) + out@.subrange(
                15 - written,
                16,
            ));
        }
        rest = rest / 256;
        written += 1;
    }
    assert(out@.subrange(0, 16) =~= out@);
    assert(nat_to_be(rest as nat, 0) + out@ =~= out@);
    out
}

/// The 128-bit integer that 16 big-endian bytes stand for.
pub fn u128_from_be_bytes(bytes: &[u8; 16]) -> (value: u128)
    ensures
        value == be_to_nat(bytes@),
{
    let mut value: u128 = 0;
    let mut read: usize = 0;
    while read < 16
        invariant
            read <= 16,
            value == be_to_nat(bytes@.subrange(0, read as int)),
        decreases 16 - read,
    {
        proof {
            let prefix = bytes@.subrange(0, read as int);
            let longer = bytes@.subrange(0, read + 1);
            assert(longer.drop_last() =~= prefix);
            lemma_be_to_nat_bound(longer);
            lemma_pow256_add((read + 1) as nat, (15 - read) as nat);
            lemma_pow256_values();
            assert(pow256((read + 1) as nat) <= pow256(16)) by (nonlinear_arith)
                requires
                    pow256((read + 1) as nat) * pow256((15 - read) as nat) == pow256(16),
                    pow256((15 - read) as nat) > 0,
                    pow256((read + 1) as nat) > 0,
            ;
        }
        value = value * 256 + bytes[read] as u128;
        read += 1;
    }
    assert(bytes@.subrange(0, 16) =~= bytes@);
    value
}

} // verus!
