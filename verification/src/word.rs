//! The 256-bit word: one ABI slot.

use vstd::prelude::*;
use crate::bytes::{
    be_to_nat, left_pad_word, lemma_be_of_nat_to_be_small, lemma_be_to_nat_bound,
    lemma_be_to_nat_concat, lemma_be_to_nat_zero_iff, lemma_nat_to_be_len, lemma_nat_to_be_of_be,
    lemma_pow256_values, nat_to_be, pow256, u128_from_be_bytes, u128_to_be_bytes, zeros, WORD_LEN,
};
use crate::error::EciesError;

verus! {

/// An unsigned 256-bit integer held as the 32 big-endian bytes that go on
/// the wire. Salts and direct messages are words.
#[derive(Clone, Copy, Debug, PartialEq, Eq)]
pub struct Word256 {
    bytes: [u8; 32],
}

impl View for Word256 {
    type V = nat;

    closed spec fn view(&self) -> nat {
        be_to_nat(self.bytes@)
    }
}

impl Word256 {
    /// Every word is below `2^256`.
    pub proof fn lemma_bound(self)
        ensures
            self@ < pow256(32),
    {
        lemma_be_to_nat_bound(self.bytes@);
    }

    /// The word made of exactly these bytes.
    pub fn from_array(bytes: [u8; 32]) -> (word: Word256)
        ensures
            word@ == be_to_nat(bytes@),
    {
        Word256 { bytes }
    }

    /// Reads a big-endian byte string of at most 32 bytes; shorter strings
    /// are padded with zeros on the left. A longer string is refused,
    /// whatever its leading bytes are.
    pub fn from_be_bytes(bytes: &[u8]) -> (result: Result<Word256, EciesError>)
        ensures
            bytes@.len() <= WORD_LEN ==> result is Ok && result->Ok_0@ == be_to_nat(bytes@),
            bytes@.len() > WORD_LEN ==> result == Err::<Word256, EciesError>(
                EciesError::MalformedInput,
            ),
    {
        if bytes.len() > WORD_LEN {
            return Err(EciesError::MalformedInput);
        }
        Ok(Word256 { bytes: left_pad_word(bytes) })
    }

    /// The word whose value is `value`.
    pub fn from_u128(value: u128) -> (word: Word256)
        ensures
            word@ == value,
    {
        let low = u128_to_be_bytes(value);
        let word = left_pad_word(low.as_slice());
        proof {
            lemma_nat_to_be_len(value as nat, 16);
            lemma_pow256_values();
            lemma_be_of_nat_to_be_small(value as nat, 16);
        }
        Word256 { bytes: word }
    }

    /// The value as a 128-bit integer, if it fits.
    pub fn to_u128(&self) -> (value: Option<u128>)
        ensures
            match value {
                Some(low) => low == self@,
                None => self@ >= pow256(16),
            },
    {
        let ghost high = self.bytes@.subrange(0, 16);
        let ghost low = self.bytes@.subrange(16, 32);
        proof {
            assert(self.bytes@ =~= high + low);
            lemma_be_to_nat_concat(high, low);
            lemma_be_to_nat_zero_iff(high);
        }
        let mut i: usize = 0;
        while i < 16
            invariant
                i <= 16,
                high == self.bytes@.subrange(0, 16),
                self@ == be_to_nat(high) * pow256(16) + be_to_nat(low),
                be_to_nat(high) == 0 <==> high == zeros(16),
                forall|k: int| 0 <= k < i ==> high[k] == 0u8,
            decreases 16 - i,
        {
            if self.bytes[i] != 0 {
                proof {
                    assert(high[i as int] != 0u8);
                    assert(zeros(16)[i as int] == 0u8);
                    assert(be_to_nat(high) * pow256(16) >= pow256(16)) by (nonlinear_arith)
                        requires
                            be_to_nat(high) >= 1,
                    ;
                }
                return None;
            }
            i += 1;
        }
        proof {
            assert(high =~= zeros(16));
            assert(0 * pow256(16) == 0) by (nonlinear_arith);
        }
        let mut low_bytes = [0u8; 16];
        let mut j: usize = 0;
        while j < 16
            invariant
                j <= 16,
                forall|k: int| 0 <= k < j ==> low_bytes@[k] == self.bytes@[16 + k],
            decreases 16 - j,
        {
            low_bytes[j] = self.bytes[16 + j];
            j += 1;
        }
        assert(low_bytes@ =~= low);
        Some(u128_from_be_bytes(&low_bytes))
    }

    /// The 32 big-endian bytes of the word.
    pub fn to_be_bytes(&self) -> (bytes: [u8; 32])
        ensures
            bytes@ == nat_to_be(self@, 32),
            be_to_nat(bytes@) == self@,
    {
        proof {
            lemma_nat_to_be_of_be(self.bytes@);
        }
        self.bytes
    }
}

} // verus!
