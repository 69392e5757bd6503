//! The cipher: a message becomes a 32-byte plaintext, and the plaintext is
//! XORed with a keystream made of the symmetric key.
//!
//! There are two variants. The masked one hides a 128-bit message behind a
//! random 128-bit mask before the keystream is applied; the direct one puts
//! a 256-bit message under the keystream as it is.

use vstd::prelude::*;
use crate::bytes::{
    append_bytes, be_to_nat, lemma_nat_to_be_len, lemma_pow256_values, nat_to_be, pow256,
    u128_to_be_bytes, word_at,
};
use crate::error::EciesError;
use crate::kdf::SymmetricKey;
use crate::word::Word256;

verus! {

/// `data` XORed with `key`, the key starting over whenever it runs out.
pub open spec fn xor_keystream(data: Seq<u8>, key: Seq<u8>) -> Seq<u8> {
    Seq::new(data.len(), |i: int| data[i] ^ key[i % (key.len() as int)])
}

/// Applying the same keystream twice gives the data back.
pub proof fn lemma_keystream_involution(data: Seq<u8>, key: Seq<u8>)
    ensures
        xor_keystream(xor_keystream(data, key), key) == data,
{
    let once = xor_keystream(data, key);
    let twice = xor_keystream(once, key);
    assert forall|i: int| 0 <= i < data.len() implies twice[i] == data[i] by {
        let d = data[i];
        let k = key[i % (key.len() as int)];
        assert((d ^ k) ^ k == d) by (bit_vector);
    }
    assert(twice =~= data);
}

/// XORs `data` with the key, cycling the key if `data` is longer than it.
pub fn apply_keystream(data: &[u8], key: &SymmetricKey) -> (out: Vec<u8>)
    ensures
        out@ == xor_keystream(data@, key@),
{
    let key_bytes = key.as_bytes();
    let len = data.len();
    let mut out: Vec<u8> = Vec::new();
    let mut i: usize = 0;
    while i < len
        invariant
            len == data@.len(),
            i <= len,
            key_bytes@ == key@,
            key_bytes@.len() == 32,
            out@.len() == i,
            forall|k: int| 0 <= k < i ==> out@[k] == data@[k] ^ key@[k % 32],
        decreases len - i,
    {
        out.push(data[i] ^ key_bytes[i % 32]);
        i += 1;
    }
    assert(out@ =~= xor_keystream(data@, key@));
    out
}

/// What goes under the keystream in place of the message when the mask is
/// `mask`: the difference `mask - message` modulo `2^128`. A message above
/// the mask wraps around; that is intended.
pub open spec fn masked_value(mask: nat, message: nat) -> nat {
    ((mask - message) % (pow256(16) as int)) as nat
}

/// Taking the masked value from the mask gives the message back: the
/// message is `mask - masked` modulo `2^128`.
pub proof fn lemma_unmasking(mask: nat, message: nat)
    requires
        mask < pow256(16),
        message < pow256(16),
    ensures
        masked_value(mask, message) < pow256(16),
        masked_value(mask, masked_value(mask, message)) == message,
{
    lemma_pow256_values();
}

/// The plaintext of the masked variant: the mask, then the masked message,
/// 16 big-endian bytes each.
pub open spec fn masked_plaintext(mask: nat, message: nat) -> Seq<u8> {
    nat_to_be(mask, 16) + nat_to_be(masked_value(mask, message), 16)
}

/// The plaintext of the direct variant: the 32 big-endian bytes of the
/// message.
pub open spec fn direct_plaintext(message: nat) -> Seq<u8> {
    nat_to_be(message, 32)
}

/// Which of the two ciphers is in use.
#[derive(Clone, Copy, Debug, PartialEq, Eq, Structural)]
pub enum Cipher {
    /// A 128-bit message under a random 128-bit mask.
    Masked,
    /// A 256-bit message as it is.
    Direct,
}

impl Cipher {
    /// The plaintext of `message`, if the message fits the variant. The
    /// direct variant has no use for the mask.
    pub open spec fn plaintext_spec(self, message: nat, mask: nat) -> Option<Seq<u8>> {
        match self {
            Cipher::Masked => if message < pow256(16) {
                Some(masked_plaintext(mask, message))
            } else {
                None
            },
            Cipher::Direct => Some(direct_plaintext(message)),
        }
    }

    /// The ciphertext of `message` under `key`, if the message fits the
    /// variant.
    pub open spec fn encrypt_spec(self, message: nat, mask: nat, key: Seq<u8>) -> Option<Seq<u8>> {
        match self.plaintext_spec(message, mask) {
            Some(plaintext) => Some(xor_keystream(plaintext, key)),
            None => None,
        }
    }

    /// Builds the 32-byte plaintext. The masked variant refuses a message
    /// of more than 128 bits.
    pub fn plaintext(&self, message: &Word256, mask: u128) -> (result: Result<[u8; 32], EciesError>)
        ensures
            match self.plaintext_spec(message@, mask as nat) {
                Some(plaintext) => result is Ok && result->Ok_0@ == plaintext,
                None => result == Err::<[u8; 32], EciesError>(EciesError::MalformedInput),
            },
    {
        match self {
            Cipher::Direct => Ok(message.to_be_bytes()),
            Cipher::Masked => {
                match message.to_u128() {
                    None => Err(EciesError::MalformedInput),
                    Some(value) => {
                        let masked = mask.wrapping_sub(value);
                        proof {
                            lemma_pow256_values();
                            assert(masked == masked_value(mask as nat, value as nat));
                            lemma_nat_to_be_len(mask as nat, 16);
                            lemma_nat_to_be_len(masked as nat, 16);
                        }
                        let mut plaintext: Vec<u8> = Vec::new();
                        append_bytes(&mut plaintext, u128_to_be_bytes(mask).as_slice());
                        append_bytes(&mut plaintext, u128_to_be_bytes(masked).as_slice());
                        let word = word_at(plaintext.as_slice(), 0);
                        assert(word@ =~= masked_plaintext(mask as nat, value as nat));
                        Ok(word)
                    },
                }
            },
        }
    }

    /// Encrypts `message` under `key`. The mask is what the masked variant
    /// hides the message behind; the caller draws it at random.
    pub fn encrypt(&self, message: &Word256, mask: u128, key: &SymmetricKey) -> (result: Result<
        [u8; 32],
        EciesError,
    >)
        ensures
            match self.encrypt_spec(message@, mask as nat, key@) {
                Some(ciphertext) => result is Ok && result->Ok_0@ == ciphertext,
                None => result == Err::<[u8; 32], EciesError>(EciesError::MalformedInput),
            },
    {
        match self.plaintext(message, mask) {
            Err(error) => Err(error),
            Ok(plaintext) => {
                let ciphertext = apply_keystream(plaintext.as_slice(), key);
                let word = word_at(ciphertext.as_slice(), 0);
                assert(word@ =~= xor_keystream(plaintext@, key@));
                Ok(word)
            },
        }
    }

    /// The message that `ciphertext` hides under `key`, for the direct
    /// variant. How a masked message is recovered is not defined, and the
    /// masked variant refuses.
    pub open spec fn decrypt_spec(self, ciphertext: Seq<u8>, key: Seq<u8>) -> Option<nat> {
        match self {
            Cipher::Masked => None,
            Cipher::Direct => Some(be_to_nat(xor_keystream(ciphertext, key))),
        }
    }

    /// Decrypts a 32-byte ciphertext under `key`.
    pub fn decrypt(&self, ciphertext: &[u8; 32], key: &SymmetricKey) -> (result: Result<
        Word256,
        EciesError,
    >)
        ensures
            match self.decrypt_spec(ciphertext@, key@) {
                Some(message) => result is Ok && result->Ok_0@ == message,
                None => result == Err::<Word256, EciesError>(EciesError::UnsupportedOperation),
            },
    {
        match self {
            Cipher::Masked => Err(EciesError::UnsupportedOperation),
            Cipher::Direct => {
                let plaintext = apply_keystream(ciphertext.as_slice(), key);
                let word = word_at(plaintext.as_slice(), 0);
                assert(word@ =~= xor_keystream(ciphertext@, key@));
                Ok(Word256::from_array(word))
            },
        }
    }
}

/// The direct cipher's decryption undoes its encryption under the same key.
pub proof fn lemma_direct_cipher_round_trip(message: nat, mask: nat, key: Seq<u8>)
    requires
        message < pow256(32),
    ensures
        Cipher::Direct.encrypt_spec(message, mask, key) is Some,
        Cipher::Direct.decrypt_spec(Cipher::Direct.encrypt_spec(message, mask, key)->Some_0, key)
            == Some(message),
{
    lemma_keystream_involution(direct_plaintext(message), key);
    crate::bytes::lemma_be_of_nat_to_be_small(message, 32);
}

} // verus!
