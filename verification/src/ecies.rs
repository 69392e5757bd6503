//! The scheme as a whole: sealing a bid to a recipient's public key, and
//! opening it with the recipient's private scalar.
//!
//! Sealing: the ephemeral scalar gives the bid's public key and, with the
//! recipient's point, the shared secret; the shared secret and the salt give
//! the symmetric key; the cipher gives the ciphertext. Opening runs the same
//! stages from the other side, with the bid's public key and the
//! recipient's scalar.

use vstd::prelude::*;
use crate::agreement::{derive_shared_secret, generate_ephemeral_key_pair, KeyPair};
use crate::bytes::{be_to_nat, nat_to_be, pow256, u128_from_be_bytes, WORD_LEN};
use crate::cipher::Cipher;
use crate::curve::{g1_generator, g1_mul, point_from_bytes, AffinePoint, CurvePoint};
use crate::error::EciesError;
use crate::field::{scalar_modulus, ScalarElement};
use crate::hex::{prefixed_hex, to_hex};
use crate::kdf::{derive_symmetric_key, derived_key};
use crate::randomness::RandomnessSource;
use crate::wire::{BidModel, EncryptedBid};
use crate::word::Word256;

verus! {

/// The symmetric key that the holder of `scalar` shares with the holder of
/// the secret behind `point`.
pub open spec fn session_key(point: AffinePoint, scalar: nat, salt: nat) -> Seq<u8> {
    derived_key(g1_mul(point, scalar).x, salt)
}

/// The bid that sealing gives.
pub open spec fn sealed(
    cipher: Cipher,
    message: nat,
    mask: nat,
    recipient: AffinePoint,
    salt: nat,
    ephemeral: nat,
) -> Result<BidModel, EciesError> {
    match cipher.encrypt_spec(message, mask, session_key(recipient, ephemeral, salt)) {
        Some(ciphertext) => Ok(
            BidModel { cipher, ciphertext, ephemeral_key: g1_mul(g1_generator(), ephemeral) },
        ),
        None => Err(EciesError::MalformedInput),
    }
}

/// The message that opening gives.
pub open spec fn opened(bid: BidModel, private: nat, salt: nat) -> Result<nat, EciesError> {
    match bid.cipher.decrypt_spec(bid.ciphertext, session_key(bid.ephemeral_key, private, salt)) {
        Some(message) => Ok(message),
        None => Err(EciesError::UnsupportedOperation),
    }
}

/// Seals `message` to `recipient` with a given ephemeral key pair. The mask
/// is used by the masked cipher alone.
///
/// With the ephemeral pair fixed the result is a function of the
/// arguments. The pair is used up: it serves this bid and no other.
pub fn seal_bid(
    cipher: Cipher,
    message: &Word256,
    mask: u128,
    recipient: &CurvePoint,
    salt: &Word256,
    ephemeral: KeyPair,
) -> (result: Result<EncryptedBid, EciesError>)
    requires
        recipient.wf(),
        ephemeral.wf(),
    ensures
        match sealed(
            cipher,
            message@,
            mask as nat,
            recipient@,
            salt@,
            ephemeral.secret_value(),
        ) {
            Ok(bid) => result is Ok && result->Ok_0@ == bid && result->Ok_0.wf(),
            Err(error) => result == Err::<EncryptedBid, EciesError>(error),
        },
{
    let secret = ephemeral.secret();
    let shared = derive_shared_secret(recipient, &secret);
    let key = derive_symmetric_key(&shared, salt);
    match cipher.encrypt(message, mask, &key) {
        Err(error) => Err(error),
        Ok(ciphertext) => Ok(EncryptedBid::new(cipher, ciphertext, ephemeral.public())),
    }
}

/// The 128-bit mask that a random word gives: its low half.
pub fn mask_from_word(word: &[u8; 32]) -> (mask: u128)
    ensures
        mask == be_to_nat(word@.subrange(16, 32)),
{
    let mut low = [0u8; 16];
    let mut i: usize = 0;
    while i < 16
        invariant
            i <= 16,
            forall|k: int| 0 <= k < i ==> low@[k] == word@[16 + k],
        decreases 16 - i,
    {
        low[i] = word[16 + i];
        i += 1;
    }
    assert(low@ =~= word@.subrange(16, 32));
    u128_from_be_bytes(&low)
}

/// Seals `message` to `recipient`, drawing the ephemeral scalar, and for
/// the masked cipher the mask, from the source.
///
/// Whatever is drawn, the bid is the one that `seal_bid` gives for some
/// ephemeral scalar and some mask, and sealing fails only where the message
/// does not fit the cipher.
pub fn seal_bid_with_randomness<R: RandomnessSource>(
    cipher: Cipher,
    message: &Word256,
    recipient: &CurvePoint,
    salt: &Word256,
    randomness: &mut R,
) -> (result: Result<EncryptedBid, EciesError>)
    requires
        recipient.wf(),
    ensures
        match result {
            Ok(bid) => {
                &&& bid.wf()
                &&& exists|ephemeral: nat, mask: nat|
                    #![trigger sealed(cipher, message@, mask, recipient@, salt@, ephemeral)]
                    {
                        &&& ephemeral < scalar_modulus()
                        &&& mask < pow256(16)
                        &&& sealed(cipher, message@, mask, recipient@, salt@, ephemeral)
                            == Ok::<BidModel, EciesError>(bid@)
                    }
            },
            Err(error) => {
                &&& error == EciesError::MalformedInput
                &&& cipher == Cipher::Masked
                &&& message@ >= pow256(16)
            },
        },
{
    let pair = generate_ephemeral_key_pair(randomness);
    let mask = match cipher {
        Cipher::Masked => {
            let word = randomness.next_word();
            mask_from_word(&word)
        },
        Cipher::Direct => 0,
    };
    let ghost ephemeral = pair.secret_value();
    let result = seal_bid(cipher, message, mask, recipient, salt, pair);
    proof {
        crate::bytes::lemma_pow256_values();
        if result is Ok {
            assert(sealed(cipher, message@, mask as nat, recipient@, salt@, ephemeral) == Ok::<
                BidModel,
                EciesError,
            >(result->Ok_0@));
        }
    }
    result
}

/// Opens a bid with the recipient's private scalar. A bid sealed by the
/// masked cipher is refused: how the message is recovered from mask and
/// masked value is not defined here.
pub fn open_bid(bid: &EncryptedBid, private: &ScalarElement, salt: &Word256) -> (result: Result<
    Word256,
    EciesError,
>)
    requires
        bid.wf(),
        private.wf(),
    ensures
        match opened(bid@, private@, salt@) {
            Ok(message) => result is Ok && result->Ok_0@ == message,
            Err(error) => result == Err::<Word256, EciesError>(error),
        },
{
    let ephemeral_key = bid.ephemeral_key();
    let shared = derive_shared_secret(&ephemeral_key, private);
    let key = derive_symmetric_key(&shared, salt);
    let ciphertext = bid.ciphertext();
    bid.cipher().decrypt(&ciphertext, &key)
}

/// What encrypting from raw inputs returns when the ephemeral scalar is
/// `ephemeral`.
pub open spec fn encrypted_bid_text(
    cipher: Cipher,
    message: Seq<u8>,
    mask: nat,
    public_key_x: Seq<u8>,
    public_key_y: Seq<u8>,
    ephemeral: nat,
    salt: Seq<u8>,
) -> Result<Seq<char>, EciesError> {
    if message.len() > WORD_LEN || salt.len() > WORD_LEN {
        Err(EciesError::MalformedInput)
    } else {
        match point_from_bytes(public_key_x, public_key_y) {
            None => Err(EciesError::PointNotOnCurve),
            Some(recipient) => match sealed(
                cipher,
                be_to_nat(message),
                mask,
                recipient,
                be_to_nat(salt),
                ephemeral,
            ) {
                Ok(bid) => Ok(prefixed_hex(bid.packed())),
                Err(error) => Err(error),
            },
        }
    }
}

/// Reads the message, the salt and the recipient's key from raw inputs.
fn read_sealing_inputs(
    message: &[u8],
    public_key_x: &[u8],
    public_key_y: &[u8],
    salt: &[u8],
) -> (result: Result<(Word256, CurvePoint, Word256), EciesError>)
    ensures
        match result {
            Ok((word, recipient, salt_word)) => {
                &&& message@.len() <= WORD_LEN
                &&& salt@.len() <= WORD_LEN
                &&& point_from_bytes(public_key_x@, public_key_y@) == Some(recipient@)
                &&& recipient.wf()
                &&& word@ == be_to_nat(message@)
                &&& salt_word@ == be_to_nat(salt@)
            },
            Err(error) => if message@.len() > WORD_LEN || salt@.len() > WORD_LEN {
                error == EciesError::MalformedInput
            } else {
                &&& point_from_bytes(public_key_x@, public_key_y@) is None
                &&& error == EciesError::PointNotOnCurve
            },
        },
{
    let word = match Word256::from_be_bytes(message) {
        Ok(word) => word,
        Err(error) => { return Err(error); },
    };
    let salt_word = match Word256::from_be_bytes(salt) {
        Ok(word) => word,
        Err(error) => { return Err(error); },
    };
    match CurvePoint::make_point(public_key_x, public_key_y) {
        Ok(recipient) => Ok((word, recipient, salt_word)),
        Err(error) => Err(error),
    }
}

/// Encrypts a bid from raw big-endian inputs and returns the interchange
/// form of the encrypted bid.
///
/// The message and the salt are words: more than 32 bytes of either are
/// malformed. The coordinates of the recipient's key and the bid's private
/// scalar are reduced modulo their primes. The key is checked against the
/// curve before anything is computed with it.
pub fn encrypt_bid(
    cipher: Cipher,
    message: &[u8],
    mask: u128,
    public_key_x: &[u8],
    public_key_y: &[u8],
    bid_private_key: &[u8],
    salt: &[u8],
) -> (result: Result<String, EciesError>)
    ensures
        match encrypted_bid_text(
            cipher,
            message@,
            mask as nat,
            public_key_x@,
            public_key_y@,
            be_to_nat(bid_private_key@) % scalar_modulus(),
            salt@,
        ) {
            Ok(text) => result is Ok && result->Ok_0@ == text,
            Err(error) => result == Err::<String, EciesError>(error),
        },
{
    let (word, recipient, salt_word) = match read_sealing_inputs(
        message,
        public_key_x,
        public_key_y,
        salt,
    ) {
        Ok(inputs) => inputs,
        Err(error) => { return Err(error); },
    };
    let ephemeral = KeyPair::from_secret(ScalarElement::decode(bid_private_key));
    match seal_bid(cipher, &word, mask, &recipient, &salt_word, ephemeral) {
        Ok(bid) => Ok(bid.to_hex()),
        Err(error) => Err(error),
    }
}

/// Encrypts a bid from raw big-endian inputs with an ephemeral scalar, and
/// for the masked cipher a mask, drawn from the source.
///
/// Whatever is drawn, the text is the one that `encrypt_bid` gives for some
/// ephemeral scalar and some mask; and where the inputs are refused, they
/// are refused with the same error whatever would have been drawn.
pub fn encrypt_bid_with_randomness<R: RandomnessSource>(
    cipher: Cipher,
    message: &[u8],
    public_key_x: &[u8],
    public_key_y: &[u8],
    salt: &[u8],
    randomness: &mut R,
) -> (result: Result<String, EciesError>)
    ensures
        match result {
            Ok(text) => exists|ephemeral: nat, mask: nat|
                #![trigger encrypted_bid_text(
                    cipher,
                    message@,
                    mask,
                    public_key_x@,
                    public_key_y@,
                    ephemeral,
                    salt@,
                )]
                {
                    &&& ephemeral < scalar_modulus()
                    &&& mask < pow256(16)
                    &&& encrypted_bid_text(
                        cipher,
                        message@,
                        mask,
                        public_key_x@,
                        public_key_y@,
                        ephemeral,
                        salt@,
                    ) == Ok::<Seq<char>, EciesError>(text@)
                },
            Err(error) => forall|ephemeral: nat, mask: nat|
                #![trigger encrypted_bid_text(
                    cipher,
                    message@,
                    mask,
                    public_key_x@,
                    public_key_y@,
                    ephemeral,
                    salt@,
                )]
                encrypted_bid_text(
                    cipher,
                    message@,
                    mask,
                    public_key_x@,
                    public_key_y@,
                    ephemeral,
                    salt@,
                ) == Err::<Seq<char>, EciesError>(error),
        },
{
    let (word, recipient, salt_word) = match read_sealing_inputs(
        message,
        public_key_x,
        public_key_y,
        salt,
    ) {
        Ok(inputs) => inputs,
        Err(error) => { return Err(error); },
    };
    match seal_bid_with_randomness(cipher, &word, &recipient, &salt_word, randomness) {
        Ok(bid) => {
            let text = bid.to_hex();
            proof {
                let (ephemeral, mask) = choose|ephemeral: nat, mask: nat|
                    #![trigger sealed(cipher, word@, mask, recipient@, salt_word@, ephemeral)]
                    {
                        &&& ephemeral < scalar_modulus()
                        &&& mask < pow256(16)
                        &&& sealed(cipher, word@, mask, recipient@, salt_word@, ephemeral)
                            == Ok::<BidModel, EciesError>(bid@)
                    };
                assert(encrypted_bid_text(
                    cipher,
                    message@,
                    mask,
                    public_key_x@,
                    public_key_y@,
                    ephemeral,
                    salt@,
                ) == Ok::<Seq<char>, EciesError>(text@));
            }
            Ok(text)
        },
        Err(error) => Err(error),
    }
}

/// What decrypting from raw inputs returns.
pub open spec fn decrypted_bid_text(
    cipher: Cipher,
    ciphertext: Seq<u8>,
    bid_public_key_x: Seq<u8>,
    bid_public_key_y: Seq<u8>,
    private_key: Seq<u8>,
    salt: Seq<u8>,
) -> Result<Seq<char>, EciesError> {
    if ciphertext.len() > WORD_LEN || salt.len() > WORD_LEN {
        Err(EciesError::MalformedInput)
    } else {
        match point_from_bytes(bid_public_key_x, bid_public_key_y) {
            None => Err(EciesError::PointNotOnCurve),
            Some(ephemeral_key) => match opened(
                BidModel {
                    cipher,
                    ciphertext: nat_to_be(be_to_nat(ciphertext), 32),
                    ephemeral_key,
                },
                be_to_nat(private_key) % scalar_modulus(),
                be_to_nat(salt),
            ) {
                Ok(message) => Ok(prefixed_hex(nat_to_be(message, 32))),
                Err(error) => Err(error),
            },
        }
    }
}

/// Decrypts a bid from raw big-endian inputs and returns the message as
/// one word in the interchange form.
///
/// The ciphertext and the salt are words: a shorter string is padded with
/// zeros on the left, more than 32 bytes of either are malformed. The
/// coordinates of the bid's key and the private scalar are reduced modulo
/// their primes. The key is checked against the curve before anything is
/// computed with it.
pub fn decrypt_bid(
    cipher: Cipher,
    ciphertext: &[u8],
    bid_public_key_x: &[u8],
    bid_public_key_y: &[u8],
    private_key: &[u8],
    salt: &[u8],
) -> (result: Result<String, EciesError>)
    ensures
        match decrypted_bid_text(
            cipher,
            ciphertext@,
            bid_public_key_x@,
            bid_public_key_y@,
            private_key@,
            salt@,
        ) {
            Ok(text) => result is Ok && result->Ok_0@ == text,
            Err(error) => result == Err::<String, EciesError>(error),
        },
{
    let ciphertext = match Word256::from_be_bytes(ciphertext) {
        Ok(word) => word,
        Err(error) => { return Err(error); },
    };
    let salt = match Word256::from_be_bytes(salt) {
        Ok(word) => word,
        Err(error) => { return Err(error); },
    };
    let ephemeral_key = match CurvePoint::make_point(bid_public_key_x, bid_public_key_y) {
        Ok(point) => point,
        Err(error) => { return Err(error); },
    };
    let private = ScalarElement::decode(private_key);
    let bid = EncryptedBid::new(cipher, ciphertext.to_be_bytes(), ephemeral_key);
    match open_bid(&bid, &private, &salt) {
        Ok(message) => {
            let word = message.to_be_bytes();
            Ok(to_hex(word.as_slice()))
        },
        Err(error) => Err(error),
    }
}

/// Sealing is deterministic: with the ephemeral scalar fixed, equal inputs
/// give the same bid, byte for byte, and so the same interchange form.
pub proof fn lemma_sealing_is_deterministic(
    cipher: Cipher,
    message: nat,
    mask: nat,
    recipient: AffinePoint,
    salt: nat,
    ephemeral: nat,
    other_cipher: Cipher,
    other_message: nat,
    other_mask: nat,
    other_recipient: AffinePoint,
    other_salt: nat,
    other_ephemeral: nat,
)
    requires
        cipher == other_cipher,
        message == other_message,
        mask == other_mask,
        recipient == other_recipient,
        salt == other_salt,
        ephemeral == other_ephemeral,
    ensures
        sealed(cipher, message, mask, recipient, salt, ephemeral) == sealed(
            other_cipher,
            other_message,
            other_mask,
            other_recipient,
            other_salt,
            other_ephemeral,
        ),
        sealed(cipher, message, mask, recipient, salt, ephemeral) is Ok ==> prefixed_hex(
            sealed(cipher, message, mask, recipient, salt, ephemeral)->Ok_0.packed(),
        ) == prefixed_hex(
            sealed(
                other_cipher,
                other_message,
                other_mask,
                other_recipient,
                other_salt,
                other_ephemeral,
            )->Ok_0.packed(),
        ),
{
}

/// Opening undoes direct sealing wherever the two parties arrive at the
/// same shared coordinate: the sender from the recipient's public point and
/// the ephemeral scalar, the recipient from the bid's public point and the
/// private scalar.
pub proof fn lemma_round_trip_on_agreement(
    message: nat,
    mask: nat,
    private: nat,
    salt: nat,
    ephemeral: nat,
)
    requires
        message < pow256(32),
        g1_mul(g1_mul(g1_generator(), private), ephemeral).x == g1_mul(
            g1_mul(g1_generator(), ephemeral),
            private,
        ).x,
    ensures
        sealed(
            Cipher::Direct,
            message,
            mask,
            g1_mul(g1_generator(), private),
            salt,
            ephemeral,
        ) is Ok,
        opened(
            sealed(
                Cipher::Direct,
                message,
                mask,
                g1_mul(g1_generator(), private),
                salt,
                ephemeral,
            )->Ok_0,
            private,
            salt,
        ) == Ok::<nat, EciesError>(message),
{
    let recipient = g1_mul(g1_generator(), private);
    let key = session_key(recipient, ephemeral, salt);
    crate::cipher::lemma_direct_cipher_round_trip(message, mask, key);
}

} // verus!
