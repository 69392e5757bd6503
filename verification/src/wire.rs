//! The wire layout of an encrypted bid, and its inverse.
//!
//! A bid travels as 32 bytes of ciphertext followed by the two coordinates
//! of the ephemeral public key, 32 big-endian bytes each. The masked
//! variant puts one marker byte between the ciphertext and the key.

use vstd::prelude::*;
use crate::bytes::{
    append_bytes, be_to_nat, lemma_be_of_nat_to_be_small, lemma_nat_to_be_len,
    lemma_pow256_values, nat_to_be, word_at,
};
use crate::cipher::Cipher;
use crate::curve::{is_group_element, point_from_bytes, AffinePoint, CurvePoint};
use crate::error::EciesError;
use crate::field::base_modulus;
use crate::hex::{from_hex, hex_decoded, lemma_hex_decoded_of_encoded, prefixed_hex, to_hex};

verus! {

/// The byte between ciphertext and key in the masked layout: the offset
/// that the decoder on the other side expects there.
pub const OFFSET_MARKER: u8 = 0x40;

/// Length of the direct layout.
pub const DIRECT_LEN: usize = 96;

/// Length of the masked layout.
pub const MASKED_LEN: usize = 97;

/// The two coordinates of a point, 32 big-endian bytes each.
pub open spec fn point_bytes(point: AffinePoint) -> Seq<u8> {
    nat_to_be(point.x, 32) + nat_to_be(point.y, 32)
}

/// The masked layout: ciphertext, marker, key.
pub open spec fn packed_variant_a(ciphertext: Seq<u8>, key: AffinePoint) -> Seq<u8> {
    ciphertext + seq![OFFSET_MARKER] + point_bytes(key)
}

/// The direct layout: ciphertext, key.
pub open spec fn packed_variant_b(ciphertext: Seq<u8>, key: AffinePoint) -> Seq<u8> {
    ciphertext + point_bytes(key)
}

/// Appends the two coordinates of `key` to `buffer`.
fn append_point(buffer: &mut Vec<u8>, key: &CurvePoint)
    ensures
        final(buffer)@ == old(buffer)@ + point_bytes(key@),
{
    let x = key.x().encode();
    let y = key.y().encode();
    append_bytes(buffer, x.as_slice());
    append_bytes(buffer, y.as_slice());
    assert(buffer@ =~= old(buffer)@ + point_bytes(key@));
}

/// Packs a ciphertext and the bid's public key in the masked layout.
pub fn pack_variant_a(ciphertext: &[u8], bid_public_key: &CurvePoint) -> (packed: Vec<u8>)
    ensures
        packed@ == packed_variant_a(ciphertext@, bid_public_key@),
{
    let mut packed: Vec<u8> = Vec::new();
    append_bytes(&mut packed, ciphertext);
    packed.push(OFFSET_MARKER);
    append_point(&mut packed, bid_public_key);
    assert(packed@ =~= packed_variant_a(ciphertext@, bid_public_key@));
    packed
}

/// Packs a ciphertext and the bid's public key in the direct layout.
pub fn pack_variant_b(ciphertext: &[u8], bid_public_key: &CurvePoint) -> (packed: Vec<u8>)
    ensures
        packed@ == packed_variant_b(ciphertext@, bid_public_key@),
{
    let mut packed: Vec<u8> = Vec::new();
    append_bytes(&mut packed, ciphertext);
    append_point(&mut packed, bid_public_key);
    assert(packed@ =~= packed_variant_b(ciphertext@, bid_public_key@));
    packed
}

/// An encrypted bid as mathematics sees it.
pub struct BidModel {
    pub cipher: Cipher,
    pub ciphertext: Seq<u8>,
    pub ephemeral_key: AffinePoint,
}

impl BidModel {
    /// The bytes that the bid travels as.
    pub open spec fn packed(self) -> Seq<u8> {
        match self.cipher {
            Cipher::Masked => packed_variant_a(self.ciphertext, self.ephemeral_key),
            Cipher::Direct => packed_variant_b(self.ciphertext, self.ephemeral_key),
        }
    }
}

/// The bid that a byte string stands for.
///
/// The length decides the layout; any other length, and a masked layout
/// without its marker, is malformed. Then the key must be on the curve.
pub open spec fn parsed(bytes: Seq<u8>) -> Result<BidModel, EciesError> {
    if bytes.len() == DIRECT_LEN {
        match point_from_bytes(bytes.subrange(32, 64), bytes.subrange(64, 96)) {
            Some(key) => Ok(
                BidModel {
                    cipher: Cipher::Direct,
                    ciphertext: bytes.subrange(0, 32),
                    ephemeral_key: key,
                },
            ),
            None => Err(EciesError::PointNotOnCurve),
        }
    } else if bytes.len() == MASKED_LEN && bytes[32] == OFFSET_MARKER {
        match point_from_bytes(bytes.subrange(33, 65), bytes.subrange(65, 97)) {
            Some(key) => Ok(
                BidModel {
                    cipher: Cipher::Masked,
                    ciphertext: bytes.subrange(0, 32),
                    ephemeral_key: key,
                },
            ),
            None => Err(EciesError::PointNotOnCurve),
        }
    } else {
        Err(EciesError::MalformedInput)
    }
}

/// The bid that a text in the interchange form stands for.
pub open spec fn parsed_hex(text: Seq<char>) -> Result<BidModel, EciesError> {
    match hex_decoded(text) {
        Some(bytes) => parsed(bytes),
        None => Err(EciesError::MalformedInput),
    }
}

/// An encrypted bid: which cipher sealed it, the ciphertext, and the
/// ephemeral public key that the recipient needs to open it.
#[derive(Clone, Copy, Debug, PartialEq, Eq)]
pub struct EncryptedBid {
    cipher: Cipher,
    ciphertext: [u8; 32],
    ephemeral_key: CurvePoint,
}

impl View for EncryptedBid {
    type V = BidModel;

    closed spec fn view(&self) -> BidModel {
        BidModel {
            cipher: self.cipher,
            ciphertext: self.ciphertext@,
            ephemeral_key: self.ephemeral_key@,
        }
    }
}

impl EncryptedBid {
    /// The ciphertext has 32 bytes and the key is a group element.
    pub open spec fn wf(&self) -> bool {
        &&& self@.ciphertext.len() == 32
        &&& is_group_element(self@.ephemeral_key)
    }

    /// The bid made of these parts.
    pub fn new(cipher: Cipher, ciphertext: [u8; 32], ephemeral_key: CurvePoint) -> (bid:
        EncryptedBid)
        requires
            ephemeral_key.wf(),
        ensures
            bid.wf(),
            bid@ == (BidModel {
                cipher,
                ciphertext: ciphertext@,
                ephemeral_key: ephemeral_key@,
            }),
    {
        EncryptedBid { cipher, ciphertext, ephemeral_key }
    }

    /// The cipher that sealed the bid.
    pub fn cipher(&self) -> (cipher: Cipher)
        ensures
            cipher == self@.cipher,
    {
        self.cipher
    }

    /// The ciphertext.
    pub fn ciphertext(&self) -> (ciphertext: [u8; 32])
        ensures
            ciphertext@ == self@.ciphertext,
    {
        self.ciphertext
    }

    /// The ephemeral public key.
    pub fn ephemeral_key(&self) -> (key: CurvePoint)
        ensures
            key@ == self@.ephemeral_key,
            self.wf() ==> key.wf(),
    {
        self.ephemeral_key
    }

    /// The bytes that the bid travels as.
    pub fn pack(&self) -> (packed: Vec<u8>)
        ensures
            packed@ == self@.packed(),
    {
        match self.cipher {
            Cipher::Masked => pack_variant_a(self.ciphertext.as_slice(), &self.ephemeral_key),
            Cipher::Direct => pack_variant_b(self.ciphertext.as_slice(), &self.ephemeral_key),
        }
    }

    /// Reads a bid from the bytes it travelled as.
    pub fn parse(bytes: &[u8]) -> (result: Result<EncryptedBid, EciesError>)
        ensures
            match parsed(bytes@) {
                Ok(model) => result is Ok && result->Ok_0@ == model && result->Ok_0.wf(),
                Err(error) => result == Err::<EncryptedBid, EciesError>(error),
            },
    {
        let len = bytes.len();
        let (cipher, key_start) = if len == DIRECT_LEN {
            (Cipher::Direct, 32usize)
        } else if len == MASKED_LEN && bytes[32] == OFFSET_MARKER {
            (Cipher::Masked, 33usize)
        } else {
            return Err(EciesError::MalformedInput);
        };
        let ciphertext = word_at(bytes, 0);
        let x = word_at(bytes, key_start);
        let y = word_at(bytes, key_start + 32);
        match CurvePoint::make_point(x.as_slice(), y.as_slice()) {
            Ok(ephemeral_key) => Ok(EncryptedBid { cipher, ciphertext, ephemeral_key }),
            Err(error) => Err(error),
        }
    }

    /// The interchange form of the bid: its bytes in hexadecimal.
    pub fn to_hex(&self) -> (text: String)
        ensures
            text@ == prefixed_hex(self@.packed()),
    {
        let packed = self.pack();
        to_hex(packed.as_slice())
    }

    /// Reads a bid from its interchange form.
    pub fn from_hex(text: &str) -> (result: Result<EncryptedBid, EciesError>)
        ensures
            match parsed_hex(text@) {
                Ok(model) => result is Ok && result->Ok_0@ == model && result->Ok_0.wf(),
                Err(error) => result == Err::<EncryptedBid, EciesError>(error),
            },
    {
        match from_hex(text) {
            Err(error) => Err(error),
            Ok(bytes) => EncryptedBid::parse(bytes.as_slice()),
        }
    }
}

/// Parsing undoes packing: a bid with a 32-byte ciphertext and a key that
/// is a point of the curve, not the identity, is read back as it was.
pub proof fn lemma_parse_after_pack(bid: BidModel)
    requires
        bid.ciphertext.len() == 32,
        is_group_element(bid.ephemeral_key),
        !bid.ephemeral_key.infinity,
    ensures
        parsed(bid.packed()) == Ok::<BidModel, EciesError>(bid),
{
    let key = bid.ephemeral_key;
    let x_bytes = nat_to_be(key.x, 32);
    let y_bytes = nat_to_be(key.y, 32);
    lemma_nat_to_be_len(key.x, 32);
    lemma_nat_to_be_len(key.y, 32);
    lemma_pow256_values();
    lemma_be_of_nat_to_be_small(key.x, 32);
    lemma_be_of_nat_to_be_small(key.y, 32);
    assert(be_to_nat(x_bytes) % base_modulus() == key.x);
    assert(be_to_nat(y_bytes) % base_modulus() == key.y);
    let packed = bid.packed();
    match bid.cipher {
        Cipher::Direct => {
            assert(packed.len() == 96);
            assert(packed.subrange(0, 32) =~= bid.ciphertext);
            assert(packed.subrange(32, 64) =~= x_bytes);
            assert(packed.subrange(64, 96) =~= y_bytes);
        },
        Cipher::Masked => {
            assert(packed.len() == 97);
            assert(packed[32] == OFFSET_MARKER);
            assert(packed.subrange(0, 32) =~= bid.ciphertext);
            assert(packed.subrange(33, 65) =~= x_bytes);
            assert(packed.subrange(65, 97) =~= y_bytes);
        },
    }
}

/// Reading the interchange form undoes writing it, for the same bids.
pub proof fn lemma_parse_hex_after_to_hex(bid: BidModel)
    requires
        bid.ciphertext.len() == 32,
        is_group_element(bid.ephemeral_key),
        !bid.ephemeral_key.infinity,
    ensures
        parsed_hex(prefixed_hex(bid.packed())) == Ok::<BidModel, EciesError>(bid),
{
    lemma_hex_decoded_of_encoded(bid.packed());
    lemma_parse_after_pack(bid);
}

} // verus!
