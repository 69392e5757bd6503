//! Key derivation: from a shared point and a salt to a symmetric key.

use vstd::prelude::*;
use crate::bytes::{append_bytes, nat_to_be};
use crate::curve::CurvePoint;
use crate::hash::{keccak256, keccak256_digest};
use crate::word::Word256;

verus! {

/// The key that a shared secret with first coordinate `shared_x` and a salt
/// give: the hash of the two 32-byte big-endian words, coordinate first.
///
/// Only the first coordinate of the shared point goes in. The salt keeps
/// apart the keys of messages sent to one recipient; it is not secret.
pub open spec fn derived_key(shared_x: nat, salt: nat) -> Seq<u8> {
    keccak256(nat_to_be(shared_x, 32) + nat_to_be(salt, 32))
}

/// A 32-byte symmetric key. One is only ever derived, never made from bytes
/// of the caller's choosing.
#[derive(Clone, Copy, Debug, PartialEq, Eq)]
pub struct SymmetricKey {
    bytes: [u8; 32],
}

impl View for SymmetricKey {
    type V = Seq<u8>;

    closed spec fn view(&self) -> Seq<u8> {
        self.bytes@
    }
}

impl SymmetricKey {
    /// The bytes of the key.
    pub fn as_bytes(&self) -> (bytes: &[u8; 32])
        ensures
            bytes@ == self@,
            bytes@.len() == 32,
    {
        &self.bytes
    }
}

/// Derives the symmetric key from the shared secret point and the salt.
pub fn derive_symmetric_key(shared: &CurvePoint, salt: &Word256) -> (key: SymmetricKey)
    ensures
        key@ == derived_key(shared@.x, salt@),
{
    let x_bytes = shared.x().encode();
    let salt_bytes = salt.to_be_bytes();
    let mut preimage: Vec<u8> = Vec::new();
    append_bytes(&mut preimage, x_bytes.as_slice());
    append_bytes(&mut preimage, salt_bytes.as_slice());
    assert(preimage@ =~= nat_to_be(shared@.x, 32) + nat_to_be(salt@, 32));
    SymmetricKey { bytes: keccak256_digest(preimage.as_slice()) }
}

} // verus!
