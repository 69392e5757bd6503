//! Keccak-256, the hash behind symmetric-key derivation.

use vstd::prelude::*;

verus! {

/// The Keccak-256 digest of `input`.
pub uninterp spec fn keccak256(input: Seq<u8>) -> Seq<u8>;

/// Calls `ethers::utils::keccak256`.
///
/// Trusted, not proved: the 32 bytes returned are the Keccak-256 digest of
/// `input`, which depends on the input bytes alone.
#[verifier::external_body]
pub(crate) fn keccak256_digest(input: &[u8]) -> (digest: [u8; 32])
    ensures
        digest@ == keccak256(input@),
{
    ethers::utils::keccak256(input)
}

} // verus!
