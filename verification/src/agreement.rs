//! Key agreement: ephemeral key pairs and Diffie-Hellman shared secrets.

use vstd::prelude::*;
use crate::bytes::{append_bytes, be_to_nat};
use crate::curve::{
    g1_generator, g1_mul, is_group_element, lemma_generator_on_curve, AffinePoint, CurvePoint,
};
use crate::field::{scalar_modulus, ScalarElement};
use crate::randomness::RandomnessSource;

verus! {

/// A secret scalar with the public point that belongs to it.
///
/// A pair cannot be copied: sealing a bid takes the ephemeral pair by
/// value, so that one pair serves one bid.
#[derive(Debug, PartialEq, Eq)]
pub struct KeyPair {
    secret: ScalarElement,
    public: CurvePoint,
}

impl KeyPair {
    /// The secret scalar.
    pub closed spec fn secret_value(&self) -> nat {
        self.secret@
    }

    /// The public point.
    pub closed spec fn public_point(&self) -> AffinePoint {
        self.public@
    }

    /// The public point is the secret times the generator.
    pub open spec fn wf(&self) -> bool {
        &&& self.secret_value() < scalar_modulus()
        &&& is_group_element(self.public_point())
        &&& self.public_point() == g1_mul(g1_generator(), self.secret_value())
    }

    /// The key pair of a given secret.
    pub fn from_secret(secret: ScalarElement) -> (pair: KeyPair)
        requires
            secret.wf(),
        ensures
            pair.wf(),
            pair.secret_value() == secret@,
    {
        let public = CurvePoint::generator().scalar_mul(&secret);
        KeyPair { secret, public }
    }

    /// The secret scalar.
    pub fn secret(&self) -> (secret: ScalarElement)
        ensures
            secret@ == self.secret_value(),
            self.wf() ==> secret.wf(),
    {
        self.secret
    }

    /// The public point.
    pub fn public(&self) -> (public: CurvePoint)
        ensures
            public@ == self.public_point(),
            self.wf() ==> public.wf(),
    {
        self.public
    }
}

/// The scalar that 64 bytes of entropy stand for: the 512-bit integer
/// `high || low` reduced modulo the group order. Twice the width of the
/// order keeps the reduction's bias negligible.
pub fn scalar_from_entropy(high: &[u8; 32], low: &[u8; 32]) -> (scalar: ScalarElement)
    ensures
        scalar.wf(),
        scalar@ == be_to_nat(high@ + low@) % scalar_modulus(),
{
    let mut entropy: Vec<u8> = Vec::new();
    append_bytes(&mut entropy, high.as_slice());
    append_bytes(&mut entropy, low.as_slice());
    assert(entropy@ =~= high@ + low@);
    ScalarElement::decode(entropy.as_slice())
}

/// The key pair made from 64 bytes of entropy.
pub fn key_pair_from_entropy(high: &[u8; 32], low: &[u8; 32]) -> (pair: KeyPair)
    ensures
        pair.wf(),
        pair.secret_value() == be_to_nat(high@ + low@) % scalar_modulus(),
{
    KeyPair::from_secret(scalar_from_entropy(high, low))
}

/// Draws two words from the source and makes the key pair of the scalar
/// they stand for. The pair is used for one encryption and never again.
pub fn generate_ephemeral_key_pair<R: RandomnessSource>(randomness: &mut R) -> (pair: KeyPair)
    ensures
        pair.wf(),
{
    let high = randomness.next_word();
    let low = randomness.next_word();
    key_pair_from_entropy(&high, &low)
}

/// The shared secret of one party's scalar and the other party's point:
/// `own * counterpart`.
pub fn derive_shared_secret(counterpart: &CurvePoint, own: &ScalarElement) -> (shared: CurvePoint)
    requires
        counterpart.wf(),
        own.wf(),
    ensures
        shared.wf(),
        shared@ == g1_mul(counterpart@, own@),
{
    counterpart.scalar_mul(own)
}

/// Scalar multiplication composes: for every element `P` of the group and
/// all scalars, `b * (a * P)` is `(a * b mod r) * P`.
///
/// This is a property of the group arithmetic, which this library takes
/// from `ark-ec` and does not prove.
pub open spec fn multiplication_composes() -> bool {
    forall|point: AffinePoint, a: nat, b: nat|
        #![trigger g1_mul(g1_mul(point, a), b)]
        is_group_element(point) ==> g1_mul(g1_mul(point, a), b) == g1_mul(
            point,
            (a * b) % scalar_modulus(),
        )
}

/// Wherever scalar multiplication composes, the two parties of a key
/// agreement arrive at the same shared secret: the one with scalar `a` from
/// the point `b * G`, the other with scalar `b` from the point `a * G`.
pub proof fn lemma_agreement_where_multiplication_composes(a: nat, b: nat)
    requires
        multiplication_composes(),
    ensures
        g1_mul(g1_mul(g1_generator(), b), a) == g1_mul(g1_mul(g1_generator(), a), b),
{
    lemma_generator_on_curve();
    assert(a * b == b * a) by (nonlinear_arith);
}

} // verus!
