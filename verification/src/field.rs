//! Elements of the two prime fields of BN254.
//!
//! Coordinates of points live in the base field, private keys and ephemeral
//! secrets in the scalar field. Both are held as the canonical 32 big-endian
//! bytes of a representative below the modulus; the reduction of arbitrary
//! input is done by `ark-ff`.

use vstd::prelude::*;
use vstd::arithmetic::div_mod::{lemma_mod_pos_bound, lemma_small_mod};
use ark_ff::{BigInteger, PrimeField};
use crate::bytes::{
    be_to_nat, lemma_be_of_nat_to_be_small, lemma_nat_to_be_len, lemma_nat_to_be_of_be,
    lemma_pow256_values, nat_to_be, pow256,
};

verus! {

/// The prime `p` of the base field.
pub open spec fn base_modulus() -> nat {
    21888242871839275222246405745257275088696311157297823662689037894645226208583nat
}

/// The prime `r` of the scalar field: the order of the group.
pub open spec fn scalar_modulus() -> nat {
    21888242871839275222246405745257275088548364400416034343698204186575808495617nat
}

/// Both moduli are below `2^256`, so every element fits one word.
pub proof fn lemma_moduli_fit_word()
    ensures
        0 < base_modulus() < pow256(32),
        0 < scalar_modulus() < pow256(32),
{
    lemma_pow256_values();
}

/// Calls `ark_ff::PrimeField::from_be_bytes_mod_order` for `ark_bn254::Fq`
/// and writes the result out with `into_bigint` and
/// `ark_ff::BigInteger::to_bytes_be`.
///
/// Trusted, not proved: the 32 bytes returned stand for the input integer
/// reduced modulo the base-field prime.
#[verifier::external_body]
fn reduce_to_base_field(bytes: &[u8]) -> (out: [u8; 32])
    ensures
        be_to_nat(out@) == be_to_nat(bytes@) % base_modulus(),
{
    let canonical = ark_bn254::Fq::from_be_bytes_mod_order(bytes).into_bigint().to_bytes_be();
    let mut out = [0u8; 32];
    out.copy_from_slice(&canonical);
    out
}

/// Calls `ark_ff::PrimeField::from_be_bytes_mod_order` for `ark_bn254::Fr`
/// and writes the result out with `into_bigint` and
/// `ark_ff::BigInteger::to_bytes_be`.
///
/// Trusted, not proved: the 32 bytes returned stand for the input integer
/// reduced modulo the group order.
#[verifier::external_body]
fn reduce_to_scalar_field(bytes: &[u8]) -> (out: [u8; 32])
    ensures
        be_to_nat(out@) == be_to_nat(bytes@) % scalar_modulus(),
{
    let canonical = ark_bn254::Fr::from_be_bytes_mod_order(bytes).into_bigint().to_bytes_be();
    let mut out = [0u8; 32];
    out.copy_from_slice(&canonical);
    out
}

/// An integer modulo the base-field prime: a coordinate of a point.
#[derive(Clone, Copy, Debug, PartialEq, Eq)]
pub struct FieldElement {
    bytes: [u8; 32],
}

impl View for FieldElement {
    type V = nat;

    closed spec fn view(&self) -> nat {
        be_to_nat(self.bytes@)
    }
}

impl FieldElement {
    /// The representative is the canonical one.
    pub open spec fn wf(&self) -> bool {
        self@ < base_modulus()
    }

    /// Reads a big-endian byte string of any length and reduces it modulo
    /// the prime. An input at or above the modulus is reduced, never
    /// refused.
    pub fn decode(bytes: &[u8]) -> (element: FieldElement)
        ensures
            element.wf(),
            element@ == be_to_nat(bytes@) % base_modulus(),
    {
        FieldElement { bytes: reduce_to_base_field(bytes) }
    }

    /// The element that a canonical word stands for.
    pub(crate) fn from_canonical(bytes: [u8; 32]) -> (element: FieldElement)
        requires
            be_to_nat(bytes@) < base_modulus(),
        ensures
            element.wf(),
            element@ == be_to_nat(bytes@),
    {
        FieldElement { bytes }
    }

    /// The 32 big-endian bytes of the element, zero-padded on the left.
    pub fn encode(&self) -> (bytes: [u8; 32])
        ensures
            bytes@ == nat_to_be(self@, 32),
            be_to_nat(bytes@) == self@,
    {
        proof {
            lemma_nat_to_be_of_be(self.bytes@);
        }
        self.bytes
    }

    /// The element `value`, for a value that is already reduced.
    pub fn from_u64(value: u64) -> (element: FieldElement)
        ensures
            element.wf(),
            element@ == value,
    {
        let word = crate::word::Word256::from_u128(value as u128).to_be_bytes();
        FieldElement { bytes: word }
    }
}

/// An integer modulo the group order: a private key or an ephemeral secret.
#[derive(Clone, Copy, Debug, PartialEq, Eq)]
pub struct ScalarElement {
    bytes: [u8; 32],
}

impl View for ScalarElement {
    type V = nat;

    closed spec fn view(&self) -> nat {
        be_to_nat(self.bytes@)
    }
}

impl ScalarElement {
    /// The representative is the canonical one.
    pub open spec fn wf(&self) -> bool {
        self@ < scalar_modulus()
    }

    /// Reads a big-endian byte string of any length and reduces it modulo
    /// the group order. An input at or above the modulus is reduced, never
    /// refused.
    pub fn decode(bytes: &[u8]) -> (element: ScalarElement)
        ensures
            element.wf(),
            element@ == be_to_nat(bytes@) % scalar_modulus(),
    {
        ScalarElement { bytes: reduce_to_scalar_field(bytes) }
    }

    /// The 32 big-endian bytes of the element, zero-padded on the left.
    pub fn encode(&self) -> (bytes: [u8; 32])
        ensures
            bytes@ == nat_to_be(self@, 32),
            be_to_nat(bytes@) == self@,
    {
        proof {
            lemma_nat_to_be_of_be(self.bytes@);
        }
        self.bytes
    }

    /// The element `value`, for a value that is already reduced.
    pub fn from_u64(value: u64) -> (element: ScalarElement)
        ensures
            element.wf(),
            element@ == value,
    {
        let word = crate::word::Word256::from_u128(value as u128).to_be_bytes();
        ScalarElement { bytes: word }
    }
}

/// The two round trips through bytes, for any modulus that fits a word.
proof fn lemma_round_trips(bytes: Seq<u8>, value: nat, modulus: nat)
    requires
        0 < modulus <= pow256(32),
    ensures
        nat_to_be(be_to_nat(bytes) % modulus, 32) == bytes <==> bytes.len() == 32 && be_to_nat(
            bytes,
        ) < modulus,
        value < modulus ==> be_to_nat(nat_to_be(value, 32)) % modulus == value,
{
    let read = be_to_nat(bytes);
    let reduced = read % modulus;
    lemma_nat_to_be_len(reduced, 32);
    lemma_mod_pos_bound(read as int, modulus as int);
    if bytes.len() == 32 && read < modulus {
        lemma_small_mod(read, modulus);
        lemma_nat_to_be_of_be(bytes);
    }
    if nat_to_be(reduced, 32) == bytes {
        lemma_be_of_nat_to_be_small(reduced, 32);
    }
    if value < modulus {
        lemma_be_of_nat_to_be_small(value, 32);
        lemma_small_mod(value, modulus);
    }
}

/// Encoding a decoded coordinate gives the input back exactly when the
/// input is one word that stands for a value below the prime.
pub proof fn lemma_field_encode_after_decode(bytes: Seq<u8>)
    ensures
        nat_to_be(be_to_nat(bytes) % base_modulus(), 32) == bytes <==> bytes.len() == 32
            && be_to_nat(bytes) < base_modulus(),
{
    lemma_moduli_fit_word();
    lemma_round_trips(bytes, 0, base_modulus());
}

/// Decoding an encoded coordinate gives the coordinate back.
pub proof fn lemma_field_decode_after_encode(value: nat)
    requires
        value < base_modulus(),
    ensures
        be_to_nat(nat_to_be(value, 32)) % base_modulus() == value,
{
    lemma_moduli_fit_word();
    lemma_round_trips(Seq::empty(), value, base_modulus());
}

/// Encoding a decoded scalar gives the input back exactly when the input
/// is one word that stands for a value below the group order.
pub proof fn lemma_scalar_encode_after_decode(bytes: Seq<u8>)
    ensures
        nat_to_be(be_to_nat(bytes) % scalar_modulus(), 32) == bytes <==> bytes.len() == 32
            && be_to_nat(bytes) < scalar_modulus(),
{
    lemma_moduli_fit_word();
    lemma_round_trips(bytes, 0, scalar_modulus());
}

/// Decoding an encoded scalar gives the scalar back.
pub proof fn lemma_scalar_decode_after_encode(value: nat)
    requires
        value < scalar_modulus(),
    ensures
        be_to_nat(nat_to_be(value, 32)) % scalar_modulus() == value,
{
    lemma_moduli_fit_word();
    lemma_round_trips(Seq::empty(), value, scalar_modulus());
}

} // verus!
