//! Points of the group G1 of BN254: the curve `y^2 = x^3 + 3` over the base
//! field, with the point at infinity as identity.
//!
//! The curve arithmetic itself is `ark-ec`'s. This module holds a point as
//! plain coordinates, admits coordinates from outside only through the curve
//! equation, and hands the coordinates to `ark-ec` for scalar multiplication.

use vstd::prelude::*;
use ark_ec::CurveGroup;
use ark_ff::{BigInteger, PrimeField};
use crate::bytes::be_to_nat;
use crate::error::EciesError;
use crate::field::{base_modulus, scalar_modulus, FieldElement, ScalarElement};

verus! {

/// A point in affine coordinates, as mathematics sees it. The identity has
/// `infinity` set and both coordinates zero.
pub struct AffinePoint {
    pub x: nat,
    pub y: nat,
    pub infinity: bool,
}

/// The curve equation `y^2 = x^3 + 3` in the base field.
pub open spec fn satisfies_curve_equation(x: nat, y: nat) -> bool {
    (y * y) % base_modulus() == (x * x * x + 3) % base_modulus()
}

/// The point is an element of the group: the identity, or canonical
/// coordinates that satisfy the curve equation.
pub open spec fn is_group_element(point: AffinePoint) -> bool {
    &&& point.x < base_modulus()
    &&& point.y < base_modulus()
    &&& if point.infinity {
        point.x == 0 && point.y == 0
    } else {
        satisfies_curve_equation(point.x, point.y)
    }
}

/// The generator of the group: the point `(1, 2)`.
pub open spec fn g1_generator() -> AffinePoint {
    AffinePoint { x: 1, y: 2, infinity: false }
}

/// The product `scalar * point` in the group, as `ark-ec` computes it.
pub uninterp spec fn g1_mul(point: AffinePoint, scalar: nat) -> AffinePoint;

/// The point that two big-endian coordinate strings stand for: each is
/// reduced modulo the prime, and the pair is a point only if it satisfies
/// the curve equation.
pub open spec fn point_from_bytes(x_bytes: Seq<u8>, y_bytes: Seq<u8>) -> Option<AffinePoint> {
    let x = be_to_nat(x_bytes) % base_modulus();
    let y = be_to_nat(y_bytes) % base_modulus();
    if satisfies_curve_equation(x, y) {
        Some(AffinePoint { x, y, infinity: false })
    } else {
        None
    }
}

/// The generator's coordinates satisfy the curve equation.
pub proof fn lemma_generator_on_curve()
    ensures
        is_group_element(g1_generator()),
        satisfies_curve_equation(1, 2),
{
    assert(2 * 2 == 1 * 1 * 1 + 3) by (nonlinear_arith);
}

/// Calls `ark_ec::short_weierstrass::Affine::is_on_curve` on the
/// `ark_bn254::G1Affine` that `new_unchecked` builds from the coordinates.
///
/// Trusted, not proved: for canonical coordinates the answer is whether
/// they satisfy `y^2 = x^3 + 3` in the base field. The curve has cofactor
/// one, so a point on it needs no further check to be in the group.
#[verifier::external_body]
fn coordinates_on_curve(x: &[u8; 32], y: &[u8; 32]) -> (ok: bool)
    requires
        be_to_nat(x@) < base_modulus(),
        be_to_nat(y@) < base_modulus(),
    ensures
        ok == satisfies_curve_equation(be_to_nat(x@), be_to_nat(y@)),
{
    let x = ark_bn254::Fq::from_be_bytes_mod_order(x);
    let y = ark_bn254::Fq::from_be_bytes_mod_order(y);
    ark_bn254::G1Affine::new_unchecked(x, y).is_on_curve()
}

/// Calls the multiplication of an `ark_bn254::G1Affine` by an
/// `ark_bn254::Fr` and `ark_ec::CurveGroup::into_affine` on the product.
///
/// Trusted, not proved: the coordinates and the infinity flag returned are
/// those of `scalar * point`, which depends on the point and the scalar
/// alone; and the product of a group element is a group element, with
/// canonical coordinates, the identity being returned with both
/// coordinates zero.
#[verifier::external_body]
fn multiply_coordinates(x: &[u8; 32], y: &[u8; 32], infinity: bool, scalar: &[u8; 32]) -> (out: (
    [u8; 32],
    [u8; 32],
    bool,
))
    requires
        is_group_element(AffinePoint { x: be_to_nat(x@), y: be_to_nat(y@), infinity }),
        be_to_nat(scalar@) < scalar_modulus(),
    ensures
        (AffinePoint { x: be_to_nat(out.0@), y: be_to_nat(out.1@), infinity: out.2 }) == g1_mul(
            AffinePoint { x: be_to_nat(x@), y: be_to_nat(y@), infinity },
            be_to_nat(scalar@),
        ),
        is_group_element(
            AffinePoint { x: be_to_nat(out.0@), y: be_to_nat(out.1@), infinity: out.2 },
        ),
{
    let x = ark_bn254::Fq::from_be_bytes_mod_order(x);
    let y = ark_bn254::Fq::from_be_bytes_mod_order(y);
    let base = ark_bn254::G1Affine { x, y, infinity };
    let product = (base * ark_bn254::Fr::from_be_bytes_mod_order(scalar)).into_affine();
    let mut out_x = [0u8; 32];
    out_x.copy_from_slice(&product.x.into_bigint().to_bytes_be());
    let mut out_y = [0u8; 32];
    out_y.copy_from_slice(&product.y.into_bigint().to_bytes_be());
    (out_x, out_y, product.infinity)
}

/// An element of G1. One built from coordinates is never the identity; the
/// identity arises only as a product.
#[derive(Clone, Copy, Debug, PartialEq, Eq)]
pub struct CurvePoint {
    x: FieldElement,
    y: FieldElement,
    infinity: bool,
}

impl View for CurvePoint {
    type V = AffinePoint;

    closed spec fn view(&self) -> AffinePoint {
        AffinePoint { x: self.x@, y: self.y@, infinity: self.infinity }
    }
}

impl CurvePoint {
    /// The point is an element of the group.
    pub open spec fn wf(&self) -> bool {
        is_group_element(self@)
    }

    /// The generator `(1, 2)`.
    pub fn generator() -> (point: CurvePoint)
        ensures
            point.wf(),
            point@ == g1_generator(),
    {
        proof {
            lemma_generator_on_curve();
        }
        CurvePoint { x: FieldElement::from_u64(1), y: FieldElement::from_u64(2), infinity: false }
    }

    /// The point with the given coordinates, if they satisfy the curve
    /// equation.
    pub fn from_coordinates(x: FieldElement, y: FieldElement) -> (result: Result<
        CurvePoint,
        EciesError,
    >)
        requires
            x.wf(),
            y.wf(),
        ensures
            match result {
                Ok(point) => {
                    &&& satisfies_curve_equation(x@, y@)
                    &&& point.wf()
                    &&& point@ == AffinePoint { x: x@, y: y@, infinity: false }
                },
                Err(error) => {
                    &&& !satisfies_curve_equation(x@, y@)
                    &&& error == EciesError::PointNotOnCurve
                },
            },
    {
        let x_bytes = x.encode();
        let y_bytes = y.encode();
        if coordinates_on_curve(&x_bytes, &y_bytes) {
            Ok(CurvePoint { x, y, infinity: false })
        } else {
            Err(EciesError::PointNotOnCurve)
        }
    }

    /// Decodes both coordinates, reducing each modulo the prime, and admits
    /// the point only if it satisfies the curve equation. This is the one
    /// gate through which a public key from outside becomes a point.
    pub fn make_point(x_bytes: &[u8], y_bytes: &[u8]) -> (result: Result<CurvePoint, EciesError>)
        ensures
            match point_from_bytes(x_bytes@, y_bytes@) {
                Some(point) => result is Ok && result->Ok_0@ == point && result->Ok_0.wf(),
                None => result == Err::<CurvePoint, EciesError>(EciesError::PointNotOnCurve),
            },
    {
        CurvePoint::from_coordinates(FieldElement::decode(x_bytes), FieldElement::decode(y_bytes))
    }

    /// The first coordinate; zero for the identity.
    pub fn x(&self) -> (x: FieldElement)
        ensures
            x@ == self@.x,
            self.wf() ==> x.wf(),
    {
        self.x
    }

    /// The second coordinate; zero for the identity.
    pub fn y(&self) -> (y: FieldElement)
        ensures
            y@ == self@.y,
            self.wf() ==> y.wf(),
    {
        self.y
    }

    /// Whether the point is the identity of the group.
    pub fn is_identity(&self) -> (identity: bool)
        ensures
            identity == self@.infinity,
    {
        self.infinity
    }

    /// The product `scalar * self`.
    pub fn scalar_mul(&self, scalar: &ScalarElement) -> (product: CurvePoint)
        requires
            self.wf(),
            scalar.wf(),
        ensures
            product.wf(),
            product@ == g1_mul(self@, scalar@),
    {
        let x_bytes = self.x.encode();
        let y_bytes = self.y.encode();
        let scalar_bytes = scalar.encode();
        let (x, y, infinity) = multiply_coordinates(
            &x_bytes,
            &y_bytes,
            self.infinity,
            &scalar_bytes,
        );
        CurvePoint {
            x: FieldElement::from_canonical(x),
            y: FieldElement::from_canonical(y),
            infinity,
        }
    }
}

} // verus!
