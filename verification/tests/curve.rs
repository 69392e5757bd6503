//! Points: admission through the curve equation, the generator, scalar
//! multiplication and key agreement.

use ecies_bn254::agreement::{
    derive_shared_secret, generate_ephemeral_key_pair, key_pair_from_entropy,
    scalar_from_entropy, KeyPair,
};
use ecies_bn254::curve::CurvePoint;
use ecies_bn254::error::EciesError;
use ecies_bn254::field::{FieldElement, ScalarElement};
use ecies_bn254::randomness::{FixedRandomness, RandomnessSource};

use ark_ec::{AffineRepr, CurveGroup};
use ark_ff::{BigInteger, PrimeField};

const TWO_G_X: &str = "030644e72e131a029b85045b68181585d97816a916871ca8d3c208c16d87cfd3";
const TWO_G_Y: &str = "15ed738c0e0a7c92e7845f96b2ae9c0a68a6a449e3538fc7ff3ebf7a5a18a2c4";
const SEVEN_G_X: &str = "17072b2ed3bb8d759a5325f477629386cb6fc6ecb801bd76983a6b86abffe078";
const SEVEN_G_Y: &str = "168ada6cd130dd52017bb54bfa19377aadfe3bf05d18f41b77809f7f60d4af9e";
const TWENTY_ONE_G_X: &str = "1ed231b62f9c8360c813c7574dfa6cd033e8e0216398ae3d93665cf5085663fb";
const SCALAR_MODULUS: &str = "30644e72e131a029b85045b68181585d2833e84879b9709143e1f593f0000001";

fn bytes_of(text: &str) -> Vec<u8> {
    ethers::utils::hex::decode(text).unwrap()
}

fn word(value: u8) -> [u8; 32] {
    let mut bytes = [0u8; 32];
    bytes[31] = value;
    bytes
}

fn ark_point(point: &CurvePoint) -> ark_bn254::G1Affine {
    if point.is_identity() {
        ark_bn254::G1Affine::identity()
    } else {
        ark_bn254::G1Affine::new(
            ark_bn254::Fq::from_be_bytes_mod_order(&point.x().encode()),
            ark_bn254::Fq::from_be_bytes_mod_order(&point.y().encode()),
        )
    }
}

#[test]
fn generator_is_one_two() {
    let generator = CurvePoint::generator();
    assert_eq!(generator.x().encode(), word(1));
    assert_eq!(generator.y().encode(), word(2));
    assert!(!generator.is_identity());
    assert_eq!(ark_point(&generator), ark_bn254::G1Affine::generator());
}

#[test]
fn generator_coordinates_make_a_point() {
    assert_eq!(CurvePoint::make_point(&[1], &[2]), Ok(CurvePoint::generator()));
    assert_eq!(
        CurvePoint::from_coordinates(FieldElement::from_u64(1), FieldElement::from_u64(2)),
        Ok(CurvePoint::generator())
    );
}

#[test]
fn coordinates_off_the_curve_are_refused() {
    for (x, y) in [(1u8, 3u8), (0, 0), (1, 1), (2, 2), (0, 1), (3, 6)] {
        assert_eq!(
            CurvePoint::make_point(&[x], &[y]),
            Err(EciesError::PointNotOnCurve),
            "({}, {})",
            x,
            y
        );
        assert_eq!(
            CurvePoint::from_coordinates(
                FieldElement::from_u64(x as u64),
                FieldElement::from_u64(y as u64)
            ),
            Err(EciesError::PointNotOnCurve)
        );
    }
}

#[test]
fn negated_generator_is_on_the_curve() {
    // (1, p - 2)
    let y = bytes_of("30644e72e131a029b85045b68181585d97816a916871ca8d3c208c16d87cfd45");
    let point = CurvePoint::make_point(&[1], &y).unwrap();
    assert_eq!(point.y().encode().to_vec(), y);
}

#[test]
fn make_point_reduces_coordinates_before_the_check() {
    // (p + 1, p + 2) stands for the generator.
    let x = bytes_of("30644e72e131a029b85045b68181585d97816a916871ca8d3c208c16d87cfd48");
    let y = bytes_of("30644e72e131a029b85045b68181585d97816a916871ca8d3c208c16d87cfd49");
    assert_eq!(CurvePoint::make_point(&x, &y), Ok(CurvePoint::generator()));
}

#[test]
fn known_multiples_of_the_generator() {
    let generator = CurvePoint::generator();
    let double = generator.scalar_mul(&ScalarElement::from_u64(2));
    assert_eq!(double.x().encode().to_vec(), bytes_of(TWO_G_X));
    assert_eq!(double.y().encode().to_vec(), bytes_of(TWO_G_Y));
    let seven = generator.scalar_mul(&ScalarElement::from_u64(7));
    assert_eq!(seven.x().encode().to_vec(), bytes_of(SEVEN_G_X));
    assert_eq!(seven.y().encode().to_vec(), bytes_of(SEVEN_G_Y));
    assert_eq!(generator.scalar_mul(&ScalarElement::from_u64(1)), generator);
}

#[test]
fn products_are_points_of_the_curve() {
    let product = CurvePoint::generator().scalar_mul(&ScalarElement::decode(&[0xab; 32]));
    assert!(!product.is_identity());
    assert_eq!(
        CurvePoint::make_point(&product.x().encode(), &product.y().encode()),
        Ok(product)
    );
}

#[test]
fn scalar_mul_agrees_with_ark_ec() {
    let scalar_bytes = [0x3cu8; 32];
    let scalar = ScalarElement::decode(&scalar_bytes);
    let base = CurvePoint::generator().scalar_mul(&ScalarElement::from_u64(11));
    let product = base.scalar_mul(&scalar);
    let expected =
        (ark_point(&base) * ark_bn254::Fr::from_be_bytes_mod_order(&scalar_bytes)).into_affine();
    assert_eq!(ark_point(&product), expected);
    assert_eq!(
        product.x().encode().to_vec(),
        expected.x.into_bigint().to_bytes_be()
    );
}

#[test]
fn zero_times_a_point_is_the_identity_with_zero_coordinates() {
    let identity = CurvePoint::generator().scalar_mul(&ScalarElement::from_u64(0));
    assert!(identity.is_identity());
    assert_eq!(identity.x().encode(), [0u8; 32]);
    assert_eq!(identity.y().encode(), [0u8; 32]);
    let order = ScalarElement::decode(&bytes_of(SCALAR_MODULUS));
    assert_eq!(CurvePoint::generator().scalar_mul(&order), identity);
}

#[test]
fn multiples_of_the_identity_are_the_identity() {
    let identity = CurvePoint::generator().scalar_mul(&ScalarElement::from_u64(0));
    assert_eq!(identity.scalar_mul(&ScalarElement::from_u64(5)), identity);
}

#[test]
fn identity_coordinates_do_not_make_a_point() {
    let identity = CurvePoint::generator().scalar_mul(&ScalarElement::from_u64(0));
    assert_eq!(
        CurvePoint::make_point(&identity.x().encode(), &identity.y().encode()),
        Err(EciesError::PointNotOnCurve)
    );
}

#[test]
fn shared_secret_is_the_same_from_both_sides() {
    let a = ScalarElement::decode(&[0x17; 32]);
    let b = ScalarElement::decode(&[0xc4; 32]);
    let a_public = KeyPair::from_secret(a).public();
    let b_public = KeyPair::from_secret(b).public();
    let from_a = derive_shared_secret(&b_public, &a);
    let from_b = derive_shared_secret(&a_public, &b);
    assert_eq!(from_a, from_b);
    assert!(!from_a.is_identity());
    assert_ne!(from_a, a_public);
}

#[test]
fn shared_secret_of_three_and_seven_is_twenty_one_times_the_generator() {
    let three = ScalarElement::from_u64(3);
    let seven = ScalarElement::from_u64(7);
    let from_three = derive_shared_secret(&KeyPair::from_secret(seven).public(), &three);
    let from_seven = derive_shared_secret(&KeyPair::from_secret(three).public(), &seven);
    assert_eq!(from_three, from_seven);
    assert_eq!(from_three.x().encode().to_vec(), bytes_of(TWENTY_ONE_G_X));
    assert_eq!(
        from_three,
        CurvePoint::generator().scalar_mul(&ScalarElement::from_u64(21))
    );
}

#[test]
fn key_pair_holds_secret_and_its_public_point() {
    let secret = ScalarElement::from_u64(7);
    let pair = KeyPair::from_secret(secret);
    assert_eq!(pair.secret(), secret);
    assert_eq!(pair.public().x().encode().to_vec(), bytes_of(SEVEN_G_X));
    assert_eq!(pair.public().y().encode().to_vec(), bytes_of(SEVEN_G_Y));
}

#[test]
fn scalar_from_entropy_reduces_sixty_four_bytes() {
    assert_eq!(scalar_from_entropy(&word(0), &word(7)), ScalarElement::from_u64(7));
    // 2^256 mod r = ((2^256 - 1) mod r) + 1
    let expected = bytes_of("0e0a77c19a07df2f666ea36f7879462e36fc76959f60cd29ac96341c4ffffffb");
    assert_eq!(
        scalar_from_entropy(&word(1), &word(0)).encode().to_vec(),
        expected
    );
    let mut both = [0xffu8; 64].to_vec();
    both[0] = 0x7f;
    let high: [u8; 32] = both[..32].try_into().unwrap();
    let low: [u8; 32] = both[32..].try_into().unwrap();
    assert_eq!(
        scalar_from_entropy(&high, &low).encode().to_vec(),
        ark_bn254::Fr::from_be_bytes_mod_order(&both)
            .into_bigint()
            .to_bytes_be()
    );
}

#[test]
fn key_pair_from_entropy_is_the_pair_of_the_reduced_scalar() {
    let pair = key_pair_from_entropy(&word(0), &word(7));
    assert_eq!(pair, KeyPair::from_secret(ScalarElement::from_u64(7)));
}

#[test]
fn ephemeral_key_pair_uses_two_words_of_the_source() {
    let mut source = FixedRandomness::new(vec![word(0), word(7), word(0), word(3)]);
    let first = generate_ephemeral_key_pair(&mut source);
    let second = generate_ephemeral_key_pair(&mut source);
    let third = generate_ephemeral_key_pair(&mut source);
    assert_eq!(first, KeyPair::from_secret(ScalarElement::from_u64(7)));
    assert_eq!(second, KeyPair::from_secret(ScalarElement::from_u64(3)));
    assert_eq!(third, first);
}

#[test]
fn fixed_source_cycles_through_its_words() {
    let mut source = FixedRandomness::new(vec![word(1), word(2), word(3)]);
    let drawn: Vec<[u8; 32]> = (0..7).map(|_| source.next_word()).collect();
    assert_eq!(
        drawn,
        vec![word(1), word(2), word(3), word(1), word(2), word(3), word(1)]
    );
}

#[test]
fn fixed_source_without_words_gives_zero_words() {
    let mut source = FixedRandomness::new(vec![]);
    assert_eq!(source.next_word(), [0u8; 32]);
    assert_eq!(source.next_word(), [0u8; 32]);
}

#[test]
fn fixed_source_with_one_word_repeats_it() {
    let mut source = FixedRandomness::new(vec![word(9)]);
    assert_eq!(source.next_word(), word(9));
    assert_eq!(source.next_word(), word(9));
}
