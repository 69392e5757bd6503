//! Big-endian codecs: words, field elements, and the interchange form.

use ecies_bn254::bytes::{
    append_bytes, left_pad_word, u128_from_be_bytes, u128_to_be_bytes, word_at, WORD_LEN,
};
use ecies_bn254::error::EciesError;
use ecies_bn254::field::{FieldElement, ScalarElement};
use ecies_bn254::hex::{from_hex, to_hex};
use ecies_bn254::word::Word256;

use ark_ff::{BigInteger, PrimeField};

const BASE_MODULUS: &str = "30644e72e131a029b85045b68181585d97816a916871ca8d3c208c16d87cfd47";
const SCALAR_MODULUS: &str = "30644e72e131a029b85045b68181585d2833e84879b9709143e1f593f0000001";

fn bytes_of(text: &str) -> Vec<u8> {
    ethers::utils::hex::decode(text).unwrap()
}

fn last_byte(value: u8) -> [u8; 32] {
    let mut word = [0u8; 32];
    word[31] = value;
    word
}

#[test]
fn word_length_is_thirty_two() {
    assert_eq!(WORD_LEN, 32);
}

#[test]
fn left_pad_puts_bytes_at_the_low_end() {
    let word = left_pad_word(&[0xde, 0xad]);
    let mut expected = [0u8; 32];
    expected[30] = 0xde;
    expected[31] = 0xad;
    assert_eq!(word, expected);
}

#[test]
fn left_pad_of_nothing_is_zero() {
    assert_eq!(left_pad_word(&[]), [0u8; 32]);
}

#[test]
fn left_pad_of_a_full_word_is_the_word() {
    let full: Vec<u8> = (0u8..32).collect();
    assert_eq!(left_pad_word(&full).to_vec(), full);
}

#[test]
fn append_bytes_extends_the_buffer() {
    let mut buffer = vec![1u8, 2];
    append_bytes(&mut buffer, &[3, 4, 5]);
    assert_eq!(buffer, vec![1, 2, 3, 4, 5]);
    append_bytes(&mut buffer, &[]);
    assert_eq!(buffer, vec![1, 2, 3, 4, 5]);
}

#[test]
fn word_at_copies_thirty_two_bytes() {
    let source: Vec<u8> = (0u8..100).collect();
    let word = word_at(&source, 5);
    assert_eq!(word.to_vec(), (5u8..37).collect::<Vec<u8>>());
    assert_eq!(word_at(&source, 68).to_vec(), (68u8..100).collect::<Vec<u8>>());
}

#[test]
fn u128_to_be_bytes_matches_std() {
    for value in [0u128, 1, 0x2a, 0x0102_0304, u128::MAX, u128::MAX - 1, 1 << 127] {
        assert_eq!(u128_to_be_bytes(value), value.to_be_bytes());
    }
}

#[test]
fn u128_from_be_bytes_matches_std() {
    for value in [0u128, 1, 0xffee_ddcc_bbaa, u128::MAX, 1 << 64] {
        assert_eq!(u128_from_be_bytes(&value.to_be_bytes()), value);
    }
}

#[test]
fn word_from_short_bytes_is_padded() {
    let word = Word256::from_be_bytes(&[0x2a]).unwrap();
    assert_eq!(word.to_be_bytes(), last_byte(0x2a));
    assert_eq!(word, Word256::from_u128(0x2a));
}

#[test]
fn word_from_empty_bytes_is_zero() {
    let word = Word256::from_be_bytes(&[]).unwrap();
    assert_eq!(word.to_be_bytes(), [0u8; 32]);
}

#[test]
fn word_from_thirty_two_bytes_keeps_them() {
    let bytes = [0xabu8; 32];
    assert_eq!(Word256::from_be_bytes(&bytes).unwrap().to_be_bytes(), bytes);
    assert_eq!(Word256::from_array(bytes).to_be_bytes(), bytes);
}

#[test]
fn word_from_thirty_three_bytes_is_malformed() {
    assert_eq!(
        Word256::from_be_bytes(&[0u8; 33]),
        Err(EciesError::MalformedInput)
    );
    assert_eq!(
        Word256::from_be_bytes(&[1u8; 64]),
        Err(EciesError::MalformedInput)
    );
}

#[test]
fn word_from_u128_has_a_zero_high_half() {
    let word = Word256::from_u128(u128::MAX).to_be_bytes();
    assert_eq!(word[..16], [0u8; 16]);
    assert_eq!(word[16..], [0xffu8; 16]);
}

#[test]
fn word_to_u128_takes_what_fits() {
    assert_eq!(Word256::from_u128(0).to_u128(), Some(0));
    assert_eq!(Word256::from_u128(u128::MAX).to_u128(), Some(u128::MAX));
    let mut wide = [0u8; 32];
    wide[15] = 1;
    assert_eq!(Word256::from_array(wide).to_u128(), None);
    wide = [0u8; 32];
    wide[0] = 0x80;
    assert_eq!(Word256::from_array(wide).to_u128(), None);
}

#[test]
fn field_decode_keeps_values_below_the_modulus() {
    assert_eq!(FieldElement::decode(&[5]).encode(), last_byte(5));
    assert_eq!(FieldElement::decode(&[]).encode(), [0u8; 32]);
    assert_eq!(FieldElement::from_u64(5), FieldElement::decode(&[5]));
}

#[test]
fn field_decode_reduces_the_modulus_to_zero() {
    assert_eq!(FieldElement::decode(&bytes_of(BASE_MODULUS)).encode(), [0u8; 32]);
}

#[test]
fn field_decode_agrees_with_ark_ff_above_the_modulus() {
    let mut above = bytes_of(BASE_MODULUS);
    above[31] += 9;
    assert_eq!(FieldElement::decode(&above).encode(), last_byte(9));
    let expected = ark_bn254::Fq::from_be_bytes_mod_order(&[0xff; 32])
        .into_bigint()
        .to_bytes_be();
    let reduced = FieldElement::decode(&[0xff; 32]).encode();
    assert_eq!(reduced.to_vec(), expected);
    assert_ne!(reduced, [0xff; 32]);
}

#[test]
fn field_decode_all_ones_has_the_known_residue() {
    // (2^256 - 1) mod p
    let expected = bytes_of("0e0a77c19a07df2f666ea36f7879462c0a78eb28f5c70b3dd35d438dc58f0d9c");
    assert_eq!(FieldElement::decode(&[0xff; 32]).encode().to_vec(), expected);
}

#[test]
fn field_decode_takes_strings_longer_than_a_word() {
    // 2^256 mod p = ((2^256 - 1) mod p) + 1
    let mut long = vec![1u8];
    long.extend_from_slice(&[0u8; 32]);
    let expected = bytes_of("0e0a77c19a07df2f666ea36f7879462c0a78eb28f5c70b3dd35d438dc58f0d9d");
    assert_eq!(FieldElement::decode(&long).encode().to_vec(), expected);
}

#[test]
fn field_encode_round_trips_below_the_modulus_only() {
    let mut below = bytes_of(BASE_MODULUS);
    below[31] -= 1;
    assert_eq!(FieldElement::decode(&below).encode().to_vec(), below);
    let at = bytes_of(BASE_MODULUS);
    assert_ne!(FieldElement::decode(&at).encode().to_vec(), at);
}

#[test]
fn scalar_decode_reduces_by_the_group_order() {
    assert_eq!(ScalarElement::decode(&bytes_of(SCALAR_MODULUS)).encode(), [0u8; 32]);
    let mut above = bytes_of(SCALAR_MODULUS);
    above[31] += 2;
    assert_eq!(ScalarElement::decode(&above).encode(), last_byte(2));
    assert_eq!(ScalarElement::from_u64(2), ScalarElement::decode(&above));
}

#[test]
fn scalar_and_field_reduce_by_different_primes() {
    let at_order = bytes_of(SCALAR_MODULUS);
    assert_eq!(FieldElement::decode(&at_order).encode().to_vec(), at_order);
    assert_eq!(ScalarElement::decode(&at_order).encode(), [0u8; 32]);
}

#[test]
fn scalar_decode_all_ones_has_the_known_residue() {
    // (2^256 - 1) mod r
    let expected = bytes_of("0e0a77c19a07df2f666ea36f7879462e36fc76959f60cd29ac96341c4ffffffa");
    assert_eq!(ScalarElement::decode(&[0xff; 32]).encode().to_vec(), expected);
}

#[test]
fn to_hex_writes_prefix_and_lower_case_digits() {
    assert_eq!(to_hex(&[]), "0x");
    assert_eq!(to_hex(&[0x00, 0x0f, 0xa0, 0xff]), "0x000fa0ff");
    assert_eq!(to_hex(&[0x12, 0x34, 0x56, 0x78, 0x9a, 0xbc, 0xde, 0xf0]), "0x123456789abcdef0");
}

#[test]
fn to_hex_agrees_with_the_hex_crate() {
    let bytes: Vec<u8> = (0u8..=255).collect();
    assert_eq!(
        to_hex(&bytes),
        format!("0x{}", ethers::utils::hex::encode(&bytes))
    );
}

#[test]
fn from_hex_reads_what_to_hex_wrote() {
    let bytes: Vec<u8> = (0u8..=255).rev().collect();
    assert_eq!(from_hex(&to_hex(&bytes)), Ok(bytes));
    assert_eq!(from_hex("0x"), Ok(vec![]));
    assert_eq!(from_hex("0x00ff10"), Ok(vec![0x00, 0xff, 0x10]));
}

#[test]
fn from_hex_refuses_everything_else() {
    for text in [
        "", "0", "x0", "00ff", "0X00", "0x0", "0x123", "0xFF", "0x0g", "0xg0", "0x 0", "0x00 ",
        " 0x00", "0x\u{e9}\u{e9}", "0x00\u{1f600}",
    ] {
        assert_eq!(from_hex(text), Err(EciesError::MalformedInput), "{:?}", text);
    }
}

#[test]
fn error_kinds_are_tagged() {
    assert_eq!(EciesError::PointNotOnCurve.kind(), "PointNotOnCurveError");
    assert_eq!(EciesError::MalformedInput.kind(), "MalformedInputError");
    assert_eq!(EciesError::UnsupportedOperation.kind(), "UnsupportedOperationError");
}

#[test]
fn error_messages_start_with_the_kind() {
    for error in [
        EciesError::PointNotOnCurve,
        EciesError::MalformedInput,
        EciesError::UnsupportedOperation,
    ] {
        let message = error.message();
        assert!(message.starts_with(error.kind()));
        assert!(message.len() > error.kind().len() + 2);
    }
    assert_eq!(
        EciesError::PointNotOnCurve.message(),
        "PointNotOnCurveError: the coordinates do not satisfy y^2 = x^3 + 3"
    );
}
