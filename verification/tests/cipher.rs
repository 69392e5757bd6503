//! The cipher: keystream, the two plaintext layouts, and the key behind
//! them.

use ecies_bn254::cipher::{apply_keystream, Cipher};
use ecies_bn254::curve::CurvePoint;
use ecies_bn254::error::EciesError;
use ecies_bn254::field::ScalarElement;
use ecies_bn254::kdf::{derive_symmetric_key, SymmetricKey};
use ecies_bn254::word::Word256;

fn bytes_of(text: &str) -> Vec<u8> {
    ethers::utils::hex::decode(text).unwrap()
}

/// The key of the recipient 7, the ephemeral scalar 3 and the salt 1.
fn vector_key() -> SymmetricKey {
    let shared = CurvePoint::generator().scalar_mul(&ScalarElement::from_u64(21));
    derive_symmetric_key(&shared, &Word256::from_u128(1))
}

#[test]
fn symmetric_key_of_the_vector() {
    assert_eq!(
        vector_key().as_bytes().to_vec(),
        bytes_of("a9566f5724d92dbe36d63542977d3d6464c3bae9d4c68e9f9a35ad76fab5144e")
    );
}

#[test]
fn symmetric_key_is_keccak_of_coordinate_and_salt() {
    let shared = CurvePoint::generator().scalar_mul(&ScalarElement::from_u64(5));
    let salt = Word256::from_array([0x33; 32]);
    let mut preimage = shared.x().encode().to_vec();
    preimage.extend_from_slice(&[0x33; 32]);
    assert_eq!(
        *derive_symmetric_key(&shared, &salt).as_bytes(),
        ethers::utils::keccak256(&preimage)
    );
}

#[test]
fn symmetric_key_ignores_the_second_coordinate() {
    let point = CurvePoint::generator();
    // (1, p - 2)
    let negated = CurvePoint::make_point(
        &[1],
        &bytes_of("30644e72e131a029b85045b68181585d97816a916871ca8d3c208c16d87cfd45"),
    )
    .unwrap();
    let salt = Word256::from_u128(9);
    assert_ne!(point, negated);
    assert_eq!(
        derive_symmetric_key(&point, &salt),
        derive_symmetric_key(&negated, &salt)
    );
}

#[test]
fn symmetric_key_depends_on_the_salt() {
    let point = CurvePoint::generator();
    assert_ne!(
        derive_symmetric_key(&point, &Word256::from_u128(1)),
        derive_symmetric_key(&point, &Word256::from_u128(2))
    );
}

#[test]
fn symmetric_key_of_the_identity_hashes_a_zero_coordinate() {
    let identity = CurvePoint::generator().scalar_mul(&ScalarElement::from_u64(0));
    let key = derive_symmetric_key(&identity, &Word256::from_u128(0));
    assert_eq!(*key.as_bytes(), ethers::utils::keccak256([0u8; 64]));
}

#[test]
fn keystream_xors_byte_by_byte() {
    let key = vector_key();
    let data = [0xffu8; 32];
    let out = apply_keystream(&data, &key);
    let expected: Vec<u8> = key.as_bytes().iter().map(|byte| byte ^ 0xff).collect();
    assert_eq!(out, expected);
}

#[test]
fn keystream_of_zeros_is_the_key() {
    let key = vector_key();
    assert_eq!(apply_keystream(&[0u8; 32], &key), key.as_bytes().to_vec());
    assert_eq!(apply_keystream(&[0u8; 5], &key), key.as_bytes()[..5].to_vec());
    assert_eq!(apply_keystream(&[], &key), Vec::<u8>::new());
}

#[test]
fn keystream_cycles_the_key_past_thirty_two_bytes() {
    let key = vector_key();
    let out = apply_keystream(&[0u8; 70], &key);
    assert_eq!(out.len(), 70);
    assert_eq!(out[..32], key.as_bytes()[..]);
    assert_eq!(out[32..64], key.as_bytes()[..]);
    assert_eq!(out[64..], key.as_bytes()[..6]);
}

#[test]
fn keystream_twice_is_the_identity() {
    let key = vector_key();
    let data: Vec<u8> = (0u8..100).collect();
    assert_eq!(apply_keystream(&apply_keystream(&data, &key), &key), data);
}

#[test]
fn masked_plaintext_wraps_around() {
    // S = 0, M = 1: the masked message is 2^128 - 1.
    let plaintext = Cipher::Masked.plaintext(&Word256::from_u128(1), 0).unwrap();
    assert_eq!(plaintext[..16], [0u8; 16]);
    assert_eq!(plaintext[16..], [0xffu8; 16]);
}

#[test]
fn masked_plaintext_is_mask_then_difference() {
    let mask = 0x0102_0304_0506_0708_090a_0b0c_0d0e_0f10u128;
    let message = 0x10u128;
    let plaintext = Cipher::Masked.plaintext(&Word256::from_u128(message), mask).unwrap();
    assert_eq!(plaintext[..16], mask.to_be_bytes());
    assert_eq!(plaintext[16..], (mask - message).to_be_bytes());
}

#[test]
fn masked_plaintext_of_equal_mask_and_message_is_zero_difference() {
    let plaintext = Cipher::Masked.plaintext(&Word256::from_u128(77), 77).unwrap();
    assert_eq!(plaintext[..16], 77u128.to_be_bytes());
    assert_eq!(plaintext[16..], [0u8; 16]);
}

#[test]
fn masked_plaintext_wraps_at_the_extremes() {
    let plaintext = Cipher::Masked.plaintext(&Word256::from_u128(u128::MAX), 0).unwrap();
    assert_eq!(plaintext[16..], 1u128.to_be_bytes());
    let plaintext = Cipher::Masked.plaintext(&Word256::from_u128(u128::MAX), 5).unwrap();
    assert_eq!(plaintext[16..], 6u128.to_be_bytes());
}

#[test]
fn mask_minus_masked_value_is_the_message() {
    for (mask, message) in [(0u128, 1u128), (5, u128::MAX), (u128::MAX, 0), (1 << 100, 1 << 127)] {
        let plaintext = Cipher::Masked.plaintext(&Word256::from_u128(message), mask).unwrap();
        let masked = u128::from_be_bytes(plaintext[16..].try_into().unwrap());
        assert_eq!(mask.wrapping_sub(masked), message);
    }
}

#[test]
fn masked_plaintext_refuses_a_wide_message() {
    let mut wide = [0u8; 32];
    wide[15] = 1;
    assert_eq!(
        Cipher::Masked.plaintext(&Word256::from_array(wide), 0),
        Err(EciesError::MalformedInput)
    );
    assert_eq!(
        Cipher::Masked.encrypt(&Word256::from_array(wide), 0, &vector_key()),
        Err(EciesError::MalformedInput)
    );
}

#[test]
fn direct_plaintext_is_the_word() {
    let word = [0x5au8; 32];
    assert_eq!(
        Cipher::Direct.plaintext(&Word256::from_array(word), 123),
        Ok(word)
    );
}

#[test]
fn direct_encryption_of_the_vector() {
    let ciphertext = Cipher::Direct
        .encrypt(&Word256::from_u128(0x2a), 0, &vector_key())
        .unwrap();
    assert_eq!(
        ciphertext.to_vec(),
        bytes_of("a9566f5724d92dbe36d63542977d3d6464c3bae9d4c68e9f9a35ad76fab51464")
    );
}

#[test]
fn direct_encryption_ignores_the_mask() {
    let key = vector_key();
    let message = Word256::from_u128(0x2a);
    assert_eq!(
        Cipher::Direct.encrypt(&message, 0, &key),
        Cipher::Direct.encrypt(&message, u128::MAX, &key)
    );
}

#[test]
fn direct_decryption_undoes_encryption() {
    let key = vector_key();
    let message = Word256::from_array([0xc3; 32]);
    let ciphertext = Cipher::Direct.encrypt(&message, 0, &key).unwrap();
    assert_ne!(ciphertext, [0xc3; 32]);
    assert_eq!(Cipher::Direct.decrypt(&ciphertext, &key), Ok(message));
}

#[test]
fn masked_encryption_is_plaintext_under_the_keystream() {
    let key = vector_key();
    let message = Word256::from_u128(3);
    let plaintext = Cipher::Masked.plaintext(&message, 10).unwrap();
    let ciphertext = Cipher::Masked.encrypt(&message, 10, &key).unwrap();
    assert_eq!(ciphertext.to_vec(), apply_keystream(&plaintext, &key));
}

#[test]
fn masked_decryption_is_unsupported() {
    assert_eq!(
        Cipher::Masked.decrypt(&[0u8; 32], &vector_key()),
        Err(EciesError::UnsupportedOperation)
    );
}
