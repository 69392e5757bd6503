//! ECIES over the BN254 curve, for sealing bids of a sealed-bid auction.
//!
//! A bid is sealed to the auction's public key so that only the holder of
//! the private key can open it, in a byte layout that a contract on chain
//! can take apart: every value is a 32-byte big-endian word.
//!
//! The parts, leaves first:
//! - [`bytes`], [`word`], [`hex`]: big-endian integers, the 256-bit word,
//!   and the hexadecimal interchange form;
//! - [`field`], [`curve`]: elements of the two prime fields and points of
//!   the group, with the arithmetic of `ark-bn254`, `ark-ec` and `ark-ff`
//!   behind them;
//! - [`randomness`], [`agreement`]: the source of entropy, ephemeral key
//!   pairs and Diffie-Hellman shared secrets;
//! - [`hash`], [`kdf`]: Keccak-256 and the symmetric key derived with it;
//! - [`cipher`]: the masked and the direct cipher;
//! - [`wire`]: the layout of an encrypted bid and its parser;
//! - [`ecies`]: sealing and opening, end to end.

pub mod agreement;
pub mod bytes;
pub mod cipher;
pub mod curve;
pub mod ecies;
pub mod error;
pub mod field;
pub mod hash;
pub mod hex;
pub mod kdf;
pub mod randomness;
pub mod wire;
pub mod word;
