//! A TFHE-style cryptosystem over the 32-bit discretised torus: TLWE and
//! TRLWE ciphertexts, TRGSW gadget encryption with external product and
//! CMUX, blind rotation, gate bootstrapping, identity key switching and a
//! homomorphic NAND gate.
//!
//! Randomness: uniform torus words and secret bits are drawn inside the
//! library; the Gaussian noise of every encryption is handed in by the caller
//! as torus words, in the order that each function documents.

pub mod params;
pub mod util;
pub mod ops;
pub mod sampling;
pub mod key;
pub mod tlwe;
pub mod trlwe;
pub mod trgsw;
pub mod bootstrapping;
pub mod key_switching;
pub mod homnand;

