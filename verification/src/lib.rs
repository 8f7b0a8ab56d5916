//! A Schnorr-style digital signature scheme over a prime-order subgroup
//! of the multiplicative group modulo a safe prime: group-parameter
//! generation, keypair derivation, signing, and verification.

pub mod bignum;
pub mod engine;
pub mod primes;
pub mod schnorr;

pub use bignum::Big;
pub use schnorr::{GenerationError, Key, KeyFactory, SignedData};
