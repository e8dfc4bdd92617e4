//! Arithmetic gadgets for verifying BLS signatures over pairing-friendly
//! curves: big-integer residues, prime-field and tower-field arithmetic,
//! curve points, the optimal Ate pairing and the signature check on top.

pub mod bigint;
pub mod bignum;
pub mod bls12_381;
pub mod bn254;
pub mod curves;
pub mod ecc;
pub mod errors;
pub mod fields;
pub mod limbs;
pub mod modular;
pub mod pairing;
