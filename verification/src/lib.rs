//! An OpenPGP key-management and messaging service.
//!
//! The library generates signing/encryption key pairs with post-quantum
//! algorithms, keeps them in an in-memory key store, and encrypts, decrypts,
//! signs and verifies OpenPGP ASCII-armored artifacts.  The cryptographic
//! primitives are supplied by the `pgp` crate behind a small trusted
//! boundary; everything around them — identifier derivation, the key store,
//! recipient resolution, error classification — is verified.

pub mod backend;
pub mod errors;
pub mod hexid;
pub mod ops;
pub mod records;
pub mod store;
pub mod textnorm;
