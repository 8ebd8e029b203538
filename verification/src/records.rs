//! Request, response and key records.
//!
//! Request and response records are plain data that cross the library
//! boundary.  Key records pair the opaque backend key material with the
//! plain metadata that the library's logic reads.

use vstd::prelude::*;
use pgp::composed::{SignedPublicKey, SignedSecretKey};

verus! {

/// Parameters for `generate_key_pair`.
pub struct GenerateKeyParams {
    pub user_id: String,
    pub passphrase: Option<String>,
}

/// Parameters for `encrypt_message`.
pub struct EncryptParams {
    pub recipient_key_ids: Vec<String>,
    pub plaintext: String,
}

/// Parameters for `decrypt_message`.
pub struct DecryptParams {
    pub private_key_id: String,
    pub passphrase: Option<String>,
    pub ciphertext: String,
}

/// Parameters for `sign_message` and `create_detached_signature`.
pub struct SignParams {
    pub private_key_id: String,
    pub passphrase: Option<String>,
    pub message: String,
}

/// Parameters for `verify_message`.
pub struct VerifyParams {
    pub signer_key_id: String,
    pub message: String,
    pub signature: String,
}

/// The outcome of a verification: a normal result, never an error path.
pub struct VerifyResult {
    pub is_valid: bool,
    pub message: String,
}

/// The response of `generate_key_pair`.
pub struct KeyPairResult {
    pub key_id: String,
    pub fingerprint: String,
    pub user_id: String,
    pub algorithm: String,
    pub public_key_armored: String,
    pub private_key_armored: String,
    pub created_at: String,
}

/// The response of `get_public_key` and the element of
/// `get_all_public_keys`.
pub struct PublicKeyResult {
    pub key_id: String,
    pub fingerprint: String,
    pub user_id: String,
    pub algorithm: String,
    pub public_key_armored: String,
    pub created_at: String,
}

/// A secret key record: opaque key material plus the plain metadata the
/// logic reads.  Immutable after creation.
pub struct SecretKeyRecord {
    pub key_id: String,
    pub user_id: String,
    /// Whether the key material is locked under a passphrase.
    pub protected: bool,
    pub private_key_armored: String,
    pub created_at: String,
    pub handle: SignedSecretKey,
}

/// The public projection of a key pair.  Immutable after construction.
pub struct PublicKeyRecord {
    pub key_id: String,
    pub fingerprint: String,
    pub user_id: String,
    pub algorithm: String,
    pub public_key_armored: String,
    pub created_at: String,
    pub handle: SignedPublicKey,
}

impl PublicKeyRecord {
    /// The response record for this stored public key: the same plain
    /// fields, without the key material.
    pub fn to_result(&self) -> (r: PublicKeyResult)
        ensures
            r.key_id@ == self.key_id@,
            r.fingerprint@ == self.fingerprint@,
            r.user_id@ == self.user_id@,
            r.algorithm@ == self.algorithm@,
            r.public_key_armored@ == self.public_key_armored@,
            r.created_at@ == self.created_at@,
    {
        PublicKeyResult {
            key_id: self.key_id.clone(),
            fingerprint: self.fingerprint.clone(),
            user_id: self.user_id.clone(),
            algorithm: self.algorithm.clone(),
            public_key_armored: self.public_key_armored.clone(),
            created_at: self.created_at.clone(),
        }
    }
}

} // verus!
