//! The typed failures that every operation returns to its caller.

use vstd::prelude::*;

verus! {

/// A typed operation failure.
///
/// Every failure is returned to the immediate caller; none crashes the
/// process.  Lookup misses carry the identifier that missed, and causes
/// reported by the cryptographic backend carry its diagnostic text, which
/// never includes passphrase or private key material.
#[derive(Debug)]
pub enum ServiceError {
    /// A request field is malformed or missing.
    ParameterInvalid(String),
    /// No key is registered under the given identifier.
    KeyNotFound(String),
    /// No public key is registered under the given recipient identifier.
    RecipientKeyNotFound(String),
    /// The recipient list resolved to no usable key.
    NoValidRecipients,
    /// Key generation failed; the text names the cause.
    KeyGenerationFailed(String),
    /// The armored ciphertext could not be parsed.
    MalformedCiphertext(String),
    /// A signature or key artifact could not be parsed.
    MalformedInput(String),
    /// No supplied key could open the message, or the passphrase was wrong.
    DecryptionFailed(String),
    /// The recovered bytes are not valid text.
    InvalidEncoding,
    /// A response artifact could not be encoded for the caller.
    SerializationFailed(String),
}

impl ServiceError {
    /// A short stable label for the error kind, for display and logging.
    pub fn kind_label(&self) -> (r: &'static str)
        ensures
            r@ == self.spec_kind_label(),
    {
        match self {
            ServiceError::ParameterInvalid(_) => "ParameterInvalid",
            ServiceError::KeyNotFound(_) => "KeyNotFound",
            ServiceError::RecipientKeyNotFound(_) => "RecipientKeyNotFound",
            ServiceError::NoValidRecipients => "NoValidRecipients",
            ServiceError::KeyGenerationFailed(_) => "KeyGenerationFailed",
            ServiceError::MalformedCiphertext(_) => "MalformedCiphertext",
            ServiceError::MalformedInput(_) => "MalformedInput",
            ServiceError::DecryptionFailed(_) => "DecryptionFailed",
            ServiceError::InvalidEncoding => "InvalidEncoding",
            ServiceError::SerializationFailed(_) => "SerializationFailed",
        }
    }

    /// The label that `kind_label` returns for each variant.
    pub open spec fn spec_kind_label(&self) -> Seq<char> {
        match self {
            ServiceError::ParameterInvalid(_) => "ParameterInvalid"@,
            ServiceError::KeyNotFound(_) => "KeyNotFound"@,
            ServiceError::RecipientKeyNotFound(_) => "RecipientKeyNotFound"@,
            ServiceError::NoValidRecipients => "NoValidRecipients"@,
            ServiceError::KeyGenerationFailed(_) => "KeyGenerationFailed"@,
            ServiceError::MalformedCiphertext(_) => "MalformedCiphertext"@,
            ServiceError::MalformedInput(_) => "MalformedInput"@,
            ServiceError::DecryptionFailed(_) => "DecryptionFailed"@,
            ServiceError::InvalidEncoding => "InvalidEncoding"@,
            ServiceError::SerializationFailed(_) => "SerializationFailed"@,
        }
    }
}

} // verus!
