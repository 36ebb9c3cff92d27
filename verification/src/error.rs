//! The ways in which an operation of this library fails.

use vstd::prelude::*;

verus! {

#[derive(Clone, Copy, Debug, PartialEq, Eq, Structural)]
pub enum X3dhError {
    /// A signature over prekeys does not verify under the identity key.
    BundleVerifyFailed,
    /// The directory holds no user of that identity.
    UnknownUser,
    /// The client holds no secret for the one-time key that a message names.
    UnknownOneTimeKey,
    /// The ciphertext is not authentic for the derived key and the two
    /// identity keys.
    DecryptFailed,
    /// An identity key is not the encoding of a curve point.
    InvalidEncoding,
    /// The cipher refused to seal a payload of that length.
    EncryptFailed,
}

impl X3dhError {
    /// A short description of the failure.
    pub fn message(&self) -> (text: &'static str)
        ensures
            text@ == self.message_spec(),
    {
        match self {
            X3dhError::BundleVerifyFailed => "prekey signature does not verify",
            X3dhError::UnknownUser => "user not found",
            X3dhError::UnknownOneTimeKey => "one-time key not found",
            X3dhError::DecryptFailed => "decryption failed",
            X3dhError::InvalidEncoding => "identity key is not a curve point",
            X3dhError::EncryptFailed => "payload cannot be sealed",
        }
    }

    pub open spec fn message_spec(&self) -> Seq<char> {
        match self {
            X3dhError::BundleVerifyFailed => "prekey signature does not verify"@,
            X3dhError::UnknownUser => "user not found"@,
            X3dhError::UnknownOneTimeKey => "one-time key not found"@,
            X3dhError::DecryptFailed => "decryption failed"@,
            X3dhError::InvalidEncoding => "identity key is not a curve point"@,
            X3dhError::EncryptFailed => "payload cannot be sealed"@,
        }
    }
}

} // verus!
