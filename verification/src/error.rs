//! The closed set of failures shared with the protocols built on this crate.

use vstd::prelude::*;

verus! {

/// Why an operation failed.
///
/// Only [`ZKError::FormatError`] is produced by this crate; the other kinds
/// belong to the protocols that share the type.
#[derive(Clone, Debug, PartialEq, Eq, Structural)]
pub enum ZKError {
    /// A proof or signature did not check.
    VerificationError,
    /// An argument supplied by the caller is invalid.
    ArgumentError,
    /// A byte payload cannot be parsed into the expected algebraic value.
    FormatError,
    /// A higher-level decoding step failed.
    DecodeError,
    /// A failure passed through from the Indy crypto library.
    IndyCryptoError,
}

impl ZKError {
    /// The text shown for each kind of failure.
    pub open spec fn message_text(self) -> Seq<char> {
        match self {
            ZKError::VerificationError => "Verification failed"@,
            ZKError::ArgumentError => "Argument is invalid"@,
            ZKError::FormatError => "Data cannot be parsed"@,
            ZKError::DecodeError => "Data cannot be decoded"@,
            ZKError::IndyCryptoError => "Indy Crypto error"@,
        }
    }

    /// Human-readable description of the failure.
    pub fn message(&self) -> (text: String)
        ensures
            text@ == self.message_text(),
    {
        match self {
            ZKError::VerificationError => "Verification failed".to_owned(),
            ZKError::ArgumentError => "Argument is invalid".to_owned(),
            ZKError::FormatError => "Data cannot be parsed".to_owned(),
            ZKError::DecodeError => "Data cannot be decoded".to_owned(),
            ZKError::IndyCryptoError => "Indy Crypto error".to_owned(),
        }
    }
}

} // verus!
