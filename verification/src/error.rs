//! The errors of this crate.

use vstd::prelude::*;

verus! {

/// The channel's error type, carried through as it came.
#[verifier::external_type_specification]
#[verifier::external_body]
pub struct ExIoError(std::io::Error);

/// An error from this crate.
#[derive(Debug)]
pub enum Error {
    /// A proof did not verify: an equation failed, a challenge did not match,
    /// a message bore another label than the one awaited, or a value was not
    /// a canonical encoding.
    BadProof,
    /// A signature did not verify.
    BadSignature,
    /// The channel failed.
    Transport(std::io::Error),
}

/// The text of a channel error.
///
/// Trusted: `to_string` on `std::io::Error`. Nothing is claimed of the text.
#[verifier::external_body]
fn channel_error_text(e: &std::io::Error) -> String {
    e.to_string()
}

impl Error {
    /// What the error says of itself. A channel error speaks for itself.
    pub fn message(&self) -> (out: String)
        ensures
            self is BadProof ==> out@ == "proof verification failed"@,
            self is BadSignature ==> out@ == "signature verification failed"@,
    {
        match self {
            Error::BadProof => "proof verification failed".to_string(),
            Error::BadSignature => "signature verification failed".to_string(),
            Error::Transport(e) => channel_error_text(e),
        }
    }

    /// Whether this is `BadProof`.
    pub open spec fn is_bad_proof(self) -> bool {
        self is BadProof
    }

    /// Whether this is `BadSignature`.
    pub open spec fn is_bad_signature(self) -> bool {
        self is BadSignature
    }
}

} // verus!
