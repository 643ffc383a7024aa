//! Error taxonomy of the authentication subsystem, with the exact mapping of
//! each error to an HTTP status class: signature and claim failures are
//! unauthorized, structural failures are bad requests, and upstream failures
//! (the key-set endpoint, the storage layer) are internal errors.

use vstd::prelude::*;
use crate::username::UsernameValidationError;

verus! {

/// Why an identity token was rejected, one variant per gate of the
/// validation pipeline.
#[derive(Debug, Clone, Copy, PartialEq, Eq, Structural)]
pub enum TokenValidationError {
    /// The token is not shaped like a signed token at all (its header could
    /// not be decoded).
    MalformedToken,
    /// The token's header names no key id.
    MissingKid,
    /// No key in the provider's current key set carries the requested key id.
    UnknownKey,
    /// The provider's key set could not be fetched or was not a key-set
    /// document.
    KeyFetchFailed,
    /// The matched key's algorithm family is not RSA.
    UnsupportedKeyAlgorithm,
    /// The header declares a non-RSA signing algorithm for an RSA key.
    AlgorithmMismatch,
    /// The key's modulus or exponent, or the token's signature, is not valid
    /// base64url material.
    InvalidKeyMaterial,
    /// The cryptographic signature does not verify under the resolved key.
    InvalidSignature,
    /// The token's expiry is not in the future.
    Expired,
    /// The token's not-before time is in the future.
    NotYetValid,
    /// The audience claim is absent or differs from the configured client id.
    InvalidAudience,
    /// The issuer claim is absent or differs from the configured issuer.
    InvalidIssuer,
    /// A required claim is missing or has the wrong shape.
    MalformedClaims,
}

impl TokenValidationError {
    /// Signature and claim failures: the caller presented a well-formed but
    /// untrustworthy token.
    pub open spec fn is_unauthorized(self) -> bool {
        match self {
            TokenValidationError::AlgorithmMismatch => true,
            TokenValidationError::InvalidKeyMaterial => true,
            TokenValidationError::InvalidSignature => true,
            TokenValidationError::Expired => true,
            TokenValidationError::NotYetValid => true,
            TokenValidationError::InvalidAudience => true,
            TokenValidationError::InvalidIssuer => true,
            TokenValidationError::MalformedClaims => true,
            _ => false,
        }
    }

    /// Structural failures: the caller sent something unparsable.
    pub open spec fn is_bad_request(self) -> bool {
        match self {
            TokenValidationError::MalformedToken => true,
            TokenValidationError::MissingKid => true,
            TokenValidationError::UnknownKey => true,
            _ => false,
        }
    }

    /// Upstream failures: our dependency, not the caller, is at fault.
    pub open spec fn is_internal(self) -> bool {
        self is KeyFetchFailed || self is UnsupportedKeyAlgorithm
    }
}

/// The subsystem-wide error type, as the HTTP layer sees it.
#[derive(Debug, Clone, Copy, PartialEq, Eq, Structural)]
pub enum Error {
    /// A storage or other infrastructure failure; no detail is leaked.
    Internal,
    /// The identity token was rejected.
    TokenValidation(TokenValidationError),
    /// The requested username was rejected.
    UsernameValidation(UsernameValidationError),
    /// No account exists for the presented identity.
    NoSuchAccount,
    /// The single-use value of this login has been seen before.
    ReusedNonce,
    /// Login required, or the presented session is missing, corrupt or
    /// expired.
    Unauthorized,
    /// The credentials are insufficient for the attempted action.
    Forbidden,
}

/// The HTTP status owed to each error kind.
pub open spec fn spec_status_code(e: Error) -> u16 {
    match e {
        Error::Internal => 500,
        Error::TokenValidation(t) => if t.is_bad_request() {
            400
        } else if t.is_internal() {
            500
        } else {
            401
        },
        Error::UsernameValidation(_) => 400,
        Error::NoSuchAccount => 401,
        Error::ReusedNonce => 401,
        Error::Unauthorized => 401,
        Error::Forbidden => 403,
    }
}

impl Error {
    /// The HTTP status code this error is reported with.
    pub fn status_code(&self) -> (r: u16)
        ensures
            r == spec_status_code(*self),
    {
        match self {
            Error::Internal => 500,
            Error::TokenValidation(t) => match t {
                TokenValidationError::MalformedToken => 400,
                TokenValidationError::MissingKid => 400,
                TokenValidationError::UnknownKey => 400,
                TokenValidationError::KeyFetchFailed => 500,
                TokenValidationError::UnsupportedKeyAlgorithm => 500,
                _ => 401,
            },
            Error::UsernameValidation(_) => 400,
            Error::NoSuchAccount => 401,
            Error::ReusedNonce => 401,
            Error::Unauthorized => 401,
            Error::Forbidden => 403,
        }
    }

    /// What `message` returns for each error kind.
    pub open spec fn spec_message(self) -> Seq<char> {
        match self {
            Error::Internal => "An internal server error occurred"@,
            Error::TokenValidation(_) => "An error occured while validating a token"@,
            Error::UsernameValidation(_) => "There was an issue with a potential new username"@,
            Error::NoSuchAccount => "No account exists for the given credentials"@,
            Error::ReusedNonce => "The given nonce has been seen before"@,
            Error::Unauthorized => "Login required to perform this action"@,
            Error::Forbidden => "The given credentials were insufficient to perform this action"@,
        }
    }

    /// The generic user-facing message for this error kind: one fixed string
    /// per kind, so nothing about the failing request leaks through it.
    pub fn message(&self) -> (r: &'static str)
        ensures
            r@ == self.spec_message(),
    {
        match self {
            Error::Internal => "An internal server error occurred",
            Error::TokenValidation(_) => "An error occured while validating a token",
            Error::UsernameValidation(_) => "There was an issue with a potential new username",
            Error::NoSuchAccount => "No account exists for the given credentials",
            Error::ReusedNonce => "The given nonce has been seen before",
            Error::Unauthorized => "Login required to perform this action",
            Error::Forbidden => "The given credentials were insufficient to perform this action",
        }
    }

    /// The user-facing detail message: only username rejections carry one;
    /// everything else stays generic so no internal detail leaks.
    pub fn detailed_message(&self) -> (r: Option<&'static str>)
        ensures
            r is Some <==> self is UsernameValidation,
            self matches Error::UsernameValidation(u) ==> r matches Some(m) && m@ == u.spec_message(),
    {
        match self {
            Error::UsernameValidation(u) => Some(u.message()),
            _ => None,
        }
    }
}

} // verus!
