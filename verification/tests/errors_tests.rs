use hotsauce_auth::errors::{Error, TokenValidationError};
use hotsauce_auth::username::UsernameValidationError;

#[test]
fn signature_and_claim_failures_map_to_unauthorized() {
    for t in [
        TokenValidationError::AlgorithmMismatch,
        TokenValidationError::InvalidKeyMaterial,
        TokenValidationError::InvalidSignature,
        TokenValidationError::Expired,
        TokenValidationError::NotYetValid,
        TokenValidationError::InvalidAudience,
        TokenValidationError::InvalidIssuer,
        TokenValidationError::MalformedClaims,
    ] {
        assert_eq!(Error::TokenValidation(t).status_code(), 401);
    }
}

#[test]
fn structural_failures_map_to_bad_request() {
    for t in [
        TokenValidationError::MalformedToken,
        TokenValidationError::MissingKid,
        TokenValidationError::UnknownKey,
    ] {
        assert_eq!(Error::TokenValidation(t).status_code(), 400);
    }
}

#[test]
fn upstream_failures_map_to_internal_error() {
    for t in [TokenValidationError::KeyFetchFailed, TokenValidationError::UnsupportedKeyAlgorithm] {
        assert_eq!(Error::TokenValidation(t).status_code(), 500);
    }
}

#[test]
fn account_and_session_failures_map_to_unauthorized() {
    assert_eq!(Error::NoSuchAccount.status_code(), 401);
    assert_eq!(Error::ReusedNonce.status_code(), 401);
    assert_eq!(Error::Unauthorized.status_code(), 401);
}

#[test]
fn privilege_failures_map_to_forbidden() {
    assert_eq!(Error::Forbidden.status_code(), 403);
}

#[test]
fn infrastructure_failures_map_to_internal_error() {
    assert_eq!(Error::Internal.status_code(), 500);
}

#[test]
fn username_rejections_map_to_bad_request_with_detail() {
    let e = Error::UsernameValidation(UsernameValidationError::TooLong);
    assert_eq!(e.status_code(), 400);
    assert_eq!(e.detailed_message(), Some("Usernames must be less than 25 characters long"));
}

#[test]
fn only_username_rejections_carry_a_detail_message() {
    assert_eq!(Error::Internal.detailed_message(), None);
    assert_eq!(Error::NoSuchAccount.detailed_message(), None);
    assert_eq!(
        Error::TokenValidation(TokenValidationError::InvalidSignature).detailed_message(),
        None
    );
}
