use hotsauce_auth::errors::TokenValidationError;
use hotsauce_auth::keyset::{Jwk, JwkAlg, KeySet};

fn rsa_key(kid: Option<&str>, n: &str) -> Jwk {
    Jwk {
        kid: kid.map(|s| s.to_string()),
        alg: JwkAlg::Rsa { n: n.to_string(), e: "AQAB".to_string() },
    }
}

#[test]
fn resolve_finds_the_matching_key() {
    let ks = KeySet { keys: vec![rsa_key(Some("k1"), "nnn1"), rsa_key(Some("k2"), "nnn2")] };
    let sk = ks.resolve("k2").unwrap();
    assert_eq!(sk.n, "nnn2");
    assert_eq!(sk.e, "AQAB");
}

#[test]
fn resolve_takes_the_first_match() {
    let ks = KeySet { keys: vec![rsa_key(Some("k1"), "first"), rsa_key(Some("k1"), "second")] };
    assert_eq!(ks.resolve("k1").unwrap().n, "first");
}

#[test]
fn resolve_fails_unknown_key_when_nothing_matches() {
    let ks = KeySet { keys: vec![rsa_key(Some("k1"), "nnn1"), rsa_key(None, "nnn2")] };
    assert_eq!(ks.resolve("k3").unwrap_err(), TokenValidationError::UnknownKey);
    // A key without an id never matches.
    let empty = KeySet { keys: vec![] };
    assert_eq!(empty.resolve("k1").unwrap_err(), TokenValidationError::UnknownKey);
}

#[test]
fn resolve_rejects_non_rsa_keys() {
    let ks = KeySet { keys: vec![Jwk { kid: Some("k1".to_string()), alg: JwkAlg::Other }] };
    assert_eq!(ks.resolve("k1").unwrap_err(), TokenValidationError::UnsupportedKeyAlgorithm);
}
