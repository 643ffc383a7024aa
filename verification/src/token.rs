//! Identity-token validation: the ordered gates that turn an inbound signed
//! token into trusted `Claims`. The cryptographic signature is confirmed
//! before any claim value is trusted; temporal claims, audience and issuer
//! are then held to the configured values exactly; only then are the
//! remaining claims read out. Each gate short-circuits with its own error.
//!
//! The base64url/JSON decoding of the token and the RSA signature check are
//! performed by outside crates behind the trusted items below; everything
//! those calls return is a function of the token text alone, so each result
//! is given a name and the decision logic over those names is verified.

use vstd::prelude::*;
use crate::errors::TokenValidationError;
use crate::keyset::{JwkView, KeySet, resolve_spec};
use crate::strutil::{opt_str_view, str_eq};

verus! {

/// The signing algorithm a token's header declares. Only the RSA family is
/// ever accepted; every non-RSA algorithm is carried as `NonRsa`, just far
/// enough to be rejected.
#[derive(Debug, Clone, Copy, PartialEq, Eq, Structural)]
pub enum AlgKind {
    Rs256,
    Rs384,
    Rs512,
    Ps256,
    Ps384,
    Ps512,
    NonRsa,
}

impl AlgKind {
    /// Whether this algorithm belongs to the RSA family.
    pub open spec fn is_rsa(self) -> bool {
        self != AlgKind::NonRsa
    }

    /// Executable test for `is_rsa`.
    pub fn rsa_family(&self) -> (r: bool)
        ensures
            r == self.is_rsa(),
    {
        match self {
            AlgKind::NonRsa => false,
            _ => true,
        }
    }
}

/// What a token's header carries, as far as validation reads it.
pub ghost struct HeaderView {
    pub kid: Option<Seq<char>>,
    pub alg: AlgKind,
}

/// The verified contents of an identity token, produced only after every
/// validation gate has passed. The nonce is the one optional claim.
#[derive(Debug, Clone, PartialEq, Eq)]
pub struct Claims {
    pub sub: String,
    pub email: String,
    pub email_verified: bool,
    pub name: String,
    pub given_name: String,
    pub family_name: String,
    pub nonce: Option<String>,
}

/// The view of `Claims`, for contracts.
pub ghost struct ClaimsView {
    pub sub: Seq<char>,
    pub email: Seq<char>,
    pub email_verified: bool,
    pub name: Seq<char>,
    pub given_name: Seq<char>,
    pub family_name: Seq<char>,
    pub nonce: Option<Seq<char>>,
}

impl View for Claims {
    type V = ClaimsView;

    open spec fn view(&self) -> ClaimsView {
        ClaimsView {
            sub: self.sub@,
            email: self.email@,
            email_verified: self.email_verified,
            name: self.name@,
            given_name: self.given_name@,
            family_name: self.family_name@,
            nonce: opt_str_view(self.nonce),
        }
    }
}

/// The fixed per-deployment values a token is checked against.
pub struct AuthConfig {
    /// The audience every token must name: this deployment's client id.
    pub client_id: String,
    /// The exact issuer string of the trusted identity provider.
    pub issuer: String,
}

/// The view of `AuthConfig`, for contracts.
pub ghost struct ConfigView {
    pub client_id: Seq<char>,
    pub issuer: Seq<char>,
}

impl View for AuthConfig {
    type V = ConfigView;

    open spec fn view(&self) -> ConfigView {
        ConfigView { client_id: self.client_id@, issuer: self.issuer@ }
    }
}

/// What decoding a token's header yields: a function of the token text alone.
/// `None` stands for a token without the three-part signed shape or with an
/// undecodable header.
pub uninterp spec fn header_of(token: Seq<char>) -> Option<HeaderView>;

/// What RSA signature verification yields for a base64url signature over a
/// message under the key components `n`, `e`: a function of these arguments
/// alone. `None` stands for components or a signature that are not valid
/// base64url material; `Some(b)` is the cryptographic outcome.
pub uninterp spec fn rsa_verify_result(
    signature: Seq<char>,
    message: Seq<char>,
    n: Seq<char>,
    e: Seq<char>,
    alg: AlgKind,
) -> Option<bool>;

/// The string field `name` of the token's payload object, if the payload
/// decodes as a JSON object and carries that field as a string.
pub uninterp spec fn payload_str_claim_of(token: Seq<char>, name: Seq<char>) -> Option<Seq<char>>;

/// The integer field `name` of the token's payload object, as above.
pub uninterp spec fn payload_int_claim_of(token: Seq<char>, name: Seq<char>) -> Option<i64>;

/// The boolean field `name` of the token's payload object, as above.
pub uninterp spec fn payload_bool_claim_of(token: Seq<char>, name: Seq<char>) -> Option<bool>;

/// Relies on jsonwebtoken::decode_header: it splits the token on dots,
/// decodes the header segment as unpadded base64url JSON, and reads the
/// declared algorithm and the optional key id; it fails on any token without
/// that shape. The outcome depends on the token text alone.
#[verifier::external_body]
fn decode_token_header(token: &str) -> (r: Result<(Option<String>, AlgKind), ()>)
    ensures
        match r {
            Ok(h) => header_of(token@) == Some(HeaderView { kid: opt_str_view(h.0), alg: h.1 }),
            Err(_) => header_of(token@) is None,
        },
{
    match jsonwebtoken::decode_header(token) {
        Ok(h) => {
            let alg = match h.alg {
                jsonwebtoken::Algorithm::RS256 => AlgKind::Rs256,
                jsonwebtoken::Algorithm::RS384 => AlgKind::Rs384,
                jsonwebtoken::Algorithm::RS512 => AlgKind::Rs512,
                jsonwebtoken::Algorithm::PS256 => AlgKind::Ps256,
                jsonwebtoken::Algorithm::PS384 => AlgKind::Ps384,
                jsonwebtoken::Algorithm::PS512 => AlgKind::Ps512,
                _ => AlgKind::NonRsa,
            };
            Ok((h.kid, alg))
        },
        Err(_) => Err(()),
    }
}

/// Relies on jsonwebtoken::crypto::verify together with
/// jsonwebtoken::DecodingKey::from_rsa_components: verifies the base64url
/// `signature` over the bytes of `message` under the RSA key with base64url
/// components `n` and `e`, using the given RSA-family algorithm. `Err` means
/// the components or the signature were not valid base64url material; the
/// whole outcome is a function of the arguments alone.
#[verifier::external_body]
fn rsa_verify(signature: &str, message: &str, n: &str, e: &str, alg: AlgKind) -> (r: Result<
    bool,
    (),
>)
    requires
        alg.is_rsa(),
    ensures
        match r {
            Ok(b) => rsa_verify_result(signature@, message@, n@, e@, alg) == Some(b),
            Err(_) => rsa_verify_result(signature@, message@, n@, e@, alg) is None,
        },
{
    let key = match jsonwebtoken::DecodingKey::from_rsa_components(n, e) {
        Ok(k) => k,
        Err(_) => return Err(()),
    };
    let algorithm = match alg {
        AlgKind::Rs256 => jsonwebtoken::Algorithm::RS256,
        AlgKind::Rs384 => jsonwebtoken::Algorithm::RS384,
        AlgKind::Rs512 => jsonwebtoken::Algorithm::RS512,
        AlgKind::Ps256 => jsonwebtoken::Algorithm::PS256,
        AlgKind::Ps384 => jsonwebtoken::Algorithm::PS384,
        AlgKind::Ps512 => jsonwebtoken::Algorithm::PS512,
        AlgKind::NonRsa => return Err(()),
    };
    jsonwebtoken::crypto::verify(signature, message.as_bytes(), &key, algorithm).map_err(|_| ())
}

/// Relies on base64 (unpadded base64url decoding of the token's second
/// dot-separated segment) and serde_json (parsing it as a JSON object and
/// reading one string field): both outcomes are functions of their text
/// arguments, so the whole result is a function of `token` and `name` alone.
#[verifier::external_body]
fn payload_str_claim(token: &str, name: &str) -> (r: Option<String>)
    ensures
        opt_str_view(r) == payload_str_claim_of(token@, name@),
{
    let payload = token.split('.').nth(1)?;
    let bytes = base64::decode_config(payload, base64::URL_SAFE_NO_PAD).ok()?;
    let value: serde_json::Value = serde_json::from_slice(&bytes).ok()?;
    Some(value.get(name)?.as_str()?.to_string())
}

/// Relies on base64 and serde_json exactly as `payload_str_claim` does, for
/// an integer field.
#[verifier::external_body]
fn payload_int_claim(token: &str, name: &str) -> (r: Option<i64>)
    ensures
        r == payload_int_claim_of(token@, name@),
{
    let payload = token.split('.').nth(1)?;
    let bytes = base64::decode_config(payload, base64::URL_SAFE_NO_PAD).ok()?;
    let value: serde_json::Value = serde_json::from_slice(&bytes).ok()?;
    value.get(name)?.as_i64()
}

/// Relies on base64 and serde_json exactly as `payload_str_claim` does, for
/// a boolean field.
#[verifier::external_body]
fn payload_bool_claim(token: &str, name: &str) -> (r: Option<bool>)
    ensures
        r == payload_bool_claim_of(token@, name@),
{
    let payload = token.split('.').nth(1)?;
    let bytes = base64::decode_config(payload, base64::URL_SAFE_NO_PAD).ok()?;
    let value: serde_json::Value = serde_json::from_slice(&bytes).ok()?;
    value.get(name)?.as_bool()
}

/// The index of the last `.` in `t`, if any: everything before it is the
/// signed message, everything after it the signature.
pub open spec fn last_dot(t: Seq<char>) -> Option<int>
    decreases t.len(),
{
    if t.len() == 0 {
        None
    } else if t[t.len() - 1] == '.' {
        Some(t.len() - 1)
    } else {
        last_dot(t.drop_last())
    }
}

/// The signed part of a token: the text before its last dot. Meaningful only
/// when `last_dot(t)` is `Some`.
pub open spec fn message_part(t: Seq<char>) -> Seq<char> {
    t.subrange(0, last_dot(t).unwrap())
}

/// The signature part of a token: the text after its last dot. Meaningful
/// only when `last_dot(t)` is `Some`.
pub open spec fn signature_part(t: Seq<char>) -> Seq<char> {
    t.subrange(last_dot(t).unwrap() + 1, t.len() as int)
}

/// The claim gates that run after the signature is confirmed, in order:
/// expiry (required, must be in the future), not-before (optional, must not
/// be in the future), audience and issuer (each must equal the configured
/// string exactly; an absent or non-string claim cannot), then the profile
/// claims, all required but the nonce.
pub open spec fn validate_claims_spec(t: Seq<char>, cfg: ConfigView, now: i64) -> Result<
    ClaimsView,
    TokenValidationError,
> {
    match payload_int_claim_of(t, "exp"@) {
        None => Err(TokenValidationError::MalformedClaims),
        Some(exp) => if exp <= now {
            Err(TokenValidationError::Expired)
        } else if payload_int_claim_of(t, "nbf"@) matches Some(nbf) && nbf > now {
            Err(TokenValidationError::NotYetValid)
        } else {
            match payload_str_claim_of(t, "aud"@) {
                None => Err(TokenValidationError::InvalidAudience),
                Some(aud) => if aud != cfg.client_id {
                    Err(TokenValidationError::InvalidAudience)
                } else {
                    match payload_str_claim_of(t, "iss"@) {
                        None => Err(TokenValidationError::InvalidIssuer),
                        Some(iss) => if iss != cfg.issuer {
                            Err(TokenValidationError::InvalidIssuer)
                        } else {
                            deserialize_claims_spec(t)
                        },
                    }
                },
            }
        },
    }
}

/// The final gate: reading the profile claims out of the payload. Every one
/// is required except the nonce; a missing or wrongly-typed claim fails
/// `MalformedClaims`.
pub open spec fn deserialize_claims_spec(t: Seq<char>) -> Result<
    ClaimsView,
    TokenValidationError,
> {
    let sub = payload_str_claim_of(t, "sub"@);
    let email = payload_str_claim_of(t, "email"@);
    let email_verified = payload_bool_claim_of(t, "email_verified"@);
    let name = payload_str_claim_of(t, "name"@);
    let given_name = payload_str_claim_of(t, "given_name"@);
    let family_name = payload_str_claim_of(t, "family_name"@);
    if sub is Some && email is Some && email_verified is Some && name is Some && given_name is Some
        && family_name is Some {
        Ok(
            ClaimsView {
                sub: sub.unwrap(),
                email: email.unwrap(),
                email_verified: email_verified.unwrap(),
                name: name.unwrap(),
                given_name: given_name.unwrap(),
                family_name: family_name.unwrap(),
                nonce: payload_str_claim_of(t, "nonce"@),
            },
        )
    } else {
        Err(TokenValidationError::MalformedClaims)
    }
}

/// The whole validation pipeline, one gate per `match`: decode the header;
/// demand a key id; resolve it against the key set; demand an RSA-family
/// header algorithm; confirm the signature; only then read and check the
/// claims.
pub open spec fn validate_token_spec(
    t: Seq<char>,
    keys: Seq<JwkView>,
    cfg: ConfigView,
    now: i64,
) -> Result<ClaimsView, TokenValidationError> {
    match header_of(t) {
        None => Err(TokenValidationError::MalformedToken),
        Some(h) => match h.kid {
            None => Err(TokenValidationError::MissingKid),
            Some(kid) => match resolve_spec(keys, kid) {
                Err(e) => Err(e),
                Ok(c) => if !h.alg.is_rsa() {
                    Err(TokenValidationError::AlgorithmMismatch)
                } else {
                    match last_dot(t) {
                        None => Err(TokenValidationError::MalformedToken),
                        Some(_) => match rsa_verify_result(
                            signature_part(t),
                            message_part(t),
                            c.n,
                            c.e,
                            h.alg,
                        ) {
                            None => Err(TokenValidationError::InvalidKeyMaterial),
                            Some(false) => Err(TokenValidationError::InvalidSignature),
                            Some(true) => validate_claims_spec(t, cfg, now),
                        },
                    }
                },
            },
        },
    }
}

/// A found last dot really is a dot, and lies inside the text.
pub proof fn lemma_last_dot_bounds(t: Seq<char>)
    requires
        last_dot(t) is Some,
    ensures
        0 <= last_dot(t).unwrap() < t.len(),
        t[last_dot(t).unwrap()] == '.',
    decreases t.len(),
{
    if t.len() > 0 && t[t.len() - 1] != '.' {
        lemma_last_dot_bounds(t.drop_last());
        assert(t.drop_last()[last_dot(t.drop_last()).unwrap()] == t[last_dot(
            t.drop_last(),
        ).unwrap()]);
    }
}

/// Law: a token whose signature does not verify under the resolved key is
/// rejected with an error of the unauthorized class, however plausible its
/// claims look. The premise walks the gates before the signature check: the
/// header decodes, names a key id, the key id resolves to RSA components, the
/// header algorithm is RSA-family and the token has a dot — and the signature
/// still does not verify.
pub proof fn lemma_bad_signature_rejected(
    t: Seq<char>,
    keys: Seq<JwkView>,
    cfg: ConfigView,
    now: i64,
)
    requires
        ({
            let h = header_of(t);
            let key = resolve_spec(keys, h.unwrap().kid.unwrap());
            &&& h is Some
            &&& h.unwrap().kid is Some
            &&& key is Ok
            &&& h.unwrap().alg.is_rsa()
            &&& last_dot(t) is Some
            &&& rsa_verify_result(
                signature_part(t),
                message_part(t),
                key.unwrap().n,
                key.unwrap().e,
                h.unwrap().alg,
            ) != Some(true)
        }),
    ensures
        validate_token_spec(t, keys, cfg, now) matches Err(e) && e.is_unauthorized(),
{
}

/// Law: a token whose expiry is not in the future is never accepted, and
/// neither is a token whose not-before time is in the future.
pub proof fn lemma_stale_token_rejected(t: Seq<char>, keys: Seq<JwkView>, cfg: ConfigView, now: i64)
    requires
        (payload_int_claim_of(t, "exp"@) matches Some(exp) && exp <= now) || (payload_int_claim_of(
            t,
            "nbf"@,
        ) matches Some(nbf) && nbf > now),
    ensures
        validate_token_spec(t, keys, cfg, now) is Err,
{
}

/// Law: a token whose audience is not exactly the configured client id, or
/// whose issuer is not exactly the configured issuer, is never accepted;
/// a token without a string audience or issuer claim never matches.
pub proof fn lemma_wrong_audience_or_issuer_rejected(
    t: Seq<char>,
    keys: Seq<JwkView>,
    cfg: ConfigView,
    now: i64,
)
    requires
        payload_str_claim_of(t, "aud"@) != Some(cfg.client_id) || payload_str_claim_of(t, "iss"@)
            != Some(cfg.issuer),
    ensures
        validate_token_spec(t, keys, cfg, now) is Err,
{
}

/// Finds the last `.` of the token, scanning forward and keeping the latest
/// hit, so the result agrees with `last_dot`.
fn find_last_dot(token: &str) -> (r: Option<usize>)
    ensures
        match r {
            Some(d) => last_dot(token@) == Some(d as int),
            None => last_dot(token@) is None,
        },
{
    let len = token.unicode_len();
    let mut i: usize = 0;
    let mut dot: Option<usize> = None;
    while i < len
        invariant
            0 <= i <= len,
            len == token@.len(),
            match dot {
                Some(d) => last_dot(token@.subrange(0, i as int)) == Some(d as int),
                None => last_dot(token@.subrange(0, i as int)) is None,
            },
        decreases len - i,
    {
        let c = token.get_char(i);
        proof {
            assert(token@.subrange(0, i + 1).drop_last() =~= token@.subrange(0, i as int));
            assert(token@.subrange(0, i + 1)[i as int] == token@[i as int]);
        }
        if c == '.' {
            dot = Some(i);
        }
        i = i + 1;
    }
    proof {
        assert(token@.subrange(0, len as int) =~= token@);
    }
    dot
}

/// Validates an identity token against the provider's key set and the
/// configured audience and issuer, at time `now` (seconds), exactly as
/// `validate_token_spec` says: the result is `Ok` precisely when every gate
/// passes, and each failure reports the first gate that refused.
pub fn validate_token(token: &str, keys: &KeySet, cfg: &AuthConfig, now: i64) -> (r: Result<
    Claims,
    TokenValidationError,
>)
    ensures
        match validate_token_spec(token@, keys@, cfg@, now) {
            Ok(cv) => r matches Ok(c) && c@ == cv,
            Err(e) => r == Err::<Claims, _>(e),
        },
{
    let (kid_opt, alg) = match decode_token_header(token) {
        Ok(h) => h,
        Err(_) => {
            return Err(TokenValidationError::MalformedToken);
        },
    };
    let kid = match kid_opt {
        Some(k) => k,
        None => {
            return Err(TokenValidationError::MissingKid);
        },
    };
    let key = match keys.resolve(kid.as_str()) {
        Ok(k) => k,
        Err(e) => {
            return Err(e);
        },
    };
    if !alg.rsa_family() {
        return Err(TokenValidationError::AlgorithmMismatch);
    }
    let dot = match find_last_dot(token) {
        Some(d) => d,
        None => {
            return Err(TokenValidationError::MalformedToken);
        },
    };
    let len = token.unicode_len();
    proof {
        lemma_last_dot_bounds(token@);
    }
    let message = token.substring_char(0, dot);
    let signature = token.substring_char(dot + 1, len);
    match rsa_verify(signature, message, key.n.as_str(), key.e.as_str(), alg) {
        Err(_) => {
            return Err(TokenValidationError::InvalidKeyMaterial);
        },
        Ok(false) => {
            return Err(TokenValidationError::InvalidSignature);
        },
        Ok(true) => {},
    }
    let exp = match payload_int_claim(token, "exp") {
        Some(v) => v,
        None => {
            return Err(TokenValidationError::MalformedClaims);
        },
    };
    if exp <= now {
        return Err(TokenValidationError::Expired);
    }
    match payload_int_claim(token, "nbf") {
        Some(nbf) if nbf > now => {
            return Err(TokenValidationError::NotYetValid);
        },
        _ => {},
    }
    let aud = match payload_str_claim(token, "aud") {
        Some(v) => v,
        None => {
            return Err(TokenValidationError::InvalidAudience);
        },
    };
    if !str_eq(aud.as_str(), cfg.client_id.as_str()) {
        return Err(TokenValidationError::InvalidAudience);
    }
    let iss = match payload_str_claim(token, "iss") {
        Some(v) => v,
        None => {
            return Err(TokenValidationError::InvalidIssuer);
        },
    };
    if !str_eq(iss.as_str(), cfg.issuer.as_str()) {
        return Err(TokenValidationError::InvalidIssuer);
    }
    let sub = payload_str_claim(token, "sub");
    let email = payload_str_claim(token, "email");
    let email_verified = payload_bool_claim(token, "email_verified");
    let name = payload_str_claim(token, "name");
    let given_name = payload_str_claim(token, "given_name");
    let family_name = payload_str_claim(token, "family_name");
    match (sub, email, email_verified, name, given_name, family_name) {
        (Some(sub), Some(email), Some(email_verified), Some(name), Some(given_name), Some(
            family_name,
        )) => Ok(
            Claims {
                sub,
                email,
                email_verified,
                name,
                given_name,
                family_name,
                nonce: payload_str_claim(token, "nonce"),
            },
        ),
        _ => Err(TokenValidationError::MalformedClaims),
    }
}

} // verus!
