//! The authentication gateway: the decision logic of the login and signup
//! flows, and the extractor that turns a presented session token into an
//! authenticated user id. Each flow is a function of the inbound values —
//! the identity token, the fetched key-set document, the directory and
//! ledger state, the clock — and its whole outcome, result and state change
//! alike, is pinned by a spec function.
//!
//! Logout is not here: it only instructs the client to discard its token and
//! changes no server-side state, so there is nothing to compute.

use vstd::prelude::*;
use crate::directory::{
    DirectoryView,
    UserDirectory,
    create_spec,
    directory_wf,
    lemma_find_link_append,
    spec_find_link,
};
use crate::errors::{Error, TokenValidationError};
use crate::keyset::{JwkView, jwks_of, parse_jwk_set};
use crate::nonce::NonceLedger;
use crate::session::{LoginCookieData, SESSION_VALIDITY_SECS, issue_session, verify_session, verify_session_spec};
use crate::strutil::opt_sref_view;
use crate::token::{AuthConfig, ConfigView, validate_token, validate_token_spec};
use crate::username::{spec_validate_username, validate_potential_username};

verus! {

/// A verified user id, produced only from a session token that decoded and
/// had not expired. Handlers that require authentication take one of these.
#[derive(Debug, Clone, Copy, PartialEq, Eq, Structural)]
pub struct AuthenticatedUser {
    pub user_id: i32,
}

/// What the fetched key-set document yields: an absent document (the fetch
/// failed) and an unparsable one surface alike as `KeyFetchFailed` — our
/// upstream dependency, not the caller, is at fault.
pub open spec fn keys_from_body(body: Option<Seq<char>>) -> Result<Seq<JwkView>, Error> {
    match body {
        None => Err(Error::TokenValidation(TokenValidationError::KeyFetchFailed)),
        Some(b) => match jwks_of(b) {
            None => Err(Error::TokenValidation(TokenValidationError::KeyFetchFailed)),
            Some(ks) => Ok(ks),
        },
    }
}

/// The session stamped on a successful login or signup at time `now`.
pub open spec fn issued_session(user_id: i32, now: i64) -> LoginCookieData {
    LoginCookieData {
        user_id,
        logged_in_at: now,
        valid_until: (now + SESSION_VALIDITY_SECS) as i64,
    }
}

/// The login flow: validate the token, resolve the existing account (there
/// is no creation on login), enforce nonce freshness when the token carries
/// a nonce, and issue a session. The nonce is committed even when it turns
/// out stale — the ledger only ever grows.
pub open spec fn login_spec(
    d: DirectoryView,
    ledger: Set<(i32, Seq<char>)>,
    body: Option<Seq<char>>,
    cfg: ConfigView,
    token: Seq<char>,
    now: i64,
) -> (Result<LoginCookieData, Error>, Set<(i32, Seq<char>)>) {
    match keys_from_body(body) {
        Err(e) => (Err(e), ledger),
        Ok(keys) => match validate_token_spec(token, keys, cfg, now) {
            Err(e) => (Err(Error::TokenValidation(e)), ledger),
            Ok(claims) => match spec_find_link(d.links, claims.sub) {
                None => (Err(Error::NoSuchAccount), ledger),
                Some(uid) => match claims.nonce {
                    None => (Ok(issued_session(uid, now)), ledger),
                    Some(n) => if ledger.contains((uid, n)) {
                        (Err(Error::ReusedNonce), ledger.insert((uid, n)))
                    } else {
                        (Ok(issued_session(uid, now)), ledger.insert((uid, n)))
                    },
                },
            },
        },
    }
}

/// The signup flow: validate the token, hold the requested username to the
/// grammar, create the user — an already-linked subject reuses its user id
/// and stores nothing — then enforce nonce freshness and issue a session.
/// A nonce found stale still leaves the created user and the committed nonce
/// in place: a cancelled or replayed flow must not roll back durable state.
pub open spec fn signup_spec(
    d: DirectoryView,
    ledger: Set<(i32, Seq<char>)>,
    body: Option<Seq<char>>,
    cfg: ConfigView,
    token: Seq<char>,
    username: Seq<char>,
    now: i64,
) -> (Result<LoginCookieData, Error>, DirectoryView, Set<(i32, Seq<char>)>) {
    match keys_from_body(body) {
        Err(e) => (Err(e), d, ledger),
        Ok(keys) => match validate_token_spec(token, keys, cfg, now) {
            Err(e) => (Err(Error::TokenValidation(e)), d, ledger),
            Ok(claims) => match spec_validate_username(username) {
                Err(e) => (Err(Error::UsernameValidation(e)), d, ledger),
                Ok(_) => {
                    let created = create_spec(d, claims.sub, username);
                    match created.0 {
                        Err(e) => (Err(Error::UsernameValidation(e)), d, ledger),
                        Ok(uid) => match claims.nonce {
                            None => (Ok(issued_session(uid, now)), created.1, ledger),
                            Some(n) => if ledger.contains((uid, n)) {
                                (Err(Error::ReusedNonce), created.1, ledger.insert((uid, n)))
                            } else {
                                (
                                    Ok(issued_session(uid, now)),
                                    created.1,
                                    ledger.insert((uid, n)),
                                )
                            },
                        },
                    }
                },
            },
        },
    }
}

/// Runs the login flow, exactly as `login_spec` says. The clock must leave
/// room for the validity window.
pub fn login(
    dir: &UserDirectory,
    ledger: &mut NonceLedger,
    jwks_body: Option<&str>,
    cfg: &AuthConfig,
    token: &str,
    now: i64,
) -> (r: Result<LoginCookieData, Error>)
    requires
        now <= i64::MAX - SESSION_VALIDITY_SECS,
    ensures
        ({
            let (res, led) = login_spec(
                dir@,
                old(ledger)@,
                opt_sref_view(jwks_body),
                cfg@,
                token@,
                now,
            );
            r == res && final(ledger)@ == led
        }),
{
    let keys = match jwks_body {
        None => {
            return Err(Error::TokenValidation(TokenValidationError::KeyFetchFailed));
        },
        Some(body) => match parse_jwk_set(body) {
            Err(_) => {
                return Err(Error::TokenValidation(TokenValidationError::KeyFetchFailed));
            },
            Ok(ks) => ks,
        },
    };
    let claims = match validate_token(token, &keys, cfg, now) {
        Err(e) => {
            return Err(Error::TokenValidation(e));
        },
        Ok(c) => c,
    };
    let uid = match dir.find_by_subject(claims.sub.as_str()) {
        None => {
            return Err(Error::NoSuchAccount);
        },
        Some(u) => u,
    };
    match &claims.nonce {
        None => {},
        Some(n) => {
            if !ledger.claim(uid, n.as_str()) {
                return Err(Error::ReusedNonce);
            }
        },
    }
    Ok(issue_session(uid, now))
}

/// Runs the signup flow, exactly as `signup_spec` says. The clock must leave
/// room for the validity window, and the directory must be well-formed with
/// id space to spare.
pub fn signup(
    dir: &mut UserDirectory,
    ledger: &mut NonceLedger,
    jwks_body: Option<&str>,
    cfg: &AuthConfig,
    token: &str,
    username: &str,
    now: i64,
) -> (r: Result<LoginCookieData, Error>)
    requires
        now <= i64::MAX - SESSION_VALIDITY_SECS,
        old(dir).wf(),
        old(dir)@.next_id < i32::MAX,
    ensures
        final(dir).wf(),
        ({
            let (res, d, led) = signup_spec(
                old(dir)@,
                old(ledger)@,
                opt_sref_view(jwks_body),
                cfg@,
                token@,
                username@,
                now,
            );
            r == res && final(dir)@ == d && final(ledger)@ == led
        }),
{
    let keys = match jwks_body {
        None => {
            return Err(Error::TokenValidation(TokenValidationError::KeyFetchFailed));
        },
        Some(body) => match parse_jwk_set(body) {
            Err(_) => {
                return Err(Error::TokenValidation(TokenValidationError::KeyFetchFailed));
            },
            Ok(ks) => ks,
        },
    };
    let claims = match validate_token(token, &keys, cfg, now) {
        Err(e) => {
            return Err(Error::TokenValidation(e));
        },
        Ok(c) => c,
    };
    match validate_potential_username(username) {
        Err(e) => {
            return Err(Error::UsernameValidation(e));
        },
        Ok(()) => {},
    }
    let uid = match dir.create(claims.sub.as_str(), username) {
        Err(e) => {
            return Err(Error::UsernameValidation(e));
        },
        Ok(u) => u,
    };
    match &claims.nonce {
        None => {},
        Some(n) => {
            if !ledger.claim(uid, n.as_str()) {
                return Err(Error::ReusedNonce);
            }
        },
    }
    Ok(issue_session(uid, now))
}

/// Law: replaying an accepted signup — same token, same nonce, same
/// username — cannot create a second account. The second run resolves the
/// subject to the user the first run linked, finds the nonce stale, and
/// fails `ReusedNonce`; directory and ledger stay exactly as the first run
/// left them. The premises: the directory is well-formed, the first run
/// succeeded, the token still validates at the replay time, and the token
/// carries a nonce.
pub proof fn lemma_signup_replay_rejected(
    d: DirectoryView,
    ledger: Set<(i32, Seq<char>)>,
    body: Option<Seq<char>>,
    cfg: ConfigView,
    token: Seq<char>,
    username: Seq<char>,
    now1: i64,
    now2: i64,
)
    requires
        directory_wf(d),
        signup_spec(d, ledger, body, cfg, token, username, now1).0 is Ok,
        keys_from_body(body) matches Ok(keys) && validate_token_spec(token, keys, cfg, now2) is Ok,
        ({
            let keys = keys_from_body(body).unwrap();
            validate_token_spec(token, keys, cfg, now1).unwrap().nonce is Some
        }),
    ensures
        ({
            let (r1, d1, l1) = signup_spec(d, ledger, body, cfg, token, username, now1);
            let (r2, d2, l2) = signup_spec(d1, l1, body, cfg, token, username, now2);
            &&& r2 == Err::<LoginCookieData, Error>(Error::ReusedNonce)
            &&& d2 == d1
            &&& l2 == l1
        }),
{
    let keys = keys_from_body(body).unwrap();
    let claims1 = validate_token_spec(token, keys, cfg, now1).unwrap();
    let claims2 = validate_token_spec(token, keys, cfg, now2).unwrap();
    assert(claims2 == claims1);
    let (r1, d1, l1) = signup_spec(d, ledger, body, cfg, token, username, now1);
    let uid = r1.unwrap().user_id;
    let n = claims1.nonce.unwrap();
    assert(l1.contains((uid, n)));
    match spec_find_link(d.links, claims1.sub) {
        Some(u0) => {
            assert(d1 == d);
            assert(spec_find_link(d1.links, claims1.sub) == Some(uid));
        },
        None => {
            lemma_find_link_append(d.links, claims1.sub, (claims1.sub, d.next_id));
            assert(spec_find_link(d1.links, claims1.sub) == Some(uid));
        },
    }
    let (r2, d2, l2) = signup_spec(d1, l1, body, cfg, token, username, now2);
    assert(l2 =~= l1);
}

/// The extractor: turns a presented session token into a verified user id,
/// exactly as `verify_session_spec` says — a missing, corrupt or expired
/// session is `Unauthorized`, and a handler holding an `AuthenticatedUser`
/// may trust its id.
pub fn authenticate(session_token: &[u8], now: i64) -> (r: Result<AuthenticatedUser, Error>)
    ensures
        match verify_session_spec(session_token@, now) {
            Ok(uid) => r matches Ok(a) && a.user_id == uid,
            Err(e) => r == Err::<AuthenticatedUser, _>(e),
        },
{
    match verify_session(session_token, now) {
        Ok(uid) => Ok(AuthenticatedUser { user_id: uid }),
        Err(e) => Err(e),
    }
}

} // verus!
