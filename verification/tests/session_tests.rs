use hotsauce_auth::errors::Error;
use hotsauce_auth::session::{
    LoginCookieData, SESSION_VALIDITY_SECS, decode_cookie, issue_session, verify_session,
};

#[test]
fn issue_stamps_a_seven_day_window() {
    let s = issue_session(42, 1_000_000);
    assert_eq!(s.user_id, 42);
    assert_eq!(s.logged_in_at, 1_000_000);
    assert_eq!(s.valid_until, 1_000_000 + SESSION_VALIDITY_SECS);
    assert_eq!(SESSION_VALIDITY_SECS, 7 * 24 * 60 * 60);
}

#[test]
fn encode_produces_expected_bytes() {
    let s = LoginCookieData { user_id: 7, logged_in_at: 100, valid_until: 604_900 };
    assert_eq!(s.encode_cookie(), b"7:100:604900".to_vec());
}

#[test]
fn encode_handles_negative_values() {
    let s = LoginCookieData { user_id: -3, logged_in_at: 0, valid_until: -10 };
    assert_eq!(s.encode_cookie(), b"-3:0:-10".to_vec());
}

#[test]
fn decode_reads_back_expected_values() {
    let d = decode_cookie(b"7:100:604900").unwrap();
    assert_eq!(d, LoginCookieData { user_id: 7, logged_in_at: 100, valid_until: 604_900 });
}

#[test]
fn round_trip_identity_over_varied_payloads() {
    let cases = [
        LoginCookieData { user_id: 1, logged_in_at: 0, valid_until: SESSION_VALIDITY_SECS },
        LoginCookieData { user_id: i32::MAX, logged_in_at: i64::MAX, valid_until: i64::MIN },
        LoginCookieData { user_id: i32::MIN, logged_in_at: -1, valid_until: 1 },
        LoginCookieData { user_id: 0, logged_in_at: 0, valid_until: 0 },
    ];
    for c in cases {
        assert_eq!(decode_cookie(&c.encode_cookie()), Some(c));
    }
}

#[test]
fn verify_round_trip_immediately_after_issuance() {
    let now = 1_700_000_000;
    let s = issue_session(9, now);
    let token = s.encode_cookie();
    assert_eq!(verify_session(&token, now), Ok(9));
}

#[test]
fn verify_fails_once_the_window_has_passed() {
    let now = 1_700_000_000;
    let s = issue_session(9, now);
    let token = s.encode_cookie();
    // Still valid one second before expiry, refused from expiry onward.
    assert_eq!(verify_session(&token, now + SESSION_VALIDITY_SECS - 1), Ok(9));
    assert_eq!(verify_session(&token, now + SESSION_VALIDITY_SECS), Err(Error::Unauthorized));
    assert_eq!(verify_session(&token, now + SESSION_VALIDITY_SECS + 1), Err(Error::Unauthorized));
}

#[test]
fn corrupted_and_expired_tokens_are_refused_identically() {
    let now = 1_700_000_000;
    let token = issue_session(9, now).encode_cookie();
    let expired = verify_session(&token, now + SESSION_VALIDITY_SECS);
    let corrupted = verify_session(b"not a session", now);
    assert_eq!(expired, Err(Error::Unauthorized));
    assert_eq!(corrupted, Err(Error::Unauthorized));
}

#[test]
fn malformed_encodings_rejected() {
    assert_eq!(decode_cookie(b""), None);
    assert_eq!(decode_cookie(b"1:2"), None);
    assert_eq!(decode_cookie(b"1:2:3:4"), None);
    assert_eq!(decode_cookie(b"a:2:3"), None);
    assert_eq!(decode_cookie(b"1:2:"), None);
    assert_eq!(decode_cookie(b":2:3"), None);
    assert_eq!(decode_cookie(b"1: 2:3"), None);
}

#[test]
fn non_canonical_numbers_rejected() {
    assert_eq!(decode_cookie(b"01:2:3"), None);
    assert_eq!(decode_cookie(b"1:02:3"), None);
    assert_eq!(decode_cookie(b"-0:2:3"), None);
    assert_eq!(decode_cookie(b"+1:2:3"), None);
    assert_eq!(decode_cookie(b"1:2:-03"), None);
    // Zero itself is canonical.
    assert_eq!(
        decode_cookie(b"0:0:0"),
        Some(LoginCookieData { user_id: 0, logged_in_at: 0, valid_until: 0 })
    );
}

#[test]
fn out_of_range_values_rejected() {
    // One past i32::MAX in the user-id field.
    assert_eq!(decode_cookie(b"2147483648:0:0"), None);
    assert_eq!(decode_cookie(b"-2147483649:0:0"), None);
    // One past i64::MAX in a timestamp field.
    assert_eq!(decode_cookie(b"1:9223372036854775808:0"), None);
    assert_eq!(decode_cookie(b"1:0:-9223372036854775809"), None);
    // The extremes themselves are fine.
    assert_eq!(
        decode_cookie(b"2147483647:9223372036854775807:-9223372036854775808"),
        Some(LoginCookieData {
            user_id: i32::MAX,
            logged_in_at: i64::MAX,
            valid_until: i64::MIN
        })
    );
    // Far past any 64-bit value.
    assert_eq!(decode_cookie(b"1:123456789012345678901234567890:0"), None);
}

#[test]
fn short_key_material_is_stretched_cyclically() {
    assert_eq!(
        hotsauce_auth::session::stretch_cookie_key(&[1, 2, 3]),
        [1u8, 2, 3].iter().cloned().cycle().take(64).collect::<Vec<u8>>()
    );
    let long: Vec<u8> = (0..70u8).collect();
    assert_eq!(hotsauce_auth::session::stretch_cookie_key(&long), long);
}

#[test]
fn cookie_key_material_decodes_and_stretches() {
    // "AAAA" is three zero bytes of standard base64: stretched to 64 zeros.
    assert_eq!(hotsauce_auth::session::cookie_key_material("AAAA"), Some(vec![0u8; 64]));
    // Not base64 at all, and base64 of nothing, are both rejected.
    assert_eq!(hotsauce_auth::session::cookie_key_material("!!!"), None);
    assert_eq!(hotsauce_auth::session::cookie_key_material(""), None);
}
