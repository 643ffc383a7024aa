//! The stateless session codec: a session payload (user id, issued-at,
//! expires-at) is serialized into a small byte encoding and read back, and a
//! presented session is accepted exactly when it decodes and its expiry is
//! still in the future. The whole encoding and its inverse are verified; the
//! confidentiality and tamper-evidence of the carried cookie are the cookie
//! jar's business, outside this library.
//!
//! The encoding is three signed decimal numbers separated by colons:
//! `user_id:logged_in_at:valid_until`, each canonical (no leading zeros, no
//! negative zero), so decoding is the exact inverse of encoding.

use vstd::prelude::*;
use crate::errors::Error;

verus! {

/// How long an issued session stays valid: seven days, in seconds.
pub const SESSION_VALIDITY_SECS: i64 = 604800;

/// The session payload the client holds: who logged in, when, and until when
/// the session is honoured. The server keeps no copy.
#[derive(Debug, Clone, Copy, PartialEq, Eq, Structural)]
pub struct LoginCookieData {
    pub user_id: i32,
    pub logged_in_at: i64,
    pub valid_until: i64,
}

impl LoginCookieData {
    /// A session is issued for a positive span: it expires strictly after it
    /// was issued.
    pub open spec fn wf(self) -> bool {
        self.logged_in_at < self.valid_until
    }
}

/// An ASCII decimal digit.
pub open spec fn is_digit(b: u8) -> bool {
    48 <= b <= 57
}

/// Every byte of `s` is a decimal digit.
pub open spec fn all_digits(s: Seq<u8>) -> bool {
    forall|i: int| 0 <= i < s.len() ==> is_digit(#[trigger] s[i])
}

/// The canonical decimal digits of `n`, most significant first.
pub open spec fn dec_digits(n: nat) -> Seq<u8>
    decreases n,
{
    if n < 10 {
        seq![(48 + n) as u8]
    } else {
        dec_digits(n / 10) + seq![(48 + n % 10) as u8]
    }
}

/// The numeric value of a digit string (most significant first).
pub open spec fn dec_value(s: Seq<u8>) -> nat
    decreases s.len(),
{
    if s.len() == 0 {
        0
    } else {
        dec_value(s.drop_last()) * 10 + (if s.last() >= 48 {
            (s.last() - 48) as nat
        } else {
            0
        })
    }
}

/// A canonical unsigned decimal: nonempty, all digits, no leading zero.
pub open spec fn canon_udec(s: Seq<u8>) -> bool {
    &&& s.len() > 0
    &&& all_digits(s)
    &&& (s[0] != 48 || s.len() == 1)
}

/// The canonical signed decimal encoding of `i`: a minus sign only for
/// negative values (so there is no negative zero), then canonical digits.
pub open spec fn sdec(i: int) -> Seq<u8> {
    if i >= 0 {
        dec_digits(i as nat)
    } else {
        seq![45u8] + dec_digits((-i) as nat)
    }
}

/// What a field of the encoding means: `Some(v)` exactly for the canonical
/// signed decimal encodings, with their numeric value.
pub open spec fn parse_sdec(s: Seq<u8>) -> Option<int> {
    if s.len() > 0 && s[0] == 45 {
        let rest = s.subrange(1, s.len() as int);
        if canon_udec(rest) && dec_value(rest) > 0 {
            Some(-(dec_value(rest) as int))
        } else {
            None
        }
    } else if canon_udec(s) {
        Some(dec_value(s) as int)
    } else {
        None
    }
}

/// The byte encoding of a session payload.
pub open spec fn encode_session_spec(d: LoginCookieData) -> Seq<u8> {
    sdec(d.user_id as int) + seq![58u8] + sdec(d.logged_in_at as int) + seq![58u8] + sdec(
        d.valid_until as int,
    )
}

/// The index of the first `:` in `s`, if any.
pub open spec fn first_colon(s: Seq<u8>) -> Option<int>
    decreases s.len(),
{
    if s.len() == 0 {
        None
    } else if s[0] == 58 {
        Some(0)
    } else {
        match first_colon(s.drop_first()) {
            Some(i) => Some(i + 1),
            None => None,
        }
    }
}

/// What decoding a presented byte string means: split on the first two
/// colons, read the three fields as canonical signed decimals, and demand
/// that each value fits its field. Anything else — a missing separator, a
/// stray byte, a third colon (it would sit inside the last field), a
/// non-canonical number, an out-of-range value — decodes to `None`.
pub open spec fn decode_session_spec(s: Seq<u8>) -> Option<LoginCookieData> {
    match first_colon(s) {
        None => None,
        Some(c1) => {
            let rest = s.subrange(c1 + 1, s.len() as int);
            match first_colon(rest) {
                None => None,
                Some(c2) => {
                    let f1 = s.subrange(0, c1);
                    let f2 = rest.subrange(0, c2);
                    let f3 = rest.subrange(c2 + 1, rest.len() as int);
                    match (parse_sdec(f1), parse_sdec(f2), parse_sdec(f3)) {
                        (Some(u), Some(a), Some(v)) => if i32::MIN <= u <= i32::MAX && i64::MIN <= a
                            <= i64::MAX && i64::MIN <= v <= i64::MAX {
                            Some(
                                LoginCookieData {
                                    user_id: u as i32,
                                    logged_in_at: a as i64,
                                    valid_until: v as i64,
                                },
                            )
                        } else {
                            None
                        },
                        _ => None,
                    }
                },
            }
        },
    }
}

/// What verifying a presented session at time `now` means: a token that does
/// not decode and a token whose expiry has passed are refused identically,
/// as `Unauthorized`.
pub open spec fn verify_session_spec(s: Seq<u8>, now: i64) -> Result<i32, Error> {
    match decode_session_spec(s) {
        None => Err(Error::Unauthorized),
        Some(d) => if now >= d.valid_until {
            Err(Error::Unauthorized)
        } else {
            Ok(d.user_id)
        },
    }
}

/// The digits of `n` are digits, and carry no leading zero.
proof fn lemma_dec_digits_canon(n: nat)
    ensures
        canon_udec(dec_digits(n)),
        n >= 10 ==> dec_digits(n).len() > 1 && dec_digits(n)[0] != 48,
    decreases n,
{
    if n >= 10 {
        lemma_dec_digits_canon(n / 10);
    }
}

/// Reading the digits of `n` back yields `n`.
proof fn lemma_dec_value_of_digits(n: nat)
    ensures
        dec_value(dec_digits(n)) == n,
    decreases n,
{
    if n < 10 {
        let s = dec_digits(n);
        assert(s.drop_last() =~= Seq::<u8>::empty());
        assert(dec_value(Seq::<u8>::empty()) == 0);
        assert(s.last() == (48 + n) as u8);
        assert(dec_value(s) == n);
    } else {
        lemma_dec_value_of_digits(n / 10);
        let s = dec_digits(n / 10) + seq![(48 + n % 10) as u8];
        assert(s.drop_last() =~= dec_digits(n / 10));
        assert(s.last() == (48 + n % 10) as u8);
        assert(dec_value(s) == dec_value(dec_digits(n / 10)) * 10 + n % 10);
        assert((n / 10) * 10 + n % 10 == n);
    }
}

/// A canonical signed decimal parses back to its value.
proof fn lemma_parse_sdec_of_sdec(i: int)
    ensures
        parse_sdec(sdec(i)) == Some(i),
{
    if i >= 0 {
        lemma_dec_digits_canon(i as nat);
        lemma_dec_value_of_digits(i as nat);
        assert(sdec(i)[0] != 45) by {
            assert(is_digit(dec_digits(i as nat)[0]));
        }
    } else {
        lemma_dec_digits_canon((-i) as nat);
        lemma_dec_value_of_digits((-i) as nat);
        let s = sdec(i);
        assert(s[0] == 45);
        assert(s.subrange(1, s.len() as int) =~= dec_digits((-i) as nat));
    }
}

/// Digit strings contain no separator, so the first colon of
/// `field + [58] + tail` is right after the field.
proof fn lemma_first_colon_of_concat(f: Seq<u8>, tail: Seq<u8>)
    requires
        forall|i: int| 0 <= i < f.len() ==> f[i] != 58,
    ensures
        first_colon(f + seq![58u8] + tail) == Some(f.len() as int),
    decreases f.len(),
{
    let s = f + seq![58u8] + tail;
    if f.len() == 0 {
        assert(s[0] == 58);
    } else {
        assert(s[0] == f[0]);
        assert(s[0] != 58);
        lemma_first_colon_of_concat(f.drop_first(), tail);
        assert(s.drop_first() =~= f.drop_first() + seq![58u8] + tail);
    }
}

/// A signed decimal encoding never contains a separator byte.
proof fn lemma_sdec_no_colon(i: int)
    ensures
        forall|j: int| 0 <= j < sdec(i).len() ==> sdec(i)[j] != 58,
{
    if i >= 0 {
        lemma_dec_digits_canon(i as nat);
        assert forall|j: int| 0 <= j < sdec(i).len() implies sdec(i)[j] != 58 by {
            assert(is_digit(dec_digits(i as nat)[j]));
        }
    } else {
        lemma_dec_digits_canon((-i) as nat);
        assert forall|j: int| 0 <= j < sdec(i).len() implies sdec(i)[j] != 58 by {
            if j > 0 {
                assert(sdec(i)[j] == dec_digits((-i) as nat)[j - 1]);
                assert(is_digit(dec_digits((-i) as nat)[j - 1]));
            }
        }
    }
}

/// Law: decoding is the exact inverse of encoding — every session payload
/// decodes back to itself.
pub proof fn lemma_decode_of_encode(d: LoginCookieData)
    ensures
        decode_session_spec(encode_session_spec(d)) == Some(d),
{
    let f1 = sdec(d.user_id as int);
    let f2 = sdec(d.logged_in_at as int);
    let f3 = sdec(d.valid_until as int);
    let s = encode_session_spec(d);
    lemma_sdec_no_colon(d.user_id as int);
    lemma_sdec_no_colon(d.logged_in_at as int);
    lemma_sdec_no_colon(d.valid_until as int);
    assert(s =~= f1 + seq![58u8] + (f2 + seq![58u8] + f3));
    lemma_first_colon_of_concat(f1, f2 + seq![58u8] + f3);
    let c1 = f1.len() as int;
    assert(first_colon(s) == Some(c1));
    let rest = s.subrange(c1 + 1, s.len() as int);
    assert(rest =~= f2 + seq![58u8] + f3);
    lemma_first_colon_of_concat(f2, f3);
    let c2 = f2.len() as int;
    assert(first_colon(rest) == Some(c2));
    assert(s.subrange(0, c1) =~= f1);
    assert(rest.subrange(0, c2) =~= f2);
    assert(rest.subrange(c2 + 1, rest.len() as int) =~= f3);
    lemma_parse_sdec_of_sdec(d.user_id as int);
    lemma_parse_sdec_of_sdec(d.logged_in_at as int);
    lemma_parse_sdec_of_sdec(d.valid_until as int);
}

/// Law: a freshly-encoded session verifies to its user id at any time before
/// its expiry, and is refused from its expiry on.
pub proof fn lemma_session_round_trip(d: LoginCookieData, t: i64)
    ensures
        t < d.valid_until ==> verify_session_spec(encode_session_spec(d), t) == Ok::<i32, Error>(
            d.user_id,
        ),
        t >= d.valid_until ==> verify_session_spec(encode_session_spec(d), t) == Err::<i32, Error>(
            Error::Unauthorized,
        ),
{
    lemma_decode_of_encode(d);
}

/// The digits of `n`, as `dec_digits` gives them, with the empty sequence
/// for zero: the shape the digit-emitting loop produces.
spec fn dec_digits_aux(n: nat) -> Seq<u8>
    decreases n,
{
    if n == 0 {
        Seq::empty()
    } else {
        dec_digits_aux(n / 10) + seq![(48 + n % 10) as u8]
    }
}

proof fn lemma_dec_digits_aux(n: nat)
    requires
        n > 0,
    ensures
        dec_digits_aux(n) == dec_digits(n),
    decreases n,
{
    if n < 10 {
        assert(n / 10 == 0);
        assert(n % 10 == n);
        assert(dec_digits_aux(0) =~= Seq::<u8>::empty());
        assert(dec_digits_aux(n) =~= dec_digits(n));
    } else {
        lemma_dec_digits_aux(n / 10);
    }
}

/// Appends the decimal digits of `n` to `out`.
fn push_u64_dec(out: &mut Vec<u8>, n: u64)
    ensures
        final(out)@ == old(out)@ + dec_digits(n as nat),
{
    if n == 0 {
        out.push(48);
        assert(out@ =~= old(out)@ + dec_digits(0));
        return ;
    }
    let ghost orig = out@;
    let mut tmp: Vec<u8> = Vec::new();
    let mut m = n;
    while m > 0
        invariant
            dec_digits_aux(n as nat) == dec_digits_aux(m as nat) + tmp@.reverse(),
        decreases m,
    {
        let d = (m % 10) as u8 + 48;
        let ghost old_tmp = tmp@;
        tmp.push(d);
        m = m / 10;
        proof {
            assert(tmp@.reverse() =~= seq![d] + old_tmp.reverse());
            assert(dec_digits_aux((m * 10 + (d - 48)) as nat) == dec_digits_aux(m as nat) + seq![d])
                by {
                assert(((m * 10 + (d - 48)) as nat) / 10 == m as nat);
                assert(((m * 10 + (d - 48)) as nat) % 10 == (d - 48) as nat);
            }
        }
    }
    proof {
        lemma_dec_digits_aux(n as nat);
        assert(dec_digits(n as nat) =~= tmp@.reverse());
    }
    let mut j = tmp.len();
    while j > 0
        invariant
            j <= tmp@.len(),
            out@ == orig + tmp@.subrange(j as int, tmp@.len() as int).reverse(),
        decreases j,
    {
        j = j - 1;
        let ghost before = out@;
        out.push(tmp[j]);
        proof {
            assert(out@ =~= orig + tmp@.subrange(j as int, tmp@.len() as int).reverse());
        }
    }
    proof {
        assert(tmp@.subrange(0, tmp@.len() as int) =~= tmp@);
        assert(out@ =~= orig + dec_digits(n as nat));
    }
}

/// Appends the canonical signed decimal of `v` to `out`.
fn push_i64_dec(out: &mut Vec<u8>, v: i64)
    ensures
        final(out)@ == old(out)@ + sdec(v as int),
{
    if v < 0 {
        let ghost orig = out@;
        out.push(45);
        let mag: u64 = if v == i64::MIN {
            9223372036854775808u64
        } else {
            (-v) as u64
        };
        push_u64_dec(out, mag);
        proof {
            assert(out@ =~= orig + sdec(v as int));
        }
    } else {
        push_u64_dec(out, v as u64);
    }
}

/// What decoding standard, padded base64 text yields: a function of the text
/// alone. `None` stands for text that is not base64.
pub uninterp spec fn b64_of(s: Seq<char>) -> Option<Seq<u8>>;

/// Relies on base64::decode: standard-alphabet, padded decoding, whose
/// outcome is a function of the text alone.
#[verifier::external_body]
fn b64_decode(s: &str) -> (r: Result<Vec<u8>, ()>)
    ensures
        match r {
            Ok(v) => b64_of(s@) == Some(v@),
            Err(_) => b64_of(s@) is None,
        },
{
    base64::decode(s).map_err(|_| ())
}

/// What stretching cookie-key material means: material of 64 bytes or more
/// is kept as it is; shorter, nonempty material is repeated cyclically out
/// to 64 bytes.
pub open spec fn stretched_key_spec(k: Seq<u8>) -> Seq<u8> {
    if k.len() >= 64 {
        k
    } else {
        Seq::new(64, |i: int| k[i % (k.len() as int)])
    }
}

/// Repeats short key material cyclically out to the 64 bytes the private
/// cookie jar needs, exactly as `stretched_key_spec` says.
pub fn stretch_cookie_key(key: &[u8]) -> (r: Vec<u8>)
    requires
        key@.len() > 0,
    ensures
        r@ == stretched_key_spec(key@),
{
    let len = key.len();
    if len >= 64 {
        return vstd::slice::slice_to_vec(key);
    }
    let mut out: Vec<u8> = Vec::new();
    let mut i: usize = 0;
    while i < 64
        invariant
            0 < len == key@.len() < 64,
            0 <= i <= 64,
            out@.len() == i,
            forall|j: int| 0 <= j < i ==> out@[j] == key@[j % (len as int)],
        decreases 64 - i,
    {
        out.push(key[i % len]);
        i = i + 1;
    }
    proof {
        assert(out@ =~= stretched_key_spec(key@));
    }
    out
}

/// Turns the configured cookie-key text into the jar's key material: decodes
/// the base64 text and stretches short material. Text that is not base64,
/// and key material of no bytes at all, are rejected rather than used.
pub fn cookie_key_material(b64_key: &str) -> (r: Option<Vec<u8>>)
    ensures
        match b64_of(b64_key@) {
            None => r is None,
            Some(k) => if k.len() == 0 {
                r is None
            } else {
                r matches Some(v) && v@ == stretched_key_spec(k)
            },
        },
{
    let decoded = match b64_decode(b64_key) {
        Ok(v) => v,
        Err(_) => {
            return None;
        },
    };
    if decoded.len() == 0 {
        return None;
    }
    Some(stretch_cookie_key(decoded.as_slice()))
}

/// A colon-free sequence has no first colon.
proof fn lemma_first_colon_none(t: Seq<u8>)
    requires
        forall|k: int| 0 <= k < t.len() ==> t[k] != 58,
    ensures
        first_colon(t) is None,
    decreases t.len(),
{
    if t.len() > 0 {
        lemma_first_colon_none(t.drop_first());
    }
}

/// A colon at `j`, with none before it, is the first colon.
proof fn lemma_first_colon_at(t: Seq<u8>, j: int)
    requires
        0 <= j < t.len(),
        t[j] == 58,
        forall|k: int| 0 <= k < j ==> t[k] != 58,
    ensures
        first_colon(t) == Some(j),
    decreases j,
{
    if j > 0 {
        lemma_first_colon_at(t.drop_first(), j - 1);
    }
}

/// Finds the first `:` at or after `from`, agreeing with `first_colon` on
/// the suffix starting there.
fn find_colon(s: &[u8], from: usize) -> (r: Option<usize>)
    requires
        from <= s@.len(),
    ensures
        match r {
            Some(j) => from <= j < s@.len() && first_colon(
                s@.subrange(from as int, s@.len() as int),
            ) == Some(j - from),
            None => first_colon(s@.subrange(from as int, s@.len() as int)) is None,
        },
{
    let ghost suffix = s@.subrange(from as int, s@.len() as int);
    let len = s.len();
    let mut i = from;
    while i < len
        invariant
            from <= i <= len,
            len == s@.len(),
            suffix == s@.subrange(from as int, s@.len() as int),
            forall|k: int| from <= k < i ==> s@[k] != 58,
        decreases len - i,
    {
        if s[i] == 58 {
            proof {
                assert(forall|k: int| 0 <= k < i - from ==> suffix[k] == s@[from + k]);
                lemma_first_colon_at(suffix, i - from);
            }
            return Some(i);
        }
        i = i + 1;
    }
    proof {
        assert(forall|k: int| 0 <= k < suffix.len() ==> suffix[k] == s@[from + k]);
        lemma_first_colon_none(suffix);
    }
    None
}

/// Reads a whole byte string as a canonical signed decimal that fits an
/// `i64`: `Some` exactly when `parse_sdec` accepts the bytes and the value is
/// representable.
fn parse_i64_bytes(s: &[u8]) -> (r: Option<i64>)
    ensures
        match r {
            Some(v) => parse_sdec(s@) == Some(v as int),
            None => !(parse_sdec(s@) matches Some(v) && i64::MIN <= v <= i64::MAX),
        },
{
    let len = s.len();
    if len == 0 {
        return None;
    }
    let neg = s[0] == 45;
    let start: usize = if neg {
        1
    } else {
        0
    };
    let ghost num = s@.subrange(start as int, len as int);
    if len == start {
        return None;
    }
    proof {
        if neg {
            assert(s@.subrange(1, len as int) =~= num);
        } else {
            assert(s@.subrange(0, len as int) =~= s@);
            assert(num == s@);
        }
    }
    if s[start] == 48 && len - start > 1 {
        return None;
    }
    let mut i = start;
    let mut acc: u64 = 0;
    let mut overflow = false;
    while i < len
        invariant
            start <= i <= len,
            len == s@.len(),
            start < len,
            neg == (s@[0] == 45),
            neg ==> start == 1,
            !neg ==> start == 0,
            num == s@.subrange(start as int, len as int),
            forall|k: int| start <= k < i ==> is_digit(#[trigger] s@[k]),
            !overflow ==> acc as nat == dec_value(s@.subrange(start as int, i as int)),
            overflow ==> dec_value(s@.subrange(start as int, i as int)) > u64::MAX,
        decreases len - i,
    {
        let b = s[i];
        if b < 48 || b > 57 {
            proof {
                assert(num[i - start] == s@[i as int]);
                assert(!is_digit(num[i - start]));
                assert(!all_digits(num));
                assert(!canon_udec(num));
                if neg {
                    assert(s@.subrange(1, s@.len() as int) == num);
                }
            }
            return None;
        }
        let d = (b - 48) as u64;
        proof {
            let pre = s@.subrange(start as int, i as int);
            let ext = s@.subrange(start as int, i + 1);
            assert(ext.drop_last() =~= pre);
            assert(ext.last() == s@[i as int]);
            assert(dec_value(ext) == dec_value(pre) * 10 + (b - 48));
        }
        if overflow {
            proof {
                let pre = s@.subrange(start as int, i as int);
                assert(dec_value(pre) * 10 >= dec_value(pre));
            }
        } else if acc > (u64::MAX - d) / 10 {
            proof {
                let pre = s@.subrange(start as int, i as int);
                assert(dec_value(pre) * 10 + (b - 48) > u64::MAX);
            }
            overflow = true;
        } else {
            acc = acc * 10 + d;
        }
        i = i + 1;
    }
    proof {
        assert(num =~= s@.subrange(start as int, len as int));
        assert(all_digits(num));
        assert(canon_udec(num));
        if neg {
            assert(s@.subrange(1, len as int) =~= num);
        }
    }
    if overflow {
        proof {
            assert(dec_value(num) > u64::MAX);
        }
        return None;
    }
    if neg {
        if acc == 0 {
            return None;
        }
        if acc > 9223372036854775808u64 {
            return None;
        }
        if acc == 9223372036854775808u64 {
            Some(i64::MIN)
        } else {
            Some(-(acc as i64))
        }
    } else {
        if acc > 9223372036854775807u64 {
            return None;
        }
        Some(acc as i64)
    }
}

/// Decodes a presented byte string, exactly as `decode_session_spec` says.
pub fn decode_cookie(s: &[u8]) -> (r: Option<LoginCookieData>)
    ensures
        r == decode_session_spec(s@),
{
    let len = s.len();
    let c1 = match find_colon(s, 0) {
        Some(j) => j,
        None => {
            proof {
                assert(s@.subrange(0, s@.len() as int) =~= s@);
            }
            return None;
        },
    };
    proof {
        assert(s@.subrange(0, s@.len() as int) =~= s@);
    }
    let ghost rest = s@.subrange(c1 + 1, s@.len() as int);
    let c2 = match find_colon(s, c1 + 1) {
        Some(j) => j,
        None => {
            return None;
        },
    };
    let ghost c2r = c2 - c1 - 1;
    let f1 = &s[0..c1];
    let f2 = &s[c1 + 1..c2];
    let f3 = &s[c2 + 1..len];
    proof {
        assert(f1@ =~= s@.subrange(0, c1 as int));
        assert(f2@ =~= rest.subrange(0, c2r));
        assert(f3@ =~= rest.subrange(c2r + 1, rest.len() as int));
    }
    let u = match parse_i64_bytes(f1) {
        Some(v) => v,
        None => {
            return None;
        },
    };
    if u < -2147483648i64 || u > 2147483647i64 {
        return None;
    }
    let a = match parse_i64_bytes(f2) {
        Some(v) => v,
        None => {
            return None;
        },
    };
    let v = match parse_i64_bytes(f3) {
        Some(v) => v,
        None => {
            return None;
        },
    };
    Some(LoginCookieData { user_id: u as i32, logged_in_at: a, valid_until: v })
}

/// Verifies a presented session token at time `now`, exactly as
/// `verify_session_spec` says: an undecodable token and an expired one are
/// refused identically.
pub fn verify_session(token: &[u8], now: i64) -> (r: Result<i32, Error>)
    ensures
        r == verify_session_spec(token@, now),
{
    match decode_cookie(token) {
        None => Err(Error::Unauthorized),
        Some(d) => if now >= d.valid_until {
            Err(Error::Unauthorized)
        } else {
            Ok(d.user_id)
        },
    }
}

/// Stamps a fresh session for `user_id`: issued now, expiring exactly one
/// validity window later. The caller keeps `now` small enough that the
/// expiry is representable.
pub fn issue_session(user_id: i32, now: i64) -> (r: LoginCookieData)
    requires
        now <= i64::MAX - SESSION_VALIDITY_SECS,
    ensures
        r == (LoginCookieData {
            user_id,
            logged_in_at: now,
            valid_until: (now + SESSION_VALIDITY_SECS) as i64,
        }),
        r.wf(),
{
    LoginCookieData { user_id, logged_in_at: now, valid_until: now + SESSION_VALIDITY_SECS }
}

impl LoginCookieData {
    /// Serializes this payload into its byte encoding, exactly as
    /// `encode_session_spec` says.
    pub fn encode_cookie(&self) -> (r: Vec<u8>)
        ensures
            r@ == encode_session_spec(*self),
    {
        let mut out: Vec<u8> = Vec::new();
        push_i64_dec(&mut out, self.user_id as i64);
        out.push(58);
        push_i64_dec(&mut out, self.logged_in_at);
        out.push(58);
        push_i64_dec(&mut out, self.valid_until);
        proof {
            assert(out@ =~= encode_session_spec(*self));
        }
        out
    }
}

} // verus!
