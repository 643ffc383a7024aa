//! Username rules for the signup flow: usernames are user-chosen, so they are
//! held to a fixed grammar (lowercase ASCII letters, digits, hyphen,
//! underscore) and to inclusive length bounds.

use vstd::prelude::*;

verus! {

/// Fewest characters a username may have (inclusive).
pub const MIN_USERNAME_LEN: usize = 5;

/// Most characters a username may have (inclusive).
pub const MAX_USERNAME_LEN: usize = 25;

/// A character the username grammar accepts: lowercase ASCII letter, digit,
/// hyphen or underscore.
pub open spec fn is_username_char(c: char) -> bool {
    ('a' <= c && c <= 'z') || ('0' <= c && c <= '9') || c == '-' || c == '_'
}

/// Every character of `s` is acceptable in a username.
pub open spec fn username_chars_ok(s: Seq<char>) -> bool {
    forall|i: int| 0 <= i < s.len() ==> is_username_char(#[trigger] s[i])
}

/// The full username grammar: acceptable characters and length within bounds.
pub open spec fn valid_username(s: Seq<char>) -> bool {
    &&& username_chars_ok(s)
    &&& MIN_USERNAME_LEN <= s.len() <= MAX_USERNAME_LEN
}

/// Why a requested username was rejected. `AlreadyTaken` is reported by the
/// user directory, which alone can see existing usernames; the other three
/// come from the grammar alone.
#[derive(Debug, Clone, Copy, PartialEq, Eq, Structural)]
pub enum UsernameValidationError {
    TooShort,
    TooLong,
    IllegalCharacters,
    AlreadyTaken,
}

impl UsernameValidationError {
    /// What `message` returns for each rejection.
    pub open spec fn spec_message(self) -> Seq<char> {
        match self {
            UsernameValidationError::TooShort => "Usernames must be at least 5 characters long"@,
            UsernameValidationError::TooLong => "Usernames must be less than 25 characters long"@,
            UsernameValidationError::IllegalCharacters => "Usernames must contain only lowercase letters, numbers, hyphens, and underscores"@,
            UsernameValidationError::AlreadyTaken => "Username already in use"@,
        }
    }

    /// The user-facing detail message for this rejection.
    pub fn message(&self) -> (r: &'static str)
        ensures
            r@ == self.spec_message(),
    {
        match self {
            UsernameValidationError::TooShort => "Usernames must be at least 5 characters long",
            UsernameValidationError::TooLong => "Usernames must be less than 25 characters long",
            UsernameValidationError::IllegalCharacters => "Usernames must contain only lowercase letters, numbers, hyphens, and underscores",
            UsernameValidationError::AlreadyTaken => "Username already in use",
        }
    }
}

/// What holding a username against the grammar yields: the character class
/// is checked before the length bounds, so a name that is both too short and
/// malformed reports `IllegalCharacters`. Uniqueness is not decided here.
pub open spec fn spec_validate_username(s: Seq<char>) -> Result<(), UsernameValidationError> {
    if !username_chars_ok(s) {
        Err(UsernameValidationError::IllegalCharacters)
    } else if s.len() < MIN_USERNAME_LEN as int {
        Err(UsernameValidationError::TooShort)
    } else if s.len() > MAX_USERNAME_LEN as int {
        Err(UsernameValidationError::TooLong)
    } else {
        Ok(())
    }
}

/// Holds a requested username against the grammar, exactly as
/// `spec_validate_username` says.
pub fn validate_potential_username(username: &str) -> (r: Result<(), UsernameValidationError>)
    ensures
        r == spec_validate_username(username@),
        r is Ok <==> valid_username(username@),
{
    let len = username.unicode_len();
    let mut i: usize = 0;
    while i < len
        invariant
            0 <= i <= len,
            len == username@.len(),
            forall|j: int| 0 <= j < i ==> is_username_char(#[trigger] username@[j]),
        decreases len - i,
    {
        let c = username.get_char(i);
        let ok = ('a' <= c && c <= 'z') || ('0' <= c && c <= '9') || c == '-' || c == '_';
        if !ok {
            return Err(UsernameValidationError::IllegalCharacters);
        }
        i = i + 1;
    }
    if len < MIN_USERNAME_LEN {
        return Err(UsernameValidationError::TooShort);
    }
    if len > MAX_USERNAME_LEN {
        return Err(UsernameValidationError::TooLong);
    }
    Ok(())
}

} // verus!
