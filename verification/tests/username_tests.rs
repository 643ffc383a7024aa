use hotsauce_auth::username::{UsernameValidationError, validate_potential_username};

#[test]
fn too_short_username_rejected() {
    assert_eq!(validate_potential_username("ab"), Err(UsernameValidationError::TooShort));
}

#[test]
fn thirty_lowercase_characters_rejected_as_too_long() {
    let name = "abcdefghijklmnopqrstuvwxyzabcd";
    assert_eq!(name.len(), 30);
    assert_eq!(validate_potential_username(name), Err(UsernameValidationError::TooLong));
}

#[test]
fn uppercase_username_rejected_as_illegal_characters() {
    assert_eq!(
        validate_potential_username("Abc-123"),
        Err(UsernameValidationError::IllegalCharacters)
    );
}

#[test]
fn illegal_characters_reported_before_length() {
    // One uppercase character in a name that is also too short: the
    // character class is checked first.
    assert_eq!(validate_potential_username("AB"), Err(UsernameValidationError::IllegalCharacters));
}

#[test]
fn boundary_lengths_accepted() {
    assert_eq!(validate_potential_username("abcde"), Ok(()));
    assert_eq!(validate_potential_username("abcdefghijklmnopqrstuvwxy"), Ok(()));
}

#[test]
fn just_outside_boundaries_rejected() {
    assert_eq!(validate_potential_username("abcd"), Err(UsernameValidationError::TooShort));
    assert_eq!(
        validate_potential_username("abcdefghijklmnopqrstuvwxyz"),
        Err(UsernameValidationError::TooLong)
    );
}

#[test]
fn hyphens_underscores_and_digits_accepted() {
    assert_eq!(validate_potential_username("a-b_c9"), Ok(()));
}

#[test]
fn empty_username_rejected() {
    assert_eq!(validate_potential_username(""), Err(UsernameValidationError::TooShort));
}

#[test]
fn space_and_symbol_rejected() {
    assert_eq!(
        validate_potential_username("chili head"),
        Err(UsernameValidationError::IllegalCharacters)
    );
    assert_eq!(
        validate_potential_username("chili!head"),
        Err(UsernameValidationError::IllegalCharacters)
    );
}

#[test]
fn rejection_messages_are_distinct() {
    let msgs = [
        UsernameValidationError::TooShort.message(),
        UsernameValidationError::TooLong.message(),
        UsernameValidationError::IllegalCharacters.message(),
        UsernameValidationError::AlreadyTaken.message(),
    ];
    assert_eq!(msgs[0], "Usernames must be at least 5 characters long");
    assert_eq!(msgs[3], "Username already in use");
    for i in 0..msgs.len() {
        for j in 0..msgs.len() {
            if i != j {
                assert_ne!(msgs[i], msgs[j]);
            }
        }
    }
}
