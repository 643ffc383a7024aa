use hotsauce_auth::directory::UserDirectory;
use hotsauce_auth::username::UsernameValidationError;

#[test]
fn create_assigns_sequential_ids() {
    let mut dir = UserDirectory::new();
    assert_eq!(dir.create("subject-a", "chilihead"), Ok(1));
    assert_eq!(dir.create("subject-b", "saucefan"), Ok(2));
    assert_eq!(dir.user_count(), 2);
}

#[test]
fn create_validates_username_before_uniqueness() {
    let mut dir = UserDirectory::new();
    assert_eq!(dir.create("subject-a", "ab"), Err(UsernameValidationError::TooShort));
    assert_eq!(dir.create("subject-a", "Chili"), Err(UsernameValidationError::IllegalCharacters));
    assert_eq!(dir.user_count(), 0);
    assert_eq!(dir.find_by_subject("subject-a"), None);
}

#[test]
fn duplicate_username_reported_as_already_taken() {
    let mut dir = UserDirectory::new();
    assert_eq!(dir.create("subject-a", "chilihead"), Ok(1));
    assert_eq!(dir.create("subject-b", "chilihead"), Err(UsernameValidationError::AlreadyTaken));
    assert_eq!(dir.user_count(), 1);
    assert_eq!(dir.find_by_subject("subject-b"), None);
}

#[test]
fn second_create_for_same_subject_reuses_the_link() {
    let mut dir = UserDirectory::new();
    assert_eq!(dir.create("subject-a", "chilihead"), Ok(1));
    // A racing second attempt with a different username: no new user row,
    // the existing user id is returned.
    assert_eq!(dir.create("subject-a", "othername"), Ok(1));
    assert_eq!(dir.user_count(), 1);
}

#[test]
fn find_by_subject_resolves_only_known_subjects() {
    let mut dir = UserDirectory::new();
    assert_eq!(dir.find_by_subject("subject-a"), None);
    assert_eq!(dir.create("subject-a", "chilihead"), Ok(1));
    assert_eq!(dir.find_by_subject("subject-a"), Some(1));
    assert_eq!(dir.find_by_subject("subject-b"), None);
}

#[test]
fn username_taken_sees_only_chosen_usernames() {
    let mut dir = UserDirectory::new();
    assert!(!dir.username_taken("chilihead"));
    assert_eq!(dir.create("subject-a", "chilihead"), Ok(1));
    assert!(dir.username_taken("chilihead"));
    assert!(!dir.username_taken("chilihea"));
    // Provider-profile users carry no chosen username.
    let id = dir.resolve_or_create("subject-b", "Some Name", "someone@example.com");
    assert_eq!(id, 2);
    assert!(!dir.username_taken("Some Name"));
}

#[test]
fn resolve_or_create_reuses_existing_links() {
    let mut dir = UserDirectory::new();
    let a = dir.resolve_or_create("subject-a", "A Person", "a@example.com");
    let b = dir.resolve_or_create("subject-b", "B Person", "b@example.com");
    let a_again = dir.resolve_or_create("subject-a", "Changed Name", "c@example.com");
    assert_eq!(a, 1);
    assert_eq!(b, 2);
    assert_eq!(a_again, 1);
    assert_eq!(dir.user_count(), 2);
}

#[test]
fn links_span_both_record_shapes() {
    let mut dir = UserDirectory::new();
    assert_eq!(dir.create("subject-a", "chilihead"), Ok(1));
    let id = dir.resolve_or_create("subject-b", "B Person", "b@example.com");
    assert_eq!(id, 2);
    assert_eq!(dir.find_by_subject("subject-a"), Some(1));
    assert_eq!(dir.find_by_subject("subject-b"), Some(2));
}
