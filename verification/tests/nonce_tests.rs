use hotsauce_auth::nonce::NonceLedger;

#[test]
fn first_claim_fresh_second_stale() {
    let mut ledger = NonceLedger::new();
    assert!(ledger.claim(1, "nonce-a"));
    assert!(!ledger.claim(1, "nonce-a"));
    // Still stale on every later attempt.
    assert!(!ledger.claim(1, "nonce-a"));
}

#[test]
fn same_nonce_under_different_users_both_fresh() {
    let mut ledger = NonceLedger::new();
    assert!(ledger.claim(1, "shared-nonce"));
    assert!(ledger.claim(2, "shared-nonce"));
    // And each user's own repeat is stale.
    assert!(!ledger.claim(1, "shared-nonce"));
    assert!(!ledger.claim(2, "shared-nonce"));
}

#[test]
fn different_nonces_for_one_user_both_fresh() {
    let mut ledger = NonceLedger::new();
    assert!(ledger.claim(1, "nonce-a"));
    assert!(ledger.claim(1, "nonce-b"));
}

#[test]
fn contains_reports_committed_pairs() {
    let mut ledger = NonceLedger::new();
    assert!(!ledger.contains(5, "x-nonce"));
    assert!(ledger.claim(5, "x-nonce"));
    assert!(ledger.contains(5, "x-nonce"));
    assert!(!ledger.contains(6, "x-nonce"));
    assert!(!ledger.contains(5, "y-nonce"));
}

#[test]
fn empty_nonce_value_is_still_a_nonce() {
    let mut ledger = NonceLedger::new();
    assert!(ledger.claim(1, ""));
    assert!(!ledger.claim(1, ""));
}
