use overlingo::credentials::{account, settle, CredentialStore, KeychainOutcome};

#[test]
fn rejects_unknown_provider_before_touching_the_keychain() {
    let mut store = CredentialStore::default();
    assert!(store.set("gemini", "secret").is_err());
    assert!(store.is_empty());
}

#[test]
fn account_names_stay_compatible_with_stored_keys() {
    assert_eq!(account("qwen"), "qwen-api-key");
    assert_eq!(account("openai"), "openai-api-key");
}

#[test]
fn an_unset_provider_reads_as_missing() {
    let mut store = CredentialStore::default();
    assert!(!store.has("qwen"));
    store.set_for_test("qwen", "  ");
    assert!(!store.has("qwen"));
    store.set_for_test("qwen", "sk-test");
    assert!(store.has("qwen"));
}

#[test]
fn a_seeded_secret_reads_back_and_shows_in_the_status() {
    let mut store = CredentialStore::default();
    store.set_for_test("soniox", "sk-1");
    store.set_for_test("soniox", "sk-2");
    assert_eq!(store.get("soniox"), "sk-2");
    assert_eq!(store.get("openai"), "");
    let status = store.status();
    assert_eq!(
        status,
        vec![
            ("qwen".to_string(), false),
            ("soniox".to_string(), true),
            ("openai".to_string(), false),
        ]
    );
}

#[test]
fn the_unsupported_provider_error_names_the_provider() {
    let mut store = CredentialStore::default();
    assert_eq!(
        store.set("gemini", "x"),
        Err("Unsupported credential provider: gemini".to_string())
    );
}

#[test]
fn a_duplicate_holds_the_same_secrets() {
    let mut store = CredentialStore::default();
    store.set_for_test("qwen", "sk-q");
    store.set_for_test("openai", "sk-o");
    let copy = store.duplicate();
    assert_eq!(copy.get("qwen"), "sk-q");
    assert_eq!(copy.get("openai"), "sk-o");
    assert_eq!(copy.status(), store.status());
}

#[test]
fn a_removal_that_finds_no_item_counts_as_done() {
    assert_eq!(settle(true, KeychainOutcome::Done), Ok(()));
    assert_eq!(settle(false, KeychainOutcome::Done), Ok(()));
    assert_eq!(
        settle(true, KeychainOutcome::Failed { missing: true, text: "No matching entry".into() }),
        Ok(())
    );
    assert_eq!(
        settle(false, KeychainOutcome::Failed { missing: true, text: "No matching entry".into() }),
        Err("Credential store error: No matching entry".to_string())
    );
    assert_eq!(
        settle(true, KeychainOutcome::Failed { missing: false, text: "locked".into() }),
        Err("Credential store error: locked".to_string())
    );
}
