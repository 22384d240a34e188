use selfie_records_sdk::{validate_domain_or_subdomain, validate_email_address};

#[test]
fn plain_domain_passes_domain_check() {
    assert!(validate_domain_or_subdomain("pgp", "example.com").is_none());
    assert!(validate_domain_or_subdomain("pgp", "a.b.c-d.e_f").is_none());
}

#[test]
fn single_label_fails_domain_check() {
    let err = validate_domain_or_subdomain("pgp", "localhost");
    assert_eq!(
        err.as_deref(),
        Some("Invalid domain or subdomain name for key: pgp")
    );
}

#[test]
fn spaces_fail_domain_check() {
    let err = validate_domain_or_subdomain("nostr", "not a domain");
    assert_eq!(
        err.as_deref(),
        Some("Invalid domain or subdomain name for key: nostr")
    );
}

#[test]
fn empty_labels_fail_domain_check() {
    assert!(validate_domain_or_subdomain("pgp", ".example.com").is_some());
    assert!(validate_domain_or_subdomain("pgp", "example.com.").is_some());
    assert!(validate_domain_or_subdomain("pgp", "example..com").is_some());
    assert!(validate_domain_or_subdomain("pgp", "").is_some());
}

#[test]
fn scheme_prefix_fails_domain_check() {
    assert!(validate_domain_or_subdomain("pgp", "://example.com").is_some());
}

#[test]
fn plain_email_passes_email_check() {
    assert!(validate_email_address("pgp", "alice@example.com").is_none());
}

#[test]
fn email_without_domain_dot_fails_email_check() {
    let err = validate_email_address("pgp", "a@b");
    assert_eq!(err.as_deref(), Some("Invalid email name for key: pgp"));
}

#[test]
fn email_oddities_fail_email_check() {
    assert!(validate_email_address("k", "no-at-sign.example.com").is_some());
    assert!(validate_email_address("k", "two@@example.com").is_some());
    assert!(validate_email_address("k", "a@b@example.com").is_some());
    assert!(validate_email_address("k", "@example.com").is_some());
    assert!(validate_email_address("k", "alice@").is_some());
    assert!(validate_email_address("k", "ali ce@example.com").is_some());
}
