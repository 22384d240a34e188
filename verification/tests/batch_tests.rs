use selfie_records_sdk::{Ipv4Address, SelfieRecordsSDK};

// These batches use identifiers that fail validation, so no lookup is
// ever attempted and no network is needed.

#[test]
fn invalid_identifier_gets_domain_error_without_lookup() {
    let sdk = SelfieRecordsSDK::new(false);
    let records = sdk.get_records("not a domain", Some(vec!["pgp"]), None);
    assert_eq!(records.len(), 1);
    assert_eq!(records[0].0, "pgp");
    assert_eq!(records[0].1.value(), None);
    assert_eq!(
        records[0].1.error().map(String::as_str),
        Some("Invalid domain or subdomain name for key: pgp")
    );
}

#[test]
fn domain_error_wins_when_both_checks_fail() {
    // "a@b" fails the domain check (an '@') and the email check (no dot
    // after the '@'); the domain-shape message must win the tie.
    let sdk = SelfieRecordsSDK::new(false);
    let records = sdk.get_records("a@b", Some(vec!["nostr"]), None);
    assert_eq!(records.len(), 1);
    assert_eq!(
        records[0].1.error().map(String::as_str),
        Some("Invalid domain or subdomain name for key: nostr")
    );
}

#[test]
fn default_key_set_is_used_when_none_is_given() {
    let sdk = SelfieRecordsSDK::new(false);
    let records = sdk.get_records("not a domain", None, None);
    let keys: Vec<&str> = records.iter().map(|p| p.0.as_str()).collect();
    assert_eq!(keys, vec!["bitcoin-payment", "pgp", "nostr", "node-uri"]);
}

#[test]
fn result_holds_each_requested_key_exactly_once() {
    let sdk = SelfieRecordsSDK::new(false);
    let records = sdk.get_records(
        "not a domain",
        Some(vec!["pgp", "pgp", "nostr", "pgp"]),
        None,
    );
    let keys: Vec<&str> = records.iter().map(|p| p.0.as_str()).collect();
    assert_eq!(keys, vec!["pgp", "nostr"]);
}

#[test]
fn every_entry_has_exactly_one_side() {
    let sdk = SelfieRecordsSDK::new(false);
    let records = sdk.get_records("no-dot-here", Some(vec!["a", "b", "c"]), None);
    assert_eq!(records.len(), 3);
    for (_, outcome) in &records {
        assert!(outcome.value().is_some() != outcome.error().is_some());
    }
}

#[test]
fn invalid_override_is_ignored_for_the_whole_batch() {
    // A malformed nameserver override must behave exactly like no
    // override; with an invalid identifier the outcomes are pure.
    let sdk = SelfieRecordsSDK::new(false);
    let with_bad_override = sdk.get_records("not a domain", Some(vec!["pgp"]), Some("not-an-ip"));
    let without_override = sdk.get_records("not a domain", Some(vec!["pgp"]), None);
    assert_eq!(with_bad_override.len(), without_override.len());
    assert_eq!(
        with_bad_override[0].1.error(),
        without_override[0].1.error()
    );
}

#[test]
fn constructors_store_their_configuration() {
    let sdk = SelfieRecordsSDK::new(true);
    assert!(sdk.debug);
    assert_eq!(sdk.nameserver, Ipv4Address { a: 8, b: 8, c: 8, d: 8 });

    let ns = Ipv4Address { a: 1, b: 1, c: 1, d: 1 };
    let mut other = SelfieRecordsSDK::with_nameserver(false, ns);
    assert!(!other.debug);
    assert_eq!(other.nameserver, ns);
    other.set_lookup_timeout(9);
    assert_eq!(other.lookup_timeout_secs, 9);
}
