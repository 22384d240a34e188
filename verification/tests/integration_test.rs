use selfie_records_sdk::SelfieRecordsSDK;

#[test]
fn test_get_records() {
    let sdk = SelfieRecordsSDK::new(true);
    let records = sdk.get_records("example.com", None, Some("8.8.8.8"));
    assert!(!records.is_empty());
}

#[test]
fn valid_identifier_entries_have_a_resolved_shape() {
    // Whatever the network does, a valid identifier's entry is a value,
    // the no-records error, a lookup failure naming the derived query
    // name, or a resolver-construction failure — never a validation error.
    let sdk = SelfieRecordsSDK::new(false);
    let records = sdk.get_records("example.com", Some(vec!["pgp"]), Some("8.8.8.8"));
    assert_eq!(records.len(), 1);
    assert_eq!(records[0].0, "pgp");
    let outcome = &records[0].1;
    match outcome.error() {
        Some(err) => {
            assert!(
                err == "No TXT records found"
                    || err.starts_with("Error resolving TXT record for _pgp.example.com: ")
                    || err.starts_with("Error constructing resolver: ")
            );
            assert!(outcome.value().is_none());
        }
        None => assert!(outcome.value().is_some()),
    }
}
