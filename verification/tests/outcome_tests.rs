use selfie_records_sdk::{join_with_spaces, outcome_of_lookup, Outcome};

#[test]
fn empty_lookup_is_the_no_records_error() {
    let o = outcome_of_lookup(Ok(Vec::new()));
    assert_eq!(o.value(), None);
    assert_eq!(o.error().map(String::as_str), Some("No TXT records found"));
}

#[test]
fn records_are_joined_with_spaces_in_order() {
    let o = outcome_of_lookup(Ok(vec!["v=1".to_string(), "k=abc".to_string()]));
    assert_eq!(o.value().map(String::as_str), Some("v=1 k=abc"));
    assert_eq!(o.error(), None);
}

#[test]
fn single_record_is_passed_through() {
    let o = outcome_of_lookup(Ok(vec!["only".to_string()]));
    assert_eq!(o.value().map(String::as_str), Some("only"));
}

#[test]
fn lookup_failure_keeps_its_message() {
    let o = outcome_of_lookup(Err("something went wrong".to_string()));
    assert_eq!(o.value(), None);
    assert_eq!(o.error().map(String::as_str), Some("something went wrong"));
}

#[test]
fn every_outcome_has_exactly_one_side() {
    let outcomes = vec![
        Outcome::Value("v".to_string()),
        Outcome::Error("e".to_string()),
        outcome_of_lookup(Ok(Vec::new())),
        outcome_of_lookup(Ok(vec!["a".to_string()])),
        outcome_of_lookup(Err("x".to_string())),
    ];
    for o in &outcomes {
        assert!(o.value().is_some() != o.error().is_some());
    }
}

#[test]
fn join_with_spaces_edge_cases() {
    assert_eq!(join_with_spaces(&Vec::new()), "");
    assert_eq!(join_with_spaces(&vec!["one".to_string()]), "one");
    assert_eq!(
        join_with_spaces(&vec!["a".to_string(), "".to_string(), "b".to_string()]),
        "a  b"
    );
}
