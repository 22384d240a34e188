use selfie_records_sdk::get_txt_record_key;

#[test]
fn email_identifier_derives_user_query_name() {
    let name = get_txt_record_key("alice@example.com", "pgp");
    assert_eq!(name, "alice.user._pgp.example.com");
}

#[test]
fn domain_identifier_derives_underscore_query_name() {
    let name = get_txt_record_key("example.com", "pgp");
    assert_eq!(name, "_pgp.example.com");
}

#[test]
fn subdomain_identifier_keeps_every_label() {
    let name = get_txt_record_key("pay.shop.example.com", "bitcoin-payment");
    assert_eq!(name, "_bitcoin-payment.pay.shop.example.com");
}

#[test]
fn email_split_happens_at_the_at_sign() {
    let name = get_txt_record_key("bob@mail.example.org", "nostr");
    assert_eq!(name, "bob.user._nostr.mail.example.org");
}
