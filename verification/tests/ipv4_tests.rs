use selfie_records_sdk::ipv4::{default_nameserver, effective_nameserver};
use selfie_records_sdk::{parse_ipv4, Ipv4Address};

#[test]
fn parses_plain_dotted_quad() {
    assert_eq!(
        parse_ipv4("8.8.8.8"),
        Some(Ipv4Address { a: 8, b: 8, c: 8, d: 8 })
    );
    assert_eq!(
        parse_ipv4("192.168.0.255"),
        Some(Ipv4Address { a: 192, b: 168, c: 0, d: 255 })
    );
    assert_eq!(
        parse_ipv4("0.0.0.0"),
        Some(Ipv4Address { a: 0, b: 0, c: 0, d: 0 })
    );
}

#[test]
fn rejects_out_of_range_octets() {
    assert_eq!(parse_ipv4("256.1.1.1"), None);
    assert_eq!(parse_ipv4("1.2.3.999"), None);
}

#[test]
fn rejects_leading_zeros() {
    assert_eq!(parse_ipv4("192.168.001.1"), None);
    assert_eq!(parse_ipv4("01.2.3.4"), None);
}

#[test]
fn rejects_wrong_shapes() {
    assert_eq!(parse_ipv4("not-an-ip"), None);
    assert_eq!(parse_ipv4("1.2.3"), None);
    assert_eq!(parse_ipv4("1.2.3.4.5"), None);
    assert_eq!(parse_ipv4("1..2.3"), None);
    assert_eq!(parse_ipv4(""), None);
    assert_eq!(parse_ipv4("1.2.3.4 "), None);
}

#[test]
fn invalid_override_behaves_like_no_override() {
    let fallback = default_nameserver();
    assert_eq!(effective_nameserver(Some("not-an-ip"), fallback), fallback);
    assert_eq!(effective_nameserver(None, fallback), fallback);
    assert_eq!(
        effective_nameserver(Some("not-an-ip"), fallback),
        effective_nameserver(None, fallback)
    );
}

#[test]
fn valid_override_wins() {
    let fallback = default_nameserver();
    assert_eq!(
        effective_nameserver(Some("1.2.3.4"), fallback),
        Ipv4Address { a: 1, b: 2, c: 3, d: 4 }
    );
}
