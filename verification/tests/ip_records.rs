use ipinfo::ip::{or_unknown, Ip, AS, UNKNOWN};

#[test]
fn as_record_from_a_found_entry() {
    let r = AS::new(Some((Some(13335), Some("CLOUDFLARENET".to_string()))));
    assert_eq!(r.asn, "AS13335");
    assert_eq!(r.org, "CLOUDFLARENET");
}

#[test]
fn as_record_with_missing_fields() {
    let r = AS::new(Some((None, None)));
    assert_eq!(r.asn, UNKNOWN);
    assert_eq!(r.org, UNKNOWN);
    let r = AS::new(Some((Some(0), None)));
    assert_eq!(r.asn, "AS0");
}

#[test]
fn as_record_for_a_failed_lookup() {
    let r = AS::new(None);
    assert_eq!(r.asn, "unknown");
    assert_eq!(r.org, "unknown");
    let d = AS::default();
    assert_eq!(d.asn, "unknown");
    assert_eq!(d.org, "unknown");
}

#[test]
fn ip_text() {
    assert_eq!(Ip::V4("192.0.2.1".to_string()).to_string(), "192.0.2.1");
    assert_eq!(Ip::V6("2001:db8::1".to_string()).to_string(), "2001:db8::1");
}

#[test]
fn or_unknown_fills_gaps() {
    assert_eq!(or_unknown(None), "unknown");
    assert_eq!(or_unknown(Some("FR".to_string())), "FR");
}

#[test]
fn earlier_as_record_has_plain_number() {
    let r = AS::from(Some((Some(13335), Some("CLOUDFLARENET".to_string()))));
    assert_eq!(r.asn, "13335");
    assert_eq!(r.org, "CLOUDFLARENET");
    let r = AS::from(Some((None, None)));
    assert_eq!(r.asn, "unknown");
    assert_eq!(r.org, "unknown");
    let r = AS::from(None);
    assert_eq!(r.asn, "unknown");
}
