use ipinfo::http::{
    extract_ip, header_text, is_user_agent_automated, tls_version, user_agent_of, Http,
    TLS_PLACEHOLDER,
};

#[test]
fn automated_clients_are_recognised() {
    assert!(is_user_agent_automated(&Some("curl/8.4.0".to_string())));
    assert!(is_user_agent_automated(&Some("Wget/1.21.4".to_string())));
    assert!(is_user_agent_automated(&Some("HTTPie/3.2.2".to_string())));
}

#[test]
fn browsers_and_missing_agents_are_not_automated() {
    assert!(!is_user_agent_automated(&None));
    assert!(!is_user_agent_automated(&Some(
        "Mozilla/5.0 (X11; Linux x86_64)".to_string()
    )));
    assert!(!is_user_agent_automated(&Some("curl".to_string())));
    assert!(!is_user_agent_automated(&Some("xcurl/8.0".to_string())));
    assert!(!is_user_agent_automated(&Some(String::new())));
}

#[test]
fn header_text_keeps_visible_ascii() {
    assert_eq!(header_text(b"203.0.113.7"), "203.0.113.7");
    assert_eq!(header_text(b"a\tb"), "a\tb");
    assert_eq!(header_text(b""), "");
}

#[test]
fn header_text_rejects_other_bytes() {
    assert_eq!(header_text(b"caf\xc3\xa9"), "");
    assert_eq!(header_text(b"a\nb"), "");
    assert_eq!(header_text(&[0x7f]), "");
}

#[test]
fn extract_ip_prefers_the_proxy_header() {
    assert_eq!(
        extract_ip(Some(b"198.51.100.1".as_slice()), "127.0.0.1".to_string()),
        "198.51.100.1"
    );
    assert_eq!(extract_ip(None, "127.0.0.1".to_string()), "127.0.0.1");
    assert_eq!(extract_ip(Some(b"\xff".as_slice()), "127.0.0.1".to_string()), "");
}

#[test]
fn tls_version_defaults_to_unknown() {
    assert_eq!(tls_version(None), "unknown");
    assert_eq!(tls_version(Some(TLS_PLACEHOLDER.as_bytes())), "unknown");
    assert_eq!(tls_version(Some(b"tls1.3".as_slice())), "tls1.3");
}

#[test]
fn user_agent_is_read_from_its_header() {
    assert_eq!(user_agent_of(None), None);
    assert_eq!(
        user_agent_of(Some(b"curl/8.0".as_slice())),
        Some("curl/8.0".to_string())
    );
}

#[test]
fn http_new_keeps_its_fields() {
    let http = Http::new("HTTP/2.0".to_string(), "tls1.3".to_string(), None);
    assert_eq!(http.version, "HTTP/2.0");
    assert_eq!(http.tls, "tls1.3");
    assert_eq!(http.user_agent, None);
}

#[test]
fn http_from_headers() {
    let http = Http::from_headers(
        None,
        "HTTP/1.1".to_string(),
        Some(TLS_PLACEHOLDER.as_bytes()),
        Some(b"HTTPie/3.2".as_slice()),
    );
    assert_eq!(http.version, "HTTP/1.1");
    assert_eq!(http.tls, "unknown");
    assert_eq!(http.user_agent, Some("HTTPie/3.2".to_string()));

    let http = Http::from_headers(Some(b"HTTP/2.0".as_slice()), "HTTP/1.1".to_string(), None, None);
    assert_eq!(http.version, "HTTP/2.0");
    assert_eq!(http.tls, "unknown");
    assert_eq!(http.user_agent, None);
}
