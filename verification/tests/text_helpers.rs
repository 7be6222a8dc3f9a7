use ipinfo::text::{chars_of, decimal_string, remove_all_from, trim_str};

#[test]
fn trim_removes_unicode_whitespace() {
    assert_eq!(trim_str("  whois.arin.net \t\r"), "whois.arin.net");
    assert_eq!(trim_str("\u{3000}x\u{a0}"), "x");
    assert_eq!(trim_str("   "), "");
    assert_eq!(trim_str("a b"), "a b");
}

#[test]
fn trim_agrees_with_std() {
    for s in ["", " x ", "\u{85}y\u{2028}", "\u{200b}z", "  10.0.0.0/8  "] {
        assert_eq!(trim_str(s), s.trim());
    }
}

#[test]
fn remove_all_drops_every_occurrence() {
    let text = chars_of("whois://rwhois.example.net:4321whois://");
    let pattern = chars_of("whois://");
    assert_eq!(remove_all_from(&text, 0, &pattern), "rwhois.example.net:4321");
    let text = chars_of("abc");
    assert_eq!(remove_all_from(&text, 1, &pattern), "bc");
}

#[test]
fn decimal_matches_display() {
    for n in [0u32, 7, 10, 13335, 4294967295] {
        assert_eq!(decimal_string(n), n.to_string());
    }
}
