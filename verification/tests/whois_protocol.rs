use ipinfo::whois::{
    find_whois_server, parse_whois_reply, whois_query, Whois, WhoisAction, WhoisError,
    WhoisEvent, WhoisLookup, WhoisPhase, WHOIS_SERVER,
};

fn lines(text: &str) -> Vec<String> {
    text.lines().map(|l| l.to_string()).collect()
}

const IANA_REPLY: &str = "% IANA WHOIS server
% for more information on IANA, visit http://www.iana.org
% This query returned 1 object

refer:        whois.arin.net

inetnum:      76.0.0.0 - 76.255.255.255
organisation: ARIN
status:       ALLOCATED

whois:        whois.arin.net

changed:      2005-06
source:       IANA";

const ARIN_REPLY: &str = "NetRange:       76.0.0.0 - 76.15.255.255
CIDR:           76.0.0.0/12
NetName:        RCSW-1
Organization:   Charter Communications Inc (CC-3517)
RegDate:        2006-03-22";

const RIPE_REPLY: &str = "inetnum:        193.0.0.0 - 193.0.7.255
netname:        RIPE-NCC
route:          193.0.0.0/21
route6:         2001:67c:2e8::/48";

#[test]
fn registry_reply_names_the_whois_server() {
    assert_eq!(
        find_whois_server(&lines(IANA_REPLY)),
        Some("whois.arin.net".to_string())
    );
}

#[test]
fn registry_reply_without_whois_line() {
    assert_eq!(find_whois_server(&lines("refer: whois.arin.net\nstatus: ALLOCATED")), None);
    assert_eq!(find_whois_server(&Vec::new()), None);
}

#[test]
fn first_whois_line_wins() {
    assert_eq!(
        find_whois_server(&lines("whois:  whois.ripe.net \nwhois: whois.arin.net")),
        Some("whois.ripe.net".to_string())
    );
    assert_eq!(find_whois_server(&lines("whois:")), Some(String::new()));
}

#[test]
fn arin_queries_ask_for_the_network() {
    assert_eq!(
        whois_query(&"whois.arin.net".to_string(), &"76.1.2.3".to_string()),
        "n 76.1.2.3\n"
    );
    assert_eq!(
        whois_query(&"whois.ripe.net".to_string(), &"193.0.0.1".to_string()),
        "193.0.0.1\n"
    );
}

#[test]
fn arin_reply_fields() {
    let reply = parse_whois_reply(&lines(ARIN_REPLY));
    assert_eq!(reply.cidr, "76.0.0.0/12");
    assert_eq!(reply.org, "Charter Communications Inc (CC-3517)");
    assert_eq!(reply.referral, None);
}

#[test]
fn ripe_reply_takes_the_last_route() {
    let reply = parse_whois_reply(&lines(RIPE_REPLY));
    assert_eq!(reply.cidr, "2001:67c:2e8::/48");
    assert_eq!(reply.org, "RIPE-NCC");
}

#[test]
fn empty_reply_is_unknown() {
    let reply = parse_whois_reply(&Vec::new());
    assert_eq!(reply.cidr, "unknown");
    assert_eq!(reply.org, "unknown");
    assert_eq!(reply.referral, None);
}

#[test]
fn referral_loses_its_scheme() {
    let reply = parse_whois_reply(&lines(
        "CIDR: 76.0.0.0/12\nReferralServer:  whois://rwhois.charter.com:4321 ",
    ));
    assert_eq!(reply.referral, Some("rwhois.charter.com:4321".to_string()));
    assert_eq!(reply.cidr, "76.0.0.0/12");
}

#[test]
fn whois_default_is_unknown() {
    let w = Whois::default();
    assert_eq!(w.cidr, "unknown");
    assert_eq!(w.org, "unknown");
}

fn ask(action: WhoisAction) -> (String, String) {
    match action {
        WhoisAction::Ask { server, query } => (server, query),
        WhoisAction::Finish(r) => panic!("finished early: {:?}", r),
    }
}

#[test]
fn lookup_follows_registry_server_and_referral() {
    let (mut lookup, first) = WhoisLookup::new("76.1.2.3".to_string());
    assert_eq!(lookup.phase, WhoisPhase::Registry);
    assert_eq!(ask(first), (WHOIS_SERVER.to_string(), "76.1.2.3\n".to_string()));

    let second = lookup.step(WhoisEvent::Reply(lines(IANA_REPLY)));
    assert_eq!(lookup.phase, WhoisPhase::Server);
    assert_eq!(ask(second), ("whois.arin.net".to_string(), "n 76.1.2.3\n".to_string()));

    let third = lookup.step(WhoisEvent::Reply(lines(
        "CIDR: 76.0.0.0/12\nReferralServer: whois://rwhois.charter.com",
    )));
    assert_eq!(ask(third), ("rwhois.charter.com".to_string(), "76.1.2.3\n".to_string()));

    match lookup.step(WhoisEvent::Reply(lines(ARIN_REPLY))) {
        WhoisAction::Finish(Ok(w)) => {
            assert_eq!(w.cidr, "76.0.0.0/12");
            assert_eq!(w.org, "Charter Communications Inc (CC-3517)");
        }
        other => panic!("unexpected {:?}", other),
    }
}

#[test]
fn lookup_errors() {
    let (mut lookup, _) = WhoisLookup::new("10.0.0.1".to_string());
    match lookup.step(WhoisEvent::Reply(lines("refer: nothing"))) {
        WhoisAction::Finish(Err(e)) => {
            assert_eq!(e, WhoisError::NoWhoisServer("10.0.0.1".to_string()));
            assert_eq!(e.message(), "No whois server found for IP 10.0.0.1");
        }
        other => panic!("unexpected {:?}", other),
    }
    match lookup.step(WhoisEvent::Failed("connection refused".to_string())) {
        WhoisAction::Finish(Err(e)) => {
            assert_eq!(e, WhoisError::Connection("connection refused".to_string()));
            assert_eq!(e.message(), "connection refused");
        }
        other => panic!("unexpected {:?}", other),
    }
    assert_eq!(lookup.phase, WhoisPhase::Registry);
}
