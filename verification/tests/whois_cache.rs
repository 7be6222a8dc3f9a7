use ipinfo::cache::{IpKey, WhoisCache, WHOIS_CACHE_SIZE};
use ipinfo::whois::{Whois, WhoisError};

fn record(cidr: &str, org: &str) -> Whois {
    Whois {
        cidr: cidr.to_string(),
        org: org.to_string(),
    }
}

fn v4(n: u128) -> IpKey {
    (4, n)
}

#[test]
fn empty_cache_misses() {
    let mut cache = WhoisCache::new();
    assert!(cache.get(v4(1)).is_none());
}

#[test]
fn stored_record_is_read_back() {
    let mut cache = WhoisCache::new();
    cache.put(v4(1), record("10.0.0.0/8", "A"));
    let got = cache.get(v4(1)).unwrap();
    assert_eq!(got.cidr, "10.0.0.0/8");
    assert_eq!(got.org, "A");
    assert!(cache.get((6, 1)).is_none());
}

#[test]
fn a_second_write_replaces_the_record() {
    let mut cache = WhoisCache::new();
    cache.put(v4(1), record("10.0.0.0/8", "A"));
    cache.put(v4(1), record("10.0.0.0/16", "B"));
    assert_eq!(cache.get(v4(1)).unwrap().org, "B");
}

#[test]
fn full_cache_evicts_least_recently_used() {
    let mut cache = WhoisCache::new();
    for n in 0..WHOIS_CACHE_SIZE as u128 {
        cache.put(v4(n), record("c", "o"));
    }
    // reading key 0 makes key 1 the least recently used
    assert!(cache.get(v4(0)).is_some());
    cache.put(v4(999_999), record("new", "new"));
    assert!(cache.get(v4(1)).is_none());
    assert!(cache.get(v4(0)).is_some());
    assert!(cache.get(v4(2)).is_some());
    assert_eq!(cache.get(v4(999_999)).unwrap().cidr, "new");
}

#[test]
fn resolved_caches_only_found_records() {
    let mut cache = WhoisCache::new();
    let shown = cache.resolved(v4(7), Err(WhoisError::Connection("timed out".to_string())));
    assert_eq!(shown.cidr, "unknown");
    assert!(cache.get(v4(7)).is_none());
    let shown = cache.resolved(v4(7), Ok(record("7.0.0.0/8", "DoD")));
    assert_eq!(shown.org, "DoD");
    assert_eq!(cache.get(v4(7)).unwrap().cidr, "7.0.0.0/8");
}
