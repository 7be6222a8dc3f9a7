//! A bounded cache of whois records, keyed by address and evicting the least
//! recently used record when full. The records live in an `lru::LruCache`.
use vstd::prelude::*;

use crate::whois::Whois;

verus! {

/// The outside type `lru::LruCache`, whose contents the specs below name.
#[verifier::external_type_specification]
#[verifier::external_body]
#[verifier::reject_recursive_types(K)]
#[verifier::reject_recursive_types(V)]
#[verifier::reject_recursive_types(S)]
pub struct ExLruCache<K, V, S>(lru::LruCache<K, V, S>);

/// An address as a cache key: its family (4 or 6) and its bits.
pub type IpKey = (u8, u128);

/// The cache type that holds the records.
pub type WhoisLru = lru::LruCache<IpKey, Whois>;

/// The entries of an LRU cache, most recently used first.
pub uninterp spec fn lru_entries(cache: WhoisLru) -> Seq<(IpKey, Whois)>;

/// The number of entries an LRU cache was made to hold.
pub uninterp spec fn lru_capacity(cache: WhoisLru) -> nat;

/// No key occurs twice.
pub open spec fn keys_distinct(entries: Seq<(IpKey, Whois)>) -> bool {
    forall|i: int, j: int| 0 <= i < j < entries.len() ==> entries[i].0 != entries[j].0
}

/// Some entry has the key.
pub open spec fn holds_key(entries: Seq<(IpKey, Whois)>, key: IpKey) -> bool {
    exists|i: int| 0 <= i < entries.len() && entries[i].0 == key
}

/// The position of the entry with the key, where there is one.
pub open spec fn index_of(entries: Seq<(IpKey, Whois)>, key: IpKey) -> int {
    choose|i: int| 0 <= i < entries.len() && entries[i].0 == key
}

/// The record stored under the key, if any.
pub open spec fn lookup(entries: Seq<(IpKey, Whois)>, key: IpKey) -> Option<Whois> {
    if holds_key(entries, key) {
        Some(entries[index_of(entries, key)].1)
    } else {
        None
    }
}

/// The entries after a read of `key`: a found entry becomes the most recent.
pub open spec fn after_get(entries: Seq<(IpKey, Whois)>, key: IpKey) -> Seq<(IpKey, Whois)> {
    if holds_key(entries, key) {
        let i: int = index_of(entries, key);
        seq![entries[i]] + entries.remove(i)
    } else {
        entries
    }
}

/// The entries after storing `value` under `key` in a cache that holds at
/// most `cap`: the entry becomes the most recent, replacing the key's old
/// entry, or else, when the cache is full, the least recently used one.
pub open spec fn after_put(entries: Seq<(IpKey, Whois)>, cap: nat, key: IpKey, value: Whois) -> Seq<
    (IpKey, Whois),
> {
    if holds_key(entries, key) {
        seq![(key, value)] + entries.remove(index_of(entries, key))
    } else if entries.len() == cap {
        seq![(key, value)] + entries.drop_last()
    } else {
        seq![(key, value)] + entries
    }
}

/// `lru::LruCache::new`: an empty cache that holds at most `cap` entries.
#[verifier::external_body]
fn lru_with_capacity(cap: usize) -> (c: WhoisLru)
    requires
        cap > 0,
    ensures
        lru_entries(c) == Seq::<(IpKey, Whois)>::empty(),
        lru_capacity(c) == cap,
{
    lru::LruCache::new(std::num::NonZeroUsize::new(cap).unwrap())
}

/// `lru::LruCache::get`: the value stored under `key`, if any; a found entry
/// becomes the most recently used.
#[verifier::external_body]
fn lru_get<'a>(cache: &'a mut WhoisLru, key: &IpKey) -> (r: Option<&'a Whois>)
    requires
        keys_distinct(lru_entries(*old(cache))),
    ensures
        lru_capacity(*final(cache)) == lru_capacity(*old(cache)),
        lru_entries(*final(cache)) == after_get(lru_entries(*old(cache)), *key),
        match r {
            Some(w) => lookup(lru_entries(*old(cache)), *key) == Some(*w),
            None => lookup(lru_entries(*old(cache)), *key) is None,
        },
{
    cache.get(key)
}

/// `lru::LruCache::put`: stores `value` under `key` as the most recently used
/// entry, replacing the key's old entry, or else the least recently used
/// entry when the cache is full.
#[verifier::external_body]
fn lru_put(cache: &mut WhoisLru, key: IpKey, value: Whois)
    requires
        keys_distinct(lru_entries(*old(cache))),
    ensures
        lru_capacity(*final(cache)) == lru_capacity(*old(cache)),
        lru_entries(*final(cache)) == after_put(
            lru_entries(*old(cache)),
            lru_capacity(*old(cache)),
            key,
            value,
        ),
{
    cache.put(key, value);
}

/// How many whois records the cache keeps.
pub const WHOIS_CACHE_SIZE: usize = 10000;

/// A cache of whois records, since whois lookups are slow.
pub struct WhoisCache {
    lru: WhoisLru,
}

/// What a cache may hold: distinct keys, no more entries than its capacity.
pub open spec fn cache_valid(entries: Seq<(IpKey, Whois)>, cap: nat) -> bool {
    &&& keys_distinct(entries)
    &&& entries.len() <= cap
}

impl WhoisCache {
    /// The entries, most recently used first.
    pub closed spec fn entries(&self) -> Seq<(IpKey, Whois)> {
        lru_entries(self.lru)
    }

    /// The number of entries the cache keeps.
    pub closed spec fn capacity(&self) -> nat {
        lru_capacity(self.lru)
    }

    pub open spec fn wf(&self) -> bool {
        &&& cache_valid(self.entries(), self.capacity())
        &&& self.capacity() == WHOIS_CACHE_SIZE
    }

    /// An empty cache that keeps `WHOIS_CACHE_SIZE` records.
    pub fn new() -> (c: WhoisCache)
        ensures
            c.wf(),
            c.entries() == Seq::<(IpKey, Whois)>::empty(),
    {
        WhoisCache { lru: lru_with_capacity(WHOIS_CACHE_SIZE) }
    }

    /// The record cached for `key`, if any; a found record becomes the most
    /// recently used.
    pub fn get(&mut self, key: IpKey) -> (r: Option<Whois>)
        requires
            old(self).wf(),
        ensures
            final(self).wf(),
            r == lookup(old(self).entries(), key),
            final(self).entries() == after_get(old(self).entries(), key),
    {
        proof {
            lemma_get_keeps_valid(self.entries(), self.capacity(), key);
        }
        match lru_get(&mut self.lru, &key) {
            Some(w) => Some(w.duplicate()),
            None => None,
        }
    }

    /// Caches `whois` for `key` as the most recently used record, evicting
    /// the least recently used one when the cache is full.
    pub fn put(&mut self, key: IpKey, whois: Whois)
        requires
            old(self).wf(),
        ensures
            final(self).wf(),
            final(self).entries() == after_put(
                old(self).entries(),
                old(self).capacity(),
                key,
                whois,
            ),
    {
        proof {
            lemma_put_keeps_valid(self.entries(), self.capacity(), key, whois);
        }
        lru_put(&mut self.lru, key, whois);
    }

    /// The record to show once a lookup for `key` has ended: a found record
    /// is cached and shown; a failed lookup shows the default record and
    /// caches nothing, so that it is tried again.
    pub fn resolved(&mut self, key: IpKey, outcome: Result<Whois, crate::whois::WhoisError>) -> (r: Whois)
        requires
            old(self).wf(),
        ensures
            final(self).wf(),
            match outcome {
                Ok(w) => r == w && final(self).entries() == after_put(
                    old(self).entries(),
                    old(self).capacity(),
                    key,
                    w,
                ),
                Err(_) => r.cidr@ == crate::ip::UNKNOWN@ && r.org@ == crate::ip::UNKNOWN@
                    && final(self).entries() == old(self).entries(),
            },
    {
        match outcome {
            Ok(whois) => {
                let shown = whois.duplicate();
                self.put(key, whois);
                shown
            },
            Err(_) => Whois::default(),
        }
    }
}

proof fn lemma_index_of(entries: Seq<(IpKey, Whois)>, key: IpKey)
    requires
        holds_key(entries, key),
    ensures
        0 <= index_of(entries, key) < entries.len(),
        entries[index_of(entries, key)].0 == key,
{
}

/// A read keeps a valid cache valid.
pub proof fn lemma_get_keeps_valid(entries: Seq<(IpKey, Whois)>, cap: nat, key: IpKey)
    requires
        cache_valid(entries, cap),
    ensures
        cache_valid(after_get(entries, key), cap),
{
    if holds_key(entries, key) {
        lemma_index_of(entries, key);
        let i: int = index_of(entries, key);
        let r = after_get(entries, key);
        assert forall|a: int, b: int| 0 <= a < b < r.len() implies r[a].0 != r[b].0 by {
            if a == 0 {
                if b - 1 < i {
                    assert(r[b] == entries[b - 1]);
                } else {
                    assert(r[b] == entries[b]);
                }
            } else {
                let ea: int = if a - 1 < i { a - 1 } else { a };
                let eb: int = if b - 1 < i { b - 1 } else { b };
                assert(r[a] == entries[ea]);
                assert(r[b] == entries[eb]);
            }
        }
    }
}

/// A write keeps a valid cache of positive capacity valid.
pub proof fn lemma_put_keeps_valid(entries: Seq<(IpKey, Whois)>, cap: nat, key: IpKey, value: Whois)
    requires
        cache_valid(entries, cap),
        cap > 0,
    ensures
        cache_valid(after_put(entries, cap, key, value), cap),
{
    let r = after_put(entries, cap, key, value);
    if holds_key(entries, key) {
        lemma_index_of(entries, key);
        let i: int = index_of(entries, key);
        assert forall|a: int, b: int| 0 <= a < b < r.len() implies r[a].0 != r[b].0 by {
            let eb: int = if b - 1 < i { b - 1 } else { b };
            assert(r[b] == entries[eb]);
            if a > 0 {
                let ea: int = if a - 1 < i { a - 1 } else { a };
                assert(r[a] == entries[ea]);
            }
        }
    } else {
        let rest = if entries.len() == cap { entries.drop_last() } else { entries };
        assert forall|a: int, b: int| 0 <= a < b < r.len() implies r[a].0 != r[b].0 by {
            assert(r[b] == rest[b - 1]);
            assert(rest[b - 1] == entries[b - 1]);
            if a > 0 {
                assert(r[a] == entries[a - 1]);
            }
        }
    }
}

proof fn lemma_index_unique(entries: Seq<(IpKey, Whois)>, key: IpKey, j: int)
    requires
        keys_distinct(entries),
        0 <= j < entries.len(),
        entries[j].0 == key,
    ensures
        holds_key(entries, key),
        index_of(entries, key) == j,
        lookup(entries, key) == Some(entries[j].1),
{
    lemma_index_of(entries, key);
}

/// A record just stored is what a read of its key gives back, and that read
/// leaves the entries as they are.
pub proof fn lemma_get_after_put(entries: Seq<(IpKey, Whois)>, cap: nat, key: IpKey, value: Whois)
    requires
        cache_valid(entries, cap),
        cap > 0,
    ensures
        lookup(after_put(entries, cap, key, value), key) == Some(value),
        after_get(after_put(entries, cap, key, value), key) == after_put(entries, cap, key, value),
{
    lemma_put_keeps_valid(entries, cap, key, value);
    let r = after_put(entries, cap, key, value);
    lemma_index_unique(r, key, 0);
    assert(seq![r[0]] + r.remove(0) =~= r);
}

/// A read changes no record: every key gives the same record before and after.
pub proof fn lemma_get_keeps_records(entries: Seq<(IpKey, Whois)>, cap: nat, key: IpKey, other: IpKey)
    requires
        cache_valid(entries, cap),
    ensures
        lookup(after_get(entries, key), other) == lookup(entries, other),
        after_get(entries, key).len() == entries.len(),
{
    lemma_get_keeps_valid(entries, cap, key);
    let r = after_get(entries, key);
    if holds_key(entries, key) {
        lemma_index_of(entries, key);
        let i: int = index_of(entries, key);
        if holds_key(entries, other) {
            lemma_index_of(entries, other);
            let j: int = index_of(entries, other);
            let rj: int = if j == i { 0 } else if j < i { j + 1 } else { j };
            assert(r[rj] == entries[j]);
            lemma_index_unique(r, other, rj);
        } else {
            if holds_key(r, other) {
                lemma_index_of(r, other);
                let k: int = index_of(r, other);
                let ek: int = if k == 0 { i } else if k - 1 < i { k - 1 } else { k };
                assert(r[k] == entries[ek]);
            }
        }
    }
}

/// A write of `key` changes the record of no other key, except that writing
/// a new key into a full cache evicts the least recently used entry.
pub proof fn lemma_put_keeps_others(
    entries: Seq<(IpKey, Whois)>,
    cap: nat,
    key: IpKey,
    value: Whois,
    other: IpKey,
)
    requires
        cache_valid(entries, cap),
        cap > 0,
        other != key,
    ensures
        ({
            let evicted = !holds_key(entries, key) && entries.len() == cap && entries.last().0
                == other;
            lookup(after_put(entries, cap, key, value), other) == if evicted {
                None
            } else {
                lookup(entries, other)
            }
        }),
{
    lemma_put_keeps_valid(entries, cap, key, value);
    let r = after_put(entries, cap, key, value);
    let evicted = !holds_key(entries, key) && entries.len() == cap && entries.last().0 == other;
    let i: int = if holds_key(entries, key) { index_of(entries, key) } else { -1 };
    if holds_key(entries, key) {
        lemma_index_of(entries, key);
    }
    if holds_key(entries, other) && !evicted {
        lemma_index_of(entries, other);
        let j: int = index_of(entries, other);
        let rj: int = if holds_key(entries, key) { if j < i { j + 1 } else { j } } else { j + 1 };
        assert(r[rj] == entries[j]);
        lemma_index_unique(r, other, rj);
    } else {
        if holds_key(r, other) {
            lemma_index_of(r, other);
            let k: int = index_of(r, other);
            assert(k > 0);
            let ek: int = if holds_key(entries, key) { if k - 1 < i { k - 1 } else { k } } else { k - 1 };
            assert(r[k] == entries[ek]);
            if evicted {
                assert(entries[entries.len() - 1].0 == other);
                assert(ek < entries.len() - 1);
            }
        }
    }
}

} // verus!
