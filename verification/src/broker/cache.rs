//! The broker's cache of answers.

use crate::broker::types::{ModelOutput, OutputModel};
use crate::bus::dedupe::{
    holds_key, keys_once, lemma_not_held, lemma_place, place_of_key, taking_back_frees_the_key, with_put,
    without,
};
use vstd::prelude::*;

verus! {

/// An answer that was kept, and the time up to which it may be given again.
#[derive(Debug)]
pub struct CacheEntry {
    pub output: ModelOutput,
    pub expires_ns: u128,
}

pub ghost struct KeptModel {
    pub output: OutputModel,
    pub expires_ns: u128,
}

impl CacheEntry {
    pub open spec fn view(self) -> KeptModel {
        KeptModel { output: self.output@, expires_ns: self.expires_ns }
    }
}

pub type KeptEntries = Seq<(Seq<char>, KeptModel)>;

/// What a cache of answers holds, the least recently used entry first.
pub uninterp spec fn kept_entries(c: lru::LruCache<String, CacheEntry>) -> Seq<
    (Seq<char>, KeptModel),
>;

/// How many answers a cache can hold.
pub uninterp spec fn kept_capacity(c: lru::LruCache<String, CacheEntry>) -> nat;

/// The entries once the one for `key` was used.
pub open spec fn touched(s: KeptEntries, key: Seq<char>) -> KeptEntries {
    if holds_key(s, key) {
        without(s, key).push(s[place_of_key(s, key)])
    } else {
        s
    }
}

/// `lru::LruCache::sparse` makes an empty cache for `capacity` entries.
#[verifier::external_body]
fn kept_new(capacity: usize) -> (r: lru::LruCache<String, CacheEntry>)
    requires
        capacity > 0,
    ensures
        kept_entries(r) == KeptEntries::empty(),
        kept_capacity(r) == capacity,
{
    lru::LruCache::sparse(std::num::NonZeroUsize::new(capacity).unwrap())
}

/// `lru::LruCache::get` gives the entry for the key and makes it the most recently used one.
#[verifier::external_body]
fn kept_get<'a>(c: &'a mut lru::LruCache<String, CacheEntry>, key: &str) -> (r: Option<
    &'a CacheEntry,
>)
    ensures
        kept_entries(*final(c)) == touched(kept_entries(*old(c)), key@),
        kept_capacity(*final(c)) == kept_capacity(*old(c)),
        match r {
            Some(e) => holds_key(kept_entries(*old(c)), key@) && e@ == kept_entries(
                *old(c),
            )[place_of_key(kept_entries(*old(c)), key@)].1,
            None => !holds_key(kept_entries(*old(c)), key@),
        },
{
    c.get(key)
}

/// `lru::LruCache::pop` takes the entry for the key out.
#[verifier::external_body]
fn kept_pop(c: &mut lru::LruCache<String, CacheEntry>, key: &str)
    ensures
        kept_entries(*final(c)) == without(kept_entries(*old(c)), key@),
        kept_capacity(*final(c)) == kept_capacity(*old(c)),
{
    c.pop(key);
}

/// `lru::LruCache::put` makes the entry the most recently used one; where the key is new and the
/// cache full, the least recently used entry leaves.
#[verifier::external_body]
fn kept_put(c: &mut lru::LruCache<String, CacheEntry>, key: String, entry: CacheEntry)
    ensures
        kept_entries(*final(c)) == with_put(
            kept_entries(*old(c)),
            kept_capacity(*old(c)),
            key@,
            entry@,
        ),
        kept_capacity(*final(c)) == kept_capacity(*old(c)),
{
    c.put(key, entry);
}

pub struct BrokerCache {
    default_ttl_ms: u64,
    store: lru::LruCache<String, CacheEntry>,
}

pub ghost struct CacheModel {
    pub default_ttl_ms: u64,
    pub capacity: nat,
    pub entries: KeptEntries,
}

/// What is found for a key at a time: an answer that has not expired, marked as kept. One that has
/// expired leaves.
pub open spec fn found(c: CacheModel, key: Seq<char>, now_ns: u64) -> (CacheModel, Option<OutputModel>) {
    let t = touched(c.entries, key);
    if holds_key(c.entries, key) {
        let e = c.entries[place_of_key(c.entries, key)].1;
        if e.expires_ns > now_ns {
            (
                CacheModel { entries: t, ..c },
                Some(OutputModel { cached: true, ..e.output }),
            )
        } else {
            (CacheModel { entries: without(t, key), ..c }, None)
        }
    } else {
        (c, None)
    }
}

/// The time at which an answer that is kept now expires.
pub open spec fn expiry_ns(now_ns: u64, ttl_ms: u64) -> u128 {
    (now_ns + ttl_ms * 1_000_000) as u128
}

/// The cache once an answer has been kept.
pub open spec fn kept(c: CacheModel, key: Seq<char>, output: OutputModel, ttl_ms: u64, now_ns: u64) -> CacheModel {
    CacheModel {
        entries: with_put(
            c.entries,
            c.capacity,
            key,
            KeptModel {
                output: OutputModel { cached: false, ..output },
                expires_ns: expiry_ns(now_ns, ttl_ms),
            },
        ),
        ..c
    }
}

impl BrokerCache {
    pub closed spec fn view(self) -> CacheModel {
        CacheModel {
            default_ttl_ms: self.default_ttl_ms,
            capacity: kept_capacity(self.store),
            entries: kept_entries(self.store),
        }
    }

    pub fn new(ttl_ms: u64, capacity: usize) -> (r: Self)
        requires
            capacity > 0,
        ensures
            r@ == (CacheModel {
                default_ttl_ms: ttl_ms,
                capacity: capacity as nat,
                entries: seq![],
            }),
    {
        BrokerCache { default_ttl_ms: ttl_ms, store: kept_new(capacity) }
    }

    pub fn default_ttl_ms(&self) -> (r: u64)
        ensures
            r == self@.default_ttl_ms,
    {
        self.default_ttl_ms
    }

    /// Looks for an answer that has not expired.
    pub fn check(&mut self, key: &str, now_ns: u64) -> (r: Option<ModelOutput>)
        ensures
            final(self)@ == found(old(self)@, key@, now_ns).0,
            match (r, found(old(self)@, key@, now_ns).1) {
                (Some(o), Some(m)) => o@ == m,
                (None, None) => true,
                _ => false,
            },
    {
        let hit = match kept_get(&mut self.store, key) {
            Some(e) => {
                if e.expires_ns > now_ns as u128 {
                    let mut output = e.output.clone();
                    output.cached = true;
                    Some(output)
                } else {
                    None
                }
            },
            None => {
                return None;
            },
        };
        if hit.is_none() {
            kept_pop(&mut self.store, key);
        }
        hit
    }

    /// Keeps an answer for some time.
    pub fn keep(&mut self, key: String, output: &ModelOutput, ttl_ms: u64, now_ns: u64)
        ensures
            final(self)@ == kept(old(self)@, key@, output@, ttl_ms, now_ns),
    {
        let mut stored = output.clone();
        stored.cached = false;
        assert(ttl_ms * 1_000_000 <= u64::MAX * 1_000_000);
        let expires_ns: u128 = now_ns as u128 + ttl_ms as u128 * 1_000_000;
        kept_put(&mut self.store, key, CacheEntry { output: stored, expires_ns });
    }
}

/// An answer that has been kept is given again as long as it has not expired, marked as kept.
pub proof fn kept_answers_are_found(
    c: CacheModel,
    key: Seq<char>,
    output: OutputModel,
    ttl_ms: u64,
    then_ns: u64,
    now_ns: u64,
)
    requires
        c.capacity > 0,
        keys_once(c.entries),
        now_ns < expiry_ns(then_ns, ttl_ms),
    ensures
        found(kept(c, key, output, ttl_ms, then_ns), key, now_ns).1 == Some(
            OutputModel { cached: true, ..output },
        ),
{
    let e = kept(c, key, output, ttl_ms, then_ns).entries;
    let base = if holds_key(c.entries, key) {
        without(c.entries, key)
    } else if c.entries.len() == c.capacity {
        c.entries.skip(1)
    } else {
        c.entries
    };
    assert(!holds_key(base, key)) by {
        lemma_place(c.entries, key);
        if holds_key(c.entries, key) {
            taking_back_frees_the_key(c.entries, key);
        } else if c.entries.len() == c.capacity {
            assert forall|i: int| 0 <= i < base.len() implies (#[trigger] base[i]).0 != key by {
                assert(base[i] == c.entries[i + 1]);
            }
            lemma_not_held(base, key);
        }
    }
    lemma_last_found(base, key, e.last().1);
    assert(e =~= base.push((key, e.last().1)));
}

/// An answer is not given again once it has expired, and leaves the cache.
pub proof fn expired_answers_are_not_found(c: CacheModel, key: Seq<char>, now_ns: u64)
    requires
        holds_key(c.entries, key),
        c.entries[place_of_key(c.entries, key)].1.expires_ns <= now_ns,
    ensures
        found(c, key, now_ns).1 is None,
        found(c, key, now_ns).0.entries == without(touched(c.entries, key), key),
{
}

proof fn lemma_last_found(s: KeptEntries, key: Seq<char>, v: KeptModel)
    ensures
        holds_key(s.push((key, v)), key),
        !holds_key(s, key) ==> s.push((key, v))[place_of_key(s.push((key, v)), key)].1 == v,
    decreases s.len(),
{
    let t = s.push((key, v));
    if s.len() > 0 && s[0].0 != key {
        lemma_last_found(s.skip(1), key, v);
        assert(t.skip(1) =~= s.skip(1).push((key, v)));
        let p = place_of_key(t.skip(1), key);
        lemma_place(t.skip(1), key);
        if !holds_key(s, key) {
            lemma_place(s.skip(1), key);
            assert(t[p + 1] == t.skip(1)[p]);
        }
    }
}

} // verus!
