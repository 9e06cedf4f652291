//! The messages that a subscriber has seen of late.

use vstd::prelude::*;

verus! {

/// `lru::LruCache`, a bounded cache that forgets what was used least recently; nothing of its inside
/// is seen.
#[verifier::external_type_specification]
#[verifier::external_body]
#[verifier::reject_recursive_types(K)]
#[verifier::reject_recursive_types(V)]
#[verifier::reject_recursive_types(S)]
pub struct ExLruCache<K, V, S>(lru::LruCache<K, V, S>);

/// `lru::DefaultHasher`, the hasher that such a cache has by default.
#[verifier::external_type_specification]
#[verifier::external_body]
pub struct ExDefaultHasher(lru::DefaultHasher);

pub type Entries = Seq<((u128, u64), u64)>;

/// What a cache holds, the least recently used entry first.
pub uninterp spec fn lru_entries(c: lru::LruCache<(u128, u64), u64>) -> Seq<((u128, u64), u64)>;

/// How many entries a cache can hold.
pub uninterp spec fn lru_capacity(c: lru::LruCache<(u128, u64), u64>) -> nat;

/// Where `key` stands among the entries; their number if it does not.
pub open spec fn place_of_key<K, V>(s: Seq<(K, V)>, key: K) -> int
    decreases s.len(),
{
    if s.len() == 0 || s[0].0 == key {
        0
    } else {
        1 + place_of_key(s.skip(1), key)
    }
}

pub open spec fn holds_key<K, V>(s: Seq<(K, V)>, key: K) -> bool {
    place_of_key(s, key) < s.len()
}

/// The entries without the one for `key`.
pub open spec fn without<K, V>(s: Seq<(K, V)>, key: K) -> Seq<(K, V)> {
    if holds_key(s, key) {
        s.remove(place_of_key(s, key))
    } else {
        s
    }
}

/// The entries once `key` was put with `value` into a cache for `capacity` entries: as the most
/// recently used one, in place of its old entry, or else of the least recently used one if there
/// is no room.
pub open spec fn with_put<K, V>(s: Seq<(K, V)>, capacity: nat, key: K, value: V) -> Seq<(K, V)> {
    if holds_key(s, key) {
        without(s, key).push((key, value))
    } else if s.len() == capacity {
        s.skip(1).push((key, value))
    } else {
        s.push((key, value))
    }
}

/// `lru::LruCache::sparse` makes an empty cache for `capacity` entries.
#[verifier::external_body]
fn lru_new(capacity: usize) -> (r: lru::LruCache<(u128, u64), u64>)
    requires
        capacity > 0,
    ensures
        lru_entries(r) == Entries::empty(),
        lru_capacity(r) == capacity,
{
    lru::LruCache::sparse(std::num::NonZeroUsize::new(capacity).unwrap())
}

/// `lru::LruCache::contains` tells whether the key has an entry.
#[verifier::external_body]
fn lru_contains(c: &lru::LruCache<(u128, u64), u64>, key: (u128, u64)) -> (r: bool)
    ensures
        r == holds_key(lru_entries(*c), key),
{
    c.contains(&key)
}

/// `lru::LruCache::put` makes the entry the most recently used one; where the key is new and the
/// cache full, the least recently used entry leaves.
#[verifier::external_body]
fn lru_put(c: &mut lru::LruCache<(u128, u64), u64>, key: (u128, u64), value: u64)
    ensures
        lru_entries(*final(c)) == with_put(
            lru_entries(*old(c)),
            lru_capacity(*old(c)),
            key,
            value,
        ),
        lru_capacity(*final(c)) == lru_capacity(*old(c)),
{
    c.put(key, value);
}

/// `lru::LruCache::pop` takes the entry for the key out.
#[verifier::external_body]
fn lru_pop(c: &mut lru::LruCache<(u128, u64), u64>, key: (u128, u64))
    ensures
        lru_entries(*final(c)) == without(lru_entries(*old(c)), key),
        lru_capacity(*final(c)) == lru_capacity(*old(c)),
{
    c.pop(&key);
}

/// `lru::LruCache::peek_lru` shows the least recently used entry, here its value.
#[verifier::external_body]
fn lru_peek_oldest(c: &lru::LruCache<(u128, u64), u64>) -> (r: Option<u64>)
    ensures
        match r {
            Some(v) => lru_entries(*c).len() > 0 && v == lru_entries(*c)[0].1,
            None => lru_entries(*c).len() == 0,
        },
{
    c.peek_lru().map(|e| *e.1)
}

/// `lru::LruCache::pop_lru` takes the least recently used entry out.
#[verifier::external_body]
fn lru_pop_oldest(c: &mut lru::LruCache<(u128, u64), u64>)
    ensures
        lru_entries(*final(c)) == if lru_entries(*old(c)).len() > 0 {
            lru_entries(*old(c)).skip(1)
        } else {
            lru_entries(*old(c))
        },
        lru_capacity(*final(c)) == lru_capacity(*old(c)),
{
    c.pop_lru();
}

/// How much later `now` is than `then`; nothing if it is not.
pub open spec fn age(now: u64, then: u64) -> int {
    if now > then {
        now - then
    } else {
        0
    }
}

/// The entries once those at the front that are too old have left.
pub open spec fn pruned(s: Entries, now: u64, max_age: u64) -> Entries
    decreases s.len(),
{
    if s.len() > 0 && age(now, s[0].1) > max_age {
        pruned(s.skip(1), now, max_age)
    } else {
        s
    }
}

/// The keys of messages seen of late, each with the time at which it was seen.
pub struct DedupeCache {
    cache: lru::LruCache<(u128, u64), u64>,
    max_age_ms: u64,
}

impl DedupeCache {
    pub closed spec fn view(self) -> Entries {
        lru_entries(self.cache)
    }

    pub closed spec fn capacity(self) -> nat {
        lru_capacity(self.cache)
    }

    pub closed spec fn max_age(self) -> u64 {
        self.max_age_ms
    }

    pub fn new(capacity: usize, max_age_ms: u64) -> (r: Self)
        ensures
            r@ == Entries::empty(),
            r.capacity() == if capacity < 1 {
                1
            } else {
                capacity as nat
            },
            r.max_age() == max_age_ms,
    {
        let capped: usize = if capacity < 1 {
            1
        } else {
            capacity
        };
        DedupeCache { cache: lru_new(capped), max_age_ms }
    }

    fn prune(&mut self, now_ms: u64)
        ensures
            final(self)@ == pruned(old(self)@, now_ms, old(self).max_age()),
            final(self).capacity() == old(self).capacity(),
            final(self).max_age() == old(self).max_age(),
    {
        loop
            invariant
                pruned(old(self)@, now_ms, old(self).max_age()) == pruned(
                    self@,
                    now_ms,
                    self.max_age_ms,
                ),
                self.capacity() == old(self).capacity(),
                self.max_age_ms == old(self).max_age(),
            ensures
                self@ == pruned(old(self)@, now_ms, old(self).max_age()),
            decreases self@.len(),
        {
            match lru_peek_oldest(&self.cache) {
                None => {
                    break;
                },
                Some(ts) => {
                    if now_ms > ts && now_ms - ts > self.max_age_ms {
                        lru_pop_oldest(&mut self.cache);
                    } else {
                        break;
                    }
                },
            }
        }
    }

    /// Whether the key was seen and is not too old.
    pub fn contains(&mut self, key: (u128, u64), now_ms: u64) -> (r: bool)
        ensures
            final(self)@ == pruned(old(self)@, now_ms, old(self).max_age()),
            r == holds_key(final(self)@, key),
            final(self).capacity() == old(self).capacity(),
            final(self).max_age() == old(self).max_age(),
    {
        self.prune(now_ms);
        lru_contains(&self.cache, key)
    }

    pub fn insert(&mut self, key: (u128, u64), now_ms: u64)
        ensures
            final(self)@ == with_put(
                pruned(old(self)@, now_ms, old(self).max_age()),
                old(self).capacity(),
                key,
                now_ms,
            ),
            final(self).capacity() == old(self).capacity(),
            final(self).max_age() == old(self).max_age(),
    {
        self.prune(now_ms);
        lru_put(&mut self.cache, key, now_ms);
    }

    pub fn remove(&mut self, key: (u128, u64))
        ensures
            final(self)@ == without(old(self)@, key),
            final(self).capacity() == old(self).capacity(),
            final(self).max_age() == old(self).max_age(),
    {
        lru_pop(&mut self.cache, key);
    }

    /// Notes the key as seen, unless it is known already.
    pub fn reserve(&mut self, key: (u128, u64), now_ms: u64) -> (r: bool)
        ensures
            r == !holds_key(pruned(old(self)@, now_ms, old(self).max_age()), key),
            final(self)@ == reserved(
                old(self)@,
                old(self).capacity(),
                old(self).max_age(),
                key,
                now_ms,
            ),
            final(self).capacity() == old(self).capacity(),
            final(self).max_age() == old(self).max_age(),
    {
        if self.contains(key, now_ms) {
            return false;
        }
        proof {
            lemma_pruned_twice(old(self)@, now_ms, old(self).max_age());
        }
        self.insert(key, now_ms);
        true
    }
}

/// The entries once a message with this key has asked for its turn.
pub open spec fn reserved(
    s: Entries,
    capacity: nat,
    max_age: u64,
    key: (u128, u64),
    now: u64,
) -> Entries {
    let p = pruned(s, now, max_age);
    if holds_key(p, key) {
        p
    } else {
        with_put(p, capacity, key, now)
    }
}

proof fn lemma_pruned_twice(s: Entries, now: u64, max_age: u64)
    ensures
        pruned(pruned(s, now, max_age), now, max_age) == pruned(s, now, max_age),
    decreases s.len(),
{
    if s.len() > 0 && age(now, s[0].1) > max_age {
        lemma_pruned_twice(s.skip(1), now, max_age);
    }
}

pub proof fn lemma_place<K, V>(s: Seq<(K, V)>, key: K)
    ensures
        0 <= place_of_key(s, key) <= s.len(),
        holds_key(s, key) ==> s[place_of_key(s, key)].0 == key,
        forall|i: int| 0 <= i < place_of_key(s, key) ==> (#[trigger] s[i]).0 != key,
    decreases s.len(),
{
    if s.len() > 0 && s[0].0 != key {
        lemma_place(s.skip(1), key);
        assert forall|i: int| 0 <= i < place_of_key(s, key) implies (#[trigger] s[i]).0 != key by {
            if i > 0 {
                assert(s.skip(1)[i - 1] == s[i]);
            }
        }
    }
}

/// Whether no key has two entries.
pub open spec fn keys_once<K, V>(s: Seq<(K, V)>) -> bool {
    forall|i: int, j: int| 0 <= i < j < s.len() ==> (#[trigger] s[i]).0 != (#[trigger] s[j]).0
}

pub proof fn lemma_not_held<K, V>(s: Seq<(K, V)>, key: K)
    requires
        forall|i: int| 0 <= i < s.len() ==> (#[trigger] s[i]).0 != key,
    ensures
        !holds_key(s, key),
{
    lemma_place(s, key);
}

proof fn lemma_held<K, V>(s: Seq<(K, V)>, key: K, i: int)
    requires
        0 <= i < s.len(),
        s[i].0 == key,
    ensures
        holds_key(s, key),
{
    lemma_place(s, key);
}

/// What is taken back is not held any more: the message can be tried again.
pub proof fn taking_back_frees_the_key<K, V>(s: Seq<(K, V)>, key: K)
    requires
        keys_once(s),
    ensures
        !holds_key(without(s, key), key),
        keys_once(without(s, key)),
{
    lemma_place(s, key);
    let r = without(s, key);
    if holds_key(s, key) {
        let p = place_of_key(s, key);
        assert forall|i: int| 0 <= i < r.len() implies (#[trigger] r[i]).0 != key by {
            if i < p {
                assert(r[i] == s[i]);
            } else {
                assert(r[i] == s[i + 1]);
                assert(s[p].0 != s[i + 1].0);
            }
        }
        assert forall|i: int, j: int| 0 <= i < j < r.len() implies (#[trigger] r[i]).0 != (
        #[trigger] r[j]).0 by {
            let a = if i < p {
                i
            } else {
                i + 1
            };
            let b = if j < p {
                j
            } else {
                j + 1
            };
            assert(r[i] == s[a] && r[j] == s[b]);
        }
        lemma_not_held(r, key);
    }
}

proof fn lemma_pruned_tail(s: Entries, now: u64, max_age: u64)
    ensures
        pruned(s, now, max_age).len() <= s.len(),
        pruned(s, now, max_age) == s.skip(s.len() - pruned(s, now, max_age).len()),
        keys_once(s) ==> keys_once(pruned(s, now, max_age)),
    decreases s.len(),
{
    if s.len() > 0 && age(now, s[0].1) > max_age {
        let t = s.skip(1);
        lemma_pruned_tail(t, now, max_age);
        let n = s.len() - pruned(s, now, max_age).len();
        assert(t.skip(n - 1) =~= s.skip(n));
        if keys_once(s) {
            assert forall|i: int, j: int| 0 <= i < j < t.len() implies (#[trigger] t[i]).0 != (
            #[trigger] t[j]).0 by {
                assert(t[i] == s[i + 1] && t[j] == s[j + 1]);
            }
        }
    } else {
        assert(s.skip(0) =~= s);
    }
}

/// An entry that is young enough is not pruned away.
proof fn lemma_pruned_keeps(s: Entries, now: u64, max_age: u64, i: int)
    requires
        0 <= i < s.len(),
        age(now, s[i].1) <= max_age,
    ensures
        holds_key(pruned(s, now, max_age), s[i].0),
    decreases s.len(),
{
    if age(now, s[0].1) > max_age {
        assert(s.skip(1)[i - 1] == s[i]);
        lemma_pruned_keeps(s.skip(1), now, max_age, i - 1);
    } else {
        lemma_held(s, s[i].0, i);
    }
}

/// A message that got its turn is a duplicate when it comes again before its time is over.
pub proof fn repeats_are_duplicates(
    s: Entries,
    capacity: nat,
    max_age: u64,
    key: (u128, u64),
    now: u64,
    later: u64,
)
    requires
        !holds_key(pruned(s, now, max_age), key),
        age(later, now) <= max_age,
    ensures
        holds_key(pruned(reserved(s, capacity, max_age, key, now), later, max_age), key),
{
    let r = reserved(s, capacity, max_age, key, now);
    assert(r.last() == (key, now));
    lemma_pruned_keeps(r, later, max_age, r.len() - 1);
}

/// A message whose turn was taken back gets a turn when it comes again.
pub proof fn retries_are_no_duplicates(
    s: Entries,
    capacity: nat,
    max_age: u64,
    key: (u128, u64),
    now: u64,
    later: u64,
)
    requires
        keys_once(s),
        0 < capacity,
        !holds_key(pruned(s, now, max_age), key),
    ensures
        !holds_key(
            pruned(without(reserved(s, capacity, max_age, key, now), key), later, max_age),
            key,
        ),
{
    let p = pruned(s, now, max_age);
    let r = reserved(s, capacity, max_age, key, now);
    lemma_pruned_tail(s, now, max_age);
    lemma_place(p, key);
    lemma_put_keeps_keys(p, capacity, key, now);
    taking_back_frees_the_key(r, key);
    let w = without(r, key);
    lemma_pruned_tail(w, later, max_age);
    lemma_place(w, key);
    let q = pruned(w, later, max_age);
    assert forall|i: int| 0 <= i < q.len() implies (#[trigger] q[i]).0 != key by {
        assert(q[i] == w[i + (w.len() - q.len())]);
    }
    lemma_not_held(q, key);
}

/// Putting keeps every key's entry single and the number of entries within the capacity.
pub proof fn lemma_put_keeps_keys<K, V>(s: Seq<(K, V)>, capacity: nat, key: K, value: V)
    requires
        keys_once(s),
        0 < capacity,
    ensures
        keys_once(with_put(s, capacity, key, value)),
        s.len() <= capacity ==> with_put(s, capacity, key, value).len() <= capacity,
{
    let r = with_put(s, capacity, key, value);
    lemma_place(s, key);
    if holds_key(s, key) {
        taking_back_frees_the_key(s, key);
        let w = without(s, key);
        lemma_place(w, key);
        assert forall|i: int, j: int| 0 <= i < j < r.len() implies (#[trigger] r[i]).0 != (
        #[trigger] r[j]).0 by {
            assert(r[i] == w[i]);
            if j < w.len() {
                assert(r[j] == w[j]);
            }
        }
    } else if s.len() == capacity {
        let w = s.skip(1);
        assert forall|i: int, j: int| 0 <= i < j < r.len() implies (#[trigger] r[i]).0 != (
        #[trigger] r[j]).0 by {
            assert(r[i] == s[i + 1]);
            if j < w.len() {
                assert(r[j] == s[j + 1]);
            }
        }
    } else {
        assert forall|i: int, j: int| 0 <= i < j < r.len() implies (#[trigger] r[i]).0 != (
        #[trigger] r[j]).0 by {
            assert(r[i] == s[i]);
            if j < s.len() {
                assert(r[j] == s[j]);
            }
        }
    }
}

/// Asking for a turn leaves each key once.
pub proof fn lemma_reserved_once(s: Entries, capacity: nat, max_age: u64, key: (u128, u64), now: u64)
    requires
        keys_once(s),
        0 < capacity,
    ensures
        keys_once(reserved(s, capacity, max_age, key, now)),
{
    let p = pruned(s, now, max_age);
    lemma_pruned_tail(s, now, max_age);
    lemma_place(p, key);
    if !holds_key(p, key) {
        let base = if p.len() == capacity {
            p.skip(1)
        } else {
            p
        };
        let r = reserved(s, capacity, max_age, key, now);
        assert(r =~= base.push((key, now)));
        assert forall|i: int, j: int| 0 <= i < j < r.len() implies (#[trigger] r[i]).0 != (
        #[trigger] r[j]).0 by {
            let a = if p.len() == capacity {
                i + 1
            } else {
                i
            };
            assert(r[i] == p[a]);
            if j < base.len() {
                let b = if p.len() == capacity {
                    j + 1
                } else {
                    j
                };
                assert(r[j] == p[b]);
            }
        }
    }
}

} // verus!
