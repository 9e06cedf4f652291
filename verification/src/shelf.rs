//! Values kept under texts, in the order of the texts.

use crate::text::{before, lemma_text_lt_irreflexive, lemma_text_lt_total, lemma_text_lt_transitive, same, text_lt};
use vstd::prelude::*;

verus! {

/// Where a text belongs among texts in order: behind all that come before it.
pub open spec fn shelf_place(keys: Seq<Seq<char>>, key: Seq<char>) -> int
    decreases keys.len(),
{
    if keys.len() == 0 {
        0
    } else if text_lt(keys[0], key) {
        1 + shelf_place(keys.skip(1), key)
    } else {
        0
    }
}

pub open spec fn keys_of<V>(s: Seq<(Seq<char>, V)>) -> Seq<Seq<char>> {
    s.map_values(|e: (Seq<char>, V)| e.0)
}

/// What stands under a key.
pub open spec fn shelf_get<V>(s: Seq<(Seq<char>, V)>, key: Seq<char>) -> Option<V> {
    let i = shelf_place(keys_of(s), key);
    if 0 <= i < s.len() && s[i].0 == key {
        Some(s[i].1)
    } else {
        None
    }
}

/// A value put under a key, in place of the one that was there.
pub open spec fn shelf_put<V>(s: Seq<(Seq<char>, V)>, key: Seq<char>, value: V) -> Seq<
    (Seq<char>, V),
> {
    let i = shelf_place(keys_of(s), key);
    if 0 <= i < s.len() && s[i].0 == key {
        s.update(i, (key, value))
    } else {
        s.insert(i, (key, value))
    }
}

pub open spec fn in_order<V>(s: Seq<(Seq<char>, V)>) -> bool {
    forall|i: int, j: int| 0 <= i < j < s.len() ==> text_lt(#[trigger] s[i].0, #[trigger] s[j].0)
}

pub open spec fn raw_keys<V>(v: Seq<(String, V)>) -> Seq<Seq<char>> {
    v.map_values(|e: (String, V)| e.0@)
}

pub proof fn lemma_shelf_place(keys: Seq<Seq<char>>, key: Seq<char>)
    ensures
        0 <= shelf_place(keys, key) <= keys.len(),
        forall|i: int| 0 <= i < shelf_place(keys, key) ==> text_lt(#[trigger] keys[i], key),
        shelf_place(keys, key) < keys.len() ==> !text_lt(keys[shelf_place(keys, key)], key),
    decreases keys.len(),
{
    if keys.len() > 0 && text_lt(keys[0], key) {
        let t = keys.skip(1);
        lemma_shelf_place(t, key);
        assert forall|i: int| 0 <= i < shelf_place(keys, key) implies text_lt(
            #[trigger] keys[i],
            key,
        ) by {
            if i > 0 {
                assert(t[i - 1] == keys[i]);
            }
        }
    }
}

/// Where the key belongs, and whether it is there.
pub fn find_place<V>(v: &Vec<(String, V)>, key: &str) -> (r: (usize, bool))
    ensures
        r.0 == shelf_place(raw_keys(v@), key@),
        r.0 <= v@.len(),
        r.1 == (r.0 < v@.len() && v@[r.0 as int].0@ == key@),
{
    let ghost keys = raw_keys(v@);
    let mut i: usize = 0;
    assert(keys.skip(0) =~= keys);
    while i < v.len() && before(v[i].0.as_str(), key)
        invariant
            i <= v.len(),
            keys == raw_keys(v@),
            shelf_place(keys, key@) == i + shelf_place(keys.skip(i as int), key@),
        decreases v.len() - i,
    {
        assert(keys.skip(i as int)[0] == v@[i as int].0@);
        assert(keys.skip(i as int).skip(1) =~= keys.skip(i + 1));
        i += 1;
    }
    proof {
        if i < v.len() {
            assert(keys.skip(i as int)[0] == v@[i as int].0@);
        }
    }
    let found = i < v.len() && same(v[i].0.as_str(), key);
    (i, found)
}

/// Putting keeps the order; what was put is found, and nothing else changes.
pub proof fn put_then_get<V>(
    s: Seq<(Seq<char>, V)>,
    key: Seq<char>,
    value: V,
    other: Seq<char>,
)
    requires
        in_order(s),
    ensures
        in_order(shelf_put(s, key, value)),
        shelf_get(shelf_put(s, key, value), key) == Some(value),
        other != key ==> shelf_get(shelf_put(s, key, value), other) == shelf_get(s, other),
{
    let r = shelf_put(s, key, value);
    let i = shelf_place(keys_of(s), key);
    lemma_shelf_place(keys_of(s), key);
    assert(keys_of(s).len() == s.len());
    assert forall|k: int| 0 <= k < s.len() implies keys_of(s)[k] == s[k].0 by {}
    let found = i < s.len() && s[i].0 == key;
    if i < s.len() && !found {
        lemma_text_lt_total(key, s[i].0);
        assert(text_lt(key, s[i].0));
    }
    assert forall|a: int, b: int| 0 <= a < b < r.len() implies text_lt(
        #[trigger] r[a].0,
        #[trigger] r[b].0,
    ) by {
        if found {
            assert(r[a].0 == s[a].0);
            assert(r[b].0 == s[b].0);
        } else {
            let x = if a < i {
                a
            } else {
                a - 1
            };
            let y = if b < i {
                b
            } else {
                b - 1
            };
            if a != i && b != i {
                assert(r[a] == s[x] && r[b] == s[y]);
            } else if b == i {
                assert(r[a] == s[a]);
                assert(text_lt(keys_of(s)[a], key));
            } else {
                assert(r[b] == s[b - 1]);
                if b - 1 > i {
                    assert(text_lt(s[i].0, s[b - 1].0));
                    lemma_text_lt_transitive(key, s[i].0, s[b - 1].0);
                }
            }
        }
    }
    lemma_place_is(r, key, i);
    if other != key {
        let j = shelf_place(keys_of(s), other);
        lemma_shelf_place(keys_of(s), other);
        if j < s.len() && s[j].0 == other {
            let k = if found || j < i {
                j
            } else {
                j + 1
            };
            assert(r[k] == s[j]);
            lemma_place_is(r, other, k);
        } else {
            let k = shelf_place(keys_of(r), other);
            lemma_shelf_place(keys_of(r), other);
            if k < r.len() && r[k].0 == other {
                let x = if found || k < i {
                    k
                } else {
                    k - 1
                };
                assert(s[x].0 == other);
                lemma_place_is(s, other, x);
            }
        }
    }
}

proof fn lemma_place_is<V>(s: Seq<(Seq<char>, V)>, key: Seq<char>, i: int)
    requires
        in_order(s),
        0 <= i < s.len(),
        s[i].0 == key,
    ensures
        shelf_place(keys_of(s), key) == i,
{
    let keys = keys_of(s);
    let p = shelf_place(keys, key);
    lemma_shelf_place(keys, key);
    assert forall|k: int| 0 <= k < s.len() implies keys[k] == s[k].0 by {}
    if p < i {
        assert(text_lt(s[p].0, s[i].0));
    } else if p > i {
        assert(text_lt(keys[i], key));
        lemma_text_lt_irreflexive(key);
    }
}

} // verus!
