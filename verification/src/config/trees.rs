//! Configuration trees: how one is laid over another, how two differ, how old keys are renamed.

use crate::json::{
    insert_then_get, list_model, map_get, map_insert, map_remove, ordered, remove_then_get, Json,
    JsonMap, JsonModel, MapModel, Numeral,
};
use crate::text::{before, concat3, same, text_lt};
use vstd::prelude::*;

verus! {

/// A tree laid over another: objects are joined key by key, anything else takes the place of what
/// was there.
pub open spec fn merged(base: JsonModel, patch: JsonModel) -> JsonModel
    decreases patch, 0int,
{
    match (base, patch) {
        (JsonModel::Object(b), JsonModel::Object(p)) => JsonModel::Object(
            merged_upto(b, p, p.len() as int),
        ),
        _ => patch,
    }
}

/// The first `n` entries of `p` laid over `b`.
pub open spec fn merged_upto(b: MapModel, p: MapModel, n: int) -> MapModel
    decreases p, n,
{
    if n <= 0 || n > p.len() {
        b
    } else {
        let rest = merged_upto(b, p, n - 1);
        let (key, value) = p[n - 1];
        match map_get(rest, key) {
            Some(old_value) => map_insert(rest, key, merged(old_value, p[n - 1].1)),
            None => map_insert(rest, key, value),
        }
    }
}

pub fn merge_value(base: &mut Json, patch: &Json)
    ensures
        final(base)@ == merged(old(base)@, patch@),
    decreases patch,
{
    match (base, patch) {
        (Json::Object(b), Json::Object(p)) => {
            merge_map(b, p);
        },
        (slot, other) => {
            *slot = other.clone();
        },
    }
}

fn merge_map(b: &mut JsonMap, p: &JsonMap)
    ensures
        final(b)@ == merged_upto(old(b)@, p@, p@.len() as int),
    decreases p,
{
    let ghost b0 = b@;
    let mut i: usize = 0;
    while i < p.entries.len()
        invariant
            i <= p.entries.len(),
            b@ == merged_upto(b0, p@, i as int),
        decreases p.entries.len() - i,
    {
        let key = p.entries[i].0.as_str();
        let value = &p.entries[i].1;
        assert(p@[i as int] == (key@, value@));
        let present = match b.get(key) {
            Some(x) => Some(x.clone()),
            None => None,
        };
        match present {
            Some(x) => {
                let mut y = x;
                merge_value(&mut y, value);
                b.insert(key.to_owned(), y);
            },
            None => {
                b.insert(key.to_owned(), value.clone());
            },
        }
        i += 1;
    }
}

proof fn lemma_merge_one(b: MapModel, p: MapModel, n: int, key: Seq<char>)
    requires
        ordered(b),
        0 <= n <= p.len(),
    ensures
        ordered(merged_upto(b, p, n)),
        (forall|i: int| 0 <= i < n ==> (#[trigger] p[i]).0 != key) ==> map_get(
            merged_upto(b, p, n),
            key,
        ) == map_get(b, key),
    decreases n,
{
    if n > 0 {
        lemma_merge_one(b, p, n - 1, key);
        let rest = merged_upto(b, p, n - 1);
        let v = match map_get(rest, p[n - 1].0) {
            Some(x) => merged(x, p[n - 1].1),
            None => p[n - 1].1,
        };
        insert_then_get(rest, p[n - 1].0, v, key);
    }
}

/// A key that the upper layer does not have keeps its value.
pub proof fn merging_keeps_the_rest(b: MapModel, p: MapModel, key: Seq<char>)
    requires
        ordered(b),
        map_get(p, key) is None,
    ensures
        merged(JsonModel::Object(b), JsonModel::Object(p)) matches JsonModel::Object(m) && map_get(
            m,
            key,
        ) == map_get(b, key),
{
    lemma_absent(p, key);
    lemma_merge_one(b, p, p.len() as int, key);
}

proof fn lemma_absent(m: MapModel, key: Seq<char>)
    requires
        map_get(m, key) is None,
    ensures
        forall|i: int| 0 <= i < m.len() ==> (#[trigger] m[i]).0 != key,
    decreases m.len(),
{
    if m.len() > 0 {
        lemma_absent(m.skip(1), key);
        assert forall|i: int| 0 <= i < m.len() implies (#[trigger] m[i]).0 != key by {
            if i > 0 {
                assert(m.skip(1)[i - 1] == m[i]);
            }
        }
    }
}

proof fn lemma_present(m: MapModel, key: Seq<char>) -> (i: int)
    requires
        map_get(m, key) is Some,
    ensures
        0 <= i < m.len(),
        m[i].0 == key,
        map_get(m, key) == Some(m[i].1),
    decreases m.len(),
{
    if m[0].0 == key {
        0
    } else {
        let k = lemma_present(m.skip(1), key);
        assert(m.skip(1)[k] == m[k + 1]);
        k + 1
    }
}

proof fn lemma_merge_key(b: MapModel, p: MapModel, n: int, i: int)
    requires
        ordered(b),
        ordered(p),
        0 <= i < n <= p.len(),
    ensures
        map_get(merged_upto(b, p, n), p[i].0) == Some(
            match map_get(b, p[i].0) {
                Some(x) => merged(x, p[i].1),
                None => p[i].1,
            },
        ),
    decreases n,
{
    let key = p[i].0;
    let rest = merged_upto(b, p, n - 1);
    let last = p[n - 1];
    let v = match map_get(rest, last.0) {
        Some(x) => merged(x, p[n - 1].1),
        None => last.1,
    };
    lemma_merge_one(b, p, n - 1, key);
    insert_then_get(rest, last.0, v, key);
    if i < n - 1 {
        lemma_merge_key(b, p, n - 1, i);
        assert(text_lt(p[i].0, p[n - 1].0));
        crate::text::lemma_text_lt_irreflexive(key);
    } else {
        assert forall|j: int| 0 <= j < n - 1 implies (#[trigger] p[j]).0 != key by {
            assert(text_lt(p[j].0, p[n - 1].0));
            crate::text::lemma_text_lt_irreflexive(key);
        }
    }
}

/// A key that the upper layer has gets its value: laid over what was there, or as it is.
pub proof fn upper_layers_win(b: MapModel, p: MapModel, key: Seq<char>)
    requires
        ordered(b),
        ordered(p),
        map_get(p, key) is Some,
    ensures
        merged(JsonModel::Object(b), JsonModel::Object(p)) matches JsonModel::Object(m) && map_get(
            m,
            key,
        ) == Some(
            match map_get(b, key) {
                Some(x) => merged(x, map_get(p, key)->0),
                None => map_get(p, key)->0,
            },
        ),
{
    let i = lemma_present(p, key);
    lemma_merge_key(b, p, p.len() as int, i);
}

impl Numeral {
    pub fn equals(&self, other: &Numeral) -> (r: bool)
        ensures
            r == (self@ == other@),
    {
        match (self, other) {
            (Numeral::Unsigned(a), Numeral::Unsigned(b)) => *a == *b,
            (Numeral::Negative(a), Numeral::Negative(b)) => *a == *b,
            (Numeral::Float(a), Numeral::Float(b)) => same(a.as_str(), b.as_str()),
            _ => false,
        }
    }
}

impl Json {
    /// Whether two trees are the same.
    pub fn equals(&self, other: &Json) -> (r: bool)
        ensures
            r == (self@ == other@),
        decreases self,
    {
        match (self, other) {
            (Json::Null, Json::Null) => true,
            (Json::Bool(a), Json::Bool(b)) => *a == *b,
            (Json::Number(a), Json::Number(b)) => a.equals(b),
            (Json::Text(a), Json::Text(b)) => same(a.as_str(), b.as_str()),
            (Json::Array(a), Json::Array(b)) => lists_equal(a, b),
            (Json::Object(a), Json::Object(b)) => maps_equal(a, b),
            _ => false,
        }
    }
}

fn lists_equal(a: &Vec<Json>, b: &Vec<Json>) -> (r: bool)
    ensures
        r == (list_model(a@) == list_model(b@)),
    decreases a,
{
    let ghost x = list_model(a@);
    let ghost y = list_model(b@);
    if a.len() != b.len() {
        assert(x.len() != y.len());
        return false;
    }
    let mut i: usize = 0;
    while i < a.len()
        invariant
            i <= a.len(),
            a.len() == b.len(),
            x == list_model(a@),
            y == list_model(b@),
            forall|k: int| 0 <= k < i ==> (#[trigger] x[k]) == y[k],
        decreases a.len() - i,
    {
        if !a[i].equals(&b[i]) {
            assert(x[i as int] != y[i as int]);
            return false;
        }
        i += 1;
    }
    assert(x =~= y);
    true
}

fn maps_equal(a: &JsonMap, b: &JsonMap) -> (r: bool)
    ensures
        r == (a@ == b@),
    decreases a,
{
    if a.entries.len() != b.entries.len() {
        assert(a@.len() != b@.len());
        return false;
    }
    let mut i: usize = 0;
    while i < a.entries.len()
        invariant
            i <= a.entries.len(),
            a.entries.len() == b.entries.len(),
            forall|k: int| 0 <= k < i ==> (#[trigger] a@[k]) == b@[k],
        decreases a.entries.len() - i,
    {
        if !same(a.entries[i].0.as_str(), b.entries[i].0.as_str()) {
            assert(a@[i as int] != b@[i as int]);
            return false;
        }
        if !a.entries[i].1.equals(&b.entries[i].1) {
            assert(a@[i as int] != b@[i as int]);
            return false;
        }
        i += 1;
    }
    assert(a@ =~= b@);
    true
}

/// A setting that a layer changed.
#[derive(Debug)]
pub struct ConfigOverride {
    pub key: String,
    pub previous: Option<Json>,
    pub new_value: Json,
}

pub ghost struct OverrideModel {
    pub key: Seq<char>,
    pub previous: Option<JsonModel>,
    pub new_value: JsonModel,
}

impl ConfigOverride {
    pub open spec fn view(self) -> OverrideModel {
        OverrideModel {
            key: self.key@,
            previous: match self.previous {
                Some(v) => Some(v@),
                None => None,
            },
            new_value: self.new_value@,
        }
    }
}

pub open spec fn override_models(s: Seq<ConfigOverride>) -> Seq<OverrideModel> {
    s.map_values(|o: ConfigOverride| o@)
}

/// One change; nothing counts as no value before.
pub open spec fn change(key: Seq<char>, before: JsonModel, after: JsonModel) -> Seq<OverrideModel> {
    seq![
        OverrideModel {
            key,
            previous: if before == JsonModel::Null {
                None
            } else {
                Some(before)
            },
            new_value: after,
        },
    ]
}

pub open spec fn below(prefix: Seq<char>, key: Seq<char>) -> Seq<char> {
    if prefix.len() == 0 {
        key
    } else {
        prefix + "."@ + key
    }
}

/// What differs between two trees: objects are compared key by key, in the order of the keys.
pub open spec fn differences(prefix: Seq<char>, before: JsonModel, after: JsonModel) -> Seq<
    OverrideModel,
>
    decreases before, 0int,
{
    if before == after {
        seq![]
    } else {
        match (before, after) {
            (JsonModel::Object(b), JsonModel::Object(a)) => differences_from(prefix, b, 0, a, 0),
            _ => change(prefix, before, after),
        }
    }
}

/// What differs from the `i`-th entry of the one object and the `j`-th of the other on.
pub open spec fn differences_from(
    prefix: Seq<char>,
    b: MapModel,
    i: int,
    a: MapModel,
    j: int,
) -> Seq<OverrideModel>
    decreases b, (b.len() - i) + (a.len() - j),
{
    if i < 0 || j < 0 || i > b.len() || j > a.len() || (i == b.len() && j == a.len()) {
        seq![]
    } else if j == a.len() || (i < b.len() && text_lt(b[i].0, a[j].0)) {
        one_sided(below(prefix, b[i].0), b[i].1, JsonModel::Null) + differences_from(
            prefix,
            b,
            i + 1,
            a,
            j,
        )
    } else if i == b.len() || b[i].0 != a[j].0 {
        one_sided(below(prefix, a[j].0), JsonModel::Null, a[j].1) + differences_from(
            prefix,
            b,
            i,
            a,
            j + 1,
        )
    } else {
        differences(below(prefix, b[i].0), b[i].1, a[j].1) + differences_from(
            prefix,
            b,
            i + 1,
            a,
            j + 1,
        )
    }
}

/// What differs where a key is missing on one side.
pub open spec fn one_sided(key: Seq<char>, before: JsonModel, after: JsonModel) -> Seq<
    OverrideModel,
> {
    if before == after {
        seq![]
    } else {
        change(key, before, after)
    }
}

fn note_change(key: &str, before: &Json, after: &Json, out: &mut Vec<ConfigOverride>)
    ensures
        override_models(final(out)@) == override_models(old(out)@) + change(
            key@,
            before@,
            after@,
        ),
{
    let ghost o = out@;
    let previous = match before {
        Json::Null => None,
        other => Some(other.clone()),
    };
    let c = ConfigOverride { key: key.to_owned(), previous, new_value: after.clone() };
    out.push(c);
    assert(override_models(out@) =~= override_models(o) + change(key@, before@, after@));
}

fn name_below(prefix: &str, key: &str) -> (r: String)
    ensures
        r@ == below(prefix@, key@),
{
    if prefix.is_empty() {
        key.to_owned()
    } else {
        concat3(prefix, ".", key)
    }
}

fn diff_into(prefix: &str, before_: &Json, after: &Json, out: &mut Vec<ConfigOverride>)
    ensures
        override_models(final(out)@) == override_models(old(out)@) + differences(
            prefix@,
            before_@,
            after@,
        ),
    decreases before_, 0int,
{
    if before_.equals(after) {
        assert(override_models(out@) =~= override_models(out@) + seq![]);
        return ;
    }
    match (before_, after) {
        (Json::Object(b), Json::Object(a)) => {
            diff_maps(prefix, b, a, out);
        },
        _ => {
            note_change(prefix, before_, after, out);
        },
    }
}

fn diff_maps(prefix: &str, b: &JsonMap, a: &JsonMap, out: &mut Vec<ConfigOverride>)
    ensures
        override_models(final(out)@) == override_models(old(out)@) + differences_from(
            prefix@,
            b@,
            0,
            a@,
            0,
        ),
    decreases b, 1int,
{
    let ghost o = override_models(out@);
    let ghost all = differences_from(prefix@, b@, 0, a@, 0);
    let mut i: usize = 0;
    let mut j: usize = 0;
    while i < b.entries.len() || j < a.entries.len()
        invariant
            i <= b.entries.len(),
            j <= a.entries.len(),
            o + all =~= override_models(out@) + differences_from(
                prefix@,
                b@,
                i as int,
                a@,
                j as int,
            ),
        decreases (b.entries.len() - i) + (a.entries.len() - j),
    {
        let ghost sofar = override_models(out@);
        let ghost rest = differences_from(prefix@, b@, i as int, a@, j as int);
        let left = j == a.entries.len() || (i < b.entries.len() && before(
            b.entries[i].0.as_str(),
            a.entries[j].0.as_str(),
        ));
        if left {
            let key = name_below(prefix, b.entries[i].0.as_str());
            let value = &b.entries[i].1;
            match value {
                Json::Null => {
                    assert(sofar + rest =~= sofar + differences_from(
                        prefix@,
                        b@,
                        i + 1,
                        a@,
                        j as int,
                    ));
                },
                _ => {
                    note_change(key.as_str(), value, &Json::Null, out);
                },
            }
            i += 1;
        } else if i == b.entries.len() || !same(
            b.entries[i].0.as_str(),
            a.entries[j].0.as_str(),
        ) {
            let key = name_below(prefix, a.entries[j].0.as_str());
            let value = &a.entries[j].1;
            match value {
                Json::Null => {
                    assert(sofar + rest =~= sofar + differences_from(
                        prefix@,
                        b@,
                        i as int,
                        a@,
                        j + 1,
                    ));
                },
                _ => {
                    note_change(key.as_str(), &Json::Null, value, out);
                },
            }
            j += 1;
        } else {
            let key = name_below(prefix, b.entries[i].0.as_str());
            diff_into(key.as_str(), &b.entries[i].1, &a.entries[j].1, out);
            i += 1;
            j += 1;
        }
    }
    assert(override_models(out@) =~= o + all);
}

/// What differs between two trees.
pub fn diff_values(before_: &Json, after: &Json) -> (r: Vec<ConfigOverride>)
    ensures
        override_models(r@) == differences(seq![], before_@, after@),
{
    let mut out: Vec<ConfigOverride> = Vec::new();
    assert(override_models(out@) =~= seq![]);
    proof {
        reveal_strlit("");
        assert(""@ =~= seq![]);
    }
    diff_into("", before_, after, &mut out);
    assert(override_models(out@) =~= differences(seq![], before_@, after@));
    out
}

/// A key under its new name; where both names stand, the new one keeps its value.
pub open spec fn renamed(m: MapModel, from: Seq<char>, to: Seq<char>) -> MapModel {
    match map_get(m, from) {
        Some(v) => if map_get(m, to) is None {
            map_insert(map_remove(m, from), to, v)
        } else {
            map_remove(m, from)
        },
        None => m,
    }
}

/// An object in which two keys of a section have their new names.
pub open spec fn section_renamed(
    m: MapModel,
    section: Seq<char>,
    first: (Seq<char>, Seq<char>),
    second: (Seq<char>, Seq<char>),
) -> MapModel {
    match map_get(m, section) {
        Some(JsonModel::Object(s)) => map_insert(
            m,
            section,
            JsonModel::Object(renamed(renamed(s, first.0, first.1), second.0, second.1)),
        ),
        _ => m,
    }
}

/// A tree in which the section has its new names wherever it stands.
pub open spec fn all_renamed(
    j: JsonModel,
    section: Seq<char>,
    first: (Seq<char>, Seq<char>),
    second: (Seq<char>, Seq<char>),
) -> JsonModel
    decreases j, 0int,
{
    match j {
        JsonModel::Object(m) => JsonModel::Object(
            section_renamed(entries_renamed(m, section, first, second), section, first, second),
        ),
        JsonModel::Array(s) => JsonModel::Array(items_renamed(s, section, first, second)),
        _ => j,
    }
}

pub open spec fn entries_renamed(
    m: MapModel,
    section: Seq<char>,
    first: (Seq<char>, Seq<char>),
    second: (Seq<char>, Seq<char>),
) -> MapModel
    decreases m, 0int,
{
    Seq::new(
        m.len(),
        |i: int|
            if 0 <= i < m.len() {
                (m[i].0, all_renamed(m[i].1, section, first, second))
            } else {
                (seq![], JsonModel::Null)
            },
    )
}

pub open spec fn items_renamed(
    s: Seq<JsonModel>,
    section: Seq<char>,
    first: (Seq<char>, Seq<char>),
    second: (Seq<char>, Seq<char>),
) -> Seq<JsonModel>
    decreases s, 0int,
{
    Seq::new(
        s.len(),
        |i: int|
            if 0 <= i < s.len() {
                all_renamed(s[i], section, first, second)
            } else {
                JsonModel::Null
            },
    )
}

fn rename_key(m: &mut JsonMap, from: &str, to: &str)
    requires
        from@ != to@,
    ensures
        final(m)@ == renamed(old(m)@, from@, to@),
{
    let ghost m0 = m@;
    let taken = m.has(to);
    match m.remove(from) {
        Some(v) => {
            if !taken {
                m.insert(to.to_owned(), v);
            }
        },
        None => {
            proof {
                lemma_remove_absent(m0, from@);
            }
        },
    }
}

proof fn lemma_remove_absent(m: MapModel, key: Seq<char>)
    requires
        map_get(m, key) is None,
    ensures
        map_remove(m, key) == m,
    decreases m.len(),
{
    if m.len() > 0 {
        lemma_remove_absent(m.skip(1), key);
        assert(seq![m[0]] + m.skip(1) =~= m);
    }
}

fn rename_all(j: &Json, section: &str, first: (&str, &str), second: (&str, &str)) -> (r: Json)
    requires
        first.0@ != first.1@,
        second.0@ != second.1@,
    ensures
        r@ == all_renamed(j@, section@, (first.0@, first.1@), (second.0@, second.1@)),
    decreases j,
{
    match j {
        Json::Object(m) => {
            let mut out = rename_entries(m, section, first, second);
            let found = match out.get(section) {
                Some(Json::Object(s)) => Some(s.clone()),
                _ => None,
            };
            match found {
                Some(s) => {
                    let mut t = s;
                    rename_key(&mut t, first.0, first.1);
                    rename_key(&mut t, second.0, second.1);
                    out.insert(section.to_owned(), Json::Object(t));
                },
                None => {},
            }
            Json::Object(out)
        },
        Json::Array(items) => Json::Array(rename_items(items, section, first, second)),
        other => other.clone(),
    }
}

fn rename_entries(m: &JsonMap, section: &str, first: (&str, &str), second: (&str, &str)) -> (r:
    JsonMap)
    requires
        first.0@ != first.1@,
        second.0@ != second.1@,
    ensures
        r@ == entries_renamed(m@, section@, (first.0@, first.1@), (second.0@, second.1@)),
    decreases m,
{
    let mut entries: Vec<(String, Json)> = Vec::new();
    let mut i: usize = 0;
    while i < m.entries.len()
        invariant
            i <= m.entries.len(),
            first.0@ != first.1@,
            second.0@ != second.1@,
            entries@.len() == i,
            forall|k: int|
                0 <= k < i ==> (#[trigger] entries@[k]).0@ == m@[k].0 && entries@[k].1@
                    == all_renamed(
                    m@[k].1,
                    section@,
                    (first.0@, first.1@),
                    (second.0@, second.1@),
                ),
        decreases m.entries.len() - i,
    {
        let value = rename_all(&m.entries[i].1, section, first, second);
        entries.push((m.entries[i].0.clone(), value));
        i += 1;
    }
    let r = JsonMap { entries };
    assert(r@ =~= entries_renamed(m@, section@, (first.0@, first.1@), (second.0@, second.1@)));
    r
}

fn rename_items(v: &Vec<Json>, section: &str, first: (&str, &str), second: (&str, &str)) -> (r: Vec<
    Json,
>)
    requires
        first.0@ != first.1@,
        second.0@ != second.1@,
    ensures
        list_model(r@) == items_renamed(
            list_model(v@),
            section@,
            (first.0@, first.1@),
            (second.0@, second.1@),
        ),
    decreases v,
{
    let mut out: Vec<Json> = Vec::new();
    let mut i: usize = 0;
    while i < v.len()
        invariant
            i <= v.len(),
            first.0@ != first.1@,
            second.0@ != second.1@,
            out@.len() == i,
            forall|k: int|
                0 <= k < i ==> (#[trigger] out@[k])@ == all_renamed(
                    v@[k]@,
                    section@,
                    (first.0@, first.1@),
                    (second.0@, second.1@),
                ),
        decreases v.len() - i,
    {
        let x = rename_all(&v[i], section, first, second);
        out.push(x);
        i += 1;
    }
    assert(list_model(out@) =~= items_renamed(
        list_model(v@),
        section@,
        (first.0@, first.1@),
        (second.0@, second.1@),
    ));
    out
}

/// Where a key has been renamed, its old name is gone, and the new name has its own value if it
/// had one, and the old one's otherwise.
pub proof fn old_names_are_gone(m: MapModel, from: Seq<char>, to: Seq<char>)
    requires
        ordered(m),
        from != to,
    ensures
        map_get(renamed(m, from, to), from) is None,
        map_get(renamed(m, from, to), to) == if map_get(m, to) is Some {
            map_get(m, to)
        } else {
            map_get(m, from)
        },
        ordered(renamed(m, from, to)),
{
    remove_then_get(m, from, to);
    if map_get(m, from) is Some {
        insert_then_get(map_remove(m, from), to, map_get(m, from)->0, from);
    }
}

/// A tree with the old names of the router's keys replaced.
pub open spec fn router_renamed(j: JsonModel) -> JsonModel {
    all_renamed(
        j,
        "router"@,
        ("allow_shell_fastpath"@, "fastpath_shell"@),
        ("shell_fastpath"@, "fastpath_shell"@),
    )
}

/// A tree with the old names of the knowledge base's keys replaced.
pub open spec fn kb_renamed(j: JsonModel) -> JsonModel {
    all_renamed(j, "kb"@, ("ledger"@, "events_db"@), ("materialized"@, "view_db"@))
}

pub fn normalize_router_aliases(value: &mut Json)
    ensures
        final(value)@ == router_renamed(old(value)@),
{
    proof {
        reveal_strlit("allow_shell_fastpath");
        reveal_strlit("shell_fastpath");
        reveal_strlit("fastpath_shell");
        assert("shell_fastpath"@[0] == 's' && "fastpath_shell"@[0] == 'f'
            && "allow_shell_fastpath"@[0] == 'a');
    }
    let r = rename_all(
        value,
        "router",
        ("allow_shell_fastpath", "fastpath_shell"),
        ("shell_fastpath", "fastpath_shell"),
    );
    *value = r;
}

pub fn normalize_kb_aliases(value: &mut Json)
    ensures
        final(value)@ == kb_renamed(old(value)@),
{
    proof {
        reveal_strlit("ledger");
        reveal_strlit("events_db");
        reveal_strlit("materialized");
        reveal_strlit("view_db");
        assert("ledger"@[0] == 'l' && "events_db"@[0] == 'e' && "materialized"@[0] == 'm'
            && "view_db"@[0] == 'v');
    }
    let r = rename_all(value, "kb", ("ledger", "events_db"), ("materialized", "view_db"));
    *value = r;
}

} // verus!
