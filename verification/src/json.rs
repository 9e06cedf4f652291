//! JSON trees: objects keep their keys in order, each key once.

use crate::text::{before, same, text_lt};
use crate::text::{lemma_text_lt_irreflexive, lemma_text_lt_total, lemma_text_lt_transitive};
use serde_json::Value;
use vstd::prelude::*;

verus! {

/// A JSON number. A fraction is kept as its numeral.
#[derive(Debug)]
pub enum Numeral {
    Unsigned(u64),
    Negative(i64),
    Float(String),
}

#[derive(Debug)]
pub enum Json {
    Null,
    Bool(bool),
    Number(Numeral),
    Text(String),
    Array(Vec<Json>),
    Object(JsonMap),
}

#[derive(Debug)]
pub struct JsonMap {
    pub entries: Vec<(String, Json)>,
}

pub ghost enum NumeralModel {
    Unsigned(u64),
    Negative(i64),
    Float(Seq<char>),
}

pub ghost enum JsonModel {
    Null,
    Bool(bool),
    Number(NumeralModel),
    Text(Seq<char>),
    Array(Seq<JsonModel>),
    Object(Seq<(Seq<char>, JsonModel)>),
}

pub type MapModel = Seq<(Seq<char>, JsonModel)>;

impl Numeral {
    pub open spec fn view(self) -> NumeralModel {
        match self {
            Numeral::Unsigned(n) => NumeralModel::Unsigned(n),
            Numeral::Negative(n) => NumeralModel::Negative(n),
            Numeral::Float(t) => NumeralModel::Float(t@),
        }
    }
}

impl Clone for Numeral {
    fn clone(&self) -> (r: Self)
        ensures
            r@ == self@,
    {
        match self {
            Numeral::Unsigned(n) => Numeral::Unsigned(*n),
            Numeral::Negative(n) => Numeral::Negative(*n),
            Numeral::Float(t) => Numeral::Float(t.clone()),
        }
    }
}

pub open spec fn list_model(items: Seq<Json>) -> Seq<JsonModel>
    decreases items,
{
    Seq::new(
        items.len(),
        |i: int|
            if 0 <= i < items.len() {
                items[i].view()
            } else {
                JsonModel::Null
            },
    )
}

impl Json {
    pub open spec fn view(self) -> JsonModel
        decreases self,
    {
        match self {
            Json::Null => JsonModel::Null,
            Json::Bool(b) => JsonModel::Bool(b),
            Json::Number(n) => JsonModel::Number(n@),
            Json::Text(t) => JsonModel::Text(t@),
            Json::Array(items) => JsonModel::Array(list_model(items@)),
            Json::Object(map) => JsonModel::Object(map.view()),
        }
    }
}

impl JsonMap {
    pub open spec fn view(self) -> MapModel
        decreases self,
    {
        let s = self.entries@;
        Seq::new(
            s.len(),
            |i: int|
                if 0 <= i < s.len() {
                    (s[i].0@, s[i].1.view())
                } else {
                    (seq![], JsonModel::Null)
                },
        )
    }
}

impl Clone for Json {
    fn clone(&self) -> (r: Self)
        ensures
            r@ == self@,
        decreases self,
    {
        match self {
            Json::Null => Json::Null,
            Json::Bool(b) => Json::Bool(*b),
            Json::Number(n) => Json::Number(n.clone()),
            Json::Text(t) => Json::Text(t.clone()),
            Json::Array(items) => Json::Array(copy_list(items)),
            Json::Object(map) => Json::Object(map.clone()),
        }
    }
}

/// The trees of `items`, copied.
pub fn copy_list(items: &Vec<Json>) -> (r: Vec<Json>)
    ensures
        list_model(r@) == list_model(items@),
        r@.len() == items@.len(),
    decreases items,
{
    let mut out: Vec<Json> = Vec::new();
    let mut i: usize = 0;
    while i < items.len()
        invariant
            i <= items.len(),
            out@.len() == i,
            forall|k: int| 0 <= k < i ==> (#[trigger] out@[k])@ == items@[k]@,
        decreases items.len() - i,
    {
        let x = items[i].clone();
        out.push(x);
        i += 1;
    }
    assert(list_model(out@) =~= list_model(items@));
    out
}

impl Clone for JsonMap {
    fn clone(&self) -> (r: Self)
        ensures
            r@ == self@,
        decreases self,
    {
        let mut out: Vec<(String, Json)> = Vec::new();
        let mut i: usize = 0;
        while i < self.entries.len()
            invariant
                i <= self.entries.len(),
                out@.len() == i,
                forall|k: int|
                    0 <= k < i ==> (#[trigger] out@[k]).0@ == self.entries@[k].0@ && out@[k].1@
                        == self.entries@[k].1@,
            decreases self.entries.len() - i,
        {
            let key = self.entries[i].0.clone();
            let value = self.entries[i].1.clone();
            out.push((key, value));
            i += 1;
        }
        let r = JsonMap { entries: out };
        assert(r@ =~= self@);
        r
    }
}


/// The value under `key`, if the key occurs.
pub open spec fn map_get(m: MapModel, key: Seq<char>) -> Option<JsonModel>
    decreases m.len(),
{
    if m.len() == 0 {
        None
    } else if m[0].0 == key {
        Some(m[0].1)
    } else {
        map_get(m.skip(1), key)
    }
}

/// `m` with `value` under `key`, a new key put in its place in the order.
pub open spec fn map_insert(m: MapModel, key: Seq<char>, value: JsonModel) -> MapModel
    decreases m.len(),
{
    if m.len() == 0 {
        seq![(key, value)]
    } else if m[0].0 == key {
        seq![(key, value)] + m.skip(1)
    } else if text_lt(key, m[0].0) {
        seq![(key, value)] + m
    } else {
        seq![m[0]] + map_insert(m.skip(1), key, value)
    }
}

/// `m` without its entry for `key`.
pub open spec fn map_remove(m: MapModel, key: Seq<char>) -> MapModel
    decreases m.len(),
{
    if m.len() == 0 {
        m
    } else if m[0].0 == key {
        m.skip(1)
    } else {
        seq![m[0]] + map_remove(m.skip(1), key)
    }
}

/// Whether the keys of `m` are in order, each once.
pub open spec fn ordered(m: MapModel) -> bool {
    forall|i: int, j: int| 0 <= i < j < m.len() ==> text_lt(#[trigger] m[i].0, #[trigger] m[j].0)
}

pub proof fn lemma_map_get_none(m: MapModel, key: Seq<char>)
    requires
        forall|i: int| 0 <= i < m.len() ==> (#[trigger] m[i]).0 != key,
    ensures
        map_get(m, key) is None,
    decreases m.len(),
{
    if m.len() > 0 {
        let t = m.skip(1);
        assert forall|i: int| 0 <= i < t.len() implies (#[trigger] t[i]).0 != key by {
            assert(t[i] == m[i + 1]);
        }
        lemma_map_get_none(t, key);
    }
}

/// What has been put under a key is found there, and nothing else moves.
pub proof fn insert_then_get(m: MapModel, key: Seq<char>, value: JsonModel, other: Seq<char>)
    requires
        ordered(m),
    ensures
        map_get(map_insert(m, key, value), key) == Some(value),
        other != key ==> map_get(map_insert(m, key, value), other) == map_get(m, other),
        ordered(map_insert(m, key, value)),
    decreases m.len(),
{
    let r = map_insert(m, key, value);
    if m.len() == 0 {
        assert(r.skip(1) =~= m);
    } else {
        let t = m.skip(1);
        assert(ordered(t)) by {
            assert forall|i: int, j: int| 0 <= i < j < t.len() implies text_lt(
                #[trigger] t[i].0,
                #[trigger] t[j].0,
            ) by {
                assert(t[i] == m[i + 1] && t[j] == m[j + 1]);
            }
        }
        if m[0].0 == key {
            assert(r.skip(1) =~= t);
        } else if text_lt(key, m[0].0) {
            assert(r.skip(1) =~= m);
            assert forall|i: int, j: int| 0 <= i < j < r.len() implies text_lt(
                #[trigger] r[i].0,
                #[trigger] r[j].0,
            ) by {
                assert(r[j] == m[j - 1]);
                if i == 0 {
                    if j > 1 {
                        lemma_text_lt_transitive(key, m[0].0, m[j - 1].0);
                    }
                } else {
                    assert(r[i] == m[i - 1]);
                }
            }
        } else {
            insert_then_get(t, key, value, other);
            lemma_text_lt_total(key, m[0].0);
            let rest = map_insert(t, key, value);
            assert(r.skip(1) =~= rest);
            lemma_insert_keys(t, key, value);
            assert forall|i: int, j: int| 0 <= i < j < r.len() implies text_lt(
                #[trigger] r[i].0,
                #[trigger] r[j].0,
            ) by {
                assert(r[j] == rest[j - 1]);
                if i == 0 {
                    let k = rest[j - 1].0;
                    if k != key {
                        let w = choose|w: int| 0 <= w < t.len() && (#[trigger] t[w]).0 == k;
                        assert(t[w] == m[w + 1]);
                    }
                } else {
                    assert(r[i] == rest[i - 1]);
                }
            }
        }
    }
}

proof fn lemma_insert_keys(m: MapModel, key: Seq<char>, value: JsonModel)
    ensures
        forall|i: int|
            0 <= i < map_insert(m, key, value).len() ==> (#[trigger] map_insert(m, key, value)[i]).0
                == key || exists|w: int|
                0 <= w < m.len() && (#[trigger] m[w]).0 == map_insert(m, key, value)[i].0,
    decreases m.len(),
{
    let r = map_insert(m, key, value);
    if m.len() > 0 {
        let t = m.skip(1);
        lemma_insert_keys(t, key, value);
        assert forall|i: int| 0 <= i < r.len() implies (#[trigger] r[i]).0 == key || exists|w: int|
            0 <= w < m.len() && (#[trigger] m[w]).0 == r[i].0 by {
            if m[0].0 == key {
                if i > 0 {
                    assert(r[i] == m[i]);
                }
            } else if text_lt(key, m[0].0) {
                if i > 0 {
                    assert(r[i] == m[i - 1]);
                }
            } else if i == 0 {
                assert(r[0] == m[0]);
            } else {
                let rest = map_insert(t, key, value);
                assert(r[i] == rest[i - 1]);
                if rest[i - 1].0 != key {
                    let w = choose|w: int| 0 <= w < t.len() && (#[trigger] t[w]).0 == rest[i - 1].0;
                    assert(t[w] == m[w + 1]);
                }
            }
        }
    }
}

/// What has been taken away is not found any more, and nothing else moves.
pub proof fn remove_then_get(m: MapModel, key: Seq<char>, other: Seq<char>)
    requires
        ordered(m),
    ensures
        map_get(map_remove(m, key), key) is None,
        other != key ==> map_get(map_remove(m, key), other) == map_get(m, other),
        ordered(map_remove(m, key)),
    decreases m.len(),
{
    let r = map_remove(m, key);
    if m.len() > 0 {
        let t = m.skip(1);
        assert(ordered(t)) by {
            assert forall|i: int, j: int| 0 <= i < j < t.len() implies text_lt(
                #[trigger] t[i].0,
                #[trigger] t[j].0,
            ) by {
                assert(t[i] == m[i + 1] && t[j] == m[j + 1]);
            }
        }
        if m[0].0 == key {
            assert forall|i: int| 0 <= i < t.len() implies (#[trigger] t[i]).0 != key by {
                assert(t[i] == m[i + 1]);
                assert(text_lt(m[0].0, m[i + 1].0));
                lemma_text_lt_irreflexive(key);
            }
            lemma_map_get_none(t, key);
        } else {
            remove_then_get(t, key, other);
            let rest = map_remove(t, key);
            assert(r.skip(1) =~= rest);
            lemma_remove_keys(t, key);
            assert forall|i: int, j: int| 0 <= i < j < r.len() implies text_lt(
                #[trigger] r[i].0,
                #[trigger] r[j].0,
            ) by {
                assert(r[j] == rest[j - 1]);
                if i == 0 {
                    let w = choose|w: int| 0 <= w < t.len() && (#[trigger] t[w]) == rest[j - 1];
                    assert(t[w] == m[w + 1]);
                    assert(text_lt(m[0].0, m[w + 1].0));
                } else {
                    assert(r[i] == rest[i - 1]);
                }
            }
        }
    }
}

proof fn lemma_remove_keys(m: MapModel, key: Seq<char>)
    ensures
        forall|i: int|
            0 <= i < map_remove(m, key).len() ==> exists|w: int|
                0 <= w < m.len() && (#[trigger] m[w]) == #[trigger] map_remove(m, key)[i],
    decreases m.len(),
{
    let r = map_remove(m, key);
    if m.len() > 0 {
        let t = m.skip(1);
        lemma_remove_keys(t, key);
        assert forall|i: int| 0 <= i < r.len() implies exists|w: int|
            0 <= w < m.len() && (#[trigger] m[w]) == #[trigger] r[i] by {
            if m[0].0 == key {
                assert(r[i] == m[i + 1]);
            } else if i == 0 {
                assert(r[0] == m[0]);
            } else {
                let rest = map_remove(t, key);
                assert(r[i] == rest[i - 1]);
                let w = choose|w: int| 0 <= w < t.len() && (#[trigger] t[w]) == rest[i - 1];
                assert(t[w] == m[w + 1]);
            }
        }
    }
}

impl JsonMap {
    pub fn new() -> (r: Self)
        ensures
            r@ == MapModel::empty(),
    {
        let r = JsonMap { entries: Vec::new() };
        assert(r@ =~= MapModel::empty());
        r
    }

    pub fn len(&self) -> (n: usize)
        ensures
            n == self@.len(),
    {
        self.entries.len()
    }

    /// Where the entry for `key` stands.
    fn place(&self, key: &str) -> (r: Option<usize>)
        ensures
            match r {
                Some(i) => i < self.entries.len() && self@[i as int].0 == key@ && map_get(self@, key@)
                    == Some(self@[i as int].1) && map_remove(self@, key@) == self@.remove(i as int),
                None => map_get(self@, key@) is None && map_remove(self@, key@) == self@,
            },
    {
        let ghost all = self@;
        let mut i: usize = 0;
        assert(all.skip(0) =~= all);
        assert(all.take(0) + map_remove(all, key@) =~= map_remove(all, key@));
        while i < self.entries.len()
            invariant
                i <= self.entries.len(),
                all == self@,
                map_get(all, key@) == map_get(all.skip(i as int), key@),
                map_remove(all, key@) == all.take(i as int) + map_remove(all.skip(i as int), key@),
            decreases self.entries.len() - i,
        {
            let ghost rest = all.skip(i as int);
            assert(rest[0] == all[i as int]);
            assert(rest.skip(1) =~= all.skip(i + 1));
            if same(self.entries[i].0.as_str(), key) {
                assert(map_remove(all, key@) =~= all.remove(i as int));
                return Some(i);
            }
            assert(all.take(i as int) + (seq![all[i as int]] + map_remove(all.skip(i + 1), key@))
                =~= all.take(i + 1) + map_remove(all.skip(i + 1), key@));
            i += 1;
        }
        assert(all.take(all.len() as int) + map_remove(all.skip(all.len() as int), key@) =~= all);
        None
    }

    pub fn get(&self, key: &str) -> (r: Option<&Json>)
        ensures
            match r {
                Some(j) => map_get(self@, key@) == Some(j@),
                None => map_get(self@, key@) is None,
            },
    {
        match self.place(key) {
            Some(i) => Some(&self.entries[i].1),
            None => None,
        }
    }

    pub fn has(&self, key: &str) -> (r: bool)
        ensures
            r == (map_get(self@, key@) is Some),
    {
        self.get(key).is_some()
    }

    pub fn remove(&mut self, key: &str) -> (r: Option<Json>)
        ensures
            final(self)@ == map_remove(old(self)@, key@),
            match r {
                Some(j) => map_get(old(self)@, key@) == Some(j@),
                None => map_get(old(self)@, key@) is None,
            },
    {
        match self.place(key) {
            Some(i) => {
                let ghost before_ = self@;
                let (_, value) = self.entries.remove(i);
                assert(self@ =~= before_.remove(i as int));
                Some(value)
            },
            None => None,
        }
    }

    pub fn insert(&mut self, key: String, value: Json)
        ensures
            final(self)@ == map_insert(old(self)@, key@, value@),
    {
        let ghost all = self@;
        let mut i: usize = 0;
        assert(all.skip(0) =~= all);
        assert(all.take(0) + map_insert(all, key@, value@) =~= map_insert(all, key@, value@));
        while i < self.entries.len()
            invariant
                i <= self.entries.len(),
                all == self@,
                *self == *old(self),
                map_insert(all, key@, value@) == all.take(i as int) + map_insert(
                    all.skip(i as int),
                    key@,
                    value@,
                ),
            decreases self.entries.len() - i,
        {
            let ghost rest = all.skip(i as int);
            assert(rest[0] == all[i as int]);
            assert(rest.skip(1) =~= all.skip(i + 1));
            if same(self.entries[i].0.as_str(), key.as_str()) {
                let ghost kv = (key@, value@);
                self.entries.set(i, (key, value));
                assert(self@ =~= all.take(i as int) + (seq![kv] + all.skip(i + 1)));
                return ;
            }
            if before(key.as_str(), self.entries[i].0.as_str()) {
                let ghost kv = (key@, value@);
                self.entries.insert(i, (key, value));
                assert(self@ =~= all.take(i as int) + (seq![kv] + all.skip(i as int)));
                return ;
            }
            assert(all.take(i as int) + (seq![all[i as int]] + map_insert(
                all.skip(i + 1),
                key@,
                value@,
            )) =~= all.take(i + 1) + map_insert(all.skip(i + 1), key@, value@));
            i += 1;
        }
        let ghost kv = (key@, value@);
        self.entries.push((key, value));
        assert(self@ =~= all.take(all.len() as int) + seq![kv]);
    }
}

pub open spec fn tree_get(j: JsonModel, key: Seq<char>) -> Option<JsonModel> {
    match j {
        JsonModel::Object(m) => map_get(m, key),
        _ => None,
    }
}

pub open spec fn tree_text(j: Option<JsonModel>) -> Option<Seq<char>> {
    match j {
        Some(JsonModel::Text(t)) => Some(t),
        _ => None,
    }
}

pub open spec fn tree_bool(j: Option<JsonModel>) -> Option<bool> {
    match j {
        Some(JsonModel::Bool(b)) => Some(b),
        _ => None,
    }
}

pub open spec fn tree_unsigned(j: Option<JsonModel>) -> Option<u64> {
    match j {
        Some(JsonModel::Number(NumeralModel::Unsigned(n))) => Some(n),
        _ => None,
    }
}

pub open spec fn tree_signed(j: Option<JsonModel>) -> Option<i64> {
    match j {
        Some(JsonModel::Number(NumeralModel::Unsigned(n))) => if n <= i64::MAX {
            Some(n as i64)
        } else {
            None
        },
        Some(JsonModel::Number(NumeralModel::Negative(n))) => Some(n),
        _ => None,
    }
}

pub open spec fn tree_list(j: Option<JsonModel>) -> Option<Seq<JsonModel>> {
    match j {
        Some(JsonModel::Array(s)) => Some(s),
        _ => None,
    }
}

pub open spec fn tree_map(j: Option<JsonModel>) -> Option<MapModel> {
    match j {
        Some(JsonModel::Object(m)) => Some(m),
        _ => None,
    }
}

pub open spec fn opt_model(j: Option<&Json>) -> Option<JsonModel> {
    match j {
        Some(x) => Some(x@),
        None => None,
    }
}

impl Json {
    pub fn get(&self, key: &str) -> (r: Option<&Json>)
        ensures
            opt_model(r) == tree_get(self@, key@),
    {
        match self {
            Json::Object(m) => m.get(key),
            _ => None,
        }
    }
}

pub fn text_in(j: Option<&Json>) -> (r: Option<&String>)
    ensures
        match r {
            Some(t) => tree_text(opt_model(j)) == Some(t@),
            None => tree_text(opt_model(j)) is None,
        },
{
    match j {
        Some(Json::Text(t)) => Some(t),
        _ => None,
    }
}

pub fn bool_in(j: Option<&Json>) -> (r: Option<bool>)
    ensures
        r == tree_bool(opt_model(j)),
{
    match j {
        Some(Json::Bool(b)) => Some(*b),
        _ => None,
    }
}

pub fn unsigned_in(j: Option<&Json>) -> (r: Option<u64>)
    ensures
        r == tree_unsigned(opt_model(j)),
{
    match j {
        Some(Json::Number(Numeral::Unsigned(n))) => Some(*n),
        _ => None,
    }
}

pub fn signed_in(j: Option<&Json>) -> (r: Option<i64>)
    ensures
        r == tree_signed(opt_model(j)),
{
    match j {
        Some(Json::Number(Numeral::Unsigned(n))) => if *n <= i64::MAX as u64 {
            Some(*n as i64)
        } else {
            None
        },
        Some(Json::Number(Numeral::Negative(n))) => Some(*n),
        _ => None,
    }
}

pub fn list_in(j: Option<&Json>) -> (r: Option<&Vec<Json>>)
    ensures
        match r {
            Some(v) => tree_list(opt_model(j)) == Some(list_model(v@)),
            None => tree_list(opt_model(j)) is None,
        },
{
    match j {
        Some(Json::Array(v)) => Some(v),
        _ => None,
    }
}

pub fn map_in(j: Option<&Json>) -> (r: Option<&JsonMap>)
    ensures
        match r {
            Some(m) => tree_map(opt_model(j)) == Some(m@),
            None => tree_map(opt_model(j)) is None,
        },
{
    match j {
        Some(Json::Object(m)) => Some(m),
        _ => None,
    }
}

/// The number `n` as a JSON integer.
pub open spec fn int_model(n: int) -> JsonModel {
    if n < 0 {
        JsonModel::Number(NumeralModel::Negative(n as i64))
    } else {
        JsonModel::Number(NumeralModel::Unsigned(n as u64))
    }
}

pub fn int_json(n: i64) -> (r: Json)
    ensures
        r@ == int_model(n as int),
{
    if n < 0 {
        Json::Number(Numeral::Negative(n))
    } else {
        Json::Number(Numeral::Unsigned(n as u64))
    }
}

pub fn text_json(s: &str) -> (r: Json)
    ensures
        r@ == JsonModel::Text(s@),
{
    Json::Text(s.to_owned())
}

pub fn texts_json(v: &Vec<String>) -> (r: Json)
    ensures
        r@ == texts_model(crate::text::texts(v@)),
{
    let mut out: Vec<Json> = Vec::new();
    let mut i: usize = 0;
    while i < v.len()
        invariant
            i <= v.len(),
            out@.len() == i,
            forall|k: int| 0 <= k < i ==> (#[trigger] out@[k])@ == JsonModel::Text(v@[k]@),
        decreases v.len() - i,
    {
        out.push(text_json(v[i].as_str()));
        i += 1;
    }
    assert(list_model(out@) =~= crate::text::texts(v@).map_values(
        |t: Seq<char>| JsonModel::Text(t),
    ));
    Json::Array(out)
}

pub open spec fn texts_model(v: Seq<Seq<char>>) -> JsonModel {
    JsonModel::Array(v.map_values(|t: Seq<char>| JsonModel::Text(t)))
}


/// `serde_json::Value`, a JSON document; nothing of its inside is seen.
#[verifier::external_type_specification]
#[verifier::external_body]
pub struct ExJsonValue(serde_json::Value);

/// The tree that a value of `serde_json` is.
pub uninterp spec fn value_model(v: serde_json::Value) -> JsonModel;

/// What `serde_json::from_str` reads in a text, or its complaint where the text is not JSON.
pub uninterp spec fn json_read(text: Seq<char>) -> Result<JsonModel, Seq<char>>;

/// The tree in a text, if the text is JSON.
pub open spec fn json_document(text: Seq<char>) -> Option<JsonModel> {
    match json_read(text) {
        Ok(j) => Some(j),
        Err(_) => None,
    }
}

/// The JSON string that `serde_json::to_string` writes for a text, quotes included.
pub uninterp spec fn quoted(text: Seq<char>) -> Seq<char>;

/// `serde_json::from_str` into a value. The claim is that the text alone settles whether it is
/// JSON, which value it holds and what is complained of.
#[verifier::external_body]
pub(crate) fn read_value(text: &str) -> (r: Result<serde_json::Value, String>)
    ensures
        match r {
            Ok(v) => json_read(text@) == Ok::<_, Seq<char>>(value_model(v)),
            Err(m) => json_read(text@) == Err::<JsonModel, _>(m@),
        },
{
    serde_json::from_str::<serde_json::Value>(text).map_err(|e| e.to_string())
}

/// `serde_json::Number`, a number in such a document.
#[verifier::external_type_specification]
#[verifier::external_body]
pub struct ExJsonNumber(serde_json::Number);

/// The number that a number of `serde_json` is.
pub uninterp spec fn number_model(n: serde_json::Number) -> NumeralModel;

/// `serde_json::Number::as_u64` and `as_i64` tell the kinds of a number apart, and its text is the
/// numeral of a fraction. The claim is that the result is the number.
#[verifier::external_body]
fn numeral_of(n: &serde_json::Number) -> (r: Numeral)
    ensures
        r@ == number_model(*n),
{
    match (n.as_u64(), n.as_i64()) {
        (Some(u), _) => Numeral::Unsigned(u),
        (None, Some(i)) => Numeral::Negative(i),
        (None, None) => Numeral::Float(n.to_string()),
    }
}

/// Turns a value of `serde_json` into a tree, node for node. The claim is that the result is the
/// value's tree.
#[verifier::external_body]
pub(crate) fn tree_of(v: &serde_json::Value) -> (r: Json)
    ensures
        r@ == value_model(*v),
{
    match v {
        Value::Null => Json::Null,
        Value::Bool(b) => Json::Bool(*b),
        Value::Number(n) => Json::Number(numeral_of(n)),
        Value::String(s) => Json::Text(s.clone()),
        Value::Array(a) => Json::Array(a.iter().map(tree_of).collect()),
        Value::Object(m) => Json::Object(
            JsonMap { entries: m.iter().map(|(k, x)| (k.clone(), tree_of(x))).collect() },
        ),
    }
}

/// The number that `serde_json::Number::from_str` reads in a numeral.
pub uninterp spec fn number_read(numeral: Seq<char>) -> Option<NumeralModel>;

/// The number that `serde_json` makes of a number: one that is not below nought is unsigned, and the
/// numeral of a fraction is read.
pub open spec fn number_value(n: NumeralModel) -> Option<NumeralModel> {
    match n {
        NumeralModel::Unsigned(_) => Some(n),
        NumeralModel::Negative(x) => Some(
            if x < 0 {
                n
            } else {
                NumeralModel::Unsigned(x as u64)
            },
        ),
        NumeralModel::Float(t) => number_read(t),
    }
}

/// `serde_json::Number::from` on a whole number and `serde_json::Number::from_str` on the numeral of
/// a fraction. The claim is that the first keeps the number and that the numeral alone settles
/// whether the second reads a number, and which.
#[verifier::external_body]
fn number_of(n: &Numeral) -> (r: Option<serde_json::Number>)
    ensures
        match (r, n@) {
            (Some(x), NumeralModel::Float(t)) => number_read(t) == Some(number_model(x)),
            (None, NumeralModel::Float(t)) => number_read(t) is None,
            (Some(x), _) => number_value(n@) == Some(number_model(x)),
            (None, _) => false,
        },
{
    match n {
        Numeral::Unsigned(x) => Some(serde_json::Number::from(*x)),
        Numeral::Negative(x) => Some(serde_json::Number::from(*x)),
        Numeral::Float(t) => t.parse::<serde_json::Number>().ok(),
    }
}

/// The entries of an object, put into an object of `serde_json` one after the other.
pub open spec fn entries_value(m: MapModel) -> Option<MapModel>
    decreases m, 0int,
{
    if m.len() == 0 {
        Some(m)
    } else {
        match (entries_value(m.drop_last()), as_value(m.last().1)) {
            (Some(done), Some(v)) => Some(map_insert(done, m.last().0, v)),
            _ => None,
        }
    }
}

pub open spec fn items_value(s: Seq<JsonModel>) -> Option<Seq<JsonModel>>
    decreases s, 0int,
{
    if s.len() == 0 {
        Some(s)
    } else {
        match (items_value(s.drop_last()), as_value(s.last())) {
            (Some(done), Some(v)) => Some(done.push(v)),
            _ => None,
        }
    }
}

/// The tree that `serde_json` makes of a tree: the keys of an object in order, each once, and the
/// numeral of a fraction read; none where such a numeral is no number.
pub open spec fn as_value(j: JsonModel) -> Option<JsonModel>
    decreases j, 1int,
{
    match j {
        JsonModel::Number(n) => match number_value(n) {
            Some(x) => Some(JsonModel::Number(x)),
            None => None,
        },
        JsonModel::Array(s) => match items_value(s) {
            Some(v) => Some(JsonModel::Array(v)),
            None => None,
        },
        JsonModel::Object(m) => match entries_value(m) {
            Some(v) => Some(JsonModel::Object(v)),
            None => None,
        },
        _ => Some(j),
    }
}

/// Turns a tree into a value of `serde_json`, node for node, the `Map` of an object collected from
/// its entries. The claim is that the value's tree is the tree
/// that is handed in, as `serde_json` holds it.
#[verifier::external_body]
pub(crate) fn value_of(j: &Json) -> (r: Option<serde_json::Value>)
    ensures
        match r {
            Some(v) => as_value(j@) == Some(value_model(v)),
            None => as_value(j@) is None,
        },
{
    Some(match j {
        Json::Null => Value::Null,
        Json::Bool(b) => Value::Bool(*b),
        Json::Number(n) => Value::Number(number_of(n)?),
        Json::Text(s) => Value::String(s.clone()),
        Json::Array(a) => Value::Array(a.iter().map(value_of).collect::<Option<_>>()?),
        Json::Object(m) => Value::Object(
            m.entries.iter().map(|(k, x)| Some((k.clone(), value_of(x)?))).collect::<Option<_>>()?,
        ),
    })
}

/// Whether a tree is one that `serde_json` can hold as it stands: the keys of each object in order,
/// each once, no fractions, and what is marked as negative below nought.
pub open spec fn settled(j: JsonModel) -> bool
    decreases j,
{
    match j {
        JsonModel::Number(NumeralModel::Negative(n)) => n < 0,
        JsonModel::Number(NumeralModel::Float(_)) => false,
        JsonModel::Array(s) => forall|i: int| 0 <= i < s.len() ==> settled(#[trigger] s[i]),
        JsonModel::Object(m) => ordered(m) && forall|i: int|
            0 <= i < m.len() ==> settled((#[trigger] m[i]).1),
        _ => true,
    }
}

proof fn lemma_insert_last(m: MapModel, key: Seq<char>, value: JsonModel)
    requires
        forall|i: int| 0 <= i < m.len() ==> text_lt((#[trigger] m[i]).0, key),
    ensures
        map_insert(m, key, value) == m.push((key, value)),
    decreases m.len(),
{
    if m.len() == 0 {
        assert(map_insert(m, key, value) =~= m.push((key, value)));
    } else {
        let t = m.skip(1);
        assert forall|i: int| 0 <= i < t.len() implies text_lt((#[trigger] t[i]).0, key) by {
            assert(t[i] == m[i + 1]);
        }
        lemma_insert_last(t, key, value);
        assert(text_lt(m[0].0, key));
        lemma_text_lt_irreflexive(key);
        if text_lt(key, m[0].0) {
            lemma_text_lt_transitive(key, m[0].0, key);
        }
        assert(map_insert(m, key, value) =~= m.push((key, value)));
    }
}

proof fn lemma_items_stay(s: Seq<JsonModel>)
    requires
        forall|i: int| 0 <= i < s.len() ==> settled(#[trigger] s[i]),
    ensures
        items_value(s) == Some(s),
    decreases s, 0int,
{
    if s.len() > 0 {
        let t = s.drop_last();
        assert forall|i: int| 0 <= i < t.len() implies settled(#[trigger] t[i]) by {
            assert(t[i] == s[i]);
        }
        lemma_items_stay(t);
        assert(settled(s[s.len() - 1]));
        settled_trees_stay(s.last());
        assert(t.push(s.last()) =~= s);
    }
}

proof fn lemma_entries_stay(m: MapModel)
    requires
        ordered(m),
        forall|i: int| 0 <= i < m.len() ==> settled((#[trigger] m[i]).1),
    ensures
        entries_value(m) == Some(m),
    decreases m, 0int,
{
    if m.len() > 0 {
        let t = m.drop_last();
        assert forall|i: int| 0 <= i < t.len() implies settled((#[trigger] t[i]).1) by {
            assert(t[i] == m[i]);
        }
        assert(ordered(t)) by {
            assert forall|i: int, j: int| 0 <= i < j < t.len() implies text_lt(
                #[trigger] t[i].0,
                #[trigger] t[j].0,
            ) by {
                assert(t[i] == m[i] && t[j] == m[j]);
            }
        }
        lemma_entries_stay(t);
        assert(settled(m[m.len() - 1].1));
        settled_trees_stay(m.last().1);
        assert forall|i: int| 0 <= i < t.len() implies text_lt((#[trigger] t[i]).0, m.last().0) by {
            assert(t[i] == m[i]);
            assert(m.last() == m[m.len() - 1]);
        }
        lemma_insert_last(t, m.last().0, m.last().1);
        assert(t.push((m.last().0, m.last().1)) =~= m);
    }
}

/// A settled tree becomes a value of `serde_json` with nothing changed.
pub proof fn settled_trees_stay(j: JsonModel)
    requires
        settled(j),
    ensures
        as_value(j) == Some(j),
    decreases j, 1int,
{
    match j {
        JsonModel::Array(s) => lemma_items_stay(s),
        JsonModel::Object(m) => lemma_entries_stay(m),
        _ => {},
    }
}

/// Putting a settled value into a settled object leaves it settled.
pub proof fn settled_objects_grow(m: MapModel, key: Seq<char>, value: JsonModel)
    requires
        settled(JsonModel::Object(m)),
        settled(value),
    ensures
        settled(JsonModel::Object(map_insert(m, key, value))),
    decreases m.len(),
{
    insert_then_get(m, key, value, key);
    let r = map_insert(m, key, value);
    if m.len() > 0 && m[0].0 != key && !text_lt(key, m[0].0) {
        let t = m.skip(1);
        assert forall|i: int, j: int| 0 <= i < j < t.len() implies text_lt(
            #[trigger] t[i].0,
            #[trigger] t[j].0,
        ) by {
            assert(t[i] == m[i + 1] && t[j] == m[j + 1]);
        }
        assert forall|i: int| 0 <= i < t.len() implies settled((#[trigger] t[i]).1) by {
            assert(t[i] == m[i + 1]);
        }
        settled_objects_grow(t, key, value);
        let rest = map_insert(t, key, value);
        assert forall|i: int| 0 <= i < r.len() implies settled((#[trigger] r[i]).1) by {
            if i == 0 {
                assert(r[0] == m[0]);
            } else {
                assert(r[i] == rest[i - 1]);
            }
        }
    } else {
        assert forall|i: int| 0 <= i < r.len() implies settled((#[trigger] r[i]).1) by {
            if i > 0 {
                assert(r[i] == m[i] || r[i] == m[i - 1]);
            }
        }
    }
}

/// `serde_json::to_string` on a text. The claim is that the JSON string is settled by the text;
/// writing a text does not fail.
#[verifier::external_body]
pub(crate) fn quote(text: &str) -> (r: String)
    ensures
        r@ == quoted(text@),
{
    serde_json::to_string(text).unwrap_or_default()
}

/// The JSON value in `text`, if the text is JSON.
pub fn read_json(text: &str) -> (r: Option<Json>)
    ensures
        match r {
            Some(j) => json_document(text@) == Some(j@),
            None => json_document(text@) is None,
        },
{
    match read_value(text) {
        Ok(v) => Some(tree_of(&v)),
        Err(_) => None,
    }
}

/// The JSON value in `text`, or what is wrong with the text.
pub fn parse_json(text: &str) -> (r: Result<Json, String>)
    ensures
        match r {
            Ok(j) => json_read(text@) == Ok::<_, Seq<char>>(j@),
            Err(m) => json_read(text@) == Err::<JsonModel, _>(m@),
        },
{
    match read_value(text) {
        Ok(v) => Ok(tree_of(&v)),
        Err(m) => Err(m),
    }
}

/// The JSON text that `serde_json::to_string` writes for a value with this tree, without white space.
pub uninterp spec fn json_written(tree: JsonModel) -> Seq<char>;

/// `serde_json::to_string` on a value. The claim is that the text is settled by the value's tree;
/// writing a value does not fail.
#[verifier::external_body]
fn write_value(v: &serde_json::Value) -> (r: String)
    ensures
        r@ == json_written(value_model(*v)),
{
    serde_json::to_string(v).unwrap_or_default()
}

/// The JSON text of a tree; `null` for a tree that holds a numeral that is no number.
pub open spec fn json_text(j: JsonModel) -> Seq<char> {
    match as_value(j) {
        Some(v) => json_written(v),
        None => "null"@,
    }
}

/// The JSON text of `j`, without white space.
pub fn compact(j: &Json) -> (r: String)
    ensures
        r@ == json_text(j@),
{
    match value_of(j) {
        Some(v) => write_value(&v),
        None => "null".to_owned(),
    }
}

} // verus!
