//! YAML documents as trees.

use crate::json::{tree_of, Json, JsonModel};
use crate::text::same;
use serde_yaml::Value;
use vstd::prelude::*;

verus! {

/// A YAML value with the JSON value that it converts to, or the reason why it does not.
#[derive(Debug)]
pub struct Yaml {
    pub shape: Shape,
    pub json: Result<Json, String>,
}

/// The form of a YAML value. A fraction is kept as its numeral and its binary64 bit pattern.
#[derive(Debug)]
pub enum Shape {
    Null,
    Bool(bool),
    Unsigned(u64),
    Negative(i64),
    Float { bits: u64, numeral: String },
    Text(String),
    Sequence(Vec<Yaml>),
    Mapping(Vec<(Yaml, Yaml)>),
    Tagged(Box<Yaml>),
}

pub ghost struct YamlModel {
    pub shape: ShapeModel,
    pub json: Result<JsonModel, Seq<char>>,
}

pub ghost enum ShapeModel {
    Null,
    Bool(bool),
    Unsigned(u64),
    Negative(i64),
    Float { bits: u64, numeral: Seq<char> },
    Text(Seq<char>),
    Sequence(Seq<YamlModel>),
    Mapping(Seq<(YamlModel, YamlModel)>),
    Tagged(Box<YamlModel>),
}

pub type EntryModels = Seq<(YamlModel, YamlModel)>;

pub open spec fn items_model(v: Seq<Yaml>) -> Seq<YamlModel>
    decreases v,
{
    Seq::new(
        v.len(),
        |i: int|
            if 0 <= i < v.len() {
                v[i].view()
            } else {
                arbitrary()
            },
    )
}

pub open spec fn entries_model(v: Seq<(Yaml, Yaml)>) -> EntryModels
    decreases v,
{
    Seq::new(
        v.len(),
        |i: int|
            if 0 <= i < v.len() {
                (v[i].0.view(), v[i].1.view())
            } else {
                arbitrary()
            },
    )
}

impl Yaml {
    pub open spec fn view(self) -> YamlModel
        decreases self,
    {
        YamlModel {
            shape: self.shape.view(),
            json: match self.json {
                Ok(j) => Ok(j@),
                Err(e) => Err(e@),
            },
        }
    }
}

impl Shape {
    pub open spec fn view(self) -> ShapeModel
        decreases self,
    {
        match self {
            Shape::Null => ShapeModel::Null,
            Shape::Bool(b) => ShapeModel::Bool(b),
            Shape::Unsigned(n) => ShapeModel::Unsigned(n),
            Shape::Negative(n) => ShapeModel::Negative(n),
            Shape::Float { bits, numeral } => ShapeModel::Float { bits, numeral: numeral@ },
            Shape::Text(t) => ShapeModel::Text(t@),
            Shape::Sequence(v) => ShapeModel::Sequence(items_model(v@)),
            Shape::Mapping(v) => ShapeModel::Mapping(entries_model(v@)),
            Shape::Tagged(y) => ShapeModel::Tagged(Box::new((*y).view())),
        }
    }
}

/// The form below any tags.
pub open spec fn untagged(y: YamlModel) -> ShapeModel
    decreases y,
{
    match y.shape {
        ShapeModel::Tagged(inner) => untagged(*inner),
        s => s,
    }
}

pub open spec fn yaml_text(y: YamlModel) -> Option<Seq<char>> {
    match untagged(y) {
        ShapeModel::Text(t) => Some(t),
        _ => None,
    }
}

pub open spec fn yaml_bool(y: YamlModel) -> Option<bool> {
    match untagged(y) {
        ShapeModel::Bool(b) => Some(b),
        _ => None,
    }
}

pub open spec fn yaml_items(y: YamlModel) -> Option<Seq<YamlModel>> {
    match untagged(y) {
        ShapeModel::Sequence(s) => Some(s),
        _ => None,
    }
}

pub open spec fn yaml_entries(y: YamlModel) -> Option<EntryModels> {
    match untagged(y) {
        ShapeModel::Mapping(m) => Some(m),
        _ => None,
    }
}

/// A whole number that is not negative.
pub open spec fn yaml_unsigned(y: YamlModel) -> Option<u64> {
    match untagged(y) {
        ShapeModel::Unsigned(n) => Some(n),
        ShapeModel::Negative(n) => if n >= 0 {
            Some(n as u64)
        } else {
            None
        },
        _ => None,
    }
}

/// A whole number of at most 32 bits that is not negative.
pub open spec fn yaml_small(y: YamlModel) -> Option<u32> {
    match yaml_unsigned(y) {
        Some(n) => if n <= u32::MAX {
            Some(n as u32)
        } else {
            None
        },
        None => None,
    }
}

/// The value under the plain string key `key`.
pub open spec fn yaml_get(m: EntryModels, key: Seq<char>) -> Option<YamlModel>
    decreases m.len(),
{
    if m.len() == 0 {
        None
    } else if m[0].0.shape == ShapeModel::Text(key) {
        Some(m[0].1)
    } else {
        yaml_get(m.skip(1), key)
    }
}

pub open spec fn opt_yaml(y: Option<&Yaml>) -> Option<YamlModel> {
    match y {
        Some(y) => Some(y@),
        None => None,
    }
}

impl Yaml {
    pub fn untag(&self) -> (r: &Shape)
        ensures
            r@ == untagged(self@),
        decreases self,
    {
        match &self.shape {
            Shape::Tagged(inner) => inner.untag(),
            s => s,
        }
    }

    pub fn as_text(&self) -> (r: Option<&String>)
        ensures
            match r {
                Some(t) => yaml_text(self@) == Some(t@),
                None => yaml_text(self@) is None,
            },
    {
        match self.untag() {
            Shape::Text(t) => Some(t),
            _ => None,
        }
    }

    pub fn as_bool(&self) -> (r: Option<bool>)
        ensures
            r == yaml_bool(self@),
    {
        match self.untag() {
            Shape::Bool(b) => Some(*b),
            _ => None,
        }
    }

    pub fn as_items(&self) -> (r: Option<&Vec<Yaml>>)
        ensures
            match r {
                Some(v) => yaml_items(self@) == Some(items_model(v@)),
                None => yaml_items(self@) is None,
            },
    {
        match self.untag() {
            Shape::Sequence(v) => Some(v),
            _ => None,
        }
    }

    pub fn as_entries(&self) -> (r: Option<&Vec<(Yaml, Yaml)>>)
        ensures
            match r {
                Some(v) => yaml_entries(self@) == Some(entries_model(v@)),
                None => yaml_entries(self@) is None,
            },
    {
        match self.untag() {
            Shape::Mapping(v) => Some(v),
            _ => None,
        }
    }

    pub fn as_unsigned(&self) -> (r: Option<u64>)
        ensures
            r == yaml_unsigned(self@),
    {
        match self.untag() {
            Shape::Unsigned(n) => Some(*n),
            Shape::Negative(n) => if *n >= 0 {
                Some(*n as u64)
            } else {
                None
            },
            _ => None,
        }
    }

    pub fn as_small(&self) -> (r: Option<u32>)
        ensures
            r == yaml_small(self@),
    {
        match self.as_unsigned() {
            Some(n) => if n <= u32::MAX as u64 {
                Some(n as u32)
            } else {
                None
            },
            None => None,
        }
    }
}

pub fn entry<'a>(m: &'a Vec<(Yaml, Yaml)>, key: &str) -> (r: Option<&'a Yaml>)
    ensures
        opt_yaml(r) == yaml_get(entries_model(m@), key@),
{
    let ghost all = entries_model(m@);
    let mut i: usize = 0;
    assert(all.skip(0) =~= all);
    while i < m.len()
        invariant
            i <= m.len(),
            all == entries_model(m@),
            yaml_get(all, key@) == yaml_get(all.skip(i as int), key@),
        decreases m.len() - i,
    {
        assert(all.skip(i as int)[0] == all[i as int]);
        assert(all.skip(i as int).skip(1) =~= all.skip(i + 1));
        if let Shape::Text(t) = &m[i].0.shape {
            if same(t.as_str(), key) {
                return Some(&m[i].1);
            }
        }
        i += 1;
    }
    None
}

/// `serde_yaml::Value`, a YAML document; nothing of its inside is seen.
#[verifier::external_type_specification]
#[verifier::external_body]
pub struct ExYamlValue(serde_yaml::Value);

/// `serde_yaml::Number`, a number in such a document.
#[verifier::external_type_specification]
#[verifier::external_body]
pub struct ExYamlNumber(serde_yaml::Number);

/// The tree that a value of `serde_yaml` is.
pub uninterp spec fn yaml_tree(v: serde_yaml::Value) -> YamlModel;

/// What `serde_yaml::from_str` reads in a text: a value, or a message with the place it names.
pub uninterp spec fn yaml_parsed(text: Seq<char>) -> Result<
    serde_yaml::Value,
    (Seq<char>, Option<(usize, usize)>),
>;

/// What `serde_json::to_value` makes of a value of `serde_yaml`: a tree, or a message.
pub uninterp spec fn yaml_as_json(v: serde_yaml::Value) -> Result<JsonModel, Seq<char>>;

/// The document in a text.
pub open spec fn yaml_document(text: Seq<char>) -> Result<
    YamlModel,
    (Seq<char>, Option<(usize, usize)>),
> {
    match yaml_parsed(text) {
        Ok(v) => Ok(yaml_tree(v)),
        Err(e) => Err(e),
    }
}

/// The form of a number of `serde_yaml`.
pub uninterp spec fn yaml_number(n: serde_yaml::Number) -> ShapeModel;

/// `serde_yaml::from_str`, with the error's text and its line and column as plain values. The
/// claim is that the outcome is settled by the text.
#[verifier::external_body]
fn read_value(source: &str) -> (r: Result<serde_yaml::Value, (String, Option<(usize, usize)>)>)
    ensures
        match r {
            Ok(v) => yaml_parsed(source@) == Ok::<_, (Seq<char>, Option<(usize, usize)>)>(v),
            Err((m, p)) => yaml_parsed(source@) == Err::<serde_yaml::Value, _>((m@, p)),
        },
{
    serde_yaml::from_str::<serde_yaml::Value>(source).map_err(
        |e| (e.to_string(), e.location().map(|at| (at.line(), at.column()))),
    )
}

/// `serde_yaml::Number::as_u64`, `as_i64` and `as_f64` tell the three kinds of a number apart. The
/// claim is that the result is the number's form.
#[verifier::external_body]
fn number_shape(n: &serde_yaml::Number) -> (r: Shape)
    ensures
        r@ == yaml_number(*n),
{
    match (n.as_u64(), n.as_i64()) {
        (Some(u), _) => Shape::Unsigned(u),
        (None, Some(i)) => Shape::Negative(i),
        (None, None) => Shape::Float {
            bits: n.as_f64().map_or(0, |x| x.to_bits()),
            numeral: n.to_string(),
        },
    }
}

/// What `serde_yaml::from_value` makes of a value as JSON: a tree, or a message.
pub uninterp spec fn yaml_converted(v: serde_yaml::Value) -> Result<JsonModel, Seq<char>>;

/// `serde_yaml::from_value` into a value of `serde_json`, the error as its text. The claim is that
/// the outcome is settled by the value.
#[verifier::external_body]
fn converted(v: &serde_yaml::Value) -> (r: Result<Json, String>)
    ensures
        match r {
            Ok(j) => yaml_converted(*v) == Ok::<_, Seq<char>>(j@),
            Err(m) => yaml_converted(*v) == Err::<JsonModel, _>(m@),
        },
{
    let json = serde_yaml::from_value::<serde_json::Value>(v.clone());
    json.map(|j| tree_of(&j)).map_err(|e| e.to_string())
}

/// Turns a value of `serde_yaml` into a tree, each node with what `serde_yaml::from_value` makes
/// of it as JSON. The claim is that the result is the value's tree.
#[verifier::external_body]
fn value_tree(v: &serde_yaml::Value) -> (r: Yaml)
    ensures
        r@ == yaml_tree(*v),
{
    let shape = match v {
        Value::Null => Shape::Null,
        Value::Bool(b) => Shape::Bool(*b),
        Value::Number(n) => number_shape(n),
        Value::String(s) => Shape::Text(s.clone()),
        Value::Sequence(s) => Shape::Sequence(s.iter().map(value_tree).collect()),
        Value::Mapping(m) => Shape::Mapping(
            m.iter().map(|(k, x)| (value_tree(k), value_tree(x))).collect(),
        ),
        Value::Tagged(t) => Shape::Tagged(Box::new(value_tree(&t.value))),
    };
    Yaml { shape, json: converted(v) }
}

/// `serde_json::to_value` on a value of `serde_yaml`, the error as its text. The claim is that the
/// outcome is settled by the value.
#[verifier::external_body]
fn to_json(v: &serde_yaml::Value) -> (r: Result<Json, String>)
    ensures
        match r {
            Ok(j) => yaml_as_json(*v) == Ok::<_, Seq<char>>(j@),
            Err(m) => yaml_as_json(*v) == Err::<JsonModel, _>(m@),
        },
{
    serde_json::to_value(v).map(|j| tree_of(&j)).map_err(|e| e.to_string())
}

/// Why a YAML text gives no JSON tree.
#[derive(Debug)]
pub enum PlainError {
    NotYaml(String),
    NotJson(String),
}

pub ghost enum PlainFault {
    NotYaml(Seq<char>),
    NotJson(Seq<char>),
}

impl PlainError {
    pub open spec fn view(self) -> PlainFault {
        match self {
            PlainError::NotYaml(m) => PlainFault::NotYaml(m@),
            PlainError::NotJson(m) => PlainFault::NotJson(m@),
        }
    }
}

/// The JSON tree that a YAML text stands for.
pub open spec fn plain_document(text: Seq<char>) -> Result<JsonModel, PlainFault> {
    match yaml_parsed(text) {
        Err((m, _)) => Err(PlainFault::NotYaml(m)),
        Ok(v) => match yaml_as_json(v) {
            Ok(j) => Ok(j),
            Err(m) => Err(PlainFault::NotJson(m)),
        },
    }
}

pub fn read_plain(source: &str) -> (r: Result<Json, PlainError>)
    ensures
        match (r, plain_document(source@)) {
            (Ok(j), Ok(k)) => j@ == k,
            (Err(e), Err(f)) => e@ == f,
            _ => false,
        },
{
    match read_value(source) {
        Ok(v) => match to_json(&v) {
            Ok(j) => Ok(j),
            Err(m) => Err(PlainError::NotJson(m)),
        },
        Err((m, _)) => Err(PlainError::NotYaml(m)),
    }
}

/// The document in `source`, or the reader's message with the place it names.
pub fn read_yaml(source: &str) -> (r: Result<Yaml, (String, Option<(usize, usize)>)>)
    ensures
        match r {
            Ok(y) => yaml_document(source@) == Ok::<_, (Seq<char>, Option<(usize, usize)>)>(y@),
            Err((m, p)) => yaml_document(source@) == Err::<YamlModel, _>((m@, p)),
        },
{
    match read_value(source) {
        Ok(v) => Ok(value_tree(&v)),
        Err(e) => Err(e),
    }
}

} // verus!
