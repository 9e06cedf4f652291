//! Reading the nodes of an opening.

use crate::json::{map_get, map_insert, map_remove, tree_bool, Json, JsonMap, JsonModel};
use crate::json::MapModel;
use crate::openings::locate::{locate_key, locate_pattern, place_of, place_of_key, SourceLocation};
use crate::openings::model::{fault_at, node_models, validation, Error, Fault, FragmentModel};
use crate::openings::model::{KindModel, Node, NodeKind, NodeModel, Retry, RetryModel};
use crate::openings::model::{SchemaHintFragment, SchemaHints};
use crate::openings::parser::{complains, count_field, expect_string_in, lemma_string_items_stops};
use crate::openings::parser::{object_field, parse_use, read_count, read_object, read_small};
use crate::openings::parser::{small_field, string_field, string_items, use_of};
use crate::openings::templates::{apply_param_templates, filled_map};
use crate::text::{concat, concat3, decimal, decimal_text, same, signed_decimal};
use crate::text::{signed_text, texts};
use crate::yaml::{entries_model, entry, items_model, opt_yaml, untagged, yaml_entries, yaml_get};
use crate::yaml::{yaml_items, yaml_text, EntryModels, Shape, ShapeModel, Yaml, YamlModel};
use vstd::prelude::*;

verus! {

/// The numeral of a number.
pub open spec fn numeral_of(y: YamlModel) -> Option<Seq<char>> {
    match untagged(y) {
        ShapeModel::Unsigned(n) => Some(decimal(n as nat)),
        ShapeModel::Negative(n) => Some(signed_decimal(n as int)),
        ShapeModel::Float { numeral, .. } => Some(numeral),
        _ => None,
    }
}

fn numeral(y: &Yaml) -> (r: Option<String>)
    ensures
        crate::text::opt_text(r) == numeral_of(y@),
{
    match y.untag() {
        Shape::Unsigned(n) => Some(decimal_text(*n)),
        Shape::Negative(n) => Some(signed_text(*n)),
        Shape::Float { numeral, .. } => Some(numeral.clone()),
        _ => None,
    }
}

/// The bit pattern of the binary64 number one.
pub const ONE_BITS: u64 = 0x3FF0000000000000;

/// The bit pattern of the binary64 number minus zero.
pub const MINUS_ZERO_BITS: u64 = 0x8000000000000000;

/// Whether a number lies between zero and one. Bit patterns of binary64 numbers without a sign
/// are ordered as the numbers are.
pub open spec fn within_unit(y: YamlModel) -> bool {
    match untagged(y) {
        ShapeModel::Unsigned(n) => n <= 1,
        ShapeModel::Negative(n) => 0 <= n <= 1,
        ShapeModel::Float { bits, .. } => bits <= ONE_BITS || bits == MINUS_ZERO_BITS,
        _ => false,
    }
}

fn in_unit(y: &Yaml) -> (r: bool)
    ensures
        r == within_unit(y@),
{
    match y.untag() {
        Shape::Unsigned(n) => *n <= 1,
        Shape::Negative(n) => 0 <= *n && *n <= 1,
        Shape::Float { bits, .. } => *bits <= ONE_BITS || *bits == MINUS_ZERO_BITS,
        _ => false,
    }
}

/// The retry rule of a node that gives none.
pub open spec fn no_retry() -> RetryModel {
    RetryModel {
        max_attempts: 0,
        initial_backoff_ms: 0,
        max_backoff_ms: None,
        multiplier: "0.0"@,
        jitter: "0.0"@,
    }
}

pub open spec fn jitter_of(m: EntryModels, place: (int, int)) -> Result<Seq<char>, Fault> {
    match yaml_get(m, "jitter"@) {
        None => Ok("0.2"@),
        Some(v) => match numeral_of(v) {
            None => Err(fault_at("retry.jitter must be a floating point number"@, place)),
            Some(t) => if within_unit(v) {
                Ok(t)
            } else {
                Err(fault_at("retry.jitter must be between 0.0 and 1.0"@, place))
            },
        },
    }
}

pub open spec fn multiplier_of(m: EntryModels, place: (int, int)) -> Result<Seq<char>, Fault> {
    match yaml_get(m, "multiplier"@) {
        None => Ok("2.0"@),
        Some(v) => match numeral_of(v) {
            None => Err(fault_at("retry.multiplier must be a floating point number"@, place)),
            Some(t) => Ok(t),
        },
    }
}

pub open spec fn first_set(a: Option<u64>, b: Option<u64>, or: u64) -> u64 {
    match a {
        Some(n) => n,
        None => match b {
            Some(n) => n,
            None => or,
        },
    }
}

/// The retry rule of a node. `initial_ms` wins over `backoff_ms`.
pub open spec fn retry_of(v: YamlModel, source: Seq<char>) -> Result<RetryModel, Fault> {
    let place = place_of_key(source, "retry"@);
    match yaml_entries(v) {
        None => Err(fault_at("retry must be a mapping"@, place)),
        Some(m) => match small_field(
            m,
            "max_attempts"@,
            "retry.max_attempts must be a non-negative integer"@,
            place,
        ) {
            Err(f) => Err(f),
            Ok(attempts) => match count_field(
                m,
                "backoff_ms"@,
                "retry.backoff_ms must be a non-negative integer"@,
                place,
            ) {
                Err(f) => Err(f),
                Ok(backoff) => match count_field(
                    m,
                    "initial_ms"@,
                    "retry.initial_ms must be a non-negative integer"@,
                    place,
                ) {
                    Err(f) => Err(f),
                    Ok(initial) => match count_field(
                        m,
                        "max_ms"@,
                        "retry.max_ms must be a non-negative integer"@,
                        place,
                    ) {
                        Err(f) => Err(f),
                        Ok(max_backoff_ms) => match multiplier_of(m, place) {
                            Err(f) => Err(f),
                            Ok(multiplier) => match jitter_of(m, place) {
                                Err(f) => Err(f),
                                Ok(jitter) => Ok(
                                    RetryModel {
                                        max_attempts: match attempts {
                                            Some(n) => n,
                                            None => 0,
                                        },
                                        initial_backoff_ms: first_set(initial, backoff, 100),
                                        max_backoff_ms,
                                        multiplier,
                                        jitter,
                                    },
                                ),
                            },
                        },
                    },
                },
            },
        },
    }
}

fn parse_retry(v: &Yaml, source: &str) -> (r: Result<Retry, Error>)
    ensures
        match (r, retry_of(v@, source@)) {
            (Ok(x), Ok(y)) => x@ == y,
            (Err(e), Err(f)) => complains(e, f),
            _ => false,
        },
{
    let loc = locate_key(source, "retry");
    let m = match v.as_entries() {
        None => {
            return Err(validation("retry must be a mapping".to_owned(), loc));
        },
        Some(m) => m,
    };
    let max_attempts: u32 = match read_small(
        m,
        "max_attempts",
        "retry.max_attempts must be a non-negative integer",
        loc,
    ) {
        Err(e) => {
            return Err(e);
        },
        Ok(Some(n)) => n,
        Ok(None) => 0,
    };
    let backoff = match read_count(
        m,
        "backoff_ms",
        "retry.backoff_ms must be a non-negative integer",
        loc,
    ) {
        Err(e) => {
            return Err(e);
        },
        Ok(x) => x,
    };
    let initial = match read_count(
        m,
        "initial_ms",
        "retry.initial_ms must be a non-negative integer",
        loc,
    ) {
        Err(e) => {
            return Err(e);
        },
        Ok(x) => x,
    };
    let max_backoff_ms = match read_count(
        m,
        "max_ms",
        "retry.max_ms must be a non-negative integer",
        loc,
    ) {
        Err(e) => {
            return Err(e);
        },
        Ok(x) => x,
    };
    let multiplier = match entry(m, "multiplier") {
        None => "2.0".to_owned(),
        Some(v) => match numeral(v) {
            Some(t) => t,
            None => {
                return Err(
                    validation("retry.multiplier must be a floating point number".to_owned(), loc),
                );
            },
        },
    };
    let jitter = match entry(m, "jitter") {
        None => "0.2".to_owned(),
        Some(v) => match numeral(v) {
            Some(t) => {
                if !in_unit(v) {
                    return Err(
                        validation("retry.jitter must be between 0.0 and 1.0".to_owned(), loc),
                    );
                }
                t
            },
            None => {
                return Err(
                    validation("retry.jitter must be a floating point number".to_owned(), loc),
                );
            },
        },
    };
    let initial_backoff_ms: u64 = match initial {
        Some(n) => n,
        None => match backoff {
            Some(n) => n,
            None => 100,
        },
    };
    Ok(Retry { max_attempts, initial_backoff_ms, max_backoff_ms, multiplier, jitter })
}

/// The keys by which a mapping is taken for a JSON Schema.
pub open spec fn is_schema_key(k: Seq<char>) -> bool {
    ||| k == "type"@
    ||| k == "$schema"@
    ||| k == "properties"@
    ||| k == "required"@
    ||| k == "allOf"@
    ||| k == "anyOf"@
    ||| k == "oneOf"@
    ||| k == "not"@
    ||| k == "items"@
    ||| k == "const"@
    ||| k == "$defs"@
    ||| k == "definitions"@
    ||| k == "$ref"@
}

fn schema_key(k: &str) -> (r: bool)
    ensures
        r == is_schema_key(k@),
{
    same(k, "type") || same(k, "$schema") || same(k, "properties") || same(k, "required") || same(
        k,
        "allOf",
    ) || same(k, "anyOf") || same(k, "oneOf") || same(k, "not") || same(k, "items") || same(
        k,
        "const",
    ) || same(k, "$defs") || same(k, "definitions") || same(k, "$ref")
}

pub open spec fn has_schema_key(y: YamlModel) -> bool {
    match yaml_text(y) {
        Some(k) => is_schema_key(k),
        None => false,
    }
}

pub open spec fn looks_like_schema(m: EntryModels) -> bool {
    exists|i: int| 0 <= i < m.len() && has_schema_key((#[trigger] m[i]).0)
}

fn is_schema_like(m: &Vec<(Yaml, Yaml)>) -> (r: bool)
    ensures
        r == looks_like_schema(entries_model(m@)),
{
    let ghost all = entries_model(m@);
    let mut i: usize = 0;
    while i < m.len()
        invariant
            i <= m.len(),
            all == entries_model(m@),
            forall|j: int| 0 <= j < i ==> !has_schema_key((#[trigger] all[j]).0),
        decreases m.len() - i,
    {
        assert(all[i as int].0 == m@[i as int].0@);
        if let Some(k) = m[i].0.as_text() {
            if schema_key(k.as_str()) {
                assert(has_schema_key(all[i as int].0));
                return true;
            }
        }
        i += 1;
    }
    false
}

/// The hints for the first `n` properties.
pub open spec fn hint_fields(m: EntryModels, n: int, place: (int, int)) -> Result<MapModel, Fault>
    decreases n,
{
    if n <= 0 {
        Ok(seq![])
    } else {
        match hint_fields(m, n - 1, place) {
            Err(f) => Err(f),
            Ok(done) => match yaml_text(m[n - 1].0) {
                None => Err(fault_at("schema_hints.with keys must be strings"@, place)),
                Some(key) => match m[n - 1].1.json {
                    Ok(value) => Ok(map_insert(done, key, value)),
                    Err(why) => Err(
                        fault_at("invalid schema hint for '"@ + key + "': "@ + why, place),
                    ),
                },
            },
        }
    }
}

proof fn lemma_hint_fields_stops(m: EntryModels, n: int, k: int, place: (int, int))
    requires
        0 <= n <= k,
        hint_fields(m, n, place) is Err,
    ensures
        hint_fields(m, k, place) == hint_fields(m, n, place),
    decreases k - n,
{
    if n < k {
        lemma_hint_fields_stops(m, n, k - 1, place);
    }
}

pub open spec fn raw_hint(v: YamlModel, complaint: Seq<char>, place: (int, int)) -> Result<
    FragmentModel,
    Fault,
> {
    match v.json {
        Ok(j) => Ok(FragmentModel::Raw(j)),
        Err(why) => Err(fault_at(complaint + why, place)),
    }
}

/// A hint for a node's inputs: a schema as it stands, or one fragment for each property.
pub open spec fn hint_of(v: YamlModel, place: (int, int)) -> Result<FragmentModel, Fault> {
    match yaml_entries(v) {
        Some(m) => if looks_like_schema(m) {
            raw_hint(v, "invalid schema_hints.with entry: "@, place)
        } else {
            match hint_fields(m, m.len() as int, place) {
                Ok(props) => Ok(FragmentModel::Properties(props)),
                Err(f) => Err(f),
            }
        },
        None => raw_hint(v, "invalid schema_hints.with value: "@, place),
    }
}

fn take_raw(v: &Yaml, complaint: &str, loc: SourceLocation) -> (r: Result<SchemaHintFragment, Error>)
    ensures
        match (r, raw_hint(v@, complaint@, loc.at())) {
            (Ok(x), Ok(y)) => x@ == y,
            (Err(e), Err(f)) => complains(e, f),
            _ => false,
        },
{
    match &v.json {
        Ok(j) => Ok(SchemaHintFragment::Raw(j.clone())),
        Err(why) => Err(validation(concat(complaint, why.as_str()), loc)),
    }
}

fn parse_with_hint_fragment(v: &Yaml, loc: SourceLocation) -> (r: Result<SchemaHintFragment, Error>)
    ensures
        match (r, hint_of(v@, loc.at())) {
            (Ok(x), Ok(y)) => x@ == y,
            (Err(e), Err(f)) => complains(e, f),
            _ => false,
        },
{
    let m = match v.as_entries() {
        None => {
            return take_raw(v, "invalid schema_hints.with value: ", loc);
        },
        Some(m) => m,
    };
    if is_schema_like(m) {
        return take_raw(v, "invalid schema_hints.with entry: ", loc);
    }
    let ghost all = entries_model(m@);
    let mut out = JsonMap::new();
    let mut i: usize = 0;
    while i < m.len()
        invariant
            i <= m.len(),
            all == entries_model(m@),
            yaml_entries(v@) == Some(all),
            !looks_like_schema(all),
            hint_fields(all, i as int, loc.at()) == Ok::<_, Fault>(out@),
        decreases m.len() - i,
    {
        assert(all[i as int] == (m@[i as int].0@, m@[i as int].1@));
        proof {
            if hint_fields(all, i + 1, loc.at()) is Err {
                lemma_hint_fields_stops(all, i + 1, all.len() as int, loc.at());
            }
        }
        let key = match m[i].0.as_text() {
            None => {
                return Err(
                    validation("schema_hints.with keys must be strings".to_owned(), loc),
                );
            },
            Some(key) => key,
        };
        match &m[i].1.json {
            Ok(value) => {
                out.insert(key.clone(), value.clone());
            },
            Err(why) => {
                let mut message = concat3("invalid schema hint for '", key.as_str(), "': ");
                message.append(why.as_str());
                return Err(validation(message, loc));
            },
        }
        i += 1;
    }
    Ok(SchemaHintFragment::Properties(out))
}

pub open spec fn hints_of(value: Option<YamlModel>, source: Seq<char>) -> Result<
    Option<FragmentModel>,
    Fault,
> {
    match value {
        None => Ok(None),
        Some(v) => match yaml_entries(v) {
            None => Err(
                fault_at("schema_hints must be a mapping"@, place_of_key(source, "schema_hints"@)),
            ),
            Some(m) => match yaml_get(m, "with"@) {
                None => Ok(None),
                Some(w) => match hint_of(w, place_of_key(source, "with"@)) {
                    Ok(h) => Ok(Some(h)),
                    Err(f) => Err(f),
                },
            },
        },
    }
}

fn parse_schema_hints(value: Option<&Yaml>, source: &str) -> (r: Result<SchemaHints, Error>)
    ensures
        match (r, hints_of(opt_yaml(value), source@)) {
            (Ok(x), Ok(y)) => x@ == y,
            (Err(e), Err(f)) => complains(e, f),
            _ => false,
        },
{
    match value {
        None => Ok(SchemaHints { with: None }),
        Some(v) => match v.as_entries() {
            None => Err(
                validation(
                    "schema_hints must be a mapping".to_owned(),
                    locate_key(source, "schema_hints"),
                ),
            ),
            Some(m) => match entry(m, "with") {
                None => Ok(SchemaHints { with: None }),
                Some(w) => match parse_with_hint_fragment(w, locate_key(source, "with")) {
                    Ok(h) => Ok(SchemaHints { with: Some(h) }),
                    Err(e) => Err(e),
                },
            },
        },
    }
}

/// Whether a property's fragment marks it as required.
pub open spec fn marked_required(fragment: JsonModel) -> bool {
    match fragment {
        JsonModel::Object(m) => tree_bool(map_get(m, "required"@)) == Some(true),
        _ => false,
    }
}

/// A property's fragment without the mark.
pub open spec fn unmarked(fragment: JsonModel) -> JsonModel {
    match fragment {
        JsonModel::Object(m) => JsonModel::Object(map_remove(m, "required"@)),
        other => other,
    }
}

/// The first `n` properties without their marks, and the names of those that are required.
pub open spec fn split_hints(props: MapModel, n: int) -> (MapModel, Seq<JsonModel>)
    decreases n,
{
    if n <= 0 {
        (seq![], seq![])
    } else {
        let (clean, required) = split_hints(props, n - 1);
        let (name, fragment) = props[n - 1];
        (
            map_insert(clean, name, unmarked(fragment)),
            if marked_required(fragment) {
                required.push(JsonModel::Text(name))
            } else {
                required
            },
        )
    }
}

/// The JSON Schema that fragments for the properties stand for.
pub open spec fn hint_schema(props: MapModel) -> JsonModel {
    let (clean, required) = split_hints(props, props.len() as int);
    let base = map_insert(
        map_insert(seq![], "type"@, JsonModel::Text("object"@)),
        "properties"@,
        JsonModel::Object(clean),
    );
    JsonModel::Object(
        if required.len() > 0 {
            map_insert(base, "required"@, JsonModel::Array(required))
        } else {
            base
        },
    )
}

fn build_hint_schema(props: &JsonMap) -> (r: Json)
    ensures
        r@ == hint_schema(props@),
{
    let mut required: Vec<Json> = Vec::new();
    let mut clean = JsonMap::new();
    let mut i: usize = 0;
    assert(crate::json::list_model(required@) =~= seq![]);
    while i < props.entries.len()
        invariant
            i <= props.entries.len(),
            split_hints(props@, i as int) == (clean@, crate::json::list_model(required@)),
        decreases props.entries.len() - i,
    {
        assert(props@[i as int] == (props.entries@[i as int].0@, props.entries@[i as int].1@));
        let name = props.entries[i].0.clone();
        let mut is_required = false;
        let cleaned = match &props.entries[i].1 {
            Json::Object(obj) => {
                let mut obj = obj.clone();
                let flag = obj.remove("required");
                match &flag {
                    Some(Json::Bool(b)) => {
                        is_required = *b;
                    },
                    _ => {},
                }
                Json::Object(obj)
            },
            other => other.clone(),
        };
        if is_required {
            let ghost o = required@;
            let item = Json::Text(name.clone());
            required.push(item);
            assert(crate::json::list_model(required@) =~= crate::json::list_model(o).push(item@));
        }
        clean.insert(name, cleaned);
        i += 1;
    }
    let mut schema = JsonMap::new();
    schema.insert("type".to_owned(), Json::Text("object".to_owned()));
    schema.insert("properties".to_owned(), Json::Object(clean));
    if required.len() > 0 {
        schema.insert("required".to_owned(), Json::Array(required));
    }
    Json::Object(schema)
}

impl SchemaHints {
    /// The hint as a JSON Schema.
    pub open spec fn schema(self) -> Option<JsonModel> {
        match self@ {
            Some(FragmentModel::Raw(j)) => Some(j),
            Some(FragmentModel::Properties(props)) => Some(hint_schema(props)),
            None => None,
        }
    }

    pub fn with_schema(&self) -> (r: Option<Json>)
        ensures
            match r {
                Some(j) => self.schema() == Some(j@),
                None => self.schema() is None,
            },
    {
        match &self.with {
            Some(SchemaHintFragment::Raw(j)) => Some(j.clone()),
            Some(SchemaHintFragment::Properties(props)) => Some(build_hint_schema(props)),
            None => None,
        }
    }
}

pub open spec fn tag_complaint() -> spec_fn(int) -> Seq<char> {
    |i: int| "tags entries must be strings"@
}

pub open spec fn tags_of(value: Option<YamlModel>, source: Seq<char>) -> Result<
    Seq<Seq<char>>,
    Fault,
> {
    let place = place_of_key(source, "tags"@);
    match value {
        None => Ok(seq![]),
        Some(v) => match yaml_items(v) {
            None => Err(fault_at("tags must be a sequence of strings"@, place)),
            Some(items) => string_items(items, items.len() as int, tag_complaint(), place),
        },
    }
}

fn parse_tags(value: Option<&Yaml>, source: &str) -> (r: Result<Vec<String>, Error>)
    ensures
        match (r, tags_of(opt_yaml(value), source@)) {
            (Ok(x), Ok(y)) => texts(x@) == y,
            (Err(e), Err(f)) => complains(e, f),
            _ => false,
        },
{
    let mut out: Vec<String> = Vec::new();
    assert(texts(out@) =~= seq![]);
    let v = match value {
        None => {
            return Ok(out);
        },
        Some(v) => v,
    };
    let loc = locate_key(source, "tags");
    let items = match v.as_items() {
        None => {
            return Err(validation("tags must be a sequence of strings".to_owned(), loc));
        },
        Some(items) => items,
    };
    let ghost all = items_model(items@);
    let ghost c = tag_complaint();
    let mut i: usize = 0;
    while i < items.len()
        invariant
            i <= items.len(),
            all == items_model(items@),
            c == tag_complaint(),
            string_items(all, i as int, c, loc.at()) == Ok::<_, Fault>(texts(out@)),
            opt_yaml(value) == Some(v@),
            yaml_items(v@) == Some(all),
            loc.at() == place_of_key(source@, "tags"@),
        decreases items.len() - i,
    {
        assert(all[i as int] == items@[i as int]@);
        match items[i].as_text() {
            Some(t) => {
                let ghost o = out@;
                out.push(t.clone());
                assert(texts(out@) =~= texts(o).push(t@));
            },
            None => {
                proof {
                    lemma_string_items_stops(all, i + 1, all.len() as int, c, loc.at());
                }
                return Err(validation("tags entries must be strings".to_owned(), loc));
            },
        }
        i += 1;
    }
    Ok(out)
}

/// The place of a node: of its identifier, or of the list of nodes where it has none.
pub open spec fn node_place(source: Seq<char>, y: YamlModel) -> (int, int) {
    match yaml_entries(y) {
        Some(m) => match yaml_get(m, "id"@) {
            Some(v) => match yaml_text(v) {
                Some(id) => place_of(source, "id: "@ + id),
                None => place_of_key(source, "nodes"@),
            },
            None => place_of_key(source, "nodes"@),
        },
        None => place_of_key(source, "nodes"@),
    }
}

fn locate_node(source: &str, y: &Yaml) -> (r: SourceLocation)
    ensures
        r.at() == node_place(source@, y@),
{
    if let Some(m) = y.as_entries() {
        if let Some(v) = entry(m, "id") {
            if let Some(id) = v.as_text() {
                let pattern = concat("id: ", id.as_str());
                return locate_pattern(source, pattern.as_str());
            }
        }
    }
    locate_key(source, "nodes")
}

/// Whether a mailer node switches off a confirmation that the policy demands.
pub open spec fn dodges_confirmation(kind: KindModel, with: MapModel) -> bool {
    match kind {
        KindModel::Agent(r) => r.name == "mailer"@ && map_get(with, "require_human_confirm"@)
            == Some(JsonModel::Bool(false)),
        KindModel::Opening(_) => false,
    }
}

fn skips_confirmation(kind: &NodeKind, with: &JsonMap) -> (r: bool)
    ensures
        r == dodges_confirmation(kind@, with@),
{
    match kind {
        NodeKind::Agent { reference } => same(reference.name.as_str(), "mailer") && match with.get(
            "require_human_confirm",
        ) {
            Some(Json::Bool(b)) => !*b,
            _ => false,
        },
        NodeKind::Opening { .. } => false,
    }
}

pub ghost struct NodeLimits {
    pub retry: RetryModel,
    pub timeout_ms: Option<u64>,
    pub budget_tokens: Option<u32>,
    pub tags: Seq<Seq<char>>,
}

/// The rules for the attempts at a node, and its tags.
pub open spec fn limits_of(m: EntryModels, source: Seq<char>) -> Result<NodeLimits, Fault> {
    let retry = match yaml_get(m, "retry"@) {
        None => Ok(no_retry()),
        Some(v) => retry_of(v, source),
    };
    match retry {
        Err(f) => Err(f),
        Ok(retry) => match count_field(
            m,
            "timeout_ms"@,
            "timeout_ms must be a non-negative integer"@,
            place_of_key(source, "timeout_ms"@),
        ) {
            Err(f) => Err(f),
            Ok(timeout_ms) => match small_field(
                m,
                "budget_tokens"@,
                "budget_tokens must be a non-negative integer"@,
                place_of_key(source, "budget_tokens"@),
            ) {
                Err(f) => Err(f),
                Ok(budget_tokens) => match tags_of(yaml_get(m, "tags"@), source) {
                    Err(f) => Err(f),
                    Ok(tags) => Ok(NodeLimits { retry, timeout_ms, budget_tokens, tags }),
                },
            },
        },
    }
}

fn parse_limits(m: &Vec<(Yaml, Yaml)>, source: &str) -> (r: Result<
    (Retry, Option<u64>, Option<u32>, Vec<String>),
    Error,
>)
    ensures
        match (r, limits_of(entries_model(m@), source@)) {
            (Ok(x), Ok(y)) => x.0@ == y.retry && x.1 == y.timeout_ms && x.2 == y.budget_tokens
                && texts(x.3@) == y.tags,
            (Err(e), Err(f)) => complains(e, f),
            _ => false,
        },
{
    let retry = match entry(m, "retry") {
        None => Retry {
            max_attempts: 0,
            initial_backoff_ms: 0,
            max_backoff_ms: None,
            multiplier: "0.0".to_owned(),
            jitter: "0.0".to_owned(),
        },
        Some(v) => match parse_retry(v, source) {
            Err(e) => {
                return Err(e);
            },
            Ok(x) => x,
        },
    };
    let timeout_ms = match read_count(
        m,
        "timeout_ms",
        "timeout_ms must be a non-negative integer",
        locate_key(source, "timeout_ms"),
    ) {
        Err(e) => {
            return Err(e);
        },
        Ok(x) => x,
    };
    let budget_tokens = match read_small(
        m,
        "budget_tokens",
        "budget_tokens must be a non-negative integer",
        locate_key(source, "budget_tokens"),
    ) {
        Err(e) => {
            return Err(e);
        },
        Ok(x) => x,
    };
    match parse_tags(entry(m, "tags"), source) {
        Err(e) => Err(e),
        Ok(tags) => Ok((retry, timeout_ms, budget_tokens, tags)),
    }
}

pub ghost struct NodeInputsModel {
    pub kind: KindModel,
    pub with: MapModel,
    pub schema_hints: Option<FragmentModel>,
}

/// What a node runs and what it is given.
pub open spec fn work_of(
    m: EntryModels,
    place: (int, int),
    source: Seq<char>,
    params: MapModel,
    confirm: bool,
) -> Result<NodeInputsModel, Fault> {
    match string_field(m, "use"@, source) {
        Err(f) => Err(f),
        Ok(raw) => match use_of(raw, source, place) {
            Err(f) => Err(f),
            Ok(kind) => match object_field(m, "with"@, "node.with must be a mapping"@, source) {
                Err(f) => Err(f),
                Ok(written) => match filled_map(written, params) {
                    (_, Some(c)) => Err(fault_at(c, place_of_key(source, "with"@))),
                    (with, None) => match hints_of(yaml_get(m, "schema_hints"@), source) {
                        Err(f) => Err(f),
                        Ok(schema_hints) => if confirm && dodges_confirmation(kind, with) {
                            Err(
                                fault_at(
                                    "policy.confirm_external=true forbids nodes from disabling confirmation"@,
                                    place_of_key(source, "with"@),
                                ),
                            )
                        } else {
                            Ok(NodeInputsModel { kind, with, schema_hints })
                        },
                    },
                },
            },
        },
    }
}

fn parse_work(
    m: &Vec<(Yaml, Yaml)>,
    loc: SourceLocation,
    source: &str,
    params: &JsonMap,
    confirm: bool,
) -> (r: Result<(NodeKind, JsonMap, SchemaHints), Error>)
    ensures
        match (r, work_of(entries_model(m@), loc.at(), source@, params@, confirm)) {
            (Ok(x), Ok(y)) => x.0@ == y.kind && x.1@ == y.with && x.2@ == y.schema_hints,
            (Err(e), Err(f)) => complains(e, f),
            _ => false,
        },
{
    let raw = match expect_string_in(m, "use", source) {
        Err(e) => {
            return Err(e);
        },
        Ok(x) => x,
    };
    let kind = match parse_use(raw.as_str(), source, loc) {
        Err(e) => {
            return Err(e);
        },
        Ok(x) => x,
    };
    let mut with = match read_object(m, "with", "node.with must be a mapping", source) {
        Err(e) => {
            return Err(e);
        },
        Ok(x) => x,
    };
    match apply_param_templates(&mut with, params, locate_key(source, "with")) {
        Err(e) => {
            return Err(e);
        },
        Ok(_) => {},
    }
    let schema_hints = match parse_schema_hints(entry(m, "schema_hints"), source) {
        Err(e) => {
            return Err(e);
        },
        Ok(x) => x,
    };
    if confirm && skips_confirmation(&kind, &with) {
        return Err(
            validation(
                "policy.confirm_external=true forbids nodes from disabling confirmation".to_owned(),
                locate_key(source, "with"),
            ),
        );
    }
    Ok((kind, with, schema_hints))
}

/// `indexmap::IndexSet`, a set that keeps the order in which things came; nothing of its inside is
/// seen.
#[verifier::external_type_specification]
#[verifier::external_body]
#[verifier::reject_recursive_types(T)]
#[verifier::reject_recursive_types(S)]
pub struct ExIndexSet<T, S>(indexmap::IndexSet<T, S>);

/// What a set holds, in the order in which it came.
pub uninterp spec fn set_items(s: indexmap::IndexSet<String>) -> Seq<Seq<char>>;

/// `indexmap::IndexSet::new` makes an empty set.
#[verifier::external_body]
fn set_new() -> (r: indexmap::IndexSet<String>)
    ensures
        set_items(r) == Seq::<Seq<char>>::empty(),
{
    indexmap::IndexSet::new()
}

/// `indexmap::IndexSet::insert` puts what is new at the end and tells whether it was.
#[verifier::external_body]
fn set_insert(s: &mut indexmap::IndexSet<String>, item: String) -> (r: bool)
    ensures
        r == !set_items(*old(s)).contains(item@),
        set_items(*final(s)) == if r {
            set_items(*old(s)).push(item@)
        } else {
            set_items(*old(s))
        },
{
    s.insert(item)
}

/// One node; `seen` holds the identifiers of the nodes before it.
pub open spec fn node_of(
    y: YamlModel,
    seen: Seq<Seq<char>>,
    source: Seq<char>,
    params: MapModel,
    confirm: bool,
) -> Result<NodeModel, Fault> {
    let place = node_place(source, y);
    match yaml_entries(y) {
        None => Err(fault_at("node entry must be a mapping"@, place)),
        Some(m) => match string_field(m, "id"@, source) {
            Err(f) => Err(f),
            Ok(id) => if seen.contains(id) {
                Err(fault_at("duplicate node id '"@ + id + "'"@, place))
            } else {
                match work_of(m, place, source, params, confirm) {
                    Err(f) => Err(f),
                    Ok(w) => match limits_of(m, source) {
                        Err(f) => Err(f),
                        Ok(l) => Ok(
                            NodeModel {
                                id,
                                kind: w.kind,
                                with: w.with,
                                schema_hints: w.schema_hints,
                                retry: l.retry,
                                timeout_ms: l.timeout_ms,
                                budget_tokens: l.budget_tokens,
                                tags: l.tags,
                                location: place,
                            },
                        ),
                    },
                }
            },
        },
    }
}

fn parse_node(
    y: &Yaml,
    seen: &mut indexmap::IndexSet<String>,
    source: &str,
    params: &JsonMap,
    confirm: bool,
) -> (r: Result<Node, Error>)
    ensures
        r matches Ok(x) ==> set_items(*final(seen)) == set_items(*old(seen)).push(x@.id),
        match (r, node_of(y@, set_items(*old(seen)), source@, params@, confirm)) {
            (Ok(x), Ok(n)) => x@ == n,
            (Err(e), Err(f)) => complains(e, f),
            _ => false,
        },
{
    let location = locate_node(source, y);
    let m = match y.as_entries() {
        None => {
            return Err(validation("node entry must be a mapping".to_owned(), location));
        },
        Some(m) => m,
    };
    let id = match expect_string_in(m, "id", source) {
        Err(e) => {
            return Err(e);
        },
        Ok(x) => x,
    };
    let fresh = set_insert(seen, id.clone());
    if !fresh {
        return Err(validation(concat3("duplicate node id '", id.as_str(), "'"), location));
    }
    let (kind, with, schema_hints) = match parse_work(m, location, source, params, confirm) {
        Err(e) => {
            return Err(e);
        },
        Ok(x) => x,
    };
    let (retry, timeout_ms, budget_tokens, tags) = match parse_limits(m, source) {
        Err(e) => {
            return Err(e);
        },
        Ok(x) => x,
    };
    Ok(
        Node {
            id,
            kind,
            with,
            schema_hints,
            retry,
            timeout_ms,
            budget_tokens,
            tags,
            location,
        },
    )
}

pub open spec fn ids(nodes: Seq<NodeModel>) -> Seq<Seq<char>> {
    nodes.map_values(|n: NodeModel| n.id)
}

/// The first `n` nodes.
pub open spec fn nodes_upto(
    items: Seq<YamlModel>,
    n: int,
    source: Seq<char>,
    params: MapModel,
    confirm: bool,
) -> Result<Seq<NodeModel>, Fault>
    decreases n,
{
    if n <= 0 {
        Ok(seq![])
    } else {
        match nodes_upto(items, n - 1, source, params, confirm) {
            Err(f) => Err(f),
            Ok(done) => match node_of(items[n - 1], ids(done), source, params, confirm) {
                Err(f) => Err(f),
                Ok(node) => Ok(done.push(node)),
            },
        }
    }
}

proof fn lemma_nodes_stops(
    items: Seq<YamlModel>,
    n: int,
    k: int,
    source: Seq<char>,
    params: MapModel,
    confirm: bool,
)
    requires
        0 <= n <= k,
        nodes_upto(items, n, source, params, confirm) is Err,
    ensures
        nodes_upto(items, k, source, params, confirm) == nodes_upto(
            items,
            n,
            source,
            params,
            confirm,
        ),
    decreases k - n,
{
    if n < k {
        lemma_nodes_stops(items, n, k - 1, source, params, confirm);
    }
}

pub open spec fn nodes_of(v: YamlModel, source: Seq<char>, params: MapModel, confirm: bool) -> Result<
    Seq<NodeModel>,
    Fault,
> {
    let place = place_of_key(source, "nodes"@);
    match yaml_items(v) {
        None => Err(fault_at("nodes must be a sequence"@, place)),
        Some(items) => if items.len() == 0 {
            Err(fault_at("nodes must contain at least one entry"@, place))
        } else {
            nodes_upto(items, items.len() as int, source, params, confirm)
        },
    }
}

pub(crate) fn parse_nodes(v: &Yaml, source: &str, params: &JsonMap, confirm: bool) -> (r: Result<
    Vec<Node>,
    Error,
>)
    ensures
        match (r, nodes_of(v@, source@, params@, confirm)) {
            (Ok(x), Ok(y)) => node_models(x@) == y,
            (Err(e), Err(f)) => complains(e, f),
            _ => false,
        },
{
    let loc = locate_key(source, "nodes");
    let items = match v.as_items() {
        None => {
            return Err(validation("nodes must be a sequence".to_owned(), loc));
        },
        Some(items) => items,
    };
    if items.len() == 0 {
        return Err(validation("nodes must contain at least one entry".to_owned(), loc));
    }
    let ghost all = items_model(items@);
    let mut seen = set_new();
    let mut nodes: Vec<Node> = Vec::new();
    let mut i: usize = 0;
    assert(node_models(nodes@) =~= seq![]);
    assert(set_items(seen) =~= ids(node_models(nodes@)));
    while i < items.len()
        invariant
            i <= items.len(),
            all == items_model(items@),
            yaml_items(v@) == Some(all),
            items@.len() > 0,
            set_items(seen) == ids(node_models(nodes@)),
            nodes_upto(all, i as int, source@, params@, confirm) == Ok::<_, Fault>(
                node_models(nodes@),
            ),
        decreases items.len() - i,
    {
        assert(all[i as int] == items@[i as int]@);
        match parse_node(&items[i], &mut seen, source, params, confirm) {
            Err(e) => {
                proof {
                    lemma_nodes_stops(all, i + 1, all.len() as int, source@, params@, confirm);
                }
                return Err(e);
            },
            Ok(node) => {
                let ghost o = nodes@;
                nodes.push(node);
                assert(node_models(nodes@) =~= node_models(o).push(node@));
                assert(ids(node_models(nodes@)) =~= ids(node_models(o)).push(node@.id));
            },
        }
        i += 1;
    }
    Ok(nodes)
}

/// The nodes that are read have different identifiers.
pub proof fn lemma_nodes_distinct(
    items: Seq<YamlModel>,
    n: int,
    source: Seq<char>,
    params: MapModel,
    confirm: bool,
)
    requires
        nodes_upto(items, n, source, params, confirm) is Ok,
    ensures
        ids(nodes_upto(items, n, source, params, confirm)->Ok_0).no_duplicates(),
        n >= 0 ==> nodes_upto(items, n, source, params, confirm)->Ok_0.len() == n,
    decreases n,
{
    if n > 0 {
        lemma_nodes_distinct(items, n - 1, source, params, confirm);
        let done = nodes_upto(items, n - 1, source, params, confirm)->Ok_0;
        let all = nodes_upto(items, n, source, params, confirm)->Ok_0;
        let node = all.last();
        assert(ids(all) =~= ids(done).push(node.id));
        assert(!ids(done).contains(node.id));
    }
}

} // verus!
