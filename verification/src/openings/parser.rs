//! Reading an opening from its YAML source.

use crate::agents::{AgentRef, AgentRefModel};
use crate::json::{map_insert, JsonMap, MapModel};
use crate::openings::locate::{locate_key, locate_pattern, place_of, place_of_key, SourceLocation};
use crate::openings::model::fault_at;
use crate::openings::model::validation;
use crate::openings::model::{Error, Fault};
use crate::openings::model::{KindModel, NodeKind, Opening};
use crate::openings::model::Policy;
use crate::text::{all_name_chars, concat, concat3, contains_char, decimal, decimal_text, has_char};
use crate::text::same;
use crate::text::{split_at_first, split_once, texts, trim, trimmed, valid_identifier};
use crate::yaml::{entries_model, entry, items_model, opt_yaml, yaml_bool};
use crate::yaml::{yaml_entries, yaml_get, yaml_items, yaml_small, yaml_text};
use crate::yaml::{yaml_unsigned, EntryModels, Yaml, YamlModel};
use vstd::prelude::*;

verus! {

/// Whether an error is the complaint `f`.
pub open spec fn complains(e: Error, f: Fault) -> bool {
    e is Validation && e.fault() == f
}

pub open spec fn small_field(m: EntryModels, key: Seq<char>, complaint: Seq<char>, place: (int, int)) -> Result<
    Option<u32>,
    Fault,
> {
    match yaml_get(m, key) {
        None => Ok(None),
        Some(v) => match yaml_small(v) {
            Some(n) => Ok(Some(n)),
            None => Err(fault_at(complaint, place)),
        },
    }
}

pub(crate) fn read_small(m: &Vec<(Yaml, Yaml)>, key: &str, complaint: &str, loc: SourceLocation) -> (r: Result<
    Option<u32>,
    Error,
>)
    ensures
        match (r, small_field(entries_model(m@), key@, complaint@, loc.at())) {
            (Ok(x), Ok(y)) => x == y,
            (Err(e), Err(f)) => complains(e, f),
            _ => false,
        },
{
    match entry(m, key) {
        None => Ok(None),
        Some(v) => match v.as_small() {
            Some(n) => Ok(Some(n)),
            None => Err(validation(complaint.to_owned(), loc)),
        },
    }
}

pub open spec fn count_field(m: EntryModels, key: Seq<char>, complaint: Seq<char>, place: (int, int)) -> Result<
    Option<u64>,
    Fault,
> {
    match yaml_get(m, key) {
        None => Ok(None),
        Some(v) => match yaml_unsigned(v) {
            Some(n) => Ok(Some(n)),
            None => Err(fault_at(complaint, place)),
        },
    }
}

pub(crate) fn read_count(m: &Vec<(Yaml, Yaml)>, key: &str, complaint: &str, loc: SourceLocation) -> (r: Result<
    Option<u64>,
    Error,
>)
    ensures
        match (r, count_field(entries_model(m@), key@, complaint@, loc.at())) {
            (Ok(x), Ok(y)) => x == y,
            (Err(e), Err(f)) => complains(e, f),
            _ => false,
        },
{
    match entry(m, key) {
        None => Ok(None),
        Some(v) => match v.as_unsigned() {
            Some(n) => Ok(Some(n)),
            None => Err(validation(complaint.to_owned(), loc)),
        },
    }
}

pub open spec fn flag_field(m: EntryModels, key: Seq<char>, complaint: Seq<char>, place: (int, int)) -> Result<
    Option<bool>,
    Fault,
> {
    match yaml_get(m, key) {
        None => Ok(None),
        Some(v) => match yaml_bool(v) {
            Some(b) => Ok(Some(b)),
            None => Err(fault_at(complaint, place)),
        },
    }
}

pub(crate) fn read_flag(m: &Vec<(Yaml, Yaml)>, key: &str, complaint: &str, loc: SourceLocation) -> (r: Result<
    Option<bool>,
    Error,
>)
    ensures
        match (r, flag_field(entries_model(m@), key@, complaint@, loc.at())) {
            (Ok(x), Ok(y)) => x == y,
            (Err(e), Err(f)) => complains(e, f),
            _ => false,
        },
{
    match entry(m, key) {
        None => Ok(None),
        Some(v) => match v.as_bool() {
            Some(b) => Ok(Some(b)),
            None => Err(validation(complaint.to_owned(), loc)),
        },
    }
}

/// The text under `key`, which must be there.
pub open spec fn string_field(m: EntryModels, key: Seq<char>, source: Seq<char>) -> Result<
    Seq<char>,
    Fault,
> {
    match yaml_get(m, key) {
        None => Err(
            fault_at("missing required field '"@ + key + "'"@, place_of_key(source, key)),
        ),
        Some(v) => match yaml_text(v) {
            Some(t) => Ok(t),
            None => Err(
                fault_at("field '"@ + key + "' must be a string"@, place_of_key(source, key)),
            ),
        },
    }
}

pub(crate) fn expect_string_in(m: &Vec<(Yaml, Yaml)>, key: &str, source: &str) -> (r: Result<String, Error>)
    ensures
        match (r, string_field(entries_model(m@), key@, source@)) {
            (Ok(x), Ok(y)) => x@ == y,
            (Err(e), Err(f)) => complains(e, f),
            _ => false,
        },
{
    match entry(m, key) {
        None => Err(
            validation(concat3("missing required field '", key, "'"), locate_key(source, key)),
        ),
        Some(v) => match v.as_text() {
            Some(t) => Ok(t.clone()),
            None => Err(
                validation(concat3("field '", key, "' must be a string"), locate_key(source, key)),
            ),
        },
    }
}

/// The first `n` items as texts; `complaint` tells what is wrong with an item that is none.
pub open spec fn string_items(
    items: Seq<YamlModel>,
    n: int,
    complaint: spec_fn(int) -> Seq<char>,
    place: (int, int),
) -> Result<Seq<Seq<char>>, Fault>
    decreases n,
{
    if n <= 0 {
        Ok(seq![])
    } else {
        match string_items(items, n - 1, complaint, place) {
            Err(f) => Err(f),
            Ok(done) => match yaml_text(items[n - 1]) {
                Some(t) => Ok(done.push(t)),
                None => Err(fault_at(complaint(n - 1), place)),
            },
        }
    }
}

pub proof fn lemma_string_items_stops(
    items: Seq<YamlModel>,
    n: int,
    m: int,
    complaint: spec_fn(int) -> Seq<char>,
    place: (int, int),
)
    requires
        0 <= n <= m,
        string_items(items, n, complaint, place) is Err,
    ensures
        string_items(items, m, complaint, place) == string_items(items, n, complaint, place),
    decreases m - n,
{
    if n < m {
        lemma_string_items_stops(items, n, m - 1, complaint, place);
    }
}

pub open spec fn indexed_complaint(key: Seq<char>) -> spec_fn(int) -> Seq<char> {
    |i: int| key + "["@ + decimal(i as nat) + "] must be a string"@
}

/// The list of texts under `key`; an empty one where the key is missing.
pub open spec fn string_list(m: EntryModels, key: Seq<char>, source: Seq<char>) -> Result<
    Seq<Seq<char>>,
    Fault,
> {
    match yaml_get(m, key) {
        None => Ok(seq![]),
        Some(v) => match yaml_items(v) {
            None => Err(fault_at(key + " must be a sequence"@, place_of_key(source, key))),
            Some(items) => string_items(
                items,
                items.len() as int,
                indexed_complaint(key),
                place_of_key(source, key),
            ),
        },
    }
}

pub(crate) fn expect_string_list(m: &Vec<(Yaml, Yaml)>, key: &str, source: &str) -> (r: Result<
    Vec<String>,
    Error,
>)
    ensures
        match (r, string_list(entries_model(m@), key@, source@)) {
            (Ok(x), Ok(y)) => texts(x@) == y,
            (Err(e), Err(f)) => complains(e, f),
            _ => false,
        },
{
    let mut out: Vec<String> = Vec::new();
    assert(texts(out@) =~= seq![]);
    let v = match entry(m, key) {
        None => {
            return Ok(out);
        },
        Some(v) => v,
    };
    let loc = locate_key(source, key);
    let items = match v.as_items() {
        None => {
            return Err(validation(concat(key, " must be a sequence"), loc));
        },
        Some(items) => items,
    };
    let ghost all = items_model(items@);
    let ghost c = indexed_complaint(key@);
    let mut i: usize = 0;
    while i < items.len()
        invariant
            i <= items.len(),
            all == items_model(items@),
            c == indexed_complaint(key@),
            string_items(all, i as int, c, loc.at()) == Ok::<_, Fault>(texts(out@)),
            yaml_get(entries_model(m@), key@) == Some(v@),
            yaml_items(v@) == Some(all),
            loc.at() == place_of_key(source@, key@),
        decreases items.len() - i,
    {
        assert(all[i as int] == items@[i as int]@);
        match items[i].as_text() {
            Some(t) => {
                let ghost o = out@;
                out.push(t.clone());
                assert(texts(out@) =~= texts(o).push(t@));
            },
            None => {
                let mut message = concat(key, "[");
                message.append(decimal_text(i as u64).as_str());
                message.append("] must be a string");
                proof {
                    lemma_string_items_stops(all, i + 1, all.len() as int, c, loc.at());
                }
                return Err(validation(message, loc));
            },
        }
        i += 1;
    }
    Ok(out)
}

/// The first `n` entries as a JSON object.
pub open spec fn json_fields(m: EntryModels, n: int, place: (int, int)) -> Result<MapModel, Fault>
    decreases n,
{
    if n <= 0 {
        Ok(seq![])
    } else {
        match json_fields(m, n - 1, place) {
            Err(f) => Err(f),
            Ok(done) => match yaml_text(m[n - 1].0) {
                None => Err(fault_at("parameter keys must be strings"@, place)),
                Some(key) => match m[n - 1].1.json {
                    Ok(value) => Ok(map_insert(done, key, value)),
                    Err(why) => Err(
                        fault_at(
                            "unsupported value type for key '"@ + key + "': "@ + why,
                            place,
                        ),
                    ),
                },
            },
        }
    }
}

proof fn lemma_json_fields_stops(m: EntryModels, n: int, k: int, place: (int, int))
    requires
        0 <= n <= k,
        json_fields(m, n, place) is Err,
    ensures
        json_fields(m, k, place) == json_fields(m, n, place),
    decreases k - n,
{
    if n < k {
        lemma_json_fields_stops(m, n, k - 1, place);
    }
}

pub(crate) fn yaml_map_to_json_map(m: &Vec<(Yaml, Yaml)>, loc: SourceLocation) -> (r: Result<JsonMap, Error>)
    ensures
        match (r, json_fields(entries_model(m@), m@.len() as int, loc.at())) {
            (Ok(x), Ok(y)) => x@ == y,
            (Err(e), Err(f)) => complains(e, f),
            _ => false,
        },
{
    let ghost all = entries_model(m@);
    let mut out = JsonMap::new();
    let mut i: usize = 0;
    while i < m.len()
        invariant
            i <= m.len(),
            all == entries_model(m@),
            json_fields(all, i as int, loc.at()) == Ok::<_, Fault>(out@),
        decreases m.len() - i,
    {
        assert(all[i as int] == (m@[i as int].0@, m@[i as int].1@));
        proof {
            if json_fields(all, i + 1, loc.at()) is Err {
                lemma_json_fields_stops(all, i + 1, all.len() as int, loc.at());
            }
        }
        let key = match m[i].0.as_text() {
            None => {
                return Err(validation("parameter keys must be strings".to_owned(), loc));
            },
            Some(key) => key,
        };
        match &m[i].1.json {
            Ok(value) => {
                out.insert(key.clone(), value.clone());
            },
            Err(why) => {
                let mut message = concat3("unsupported value type for key '", key.as_str(), "': ");
                message.append(why.as_str());
                return Err(validation(message, loc));
            },
        }
        i += 1;
    }
    Ok(out)
}

/// The object under `key`; `complaint` is for a value that is no mapping.
pub open spec fn object_field(m: EntryModels, key: Seq<char>, complaint: Seq<char>, source: Seq<char>) -> Result<
    MapModel,
    Fault,
> {
    match yaml_get(m, key) {
        None => Ok(seq![]),
        Some(v) => match yaml_entries(v) {
            None => Err(fault_at(complaint, place_of_key(source, key))),
            Some(fields) => json_fields(
                fields,
                fields.len() as int,
                place_of_key(source, key),
            ),
        },
    }
}

pub(crate) fn read_object(m: &Vec<(Yaml, Yaml)>, key: &str, complaint: &str, source: &str) -> (r: Result<
    JsonMap,
    Error,
>)
    ensures
        match (r, object_field(entries_model(m@), key@, complaint@, source@)) {
            (Ok(x), Ok(y)) => x@ == y,
            (Err(e), Err(f)) => complains(e, f),
            _ => false,
        },
{
    match entry(m, key) {
        None => Ok(JsonMap::new()),
        Some(v) => {
            let loc = locate_key(source, key);
            match v.as_entries() {
                None => Err(validation(complaint.to_owned(), loc)),
                Some(fields) => yaml_map_to_json_map(fields, loc),
            }
        },
    }
}

pub open spec fn no_policy() -> Policy {
    Policy { budget_tokens: None, timeout_ms: None, confirm_external: None }
}

pub open spec fn policy_of(value: Option<YamlModel>, source: Seq<char>) -> Result<Policy, Fault> {
    match value {
        None => Ok(no_policy()),
        Some(v) => match yaml_entries(v) {
            None => Err(
                fault_at("policy must be a mapping"@, place_of_key(source, "policy"@)),
            ),
            Some(m) => match small_field(
                m,
                "budget_tokens"@,
                "policy.budget_tokens must be a non-negative integer"@,
                place_of_key(source, "budget_tokens"@),
            ) {
                Err(f) => Err(f),
                Ok(budget_tokens) => match count_field(
                    m,
                    "timeout_ms"@,
                    "policy.timeout_ms must be a non-negative integer"@,
                    place_of_key(source, "timeout_ms"@),
                ) {
                    Err(f) => Err(f),
                    Ok(timeout_ms) => match flag_field(
                        m,
                        "confirm_external"@,
                        "policy.confirm_external must be a boolean"@,
                        place_of_key(source, "confirm_external"@),
                    ) {
                        Err(f) => Err(f),
                        Ok(confirm_external) => Ok(
                            Policy { budget_tokens, timeout_ms, confirm_external },
                        ),
                    },
                },
            },
        },
    }
}

pub(crate) fn parse_policy(value: Option<&Yaml>, source: &str) -> (r: Result<Policy, Error>)
    ensures
        match (r, policy_of(opt_yaml(value), source@)) {
            (Ok(x), Ok(y)) => x == y,
            (Err(e), Err(f)) => complains(e, f),
            _ => false,
        },
{
    let v = match value {
        None => {
            return Ok(
                Policy { budget_tokens: None, timeout_ms: None, confirm_external: None },
            );
        },
        Some(v) => v,
    };
    let m = match v.as_entries() {
        None => {
            return Err(
                validation("policy must be a mapping".to_owned(), locate_key(source, "policy")),
            );
        },
        Some(m) => m,
    };
    let budget_tokens = match read_small(
        m,
        "budget_tokens",
        "policy.budget_tokens must be a non-negative integer",
        locate_key(source, "budget_tokens"),
    ) {
        Err(e) => {
            return Err(e);
        },
        Ok(x) => x,
    };
    let timeout_ms = match read_count(
        m,
        "timeout_ms",
        "policy.timeout_ms must be a non-negative integer",
        locate_key(source, "timeout_ms"),
    ) {
        Err(e) => {
            return Err(e);
        },
        Ok(x) => x,
    };
    match read_flag(
        m,
        "confirm_external",
        "policy.confirm_external must be a boolean",
        locate_key(source, "confirm_external"),
    ) {
        Err(e) => Err(e),
        Ok(confirm_external) => Ok(Policy { budget_tokens, timeout_ms, confirm_external }),
    }
}

/// The agent that `raw` names as `<name>` or `<name>@<variant>`.
pub open spec fn agent_of(raw: Seq<char>, source: Seq<char>, place: (int, int)) -> Result<
    AgentRefModel,
    Fault,
> {
    let t = trim(raw);
    let (name, variant) = match split_once(t, '@') {
        Some((a, b)) => (trim(a), Some(trim(b))),
        None => (t, None),
    };
    let written = place_of(source, "use: agent:"@ + raw);
    if t.len() == 0 {
        Err(fault_at("agent reference cannot be empty"@, place))
    } else if name.len() == 0 {
        Err(fault_at("agent name cannot be empty"@, place))
    } else if !all_name_chars(name) {
        Err(
            fault_at(
                "agent name must contain only alphanumeric characters, '-' or '_'"@,
                written,
            ),
        )
    } else {
        match variant {
            Some(v) => if v.len() == 0 {
                Err(fault_at("agent variant cannot be empty"@, place))
            } else if !all_name_chars(v) {
                Err(
                    fault_at(
                        "agent variant must contain only alphanumeric characters, '-' or '_'"@,
                        written,
                    ),
                )
            } else {
                Ok(AgentRefModel { name, variant: Some(v) })
            },
            None => Ok(AgentRefModel { name, variant: None }),
        }
    }
}

pub fn parse_agent_reference(raw: &str, source: &str, loc: SourceLocation) -> (r: Result<
    AgentRef,
    Error,
>)
    ensures
        match (r, agent_of(raw@, source@, loc.at())) {
            (Ok(x), Ok(y)) => x@ == y,
            (Err(e), Err(f)) => complains(e, f),
            _ => false,
        },
{
    let t = trimmed(raw);
    if t.as_str().is_empty() {
        return Err(validation("agent reference cannot be empty".to_owned(), loc));
    }
    let split = split_at_first(t.as_str(), '@');
    let (name, variant) = match split {
        Some((a, b)) => (trimmed(a.as_str()), Some(trimmed(b.as_str()))),
        None => (t, None),
    };
    if name.as_str().is_empty() {
        return Err(validation("agent name cannot be empty".to_owned(), loc));
    }
    if !valid_identifier(name.as_str()) {
        let pattern = concat("use: agent:", raw);
        return Err(
            validation(
                "agent name must contain only alphanumeric characters, '-' or '_'".to_owned(),
                locate_pattern(source, pattern.as_str()),
            ),
        );
    }
    if let Some(v) = &variant {
        if v.as_str().is_empty() {
            return Err(validation("agent variant cannot be empty".to_owned(), loc));
        }
        if !valid_identifier(v.as_str()) {
            let pattern = concat("use: agent:", raw);
            return Err(
                validation(
                    "agent variant must contain only alphanumeric characters, '-' or '_'".to_owned(),
                    locate_pattern(source, pattern.as_str()),
                ),
            );
        }
    }
    Ok(AgentRef::new(name, variant))
}

/// What `raw` names as `agent:<name>` or `opening:<name>`.
pub open spec fn use_of(raw: Seq<char>, source: Seq<char>, place: (int, int)) -> Result<
    KindModel,
    Fault,
> {
    let malformed = fault_at(
        "node.use must be of the form 'agent:<name>' or 'opening:<name>'"@,
        place,
    );
    match split_once(raw, ':') {
        None => Err(malformed),
        Some((prefix, rest)) => if has_char(rest, ':') {
            Err(malformed)
        } else if prefix == "agent"@ {
            match agent_of(rest, source, place) {
                Ok(r) => Ok(KindModel::Agent(r)),
                Err(f) => Err(f),
            }
        } else if prefix == "opening"@ {
            Ok(KindModel::Opening(rest))
        } else {
            Err(
                fault_at(
                    "unknown use prefix '"@ + prefix + "'"@,
                    place_of(source, "use: "@ + raw),
                ),
            )
        },
    }
}

pub fn parse_use(raw: &str, source: &str, loc: SourceLocation) -> (r: Result<NodeKind, Error>)
    ensures
        match (r, use_of(raw@, source@, loc.at())) {
            (Ok(x), Ok(y)) => x@ == y,
            (Err(e), Err(f)) => complains(e, f),
            _ => false,
        },
{
    let malformed = "node.use must be of the form 'agent:<name>' or 'opening:<name>'";
    match split_at_first(raw, ':') {
        None => Err(validation(malformed.to_owned(), loc)),
        Some((prefix, rest)) => if contains_char(rest.as_str(), ':') {
            Err(validation(malformed.to_owned(), loc))
        } else if same(prefix.as_str(), "agent") {
            match parse_agent_reference(rest.as_str(), source, loc) {
                Ok(reference) => Ok(NodeKind::Agent { reference }),
                Err(e) => Err(e),
            }
        } else if same(prefix.as_str(), "opening") {
            Ok(NodeKind::Opening { name: rest })
        } else {
            let pattern = concat("use: ", raw);
            Err(
                validation(
                    concat3("unknown use prefix '", prefix.as_str(), "'"),
                    locate_pattern(source, pattern.as_str()),
                ),
            )
        },
    }
}

} // verus!
