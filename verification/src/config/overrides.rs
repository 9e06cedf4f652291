//! The layers of a configuration: defaults, files, environment.

use crate::config::trees::{
    diff_values, differences, kb_renamed, merge_value, merged, normalize_kb_aliases,
    normalize_router_aliases, override_models, router_renamed, ConfigOverride, OverrideModel,
};
use crate::error::{Error, ErrorModel};
use crate::json::{
    insert_then_get, int_json, int_model, json_document, map_get, map_insert, ordered,
    read_json, Json, JsonMap, JsonModel, MapModel, Numeral, NumeralModel,
};
use crate::openings::literal::{int_literal, parse_int};
use crate::paths::{join_path, joined_path};
use crate::text::{concat3, ends_with, has_prefix, has_suffix, join, joined, lower, lowered, opt_text, same, split_on, split_text, starts_with, strip_prefix, texts};
use crate::yaml::{plain_document, read_plain, PlainError, PlainFault};
use vstd::prelude::*;

verus! {

/// A variable of the environment. `fraction` is the numeral of the finite number that the value
/// writes, where it writes one.
#[derive(Debug)]
pub struct EnvPair {
    pub key: String,
    pub value: String,
    pub fraction: Option<String>,
}

pub ghost struct EnvModel {
    pub key: Seq<char>,
    pub value: Seq<char>,
    pub fraction: Option<Seq<char>>,
}

impl EnvPair {
    pub open spec fn view(self) -> EnvModel {
        EnvModel { key: self.key@, value: self.value@, fraction: opt_text(self.fraction) }
    }
}

pub open spec fn env_models(s: Seq<EnvPair>) -> Seq<EnvModel> {
    s.map_values(|p: EnvPair| p@)
}

/// Whether a text stands between brackets or braces.
pub open spec fn is_bracketed(s: Seq<char>) -> bool {
    (has_prefix(s, "{"@) && has_suffix(s, "}"@)) || (has_prefix(s, "["@) && has_suffix(s, "]"@))
}

/// The value that a variable's text stands for. Only the words are truth values: a figure is a
/// number.
pub open spec fn env_value(raw: Seq<char>, fraction: Option<Seq<char>>) -> JsonModel {
    if raw == "true"@ || raw == "TRUE"@ {
        JsonModel::Bool(true)
    } else if raw == "false"@ || raw == "FALSE"@ {
        JsonModel::Bool(false)
    } else {
        match (int_literal(raw), fraction) {
            (Some(n), _) => int_model(n),
            (None, Some(t)) => JsonModel::Number(NumeralModel::Float(t)),
            (None, None) => match json_document(raw) {
                Some(j) => if is_bracketed(raw) {
                    j
                } else {
                    JsonModel::Text(raw)
                },
                None => JsonModel::Text(raw),
            },
        }
    }
}

pub fn parse_env_value(raw: &str, fraction: &Option<String>) -> (r: Json)
    ensures
        r@ == env_value(raw@, opt_text(*fraction)),
{
    if same(raw, "true") || same(raw, "TRUE") {
        return Json::Bool(true);
    }
    if same(raw, "false") || same(raw, "FALSE") {
        return Json::Bool(false);
    }
    match parse_int(raw) {
        Some(n) => {
            return int_json(n);
        },
        None => {},
    }
    match fraction {
        Some(t) => {
            return Json::Number(Numeral::Float(t.clone()));
        },
        None => {},
    }
    if (starts_with(raw, "{") && ends_with(raw, "}")) || (starts_with(raw, "[") && ends_with(
        raw,
        "]",
    )) {
        match read_json(raw) {
            Some(j) => j,
            None => Json::Text(raw.to_owned()),
        }
    } else {
        Json::Text(raw.to_owned())
    }
}

/// An object with a value at the end of a path, the objects on the way made where there is none.
/// Something else on the way blocks it.
pub open spec fn with_path(m: MapModel, path: Seq<Seq<char>>, value: JsonModel) -> Option<MapModel>
    decreases path.len(),
{
    if path.len() == 0 {
        Some(m)
    } else if path.len() == 1 {
        Some(map_insert(m, path[0], value))
    } else {
        let below = match map_get(m, path[0]) {
            None => Some(MapModel::empty()),
            Some(JsonModel::Object(b)) => Some(b),
            Some(_) => None,
        };
        match below {
            Some(b) => match with_path(b, path.skip(1), value) {
                Some(c) => Some(map_insert(m, path[0], JsonModel::Object(c))),
                None => None,
            },
            None => None,
        }
    }
}

/// Sets the value at the end of a path. Tells whether the way was free.
pub fn set_path(root: &mut JsonMap, path: &Vec<String>, value: Json) -> (r: bool)
    ensures
        match with_path(old(root)@, texts(path@), value@) {
            Some(m) => r && final(root)@ == m,
            None => !r && final(root)@ == old(root)@,
        },
{
    assert(texts(path@).skip(0) =~= texts(path@));
    set_from(root, path, 0, value)
}

fn set_from(root: &mut JsonMap, path: &Vec<String>, from: usize, value: Json) -> (r: bool)
    requires
        from <= path.len(),
    ensures
        match with_path(old(root)@, texts(path@).skip(from as int), value@) {
            Some(m) => r && final(root)@ == m,
            None => !r && final(root)@ == old(root)@,
        },
    decreases path.len() - from,
{
    let ghost rest = texts(path@).skip(from as int);
    if from == path.len() {
        return true;
    }
    assert(rest[0] == path@[from as int]@);
    let key = path[from].as_str();
    if path.len() - from == 1 {
        root.insert(key.to_owned(), value);
        return true;
    }
    let below = match root.get(key) {
        None => Some(JsonMap::new()),
        Some(Json::Object(b)) => Some(b.clone()),
        Some(_) => None,
    };
    match below {
        Some(b) => {
            let mut c = b;
            assert(rest.skip(1) =~= texts(path@).skip(from + 1));
            if set_from(&mut c, path, from + 1, value) {
                root.insert(key.to_owned(), Json::Object(c));
                true
            } else {
                false
            }
        },
        None => false,
    }
}

/// The value at the end of a path.
pub open spec fn at_path(m: MapModel, path: Seq<Seq<char>>) -> Option<JsonModel>
    decreases path.len(),
{
    if path.len() == 0 {
        None
    } else if path.len() == 1 {
        map_get(m, path[0])
    } else {
        match map_get(m, path[0]) {
            Some(JsonModel::Object(b)) => at_path(b, path.skip(1)),
            _ => None,
        }
    }
}

/// Whether the objects on a path keep their keys in order.
pub open spec fn way_ordered(m: MapModel, path: Seq<Seq<char>>) -> bool
    decreases path.len(),
{
    &&& ordered(m)
    &&& path.len() > 1 ==> match map_get(m, path[0]) {
        Some(JsonModel::Object(b)) => way_ordered(b, path.skip(1)),
        _ => true,
    }
}

proof fn lemma_empty_way(path: Seq<Seq<char>>)
    ensures
        way_ordered(MapModel::empty(), path),
{
}

/// What has been set at the end of a path is found there, and the other settings stay.
pub proof fn set_values_are_found(
    m: MapModel,
    path: Seq<Seq<char>>,
    value: JsonModel,
    other: Seq<char>,
)
    requires
        path.len() > 0,
        way_ordered(m, path),
        with_path(m, path, value) is Some,
    ensures
        at_path(with_path(m, path, value)->0, path) == Some(value),
        other != path[0] ==> map_get(with_path(m, path, value)->0, other) == map_get(m, other),
    decreases path.len(),
{
    if path.len() == 1 {
        insert_then_get(m, path[0], value, other);
    } else {
        let b = match map_get(m, path[0]) {
            Some(JsonModel::Object(x)) => x,
            _ => MapModel::empty(),
        };
        if map_get(m, path[0]) is None {
            lemma_empty_way(path.skip(1));
        }
        set_values_are_found(b, path.skip(1), value, other);
        insert_then_get(
            m,
            path[0],
            JsonModel::Object(with_path(b, path.skip(1), value)->0),
            other,
        );
    }
}

/// The setting that a variable with a name of its own changes.
pub open spec fn alias_path(key: Seq<char>) -> Option<Seq<Seq<char>>> {
    if key == "RUNLOOP_LOG_LEVEL"@ {
        Some(seq!["logging"@, "level"@])
    } else if key == "RUNLOOP_RUNTIME_AGENT_CONTAINER"@ {
        Some(seq!["runtime"@, "agent_container"@])
    } else if key == "RUNLOOP_ROUTER_DEFAULT_OPENING"@ {
        Some(seq!["router"@, "default_opening"@])
    } else if key == "RUNLOOP_ROUTER_SHELL_FASTPATH"@ {
        Some(seq!["router"@, "fastpath_shell"@])
    } else if key == "RUNLOOP_ROUTER_ALLOW_SHELL_FASTPATH"@ {
        Some(seq!["router"@, "fastpath_shell"@])
    } else if key == "RUNLOOP_MODELS_DEFAULT"@ {
        Some(seq!["models"@, "default"@])
    } else if key == "RUNLOOP_KB_ROOT_DIR"@ {
        Some(seq!["kb"@, "root_dir"@])
    } else if key == "RUNLOOP_SECURITY_CONFIRM_EXTERNAL_ACTIONS"@ {
        Some(seq!["security"@, "confirm_external_actions"@])
    } else {
        None
    }
}

fn pair_of(a: &str, b: &str) -> (r: Vec<String>)
    ensures
        texts(r@) == seq![a@, b@],
{
    let mut r: Vec<String> = Vec::new();
    r.push(a.to_owned());
    r.push(b.to_owned());
    assert(texts(r@) =~= seq![a@, b@]);
    r
}

fn aliased_path(key: &str) -> (r: Option<Vec<String>>)
    ensures
        match r {
            Some(p) => alias_path(key@) == Some(texts(p@)),
            None => alias_path(key@) is None,
        },
{
    if same(key, "RUNLOOP_LOG_LEVEL") {
        Some(pair_of("logging", "level"))
    } else if same(key, "RUNLOOP_RUNTIME_AGENT_CONTAINER") {
        Some(pair_of("runtime", "agent_container"))
    } else if same(key, "RUNLOOP_ROUTER_DEFAULT_OPENING") {
        Some(pair_of("router", "default_opening"))
    } else if same(key, "RUNLOOP_ROUTER_SHELL_FASTPATH") {
        Some(pair_of("router", "fastpath_shell"))
    } else if same(key, "RUNLOOP_ROUTER_ALLOW_SHELL_FASTPATH") {
        Some(pair_of("router", "fastpath_shell"))
    } else if same(key, "RUNLOOP_MODELS_DEFAULT") {
        Some(pair_of("models", "default"))
    } else if same(key, "RUNLOOP_KB_ROOT_DIR") {
        Some(pair_of("kb", "root_dir"))
    } else if same(key, "RUNLOOP_SECURITY_CONFIRM_EXTERNAL_ACTIONS") {
        Some(pair_of("security", "confirm_external_actions"))
    } else {
        None
    }
}

fn is_pair(path: &Vec<String>, a: &str, b: &str) -> (r: bool)
    ensures
        r == (texts(path@) == seq![a@, b@]),
{
    let ghost p = texts(path@);
    if path.len() == 2 && same(path[0].as_str(), a) && same(path[1].as_str(), b) {
        assert(p =~= seq![a@, b@]);
        true
    } else {
        assert(p != seq![a@, b@]) by {
            if p == seq![a@, b@] {
                assert(p.len() == 2 && p[0] == a@ && p[1] == b@);
                assert(p[0] == path@[0]@ && p[1] == path@[1]@);
            }
        }
        false
    }
}

fn is_triple(path: &Vec<String>, a: &str, b: &str, c: &str) -> (r: bool)
    ensures
        r == (texts(path@) == seq![a@, b@, c@]),
{
    let ghost p = texts(path@);
    if path.len() == 3 && same(path[0].as_str(), a) && same(path[1].as_str(), b) && same(
        path[2].as_str(),
        c,
    ) {
        assert(p =~= seq![a@, b@, c@]);
        true
    } else {
        assert(p != seq![a@, b@, c@]) by {
            if p == seq![a@, b@, c@] {
                assert(p.len() == 3 && p[0] == a@ && p[1] == b@ && p[2] == c@);
                assert(p[0] == path@[0]@ && p[1] == path@[1]@ && p[2] == path@[2]@);
            }
        }
        false
    }
}

/// The settings that are on or off.
pub open spec fn is_switch(path: Seq<Seq<char>>) -> bool {
    ||| path == seq!["kb"@, "wal"@]
    ||| path == seq!["kb"@, "fts"@]
    ||| path == seq!["security"@, "confirm_external_actions"@]
    ||| path == seq!["security"@, "allow_unsigned_agents"@]
    ||| path == seq!["router"@, "fastpath_shell"@]
    ||| path == seq!["kb"@, "redaction"@, "mask_email"@]
    ||| path == seq!["kb"@, "redaction"@, "at_query_time"@]
    ||| path == seq!["kb"@, "redaction"@, "materialize_masked_columns"@]
    ||| path == seq!["security"@, "caps"@, "audit_on_allow"@]
    ||| path == seq!["security"@, "caps"@, "audit_on_deny"@]
    ||| path == seq!["security"@, "secrets"@, "allow_export"@]
    ||| path == seq!["security"@, "secrets"@, "allow_list"@]
    ||| path == seq!["security"@, "testing"@, "allow_missing_secrets"@]
    ||| path == seq!["security"@, "testing"@, "expose_raw_secrets"@]
    ||| path == seq!["observability"@, "traces"@, "enabled"@]
}

/// The settings that are texts, the old names of some among them.
pub open spec fn is_wording(path: Seq<Seq<char>>) -> bool {
    ||| path == seq!["runtime"@, "base"@]
    ||| path == seq!["runtime"@, "agent_container"@]
    ||| path == seq!["runtime"@, "socket_path"@]
    ||| path == seq!["runtime"@, "workdir"@]
    ||| path == seq!["runtime"@, "sockets_dir"@]
    ||| path == seq!["models"@, "default"@]
    ||| path == seq!["kb"@, "root_dir"@]
    ||| path == seq!["kb"@, "events_db"@]
    ||| path == seq!["kb"@, "view_db"@]
    ||| path == seq!["kb"@, "ledger"@]
    ||| path == seq!["kb"@, "materialized"@]
    ||| path == seq!["router"@, "default_opening"@]
    ||| path == seq!["ui"@, "theme"@]
    ||| path == seq!["ui"@, "confirm_prompts"@]
    ||| path == seq!["logging"@, "level"@]
    ||| path == seq!["logging"@, "file"@]
    ||| path == seq!["logging"@, "format"@]
    ||| path == seq!["kb"@, "redaction"@, "level"@]
    ||| path == seq!["security"@, "secrets"@, "provider"@]
    ||| path == seq!["security"@, "secrets"@, "root"@]
    ||| path == seq!["security"@, "secrets"@, "encryption"@]
    ||| path == seq!["security"@, "secrets"@, "master_key"@]
    ||| path == seq!["security"@, "testing"@, "broker_mode"@]
    ||| path == seq!["observability"@, "traces"@, "otlp_endpoint"@]
    ||| path == seq!["observability"@, "traces"@, "sampling"@]
}

fn turns(path: &Vec<String>) -> (r: bool)
    ensures
        r == is_switch(texts(path@)),
{
    is_pair(path, "kb", "wal")
        || is_pair(path, "kb", "fts")
        || is_pair(path, "security", "confirm_external_actions")
        || is_pair(path, "security", "allow_unsigned_agents")
        || is_pair(path, "router", "fastpath_shell")
        || is_triple(path, "kb", "redaction", "mask_email")
        || is_triple(path, "kb", "redaction", "at_query_time")
        || is_triple(path, "kb", "redaction", "materialize_masked_columns")
        || is_triple(path, "security", "caps", "audit_on_allow")
        || is_triple(path, "security", "caps", "audit_on_deny")
        || is_triple(path, "security", "secrets", "allow_export")
        || is_triple(path, "security", "secrets", "allow_list")
        || is_triple(path, "security", "testing", "allow_missing_secrets")
        || is_triple(path, "security", "testing", "expose_raw_secrets")
        || is_triple(path, "observability", "traces", "enabled")
}

fn words(path: &Vec<String>) -> (r: bool)
    ensures
        r == is_wording(texts(path@)),
{
    is_pair(path, "runtime", "base")
        || is_pair(path, "runtime", "agent_container")
        || is_pair(path, "runtime", "socket_path")
        || is_pair(path, "runtime", "workdir")
        || is_pair(path, "runtime", "sockets_dir")
        || is_pair(path, "models", "default")
        || is_pair(path, "kb", "root_dir")
        || is_pair(path, "kb", "events_db")
        || is_pair(path, "kb", "view_db")
        || is_pair(path, "kb", "ledger")
        || is_pair(path, "kb", "materialized")
        || is_pair(path, "router", "default_opening")
        || is_pair(path, "ui", "theme")
        || is_pair(path, "ui", "confirm_prompts")
        || is_pair(path, "logging", "level")
        || is_pair(path, "logging", "file")
        || is_pair(path, "logging", "format")
        || is_triple(path, "kb", "redaction", "level")
        || is_triple(path, "security", "secrets", "provider")
        || is_triple(path, "security", "secrets", "root")
        || is_triple(path, "security", "secrets", "encryption")
        || is_triple(path, "security", "secrets", "master_key")
        || is_triple(path, "security", "testing", "broker_mode")
        || is_triple(path, "observability", "traces", "otlp_endpoint")
        || is_triple(path, "observability", "traces", "sampling")
}

/// The value that a variable's text stands for at a setting. The two figures turn a switch on and
/// off, and where the setting is a text, the text stays as it is.
pub open spec fn setting_value(
    path: Seq<Seq<char>>,
    raw: Seq<char>,
    fraction: Option<Seq<char>>,
) -> JsonModel {
    if is_switch(path) && (raw == "1"@ || raw == "0"@) {
        JsonModel::Bool(raw == "1"@)
    } else if is_wording(path) {
        JsonModel::Text(raw)
    } else {
        env_value(raw, fraction)
    }
}

fn parse_setting(path: &Vec<String>, pair: &EnvPair) -> (r: Json)
    ensures
        r@ == setting_value(texts(path@), pair@.value, pair@.fraction),
{
    let raw = pair.value.as_str();
    if turns(path) {
        if same(raw, "1") {
            return Json::Bool(true);
        }
        if same(raw, "0") {
            proof {
                reveal_strlit("0");
                reveal_strlit("1");
                assert("0"@[0] != "1"@[0]);
            }
            return Json::Bool(false);
        }
    }
    if words(path) {
        return Json::Text(raw.to_owned());
    }
    parse_env_value(raw, &pair.fraction)
}

/// A figure given for a setting that is neither a switch nor a text is the number that it writes.
pub proof fn figures_are_numbers(path: Seq<Seq<char>>, raw: Seq<char>)
    requires
        int_literal(raw) is Some,
        !is_switch(path),
        !is_wording(path),
        raw != "true"@ && raw != "TRUE"@ && raw != "false"@ && raw != "FALSE"@,
    ensures
        setting_value(path, raw, None) == int_model(int_literal(raw)->0),
{
}

/// Whatever a variable says, a text setting gets a text, and a switch gets a truth value from either
/// figure and from the words.
pub proof fn settings_keep_their_kind(
    path: Seq<Seq<char>>,
    raw: Seq<char>,
    fraction: Option<Seq<char>>,
)
    requires
        is_switch(path) != is_wording(path),
    ensures
        is_wording(path) ==> setting_value(path, raw, fraction) == JsonModel::Text(raw),
        is_switch(path) && (raw == "1"@ || raw == "true"@ || raw == "TRUE"@) ==> setting_value(
            path,
            raw,
            fraction,
        ) == JsonModel::Bool(true),
        is_switch(path) && (raw == "0"@ || raw == "false"@ || raw == "FALSE"@) ==> setting_value(
            path,
            raw,
            fraction,
        ) == JsonModel::Bool(false),
{
    reveal_strlit("0");
    reveal_strlit("1");
    reveal_strlit("true");
    reveal_strlit("TRUE");
    reveal_strlit("false");
    reveal_strlit("FALSE");
    assert("0"@.len() == 1 && "1"@.len() == 1 && "true"@.len() == 4 && "TRUE"@.len() == 4
        && "false"@.len() == 5 && "FALSE"@.len() == 5);
    assert("0"@[0] != "1"@[0]);
}

/// The setting and the value that a variable with a name of its own stands for.
pub fn parse_alias(pair: &EnvPair) -> (r: Option<(Vec<String>, Json)>)
    ensures
        match r {
            Some((p, v)) => alias_path(pair@.key) == Some(texts(p@)) && v@ == setting_value(
                texts(p@),
                pair@.value,
                pair@.fraction,
            ),
            None => alias_path(pair@.key) is None,
        },
{
    match aliased_path(pair.key.as_str()) {
        Some(p) => {
            let value = parse_setting(&p, pair);
            Some((p, value))
        },
        None => None,
    }
}

pub open spec fn lowered_all(parts: Seq<Seq<char>>) -> Seq<Seq<char>> {
    parts.map_values(|p: Seq<char>| lower(p))
}

/// The setting that a variable changes: the parts of its name, or its alias.
pub open spec fn env_path(key: Seq<char>) -> Option<Seq<Seq<char>>> {
    if has_prefix(key, "RUNLOOP__"@) {
        let path = lowered_all(split_on(key.skip("RUNLOOP__"@.len() as int), "__"@));
        if path == seq!["router"@, "shell_fastpath"@] || path == seq![
            "router"@,
            "allow_shell_fastpath"@,
        ] {
            Some(seq!["router"@, "fastpath_shell"@])
        } else {
            Some(path)
        }
    } else {
        alias_path(key)
    }
}

fn path_of(key: &str) -> (r: Option<Vec<String>>)
    ensures
        match r {
            Some(p) => env_path(key@) == Some(texts(p@)),
            None => env_path(key@) is None,
        },
{
    match strip_prefix(key, "RUNLOOP__") {
        Some(stripped) => {
            proof {
                reveal_strlit("__");
            }
            let parts = split_text(stripped.as_str(), "__");
            let mut path: Vec<String> = Vec::new();
            let mut i: usize = 0;
            while i < parts.len()
                invariant
                    i <= parts.len(),
                    path@.len() == i,
                    forall|k: int| 0 <= k < i ==> (#[trigger] path@[k])@ == lower(parts@[k]@),
                decreases parts.len() - i,
            {
                path.push(lowered(parts[i].as_str()));
                i += 1;
            }
            assert(texts(path@) =~= lowered_all(texts(parts@)));
            if is_pair(&path, "router", "shell_fastpath") || is_pair(
                &path,
                "router",
                "allow_shell_fastpath",
            ) {
                Some(pair_of("router", "fastpath_shell"))
            } else {
                Some(path)
            }
        },
        None => aliased_path(key),
    }
}

/// What the first `n` variables make of an object, and the settings they name.
pub open spec fn overridden(m: MapModel, env: Seq<EnvModel>, n: nat) -> Option<
    (MapModel, Seq<Seq<char>>),
>
    decreases n,
{
    if n == 0 {
        Some((m, seq![]))
    } else {
        match overridden(m, env, (n - 1) as nat) {
            None => None,
            Some((b, keys)) => match env_path(env[n - 1].key) {
                None => Some((b, keys)),
                Some(path) => match with_path(
                    b,
                    path,
                    setting_value(path, env[n - 1].value, env[n - 1].fraction),
                ) {
                    Some(c) => Some((c, keys.push(join(path, "."@)))),
                    None => None,
                },
            },
        }
    }
}

proof fn lemma_blocked(m: MapModel, env: Seq<EnvModel>, i: nat, n: nat)
    requires
        overridden(m, env, i) is None,
        i <= n,
    ensures
        overridden(m, env, n) is None,
    decreases n,
{
    if i < n {
        lemma_blocked(m, env, i, (n - 1) as nat);
    }
}

/// Applies the variables to an object, in their order. Gives the settings they name, or nothing if
/// one is blocked by a value that is no object.
pub fn apply_env_overrides(root: &mut JsonMap, env: &Vec<EnvPair>) -> (r: Option<Vec<String>>)
    ensures
        match (r, overridden(old(root)@, env_models(env@), env@.len())) {
            (Some(keys), Some((m, k))) => final(root)@ == m && texts(keys@) == k,
            (None, None) => true,
            _ => false,
        },
{
    let ghost m0 = root@;
    let ghost models = env_models(env@);
    let mut keys: Vec<String> = Vec::new();
    assert(texts(keys@) =~= seq![]);
    let mut i: usize = 0;
    while i < env.len()
        invariant
            i <= env.len(),
            models == env_models(env@),
            m0 == old(root)@,
            overridden(m0, models, i as nat) == Some((root@, texts(keys@))),
        decreases env.len() - i,
    {
        assert(models[i as int] == env@[i as int]@);
        match path_of(env[i].key.as_str()) {
            Some(path) => {
                let value = parse_setting(&path, &env[i]);
                if !set_path(root, &path, value) {
                    proof {
                        lemma_blocked(m0, models, (i + 1) as nat, env@.len());
                    }
                    return None;
                }
                let ghost k0 = keys@;
                let name = joined(&path, ".");
                keys.push(name);
                assert(texts(keys@) =~= texts(k0).push(name@));
            },
            None => {},
        }
        i += 1;
    }
    Some(keys)
}

/// Where a layer comes from.
#[derive(Debug)]
pub enum ConfigSource {
    Defaults,
    File { path: String, exists: bool },
    Env { keys: Vec<String> },
}

#[derive(Debug)]
pub struct ConfigLayer {
    pub source: ConfigSource,
    pub overrides: Vec<ConfigOverride>,
}

pub ghost enum SourceModel {
    Defaults,
    File(Seq<char>, bool),
    Env(Seq<Seq<char>>),
}

pub ghost struct LayerModel {
    pub source: SourceModel,
    pub overrides: Seq<OverrideModel>,
}

impl ConfigSource {
    pub open spec fn view(self) -> SourceModel {
        match self {
            ConfigSource::Defaults => SourceModel::Defaults,
            ConfigSource::File { path, exists } => SourceModel::File(path@, exists),
            ConfigSource::Env { keys } => SourceModel::Env(texts(keys@)),
        }
    }
}

impl ConfigLayer {
    pub open spec fn view(self) -> LayerModel {
        LayerModel { source: self.source@, overrides: override_models(self.overrides@) }
    }
}

pub open spec fn layer_models(s: Seq<ConfigLayer>) -> Seq<LayerModel> {
    s.map_values(|l: ConfigLayer| l@)
}

/// What was found at a path.
#[derive(Debug)]
pub enum FileContent {
    Missing,
    Unreadable(String),
    NotText(String),
    Text(String),
}

#[derive(Debug)]
pub struct ConfigFile {
    pub path: String,
    pub content: FileContent,
}

pub ghost enum ContentModel {
    Missing,
    Unreadable(Seq<char>),
    NotText(Seq<char>),
    Text(Seq<char>),
}

pub ghost struct FileModel {
    pub path: Seq<char>,
    pub content: ContentModel,
}

impl ConfigFile {
    pub open spec fn view(self) -> FileModel {
        FileModel {
            path: self.path@,
            content: match self.content {
                FileContent::Missing => ContentModel::Missing,
                FileContent::Unreadable(m) => ContentModel::Unreadable(m@),
                FileContent::NotText(m) => ContentModel::NotText(m@),
                FileContent::Text(t) => ContentModel::Text(t@),
            },
        }
    }
}

pub open spec fn file_models(s: Seq<ConfigFile>) -> Seq<FileModel> {
    s.map_values(|f: ConfigFile| f@)
}

pub open spec fn complaint(what: Seq<char>, path: Seq<char>, why: Seq<char>) -> ErrorModel {
    ErrorModel::Config(what + path + ": "@ + why)
}

/// The tree in a file, if the file is there.
pub open spec fn file_tree(f: FileModel) -> Result<Option<JsonModel>, ErrorModel> {
    match f.content {
        ContentModel::Missing => Ok(None),
        ContentModel::Unreadable(m) => Err(complaint("failed reading config file "@, f.path, m)),
        ContentModel::NotText(m) => Err(complaint("invalid YAML in "@, f.path, m)),
        ContentModel::Text(t) => match plain_document(t) {
            Ok(j) => Ok(Some(j)),
            Err(PlainFault::NotYaml(m)) => Err(complaint("invalid YAML in "@, f.path, m)),
            Err(PlainFault::NotJson(m)) => Err(complaint("config conversion error in "@, f.path, m)),
        },
    }
}

fn complain(what: &str, path: &str, why: &str) -> (e: Error)
    ensures
        e@ == complaint(what@, path@, why@),
{
    let mut m = concat3(what, path, ": ");
    m.append(why);
    Error::Config(m)
}

pub fn load_yaml_value(file: &ConfigFile) -> (r: Result<Option<Json>, Error>)
    ensures
        match (r, file_tree(file@)) {
            (Ok(Some(j)), Ok(Some(k))) => j@ == k,
            (Ok(None), Ok(None)) => true,
            (Err(e), Err(f)) => e@ == f,
            _ => false,
        },
{
    let path = file.path.as_str();
    match &file.content {
        FileContent::Missing => Ok(None),
        FileContent::Unreadable(m) => Err(complain("failed reading config file ", path, m.as_str())),
        FileContent::NotText(m) => Err(complain("invalid YAML in ", path, m.as_str())),
        FileContent::Text(t) => match read_plain(t.as_str()) {
            Ok(j) => Ok(Some(j)),
            Err(PlainError::NotYaml(m)) => Err(complain("invalid YAML in ", path, m.as_str())),
            Err(PlainError::NotJson(m)) => Err(
                complain("config conversion error in ", path, m.as_str()),
            ),
        },
    }
}

/// What the first `n` files make of a tree, and the layers they are.
pub open spec fn with_files(base: JsonModel, files: Seq<FileModel>, n: nat) -> Result<
    (JsonModel, Seq<LayerModel>),
    ErrorModel,
>
    decreases n,
{
    if n == 0 {
        Ok(
            (
                base,
                seq![LayerModel { source: SourceModel::Defaults, overrides: seq![] }],
            ),
        )
    } else {
        let f = files[n - 1];
        match with_files(base, files, (n - 1) as nat) {
            Err(e) => Err(e),
            Ok((below, layers)) => match file_tree(f) {
                Err(e) => Err(e),
                Ok(None) => Ok(
                    (
                        below,
                        layers.push(
                            LayerModel {
                                source: SourceModel::File(f.path, false),
                                overrides: seq![],
                            },
                        ),
                    ),
                ),
                Ok(Some(tree)) => {
                    let above = merged(below, kb_renamed(router_renamed(tree)));
                    Ok(
                        (
                            above,
                            layers.push(
                                LayerModel {
                                    source: SourceModel::File(f.path, true),
                                    overrides: differences(seq![], below, above),
                                },
                            ),
                        ),
                    )
                },
            },
        }
    }
}

proof fn lemma_refused(base: JsonModel, files: Seq<FileModel>, i: nat, n: nat)
    requires
        with_files(base, files, i) is Err,
        i <= n,
    ensures
        with_files(base, files, n) == with_files(base, files, i),
    decreases n,
{
    if i < n {
        lemma_refused(base, files, i, (n - 1) as nat);
    }
}

/// Why the layers give no tree.
#[derive(Debug)]
pub enum LoadError {
    /// A file is refused.
    Refused(Error),
    /// A variable of the environment leads through a value that is no object.
    Blocked,
}

pub ghost enum LoadFault {
    Refused(ErrorModel),
    Blocked,
}

impl LoadError {
    pub open spec fn view(self) -> LoadFault {
        match self {
            LoadError::Refused(e) => LoadFault::Refused(e@),
            LoadError::Blocked => LoadFault::Blocked,
        }
    }
}

/// The tree of all layers, and the layers.
pub open spec fn layered(base: JsonModel, files: Seq<FileModel>, env: Seq<EnvModel>) -> Result<
    (JsonModel, Seq<LayerModel>),
    LoadFault,
> {
    match with_files(base, files, files.len()) {
        Err(e) => Err(LoadFault::Refused(e)),
        Ok((tree, layers)) => match tree {
            JsonModel::Object(m) => match overridden(m, env, env.len()) {
                None => Err(LoadFault::Blocked),
                Some((n, keys)) => Ok(
                    (
                        kb_renamed(router_renamed(JsonModel::Object(n))),
                        layers.push(
                            LayerModel {
                                source: SourceModel::Env(keys),
                                overrides: differences(seq![], tree, JsonModel::Object(n)),
                            },
                        ),
                    ),
                ),
            },
            _ => Ok(
                (
                    kb_renamed(router_renamed(tree)),
                    layers.push(
                        LayerModel { source: SourceModel::Env(seq![]), overrides: seq![] },
                    ),
                ),
            ),
        },
    }
}

fn lay_files(base: &Json, files: &Vec<ConfigFile>) -> (r: Result<(Json, Vec<ConfigLayer>), Error>)
    ensures
        match (r, with_files(base@, file_models(files@), files@.len())) {
            (Ok((t, l)), Ok((u, m))) => t@ == u && layer_models(l@) == m,
            (Err(e), Err(f)) => e@ == f,
            _ => false,
        },
{
    let ghost models = file_models(files@);
    let mut tree = base.clone();
    let mut layers: Vec<ConfigLayer> = Vec::new();
    layers.push(ConfigLayer { source: ConfigSource::Defaults, overrides: Vec::new() });
    proof {
        assert(layers@[0]@.overrides =~= seq![]);
        assert(layer_models(layers@) =~= seq![
            LayerModel { source: SourceModel::Defaults, overrides: seq![] },
        ]);
    }
    let mut i: usize = 0;
    while i < files.len()
        invariant
            i <= files.len(),
            models == file_models(files@),
            with_files(base@, models, i as nat) == Ok::<_, ErrorModel>(
                (tree@, layer_models(layers@)),
            ),
        decreases files.len() - i,
    {
        let ghost l0 = layers@;
        let ghost t0 = tree@;
        assert(models[i as int] == files@[i as int]@);
        let path = files[i].path.clone();
        match load_yaml_value(&files[i]) {
            Err(e) => {
                proof {
                    lemma_refused(base@, models, (i + 1) as nat, files@.len());
                }
                return Err(e);
            },
            Ok(None) => {
                let layer = ConfigLayer {
                    source: ConfigSource::File { path, exists: false },
                    overrides: Vec::new(),
                };
                assert(layer@.overrides =~= seq![]);
                layers.push(layer);
                assert(layer_models(layers@) =~= layer_models(l0).push(layer@));
            },
            Ok(Some(value)) => {
                let mut patch = value;
                normalize_router_aliases(&mut patch);
                normalize_kb_aliases(&mut patch);
                let below = tree.clone();
                merge_value(&mut tree, &patch);
                let overrides = diff_values(&below, &tree);
                let layer = ConfigLayer {
                    source: ConfigSource::File { path, exists: true },
                    overrides,
                };
                layers.push(layer);
                assert(layer_models(layers@) =~= layer_models(l0).push(layer@));
            },
        }
        i += 1;
    }
    Ok((tree, layers))
}

/// Where configuration files may stand: only where one is told of, or else at the usual places.
pub open spec fn candidate_places(
    told: Option<Seq<char>>,
    config_dir: Option<Seq<char>>,
    home: Option<Seq<char>>,
) -> Seq<Seq<char>> {
    match told {
        Some(p) => seq![p],
        None => (match config_dir {
            Some(d) => seq![joined_path(joined_path(d, "runloop"@), "config.yaml"@)],
            None => seq![],
        }) + (match home {
            Some(h) => seq![joined_path(joined_path(h, ".runloop"@), "config.yaml"@)],
            None => seq![],
        }) + seq!["/etc/runloop/config.yaml"@],
    }
}

pub fn config_candidate_paths(
    told: Option<String>,
    config_dir: &Option<String>,
    home: &Option<String>,
) -> (r: Vec<String>)
    ensures
        texts(r@) == candidate_places(opt_text(told), opt_text(*config_dir), opt_text(*home)),
{
    let mut out: Vec<String> = Vec::new();
    match told {
        Some(p) => {
            out.push(p);
            assert(texts(out@) =~= seq![p@]);
        },
        None => {
            match config_dir {
                Some(d) => out.push(
                    join_path(join_path(d.as_str(), "runloop").as_str(), "config.yaml"),
                ),
                None => {},
            }
            match home {
                Some(h) => out.push(
                    join_path(join_path(h.as_str(), ".runloop").as_str(), "config.yaml"),
                ),
                None => {},
            }
            out.push("/etc/runloop/config.yaml".to_owned());
            assert(texts(out@) =~= candidate_places(
                None,
                opt_text(*config_dir),
                opt_text(*home),
            ));
        },
    }
    out
}

/// Lays the files over the defaults, then the environment.
pub fn load_layers(base: &Json, files: &Vec<ConfigFile>, env: &Vec<EnvPair>) -> (r: Result<
    (Json, Vec<ConfigLayer>),
    LoadError,
>)
    ensures
        match (r, layered(base@, file_models(files@), env_models(env@))) {
            (Ok((t, l)), Ok((u, m))) => t@ == u && layer_models(l@) == m,
            (Err(e), Err(f)) => e@ == f,
            _ => false,
        },
{
    let (tree, found) = match lay_files(base, files) {
        Ok(x) => x,
        Err(e) => {
            return Err(LoadError::Refused(e));
        },
    };
    let mut layers = found;
    let ghost l0 = layers@;
    match tree {
        Json::Object(map) => {
            let before = Json::Object(map.clone());
            let mut root = map;
            let keys = match apply_env_overrides(&mut root, env) {
                Some(k) => k,
                None => {
                    return Err(LoadError::Blocked);
                },
            };
            let mut after = Json::Object(root);
            let overrides = diff_values(&before, &after);
            let layer = ConfigLayer { source: ConfigSource::Env { keys }, overrides };
            layers.push(layer);
            assert(layer_models(layers@) =~= layer_models(l0).push(layer@));
            normalize_router_aliases(&mut after);
            normalize_kb_aliases(&mut after);
            Ok((after, layers))
        },
        other => {
            let layer = ConfigLayer {
                source: ConfigSource::Env { keys: Vec::new() },
                overrides: Vec::new(),
            };
            assert(layer@.overrides =~= seq![]);
            assert(layer@.source->Env_0 =~= seq![]);
            layers.push(layer);
            assert(layer_models(layers@) =~= layer_models(l0).push(layer@));
            let mut after = other;
            normalize_router_aliases(&mut after);
            normalize_kb_aliases(&mut after);
            Ok((after, layers))
        },
    }
}

} // verus!
