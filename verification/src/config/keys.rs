//! The keys that a configuration may hold.

use crate::json::{Json, JsonMap, JsonModel, MapModel};
use crate::text::{concat3, same};
use vstd::prelude::*;

verus! {

/// The keys that are known below a path; none where any key may stand.
pub open spec fn known_keys(path: Seq<char>) -> Seq<Seq<char>> {
    if path == ""@ {
        seq![
            "version"@,
            "runtime"@,
            "models"@,
            "kb"@,
            "security"@,
            "router"@,
            "ui"@,
            "logging"@,
            "observability"@,
            "openings"@,
            "agents"@,
            "bus"@,
        ]
    } else if path == "runtime"@ {
        seq![
            "base"@,
            "agent_container"@,
            "socket_path"@,
            "workdir"@,
            "sockets_dir"@,
            "max_agents"@,
            "pressure_threshold"@,
        ]
    } else if path == "runtime/pressure_threshold"@ {
        seq![
            "cpu_pct"@,
            "mem_pct"@,
            "io_wait_pct"@,
        ]
    } else if path == "models"@ {
        seq![
            "default"@,
            "broker"@,
        ]
    } else if path == "models/broker"@ {
        seq![
            "providers"@,
            "route"@,
            "routing"@,
            "budgets"@,
            "cache"@,
        ]
    } else if path == "kb"@ {
        seq![
            "root_dir"@,
            "events_db"@,
            "view_db"@,
            "wal"@,
            "fts"@,
            "redaction"@,
        ]
    } else if path == "observability"@ {
        seq![
            "traces"@,
            "metrics_interval_ms"@,
        ]
    } else if path == "observability/traces"@ {
        seq![
            "enabled"@,
            "otlp_endpoint"@,
            "sampling"@,
        ]
    } else if path == "kb/redaction"@ {
        seq![
            "mask_email"@,
            "level"@,
            "at_query_time"@,
            "materialize_masked_columns"@,
            "url_param_denylist"@,
        ]
    } else if path == "security"@ {
        seq![
            "confirm_external_actions"@,
            "allow_unsigned_agents"@,
            "allowed_agent_signers"@,
            "caps"@,
            "secrets"@,
            "testing"@,
        ]
    } else if path == "security/caps"@ {
        seq![
            "audit_on_allow"@,
            "audit_on_deny"@,
        ]
    } else if path == "security/secrets"@ {
        seq![
            "provider"@,
            "root"@,
            "encryption"@,
            "master_key"@,
            "allow_export"@,
            "allow_list"@,
            "default_ttl"@,
        ]
    } else if path == "security/testing"@ {
        seq![
            "broker_mode"@,
            "broker_seed"@,
            "allow_missing_secrets"@,
            "expose_raw_secrets"@,
        ]
    } else if path == "router"@ {
        seq![
            "fastpath_shell"@,
            "default_opening"@,
            "allowlist"@,
            "denylist"@,
            "known_commands"@,
        ]
    } else if path == "ui"@ {
        seq![
            "theme"@,
            "confirm_prompts"@,
        ]
    } else if path == "logging"@ {
        seq![
            "level"@,
            "file"@,
            "format"@,
        ]
    } else if path == "openings"@ {
        seq![
            "search_dirs"@,
        ]
    } else if path == "agents"@ {
        seq![
            "search_dirs"@,
        ]
    } else if path == "bus"@ {
        seq![
            "auth"@,
        ]
    } else if path == "bus/auth"@ {
        seq![
            "publishers"@,
        ]
    } else if path == "bus/auth/publishers"@ {
        seq![
            "action_decision"@,
        ]
    } else if path == "bus/auth/publishers/action_decision"@ {
        seq![
            "allowed_kinds"@,
        ]
    } else {
        seq![]
    }
}

pub open spec fn words_of(s: Seq<&str>) -> Seq<Seq<char>> {
    s.map_values(|w: &str| w@)
}

pub fn known_keys_for_path(path: &str) -> (r: Vec<&'static str>)
    ensures
        words_of(r@) == known_keys(path@),
{
    let r: Vec<&'static str> = if same(path, "") {
        vec!["version", "runtime", "models", "kb", "security", "router", "ui", "logging", "observability", "openings", "agents", "bus"]
    } else if same(path, "runtime") {
        vec!["base", "agent_container", "socket_path", "workdir", "sockets_dir", "max_agents", "pressure_threshold"]
    } else if same(path, "runtime/pressure_threshold") {
        vec!["cpu_pct", "mem_pct", "io_wait_pct"]
    } else if same(path, "models") {
        vec!["default", "broker"]
    } else if same(path, "models/broker") {
        vec!["providers", "route", "routing", "budgets", "cache"]
    } else if same(path, "kb") {
        vec!["root_dir", "events_db", "view_db", "wal", "fts", "redaction"]
    } else if same(path, "observability") {
        vec!["traces", "metrics_interval_ms"]
    } else if same(path, "observability/traces") {
        vec!["enabled", "otlp_endpoint", "sampling"]
    } else if same(path, "kb/redaction") {
        vec!["mask_email", "level", "at_query_time", "materialize_masked_columns", "url_param_denylist"]
    } else if same(path, "security") {
        vec!["confirm_external_actions", "allow_unsigned_agents", "allowed_agent_signers", "caps", "secrets", "testing"]
    } else if same(path, "security/caps") {
        vec!["audit_on_allow", "audit_on_deny"]
    } else if same(path, "security/secrets") {
        vec!["provider", "root", "encryption", "master_key", "allow_export", "allow_list", "default_ttl"]
    } else if same(path, "security/testing") {
        vec!["broker_mode", "broker_seed", "allow_missing_secrets", "expose_raw_secrets"]
    } else if same(path, "router") {
        vec!["fastpath_shell", "default_opening", "allowlist", "denylist", "known_commands"]
    } else if same(path, "ui") {
        vec!["theme", "confirm_prompts"]
    } else if same(path, "logging") {
        vec!["level", "file", "format"]
    } else if same(path, "openings") {
        vec!["search_dirs"]
    } else if same(path, "agents") {
        vec!["search_dirs"]
    } else if same(path, "bus") {
        vec!["auth"]
    } else if same(path, "bus/auth") {
        vec!["publishers"]
    } else if same(path, "bus/auth/publishers") {
        vec!["action_decision"]
    } else if same(path, "bus/auth/publishers/action_decision") {
        vec!["allowed_kinds"]
    } else {
        vec![]
    };
    assert(words_of(r@) =~= known_keys(path@));
    r
}

/// A key that is not known, and the path below which it stands.
#[derive(Debug)]
pub struct UnknownKey {
    pub key: String,
    pub path: String,
}

pub open spec fn unknown_models(s: Seq<UnknownKey>) -> Seq<(Seq<char>, Seq<char>)> {
    s.map_values(|u: UnknownKey| (u.key@, u.path@))
}

pub open spec fn path_below(path: Seq<char>, key: Seq<char>) -> Seq<char> {
    if path.len() == 0 {
        key
    } else {
        path + "/"@ + key
    }
}

/// The keys of an object that are not known, of the first `n`.
pub open spec fn strangers(m: MapModel, path: Seq<char>, n: int) -> Seq<(Seq<char>, Seq<char>)>
    decreases n,
{
    if n <= 0 || n > m.len() {
        seq![]
    } else {
        let rest = strangers(m, path, n - 1);
        if known_keys(path).len() > 0 && !known_keys(path).contains(m[n - 1].0) {
            rest.push((m[n - 1].0, path))
        } else {
            rest
        }
    }
}

/// The keys of a tree that are not known: those of the object itself, then those below each key.
pub open spec fn unknown_keys(j: JsonModel, path: Seq<char>) -> Seq<(Seq<char>, Seq<char>)>
    decreases j, 0int,
{
    match j {
        JsonModel::Object(m) => strangers(m, path, m.len() as int) + unknown_below(
            m,
            path,
            m.len() as int,
        ),
        _ => seq![],
    }
}

pub open spec fn unknown_below(m: MapModel, path: Seq<char>, n: int) -> Seq<(Seq<char>, Seq<char>)>
    decreases m, n,
{
    if n <= 0 || n > m.len() {
        seq![]
    } else {
        unknown_below(m, path, n - 1) + unknown_keys(m[n - 1].1, path_below(path, m[n - 1].0))
    }
}

fn is_known(known: &Vec<&'static str>, key: &str) -> (r: bool)
    ensures
        r == words_of(known@).contains(key@),
{
    let ghost w = words_of(known@);
    let mut i: usize = 0;
    while i < known.len()
        invariant
            i <= known.len(),
            w == words_of(known@),
            forall|k: int| 0 <= k < i ==> (#[trigger] w[k]) != key@,
        decreases known.len() - i,
    {
        if same(known[i], key) {
            assert(w[i as int] == key@);
            return true;
        }
        assert(w[i as int] != key@);
        i += 1;
    }
    false
}

fn note_strangers(m: &JsonMap, path: &str, out: &mut Vec<UnknownKey>)
    ensures
        unknown_models(final(out)@) == unknown_models(old(out)@) + strangers(
            m@,
            path@,
            m@.len() as int,
        ),
{
    let known = known_keys_for_path(path);
    let ghost o = unknown_models(out@);
    let mut i: usize = 0;
    assert(o + strangers(m@, path@, 0) =~= o);
    while i < m.entries.len()
        invariant
            i <= m.entries.len(),
            words_of(known@) == known_keys(path@),
            unknown_models(out@) == o + strangers(m@, path@, i as int),
        decreases m.entries.len() - i,
    {
        let key = m.entries[i].0.as_str();
        let ghost before = out@;
        if known.len() > 0 && !is_known(&known, key) {
            let u = UnknownKey { key: key.to_owned(), path: path.to_owned() };
            out.push(u);
            assert(unknown_models(out@) =~= unknown_models(before).push((key@, path@)));
            assert(unknown_models(out@) =~= o + strangers(m@, path@, i + 1));
        }
        i += 1;
    }
}

fn note_unknown(document: &Json, path: &str, out: &mut Vec<UnknownKey>)
    ensures
        unknown_models(final(out)@) == unknown_models(old(out)@) + unknown_keys(document@, path@),
    decreases document,
{
    let ghost o = unknown_models(out@);
    match document {
        Json::Object(m) => {
            note_strangers(m, path, out);
            note_below(m, path, out);
            assert(unknown_models(out@) =~= o + unknown_keys(document@, path@));
        },
        _ => {
            assert(o + unknown_keys(document@, path@) =~= o);
        },
    }
}

fn note_below(m: &JsonMap, path: &str, out: &mut Vec<UnknownKey>)
    ensures
        unknown_models(final(out)@) == unknown_models(old(out)@) + unknown_below(
            m@,
            path@,
            m@.len() as int,
        ),
    decreases m,
{
    let ghost o = unknown_models(out@);
    let mut i: usize = 0;
    assert(o + unknown_below(m@, path@, 0) =~= o);
    while i < m.entries.len()
        invariant
            i <= m.entries.len(),
            unknown_models(out@) == o + unknown_below(m@, path@, i as int),
        decreases m.entries.len() - i,
    {
        let key = m.entries[i].0.as_str();
        let inner = if path.is_empty() {
            key.to_owned()
        } else {
            concat3(path, "/", key)
        };
        note_unknown(&m.entries[i].1, inner.as_str(), out);
        i += 1;
        assert(unknown_models(out@) =~= o + unknown_below(m@, path@, i as int));
    }
}

/// The keys of a document that are not known, each with its path.
pub fn find_unknown_keys(document: &Json) -> (r: Vec<UnknownKey>)
    ensures
        unknown_models(r@) == unknown_keys(document@, ""@),
{
    let mut out: Vec<UnknownKey> = Vec::new();
    note_unknown(document, "", &mut out);
    assert(unknown_models(out@) =~= unknown_keys(document@, ""@));
    out
}

} // verus!
