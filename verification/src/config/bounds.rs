//! What settings are accepted, and what paths, routes and variables stand for.

use crate::config::checks::{
    config_complaint, expanded, kinds_complaint, present_sockets_dir, var, SurroundingsModel, VarModels,
};
use crate::config::overrides::{
    alias_path, candidate_places, env_path, env_value, file_tree, lowered_all, ContentModel, FileModel,
};
use crate::config::routes::{
    default_routes, in_trial_order, pair_models, route_models, routes_of, routes_of_pairs, specificity,
    tried_before, trial_order_keeps_the_routes, trial_ordered, RouteRepr,
};
use crate::config::settings::{sockets_dir_text, Config};
use crate::json::{int_model, JsonModel, MapModel, NumeralModel};
use crate::openings::literal::int_literal;
use crate::paths::{file_name, joined_path, parent};
use crate::text::{has_char, has_prefix, lower, split_on, text_lt, texts, trim, trim_end_of};
use crate::config::trees::{below, differences};
use crate::config::keys::{known_keys, path_below, strangers, unknown_below, unknown_keys};
use crate::yaml::plain_document;
use vstd::prelude::*;

verus! {

/// A kind of publisher that may be named, in any case and with space around it.
pub open spec fn known_kind(k: Seq<char>) -> bool {
    let t = lower(trim(k));
    t == "ui"@ || t == "tui"@ || t == "agent"@
}

/// Settings are accepted just where the version is known, agents run in the known container, the
/// metrics are neither too frequent nor too rare, there is a place for sockets, and every kind of
/// publisher is known.
pub proof fn settings_are_accepted_within_bounds(c: Config)
    ensures
        config_complaint(c) is None <==> {
            &&& c.version == 1
            &&& c.runtime.agent_container@ == "wasm32-wasip1"@
            &&& 100 <= c.observability.metrics_interval_ms <= 60_000
            &&& c.runtime.socket_path matches Some(p) ==> trim(p@).len() > 0
            &&& c.runtime.socket_path is None ==> trim(c.runtime.sockets_dir@).len() > 0
            &&& forall|i: int|
                0 <= i < c.bus.auth.publishers.action_decision.allowed_kinds@.len() ==> known_kind(
                    (#[trigger] c.bus.auth.publishers.action_decision.allowed_kinds@[i])@,
                )
        },
{
    let v = c.bus.auth.publishers.action_decision.allowed_kinds@;
    kinds_must_be_known(texts(v));
    assert forall|i: int| 0 <= i < v.len() implies #[trigger] texts(v)[i] == v[i]@ by {}
    if kinds_complaint(texts(v)) is None {
        assert forall|i: int| 0 <= i < v.len() implies known_kind((#[trigger] v[i])@) by {
            assert(known_kind(texts(v)[i]));
        }
    } else if forall|i: int| 0 <= i < v.len() ==> known_kind((#[trigger] v[i])@) {
        assert forall|i: int| 0 <= i < texts(v).len() implies known_kind(#[trigger] texts(v)[i]) by {
            assert(known_kind(v[i]@));
        }
    }
}

/// A list of kinds is accepted just where each of them is known.
pub proof fn kinds_must_be_known(kinds: Seq<Seq<char>>)
    ensures
        kinds_complaint(kinds) is None <==> forall|i: int|
            0 <= i < kinds.len() ==> known_kind(#[trigger] kinds[i]),
    decreases kinds.len(),
{
    if kinds.len() > 0 {
        let rest = kinds.skip(1);
        kinds_must_be_known(rest);
        reveal_strlit("ui");
        reveal_strlit("tui");
        reveal_strlit("agent");
        assert forall|i: int| 0 <= i < rest.len() implies #[trigger] rest[i] == kinds[i + 1] by {}
        if kinds_complaint(kinds) is None {
            assert forall|i: int| 0 <= i < kinds.len() implies known_kind(#[trigger] kinds[i]) by {
                if i > 0 {
                    assert(known_kind(rest[i - 1]));
                }
            }
        } else if forall|i: int| 0 <= i < kinds.len() ==> known_kind(#[trigger] kinds[i]) {
            assert(known_kind(kinds[0]));
            assert forall|i: int| 0 <= i < rest.len() implies known_kind(#[trigger] rest[i]) by {
                assert(known_kind(kinds[i + 1]));
            }
        }
    }
}

/// The value of a variable is the first that is given under its name.
pub proof fn variables_are_found_by_name(vars: VarModels, name: Seq<char>)
    ensures
        var(vars, name) matches Some(v) ==> exists|i: int|
            0 <= i < vars.len() && #[trigger] vars[i] == (name, v) && forall|k: int|
                0 <= k < i ==> (#[trigger] vars[k]).0 != name,
        var(vars, name) is None <==> forall|k: int| 0 <= k < vars.len() ==> (#[trigger] vars[k]).0 != name,
    decreases vars.len(),
{
    if vars.len() > 0 {
        let rest = vars.skip(1);
        variables_are_found_by_name(rest, name);
        if vars[0].0 == name {
            assert(vars[0] == (name, vars[0].1));
        } else {
            if var(rest, name) is Some {
                let v = var(rest, name)->0;
                let i = choose|i: int|
                    0 <= i < rest.len() && #[trigger] rest[i] == (name, v) && forall|k: int|
                        0 <= k < i ==> (#[trigger] rest[k]).0 != name;
                assert(vars[i + 1] == (name, v));
                assert forall|k: int| 0 <= k < i + 1 implies (#[trigger] vars[k]).0 != name by {
                    if k > 0 {
                        assert(vars[k] == rest[k - 1]);
                    }
                }
            } else {
                assert forall|k: int| 0 <= k < vars.len() implies (#[trigger] vars[k]).0 != name by {
                    if k > 0 {
                        assert(vars[k] == rest[k - 1]);
                    }
                }
            }
        }
    }
}

/// A path below the tilde lies in the home directory, and one that names a variable is that
/// variable's value.
pub proof fn paths_are_expanded(rest: Seq<char>, home: Seq<char>, s: SurroundingsModel)
    requires
        s.home == Some(home),
    ensures
        expanded("~/"@ + rest, s) == joined_path(home, rest),
        var(s.vars, rest) is Some ==> expanded("env:"@ + rest, s) == var(s.vars, rest)->0,
{
    reveal_strlit("~/");
    reveal_strlit("env:");
    assert(("~/"@ + rest).take(2) =~= "~/"@);
    assert(("~/"@ + rest).skip(2) =~= rest);
    let e = "env:"@ + rest;
    assert(e.take(4) =~= "env:"@);
    assert(e.skip(4) =~= rest);
    assert(!has_prefix(e, "~/"@)) by {
        if has_prefix(e, "~/"@) {
            assert(e.take(2)[0] == "~/"@[0]);
        }
    }
}

/// Only the old directory for sockets gets another name.
pub proof fn old_socket_places_are_renamed(p: Seq<char>)
    ensures
        present_sockets_dir(p) != p ==> file_name(p) == Some("run"@),
        parent(p) is Some && file_name(p) == Some("run"@) && file_name(parent(p)->0) == Some(".runloop"@)
            ==> present_sockets_dir(p) == joined_path(parent(p)->0, "sock"@),
{
}

/// A route for every model is tried last, a named model before a pattern, and of two patterns the one
/// that says more.
pub proof fn narrower_routes_are_tried_first(a: Seq<char>, b: Seq<char>)
    ensures
        a != "*"@ ==> tried_before(a, "*"@) && !tried_before("*"@, a),
        b != "*"@ && !has_char(a, '*') && has_char(b, '*') ==> tried_before(a, b) && !tried_before(b, a),
        a != "*"@ && b != "*"@ && has_char(a, '*') == has_char(b, '*') && specificity(a) > specificity(b)
            ==> tried_before(a, b) && !tried_before(b, a),
        a != "*"@ && b != "*"@ && has_char(a, '*') == has_char(b, '*') && specificity(a) == specificity(b)
            ==> tried_before(a, b) == text_lt(a, b),
{
    reveal_strlit("*");
    assert("*"@[0] == '*');
    assert(has_char("*"@, '*'));
    if a == "*"@ {
        assert(has_char(a, '*'));
    }
}

/// Every character of a pattern counts, but for the stars.
pub proof fn stars_do_not_count(s: Seq<char>, c: char)
    ensures
        specificity(s.push(c)) == specificity(s) + if c == '*' {
            0nat
        } else {
            1nat
        },
        specificity(Seq::<char>::empty()) == 0,
{
    assert(s.push(c).drop_last() =~= s);
}

/// The routes are those that are listed, in that order; pairs are put in the order of trial; without
/// any, everything goes to the one at hand.
pub proof fn routes_are_those_configured(repr: RouteRepr)
    ensures
        repr matches RouteRepr::List(l) ==> l@.len() > 0 ==> routes_of(repr) == route_models(l@),
        repr matches RouteRepr::Pairs(p) ==> p@.len() > 0 ==> routes_of(repr).len() == p@.len()
            && trial_ordered(in_trial_order(pair_models(p@))) && forall|i: int|
            0 <= i < routes_of(repr).len() ==> (#[trigger] routes_of(repr)[i]).target_model is None
                && pair_models(p@).contains((routes_of(repr)[i].pattern, routes_of(repr)[i].provider)),
        (repr is Missing) ==> routes_of(repr) == default_routes(),
        default_routes().len() == 1 && default_routes()[0].pattern == "*"@ && default_routes()[0].provider
            == "local"@ && default_routes()[0].target_model is None,
        routes_of(repr).len() > 0,
{
    if let RouteRepr::Pairs(p) = repr {
        let m = pair_models(p@);
        let s = in_trial_order(m);
        trial_order_keeps_the_routes(m);
        m.to_multiset_ensures();
        s.to_multiset_ensures();
        assert(s.len() == m.len());
        if p@.len() > 0 {
            assert(routes_of(repr) == routes_of_pairs(s));
            assert forall|i: int| 0 <= i < routes_of(repr).len() implies (
            #[trigger] routes_of(repr)[i]).target_model is None && m.contains(
                (routes_of(repr)[i].pattern, routes_of(repr)[i].provider),
            ) by {
                assert(s.contains(s[i]));
                assert(s.to_multiset().count(s[i]) > 0);
                assert(m.contains(s[i]));
                assert((s[i].0, s[i].1) == s[i]);
            }
        }
    }
}

/// The words are truth values and figures are numbers; a text that is neither, and no JSON in
/// brackets, stays a text.
pub proof fn variables_are_read_by_their_looks(raw: Seq<char>, fraction: Option<Seq<char>>)
    ensures
        raw == "true"@ || raw == "TRUE"@ ==> env_value(raw, fraction) == JsonModel::Bool(true),
        raw == "false"@ || raw == "FALSE"@ ==> env_value(raw, fraction) == JsonModel::Bool(false),
        raw != "true"@ && raw != "TRUE"@ && raw != "false"@ && raw != "FALSE"@ && int_literal(raw) is Some
            ==> env_value(raw, fraction) == int_model(int_literal(raw)->0),
        raw != "true"@ && raw != "TRUE"@ && raw != "false"@ && raw != "FALSE"@ && int_literal(raw) is None
            && fraction is Some ==> env_value(raw, fraction) == JsonModel::Number(
            NumeralModel::Float(fraction->0),
        ),
        raw != "true"@ && raw != "TRUE"@ && raw != "false"@ && raw != "FALSE"@ && int_literal(raw) is None
            && fraction is None && !has_prefix(raw, "{"@) && !has_prefix(raw, "["@) ==> env_value(
            raw,
            fraction,
        ) == JsonModel::Text(raw),
{
    reveal_strlit("true");
    reveal_strlit("TRUE");
    reveal_strlit("false");
    reveal_strlit("FALSE");
    assert("true"@.len() == 4 && "TRUE"@.len() == 4 && "false"@.len() == 5 && "FALSE"@.len() == 5);
}

/// A variable with the common prefix changes the setting that the parts of its name lead to, whatever
/// their case.
pub proof fn names_lead_to_their_setting(rest: Seq<char>)
    ensures
        ({
            let path = lowered_all(split_on(rest, "__"@));
            path != seq!["router"@, "shell_fastpath"@] && path != seq!["router"@, "allow_shell_fastpath"@]
                ==> env_path("RUNLOOP__"@ + rest) == Some(path)
        }),
        ({
            let path = lowered_all(split_on(rest, "__"@));
            path == seq!["router"@, "shell_fastpath"@] || path == seq!["router"@, "allow_shell_fastpath"@]
                ==> env_path("RUNLOOP__"@ + rest) == Some(seq!["router"@, "fastpath_shell"@])
        }),
{
    let key = "RUNLOOP__"@ + rest;
    assert(key.take("RUNLOOP__"@.len() as int) =~= "RUNLOOP__"@);
    assert(key.skip("RUNLOOP__"@.len() as int) =~= rest);
}

/// A file that is named is the only one that is read; else the user's places come before the system's.
pub proof fn named_files_are_the_only_ones(p: Seq<char>, d: Option<Seq<char>>, h: Option<Seq<char>>)
    ensures
        candidate_places(Some(p), d, h) == seq![p],
        candidate_places(None, d, h).last() == "/etc/runloop/config.yaml"@,
        d matches Some(dir) ==> candidate_places(None, d, h)[0] == joined_path(
            joined_path(dir, "runloop"@),
            "config.yaml"@,
        ),
        h matches Some(home) ==> candidate_places(None, d, h)[candidate_places(None, d, h).len() - 2]
            == joined_path(joined_path(home, ".runloop"@), "config.yaml"@),
{
}

/// Settings that are alike have no differences; a value that changed is told with its name, what it was
/// and what it is.
pub proof fn changes_are_told(at: Seq<char>, before: JsonModel, after: JsonModel, key: Seq<char>)
    ensures
        differences(at, before, before).len() == 0,
        before != after && !(before is Object && after is Object) ==> differences(at, before, after).len() == 1
            && differences(at, before, after)[0].key == at && differences(at, before, after)[0].new_value == after,
        before != after && !(before is Object) && before != JsonModel::Null ==> differences(
            at,
            before,
            after,
        )[0].previous == Some(before),
        before != after && before == JsonModel::Null ==> differences(at, before, after)[0].previous is None,
        below(Seq::<char>::empty(), key) == key,
        at.len() > 0 ==> below(at, key) == at + "."@ + key,
{
}

/// A key that a section does not know is told with its section; what a section knows is not.
pub proof fn strange_keys_are_told(m: MapModel, path: Seq<char>, n: int)
    requires
        0 <= n < m.len(),
        known_keys(path).len() > 0,
    ensures
        known_keys(path).contains(m[n].0) ==> strangers(m, path, n + 1) == strangers(m, path, n),
        !known_keys(path).contains(m[n].0) ==> strangers(m, path, n + 1) == strangers(m, path, n).push(
            (m[n].0, path),
        ),
        strangers(m, path, 0).len() == 0,
{
}

/// Keys are looked at in a section and in all that is below it.
pub proof fn keys_are_looked_at_all_the_way_down(m: MapModel, path: Seq<char>, n: int, t: Seq<char>)
    requires
        0 <= n < m.len(),
    ensures
        unknown_keys(JsonModel::Object(m), path) == strangers(m, path, m.len() as int) + unknown_below(
            m,
            path,
            m.len() as int,
        ),
        unknown_below(m, path, n + 1) == unknown_below(m, path, n) + unknown_keys(
            m[n].1,
            path_below(path, m[n].0),
        ),
        unknown_keys(JsonModel::Text(t), path).len() == 0,
{
}

/// A file that is not there adds nothing; one that cannot be read or understood is told with its path.
pub proof fn files_are_read_or_told(f: FileModel, t: Seq<char>)
    ensures
        f.content is Missing ==> file_tree(f) is Ok && file_tree(f)->Ok_0 is None,
        f.content matches ContentModel::Unreadable(m) ==> file_tree(f) is Err,
        f.content matches ContentModel::NotText(m) ==> file_tree(f) is Err,
        f.content == ContentModel::Text(t) && plain_document(t) is Ok ==> file_tree(f) is Ok
            && file_tree(f)->Ok_0 == Some(plain_document(t)->Ok_0),
        f.content == ContentModel::Text(t) && plain_document(t) is Err ==> file_tree(f) is Err,
{
}

/// Sockets stand below the runtime's directory where there is one, however it ends.
pub proof fn sockets_stand_below_the_runtime(d: Seq<char>)
    ensures
        trim(d).len() > 0 ==> sockets_dir_text(Some(d)) == trim_end_of(d, '/') + "/runloop"@,
        trim(d).len() == 0 ==> sockets_dir_text(Some(d)) == sockets_dir_text(None),
        sockets_dir_text(None) == "~/.runloop/sock"@,
{
}



/// The variables with names of their own lead to their settings.
pub proof fn aliases_lead_to_their_setting(key: Seq<char>)
    ensures
        key == "RUNLOOP_LOG_LEVEL"@ ==> alias_path(key) == Some(seq!["logging"@, "level"@]),
        key == "RUNLOOP_MODELS_DEFAULT"@ ==> alias_path(key) == Some(seq!["models"@, "default"@]),
        key == "RUNLOOP_KB_ROOT_DIR"@ ==> alias_path(key) == Some(seq!["kb"@, "root_dir"@]),
        key == "RUNLOOP_SECURITY_CONFIRM_EXTERNAL_ACTIONS"@ ==> alias_path(key) == Some(
            seq!["security"@, "confirm_external_actions"@],
        ),
        key == "RUNLOOP_ROUTER_DEFAULT_OPENING"@ ==> alias_path(key) == Some(
            seq!["router"@, "default_opening"@],
        ),
{
    reveal_strlit("RUNLOOP_LOG_LEVEL");
    reveal_strlit("RUNLOOP_RUNTIME_AGENT_CONTAINER");
    reveal_strlit("RUNLOOP_ROUTER_DEFAULT_OPENING");
    reveal_strlit("RUNLOOP_ROUTER_SHELL_FASTPATH");
    reveal_strlit("RUNLOOP_ROUTER_ALLOW_SHELL_FASTPATH");
    reveal_strlit("RUNLOOP_MODELS_DEFAULT");
    reveal_strlit("RUNLOOP_KB_ROOT_DIR");
    reveal_strlit("RUNLOOP_SECURITY_CONFIRM_EXTERNAL_ACTIONS");
    assert("RUNLOOP_LOG_LEVEL"@.len() == 17 && "RUNLOOP_RUNTIME_AGENT_CONTAINER"@.len() == 31
        && "RUNLOOP_ROUTER_DEFAULT_OPENING"@.len() == 30 && "RUNLOOP_ROUTER_SHELL_FASTPATH"@.len() == 29
        && "RUNLOOP_ROUTER_ALLOW_SHELL_FASTPATH"@.len() == 35 && "RUNLOOP_MODELS_DEFAULT"@.len() == 22
        && "RUNLOOP_KB_ROOT_DIR"@.len() == 19 && "RUNLOOP_SECURITY_CONFIRM_EXTERNAL_ACTIONS"@.len() == 41);
}

} // verus!
