//! Parameter templates in node inputs.

use crate::json::{list_model, map_get, Json, JsonMap, JsonModel, MapModel};
use crate::openings::locate::SourceLocation;
use crate::openings::model::{fault_at, validation, Error};
use crate::text::{all_name_chars, contains, has_prefix, has_suffix, has_text, strip_prefix};
use crate::text::{strip_suffix, trim, trimmed, valid_identifier};
use vstd::prelude::*;

verus! {

pub open spec fn has_braces(t: Seq<char>) -> bool {
    has_text(t, "{{"@) || has_text(t, "}}"@)
}

pub fn braces(t: &str) -> (r: bool)
    ensures
        r == has_braces(t@),
{
    contains(t, "{{") || contains(t, "}}")
}

/// What stands between the braces of `t`, if it starts and ends with braces.
pub open spec fn between_braces(t: Seq<char>) -> Option<Seq<char>> {
    if has_prefix(t, "{{"@) && has_suffix(t.skip("{{"@.len() as int), "}}"@) {
        let u = t.skip("{{"@.len() as int);
        Some(trim(u.take(u.len() - "}}"@.len())))
    } else {
        None
    }
}

/// The parameter that `t` stands for, if `t` is a template and nothing else.
pub open spec fn template_param(t: Seq<char>) -> Option<Seq<char>> {
    match between_braces(t) {
        Some(inner) => if has_prefix(inner, "params."@) && all_name_chars(
            inner.skip("params."@.len() as int),
        ) {
            Some(inner.skip("params."@.len() as int))
        } else {
            None
        },
        None => None,
    }
}

pub fn extract_template(t: &str) -> (r: Option<String>)
    ensures
        match r {
            Some(p) => template_param(t@) == Some(p@),
            None => template_param(t@) is None,
        },
{
    let rest = match strip_prefix(t, "{{") {
        Some(u) => match strip_suffix(u.as_str(), "}}") {
            Some(w) => trimmed(w.as_str()),
            None => {
                return None;
            },
        },
        None => {
            return None;
        },
    };
    match strip_prefix(rest.as_str(), "params.") {
        Some(name) => if valid_identifier(name.as_str()) {
            Some(name)
        } else {
            None
        },
        None => None,
    }
}

pub open spec fn embedded_message(t: Seq<char>) -> Seq<char> {
    "embedded template syntax not allowed in parameter value '"@ + t + "'"@
}

/// The complaint about the first text with braces in `v`, if there is one.
pub open spec fn stray(v: JsonModel) -> Option<Seq<char>>
    decreases v, 0int,
{
    match v {
        JsonModel::Text(t) => if has_braces(t) {
            Some(embedded_message(t))
        } else {
            None
        },
        JsonModel::Array(s) => stray_in(s, s.len() as int),
        JsonModel::Object(m) => stray_under(m, m.len() as int),
        _ => None,
    }
}

pub open spec fn stray_in(s: Seq<JsonModel>, n: int) -> Option<Seq<char>>
    decreases s, n,
{
    if n <= 0 || n > s.len() {
        None
    } else {
        match stray_in(s, n - 1) {
            Some(m) => Some(m),
            None => stray(s[n - 1]),
        }
    }
}

pub open spec fn stray_under(m: MapModel, n: int) -> Option<Seq<char>>
    decreases m, n,
{
    if n <= 0 || n > m.len() {
        None
    } else {
        match stray_under(m, n - 1) {
            Some(e) => Some(e),
            None => stray(m[n - 1].1),
        }
    }
}

/// The complaint about template braces inside a parameter's value.
fn stray_template(v: &Json) -> (r: Option<String>)
    ensures
        match r {
            Some(m) => stray(v@) == Some(m@),
            None => stray(v@) is None,
        },
    decreases v,
{
    match v {
        Json::Text(t) => if braces(t.as_str()) {
            Some(
                crate::text::concat3(
                    "embedded template syntax not allowed in parameter value '",
                    t.as_str(),
                    "'",
                ),
            )
        } else {
            None
        },
        Json::Array(items) => stray_in_list(items),
        Json::Object(map) => stray_in_map(map),
        _ => None,
    }
}

fn stray_in_list(items: &Vec<Json>) -> (r: Option<String>)
    ensures
        match r {
            Some(m) => stray_in(list_model(items@), items@.len() as int) == Some(m@),
            None => stray_in(list_model(items@), items@.len() as int) is None,
        },
    decreases items,
{
    let ghost s = list_model(items@);
    let mut i: usize = 0;
    while i < items.len()
        invariant
            i <= items.len(),
            s == list_model(items@),
            stray_in(s, i as int) is None,
        decreases items.len() - i,
    {
        assert(s[i as int] == items@[i as int]@);
        match stray_template(&items[i]) {
            Some(m) => {
                proof {
                    lemma_stray_in_stays(s, i + 1, s.len() as int);
                }
                return Some(m);
            },
            None => {},
        }
        i += 1;
    }
    None
}

fn stray_in_map(map: &JsonMap) -> (r: Option<String>)
    ensures
        match r {
            Some(m) => stray_under(map@, map@.len() as int) == Some(m@),
            None => stray_under(map@, map@.len() as int) is None,
        },
    decreases map,
{
    let mut i: usize = 0;
    while i < map.entries.len()
        invariant
            i <= map.entries.len(),
            stray_under(map@, i as int) is None,
        decreases map.entries.len() - i,
    {
        assert(map@[i as int].1 == map.entries@[i as int].1@);
        match stray_template(&map.entries[i].1) {
            Some(m) => {
                proof {
                    lemma_stray_under_stays(map@, i + 1, map@.len() as int);
                }
                return Some(m);
            },
            None => {},
        }
        i += 1;
    }
    None
}

proof fn lemma_stray_in_stays(s: Seq<JsonModel>, a: int, b: int)
    requires
        0 <= a <= b <= s.len(),
        stray_in(s, a) is Some,
    ensures
        stray_in(s, b) == stray_in(s, a),
    decreases b - a,
{
    if a < b {
        lemma_stray_in_stays(s, a, b - 1);
    }
}

proof fn lemma_stray_under_stays(m: MapModel, a: int, b: int)
    requires
        0 <= a <= b <= m.len(),
        stray_under(m, a) is Some,
    ensures
        stray_under(m, b) == stray_under(m, a),
    decreases b - a,
{
    if a < b {
        lemma_stray_under_stays(m, a, b - 1);
    }
}

pub open spec fn missing_message(p: Seq<char>) -> Seq<char> {
    "template '{{params."@ + p + "}}' references missing parameter"@
}

pub open spec fn syntax_message(t: Seq<char>) -> Seq<char> {
    "unsupported template syntax in value '"@ + t + "'; only '{{params.*}}' is allowed"@
}

/// A value with its templates filled in from `params`, and the first complaint. What stands
/// behind a complaint is left as it was.
pub open spec fn filled(v: JsonModel, params: MapModel) -> (JsonModel, Option<Seq<char>>)
    decreases v, 0int,
{
    match v {
        JsonModel::Text(t) => filled_text(t, params),
        JsonModel::Array(s) => {
            let (r, e) = filled_items(s, params, s.len() as int);
            (JsonModel::Array(r), e)
        },
        JsonModel::Object(m) => {
            let (r, e) = filled_fields(m, params, m.len() as int);
            (JsonModel::Object(r), e)
        },
        _ => (v, None),
    }
}

pub open spec fn filled_text(t: Seq<char>, params: MapModel) -> (JsonModel, Option<Seq<char>>) {
    match template_param(t) {
        Some(p) => match map_get(params, p) {
            Some(value) => match stray(value) {
                Some(e) => (JsonModel::Text(t), Some(e)),
                None => (value, None),
            },
            None => (JsonModel::Text(t), Some(missing_message(p))),
        },
        None => if has_braces(t) {
            (JsonModel::Text(t), Some(syntax_message(t)))
        } else {
            (JsonModel::Text(t), None)
        },
    }
}

/// The first `n` items, filled in.
pub open spec fn filled_items(s: Seq<JsonModel>, params: MapModel, n: int) -> (
    Seq<JsonModel>,
    Option<Seq<char>>,
)
    decreases s, n,
{
    if n <= 0 || n > s.len() {
        (seq![], None)
    } else {
        let (done, e) = filled_items(s, params, n - 1);
        match e {
            Some(m) => (done.push(s[n - 1]), Some(m)),
            None => {
                let (x, e2) = filled(s[n - 1], params);
                (done.push(x), e2)
            },
        }
    }
}

/// The first `n` fields, filled in.
pub open spec fn filled_fields(m: MapModel, params: MapModel, n: int) -> (
    MapModel,
    Option<Seq<char>>,
)
    decreases m, n,
{
    if n <= 0 || n > m.len() {
        (seq![], None)
    } else {
        let (done, e) = filled_fields(m, params, n - 1);
        match e {
            Some(c) => (done.push(m[n - 1]), Some(c)),
            None => {
                let (x, e2) = filled(m[n - 1].1, params);
                (done.push((m[n - 1].0, x)), e2)
            },
        }
    }
}

fn fill_text(t: &String, params: &JsonMap) -> (r: (Json, Option<String>))
    ensures
        filled_text(t@, params@) == (r.0@, crate::text::opt_text(r.1)),
{
    match extract_template(t.as_str()) {
        Some(p) => match params.get(p.as_str()) {
            Some(value) => match stray_template(value) {
                Some(e) => (Json::Text(t.clone()), Some(e)),
                None => (value.clone(), None),
            },
            None => (
                Json::Text(t.clone()),
                Some(
                    crate::text::concat3(
                        "template '{{params.",
                        p.as_str(),
                        "}}' references missing parameter",
                    ),
                ),
            ),
        },
        None => if braces(t.as_str()) {
            (
                Json::Text(t.clone()),
                Some(
                    crate::text::concat3(
                        "unsupported template syntax in value '",
                        t.as_str(),
                        "'; only '{{params.*}}' is allowed",
                    ),
                ),
            )
        } else {
            (Json::Text(t.clone()), None)
        },
    }
}

fn fill(v: &Json, params: &JsonMap) -> (r: (Json, Option<String>))
    ensures
        filled(v@, params@) == (r.0@, crate::text::opt_text(r.1)),
    decreases v,
{
    match v {
        Json::Text(t) => fill_text(t, params),
        Json::Array(items) => {
            let (out, e) = fill_items(items, params);
            (Json::Array(out), e)
        },
        Json::Object(map) => {
            let (out, e) = fill_fields(map, params);
            (Json::Object(out), e)
        },
        _ => (v.clone(), None),
    }
}

fn fill_items(items: &Vec<Json>, params: &JsonMap) -> (r: (Vec<Json>, Option<String>))
    ensures
        filled_items(list_model(items@), params@, items@.len() as int) == (
            list_model(r.0@),
            crate::text::opt_text(r.1),
        ),
    decreases items,
{
    let ghost s = list_model(items@);
    let mut out: Vec<Json> = Vec::new();
    let mut complaint: Option<String> = None;
    let mut i: usize = 0;
    assert(list_model(out@) =~= seq![]);
    while i < items.len()
        invariant
            i <= items.len(),
            s == list_model(items@),
            filled_items(s, params@, i as int) == (
                list_model(out@),
                crate::text::opt_text(complaint),
            ),
        decreases items.len() - i,
    {
        assert(s[i as int] == items@[i as int]@);
        let ghost o = out@;
        if complaint.is_some() {
            let x = items[i].clone();
            out.push(x);
            assert(list_model(out@) =~= list_model(o).push(x@));
        } else {
            let (x, e) = fill(&items[i], params);
            out.push(x);
            complaint = e;
            assert(list_model(out@) =~= list_model(o).push(x@));
        }
        i += 1;
    }
    (out, complaint)
}

fn fill_fields(map: &JsonMap, params: &JsonMap) -> (r: (JsonMap, Option<String>))
    ensures
        filled_fields(map@, params@, map@.len() as int) == (r.0@, crate::text::opt_text(r.1)),
    decreases map,
{
    let mut out = JsonMap::new();
    let mut complaint: Option<String> = None;
    let mut i: usize = 0;
    while i < map.entries.len()
        invariant
            i <= map.entries.len(),
            filled_fields(map@, params@, i as int) == (out@, crate::text::opt_text(complaint)),
        decreases map.entries.len() - i,
    {
        assert(map@[i as int] == (map.entries@[i as int].0@, map.entries@[i as int].1@));
        let ghost o = out@;
        let key = map.entries[i].0.clone();
        if complaint.is_some() {
            let x = map.entries[i].1.clone();
            out.entries.push((key, x));
            assert(out@ =~= o.push((key@, x@)));
        } else {
            let (x, e) = fill(&map.entries[i].1, params);
            out.entries.push((key, x));
            complaint = e;
            assert(out@ =~= o.push((key@, x@)));
        }
        i += 1;
    }
    (out, complaint)
}

pub open spec fn filled_map(m: MapModel, params: MapModel) -> (MapModel, Option<Seq<char>>) {
    filled_fields(m, params, m.len() as int)
}

/// Fills in the templates of `payload`.
pub fn apply_param_templates(payload: &mut JsonMap, params: &JsonMap, loc: SourceLocation) -> (r:
    Result<(), Error>)
    ensures
        final(payload)@ == filled_map(old(payload)@, params@).0,
        match (r, filled_map(old(payload)@, params@).1) {
            (Ok(_), None) => true,
            (Err(e), Some(m)) => e is Validation && e.fault() == fault_at(m, loc.at()),
            _ => false,
        },
{
    let (out, complaint) = fill_fields(payload, params);
    *payload = out;
    match complaint {
        Some(m) => Err(validation(m, loc)),
        None => Ok(()),
    }
}

/// Whether no text in `v` has template braces.
pub open spec fn template_free(v: JsonModel) -> bool
    decreases v, 0int,
{
    match v {
        JsonModel::Text(t) => !has_braces(t),
        JsonModel::Array(s) => forall|i: int| 0 <= i < s.len() ==> template_free(#[trigger] s[i]),
        JsonModel::Object(m) => forall|i: int|
            0 <= i < m.len() ==> template_free((#[trigger] m[i]).1),
        _ => true,
    }
}

proof fn lemma_not_stray(v: JsonModel)
    requires
        stray(v) is None,
    ensures
        template_free(v),
    decreases v, 0int,
{
    match v {
        JsonModel::Array(s) => {
            assert forall|i: int| 0 <= i < s.len() implies template_free(#[trigger] s[i]) by {
                lemma_stray_in_each(s, s.len() as int, i);
                lemma_not_stray(s[i]);
            }
        },
        JsonModel::Object(m) => {
            assert forall|i: int| 0 <= i < m.len() implies template_free((#[trigger] m[i]).1) by {
                lemma_stray_under_each(m, m.len() as int, i);
                lemma_not_stray(m[i].1);
            }
        },
        _ => {},
    }
}

proof fn lemma_stray_in_each(s: Seq<JsonModel>, n: int, i: int)
    requires
        0 <= i < n <= s.len(),
        stray_in(s, n) is None,
    ensures
        stray(s[i]) is None,
    decreases n,
{
    if i < n - 1 {
        lemma_stray_in_each(s, n - 1, i);
    }
}

proof fn lemma_stray_under_each(m: MapModel, n: int, i: int)
    requires
        0 <= i < n <= m.len(),
        stray_under(m, n) is None,
    ensures
        stray(m[i].1) is None,
    decreases n,
{
    if i < n - 1 {
        lemma_stray_under_each(m, n - 1, i);
    }
}

/// Once the templates of a value have been filled in without complaint, none are left in it.
pub proof fn filling_leaves_no_template(v: JsonModel, params: MapModel)
    requires
        filled(v, params).1 is None,
    ensures
        template_free(filled(v, params).0),
    decreases v, 0int,
{
    match v {
        JsonModel::Text(t) => {
            match template_param(t) {
                Some(p) => {
                    lemma_not_stray(map_get(params, p)->0);
                },
                None => {},
            }
        },
        JsonModel::Array(s) => {
            lemma_items_free(s, params, s.len() as int);
        },
        JsonModel::Object(m) => {
            lemma_fields_free(m, params, m.len() as int);
        },
        _ => {},
    }
}

proof fn lemma_items_free(s: Seq<JsonModel>, params: MapModel, n: int)
    requires
        0 <= n <= s.len(),
        filled_items(s, params, n).1 is None,
    ensures
        filled_items(s, params, n).0.len() == n,
        forall|i: int| 0 <= i < n ==> template_free(#[trigger] filled_items(s, params, n).0[i]),
    decreases s, n,
{
    if n > 0 {
        lemma_items_free(s, params, n - 1);
        filling_leaves_no_template(s[n - 1], params);
    }
}

proof fn lemma_fields_free(m: MapModel, params: MapModel, n: int)
    requires
        0 <= n <= m.len(),
        filled_fields(m, params, n).1 is None,
    ensures
        filled_fields(m, params, n).0.len() == n,
        forall|i: int| 0 <= i < n ==> template_free((#[trigger] filled_fields(m, params, n).0[i]).1),
    decreases m, n,
{
    if n > 0 {
        lemma_fields_free(m, params, n - 1);
        filling_leaves_no_template(m[n - 1].1, params);
    }
}

} // verus!
