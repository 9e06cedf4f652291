//! Gathers what the ledger says of a topic.

use crate::crew::common::{ContactModel, ContextBundle, ContextSnippet, ResolvedContact, SnippetModel, snippet_models};
use crate::ids::EventId;
use crate::json::{
    list_model, signed_in, text_in, tree_get, tree_signed, tree_text, Json, JsonModel,
};
use crate::prose::{byte_len, bytes_before, char_at_byte, chars_before, chars_upto, first_chars, lemma_char_at_byte, lemma_char_at_byte_order};
use crate::text::{
    ascii_lower_char, chars_of, concat, concat3, find_from, first_at, join, joined, lemma_first_at,
    lower, lower_char, lowered, occurs_at, string_range, texts,
};
use vstd::prelude::*;

verus! {

#[derive(Debug)]
pub struct ContextRequest {
    pub topic: String,
    pub contact: Option<ResolvedContact>,
}

pub open spec fn opt_contact(c: Option<ResolvedContact>) -> Option<ContactModel> {
    match c {
        Some(c) => Some(c@),
        None => None,
    }
}

/// A character as it stands in a pattern between quotes: nothing in it is special.
pub open spec fn escaped_char(c: char) -> Seq<char> {
    if c == '\'' {
        "''"@
    } else if c == '\\' {
        "\\\\"@
    } else if c == '%' {
        "\\%"@
    } else if c == '_' {
        "\\_"@
    } else {
        seq![c]
    }
}

pub open spec fn like_pattern(s: Seq<char>) -> Seq<char>
    decreases s.len(),
{
    if s.len() == 0 {
        seq![]
    } else {
        like_pattern(s.drop_last()) + escaped_char(lower_char(s.last()))
    }
}

pub fn normalize_like_pattern(input: &str) -> (r: String)
    ensures
        r@ == like_pattern(input@),
{
    let v = chars_of(input);
    let mut out = String::new();
    let mut i: usize = 0;
    while i < v.len()
        invariant
            i <= v.len(),
            v@ == input@,
            out@ == like_pattern(input@.take(i as int)),
        decreases v.len() - i,
    {
        assert(input@.take(i + 1).drop_last() =~= input@.take(i as int));
        let c = ascii_lower_char(v[i]);
        let ghost o = out@;
        if c == '\'' {
            out.append("''");
        } else if c == '\\' {
            out.append("\\\\");
        } else if c == '%' {
            out.append("\\%");
        } else if c == '_' {
            out.append("\\_");
        } else {
            out.push(c);
            assert(o.push(c) =~= o + seq![c]);
        }
        i += 1;
    }
    assert(input@.take(input@.len() as int) =~= input@);
    out
}

pub open spec fn like_clause(term: Seq<char>) -> Seq<char> {
    "LOWER(payload_json) LIKE '%"@ + like_pattern(term) + "%' ESCAPE '\\\\'"@
}

pub fn payload_like_clause(term: &str) -> (r: String)
    ensures
        r@ == like_clause(term@),
{
    concat3(
        "LOWER(payload_json) LIKE '%",
        normalize_like_pattern(term).as_str(),
        "%' ESCAPE '\\\\'",
    )
}

/// What events are to mention: the contact's address, their name, or the topic.
pub open spec fn clauses(topic: Seq<char>, contact: Option<ContactModel>) -> Seq<Seq<char>> {
    let who = match contact {
        Some(c) => (if c.email.len() > 0 {
            seq![like_clause(c.email)]
        } else {
            seq![]
        }) + (if c.name.len() > 0 {
            seq![like_clause(c.name)]
        } else {
            seq![]
        }),
        None => seq![],
    };
    let what = if topic.len() > 0 {
        seq![like_clause(topic)]
    } else {
        seq![]
    };
    who + what
}

pub open spec fn events_query(topic: Seq<char>, contact: Option<ContactModel>) -> Seq<char> {
    let c = clauses(topic, contact);
    "SELECT id, kind, payload_json FROM events WHERE "@ + (if c.len() == 0 {
        "1=1"@
    } else {
        join(c, " OR "@)
    }) + " ORDER BY id DESC LIMIT 5"@
}

/// The query for the events that a request is about.
pub fn context_query(req: &ContextRequest) -> (r: String)
    ensures
        r@ == events_query(req.topic@, opt_contact(req.contact)),
{
    let mut parts: Vec<String> = Vec::new();
    match &req.contact {
        Some(c) => {
            if !c.email.as_str().is_empty() {
                parts.push(payload_like_clause(c.email.as_str()));
            }
            if !c.name.as_str().is_empty() {
                parts.push(payload_like_clause(c.name.as_str()));
            }
        },
        None => {},
    }
    if !req.topic.as_str().is_empty() {
        parts.push(payload_like_clause(req.topic.as_str()));
    }
    assert(texts(parts@) =~= clauses(req.topic@, opt_contact(req.contact)));
    let predicate = if parts.len() == 0 {
        "1=1".to_owned()
    } else {
        joined(&parts, " OR ")
    };
    concat3(
        "SELECT id, kind, payload_json FROM events WHERE ",
        predicate.as_str(),
        " ORDER BY id DESC LIMIT 5",
    )
}

/// The byte at which the topic first stands in a payload, case aside.
pub open spec fn topic_byte(payload: Seq<char>, topic: Seq<char>) -> int {
    byte_len(payload.take(first_at(lower(payload), lower(topic)))) as int
}

/// The bytes of a payload that are shown: the topic and up to thirty bytes on each side.
pub open spec fn window(payload: Seq<char>, topic: Seq<char>) -> (int, int) {
    let at = topic_byte(payload, topic);
    let far = at + byte_len(topic) + 30;
    (
        if at < 30 {
            0
        } else {
            at - 30
        },
        if far < byte_len(payload) {
            far
        } else {
            byte_len(payload) as int
        },
    )
}

pub open spec fn topic_found(payload: Seq<char>, topic: Seq<char>) -> bool {
    first_at(lower(payload), lower(topic)) < payload.len()
}

/// Whether a payload can be summed up: where only a window of it is shown, the window begins and
/// ends between two characters.
pub open spec fn can_sum_up(payload: Seq<char>, topic: Seq<char>) -> bool {
    byte_len(payload) > 120 && topic.len() > 0 && topic_found(payload, topic) ==> char_at_byte(
        payload,
        window(payload, topic).0,
    ) is Some && char_at_byte(payload, window(payload, topic).1) is Some
}

pub open spec fn summary(payload: Seq<char>, topic: Seq<char>) -> Seq<char> {
    if byte_len(payload) <= 120 {
        payload
    } else if topic.len() > 0 && topic_found(payload, topic) {
        let w = window(payload, topic);
        "…"@ + payload.subrange(
            char_at_byte(payload, w.0)->0,
            char_at_byte(payload, w.1)->0,
        ) + "…"@
    } else {
        first_chars(payload, 117) + "…"@
    }
}

fn find_topic(payload: &str, topic: &str) -> (r: Option<usize>)
    requires
        topic@.len() > 0,
    ensures
        match r {
            Some(i) => topic_found(payload@, topic@) && i == first_at(lower(payload@), lower(topic@))
                && i < payload@.len(),
            None => !topic_found(payload@, topic@),
        },
{
    let hay = chars_of(lowered(payload).as_str());
    let needle = chars_of(lowered(topic).as_str());
    match find_from(&hay, &needle, 0) {
        Some(i) => {
            proof {
                assert(occurs_at(hay@, needle@, i as int));
                lemma_first_at(hay@, needle@, i as int);
            }
            Some(i)
        },
        None => {
            proof {
                lemma_first_at(hay@, needle@, hay@.len() as int);
            }
            None
        },
    }
}

fn window_of(payload: &Vec<char>, topic: &Vec<char>, at: usize) -> (r: (u128, u128))
    requires
        at == first_at(lower(payload@), lower(topic@)),
        at < payload@.len(),
    ensures
        (r.0 as int, r.1 as int) == window(payload@, topic@),
{
    let at_byte: u128 = bytes_before(payload, at);
    let whole: u128 = bytes_before(payload, payload.len());
    let wide: u128 = bytes_before(topic, topic.len());
    assert(payload@.take(payload@.len() as int) =~= payload@);
    assert(topic@.take(topic@.len() as int) =~= topic@);
    let lo: u128 = if at_byte < 30 {
        0
    } else {
        at_byte - 30
    };
    let far: u128 = at_byte + wide + 30;
    let hi: u128 = if far < whole {
        far
    } else {
        whole
    };
    (lo, hi)
}

/// Whether a payload can be summed up for a topic.
pub fn summarisable(payload: &str, topic: &str) -> (r: bool)
    ensures
        r == can_sum_up(payload@, topic@),
{
    let v = chars_of(payload);
    assert(v@.take(v@.len() as int) =~= v@);
    if bytes_before(&v, v.len()) <= 120 || topic.is_empty() {
        return true;
    }
    match find_topic(payload, topic) {
        None => true,
        Some(at) => {
            let t = chars_of(topic);
            let (lo, hi) = window_of(&v, &t, at);
            chars_before(&v, lo).is_some() && chars_before(&v, hi).is_some()
        },
    }
}

pub fn summarise_payload(payload: &str, topic: &str) -> (r: String)
    requires
        can_sum_up(payload@, topic@),
    ensures
        r@ == summary(payload@, topic@),
{
    let v = chars_of(payload);
    assert(v@.take(v@.len() as int) =~= v@);
    if bytes_before(&v, v.len()) <= 120 {
        return payload.to_owned();
    }
    if !topic.is_empty() {
        match find_topic(payload, topic) {
            Some(at) => {
                let t = chars_of(topic);
                let (lo, hi) = window_of(&v, &t, at);
                proof {
                    let i = at as int;
                    assert(v@.take(i) =~= payload@.take(i));
                    lemma_window(payload@, topic@);
                    lemma_char_at_byte(payload@, lo as int);
                    lemma_char_at_byte(payload@, hi as int);
                    lemma_char_at_byte_order(payload@, lo as int, hi as int);
                }
                match (chars_before(&v, lo), chars_before(&v, hi)) {
                    (Some(a), Some(b)) => {
                        return concat3("…", string_range(&v, a, b).as_str(), "…");
                    },
                    _ => {},
                }
            },
            None => {},
        }
    }
    concat(chars_upto(payload, 117).as_str(), "…")
}

proof fn lemma_window(payload: Seq<char>, topic: Seq<char>)
    requires
        topic_found(payload, topic),
    ensures
        window(payload, topic).0 <= window(payload, topic).1,
{
    let i = first_at(lower(payload), lower(topic));
    lemma_first_at_bounds(lower(payload), lower(topic));
    lemma_take_len(payload, i);
}

proof fn lemma_first_at_bounds(s: Seq<char>, n: Seq<char>)
    ensures
        0 <= first_at(s, n) <= s.len(),
    decreases s.len(),
{
    if s.len() > 0 {
        lemma_first_at_bounds(s.skip(1), n);
    }
}

proof fn lemma_take_len(s: Seq<char>, i: int)
    requires
        0 <= i <= s.len(),
    ensures
        byte_len(s.take(i)) <= byte_len(s),
    decreases s.len(),
{
    if i < s.len() {
        lemma_take_len(s.drop_last(), i);
        assert(s.drop_last().take(i) =~= s.take(i));
    } else {
        assert(s.take(i) =~= s);
    }
}

/// A row of events as a snippet; a row that lacks something gives none.
pub open spec fn snippet_in(row: JsonModel, topic: Seq<char>) -> Option<SnippetModel> {
    match (
        tree_signed(tree_get(row, "id"@)),
        tree_text(tree_get(row, "kind"@)),
        tree_text(tree_get(row, "payload_json"@)),
    ) {
        (Some(id), Some(kind), Some(payload)) => Some(
            SnippetModel {
                title: kind + " event"@,
                excerpt: summary(payload, topic),
                event_id: id,
            },
        ),
        _ => None,
    }
}

/// Whether the payload in a row can be summed up.
pub open spec fn row_fits(row: JsonModel, topic: Seq<char>) -> bool {
    match tree_text(tree_get(row, "payload_json"@)) {
        Some(payload) => can_sum_up(payload, topic),
        None => true,
    }
}

pub fn row_fit(row: &Json, topic: &str) -> (r: bool)
    ensures
        r == row_fits(row@, topic@),
{
    match text_in(row.get("payload_json")) {
        Some(payload) => summarisable(payload.as_str(), topic),
        None => true,
    }
}

pub fn row_to_snippet(row: &Json, topic: &str) -> (r: Option<ContextSnippet>)
    requires
        row_fits(row@, topic@),
    ensures
        match (r, snippet_in(row@, topic@)) {
            (Some(s), Some(m)) => s@ == m,
            (None, None) => true,
            _ => false,
        },
{
    let id = match signed_in(row.get("id")) {
        Some(n) => n,
        None => {
            return None;
        },
    };
    let kind = match text_in(row.get("kind")) {
        Some(t) => t,
        None => {
            return None;
        },
    };
    let payload = match text_in(row.get("payload_json")) {
        Some(t) => t,
        None => {
            return None;
        },
    };
    Some(
        ContextSnippet {
            title: concat(kind.as_str(), " event"),
            excerpt: summarise_payload(payload.as_str(), topic),
            event_id: EventId(id),
        },
    )
}

pub open spec fn snippets_in(rows: Seq<JsonModel>, topic: Seq<char>) -> Seq<SnippetModel>
    decreases rows.len(),
{
    if rows.len() == 0 {
        seq![]
    } else {
        match snippet_in(rows.last(), topic) {
            Some(s) => snippets_in(rows.drop_last(), topic).push(s),
            None => snippets_in(rows.drop_last(), topic),
        }
    }
}

/// What stands in for snippets where there are none.
pub open spec fn no_snippet(topic: Seq<char>, contact: Option<ContactModel>) -> SnippetModel {
    SnippetModel {
        title: "No prior events for "@ + (match contact {
            Some(c) => c.name,
            None => "recipient"@,
        }),
        excerpt: "No recorded artifacts mention \""@ + topic
            + "\" yet. Consider adding recent notes."@,
        event_id: 0,
    }
}

pub open spec fn gathered(
    rows: Seq<JsonModel>,
    topic: Seq<char>,
    contact: Option<ContactModel>,
) -> Seq<SnippetModel> {
    let found = snippets_in(rows, topic);
    if found.len() == 0 {
        seq![no_snippet(topic, contact)]
    } else {
        found
    }
}

/// What the rows say of the topic of a request.
pub fn gather(req: &ContextRequest, rows: &Vec<Json>) -> (r: ContextBundle)
    requires
        forall|i: int| 0 <= i < rows@.len() ==> row_fits((#[trigger] rows@[i])@, req.topic@),
    ensures
        r.topic@ == req.topic@,
        snippet_models(r.snippets@) == gathered(
            list_model(rows@),
            req.topic@,
            opt_contact(req.contact),
        ),
        r.snippets@.len() > 0,
{
    let ghost all = list_model(rows@);
    let mut out: Vec<ContextSnippet> = Vec::new();
    let mut i: usize = 0;
    assert(snippet_models(out@) =~= snippets_in(all.take(0), req.topic@));
    while i < rows.len()
        invariant
            i <= rows.len(),
            all == list_model(rows@),
            forall|k: int| 0 <= k < rows@.len() ==> row_fits((#[trigger] rows@[k])@, req.topic@),
            snippet_models(out@) == snippets_in(all.take(i as int), req.topic@),
        decreases rows.len() - i,
    {
        assert(all.take(i + 1).drop_last() =~= all.take(i as int));
        assert(all.take(i + 1).last() == rows@[i as int]@);
        let ghost o = out@;
        match row_to_snippet(&rows[i], req.topic.as_str()) {
            Some(s) => {
                out.push(s);
                assert(snippet_models(out@) =~= snippet_models(o).push(s@));
            },
            None => {},
        }
        i += 1;
    }
    assert(all.take(all.len() as int) =~= all);
    assert(snippet_models(out@).len() == out@.len());
    if out.len() == 0 {
        let who = match &req.contact {
            Some(c) => c.name.as_str(),
            None => "recipient",
        };
        out.push(
            ContextSnippet {
                title: concat("No prior events for ", who),
                excerpt: concat3(
                    "No recorded artifacts mention \"",
                    req.topic.as_str(),
                    "\" yet. Consider adding recent notes.",
                ),
                event_id: EventId(0),
            },
        );
        assert(snippet_models(out@) =~= seq![no_snippet(req.topic@, opt_contact(req.contact))]);
    }
    ContextBundle { topic: req.topic.clone(), snippets: out }
}

} // verus!
