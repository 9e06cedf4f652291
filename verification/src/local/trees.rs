//! What agents give, as it stands at the ports of their nodes.

use crate::crew::common::{
    snippet_models, ContactModel, ContextBundle, DraftArtifact, MailResult, ResolvedContact, Review,
    SnippetModel,
};
use crate::crew::writer::id_items;
use crate::json::{
    int_json, int_model, list_model, map_insert, text_json, texts_json, texts_model, Json, JsonMap,
    JsonModel, MapModel, Numeral, NumeralModel,
};
use crate::kb::traces::text_or_null;
use crate::openings::values::{port_push, NodeOutputs, PortsModel};
use crate::text::texts;
use vstd::prelude::*;

verus! {

pub open spec fn contact_tree(c: ContactModel) -> JsonModel {
    let a = map_insert(MapModel::empty(), "contact_id"@, JsonModel::Text(c.contact_id));
    let b = map_insert(a, "name"@, JsonModel::Text(c.name));
    let d = map_insert(b, "email"@, JsonModel::Text(c.email));
    let e = map_insert(d, "org"@, text_or_null(c.org));
    let f = map_insert(
        e,
        "confidence"@,
        JsonModel::Number(NumeralModel::Float(c.confidence.wide)),
    );
    JsonModel::Object(
        match c.last_event_id {
            Some(id) => map_insert(f, "last_event_id"@, int_model(id.0 as int)),
            None => f,
        },
    )
}

pub fn contact_json(c: &ResolvedContact) -> (r: Json)
    ensures
        r@ == contact_tree(c@),
{
    let mut m = JsonMap::new();
    m.insert("contact_id".to_owned(), text_json(c.contact_id.as_str()));
    m.insert("name".to_owned(), text_json(c.name.as_str()));
    m.insert("email".to_owned(), text_json(c.email.as_str()));
    m.insert(
        "org".to_owned(),
        match &c.org {
            Some(o) => text_json(o.as_str()),
            None => Json::Null,
        },
    );
    m.insert("confidence".to_owned(), Json::Number(Numeral::Float(c.confidence.wide.clone())));
    match c.last_event_id {
        Some(id) => m.insert("last_event_id".to_owned(), int_json(id.0)),
        None => {},
    }
    Json::Object(m)
}

pub open spec fn snippet_tree(s: SnippetModel) -> JsonModel {
    JsonModel::Object(
        map_insert(
            map_insert(
                map_insert(MapModel::empty(), "title"@, JsonModel::Text(s.title)),
                "excerpt"@,
                JsonModel::Text(s.excerpt),
            ),
            "event_id"@,
            int_model(s.event_id as int),
        ),
    )
}

pub open spec fn bundle_tree(topic: Seq<char>, snippets: Seq<SnippetModel>) -> JsonModel {
    JsonModel::Object(
        map_insert(
            map_insert(MapModel::empty(), "topic"@, JsonModel::Text(topic)),
            "snippets"@,
            JsonModel::Array(snippets.map_values(|s: SnippetModel| snippet_tree(s))),
        ),
    )
}

pub fn bundle_json(b: &ContextBundle) -> (r: Json)
    ensures
        r@ == bundle_tree(b.topic@, snippet_models(b.snippets@)),
{
    let ghost want = snippet_models(b.snippets@).map_values(|s: SnippetModel| snippet_tree(s));
    let mut items: Vec<Json> = Vec::new();
    let mut i: usize = 0;
    assert(list_model(items@) =~= want.take(0));
    while i < b.snippets.len()
        invariant
            i <= b.snippets.len(),
            want == snippet_models(b.snippets@).map_values(|s: SnippetModel| snippet_tree(s)),
            list_model(items@) == want.take(i as int),
        decreases b.snippets.len() - i,
    {
        let mut m = JsonMap::new();
        m.insert("title".to_owned(), text_json(b.snippets[i].title.as_str()));
        m.insert("excerpt".to_owned(), text_json(b.snippets[i].excerpt.as_str()));
        m.insert("event_id".to_owned(), int_json(b.snippets[i].event_id.0));
        let ghost o = items@;
        let j = Json::Object(m);
        items.push(j);
        assert(items@.drop_last() =~= o);
        assert(list_model(items@) =~= list_model(o).push(j@));
        assert(want.take(i + 1) =~= want.take(i as int).push(want[i as int]));
        i += 1;
    }
    assert(want.take(want.len() as int) =~= want);
    let mut m = JsonMap::new();
    m.insert("topic".to_owned(), text_json(b.topic.as_str()));
    m.insert("snippets".to_owned(), Json::Array(items));
    Json::Object(m)
}

pub open spec fn draft_tree(d: DraftArtifact) -> JsonModel {
    let a = map_insert(MapModel::empty(), "artifact_id"@, int_model(d.artifact_id.0 as int));
    let b = map_insert(a, "path"@, JsonModel::Text(d.path@));
    let c = map_insert(b, "sha256"@, JsonModel::Text(d.sha256@));
    let e = map_insert(c, "body_md"@, JsonModel::Text(d.body_md@));
    let f = map_insert(e, "rationale"@, JsonModel::Text(d.rationale@));
    let g = map_insert(f, "citations"@, JsonModel::Array(id_items(d.citations@)));
    JsonModel::Object(
        map_insert(
            g,
            "word_count"@,
            JsonModel::Number(NumeralModel::Unsigned(d.word_count as u64)),
        ),
    )
}

pub fn draft_json(d: &DraftArtifact) -> (r: Json)
    ensures
        r@ == draft_tree(*d),
{
    let mut m = JsonMap::new();
    m.insert("artifact_id".to_owned(), int_json(d.artifact_id.0));
    m.insert("path".to_owned(), text_json(d.path.as_str()));
    m.insert("sha256".to_owned(), text_json(d.sha256.as_str()));
    m.insert("body_md".to_owned(), text_json(d.body_md.as_str()));
    m.insert("rationale".to_owned(), text_json(d.rationale.as_str()));
    m.insert("citations".to_owned(), Json::Array(crate::crew::writer::id_list(&d.citations)));
    m.insert("word_count".to_owned(), Json::Number(Numeral::Unsigned(d.word_count as u64)));
    Json::Object(m)
}

pub open spec fn review_tree(r: Review) -> JsonModel {
    JsonModel::Object(
        map_insert(
            map_insert(MapModel::empty(), "ok"@, JsonModel::Bool(r.ok)),
            "notes"@,
            JsonModel::Object(
                map_insert(
                    map_insert(MapModel::empty(), "summary"@, JsonModel::Text(r.notes.summary@)),
                    "suggestions"@,
                    texts_model(texts(r.notes.suggestions@)),
                ),
            ),
        ),
    )
}

pub fn review_json(r: &Review) -> (j: Json)
    ensures
        j@ == review_tree(*r),
{
    let mut notes = JsonMap::new();
    notes.insert("summary".to_owned(), text_json(r.notes.summary.as_str()));
    notes.insert("suggestions".to_owned(), texts_json(&r.notes.suggestions));
    let mut m = JsonMap::new();
    m.insert("ok".to_owned(), Json::Bool(r.ok));
    m.insert("notes".to_owned(), Json::Object(notes));
    Json::Object(m)
}

pub open spec fn mail_tree(r: MailResult) -> JsonModel {
    let a = map_insert(MapModel::empty(), "status"@, JsonModel::Text(r.status@));
    let b = map_insert(a, "recipients"@, texts_model(texts(r.recipients@)));
    let c = map_insert(b, "artifact_id"@, int_model(r.artifact_id.0 as int));
    let d = map_insert(c, "message_id"@, JsonModel::Text(r.message_id@));
    JsonModel::Object(
        map_insert(
            d,
            "delivered_at_ms"@,
            JsonModel::Number(NumeralModel::Unsigned(r.delivered_at_ms)),
        ),
    )
}

pub fn mail_json(r: &MailResult) -> (j: Json)
    ensures
        j@ == mail_tree(*r),
{
    let mut m = JsonMap::new();
    m.insert("status".to_owned(), text_json(r.status.as_str()));
    m.insert("recipients".to_owned(), texts_json(&r.recipients));
    m.insert("artifact_id".to_owned(), int_json(r.artifact_id.0));
    m.insert("message_id".to_owned(), text_json(r.message_id.as_str()));
    m.insert(
        "delivered_at_ms".to_owned(),
        Json::Number(Numeral::Unsigned(r.delivered_at_ms)),
    );
    Json::Object(m)
}

/// A single value, at the port for it.
pub open spec fn out_only(j: JsonModel) -> PortsModel {
    port_push(PortsModel::empty(), "out"@, j)
}

pub fn single_output(j: Json) -> (r: NodeOutputs)
    ensures
        r@ == out_only(j@),
{
    let mut o = NodeOutputs::new();
    o.push("out", j);
    o
}

/// A review: whether the draft is good, and what is to be said of it.
pub fn review_outputs(r: &Review) -> (o: NodeOutputs)
    ensures
        o@ == port_push(
            port_push(PortsModel::empty(), "ok"@, JsonModel::Bool(r.ok)),
            "review"@,
            review_tree(*r),
        ),
{
    let mut o = NodeOutputs::new();
    o.push("ok", Json::Bool(r.ok));
    o.push("review", review_json(r));
    o
}

/// A mail that was sent.
pub fn mail_outputs(r: &MailResult) -> (o: NodeOutputs)
    ensures
        o@ == port_push(
            port_push(PortsModel::empty(), "ok"@, JsonModel::Bool(true)),
            "out"@,
            mail_tree(*r),
        ),
{
    let mut o = NodeOutputs::new();
    o.push("ok", Json::Bool(true));
    o.push("out", mail_json(r));
    o
}

} // verus!
