//! What running nodes on this machine promises.

use crate::agents::AgentRefModel;
use crate::armor::base64_text;
use crate::crew::common::{ActionDecision, ContactModel, DraftArtifact, MailResult, Review, SnippetModel};
use crate::crew::writer::id_items;
use crate::ids::{OpeningId, TraceId};
use crate::json::{
    insert_then_get, int_model, json_document, json_text, map_get, map_insert, texts_model, tree_get, JsonModel,
    MapModel, NumeralModel,
};
use crate::kb::traces::{opening_text, text_or_null, trace_text};
use crate::local::calls::{
    falls_back, named_args, route_of, runnable, told_reference, unrunnable, AgentRoute, ProgramFacts,
};
use crate::local::jobs::{
    asked_contact, context_args, declined, generic_ports, mail_event, mailer_args, mailer_fault,
    node_delta, or_usual, picked, text_of, writer_args, writer_fault, MailerJob, MailerReads,
    WriterReads,
};
use crate::local::trees::{bundle_tree, contact_tree, draft_tree, mail_tree, review_tree, snippet_tree};
use crate::local::watch::{complaint_in, fresh_answer};
use crate::openings::records::RunnerError;
use crate::openings::values::{at_port, port_get, ports_ordered, pushed_values_come_last, PortsModel};
use crate::prose::lossy_text;
use crate::registry::manifests::AgentBundle;
use crate::text::{has_text, texts, trim};
use vstd::prelude::*;

verus! {

/// A contact at a port tells all that is known of it.
pub proof fn contacts_are_told_whole(c: ContactModel)
    ensures
        tree_get(contact_tree(c), "contact_id"@) == Some(JsonModel::Text(c.contact_id)),
        tree_get(contact_tree(c), "name"@) == Some(JsonModel::Text(c.name)),
        tree_get(contact_tree(c), "email"@) == Some(JsonModel::Text(c.email)),
        tree_get(contact_tree(c), "org"@) == Some(text_or_null(c.org)),
        tree_get(contact_tree(c), "confidence"@) == Some(JsonModel::Number(NumeralModel::Float(c.confidence.wide))),
        c.last_event_id matches Some(id) ==> tree_get(contact_tree(c), "last_event_id"@) == Some(
            int_model(id.0 as int),
        ),
        c.last_event_id is None ==> tree_get(contact_tree(c), "last_event_id"@) is None,
{
    reveal_strlit("contact_id");
    reveal_strlit("name");
    reveal_strlit("email");
    reveal_strlit("org");
    reveal_strlit("confidence");
    reveal_strlit("last_event_id");
    assert("contact_id"@.len() != "name"@.len());
    assert("contact_id"@.len() != "email"@.len());
    assert("contact_id"@.len() != "org"@.len());
    assert("contact_id"@[3] != "confidence"@[3]);
    assert("contact_id"@.len() != "last_event_id"@.len());
    assert("name"@.len() != "email"@.len());
    assert("name"@.len() != "org"@.len());
    assert("name"@.len() != "confidence"@.len());
    assert("name"@.len() != "last_event_id"@.len());
    assert("email"@.len() != "org"@.len());
    assert("email"@.len() != "confidence"@.len());
    assert("email"@.len() != "last_event_id"@.len());
    assert("org"@.len() != "confidence"@.len());
    assert("org"@.len() != "last_event_id"@.len());
    assert("confidence"@.len() != "last_event_id"@.len());
    let m0 = MapModel::empty();
    let m1 = map_insert(m0, "contact_id"@, JsonModel::Text(c.contact_id));
    let m2 = map_insert(m1, "name"@, JsonModel::Text(c.name));
    let m3 = map_insert(m2, "email"@, JsonModel::Text(c.email));
    let m4 = map_insert(m3, "org"@, text_or_null(c.org));
    let m5 = map_insert(m4, "confidence"@, JsonModel::Number(NumeralModel::Float(c.confidence.wide)));
    insert_then_get(m0, "contact_id"@, JsonModel::Text(c.contact_id), "contact_id"@);
    insert_then_get(m0, "contact_id"@, JsonModel::Text(c.contact_id), "name"@);
    insert_then_get(m0, "contact_id"@, JsonModel::Text(c.contact_id), "email"@);
    insert_then_get(m0, "contact_id"@, JsonModel::Text(c.contact_id), "org"@);
    insert_then_get(m0, "contact_id"@, JsonModel::Text(c.contact_id), "confidence"@);
    insert_then_get(m0, "contact_id"@, JsonModel::Text(c.contact_id), "last_event_id"@);
    insert_then_get(m1, "name"@, JsonModel::Text(c.name), "contact_id"@);
    insert_then_get(m1, "name"@, JsonModel::Text(c.name), "name"@);
    insert_then_get(m1, "name"@, JsonModel::Text(c.name), "email"@);
    insert_then_get(m1, "name"@, JsonModel::Text(c.name), "org"@);
    insert_then_get(m1, "name"@, JsonModel::Text(c.name), "confidence"@);
    insert_then_get(m1, "name"@, JsonModel::Text(c.name), "last_event_id"@);
    insert_then_get(m2, "email"@, JsonModel::Text(c.email), "contact_id"@);
    insert_then_get(m2, "email"@, JsonModel::Text(c.email), "name"@);
    insert_then_get(m2, "email"@, JsonModel::Text(c.email), "email"@);
    insert_then_get(m2, "email"@, JsonModel::Text(c.email), "org"@);
    insert_then_get(m2, "email"@, JsonModel::Text(c.email), "confidence"@);
    insert_then_get(m2, "email"@, JsonModel::Text(c.email), "last_event_id"@);
    insert_then_get(m3, "org"@, text_or_null(c.org), "contact_id"@);
    insert_then_get(m3, "org"@, text_or_null(c.org), "name"@);
    insert_then_get(m3, "org"@, text_or_null(c.org), "email"@);
    insert_then_get(m3, "org"@, text_or_null(c.org), "org"@);
    insert_then_get(m3, "org"@, text_or_null(c.org), "confidence"@);
    insert_then_get(m3, "org"@, text_or_null(c.org), "last_event_id"@);
    insert_then_get(m4, "confidence"@, JsonModel::Number(NumeralModel::Float(c.confidence.wide)), "contact_id"@);
    insert_then_get(m4, "confidence"@, JsonModel::Number(NumeralModel::Float(c.confidence.wide)), "name"@);
    insert_then_get(m4, "confidence"@, JsonModel::Number(NumeralModel::Float(c.confidence.wide)), "email"@);
    insert_then_get(m4, "confidence"@, JsonModel::Number(NumeralModel::Float(c.confidence.wide)), "org"@);
    insert_then_get(m4, "confidence"@, JsonModel::Number(NumeralModel::Float(c.confidence.wide)), "confidence"@);
    insert_then_get(m4, "confidence"@, JsonModel::Number(NumeralModel::Float(c.confidence.wide)), "last_event_id"@);
    if c.last_event_id is Some {
        let id = c.last_event_id->0;
        insert_then_get(m5, "last_event_id"@, int_model(id.0 as int), "contact_id"@);
        insert_then_get(m5, "last_event_id"@, int_model(id.0 as int), "name"@);
        insert_then_get(m5, "last_event_id"@, int_model(id.0 as int), "email"@);
        insert_then_get(m5, "last_event_id"@, int_model(id.0 as int), "org"@);
        insert_then_get(m5, "last_event_id"@, int_model(id.0 as int), "confidence"@);
        insert_then_get(m5, "last_event_id"@, int_model(id.0 as int), "last_event_id"@);
    }
}

/// A snippet at a port tells its title, its words and where they are from.
pub proof fn snippets_are_told_whole(x: SnippetModel)
    ensures
        tree_get(snippet_tree(x), "title"@) == Some(JsonModel::Text(x.title)),
        tree_get(snippet_tree(x), "excerpt"@) == Some(JsonModel::Text(x.excerpt)),
        tree_get(snippet_tree(x), "event_id"@) == Some(int_model(x.event_id as int)),
{
    reveal_strlit("title");
    reveal_strlit("excerpt");
    reveal_strlit("event_id");
    assert("title"@.len() != "excerpt"@.len());
    assert("title"@.len() != "event_id"@.len());
    assert("excerpt"@.len() != "event_id"@.len());
    let m0 = MapModel::empty();
    let m1 = map_insert(m0, "title"@, JsonModel::Text(x.title));
    let m2 = map_insert(m1, "excerpt"@, JsonModel::Text(x.excerpt));
    let m3 = map_insert(m2, "event_id"@, int_model(x.event_id as int));
    insert_then_get(m0, "title"@, JsonModel::Text(x.title), "title"@);
    insert_then_get(m0, "title"@, JsonModel::Text(x.title), "excerpt"@);
    insert_then_get(m0, "title"@, JsonModel::Text(x.title), "event_id"@);
    insert_then_get(m1, "excerpt"@, JsonModel::Text(x.excerpt), "title"@);
    insert_then_get(m1, "excerpt"@, JsonModel::Text(x.excerpt), "excerpt"@);
    insert_then_get(m1, "excerpt"@, JsonModel::Text(x.excerpt), "event_id"@);
    insert_then_get(m2, "event_id"@, int_model(x.event_id as int), "title"@);
    insert_then_get(m2, "event_id"@, int_model(x.event_id as int), "excerpt"@);
    insert_then_get(m2, "event_id"@, int_model(x.event_id as int), "event_id"@);
}

/// Gathered context tells its topic and each snippet in its place.
pub proof fn contexts_are_told_whole(topic: Seq<char>, all: Seq<SnippetModel>)
    ensures
        tree_get(bundle_tree(topic, all), "topic"@) == Some(JsonModel::Text(topic)),
        tree_get(bundle_tree(topic, all), "snippets"@) == Some(JsonModel::Array(all.map_values(|q: SnippetModel| snippet_tree(q)))),
{
    reveal_strlit("topic");
    reveal_strlit("snippets");
    assert("topic"@.len() != "snippets"@.len());
    let m0 = MapModel::empty();
    let m1 = map_insert(m0, "topic"@, JsonModel::Text(topic));
    let m2 = map_insert(m1, "snippets"@, JsonModel::Array(all.map_values(|q: SnippetModel| snippet_tree(q))));
    insert_then_get(m0, "topic"@, JsonModel::Text(topic), "topic"@);
    insert_then_get(m0, "topic"@, JsonModel::Text(topic), "snippets"@);
    insert_then_get(m1, "snippets"@, JsonModel::Array(all.map_values(|q: SnippetModel| snippet_tree(q))), "topic"@);
    insert_then_get(m1, "snippets"@, JsonModel::Array(all.map_values(|q: SnippetModel| snippet_tree(q))), "snippets"@);
}

/// A draft at a port tells what was written, why, from what, and where it is kept.
pub proof fn drafts_are_told_whole(d: DraftArtifact)
    ensures
        tree_get(draft_tree(d), "artifact_id"@) == Some(int_model(d.artifact_id.0 as int)),
        tree_get(draft_tree(d), "path"@) == Some(JsonModel::Text(d.path@)),
        tree_get(draft_tree(d), "sha256"@) == Some(JsonModel::Text(d.sha256@)),
        tree_get(draft_tree(d), "body_md"@) == Some(JsonModel::Text(d.body_md@)),
        tree_get(draft_tree(d), "rationale"@) == Some(JsonModel::Text(d.rationale@)),
        tree_get(draft_tree(d), "citations"@) == Some(JsonModel::Array(id_items(d.citations@))),
        tree_get(draft_tree(d), "word_count"@) == Some(JsonModel::Number(NumeralModel::Unsigned(d.word_count as u64))),
{
    reveal_strlit("artifact_id");
    reveal_strlit("path");
    reveal_strlit("sha256");
    reveal_strlit("body_md");
    reveal_strlit("rationale");
    reveal_strlit("citations");
    reveal_strlit("word_count");
    assert("artifact_id"@.len() != "path"@.len());
    assert("artifact_id"@.len() != "sha256"@.len());
    assert("artifact_id"@.len() != "body_md"@.len());
    assert("artifact_id"@.len() != "rationale"@.len());
    assert("artifact_id"@.len() != "citations"@.len());
    assert("artifact_id"@.len() != "word_count"@.len());
    assert("path"@.len() != "sha256"@.len());
    assert("path"@.len() != "body_md"@.len());
    assert("path"@.len() != "rationale"@.len());
    assert("path"@.len() != "citations"@.len());
    assert("path"@.len() != "word_count"@.len());
    assert("sha256"@.len() != "body_md"@.len());
    assert("sha256"@.len() != "rationale"@.len());
    assert("sha256"@.len() != "citations"@.len());
    assert("sha256"@.len() != "word_count"@.len());
    assert("body_md"@.len() != "rationale"@.len());
    assert("body_md"@.len() != "citations"@.len());
    assert("body_md"@.len() != "word_count"@.len());
    assert("rationale"@[0] != "citations"@[0]);
    assert("rationale"@.len() != "word_count"@.len());
    assert("citations"@.len() != "word_count"@.len());
    let m0 = MapModel::empty();
    let m1 = map_insert(m0, "artifact_id"@, int_model(d.artifact_id.0 as int));
    let m2 = map_insert(m1, "path"@, JsonModel::Text(d.path@));
    let m3 = map_insert(m2, "sha256"@, JsonModel::Text(d.sha256@));
    let m4 = map_insert(m3, "body_md"@, JsonModel::Text(d.body_md@));
    let m5 = map_insert(m4, "rationale"@, JsonModel::Text(d.rationale@));
    let m6 = map_insert(m5, "citations"@, JsonModel::Array(id_items(d.citations@)));
    let m7 = map_insert(m6, "word_count"@, JsonModel::Number(NumeralModel::Unsigned(d.word_count as u64)));
    insert_then_get(m0, "artifact_id"@, int_model(d.artifact_id.0 as int), "artifact_id"@);
    insert_then_get(m0, "artifact_id"@, int_model(d.artifact_id.0 as int), "path"@);
    insert_then_get(m0, "artifact_id"@, int_model(d.artifact_id.0 as int), "sha256"@);
    insert_then_get(m0, "artifact_id"@, int_model(d.artifact_id.0 as int), "body_md"@);
    insert_then_get(m0, "artifact_id"@, int_model(d.artifact_id.0 as int), "rationale"@);
    insert_then_get(m0, "artifact_id"@, int_model(d.artifact_id.0 as int), "citations"@);
    insert_then_get(m0, "artifact_id"@, int_model(d.artifact_id.0 as int), "word_count"@);
    insert_then_get(m1, "path"@, JsonModel::Text(d.path@), "artifact_id"@);
    insert_then_get(m1, "path"@, JsonModel::Text(d.path@), "path"@);
    insert_then_get(m1, "path"@, JsonModel::Text(d.path@), "sha256"@);
    insert_then_get(m1, "path"@, JsonModel::Text(d.path@), "body_md"@);
    insert_then_get(m1, "path"@, JsonModel::Text(d.path@), "rationale"@);
    insert_then_get(m1, "path"@, JsonModel::Text(d.path@), "citations"@);
    insert_then_get(m1, "path"@, JsonModel::Text(d.path@), "word_count"@);
    insert_then_get(m2, "sha256"@, JsonModel::Text(d.sha256@), "artifact_id"@);
    insert_then_get(m2, "sha256"@, JsonModel::Text(d.sha256@), "path"@);
    insert_then_get(m2, "sha256"@, JsonModel::Text(d.sha256@), "sha256"@);
    insert_then_get(m2, "sha256"@, JsonModel::Text(d.sha256@), "body_md"@);
    insert_then_get(m2, "sha256"@, JsonModel::Text(d.sha256@), "rationale"@);
    insert_then_get(m2, "sha256"@, JsonModel::Text(d.sha256@), "citations"@);
    insert_then_get(m2, "sha256"@, JsonModel::Text(d.sha256@), "word_count"@);
    insert_then_get(m3, "body_md"@, JsonModel::Text(d.body_md@), "artifact_id"@);
    insert_then_get(m3, "body_md"@, JsonModel::Text(d.body_md@), "path"@);
    insert_then_get(m3, "body_md"@, JsonModel::Text(d.body_md@), "sha256"@);
    insert_then_get(m3, "body_md"@, JsonModel::Text(d.body_md@), "body_md"@);
    insert_then_get(m3, "body_md"@, JsonModel::Text(d.body_md@), "rationale"@);
    insert_then_get(m3, "body_md"@, JsonModel::Text(d.body_md@), "citations"@);
    insert_then_get(m3, "body_md"@, JsonModel::Text(d.body_md@), "word_count"@);
    insert_then_get(m4, "rationale"@, JsonModel::Text(d.rationale@), "artifact_id"@);
    insert_then_get(m4, "rationale"@, JsonModel::Text(d.rationale@), "path"@);
    insert_then_get(m4, "rationale"@, JsonModel::Text(d.rationale@), "sha256"@);
    insert_then_get(m4, "rationale"@, JsonModel::Text(d.rationale@), "body_md"@);
    insert_then_get(m4, "rationale"@, JsonModel::Text(d.rationale@), "rationale"@);
    insert_then_get(m4, "rationale"@, JsonModel::Text(d.rationale@), "citations"@);
    insert_then_get(m4, "rationale"@, JsonModel::Text(d.rationale@), "word_count"@);
    insert_then_get(m5, "citations"@, JsonModel::Array(id_items(d.citations@)), "artifact_id"@);
    insert_then_get(m5, "citations"@, JsonModel::Array(id_items(d.citations@)), "path"@);
    insert_then_get(m5, "citations"@, JsonModel::Array(id_items(d.citations@)), "sha256"@);
    insert_then_get(m5, "citations"@, JsonModel::Array(id_items(d.citations@)), "body_md"@);
    insert_then_get(m5, "citations"@, JsonModel::Array(id_items(d.citations@)), "rationale"@);
    insert_then_get(m5, "citations"@, JsonModel::Array(id_items(d.citations@)), "citations"@);
    insert_then_get(m5, "citations"@, JsonModel::Array(id_items(d.citations@)), "word_count"@);
    insert_then_get(m6, "word_count"@, JsonModel::Number(NumeralModel::Unsigned(d.word_count as u64)), "artifact_id"@);
    insert_then_get(m6, "word_count"@, JsonModel::Number(NumeralModel::Unsigned(d.word_count as u64)), "path"@);
    insert_then_get(m6, "word_count"@, JsonModel::Number(NumeralModel::Unsigned(d.word_count as u64)), "sha256"@);
    insert_then_get(m6, "word_count"@, JsonModel::Number(NumeralModel::Unsigned(d.word_count as u64)), "body_md"@);
    insert_then_get(m6, "word_count"@, JsonModel::Number(NumeralModel::Unsigned(d.word_count as u64)), "rationale"@);
    insert_then_get(m6, "word_count"@, JsonModel::Number(NumeralModel::Unsigned(d.word_count as u64)), "citations"@);
    insert_then_get(m6, "word_count"@, JsonModel::Number(NumeralModel::Unsigned(d.word_count as u64)), "word_count"@);
}

/// A mail that was sent tells to whom, as what, and when.
pub proof fn mails_are_told_whole(r: MailResult)
    ensures
        tree_get(mail_tree(r), "status"@) == Some(JsonModel::Text(r.status@)),
        tree_get(mail_tree(r), "recipients"@) == Some(texts_model(texts(r.recipients@))),
        tree_get(mail_tree(r), "artifact_id"@) == Some(int_model(r.artifact_id.0 as int)),
        tree_get(mail_tree(r), "message_id"@) == Some(JsonModel::Text(r.message_id@)),
        tree_get(mail_tree(r), "delivered_at_ms"@) == Some(JsonModel::Number(NumeralModel::Unsigned(r.delivered_at_ms))),
{
    reveal_strlit("status");
    reveal_strlit("recipients");
    reveal_strlit("artifact_id");
    reveal_strlit("message_id");
    reveal_strlit("delivered_at_ms");
    assert("status"@.len() != "recipients"@.len());
    assert("status"@.len() != "artifact_id"@.len());
    assert("status"@.len() != "message_id"@.len());
    assert("status"@.len() != "delivered_at_ms"@.len());
    assert("recipients"@.len() != "artifact_id"@.len());
    assert("recipients"@[0] != "message_id"@[0]);
    assert("recipients"@.len() != "delivered_at_ms"@.len());
    assert("artifact_id"@.len() != "message_id"@.len());
    assert("artifact_id"@.len() != "delivered_at_ms"@.len());
    assert("message_id"@.len() != "delivered_at_ms"@.len());
    let m0 = MapModel::empty();
    let m1 = map_insert(m0, "status"@, JsonModel::Text(r.status@));
    let m2 = map_insert(m1, "recipients"@, texts_model(texts(r.recipients@)));
    let m3 = map_insert(m2, "artifact_id"@, int_model(r.artifact_id.0 as int));
    let m4 = map_insert(m3, "message_id"@, JsonModel::Text(r.message_id@));
    let m5 = map_insert(m4, "delivered_at_ms"@, JsonModel::Number(NumeralModel::Unsigned(r.delivered_at_ms)));
    insert_then_get(m0, "status"@, JsonModel::Text(r.status@), "status"@);
    insert_then_get(m0, "status"@, JsonModel::Text(r.status@), "recipients"@);
    insert_then_get(m0, "status"@, JsonModel::Text(r.status@), "artifact_id"@);
    insert_then_get(m0, "status"@, JsonModel::Text(r.status@), "message_id"@);
    insert_then_get(m0, "status"@, JsonModel::Text(r.status@), "delivered_at_ms"@);
    insert_then_get(m1, "recipients"@, texts_model(texts(r.recipients@)), "status"@);
    insert_then_get(m1, "recipients"@, texts_model(texts(r.recipients@)), "recipients"@);
    insert_then_get(m1, "recipients"@, texts_model(texts(r.recipients@)), "artifact_id"@);
    insert_then_get(m1, "recipients"@, texts_model(texts(r.recipients@)), "message_id"@);
    insert_then_get(m1, "recipients"@, texts_model(texts(r.recipients@)), "delivered_at_ms"@);
    insert_then_get(m2, "artifact_id"@, int_model(r.artifact_id.0 as int), "status"@);
    insert_then_get(m2, "artifact_id"@, int_model(r.artifact_id.0 as int), "recipients"@);
    insert_then_get(m2, "artifact_id"@, int_model(r.artifact_id.0 as int), "artifact_id"@);
    insert_then_get(m2, "artifact_id"@, int_model(r.artifact_id.0 as int), "message_id"@);
    insert_then_get(m2, "artifact_id"@, int_model(r.artifact_id.0 as int), "delivered_at_ms"@);
    insert_then_get(m3, "message_id"@, JsonModel::Text(r.message_id@), "status"@);
    insert_then_get(m3, "message_id"@, JsonModel::Text(r.message_id@), "recipients"@);
    insert_then_get(m3, "message_id"@, JsonModel::Text(r.message_id@), "artifact_id"@);
    insert_then_get(m3, "message_id"@, JsonModel::Text(r.message_id@), "message_id"@);
    insert_then_get(m3, "message_id"@, JsonModel::Text(r.message_id@), "delivered_at_ms"@);
    insert_then_get(m4, "delivered_at_ms"@, JsonModel::Number(NumeralModel::Unsigned(r.delivered_at_ms)), "status"@);
    insert_then_get(m4, "delivered_at_ms"@, JsonModel::Number(NumeralModel::Unsigned(r.delivered_at_ms)), "recipients"@);
    insert_then_get(m4, "delivered_at_ms"@, JsonModel::Number(NumeralModel::Unsigned(r.delivered_at_ms)), "artifact_id"@);
    insert_then_get(m4, "delivered_at_ms"@, JsonModel::Number(NumeralModel::Unsigned(r.delivered_at_ms)), "message_id"@);
    insert_then_get(m4, "delivered_at_ms"@, JsonModel::Number(NumeralModel::Unsigned(r.delivered_at_ms)), "delivered_at_ms"@);
}

/// What is recorded of a mail names those it went to, its topic and its draft.
pub proof fn recorded_mails_name_their_draft(to: Seq<Seq<char>>, topic: Seq<char>, id: i64)
    ensures
        tree_get(mail_event(to, topic, id), "to"@) == Some(texts_model(to)),
        tree_get(mail_event(to, topic, id), "subject"@) == Some(JsonModel::Text(topic)),
        tree_get(mail_event(to, topic, id), "artifact_id"@) == Some(int_model(id as int)),
{
    reveal_strlit("to");
    reveal_strlit("subject");
    reveal_strlit("artifact_id");
    assert("to"@.len() != "subject"@.len());
    assert("to"@.len() != "artifact_id"@.len());
    assert("subject"@.len() != "artifact_id"@.len());
    let m0 = MapModel::empty();
    let m1 = map_insert(m0, "to"@, texts_model(to));
    let m2 = map_insert(m1, "subject"@, JsonModel::Text(topic));
    let m3 = map_insert(m2, "artifact_id"@, int_model(id as int));
    insert_then_get(m0, "to"@, texts_model(to), "to"@);
    insert_then_get(m0, "to"@, texts_model(to), "subject"@);
    insert_then_get(m0, "to"@, texts_model(to), "artifact_id"@);
    insert_then_get(m1, "subject"@, JsonModel::Text(topic), "to"@);
    insert_then_get(m1, "subject"@, JsonModel::Text(topic), "subject"@);
    insert_then_get(m1, "subject"@, JsonModel::Text(topic), "artifact_id"@);
    insert_then_get(m2, "artifact_id"@, int_model(id as int), "to"@);
    insert_then_get(m2, "artifact_id"@, int_model(id as int), "subject"@);
    insert_then_get(m2, "artifact_id"@, int_model(id as int), "artifact_id"@);
}

/// A review at a port tells the verdict, and in its notes the summary and the suggestions.
pub proof fn reviews_are_told_whole(r: Review)
    ensures
        tree_get(review_tree(r), "ok"@) == Some(JsonModel::Bool(r.ok)),
        tree_get(review_tree(r), "notes"@) matches Some(n) && tree_get(n, "summary"@) == Some(
            JsonModel::Text(r.notes.summary@),
        ) && tree_get(n, "suggestions"@) == Some(texts_model(texts(r.notes.suggestions@))),
{
    reveal_strlit("ok");
    reveal_strlit("notes");
    reveal_strlit("summary");
    reveal_strlit("suggestions");
    assert("ok"@.len() != "notes"@.len());
    assert("ok"@.len() != "summary"@.len());
    assert("ok"@.len() != "suggestions"@.len());
    assert("notes"@.len() != "summary"@.len());
    assert("notes"@.len() != "suggestions"@.len());
    assert("summary"@.len() != "suggestions"@.len());
    let a = map_insert(MapModel::empty(), "summary"@, JsonModel::Text(r.notes.summary@));
    let b = map_insert(a, "suggestions"@, texts_model(texts(r.notes.suggestions@)));
    insert_then_get(MapModel::empty(), "summary"@, JsonModel::Text(r.notes.summary@), "suggestions"@);
    insert_then_get(a, "suggestions"@, texts_model(texts(r.notes.suggestions@)), "summary"@);
    let c = map_insert(MapModel::empty(), "ok"@, JsonModel::Bool(r.ok));
    insert_then_get(MapModel::empty(), "ok"@, JsonModel::Bool(r.ok), "notes"@);
    insert_then_get(c, "notes"@, JsonModel::Object(b), "ok"@);
}

/// The agents that are known by name have a way of their own, and all others a common one.
pub proof fn known_agents_have_their_own_way(name: Seq<char>)
    ensures
        route_of("contact_resolver"@) == AgentRoute::Contact,
        route_of("context_gatherer"@) == AgentRoute::Context,
        route_of("writer"@) == AgentRoute::Writer,
        route_of("critic"@) == AgentRoute::Critic,
        route_of("mailer"@) == AgentRoute::Mailer,
        route_of("system_tra"@) == AgentRoute::SystemTra,
        route_of(name) == AgentRoute::Generic <==> name != "contact_resolver"@ && name
            != "context_gatherer"@ && name != "writer"@ && name != "critic"@ && name != "mailer"@ && name
            != "system_tra"@,
{
    reveal_strlit("contact_resolver");
    reveal_strlit("context_gatherer");
    reveal_strlit("writer");
    reveal_strlit("critic");
    reveal_strlit("mailer");
    reveal_strlit("system_tra");
    assert("contact_resolver"@[4] != "context_gatherer"@[4]);
    assert("contact_resolver"@.len() != "writer"@.len());
    assert("contact_resolver"@.len() != "critic"@.len());
    assert("contact_resolver"@.len() != "mailer"@.len());
    assert("contact_resolver"@.len() != "system_tra"@.len());
    assert("context_gatherer"@.len() != "writer"@.len());
    assert("context_gatherer"@.len() != "critic"@.len());
    assert("context_gatherer"@.len() != "mailer"@.len());
    assert("context_gatherer"@.len() != "system_tra"@.len());
    assert("writer"@[0] != "critic"@[0]);
    assert("writer"@[0] != "mailer"@[0]);
    assert("writer"@.len() != "system_tra"@.len());
    assert("critic"@[0] != "mailer"@[0]);
    assert("critic"@.len() != "system_tra"@.len());
    assert("mailer"@.len() != "system_tra"@.len());
}

/// An agent is told which variant of it is meant, and each of its parameters after its name: a text as
/// it is, anything else as JSON.
pub proof fn parameters_are_told_by_name(r: AgentRefModel, with: MapModel, n: nat, k: int)
    requires
        n <= with.len(),
        0 <= k < n,
    ensures
        named_args(r, with, n).len() == 2 * n + 1,
        named_args(r, with, n)[0] == told_reference(r),
        named_args(r, with, n)[2 * k + 1] == "--"@ + with[k].0,
        with[k].1 matches JsonModel::Text(t) ==> named_args(r, with, n)[2 * k + 2] == t,
        !(with[k].1 is Text) ==> named_args(r, with, n)[2 * k + 2] == json_text(with[k].1),
        r.variant is None ==> told_reference(r) == r.name,
        r.variant matches Some(v) ==> told_reference(r) == r.name + "@"@ + v,
    decreases n,
{
    lemma_args_len(r, with, n);
    lemma_args_len(r, with, (n - 1) as nat);
    if k < n - 1 {
        parameters_are_told_by_name(r, with, (n - 1) as nat, k);
    }
}

proof fn lemma_args_len(r: AgentRefModel, with: MapModel, n: nat)
    ensures
        named_args(r, with, n).len() == 2 * n + 1,
        named_args(r, with, n)[0] == told_reference(r),
    decreases n,
{
    if n > 0 {
        lemma_args_len(r, with, (n - 1) as nat);
    }
}

/// A program is run only where it is there and is the one that was promised.
pub proof fn only_promised_programs_run(r: AgentRefModel, b: AgentBundle, f: ProgramFacts)
    ensures
        runnable(b, f) ==> f.is_file && b.wasm_entry is Some && f.digest is Ok && f.digest->Ok_0@
            == b.wasm_entry->0.blake3@,
        b.wasm_entry is Some && f.is_file && f.digest is Ok && f.digest->Ok_0@ == b.wasm_entry->0.blake3@
            ==> runnable(b, f) && unrunnable(r, b, f) is None,
        b.wasm_entry is None || !f.is_file || f.digest is Err ==> unrunnable(r, b, f) is Some,
{
}

/// The built-in way is taken only after failures that say the program was not there.
pub proof fn other_failures_are_told(e: RunnerError, m: String)
    ensures
        falls_back(e) ==> e is Executor,
        falls_back(RunnerError::Executor(m)) <==> has_text(m@, "missing wasm entry"@) || has_text(
            m@,
            "No such file or directory"@,
        ),
{
}

/// A text parameter is what the node says, or the usual one where it says nothing; one that cannot be
/// read is told with its name and its node.
pub proof fn parameters_are_those_of_the_node(t: String, m: String, key: Seq<char>, node: Seq<char>, usual: Seq<char>)
    ensures
        text_of(Ok(Some(t)), key, node, usual) == Ok::<Seq<char>, Seq<char>>(t@),
        text_of(Ok(None), key, node, usual) == Ok::<Seq<char>, Seq<char>>(usual),
        text_of(Err(m), key, node, usual) == Err::<Seq<char>, Seq<char>>(
            "invalid parameter '"@ + key + "' for node "@ + node + ": "@ + m@,
        ),
        or_usual(Some(t), usual) == t@,
        or_usual(None, usual) == usual,
{
}

/// The resolver is asked what the node says: `query` first, then `recipient_query`; a blank question is
/// refused.
pub proof fn resolvers_are_asked_the_query(t: String, u: String, node: Seq<char>)
    ensures
        trim(t@).len() > 0 ==> asked_contact(Ok(Some(t)), Ok(Some(u)), node) == Ok::<Seq<char>, Seq<char>>(t@),
        trim(u@).len() > 0 ==> asked_contact(Ok(None), Ok(Some(u)), node) == Ok::<Seq<char>, Seq<char>>(u@),
        trim(t@).len() == 0 ==> asked_contact(Ok(Some(t)), Ok(Some(u)), node) is Err,
        asked_contact(Err(t), Ok(Some(u)), node) is Err,
{
}

/// What a node cannot do without must be there.
pub proof fn writers_and_mailers_need_their_inputs(w: WriterReads, m: MailerReads, node: Seq<char>)
    ensures
        writer_fault(w, node) is None <==> w.recipient is Ok && w.recipient->Ok_0 is Some && w.context is Ok
            && w.context->Ok_0 is Some && w.topic is Ok && w.tone is Ok && w.model is Ok,
        mailer_fault(m, node) is None <==> m.draft is Ok && m.draft->Ok_0 is Some && m.contact is Ok
            && m.contact->Ok_0 is Some && m.review is Ok && m.review->Ok_0 is Some && m.topic is Ok,
        w.recipient is Ok && w.recipient->Ok_0 is None ==> writer_fault(w, node) == Some(
            "writer missing recipients input"@,
        ),
        m.draft is Ok && m.draft->Ok_0 is None ==> mailer_fault(m, node) == Some(
            "mailer missing draft input"@,
        ),
{
}

/// What an agent is handed stands behind the name of what it is.
pub proof fn agents_are_handed_what_was_read(
    r: AgentRefModel,
    recipient: Seq<u8>,
    context: Seq<u8>,
    topic: Seq<char>,
    tone: Seq<char>,
    j: MailerJob,
)
    ensures
        ({
            let w = writer_args(r, recipient, topic, tone, context);
            &&& w[0] == told_reference(r)
            &&& follows(w, "--recipient-base64"@, base64_text(recipient))
            &&& follows(w, "--context-base64"@, base64_text(context))
            &&& follows(w, "--topic"@, topic)
            &&& follows(w, "--tone"@, tone)
        }),
        ({
            let m = mailer_args(r, j);
            &&& m[0] == told_reference(r)
            &&& follows(m, "--draft-base64"@, base64_text(j.draft_json@))
            &&& follows(m, "--contact-base64"@, base64_text(j.contact_json@))
            &&& follows(m, "--review-base64"@, base64_text(j.review_json@))
            &&& follows(m, "--topic"@, j.topic@)
        }),
        ({
            let c = context_args(r, topic, Some(recipient));
            &&& c[0] == told_reference(r)
            &&& follows(c, "--topic"@, topic)
            &&& follows(c, "--contact-base64"@, base64_text(recipient))
        }),
        context_args(r, topic, None).len() == 3,
{
    let w = writer_args(r, recipient, topic, tone, context);
    assert(w[1] == "--recipient-base64"@ && w[3] == "--topic"@ && w[5] == "--tone"@ && w[7]
        == "--context-base64"@);
    assert(w[2] == base64_text(recipient) && w[4] == topic && w[6] == tone && w[8] == base64_text(context));
    let m = mailer_args(r, j);
    assert(m[1] == "--draft-base64"@ && m[3] == "--contact-base64"@ && m[5] == "--review-base64"@ && m[7]
        == "--topic"@);
    assert(m[2] == base64_text(j.draft_json@) && m[4] == base64_text(j.contact_json@) && m[6]
        == base64_text(j.review_json@) && m[8] == j.topic@);
    let c = context_args(r, topic, Some(recipient));
    assert(c[1] == "--topic"@ && c[3] == "--contact-base64"@);
    assert(c[2] == topic && c[4] == base64_text(recipient));
}

/// Whether a value stands behind the name of what it is.
pub open spec fn follows(args: Seq<Seq<char>>, name: Seq<char>, value: Seq<char>) -> bool {
    exists|i: int| 0 <= i < args.len() - 1 && #[trigger] args[i] == name && args[i + 1] == value
}

/// Only an operator who was asked and said no has declined.
pub proof fn silence_is_no_refusal(d: ActionDecision)
    ensures
        !declined(None),
        declined(Some(d)) <==> !d.approved,
{
}

/// What a node records is of the run, of the node and in the user's scope.
pub proof fn nodes_record_where_they_stand(
    kind: Seq<char>,
    node: Seq<char>,
    payload: JsonModel,
    t: TraceId,
    o: OpeningId,
    why: Option<Seq<char>>,
)
    ensures
        node_delta(kind, node, payload, t, o, why).kind == kind,
        node_delta(kind, node, payload, t, o, why).payload == payload,
        node_delta(kind, node, payload, t, o, why).scope == Some("user"@),
        node_delta(kind, node, payload, t, o, why).actor == "agent:"@ + node,
        node_delta(kind, node, payload, t, o, why).provenance.agent_id == "agent:"@ + node,
        node_delta(kind, node, payload, t, o, why).provenance.trace_id == trace_text(t),
        node_delta(kind, node, payload, t, o, why).provenance.opening_id == opening_text(o),
        node_delta(kind, node, payload, t, o, why).provenance.rationale == why,
{
}

/// An answer's values stand at the ports of their names; an answer without any stands whole at the
/// common one.
pub proof fn answers_stand_at_their_ports(m: MapModel, ports: Seq<Seq<char>>, p: Seq<char>, j: JsonModel)
    requires
        ports.no_duplicates(),
    ensures
        ports_ordered(picked(m, ports)),
        ports.contains(p) && map_get(m, p) is Some ==> port_get(picked(m, ports), p) == Some(
            seq![map_get(m, p)->0],
        ),
        !ports.contains(p) || map_get(m, p) is None ==> port_get(picked(m, ports), p) is None,
        picked(m, ports).len() > 0 ==> generic_ports(JsonModel::Object(m), ports) == picked(m, ports),
        picked(m, ports).len() == 0 ==> port_get(generic_ports(JsonModel::Object(m), ports), "out"@) == Some(
            seq![JsonModel::Object(m)],
        ),
        !(j is Object) ==> port_get(generic_ports(j, ports), "out"@) == Some(seq![j]),
{
    lemma_picked(m, ports, p);
    pushed_values_come_last(PortsModel::empty(), "out"@, JsonModel::Object(m), "out"@);
    pushed_values_come_last(PortsModel::empty(), "out"@, j, "out"@);
    assert(at_port(PortsModel::empty(), "out"@).push(j) =~= seq![j]);
    assert(at_port(PortsModel::empty(), "out"@).push(JsonModel::Object(m)) =~= seq![JsonModel::Object(m)]);
}

proof fn lemma_picked(m: MapModel, ports: Seq<Seq<char>>, p: Seq<char>)
    requires
        ports.no_duplicates(),
    ensures
        ports_ordered(picked(m, ports)),
        ports.contains(p) && map_get(m, p) is Some ==> port_get(picked(m, ports), p) == Some(
            seq![map_get(m, p)->0],
        ),
        !ports.contains(p) || map_get(m, p) is None ==> port_get(picked(m, ports), p) is None,
    decreases ports.len(),
{
    if ports.len() > 0 {
        let before = ports.drop_last();
        let last = ports.last();
        lemma_picked(m, before, p);
        lemma_picked(m, before, last);
        assert(ports =~= before.push(last));
        assert(!before.contains(last)) by {
            if before.contains(last) {
                let i = choose|i: int| 0 <= i < before.len() && before[i] == last;
                assert(ports[i] == ports[ports.len() - 1]);
            }
        }
        if p != last {
            assert(ports.contains(p) ==> before.contains(p)) by {
                if ports.contains(p) {
                    let i = choose|i: int| 0 <= i < ports.len() && ports[i] == p;
                    assert(before[i] == p);
                }
            }
            if before.contains(p) {
                let i = choose|i: int| 0 <= i < before.len() && before[i] == p;
                assert(ports[i] == p);
            }
        } else {
            assert(ports[ports.len() - 1] == p);
        }
        match map_get(m, last) {
            Some(j) => {
                pushed_values_come_last(picked(m, before), last, j, p);
                assert(at_port(picked(m, before), last).push(j) =~= seq![j]);
            },
            None => {},
        }
    }
}

/// An answer is what the program wrote since the last look, once all of it is JSON; a complaint is what
/// it wrote beside it, unless that is blank.
pub proof fn programs_are_listened_to(out: Seq<u8>, err: Seq<u8>, seen: usize)
    ensures
        fresh_answer(out, seen) matches Some(t) ==> json_document(t) is Some && t.len() > 0 && out.len() != seen,
        out.len() == seen ==> fresh_answer(out, seen) is None,
        vstd::utf8::valid_utf8(out) && out.len() != seen && json_document(
            trim(vstd::utf8::decode_utf8(out)),
        ) is Some && trim(vstd::utf8::decode_utf8(out)).len() > 0 ==> fresh_answer(out, seen) == Some(
            trim(vstd::utf8::decode_utf8(out)),
        ),
        err.len() <= seen ==> complaint_in(err, seen) is None,
        complaint_in(err, seen) matches Some(t) ==> t == trim(lossy_text(err.skip(seen as int))) && t.len() > 0,
        err.len() > seen && trim(lossy_text(err.skip(seen as int))).len() > 0 ==> complaint_in(err, seen)
            is Some,
{
}

} // verus!
