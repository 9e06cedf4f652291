//! What the agents promise of their work together: what is found, written, reviewed and recorded.

use crate::broker::types::FractionModel;
use crate::crew::common::{contact_record, proposed, ContactModel, Errand, SnippetModel};
use crate::crew::critic::{advice, counted, passes, thanks, verdict};
use crate::crew::gatherer::{
    clauses, escaped_char, events_query, gathered, like_clause, like_pattern, snippet_in, snippets_in,
    topic_byte, topic_found, window,
};
use crate::crew::gatherer::{summary};
use crate::crew::mailer::{cannot_propose, mail_lines, mail_record};
use crate::crew::resolver::{contact_in, likeness_of, stub_of, Likeness};
use crate::crew::writer::{
    artifact_record, asked, body_of, bullets, cited_ids, draft_place, fallback_text, id_items, prompt_of,
    AskModel,
};
use crate::digest::{sha256_hex, utf8};
use crate::ids::{uuid_text, EventId, TraceId};
use crate::json::{
    insert_then_get, int_model, map_get, map_insert, tree_get, JsonModel, MapModel, NumeralModel,
};
use crate::kb::keys::{contact_key, plain_email};
use crate::kb::views::{change_of, ChangeModel, EventModel};
use crate::prose::{byte_len, small_letters};
use crate::text::{first_at, has_char, has_text, join, lower, lower_char, occurs_at, trim, words};
use crate::paths::joined_path;
use vstd::prelude::*;

verus! {

/// A draft is held back if and only if it has fewer than ten words or more than a hundred and
/// eighty, by the writer's count where there is one and by its words otherwise.
pub proof fn drafts_are_judged_by_their_length(body: Seq<char>, reported: usize)
    ensures
        reported > 0 ==> (passes(counted(body, reported)) <==> 10 <= reported <= 180),
        reported == 0 ==> (passes(counted(body, reported)) <==> 10 <= words(body).len() <= 180),
{
}

/// A draft that thanks in any of the usual ways, in large or small letters, counts as polite.
pub proof fn thanks_are_noticed(body: Seq<char>)
    ensures
        has_text(lower(body), "thanks"@) ==> thanks(body),
        has_text(lower(body), "thank you"@) ==> thanks(body),
        has_text(lower(body), "thank-you"@) ==> thanks(body),
        !has_text(lower(body), "thanks"@) && !has_text(lower(body), "thank you"@) && !has_text(
            lower(body),
            "thank-you"@,
        ) ==> !thanks(body),
{
}

/// A good and polite draft needs no advice, and the verdict tells which of three kinds a draft is.
pub proof fn verdicts_tell_three_kinds(n: nat, polite: bool)
    ensures
        passes(n) && polite ==> advice(n, polite).len() == 0,
        passes(n) && !polite ==> advice(n, polite).len() == 1,
        n < 10 ==> advice(n, polite).len() > 0 && advice(n, polite)[0] != advice(181, polite)[0],
        verdict(false, true) != verdict(true, true),
        verdict(true, false) != verdict(true, true),
        verdict(true, false) == "Draft looks good."@,
        verdict(false, true) == "Draft needs attention."@,
{
    reveal_strlit("Draft needs attention.");
    reveal_strlit("Draft looks good with minor polish.");
    reveal_strlit("Draft looks good.");
    assert("Draft needs attention."@.len() == 22);
    assert("Draft looks good with minor polish."@.len() == 35);
    assert("Draft looks good."@.len() == 17);
    reveal_strlit("Add more detail so the draft reaches at least 10 words (currently ");
    reveal_strlit("Trim the draft to at most 180 words (currently ");
    if n < 10 {
        assert(advice(n, polite)[0][0] == 'A');
        assert(advice(181, polite)[0][0] == 'T');
    }
}

/// A mail is put to the operator only once the draft has been approved and the operator can be
/// asked.
pub proof fn mails_need_approval(reviewed: bool, askable: bool)
    ensures
        cannot_propose(reviewed, askable) is None <==> reviewed && askable,
{
}

/// What is shown of a mail names the one whom it goes to, its topic and its text.
pub proof fn mails_show_what_is_sent(email: Seq<char>, topic: Seq<char>, preview: Seq<char>)
    ensures
        mail_lines(email, topic, preview).contains("To: "@ + email),
        mail_lines(email, topic, preview).contains("Subject: "@ + topic),
        mail_lines(email, topic, preview).contains(preview),
{
    let s = mail_lines(email, topic, preview);
    assert(s[1] == "To: "@ + email && s[2] == "Subject: "@ + topic && s[3] == preview);
}

/// An agent's change is in the user's scope, under its own name, and tells the run that it belongs
/// to and why it was made.
pub proof fn changes_tell_where_they_come_from(
    e: Errand,
    kind: Seq<char>,
    payload: JsonModel,
    rationale: Option<Seq<char>>,
)
    ensures
        proposed(e, kind, payload, rationale).kind == kind,
        proposed(e, kind, payload, rationale).payload == payload,
        proposed(e, kind, payload, rationale).scope == Some("user"@),
        proposed(e, kind, payload, rationale).provenance.rationale == rationale,
        proposed(e, kind, payload, rationale).actor == proposed(e, kind, payload, rationale).provenance.agent_id,
        proposed(e, kind, payload, rationale).actor == "agent:"@ + crate::ids::uuid_text(e.agent_id.0),
        proposed(e, kind, payload, rationale).provenance.trace_id == "trace:"@ + crate::ids::uuid_text(
            e.trace_id.0,
        ),
        proposed(e, kind, payload, rationale).provenance.opening_id == "opening:"@ + crate::ids::uuid_text(
            e.opening_id.0,
        ),
{
}

/// A contact that is recorded shows in the views with the name, the address, the organisation and
/// the trust that were recorded.
pub proof fn recorded_contacts_show_in_the_views(c: ContactModel, trust: FractionModel, e: EventModel)
    requires
        e.kind == "contact.upserted"@,
        e.payload == contact_record(c, trust),
    ensures
        change_of(e) matches Ok(ChangeModel::Contact { name, email, org, trust: t, .. }) && name == Some(
            trim(c.name),
        ) && email == Some(plain_email(c.email)) && t == NumeralModel::Float(trust.wide) && match c.org {
            Some(o) => org == Some(trim(o)),
            None => org is None,
        },
{
    reveal_strlit("name");
    reveal_strlit("email");
    reveal_strlit("trust");
    reveal_strlit("org");
    reveal_strlit("evidence");
    assert("name"@[0] != "email"@[0]
        && "name"@[0] != "trust"@[0]
        && "name"@[0] != "org"@[0]
        && "name"@[0] != "evidence"@[0]
        && "email"@[0] != "trust"@[0]
        && "email"@[0] != "org"@[0]
        && "email"@.len() != "evidence"@.len()
        && "trust"@[0] != "org"@[0]
        && "trust"@[0] != "evidence"@[0]
        && "org"@[0] != "evidence"@[0]);
    let m0 = MapModel::empty();
    let m1 = map_insert(m0, "name"@, JsonModel::Text(c.name));
    let m2 = map_insert(m1, "email"@, JsonModel::Text(c.email));
    let m3 = map_insert(m2, "trust"@, JsonModel::Number(NumeralModel::Float(trust.wide)));
    let m4 = map_insert(m3, "evidence"@, JsonModel::Array(seq![]));
    insert_then_get(m0, "name"@, JsonModel::Text(c.name), "name"@);
    insert_then_get(m0, "name"@, JsonModel::Text(c.name), "email"@);
    insert_then_get(m0, "name"@, JsonModel::Text(c.name), "trust"@);
    insert_then_get(m0, "name"@, JsonModel::Text(c.name), "org"@);
    insert_then_get(m0, "name"@, JsonModel::Text(c.name), "evidence"@);
    insert_then_get(m1, "email"@, JsonModel::Text(c.email), "name"@);
    insert_then_get(m1, "email"@, JsonModel::Text(c.email), "email"@);
    insert_then_get(m1, "email"@, JsonModel::Text(c.email), "trust"@);
    insert_then_get(m1, "email"@, JsonModel::Text(c.email), "org"@);
    insert_then_get(m1, "email"@, JsonModel::Text(c.email), "evidence"@);
    insert_then_get(m2, "trust"@, JsonModel::Number(NumeralModel::Float(trust.wide)), "name"@);
    insert_then_get(m2, "trust"@, JsonModel::Number(NumeralModel::Float(trust.wide)), "email"@);
    insert_then_get(m2, "trust"@, JsonModel::Number(NumeralModel::Float(trust.wide)), "trust"@);
    insert_then_get(m2, "trust"@, JsonModel::Number(NumeralModel::Float(trust.wide)), "org"@);
    insert_then_get(m2, "trust"@, JsonModel::Number(NumeralModel::Float(trust.wide)), "evidence"@);
    insert_then_get(m3, "evidence"@, JsonModel::Array(seq![]), "name"@);
    insert_then_get(m3, "evidence"@, JsonModel::Array(seq![]), "email"@);
    insert_then_get(m3, "evidence"@, JsonModel::Array(seq![]), "trust"@);
    insert_then_get(m3, "evidence"@, JsonModel::Array(seq![]), "org"@);
    insert_then_get(m3, "evidence"@, JsonModel::Array(seq![]), "evidence"@);
    if let Some(org) = c.org {
        insert_then_get(m4, "org"@, JsonModel::Text(org), "name"@);
        insert_then_get(m4, "org"@, JsonModel::Text(org), "email"@);
        insert_then_get(m4, "org"@, JsonModel::Text(org), "trust"@);
        insert_then_get(m4, "org"@, JsonModel::Text(org), "org"@);
        insert_then_get(m4, "org"@, JsonModel::Text(org), "evidence"@);
    }
    assert(map_get(m0, "org"@) is None);
}

/// A draft that is recorded shows in the views at its path, under the digest of its text, with the
/// one whom it is for.
pub proof fn recorded_drafts_show_in_the_views(
    path: Seq<char>,
    body: Seq<char>,
    recipient: Seq<char>,
    citations: Seq<EventId>,
    e: EventModel,
)
    requires
        e.kind == "artifact.created"@,
        e.payload == artifact_record(path, body, recipient, citations),
    ensures
        change_of(e) matches Ok(ChangeModel::Artifact { kind, path: p, summary: s, .. }) && kind == trim(
            "draft_email.md"@,
        ) && p == trim(path) && s == Some("Draft email to "@ + recipient),
        tree_get(e.payload, "sha256"@) == Some(JsonModel::Text(sha256_hex(utf8(body)))),
        tree_get(e.payload, "citations"@) == Some(JsonModel::Array(id_items(citations))),
        id_items(citations).len() == citations.len(),
        forall|i: int| 0 <= i < citations.len() ==> #[trigger] id_items(citations)[i] == int_model(
            citations[i].0 as int,
        ),
{
    reveal_strlit("artifact.created");
    reveal_strlit("contact.upserted");
    assert("artifact.created"@[0] != "contact.upserted"@[0]);
    reveal_strlit("kind");
    reveal_strlit("path");
    reveal_strlit("sha256");
    reveal_strlit("summary");
    reveal_strlit("citations");
    assert("kind"@[0] == 'k' && "path"@[0] == 'p' && "sha256"@[1] == 'h' && "summary"@[1] == 'u'
        && "citations"@[0] == 'c' && "sha256"@[0] == 's' && "summary"@[0] == 's');
    let m0 = MapModel::empty();
    let m1 = map_insert(m0, "kind"@, JsonModel::Text("draft_email.md"@));
    let m2 = map_insert(m1, "path"@, JsonModel::Text(path));
    let m3 = map_insert(m2, "sha256"@, JsonModel::Text(sha256_hex(utf8(body))));
    let m4 = map_insert(m3, "summary"@, JsonModel::Text("Draft email to "@ + recipient));
    let m5 = map_insert(m4, "citations"@, JsonModel::Array(id_items(citations)));
    insert_then_get(m0, "kind"@, JsonModel::Text("draft_email.md"@), "kind"@);
    insert_then_get(m0, "kind"@, JsonModel::Text("draft_email.md"@), "path"@);
    insert_then_get(m0, "kind"@, JsonModel::Text("draft_email.md"@), "sha256"@);
    insert_then_get(m0, "kind"@, JsonModel::Text("draft_email.md"@), "summary"@);
    insert_then_get(m0, "kind"@, JsonModel::Text("draft_email.md"@), "citations"@);
    insert_then_get(m1, "path"@, JsonModel::Text(path), "kind"@);
    insert_then_get(m1, "path"@, JsonModel::Text(path), "path"@);
    insert_then_get(m1, "path"@, JsonModel::Text(path), "sha256"@);
    insert_then_get(m1, "path"@, JsonModel::Text(path), "summary"@);
    insert_then_get(m1, "path"@, JsonModel::Text(path), "citations"@);
    insert_then_get(m2, "sha256"@, JsonModel::Text(sha256_hex(utf8(body))), "kind"@);
    insert_then_get(m2, "sha256"@, JsonModel::Text(sha256_hex(utf8(body))), "path"@);
    insert_then_get(m2, "sha256"@, JsonModel::Text(sha256_hex(utf8(body))), "sha256"@);
    insert_then_get(m2, "sha256"@, JsonModel::Text(sha256_hex(utf8(body))), "summary"@);
    insert_then_get(m2, "sha256"@, JsonModel::Text(sha256_hex(utf8(body))), "citations"@);
    insert_then_get(m3, "summary"@, JsonModel::Text("Draft email to "@ + recipient), "kind"@);
    insert_then_get(m3, "summary"@, JsonModel::Text("Draft email to "@ + recipient), "path"@);
    insert_then_get(m3, "summary"@, JsonModel::Text("Draft email to "@ + recipient), "sha256"@);
    insert_then_get(m3, "summary"@, JsonModel::Text("Draft email to "@ + recipient), "summary"@);
    insert_then_get(m3, "summary"@, JsonModel::Text("Draft email to "@ + recipient), "citations"@);
    insert_then_get(m4, "citations"@, JsonModel::Array(id_items(citations)), "kind"@);
    insert_then_get(m4, "citations"@, JsonModel::Array(id_items(citations)), "path"@);
    insert_then_get(m4, "citations"@, JsonModel::Array(id_items(citations)), "sha256"@);
    insert_then_get(m4, "citations"@, JsonModel::Array(id_items(citations)), "summary"@);
    insert_then_get(m4, "citations"@, JsonModel::Array(id_items(citations)), "citations"@);
}

/// A mail that is recorded names its receiver, its topic and the draft that was sent.
pub proof fn recorded_mails_name_their_draft(email: Seq<char>, topic: Seq<char>, artifact_id: i64)
    ensures
        tree_get(mail_record(email, topic, artifact_id), "to"@) == Some(
            JsonModel::Array(seq![JsonModel::Text(email)]),
        ),
        tree_get(mail_record(email, topic, artifact_id), "subject"@) == Some(JsonModel::Text(topic)),
        tree_get(mail_record(email, topic, artifact_id), "artifact_id"@) == Some(
            int_model(artifact_id as int),
        ),
{
    reveal_strlit("to");
    reveal_strlit("subject");
    reveal_strlit("artifact_id");
    assert("to"@[0] != "subject"@[0]
        && "to"@[0] != "artifact_id"@[0]
        && "subject"@[0] != "artifact_id"@[0]);
    let m0 = MapModel::empty();
    let m1 = map_insert(m0, "to"@, JsonModel::Array(seq![JsonModel::Text(email)]));
    let m2 = map_insert(m1, "subject"@, JsonModel::Text(topic));
    let m3 = map_insert(m2, "artifact_id"@, int_model(artifact_id as int));
    insert_then_get(m0, "to"@, JsonModel::Array(seq![JsonModel::Text(email)]), "to"@);
    insert_then_get(m0, "to"@, JsonModel::Array(seq![JsonModel::Text(email)]), "subject"@);
    insert_then_get(m0, "to"@, JsonModel::Array(seq![JsonModel::Text(email)]), "artifact_id"@);
    insert_then_get(m1, "subject"@, JsonModel::Text(topic), "to"@);
    insert_then_get(m1, "subject"@, JsonModel::Text(topic), "subject"@);
    insert_then_get(m1, "subject"@, JsonModel::Text(topic), "artifact_id"@);
    insert_then_get(m2, "artifact_id"@, int_model(artifact_id as int), "to"@);
    insert_then_get(m2, "artifact_id"@, int_model(artifact_id as int), "subject"@);
    insert_then_get(m2, "artifact_id"@, int_model(artifact_id as int), "artifact_id"@);
}

/// A row of the views is a contact if it has a key and an address; it keeps its name, its address and
/// its organisation.
pub proof fn rows_are_contacts(row: JsonModel, confidence: FractionModel, key: Seq<char>, email: Seq<char>)
    requires
        tree_get(row, "contact_key"@) == Some(JsonModel::Text(key)),
        tree_get(row, "email"@) == Some(JsonModel::Text(email)),
    ensures
        contact_in(row, confidence) is Some <==> email.len() > 0,
        contact_in(row, confidence) matches Some(c) ==> {
            &&& c.contact_id == "contact:"@ + key
            &&& c.email == email
            &&& c.confidence == confidence
            &&& match tree_get(row, "name"@) {
                Some(JsonModel::Text(n)) => c.name == n,
                _ => c.name == "unknown"@,
            }
            &&& match tree_get(row, "org"@) {
                Some(JsonModel::Text(o)) => c.org == Some(o),
                _ => c.org is None,
            }
        },
{
}

/// A contact whose address is asked for is known by it, whatever the letters; one whose name holds
/// what is asked for is known by its name; any other is not meant.
pub proof fn contacts_are_known_by_address_first(name: Seq<char>, email: Seq<char>, query: Seq<char>)
    ensures
        lower(email) == lower(trim(query)) ==> likeness_of(name, email, query) == Likeness::Address,
        lower(email) != lower(trim(query)) && has_text(lower(name), lower(query)) ==> likeness_of(
            name,
            email,
            query,
        ) == Likeness::Name,
        lower(email) != lower(trim(query)) && !has_text(lower(name), lower(query)) ==> likeness_of(
            name,
            email,
            query,
        ) == Likeness::Nothing,
{
}

/// A contact that is not known yet has the address that was asked for, where one was, and otherwise an
/// address that leads nowhere. It stands under the key that the views give it.
pub proof fn unknown_contacts_keep_their_address(query: Seq<char>)
    ensures
        has_char(query, '@') ==> stub_of(query).email == plain_email(query),
        !has_char(query, '@') ==> crate::text::has_suffix(stub_of(query).email, "@unknown.local"@),
        stub_of(query).last_event_id is None,
        stub_of(query).org is None,
        contact_key(Some(stub_of(query).email), Some(stub_of(query).name), None) matches Some(k)
            && stub_of(query).contact_id == "contact:"@ + k,
{
    if !has_char(query, '@') {
        let a = crate::crew::resolver::slug_of(query);
        let t = "@unknown.local"@;
        assert((a + t).skip(a.len() as int) =~= t);
    }
}

/// The words for the model name the one whom the mail is for, their address and the topic. The request
/// goes to the model that was asked for.
pub proof fn prompts_name_what_is_asked(q: AskModel, trace_id: TraceId)
    ensures
        has_text(asked(q, trace_id).prompt, q.recipient.name),
        has_text(asked(q, trace_id).prompt, q.recipient.email),
        has_text(asked(q, trace_id).prompt, q.topic),
        q.model matches Some(m) ==> asked(q, trace_id).model == m,
        asked(q, trace_id).trace_id == trace_id.0,
        !asked(q, trace_id).stream,
{
    reveal_strlit("Write an email to ");
    reveal_strlit(" (");
    reveal_strlit(") about \"");
    let p = prompt_of(q);
    let a = "Write an email to "@.len() as int;
    let b = a + q.recipient.name.len() + " ("@.len();
    let c = b + q.recipient.email.len() + ") about \""@.len();
    assert(p.subrange(a, a + q.recipient.name.len()) =~= q.recipient.name);
    assert(occurs_at(p, q.recipient.name, a));
    assert(p.subrange(b, b + q.recipient.email.len()) =~= q.recipient.email);
    assert(occurs_at(p, q.recipient.email, b));
    assert(p.subrange(c, c + q.topic.len()) =~= q.topic);
    assert(occurs_at(p, q.topic, c));
}

/// Each thing that is known stands in the words for the model, as a line of its own.
pub proof fn prompts_hold_what_is_known(s: Seq<SnippetModel>, i: int)
    requires
        0 <= i < s.len(),
    ensures
        has_text(bullets(s), "- "@ + s[i].excerpt + "\n"@),
    decreases s.len(),
{
    let line = "- "@ + s[i].excerpt + "\n"@;
    let before = bullets(s.drop_last());
    let all = bullets(s);
    if i == s.len() - 1 {
        let k = before.len() as int;
        assert(all.subrange(k, k + line.len()) =~= line);
        assert(occurs_at(all, line, k));
    } else {
        prompts_hold_what_is_known(s.drop_last(), i);
        let k = choose|k: int| occurs_at(before, line, k);
        assert(all.subrange(k, k + line.len()) =~= before.subrange(k, k + line.len()));
        assert(occurs_at(all, line, k));
    }
}

/// A text that is short enough is kept as it is, but for the white space around it.
pub proof fn short_drafts_are_kept(text: Seq<char>, limit: usize)
    ensures
        words(trim(text)).len() <= limit ==> body_of(text, Some(limit)) == trim(text),
        words(trim(text)).len() <= 180 ==> body_of(text, None) == trim(text),
{
}

/// What is asked of the ledger mentions the address and the name of the contact and the topic, as far
/// as they are told.
pub proof fn questions_mention_what_is_told(topic: Seq<char>, contact: Option<ContactModel>)
    ensures
        topic.len() > 0 ==> clauses(topic, contact).contains(like_clause(topic)),
        contact matches Some(c) ==> (c.email.len() > 0 ==> clauses(topic, contact).contains(
            like_clause(c.email),
        )) && (c.name.len() > 0 ==> clauses(topic, contact).contains(like_clause(c.name))),
        topic.len() == 0 && contact is None ==> clauses(topic, contact).len() == 0,
{
    let s = clauses(topic, contact);
    if topic.len() > 0 {
        assert(s.last() == like_clause(topic));
    }
    if let Some(c) = contact {
        if c.email.len() > 0 {
            assert(s[0] == like_clause(c.email));
            if c.name.len() > 0 {
                assert(s[1] == like_clause(c.name));
            }
        } else if c.name.len() > 0 {
            assert(s[0] == like_clause(c.name));
        }
    }
}

/// A row of the ledger becomes a snippet with its number and its kind; a short payload is shown as it
/// is.
pub proof fn rows_are_snippets(row: JsonModel, topic: Seq<char>, id: u64, kind: Seq<char>, payload: Seq<char>)
    requires
        tree_get(row, "id"@) == Some(JsonModel::Number(NumeralModel::Unsigned(id))),
        id <= i64::MAX,
        tree_get(row, "kind"@) == Some(JsonModel::Text(kind)),
        tree_get(row, "payload_json"@) == Some(JsonModel::Text(payload)),
    ensures
        snippet_in(row, topic) matches Some(s) && s.event_id == id && s.title == kind + " event"@ && (byte_len(
            payload,
        ) <= 120 ==> s.excerpt == payload),
{
}

/// The snippets are those of the rows, in their order; where there are none, one tells so.
pub proof fn snippets_are_those_of_the_rows(
    rows: Seq<JsonModel>,
    topic: Seq<char>,
    contact: Option<ContactModel>,
    i: int,
)
    ensures
        0 <= i < rows.len() && snippet_in(rows[i], topic) is Some ==> gathered(rows, topic, contact).contains(
            snippet_in(rows[i], topic)->0,
        ),
        gathered(rows, topic, contact).len() > 0,
        snippets_in(rows, topic).len() <= rows.len(),
{
    lemma_snippets(rows, topic, i);
}

proof fn lemma_snippets(rows: Seq<JsonModel>, topic: Seq<char>, i: int)
    ensures
        0 <= i < rows.len() && snippet_in(rows[i], topic) is Some ==> snippets_in(rows, topic).contains(
            snippet_in(rows[i], topic)->0,
        ),
        snippets_in(rows, topic).len() <= rows.len(),
    decreases rows.len(),
{
    if rows.len() > 0 {
        let rest = rows.drop_last();
        lemma_snippets(rest, topic, i);
        let before = snippets_in(rest, topic);
        let all = snippets_in(rows, topic);
        if 0 <= i < rows.len() && snippet_in(rows[i], topic) is Some {
            let x = snippet_in(rows[i], topic)->0;
            if i < rest.len() {
                assert(rest[i] == rows[i]);
                let k = choose|k: int| 0 <= k < before.len() && before[k] == x;
                assert(all[k] == x);
            } else {
                assert(all.last() == x);
            }
        }
    }
}

/// In a pattern no character of the text has a meaning of its own: quotes are doubled, and the signs
/// of patterns are escaped.
pub proof fn patterns_are_escaped(s: Seq<char>, c: char)
    ensures
        like_pattern(s.push(c)) == like_pattern(s) + escaped_char(lower_char(c)),
        escaped_char('\'') == seq!['\'', '\''],
        escaped_char('%') == seq!['\\', '%'],
        escaped_char('_') == seq!['\\', '_'],
        escaped_char('\\') == seq!['\\', '\\'],
{
    assert(s.push(c).drop_last() =~= s);
    reveal_strlit("''");
    reveal_strlit("\\\\");
    reveal_strlit("\\%");
    reveal_strlit("\\_");
    assert("''"@ =~= seq!['\'', '\'']);
    assert("\\\\"@ =~= seq!['\\', '\\']);
    assert("\\%"@ =~= seq!['\\', '%']);
    assert("\\_"@ =~= seq!['\\', '_']);
}

/// A letter that is written without a model names its recipient and its topic, and what is known first
/// where there is something.
pub proof fn plain_letters_name_what_is_asked(q: AskModel)
    ensures
        has_text(fallback_text(q), q.recipient.name),
        has_text(fallback_text(q), small_letters(q.topic)),
        q.snippets.len() > 0 ==> has_text(fallback_text(q), q.snippets[0].excerpt),
{
    reveal_strlit("Hi ");
    reveal_strlit(",\n\n");
    reveal_strlit("I wanted to follow up about ");
    reveal_strlit(". ");
    reveal_strlit("Recently, ");
    let p = fallback_text(q);
    let t = small_letters(q.topic);
    let a = "Hi "@.len() as int;
    let b = a + q.recipient.name.len() + ",\n\n"@.len() + "I wanted to follow up about "@.len();
    assert(p.subrange(a, a + q.recipient.name.len()) =~= q.recipient.name);
    assert(occurs_at(p, q.recipient.name, a));
    assert(p.subrange(b, b + t.len()) =~= t);
    assert(occurs_at(p, t, b));
    if q.snippets.len() > 0 {
        let x = q.snippets[0].excerpt;
        let c = b + t.len() + ". "@.len() + "Recently, "@.len();
        assert(p.subrange(c, c + x.len()) =~= x);
        assert(occurs_at(p, x, c));
    }
}

/// A draft stands in its own file below the drafts, under its identity.
pub proof fn drafts_stand_below_the_drafts(dir: Seq<char>, id: u128)
    requires
        dir.len() > 0,
        dir.last() != '/',
    ensures
        draft_place(dir, id) == dir + "/artifacts/drafts/draft-"@ + uuid_text(id) + ".md"@,
{
    reveal_strlit("artifacts");
    reveal_strlit("drafts");
    reveal_strlit("draft-");
    reveal_strlit("/");
    reveal_strlit("/artifacts/drafts/draft-");
    let a = joined_path(dir, "artifacts"@);
    assert(a == dir + "/"@ + "artifacts"@);
    assert(a.last() == "artifacts"@[8]);
    let b = joined_path(a, "drafts"@);
    assert(b == a + "/"@ + "drafts"@);
    assert(b.last() == "drafts"@[5]);
    let n = "draft-"@ + uuid_text(id) + ".md"@;
    assert(n[0] == "draft-"@[0]);
    assert("/"@ + "artifacts"@ + "/"@ + "drafts"@ + "/"@ + "draft-"@ =~= "/artifacts/drafts/draft-"@);
    assert(b + "/"@ + n =~= dir + ("/"@ + "artifacts"@ + "/"@ + "drafts"@ + "/"@ + "draft-"@) + uuid_text(id)
        + ".md"@);
}

/// A draft cites the event of every snippet, in their order.
pub proof fn every_snippet_is_cited(s: Seq<SnippetModel>, i: int)
    requires
        0 <= i < s.len(),
    ensures
        cited_ids(s).len() == s.len(),
        cited_ids(s)[i] == EventId(s[i].event_id),
{
}

/// A topic is noticed in any case, and shown with as much as thirty bytes on either side.
pub proof fn topics_are_shown_with_their_surroundings(p: Seq<char>, t: Seq<char>)
    requires
        topic_found(p, t),
    ensures
        topic_found(p, t) == (first_at(lower(p), lower(t)) < p.len()),
        window(p, t).0 <= topic_byte(p, t) || topic_byte(p, t) < 0,
        topic_byte(p, t) >= 30 ==> window(p, t).0 == topic_byte(p, t) - 30,
        topic_byte(p, t) < 30 ==> window(p, t).0 == 0,
        window(p, t).1 <= byte_len(p),
        topic_byte(p, t) + byte_len(t) + 30 < byte_len(p) ==> window(p, t).1 == topic_byte(p, t) + byte_len(t)
            + 30,
{
}

/// The newest five events are asked for, all of them where nothing is told.
pub proof fn the_newest_events_are_asked_for(topic: Seq<char>, c: Option<ContactModel>)
    ensures
        clauses(topic, c).len() > 0 ==> events_query(topic, c)
            == "SELECT id, kind, payload_json FROM events WHERE "@ + join(clauses(topic, c), " OR "@)
            + " ORDER BY id DESC LIMIT 5"@,
        clauses(topic, c).len() == 0 ==> events_query(topic, c)
            == "SELECT id, kind, payload_json FROM events WHERE "@ + "1=1"@ + " ORDER BY id DESC LIMIT 5"@,
{
}

} // verus!
