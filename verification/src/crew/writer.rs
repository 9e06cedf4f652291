//! Writes a draft.

use crate::broker::types::{ModelOutput, ModelRequest, OutputModel, RequestModel};
use crate::crew::common::{
    artifacts_dir, proposed, snippet_models, ContactModel, ContextBundle, DraftArtifact, Errand,
    ResolvedContact, SnippetModel,
};
use crate::digest::{push_text, sha256_hex, sha256_hex_of, utf8};
use crate::ids::{is_random_uuid, random_uuid, uuid_text, write_uuid, EventId, TraceId};
use crate::json::{
    int_json, int_model, list_model, map_insert, text_json, Json, JsonMap, JsonModel, MapModel,
};
use crate::kb::ledger::StateDelta;
use crate::paths::{join_path, joined_path};
use crate::prose::{
    first_words, first_words_are_kept, small_letters, to_small_letters, trim_to_words,
};
use crate::text::{concat, concat3, decimal, decimal_text, opt_text, trim, trimmed, word_count, words};
use vstd::prelude::*;

verus! {

#[derive(Debug)]
pub struct DraftRequest {
    pub recipient: ResolvedContact,
    pub topic: String,
    pub context: ContextBundle,
    pub tone: Option<String>,
    pub length_hint: Option<(u32, u32)>,
    pub model: Option<String>,
    pub max_words: Option<usize>,
}

pub ghost struct AskModel {
    pub recipient: ContactModel,
    pub topic: Seq<char>,
    pub snippets: Seq<SnippetModel>,
    pub tone: Option<Seq<char>>,
    pub length_hint: Option<(u32, u32)>,
    pub model: Option<Seq<char>>,
    pub max_words: Option<usize>,
}

impl DraftRequest {
    pub open spec fn view(self) -> AskModel {
        AskModel {
            recipient: self.recipient@,
            topic: self.topic@,
            snippets: snippet_models(self.context.snippets@),
            tone: opt_text(self.tone),
            length_hint: self.length_hint,
            model: opt_text(self.model),
            max_words: self.max_words,
        }
    }
}

pub open spec fn bullets(s: Seq<SnippetModel>) -> Seq<char>
    decreases s.len(),
{
    if s.len() == 0 {
        seq![]
    } else {
        bullets(s.drop_last()) + ("- "@ + s.last().excerpt + "\n"@)
    }
}

pub open spec fn prompt_of(q: AskModel) -> Seq<char> {
    let tone = match q.tone {
        Some(t) => t,
        None => "neutral-friendly"@,
    };
    "Write an email to "@ + q.recipient.name + " ("@ + q.recipient.email + ") about \""@ + q.topic
        + "\". Tone: "@ + tone + "."@ + (match q.length_hint {
        Some((lo, hi)) => " Target length: "@ + decimal(lo as nat) + "-"@ + decimal(hi as nat)
            + " words."@,
        None => " Target length: under 180 words."@,
    }) + (if q.snippets.len() > 0 {
        "\nContext bullets:\n"@ + bullets(q.snippets)
    } else {
        seq![]
    })
}

pub fn render_prompt(req: &DraftRequest) -> (r: String)
    ensures
        r@ == prompt_of(req@),
{
    let tone = match &req.tone {
        Some(t) => t.as_str(),
        None => "neutral-friendly",
    };
    let mut out = concat("Write an email to ", req.recipient.name.as_str());
    out.append(" (");
    out.append(req.recipient.email.as_str());
    out.append(") about \"");
    out.append(req.topic.as_str());
    out.append("\". Tone: ");
    out.append(tone);
    out.append(".");
    match req.length_hint {
        Some((lo, hi)) => {
            let mut hint = concat(" Target length: ", decimal_text(lo as u64).as_str());
            hint.append("-");
            hint.append(decimal_text(hi as u64).as_str());
            hint.append(" words.");
            out.append(hint.as_str());
        },
        None => out.append(" Target length: under 180 words."),
    }
    let ghost head = out@;
    let ghost all = snippet_models(req.context.snippets@);
    assert(all.len() == req.context.snippets@.len());
    if req.context.snippets.len() > 0 {
        let mut list = "\nContext bullets:\n".to_owned();
        let ghost start = list@;
        let mut i: usize = 0;
        assert(start + bullets(all.take(0)) =~= start);
        while i < req.context.snippets.len()
            invariant
                i <= req.context.snippets.len(),
                all == snippet_models(req.context.snippets@),
                list@ == start + bullets(all.take(i as int)),
            decreases req.context.snippets.len() - i,
        {
            assert(all.take(i + 1).drop_last() =~= all.take(i as int));
            assert(all.take(i + 1).last() == req.context.snippets@[i as int]@);
            let line = concat3("- ", req.context.snippets[i].excerpt.as_str(), "\n");
            let ghost o = list@;
            list.append(line.as_str());
            assert(o + line@ =~= start + (bullets(all.take(i as int)) + line@));
            i += 1;
        }
        assert(all.take(all.len() as int) =~= all);
        out.append(list.as_str());
    } else {
        assert(head + seq![] =~= head);
    }
    out
}

/// What the model is asked.
pub open spec fn asked(q: AskModel, trace_id: TraceId) -> RequestModel {
    RequestModel {
        trace_id: trace_id.0,
        model: match q.model {
            Some(m) => m,
            None => "null:compose"@,
        },
        prompt: prompt_of(q),
        role_system: None,
        params: None,
        budget_tokens: Some(4000),
        timeout_ms: Some(10000),
        cache_ttl_ms: Some(60000),
        cache_key: None,
        stream: false,
        extras: None,
    }
}

pub fn model_request(req: &DraftRequest, trace_id: TraceId) -> (r: ModelRequest)
    ensures
        r@ == asked(req@, trace_id),
{
    ModelRequest {
        trace_id,
        model: match &req.model {
            Some(m) => m.clone(),
            None => "null:compose".to_owned(),
        },
        prompt: render_prompt(req),
        role_system: None,
        params: None,
        budget_tokens: Some(4000),
        timeout_ms: Some(10000),
        cache_ttl_ms: Some(60000),
        cache_key: None,
        stream: false,
        extras: None,
    }
}

/// What is written where no model answers.
pub open spec fn fallback_text(q: AskModel) -> Seq<char> {
    "Hi "@ + q.recipient.name + ",\n\n"@ + "I wanted to follow up about "@ + small_letters(q.topic)
        + ". "@ + (if q.snippets.len() > 0 {
        "Recently, "@ + q.snippets[0].excerpt + ". "@
    } else {
        seq![]
    })
        + "Let me know if you have any questions or if you'd like to chat more.\n\nBest,\nRunloop\n"@
}

pub fn fallback_output(req: &DraftRequest) -> (r: ModelOutput)
    ensures
        r@ == (OutputModel {
            text: fallback_text(req@),
            tokens_in: None,
            tokens_out: None,
            cached: false,
            provider: "fallback"@,
            provider_model: "template"@,
            latency_ms: 0,
            finish_reason: Some("fallback"@),
        }),
{
    let mut body = concat3("Hi ", req.recipient.name.as_str(), ",\n\n");
    body.append("I wanted to follow up about ");
    body.append(to_small_letters(req.topic.as_str()).as_str());
    body.append(". ");
    assert(req@.snippets.len() == req.context.snippets@.len());
    let ghost head = body@;
    if req.context.snippets.len() > 0 {
        assert(req@.snippets[0] == req.context.snippets@[0]@);
        let recent = concat3("Recently, ", req.context.snippets[0].excerpt.as_str(), ". ");
        body.append(recent.as_str());
    } else {
        assert(head + seq![] =~= head);
    }
    body.append(
        "Let me know if you have any questions or if you'd like to chat more.\n\nBest,\nRunloop\n",
    );
    ModelOutput {
        text: body,
        tokens_in: None,
        tokens_out: None,
        cached: false,
        provider: "fallback".to_owned(),
        provider_model: "template".to_owned(),
        latency_ms: 0,
        finish_reason: Some("fallback".to_owned()),
    }
}

/// The body of a draft: what the model wrote, cut down where it is too long.
pub open spec fn body_of(text: Seq<char>, max_words: Option<usize>) -> Seq<char> {
    let limit = match max_words {
        Some(n) => n as nat,
        None => 180,
    };
    if words(trim(text)).len() > limit {
        first_words(trim(text), limit)
    } else {
        trim(text)
    }
}

pub fn draft_body(text: &str, max_words: Option<usize>) -> (r: String)
    ensures
        r@ == body_of(text@, max_words),
{
    let body = trimmed(text);
    let limit: usize = match max_words {
        Some(n) => n,
        None => 180,
    };
    if word_count(body.as_str()) > limit {
        trim_to_words(body.as_str(), limit)
    } else {
        body
    }
}

/// A draft never has more words than asked for, nor more than the usual limit where nothing is
/// asked for.
pub proof fn drafts_keep_to_their_length(text: Seq<char>, max_words: Option<usize>)
    ensures
        words(body_of(text, max_words)).len() <= match max_words {
            Some(n) => n as nat,
            None => 180,
        },
{
    let limit = match max_words {
        Some(n) => n as nat,
        None => 180,
    };
    first_words_are_kept(trim(text), limit);
}

pub fn draft_rationale(req: &DraftRequest) -> (r: String)
    ensures
        r@ == "draft generated for "@ + req.recipient.name@ + " about "@ + req.topic@,
{
    let mut out = concat3("draft generated for ", req.recipient.name.as_str(), " about ");
    out.append(req.topic.as_str());
    out
}

pub open spec fn cited_ids(s: Seq<SnippetModel>) -> Seq<EventId> {
    s.map_values(|x: SnippetModel| EventId(x.event_id))
}

/// The events that a draft rests on, in the order of the snippets.
pub fn draft_citations(req: &DraftRequest) -> (r: Vec<EventId>)
    ensures
        r@ == cited_ids(req@.snippets),
{
    let mut out: Vec<EventId> = Vec::new();
    let mut i: usize = 0;
    while i < req.context.snippets.len()
        invariant
            i <= req.context.snippets.len(),
            out@.len() == i,
            forall|k: int|
                0 <= k < i ==> (#[trigger] out@[k]) == EventId(req.context.snippets@[k].event_id.0),
        decreases req.context.snippets.len() - i,
    {
        out.push(EventId(req.context.snippets[i].event_id.0));
        i += 1;
    }
    assert(out@ =~= cited_ids(req@.snippets));
    out
}

pub open spec fn draft_place(workdir: Seq<char>, value: u128) -> Seq<char> {
    joined_path(
        joined_path(joined_path(workdir, "artifacts"@), "drafts"@),
        "draft-"@ + uuid_text(value) + ".md"@,
    )
}

pub fn draft_path(workdir: &str, value: u128) -> (r: String)
    ensures
        r@ == draft_place(workdir@, value),
{
    let dir = join_path(artifacts_dir(workdir).as_str(), "drafts");
    join_path(dir.as_str(), concat3("draft-", write_uuid(value).as_str(), ".md").as_str())
}

/// A place for a new draft.
pub fn new_draft_path(workdir: &str) -> (r: String)
    ensures
        exists|value: u128|
            is_random_uuid(value) && r@ == #[trigger] draft_place(workdir@, value),
{
    let value = random_uuid();
    draft_path(workdir, value)
}

pub open spec fn id_items(s: Seq<EventId>) -> Seq<JsonModel> {
    s.map_values(|e: EventId| int_model(e.0 as int))
}

/// What is recorded of a draft.
pub open spec fn artifact_record(
    path: Seq<char>,
    body: Seq<char>,
    recipient: Seq<char>,
    citations: Seq<EventId>,
) -> JsonModel {
    JsonModel::Object(
        map_insert(
            map_insert(
                map_insert(
                    map_insert(
                        map_insert(MapModel::empty(), "kind"@, JsonModel::Text("draft_email.md"@)),
                        "path"@,
                        JsonModel::Text(path),
                    ),
                    "sha256"@,
                    JsonModel::Text(sha256_hex(utf8(body))),
                ),
                "summary"@,
                JsonModel::Text("Draft email to "@ + recipient),
            ),
            "citations"@,
            JsonModel::Array(id_items(citations)),
        ),
    )
}

fn body_digest(body: &str) -> (r: String)
    ensures
        r@ == sha256_hex(utf8(body@)),
{
    let mut bytes: Vec<u8> = Vec::new();
    push_text(&mut bytes, body);
    assert(bytes@ =~= utf8(body@));
    sha256_hex_of(&bytes)
}

pub fn id_list(citations: &Vec<EventId>) -> (r: Vec<Json>)
    ensures
        list_model(r@) == id_items(citations@),
{
    let mut ids: Vec<Json> = Vec::new();
    let mut i: usize = 0;
    assert(list_model(ids@) =~= id_items(citations@.take(0)));
    while i < citations.len()
        invariant
            i <= citations.len(),
            ids@.len() == i,
            list_model(ids@) == id_items(citations@.take(i as int)),
        decreases citations.len() - i,
    {
        let ghost o = ids@;
        let n = int_json(citations[i].0);
        ids.push(n);
        assert(ids@.drop_last() =~= o);
        assert(list_model(ids@) =~= list_model(o).push(n@));
        assert(id_items(citations@.take(i + 1)) =~= id_items(citations@.take(i as int)).push(
            int_model(citations@[i as int].0 as int),
        ));
        i += 1;
    }
    assert(citations@.take(citations@.len() as int) =~= citations@);
    ids
}

pub fn artifact_payload(path: &str, body: &str, recipient: &str, citations: &Vec<EventId>) -> (r:
    Json)
    ensures
        r@ == artifact_record(path@, body@, recipient@, citations@),
{
    let ids = id_list(citations);
    let mut m = JsonMap::new();
    m.insert("kind".to_owned(), text_json("draft_email.md"));
    m.insert("path".to_owned(), text_json(path));
    m.insert("sha256".to_owned(), Json::Text(body_digest(body)));
    m.insert("summary".to_owned(), Json::Text(concat("Draft email to ", recipient)));
    m.insert("citations".to_owned(), Json::Array(ids));
    Json::Object(m)
}

/// What is recorded of a draft that has been written to a file.
pub fn draft_event(
    errand: &Errand,
    path: &str,
    body: &str,
    recipient: &str,
    citations: &Vec<EventId>,
    rationale: &str,
) -> (r: StateDelta)
    ensures
        r@ == proposed(
            *errand,
            "artifact.created"@,
            artifact_record(path@, body@, recipient@, citations@),
            Some(rationale@),
        ),
{
    errand.propose_event(
        "artifact.created",
        artifact_payload(path, body, recipient, citations),
        Some(rationale.to_owned()),
    )
}

/// The draft that was recorded as an event.
pub fn draft_artifact(
    artifact_id: EventId,
    path: String,
    body: String,
    rationale: String,
    citations: Vec<EventId>,
) -> (r: DraftArtifact)
    ensures
        r.artifact_id == artifact_id,
        r.path == path,
        r.sha256@ == sha256_hex(utf8(body@)),
        r.body_md == body,
        r.rationale == rationale,
        r.citations == citations,
        r.word_count == words(body@).len(),
{
    let sha256 = body_digest(body.as_str());
    let count = word_count(body.as_str());
    DraftArtifact {
        artifact_id,
        path,
        sha256,
        body_md: body,
        rationale,
        citations,
        word_count: count,
    }
}

} // verus!
