//! What is done for each agent: what it needs, how it is called, and what becomes of its answer.

use crate::agents::{AgentRef, AgentRefModel};
use crate::armor::base64_text;
use crate::crew::common::{ActionDecision, ActionProposal, AgentError, ContextBundle, DraftArtifact, MailResult, ResolvedContact, Review};
use crate::crew::mailer::{DraftData, MailRequest};
use crate::crew::writer::{artifact_payload, artifact_record, DraftRequest};
use crate::digest::{push_text, sha256_hex, sha256_hex_of, utf8};
use crate::ids::{AgentId, EventId, OpeningId, TraceId};
use crate::json::{
    int_json, int_model, map_get, map_insert, text_json, texts_json, texts_model, Json, JsonMap,
    JsonModel, MapModel, Numeral, NumeralModel,
};
use crate::kb::ledger::{kb_text, DeltaModel, KbError, Provenance, ProvenanceModel, StateDelta};
use crate::kb::traces::{opening_text, trace_text};
use crate::local::calls::{after_failure, encode_json_arg, falls_back, fails_with, reference_spec, stringify_input, told_reference, told_value, Step};
use crate::local::trees::{mail_outputs, mail_tree, out_only, single_output};
use crate::openings::records::RunnerError;
use crate::openings::values::{port_push, NodeOutputs, PortsModel};
use crate::text::{
    concat, concat3, copy_opt, copy_texts, is_blank, opt_text, texts, trim,
};
use vstd::prelude::*;

verus! {

pub open spec fn bad_param(key: Seq<char>, node_id: Seq<char>, err: Seq<char>) -> Seq<char> {
    "invalid parameter '"@ + key + "' for node "@ + node_id + ": "@ + err
}

pub fn param_error(key: &str, node_id: &str, err: &str) -> (r: RunnerError)
    ensures
        fails_with(r, bad_param(key@, node_id@, err@)),
{
    let mut text = concat3("invalid parameter '", key, "' for node ");
    text.append(node_id);
    text.append(": ");
    text.append(err);
    RunnerError::Executor(text)
}

pub open spec fn bad_port(port: Seq<char>, err: Seq<char>) -> Seq<char> {
    "failed to decode port '"@ + port + "': "@ + err
}

pub fn port_error(port: &str, err: &str) -> (r: RunnerError)
    ensures
        fails_with(r, bad_port(port@, err@)),
{
    let mut text = concat3("failed to decode port '", port, "': ");
    text.append(err);
    RunnerError::Executor(text)
}

/// A parameter that is a text: what was read, or the usual value where the node gives none.
pub open spec fn text_of(
    read: Result<Option<String>, String>,
    key: Seq<char>,
    node_id: Seq<char>,
    usual: Seq<char>,
) -> Result<Seq<char>, Seq<char>> {
    match read {
        Ok(Some(t)) => Ok(t@),
        Ok(None) => Ok(usual),
        Err(m) => Err(bad_param(key, node_id, m@)),
    }
}

pub fn text_param(read: Result<Option<String>, String>, key: &str, node_id: &str, usual: &str) -> (r:
    Result<String, RunnerError>)
    ensures
        match (r, text_of(read, key@, node_id@, usual@)) {
            (Ok(t), Ok(u)) => t@ == u,
            (Err(e), Err(m)) => fails_with(e, m),
            _ => false,
        },
{
    match read {
        Ok(Some(t)) => Ok(t),
        Ok(None) => Ok(usual.to_owned()),
        Err(m) => Err(param_error(key, node_id, m.as_str())),
    }
}

/// A value at a port that a node cannot do without: what was read, or why there is none.
pub open spec fn lacking<T>(read: Result<Option<T>, String>, port: Seq<char>, missing: Seq<char>) -> Option<
    Seq<char>,
> {
    match read {
        Ok(Some(_)) => None,
        Ok(None) => Some(missing),
        Err(m) => Some(bad_port(port, m@)),
    }
}

pub fn needed<T>(read: Result<Option<T>, String>, port: &str, missing: &str) -> (r: Result<
    T,
    RunnerError,
>)
    ensures
        match (r, lacking(read, port@, missing@)) {
            (Ok(v), None) => read == Ok::<Option<T>, String>(Some(v)),
            (Err(e), Some(m)) => fails_with(e, m),
            _ => false,
        },
{
    match read {
        Ok(Some(v)) => Ok(v),
        Ok(None) => Err(RunnerError::Executor(missing.to_owned())),
        Err(m) => Err(port_error(port, m.as_str())),
    }
}

/// What the contact resolver is asked: `query`, or `recipient_query` where the first is not given.
pub open spec fn asked_contact(
    query: Result<Option<String>, String>,
    other: Result<Option<String>, String>,
    node_id: Seq<char>,
) -> Result<Seq<char>, Seq<char>> {
    let q = match (query, other) {
        (Err(m), _) => Err(bad_param("query"@, node_id, m@)),
        (Ok(Some(t)), _) => Ok(t@),
        (Ok(None), Ok(Some(t))) => Ok(t@),
        (Ok(None), _) => Ok(""@),
    };
    match q {
        Err(m) => Err(m),
        Ok(t) => if trim(t).len() == 0 {
            Err("contact_resolver requires a 'query'"@)
        } else {
            Ok(t)
        },
    }
}

#[derive(Debug)]
pub struct ContactPlan {
    pub query: String,
    pub args: Vec<String>,
}

pub fn plan_contact(
    reference: &AgentRef,
    query: Result<Option<String>, String>,
    other: Result<Option<String>, String>,
    node_id: &str,
) -> (r: Result<ContactPlan, RunnerError>)
    ensures
        match (r, asked_contact(query, other, node_id@)) {
            (Ok(p), Ok(q)) => p.query@ == q && texts(p.args@) == seq![
                told_reference(reference@),
                "--query"@,
                q,
            ],
            (Err(e), Err(m)) => fails_with(e, m),
            _ => false,
        },
{
    let q = match query {
        Err(m) => {
            return Err(param_error("query", node_id, m.as_str()));
        },
        Ok(Some(t)) => t,
        Ok(None) => match other {
            Ok(Some(t)) => t,
            _ => "".to_owned(),
        },
    };
    if is_blank(q.as_str()) {
        return Err(RunnerError::Executor("contact_resolver requires a 'query'".to_owned()));
    }
    let mut args: Vec<String> = Vec::new();
    args.push(reference_spec(reference));
    args.push("--query".to_owned());
    args.push(q.clone());
    assert(texts(args@) =~= seq![told_reference(reference@), "--query"@, q@]);
    Ok(ContactPlan { query: q, args })
}

/// What the context gatherer is told.
pub open spec fn context_args(r: AgentRefModel, topic: Seq<char>, contact: Option<Seq<u8>>) -> Seq<
    Seq<char>,
> {
    let base = seq![told_reference(r), "--topic"@, topic];
    match contact {
        Some(bytes) => base.push("--contact-base64"@).push(base64_text(bytes)),
        None => base,
    }
}

#[derive(Debug)]
pub struct ContextPlan {
    pub topic: String,
    pub args: Vec<String>,
}

/// `contact` holds the bytes of the contact as JSON, if one waits at the port.
pub fn plan_context(
    reference: &AgentRef,
    topic: Result<Option<String>, String>,
    contact: Result<Option<Vec<u8>>, String>,
    node_id: &str,
) -> (r: Result<ContextPlan, RunnerError>)
    ensures
        match (r, text_of(topic, "topic"@, node_id@, "general update"@), contact) {
            (Ok(p), Ok(t), Ok(c)) => p.topic@ == t && texts(p.args@) == context_args(
                reference@,
                t,
                match c {
                    Some(b) => Some(b@),
                    None => None,
                },
            ),
            (Err(e), Err(m), _) => fails_with(e, m),
            (Err(e), Ok(_), Err(m)) => fails_with(e, bad_port("contact"@, m@)),
            _ => false,
        },
{
    let t = match text_param(topic, "topic", node_id, "general update") {
        Ok(t) => t,
        Err(e) => {
            return Err(e);
        },
    };
    let c = match contact {
        Ok(c) => c,
        Err(m) => {
            return Err(port_error("contact", m.as_str()));
        },
    };
    let mut args: Vec<String> = Vec::new();
    args.push(reference_spec(reference));
    args.push("--topic".to_owned());
    args.push(t.clone());
    assert(texts(args@) =~= context_args(reference@, t@, None));
    match &c {
        Some(bytes) => {
            args.push("--contact-base64".to_owned());
            args.push(encode_json_arg(bytes));
            assert(texts(args@) =~= context_args(reference@, t@, Some(bytes@)));
        },
        None => {},
    }
    Ok(ContextPlan { topic: t, args })
}

/// What the writer needs, read from the node.
#[derive(Debug)]
pub struct WriterReads {
    pub recipient: Result<Option<(ResolvedContact, Vec<u8>)>, String>,
    pub context: Result<Option<(ContextBundle, Vec<u8>)>, String>,
    pub topic: Result<Option<String>, String>,
    pub tone: Result<Option<String>, String>,
    pub model: Result<Option<String>, String>,
}

/// Why the writer cannot begin.
pub open spec fn writer_fault(w: WriterReads, node_id: Seq<char>) -> Option<Seq<char>> {
    match lacking(w.recipient, "recipients"@, "writer missing recipients input"@) {
        Some(m) => Some(m),
        None => match lacking(w.context, "context"@, "writer missing context input"@) {
            Some(m) => Some(m),
            None => match (w.topic, w.tone, w.model) {
                (Err(m), _, _) => Some(bad_param("topic"@, node_id, m@)),
                (Ok(_), Err(m), _) => Some(bad_param("tone"@, node_id, m@)),
                (Ok(_), Ok(_), Err(m)) => Some(bad_param("model"@, node_id, m@)),
                _ => None,
            },
        },
    }
}

pub open spec fn or_usual(t: Option<String>, usual: Seq<char>) -> Seq<char> {
    match t {
        Some(s) => s@,
        None => usual,
    }
}

pub open spec fn writer_args(
    r: AgentRefModel,
    recipient: Seq<u8>,
    topic: Seq<char>,
    tone: Seq<char>,
    context: Seq<u8>,
) -> Seq<Seq<char>> {
    seq![
        told_reference(r),
        "--recipient-base64"@,
        base64_text(recipient),
        "--topic"@,
        topic,
        "--tone"@,
        tone,
        "--context-base64"@,
        base64_text(context),
    ]
}

#[derive(Debug)]
pub struct WriterPlan {
    pub request: DraftRequest,
    pub args: Vec<String>,
}

/// What the writer is told, and what the built-in writer is asked.
pub fn plan_writer(reference: &AgentRef, reads: WriterReads, node_id: &str, default_model: &str) -> (r:
    Result<WriterPlan, RunnerError>)
    ensures
        match (r, writer_fault(reads, node_id@)) {
            (Ok(p), None) => {
                let q = p.request;
                &&& q.recipient == (reads.recipient->Ok_0->0).0
                &&& q.context == (reads.context->Ok_0->0).0
                &&& q.topic@ == or_usual(reads.topic->Ok_0, "update"@)
                &&& opt_text(q.tone) == Some(or_usual(reads.tone->Ok_0, "neutral-friendly"@))
                &&& q.length_hint is None
                &&& opt_text(q.model) == Some(or_usual(reads.model->Ok_0, default_model@))
                &&& q.max_words == Some(180usize)
                &&& texts(p.args@) == writer_args(
                    reference@,
                    (reads.recipient->Ok_0->0).1@,
                    q.topic@,
                    or_usual(reads.tone->Ok_0, "neutral-friendly"@),
                    (reads.context->Ok_0->0).1@,
                )
            },
            (Err(e), Some(m)) => fails_with(e, m),
            _ => false,
        },
{
    let (recipient, recipient_json) = match needed(
        reads.recipient,
        "recipients",
        "writer missing recipients input",
    ) {
        Ok(x) => x,
        Err(e) => {
            return Err(e);
        },
    };
    let (context, context_json) = match needed(
        reads.context,
        "context",
        "writer missing context input",
    ) {
        Ok(x) => x,
        Err(e) => {
            return Err(e);
        },
    };
    let topic = match text_param(reads.topic, "topic", node_id, "update") {
        Ok(t) => t,
        Err(e) => {
            return Err(e);
        },
    };
    let tone = match text_param(reads.tone, "tone", node_id, "neutral-friendly") {
        Ok(t) => t,
        Err(e) => {
            return Err(e);
        },
    };
    let model = match text_param(reads.model, "model", node_id, default_model) {
        Ok(t) => t,
        Err(e) => {
            return Err(e);
        },
    };
    let mut args: Vec<String> = Vec::new();
    args.push(reference_spec(reference));
    args.push("--recipient-base64".to_owned());
    args.push(encode_json_arg(&recipient_json));
    args.push("--topic".to_owned());
    args.push(topic.clone());
    args.push("--tone".to_owned());
    args.push(tone.clone());
    args.push("--context-base64".to_owned());
    args.push(encode_json_arg(&context_json));
    assert(texts(args@) =~= writer_args(
        reference@,
        recipient_json@,
        topic@,
        tone@,
        context_json@,
    ));
    Ok(
        WriterPlan {
            request: DraftRequest {
                recipient,
                topic,
                context,
                tone: Some(tone),
                length_hint: None,
                model: Some(model),
                max_words: Some(180),
            },
            args,
        },
    )
}

/// What the writer's program answered.
#[derive(Debug)]
pub struct WriterAgentOutput {
    pub body_md: String,
    pub rationale: String,
    pub citations: Vec<i64>,
    pub word_count: usize,
}

pub open spec fn node_actor(node_id: Seq<char>) -> Seq<char> {
    "agent:"@ + node_id
}

/// What a node of a run records, in the user's scope.
pub open spec fn node_delta(
    kind: Seq<char>,
    node_id: Seq<char>,
    payload: JsonModel,
    t: TraceId,
    o: OpeningId,
    rationale: Option<Seq<char>>,
) -> DeltaModel {
    DeltaModel {
        kind,
        actor: node_actor(node_id),
        scope: Some("user"@),
        payload,
        provenance: ProvenanceModel {
            trace_id: trace_text(t),
            opening_id: opening_text(o),
            agent_id: node_actor(node_id),
            inputs_hash: None,
            rationale,
        },
    }
}

fn node_event(
    kind: &str,
    node_id: &str,
    payload: Json,
    trace_id: &TraceId,
    opening_id: &OpeningId,
    rationale: Option<String>,
) -> (r: StateDelta)
    ensures
        r@ == node_delta(kind@, node_id@, payload@, *trace_id, *opening_id, opt_text(rationale)),
{
    StateDelta {
        kind: kind.to_owned(),
        actor: concat("agent:", node_id),
        scope: Some("user".to_owned()),
        payload,
        provenance: Provenance {
            trace_id: trace_id.text(),
            opening_id: opening_id.text(),
            agent_id: concat("agent:", node_id),
            inputs_hash: None,
            rationale,
        },
    }
}

pub open spec fn event_ids(s: Seq<i64>) -> Seq<EventId> {
    s.map_values(|n: i64| EventId(n))
}

fn ids_of(v: &Vec<i64>) -> (r: Vec<EventId>)
    ensures
        r@ == event_ids(v@),
{
    let mut out: Vec<EventId> = Vec::new();
    let mut i: usize = 0;
    while i < v.len()
        invariant
            i <= v.len(),
            out@.len() == i,
            forall|k: int| 0 <= k < i ==> (#[trigger] out@[k]) == EventId(v@[k]),
        decreases v.len() - i,
    {
        out.push(EventId(v[i]));
        i += 1;
    }
    assert(out@ =~= event_ids(v@));
    out
}

/// What is recorded of a draft that the writer's program wrote and that stands at `path`.
pub fn draft_event(
    node_id: &str,
    trace_id: &TraceId,
    opening_id: &OpeningId,
    recipient: &ResolvedContact,
    output: &WriterAgentOutput,
    path: &str,
) -> (r: StateDelta)
    ensures
        r@ == node_delta(
            "artifact.created"@,
            node_id@,
            artifact_record(path@, output.body_md@, recipient.name@, event_ids(output.citations@)),
            *trace_id,
            *opening_id,
            Some(output.rationale@),
        ),
{
    let ids = ids_of(&output.citations);
    let payload = artifact_payload(
        path,
        output.body_md.as_str(),
        recipient.name.as_str(),
        &ids,
    );
    node_event(
        "artifact.created",
        node_id,
        payload,
        trace_id,
        opening_id,
        Some(output.rationale.clone()),
    )
}

/// The draft that was recorded; it has the number of words that the program says.
pub fn persisted_draft(artifact_id: EventId, path: String, output: WriterAgentOutput) -> (r:
    DraftArtifact)
    ensures
        r.artifact_id == artifact_id,
        r.path == path,
        r.sha256@ == sha256_hex(utf8(output.body_md@)),
        r.body_md == output.body_md,
        r.rationale == output.rationale,
        r.citations@ == event_ids(output.citations@),
        r.word_count == output.word_count,
{
    let mut bytes: Vec<u8> = Vec::new();
    push_text(&mut bytes, output.body_md.as_str());
    assert(bytes@ =~= utf8(output.body_md@));
    let sha256 = sha256_hex_of(&bytes);
    let citations = ids_of(&output.citations);
    DraftArtifact {
        artifact_id,
        path,
        sha256,
        body_md: output.body_md,
        rationale: output.rationale,
        citations,
        word_count: output.word_count,
    }
}

/// What the critic is told of the draft that waits at its port.
pub fn plan_critic(reference: &AgentRef, draft_json: &Vec<u8>) -> (r: Vec<String>)
    ensures
        texts(r@) == seq![
            told_reference(reference@),
            "--draft-base64"@,
            base64_text(draft_json@),
        ],
{
    let mut args: Vec<String> = Vec::new();
    args.push(reference_spec(reference));
    args.push("--draft-base64".to_owned());
    args.push(encode_json_arg(draft_json));
    assert(texts(args@) =~= seq![
        told_reference(reference@),
        "--draft-base64"@,
        base64_text(draft_json@),
    ]);
    args
}

/// What the mailer needs, read from the node. Each value comes with its bytes as JSON.
#[derive(Debug)]
pub struct MailerReads {
    pub draft: Result<Option<(DraftArtifact, Vec<u8>)>, String>,
    pub contact: Result<Option<(ResolvedContact, Vec<u8>)>, String>,
    pub review: Result<Option<(Review, Vec<u8>)>, String>,
    pub topic: Result<Option<String>, String>,
}

/// Why the mailer cannot begin.
pub open spec fn mailer_fault(w: MailerReads, node_id: Seq<char>) -> Option<Seq<char>> {
    match lacking(w.draft, "draft"@, "mailer missing draft input"@) {
        Some(m) => Some(m),
        None => match lacking(w.contact, "contact"@, "mailer missing contact input"@) {
            Some(m) => Some(m),
            None => match lacking(w.review, "review"@, "mailer missing review input"@) {
                Some(m) => Some(m),
                None => match w.topic {
                    Err(m) => Some(bad_param("topic"@, node_id, m@)),
                    Ok(_) => None,
                },
            },
        },
    }
}

/// The work of the mailer: what is sent to whom, and what the operator has decided.
#[derive(Debug)]
pub struct MailerJob {
    pub draft: DraftArtifact,
    pub contact: ResolvedContact,
    pub review: Review,
    pub topic: String,
    pub draft_json: Vec<u8>,
    pub contact_json: Vec<u8>,
    pub review_json: Vec<u8>,
    pub decision: Option<ActionDecision>,
}

pub open spec fn mailer_args(r: AgentRefModel, j: MailerJob) -> Seq<Seq<char>> {
    seq![
        told_reference(r),
        "--draft-base64"@,
        base64_text(j.draft_json@),
        "--contact-base64"@,
        base64_text(j.contact_json@),
        "--review-base64"@,
        base64_text(j.review_json@),
        "--topic"@,
        j.topic@,
    ]
}

/// Whether the operator has said no.
pub open spec fn declined(d: Option<ActionDecision>) -> bool {
    match d {
        Some(x) => !x.approved,
        None => false,
    }
}

/// What the mailer's program answered.
#[derive(Debug)]
pub struct MailerAgentOutput {
    pub status: String,
    pub recipients: Vec<String>,
    pub message_id: String,
    pub delivered_at_ms: u64,
}

/// What is recorded of a mail.
pub open spec fn mail_event(to: Seq<Seq<char>>, topic: Seq<char>, artifact_id: i64) -> JsonModel {
    JsonModel::Object(
        map_insert(
            map_insert(
                map_insert(MapModel::empty(), "to"@, texts_model(to)),
                "subject"@,
                JsonModel::Text(topic),
            ),
            "artifact_id"@,
            int_model(artifact_id as int),
        ),
    )
}

/// What follows once a program has been called or not.
#[derive(Debug)]
pub enum MailStep {
    /// Ask the ledger to keep this, and then give this answer.
    Record(StateDelta, MailResult),
    /// Send it in the way that is built in, under the decision that was taken.
    Native,
}

pub open spec fn decision_reason(d: Option<ActionDecision>) -> Option<Seq<char>> {
    match d {
        Some(x) => opt_text(x.rationale),
        None => None,
    }
}

impl MailerJob {
    pub fn begin(reads: MailerReads, node_id: &str) -> (r: Result<MailerJob, RunnerError>)
        ensures
            match (r, mailer_fault(reads, node_id@)) {
                (Ok(j), None) => {
                    &&& (j.draft, j.draft_json) == reads.draft->Ok_0->0
                    &&& (j.contact, j.contact_json) == reads.contact->Ok_0->0
                    &&& (j.review, j.review_json) == reads.review->Ok_0->0
                    &&& j.topic@ == or_usual(reads.topic->Ok_0, "update"@)
                    &&& j.decision is None
                },
                (Err(e), Some(m)) => fails_with(e, m),
                _ => false,
            },
    {
        let (draft, draft_json) = match needed(reads.draft, "draft", "mailer missing draft input") {
            Ok(x) => x,
            Err(e) => {
                return Err(e);
            },
        };
        let (contact, contact_json) = match needed(
            reads.contact,
            "contact",
            "mailer missing contact input",
        ) {
            Ok(x) => x,
            Err(e) => {
                return Err(e);
            },
        };
        let (review, review_json) = match needed(
            reads.review,
            "review",
            "mailer missing review input",
        ) {
            Ok(x) => x,
            Err(e) => {
                return Err(e);
            },
        };
        let topic = match text_param(reads.topic, "topic", node_id, "update") {
            Ok(t) => t,
            Err(e) => {
                return Err(e);
            },
        };
        Ok(
            MailerJob {
                draft,
                contact,
                review,
                topic,
                draft_json,
                contact_json,
                review_json,
                decision: None,
            },
        )
    }

    /// What the operator is asked, where such actions need to be confirmed.
    pub fn proposal(
        &self,
        confirm: bool,
        node_id: &str,
        trace_id: TraceId,
        opening_id: OpeningId,
        agent: AgentId,
    ) -> (r: Option<ActionProposal>)
        ensures
            match r {
                Some(p) => {
                    &&& confirm
                    &&& p.id@ == "node:"@ + node_id@
                    &&& p.trace_id == trace_id
                    &&& p.opening_id == opening_id
                    &&& p.agent == agent
                    &&& p.summary@ == "Send draft email \""@ + self.draft.rationale@ + "\""@
                    &&& texts(p.recipients@) == seq![self.contact.email@]
                    &&& p.artifact_path@ == self.draft.path@
                },
                None => !confirm,
            },
    {
        if !confirm {
            return None;
        }
        let mut recipients: Vec<String> = Vec::new();
        recipients.push(self.contact.email.clone());
        assert(texts(recipients@) =~= seq![self.contact.email@]);
        Some(
            ActionProposal {
                id: concat("node:", node_id),
                trace_id,
                opening_id,
                agent,
                summary: concat3("Send draft email \"", self.draft.rationale.as_str(), "\""),
                recipients,
                artifact_path: self.draft.path.clone(),
            },
        )
    }

    /// Notes what the operator decided; a failure to ask ends the work.
    pub fn decided(&mut self, answer: Result<ActionDecision, AgentError>) -> (r: Result<
        (),
        RunnerError,
    >)
        ensures
            match (r, answer) {
                (Ok(_), Ok(d)) => *final(self) == (MailerJob { decision: Some(d), ..*old(self) }),
                (Err(e), Err(a)) => fails_with(e, a.text()) && *final(self) == *old(self),
                _ => false,
            },
    {
        match answer {
            Ok(d) => {
                self.decision = Some(d);
                Ok(())
            },
            Err(a) => Err(RunnerError::Executor(a.message())),
        }
    }

    /// The decision under which the mail is sent in the way that is built in: the one that was taken,
    /// or approval where such actions need not be confirmed. Where there is none, the operator is
    /// asked.
    pub fn native_decision(&mut self, confirm: bool) -> (r: Option<ActionDecision>)
        ensures
            *final(self) == (MailerJob { decision: None, ..*old(self) }),
            match old(self).decision {
                Some(d) => r == Some(d),
                None => if confirm {
                    r is None
                } else {
                    r matches Some(d) && d.approved && d.rationale is None
                },
            },
    {
        match self.decision.take() {
            Some(d) => Some(d),
            None => if confirm {
                None
            } else {
                Some(ActionDecision::approved(None))
            },
        }
    }

    /// The call of the mailer's program, where it can be run; none is made against the operator.
    pub fn call(&self, reference: &AgentRef, runs: bool) -> (r: Result<Step, RunnerError>)
        ensures
            match r {
                Ok(Step::Invoke(args)) => runs && !declined(self.decision) && texts(args@)
                    == mailer_args(reference@, *self),
                Ok(Step::Native) => !runs,
                Err(e) => runs && declined(self.decision) && fails_with(
                    e,
                    "send cancelled by operator"@,
                ),
            },
    {
        if !runs {
            return Ok(Step::Native);
        }
        match &self.decision {
            Some(d) => {
                if !d.approved {
                    return Err(RunnerError::Executor("send cancelled by operator".to_owned()));
                }
            },
            None => {},
        }
        let mut args: Vec<String> = Vec::new();
        args.push(reference_spec(reference));
        args.push("--draft-base64".to_owned());
        args.push(encode_json_arg(&self.draft_json));
        args.push("--contact-base64".to_owned());
        args.push(encode_json_arg(&self.contact_json));
        args.push("--review-base64".to_owned());
        args.push(encode_json_arg(&self.review_json));
        args.push("--topic".to_owned());
        args.push(self.topic.clone());
        assert(texts(args@) =~= mailer_args(reference@, *self));
        Ok(Step::Invoke(args))
    }

    /// What follows from the program's answer.
    pub fn called(
        &self,
        answer: Result<MailerAgentOutput, RunnerError>,
        node_id: &str,
        trace_id: &TraceId,
        opening_id: &OpeningId,
    ) -> (r: Result<MailStep, RunnerError>)
        ensures
            match (r, answer) {
                (Ok(MailStep::Record(d, m)), Ok(a)) => {
                    &&& d@ == node_delta(
                        "email.sent"@,
                        node_id@,
                        mail_event(
                            texts(a.recipients@),
                            self.topic@,
                            self.draft.artifact_id.0,
                        ),
                        *trace_id,
                        *opening_id,
                        decision_reason(self.decision),
                    )
                    &&& m.status == a.status
                    &&& texts(m.recipients@) == texts(a.recipients@)
                    &&& m.artifact_id == self.draft.artifact_id
                    &&& m.message_id == a.message_id
                    &&& m.delivered_at_ms == a.delivered_at_ms
                },
                (Ok(MailStep::Native), Err(e)) => falls_back(e),
                (Err(f), Err(e)) => f == e && !falls_back(e),
                _ => false,
            },
    {
        match answer {
            Err(e) => match after_failure(e) {
                Ok(_) => Ok(MailStep::Native),
                Err(f) => Err(f),
            },
            Ok(a) => {
                let mut m = JsonMap::new();
                m.insert("to".to_owned(), texts_json(&a.recipients));
                m.insert("subject".to_owned(), text_json(self.topic.as_str()));
                m.insert("artifact_id".to_owned(), int_json(self.draft.artifact_id.0));
                let rationale = match &self.decision {
                    Some(d) => copy_opt(&d.rationale),
                    None => None,
                };
                let delta = node_event(
                    "email.sent",
                    node_id,
                    Json::Object(m),
                    trace_id,
                    opening_id,
                    rationale,
                );
                Ok(
                    MailStep::Record(
                        delta,
                        MailResult {
                            status: a.status,
                            recipients: copy_texts(&a.recipients),
                            artifact_id: self.draft.artifact_id,
                            message_id: a.message_id,
                            delivered_at_ms: a.delivered_at_ms,
                        },
                    ),
                )
            },
        }
    }

    /// What the built-in mailer is asked.
    pub fn native_request(self) -> (r: MailRequest)
        ensures
            r.draft.artifact_id == self.draft.artifact_id,
            r.draft.path == self.draft.path,
            r.draft.body_preview == self.draft.body_md,
            r.contact == self.contact,
            r.review == self.review,
            r.topic == self.topic,
    {
        MailRequest {
            draft: DraftData {
                artifact_id: self.draft.artifact_id,
                path: self.draft.path,
                body_preview: self.draft.body_md,
            },
            contact: self.contact,
            review: self.review,
            topic: self.topic,
        }
    }
}

/// What the ledger's answer makes of a mail that was sent.
pub fn mail_recorded(kept: Result<(), KbError>, result: &MailResult) -> (r: Result<
    NodeOutputs,
    RunnerError,
>)
    ensures
        match (r, kept) {
            (Ok(o), Ok(_)) => o@ == port_push(
                port_push(PortsModel::empty(), "ok"@, JsonModel::Bool(true)),
                "out"@,
                mail_tree(*result),
            ),
            (Err(e), Err(k)) => fails_with(e, kb_text(k@)),
            _ => false,
        },
{
    match kept {
        Ok(_) => Ok(mail_outputs(result)),
        Err(k) => Err(RunnerError::Executor(k.message())),
    }
}

/// What the program that tunes the system is told.
pub fn plan_system_tra(reference: &AgentRef, with: &JsonMap, runs: bool) -> (r: Result<
    Vec<String>,
    RunnerError,
>)
    ensures
        match (r, map_get(with@, "input"@)) {
            (Ok(args), Some(j)) => runs && texts(args@) == seq![
                told_reference(reference@),
                "--input"@,
                told_value(j),
            ],
            (Err(e), Some(_)) => !runs && fails_with(e, "system_tra missing wasm entry"@),
            (Err(e), None) => fails_with(e, "system_tra requires an 'input'"@),
            (Ok(_), None) => false,
        },
{
    let input = match with.get("input") {
        Some(j) => stringify_input(j),
        None => {
            return Err(RunnerError::Executor("system_tra requires an 'input'".to_owned()));
        },
    };
    if !runs {
        return Err(RunnerError::Executor("system_tra missing wasm entry".to_owned()));
    }
    let mut args: Vec<String> = Vec::new();
    args.push(reference_spec(reference));
    args.push("--input".to_owned());
    args.push(input);
    assert(texts(args@) =~= seq![told_reference(reference@), "--input"@, input@]);
    Ok(args)
}

/// The values of an answer that have a port, in the order of the ports.
pub open spec fn picked(m: MapModel, ports: Seq<Seq<char>>) -> PortsModel
    decreases ports.len(),
{
    if ports.len() == 0 {
        PortsModel::empty()
    } else {
        match map_get(m, ports.last()) {
            Some(j) => port_push(picked(m, ports.drop_last()), ports.last(), j),
            None => picked(m, ports.drop_last()),
        }
    }
}

/// What a node gives of an agent's answer: its values at their ports, or all of it at one.
pub open spec fn generic_ports(answer: JsonModel, ports: Seq<Seq<char>>) -> PortsModel {
    let found = match answer {
        JsonModel::Object(m) => picked(m, ports),
        _ => PortsModel::empty(),
    };
    if found.len() == 0 {
        out_only(answer)
    } else {
        found
    }
}

pub fn generic_outputs(answer: Json, ports: &Vec<String>) -> (r: NodeOutputs)
    ensures
        r@ == generic_ports(answer@, texts(ports@)),
{
    let mut out = NodeOutputs::new();
    match &answer {
        Json::Object(m) => {
            let ghost all = texts(ports@);
            let mut i: usize = 0;
            assert(all.take(0) =~= seq![]);
            while i < ports.len()
                invariant
                    i <= ports.len(),
                    all == texts(ports@),
                    out@ == picked(m@, all.take(i as int)),
                decreases ports.len() - i,
            {
                assert(all.take(i + 1).drop_last() =~= all.take(i as int));
                assert(all.take(i + 1).last() == ports@[i as int]@);
                match m.get(ports[i].as_str()) {
                    Some(j) => out.push(ports[i].as_str(), j.clone()),
                    None => {},
                }
                i += 1;
            }
            assert(all.take(all.len() as int) =~= all);
        },
        _ => {},
    }
    if out.ports.is_empty() {
        single_output(answer)
    } else {
        out
    }
}

/// What the ledger is asked before the first contact is put in.
pub fn seed_query() -> (r: &'static str)
    ensures
        r@ == "SELECT contact_key FROM contacts WHERE email = 'john@acme.com' LIMIT 1"@,
{
    "SELECT contact_key FROM contacts WHERE email = 'john@acme.com' LIMIT 1"
}

pub open spec fn seed_model() -> DeltaModel {
    DeltaModel {
        kind: "contact.upserted"@,
        actor: "agent:seed"@,
        scope: Some("system"@),
        payload: JsonModel::Object(
            map_insert(
                map_insert(
                    map_insert(
                        map_insert(
                            map_insert(
                                MapModel::empty(),
                                "name"@,
                                JsonModel::Text("John Smith"@),
                            ),
                            "email"@,
                            JsonModel::Text("john@acme.com"@),
                        ),
                        "org"@,
                        JsonModel::Text("Acme"@),
                    ),
                    "trust"@,
                    JsonModel::Number(NumeralModel::Float("0.9"@)),
                ),
                "evidence"@,
                JsonModel::Array(seq![]),
            ),
        ),
        provenance: ProvenanceModel {
            trace_id: "trace:seed"@,
            opening_id: "opening:seed"@,
            agent_id: "agent:seed-contact"@,
            inputs_hash: None,
            rationale: Some("seed contact for compose_email"@),
        },
    }
}

/// The first contact, where it is not there yet.
pub fn seed_contact(found: usize) -> (r: Option<StateDelta>)
    ensures
        match r {
            Some(d) => found == 0 && d@ == seed_model(),
            None => found > 0,
        },
{
    if found > 0 {
        return None;
    }
    let mut m = JsonMap::new();
    m.insert("name".to_owned(), text_json("John Smith"));
    m.insert("email".to_owned(), text_json("john@acme.com"));
    m.insert("org".to_owned(), text_json("Acme"));
    m.insert("trust".to_owned(), Json::Number(Numeral::Float("0.9".to_owned())));
    let none: Vec<Json> = Vec::new();
    assert(crate::json::list_model(none@) =~= seq![]);
    m.insert("evidence".to_owned(), Json::Array(none));
    Some(
        StateDelta {
            kind: "contact.upserted".to_owned(),
            actor: "agent:seed".to_owned(),
            scope: Some("system".to_owned()),
            payload: Json::Object(m),
            provenance: Provenance {
                trace_id: "trace:seed".to_owned(),
                opening_id: "opening:seed".to_owned(),
                agent_id: "agent:seed-contact".to_owned(),
                inputs_hash: None,
                rationale: Some("seed contact for compose_email".to_owned()),
            },
        },
    )
}

} // verus!
