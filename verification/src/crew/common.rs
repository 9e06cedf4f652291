//! What the agents share.

use crate::broker::types::{BrokerError, Fraction, FractionModel};
use crate::ids::{uuid_text, AgentId, EventId, OpeningId, TraceId};
use crate::json::{
    map_insert, text_json, Json, JsonMap, JsonModel, MapModel, Numeral, NumeralModel,
};
use crate::kb::ledger::{kb_text, DeltaModel, KbError, Provenance, ProvenanceModel, StateDelta};
use crate::kb::traces::{opening_text, trace_text};
use crate::paths::{join_path, joined_path};
use crate::text::{concat, opt_text};
use vstd::prelude::*;

verus! {

#[derive(Debug)]
pub enum AgentError {
    KnowledgeBase(KbError),
    Model(BrokerError),
    Io(String),
    Serialization(String),
    ConfirmationUnavailable,
    ConfirmationDeclined,
    InvalidInput(String),
    Other(String),
}

impl AgentError {
    pub open spec fn text(self) -> Seq<char> {
        match self {
            AgentError::KnowledgeBase(e) => "knowledge base error: "@ + kb_text(e@),
            AgentError::Model(e) => "model broker error: "@ + crate::broker::types::fault_text(e@),
            AgentError::Io(m) => "io error: "@ + m@,
            AgentError::Serialization(m) => "serialization error: "@ + m@,
            AgentError::ConfirmationUnavailable => "confirmation provider unavailable"@,
            AgentError::ConfirmationDeclined => "action was declined by the operator"@,
            AgentError::InvalidInput(m) => "invalid input: "@ + m@,
            AgentError::Other(m) => m@,
        }
    }

    pub fn message(&self) -> (r: String)
        ensures
            r@ == self.text(),
    {
        match self {
            AgentError::KnowledgeBase(e) => concat(
                "knowledge base error: ",
                e.message().as_str(),
            ),
            AgentError::Model(e) => concat("model broker error: ", e.message().as_str()),
            AgentError::Io(m) => concat("io error: ", m.as_str()),
            AgentError::Serialization(m) => concat("serialization error: ", m.as_str()),
            AgentError::ConfirmationUnavailable => "confirmation provider unavailable".to_owned(),
            AgentError::ConfirmationDeclined => "action was declined by the operator".to_owned(),
            AgentError::InvalidInput(m) => concat("invalid input: ", m.as_str()),
            AgentError::Other(m) => m.clone(),
        }
    }
}

/// On whose behalf an agent works.
#[derive(Clone, Copy, Debug)]
pub struct Errand {
    pub trace_id: TraceId,
    pub opening_id: OpeningId,
    pub agent_id: AgentId,
}

pub open spec fn agent_text(a: AgentId) -> Seq<char> {
    "agent:"@ + uuid_text(a.0)
}

/// The change that an agent proposes: always in the user's scope.
pub open spec fn proposed(
    e: Errand,
    kind: Seq<char>,
    payload: JsonModel,
    rationale: Option<Seq<char>>,
) -> DeltaModel {
    DeltaModel {
        kind,
        actor: agent_text(e.agent_id),
        scope: Some("user"@),
        payload,
        provenance: ProvenanceModel {
            trace_id: trace_text(e.trace_id),
            opening_id: opening_text(e.opening_id),
            agent_id: agent_text(e.agent_id),
            inputs_hash: None,
            rationale,
        },
    }
}

impl Errand {
    pub fn propose_event(&self, kind: &str, payload: Json, rationale: Option<String>) -> (r:
        StateDelta)
        ensures
            r@ == proposed(*self, kind@, payload@, opt_text(rationale)),
    {
        StateDelta {
            kind: kind.to_owned(),
            actor: self.agent_id.text(),
            scope: Some("user".to_owned()),
            payload,
            provenance: Provenance {
                trace_id: self.trace_id.text(),
                opening_id: self.opening_id.text(),
                agent_id: self.agent_id.text(),
                inputs_hash: None,
                rationale,
            },
        }
    }
}

/// Where artifacts are kept.
pub fn artifacts_dir(workdir: &str) -> (r: String)
    ensures
        r@ == joined_path(workdir@, "artifacts"@),
{
    join_path(workdir, "artifacts")
}

#[derive(Debug)]
pub struct ResolvedContact {
    pub contact_id: String,
    pub name: String,
    pub email: String,
    pub org: Option<String>,
    pub confidence: Fraction,
    pub last_event_id: Option<EventId>,
}

pub ghost struct ContactModel {
    pub contact_id: Seq<char>,
    pub name: Seq<char>,
    pub email: Seq<char>,
    pub org: Option<Seq<char>>,
    pub confidence: FractionModel,
    pub last_event_id: Option<EventId>,
}

impl ResolvedContact {
    pub open spec fn view(self) -> ContactModel {
        ContactModel {
            contact_id: self.contact_id@,
            name: self.name@,
            email: self.email@,
            org: opt_text(self.org),
            confidence: self.confidence@,
            last_event_id: self.last_event_id,
        }
    }
}

#[derive(Debug)]
pub struct ContextSnippet {
    pub title: String,
    pub excerpt: String,
    pub event_id: EventId,
}

pub ghost struct SnippetModel {
    pub title: Seq<char>,
    pub excerpt: Seq<char>,
    pub event_id: i64,
}

impl ContextSnippet {
    pub open spec fn view(self) -> SnippetModel {
        SnippetModel { title: self.title@, excerpt: self.excerpt@, event_id: self.event_id.0 }
    }
}

pub open spec fn snippet_models(s: Seq<ContextSnippet>) -> Seq<SnippetModel> {
    s.map_values(|x: ContextSnippet| x@)
}

#[derive(Debug)]
pub struct ContextBundle {
    pub topic: String,
    pub snippets: Vec<ContextSnippet>,
}

#[derive(Debug)]
pub struct DraftArtifact {
    pub artifact_id: EventId,
    pub path: String,
    pub sha256: String,
    pub body_md: String,
    pub rationale: String,
    pub citations: Vec<EventId>,
    pub word_count: usize,
}

#[derive(Debug)]
pub struct ReviewNotes {
    pub summary: String,
    pub suggestions: Vec<String>,
}

#[derive(Debug)]
pub struct Review {
    pub ok: bool,
    pub notes: ReviewNotes,
}

#[derive(Debug)]
pub struct MailResult {
    pub status: String,
    pub recipients: Vec<String>,
    pub artifact_id: EventId,
    pub message_id: String,
    pub delivered_at_ms: u64,
}

/// What an operator is asked to agree to.
#[derive(Debug)]
pub struct ActionProposal {
    pub id: String,
    pub trace_id: TraceId,
    pub opening_id: OpeningId,
    pub agent: AgentId,
    pub summary: String,
    pub recipients: Vec<String>,
    pub artifact_path: String,
}

#[derive(Debug)]
pub struct ActionDecision {
    pub approved: bool,
    pub rationale: Option<String>,
}

impl ActionDecision {
    pub fn approved(rationale: Option<String>) -> (r: Self)
        ensures
            r.approved,
            r.rationale == rationale,
    {
        ActionDecision { approved: true, rationale }
    }

    pub fn rejected(rationale: Option<String>) -> (r: Self)
        ensures
            !r.approved,
            r.rationale == rationale,
    {
        ActionDecision { approved: false, rationale }
    }
}

/// What is recorded of a contact; an organisation only where there is one.
pub open spec fn contact_record(c: ContactModel, trust: FractionModel) -> JsonModel {
    let base = map_insert(
        map_insert(
            map_insert(
                map_insert(MapModel::empty(), "name"@, JsonModel::Text(c.name)),
                "email"@,
                JsonModel::Text(c.email),
            ),
            "trust"@,
            JsonModel::Number(NumeralModel::Float(trust.wide)),
        ),
        "evidence"@,
        JsonModel::Array(seq![]),
    );
    JsonModel::Object(
        match c.org {
            Some(org) => map_insert(base, "org"@, JsonModel::Text(org)),
            None => base,
        },
    )
}

pub fn contact_payload(contact: &ResolvedContact, trust: &Fraction) -> (r: Json)
    ensures
        r@ == contact_record(contact@, trust@),
{
    let mut m = JsonMap::new();
    m.insert("name".to_owned(), text_json(contact.name.as_str()));
    m.insert("email".to_owned(), text_json(contact.email.as_str()));
    m.insert("trust".to_owned(), Json::Number(Numeral::Float(trust.wide.clone())));
    let none: Vec<Json> = Vec::new();
    assert(crate::json::list_model(none@) =~= seq![]);
    m.insert("evidence".to_owned(), Json::Array(none));
    match &contact.org {
        Some(org) => m.insert("org".to_owned(), text_json(org.as_str())),
        None => {},
    }
    Json::Object(m)
}

} // verus!
