//! Sends a draft, once it has been looked at and agreed to.

use crate::crew::common::{
    proposed, ActionDecision, ActionProposal, AgentError, Errand, MailResult, ResolvedContact, Review,
};
use crate::ids::EventId;
use crate::json::{
    int_json, int_model, list_model, map_insert, text_json, Json, JsonMap, JsonModel, MapModel,
};
use crate::kb::ledger::StateDelta;
use crate::text::{concat, concat3, opt_text, signed_decimal, signed_text, texts};
use vstd::prelude::*;

verus! {

#[derive(Debug)]
pub struct DraftData {
    pub artifact_id: EventId,
    pub path: String,
    pub body_preview: String,
}

#[derive(Debug)]
pub struct MailRequest {
    pub draft: DraftData,
    pub contact: ResolvedContact,
    pub review: Review,
    pub topic: String,
}

/// Why a mail cannot be proposed: the critic has not agreed, or there is no one to ask.
pub open spec fn cannot_propose(reviewed: bool, askable: bool) -> Option<Seq<char>> {
    if !reviewed {
        Some("invalid input: "@ + "draft not approved by critic"@)
    } else if !askable {
        Some("confirmation provider unavailable"@)
    } else {
        None
    }
}

/// What is put to the operator before anything is sent.
pub fn propose_mail(req: &MailRequest, errand: &Errand, askable: bool) -> (r: Result<
    ActionProposal,
    AgentError,
>)
    ensures
        match (r, cannot_propose(req.review.ok, askable)) {
            (Ok(p), None) => {
                &&& p.id@ == "mail:"@ + signed_decimal(req.draft.artifact_id.0 as int)
                &&& p.trace_id == errand.trace_id
                &&& p.opening_id == errand.opening_id
                &&& p.agent == errand.agent_id
                &&& p.summary@ == "Send draft '"@ + req.topic@ + "' to "@ + req.contact.email@
                &&& texts(p.recipients@) == seq![req.contact.email@]
                &&& p.artifact_path@ == req.draft.path@
            },
            (Err(e), Some(t)) => e.text() == t,
            _ => false,
        },
        r is Err ==> (if req.review.ok {
            r->Err_0 is ConfirmationUnavailable
        } else {
            r->Err_0 is InvalidInput
        }),
{
    if !req.review.ok {
        return Err(AgentError::InvalidInput("draft not approved by critic".to_owned()));
    }
    if !askable {
        return Err(AgentError::ConfirmationUnavailable);
    }
    let mut summary = concat3("Send draft '", req.topic.as_str(), "' to ");
    summary.append(req.contact.email.as_str());
    let mut recipients: Vec<String> = Vec::new();
    recipients.push(req.contact.email.clone());
    assert(texts(recipients@) =~= seq![req.contact.email@]);
    Ok(
        ActionProposal {
            id: concat("mail:", signed_text(req.draft.artifact_id.0).as_str()),
            trace_id: errand.trace_id,
            opening_id: errand.opening_id,
            agent: errand.agent_id,
            summary,
            recipients,
            artifact_path: req.draft.path.clone(),
        },
    )
}

/// What is recorded of a mail.
pub open spec fn mail_record(email: Seq<char>, topic: Seq<char>, artifact_id: i64) -> JsonModel {
    JsonModel::Object(
        map_insert(
            map_insert(
                map_insert(
                    MapModel::empty(),
                    "to"@,
                    JsonModel::Array(seq![JsonModel::Text(email)]),
                ),
                "subject"@,
                JsonModel::Text(topic),
            ),
            "artifact_id"@,
            int_model(artifact_id as int),
        ),
    )
}

pub fn mail_payload(email: &str, topic: &str, artifact_id: i64) -> (r: Json)
    ensures
        r@ == mail_record(email@, topic@, artifact_id),
{
    let mut to: Vec<Json> = Vec::new();
    let one = text_json(email);
    to.push(one);
    assert(to@.drop_last() =~= seq![]);
    assert(list_model(to@) =~= seq![JsonModel::Text(email@)]);
    let mut m = JsonMap::new();
    m.insert("to".to_owned(), Json::Array(to));
    m.insert("subject".to_owned(), text_json(topic));
    m.insert("artifact_id".to_owned(), int_json(artifact_id));
    Json::Object(m)
}

/// A mail that was agreed to: the lines that are shown in place of sending it, what is recorded,
/// and what is answered.
#[derive(Debug)]
pub struct SentMail {
    pub lines: Vec<String>,
    pub event: StateDelta,
    pub result: MailResult,
}

pub open spec fn mail_lines(email: Seq<char>, topic: Seq<char>, preview: Seq<char>) -> Seq<
    Seq<char>,
> {
    seq![
        "--- Dry-run mailer output ---"@,
        "To: "@ + email,
        "Subject: "@ + topic,
        preview,
        "-----------------------------"@,
    ]
}

/// What follows from the operator's decision.
pub fn send(req: &MailRequest, errand: &Errand, decision: &ActionDecision) -> (r: Result<
    SentMail,
    AgentError,
>)
    ensures
        match r {
            Ok(s) => {
                &&& decision.approved
                &&& texts(s.lines@) == mail_lines(
                    req.contact.email@,
                    req.topic@,
                    req.draft.body_preview@,
                )
                &&& s.event@ == proposed(
                    *errand,
                    "email.sent"@,
                    mail_record(req.contact.email@, req.topic@, req.draft.artifact_id.0),
                    match opt_text(decision.rationale) {
                        Some(t) => Some(t),
                        None => Some("mailer dry-run"@),
                    },
                )
                &&& s.result.status@ == "dry-run"@
                &&& texts(s.result.recipients@) == seq![req.contact.email@]
                &&& s.result.artifact_id == req.draft.artifact_id
                &&& s.result.message_id@ == ""@
                &&& s.result.delivered_at_ms == 0
            },
            Err(e) => !decision.approved && e is ConfirmationDeclined,
        },
{
    if !decision.approved {
        return Err(AgentError::ConfirmationDeclined);
    }
    let email = req.contact.email.as_str();
    let mut lines: Vec<String> = Vec::new();
    lines.push("--- Dry-run mailer output ---".to_owned());
    lines.push(concat("To: ", email));
    lines.push(concat("Subject: ", req.topic.as_str()));
    lines.push(req.draft.body_preview.clone());
    lines.push("-----------------------------".to_owned());
    assert(texts(lines@) =~= mail_lines(
        req.contact.email@,
        req.topic@,
        req.draft.body_preview@,
    ));
    let rationale = match &decision.rationale {
        Some(t) => Some(t.clone()),
        None => Some("mailer dry-run".to_owned()),
    };
    let mut recipients: Vec<String> = Vec::new();
    recipients.push(req.contact.email.clone());
    assert(texts(recipients@) =~= seq![req.contact.email@]);
    Ok(
        SentMail {
            lines,
            event: errand.propose_event(
                "email.sent",
                mail_payload(email, req.topic.as_str(), req.draft.artifact_id.0),
                rationale,
            ),
            result: MailResult {
                status: "dry-run".to_owned(),
                recipients,
                artifact_id: req.draft.artifact_id,
                message_id: "".to_owned(),
                delivered_at_ms: 0,
            },
        },
    )
}

} // verus!
