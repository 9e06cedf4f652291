//! What the views make of an event.

use crate::json::{
    json_read, parse_json, signed_in, text_in, tree_get, tree_signed, tree_text, Json, JsonModel,
    Numeral, NumeralModel,
};
use crate::kb::keys::{
    artifact_key, contact_key, derive_artifact_key, derive_contact_key, normalize_email, plain_email,
};
use crate::kb::ledger::{KbError, KbFault};
use crate::text::{concat, opt_text, same, signed_decimal, signed_text, trim, trimmed};
use vstd::prelude::*;

verus! {

/// An event that the views have not taken in yet.
#[derive(Debug)]
pub struct PendingEvent {
    pub id: i64,
    pub kind: String,
    pub payload: Json,
    pub provenance: Json,
}

pub ghost struct EventModel {
    pub id: i64,
    pub kind: Seq<char>,
    pub payload: JsonModel,
    pub provenance: JsonModel,
}

impl PendingEvent {
    pub open spec fn view(self) -> EventModel {
        EventModel {
            id: self.id,
            kind: self.kind@,
            payload: self.payload@,
            provenance: self.provenance@,
        }
    }
}

/// An event as it is read from its row.
pub open spec fn event_of(
    id: i64,
    kind: Seq<char>,
    payload_json: Seq<char>,
    provenance_json: Seq<char>,
) -> Result<EventModel, KbFault> {
    match (json_read(payload_json), json_read(provenance_json)) {
        (Err(m), _) => Err(KbFault::Config("invalid payload json: "@ + m)),
        (Ok(_), Err(m)) => Err(KbFault::Config("invalid provenance json: "@ + m)),
        (Ok(payload), Ok(provenance)) => Ok(EventModel { id, kind, payload, provenance }),
    }
}

impl PendingEvent {
    pub fn from_row(id: i64, kind: String, payload_json: &str, provenance_json: &str) -> (r: Result<
        PendingEvent,
        KbError,
    >)
        ensures
            match (r, event_of(id, kind@, payload_json@, provenance_json@)) {
                (Ok(e), Ok(m)) => e@ == m,
                (Err(e), Err(f)) => e@ == f,
                _ => false,
            },
    {
        let payload = match parse_json(payload_json) {
            Ok(j) => j,
            Err(m) => {
                return Err(KbError::Config(concat("invalid payload json: ", m.as_str())));
            },
        };
        let provenance = match parse_json(provenance_json) {
            Ok(j) => j,
            Err(m) => {
                return Err(KbError::Config(concat("invalid provenance json: ", m.as_str())));
            },
        };
        Ok(PendingEvent { id, kind, payload, provenance })
    }
}

/// What an event changes in the views. Each change but the last puts a row under its key, in place
/// of an older one; each is noted in the history of what it is about.
#[allow(inconsistent_fields)]
#[derive(Debug)]
pub enum ViewChange {
    Contact {
        key: String,
        name: Option<String>,
        email: Option<String>,
        org: Option<String>,
        trust: Numeral,
    },
    Artifact { key: String, kind: String, path: String, summary: Option<String> },
    Run { trace_id: String, status: String, opening_id: String },
    HistoryOnly { entity: String },
    Nothing,
}

pub ghost enum ChangeModel {
    Contact {
        key: Seq<char>,
        name: Option<Seq<char>>,
        email: Option<Seq<char>>,
        org: Option<Seq<char>>,
        trust: NumeralModel,
    },
    Artifact { key: Seq<char>, kind: Seq<char>, path: Seq<char>, summary: Option<Seq<char>> },
    Run { trace_id: Seq<char>, status: Seq<char>, opening_id: Seq<char> },
    HistoryOnly { entity: Seq<char> },
    Nothing,
}

impl ViewChange {
    pub open spec fn view(self) -> ChangeModel {
        match self {
            ViewChange::Contact { key, name, email, org, trust } => ChangeModel::Contact {
                key: key@,
                name: opt_text(name),
                email: opt_text(email),
                org: opt_text(org),
                trust: trust@,
            },
            ViewChange::Artifact { key, kind, path, summary } => ChangeModel::Artifact {
                key: key@,
                kind: kind@,
                path: path@,
                summary: opt_text(summary),
            },
            ViewChange::Run { trace_id, status, opening_id } => ChangeModel::Run {
                trace_id: trace_id@,
                status: status@,
                opening_id: opening_id@,
            },
            ViewChange::HistoryOnly { entity } => ChangeModel::HistoryOnly { entity: entity@ },
            ViewChange::Nothing => ChangeModel::Nothing,
        }
    }
}

/// What the history notes an event under.
pub open spec fn history_key(c: ChangeModel) -> Option<Seq<char>> {
    match c {
        ChangeModel::Contact { key, .. } => Some("contact:"@ + key),
        ChangeModel::Artifact { key, .. } => Some("artifact:"@ + key),
        ChangeModel::Run { trace_id, .. } => Some("run:"@ + trace_id),
        ChangeModel::HistoryOnly { entity } => Some(entity),
        ChangeModel::Nothing => None,
    }
}

impl ViewChange {
    pub fn entity(&self) -> (r: Option<String>)
        ensures
            opt_text(r) == history_key(self@),
    {
        match self {
            ViewChange::Contact { key, .. } => Some(concat("contact:", key.as_str())),
            ViewChange::Artifact { key, .. } => Some(concat("artifact:", key.as_str())),
            ViewChange::Run { trace_id, .. } => Some(concat("run:", trace_id.as_str())),
            ViewChange::HistoryOnly { entity } => Some(entity.clone()),
            ViewChange::Nothing => None,
        }
    }
}

/// A text field without the white space around it.
pub open spec fn field(j: JsonModel, key: Seq<char>) -> Option<Seq<char>> {
    match tree_text(tree_get(j, key)) {
        Some(t) => Some(trim(t)),
        None => None,
    }
}

fn field_in(j: &Json, key: &str) -> (r: Option<String>)
    ensures
        opt_text(r) == field(j@, key@),
{
    match text_in(j.get(key)) {
        Some(t) => Some(trimmed(t.as_str())),
        None => None,
    }
}

/// How far a contact is trusted: halfway where nothing is said.
pub open spec fn trust_in(j: JsonModel) -> NumeralModel {
    match tree_get(j, "trust"@) {
        Some(JsonModel::Number(n)) => n,
        _ => NumeralModel::Float("0.5"@),
    }
}

pub open spec fn contact_change(e: EventModel) -> Result<ChangeModel, KbFault> {
    let name = field(e.payload, "name"@);
    let email = match tree_text(tree_get(e.payload, "email"@)) {
        Some(t) => Some(plain_email(t)),
        None => None,
    };
    let org = field(e.payload, "org"@);
    match contact_key(email, name, org) {
        Some(key) => Ok(
            ChangeModel::Contact { key, name, email, org, trust: trust_in(e.payload) },
        ),
        None => Err(
            KbFault::Config("contact.upserted requires email or name for key derivation"@),
        ),
    }
}

pub open spec fn artifact_change(e: EventModel) -> Result<ChangeModel, KbFault> {
    let sha256 = field(e.payload, "sha256"@);
    let path = field(e.payload, "path"@);
    match field(e.payload, "kind"@) {
        None => Err(KbFault::Config("artifact.created missing 'kind'"@)),
        Some(kind) => match artifact_key(sha256, path) {
            None => Err(KbFault::Config("artifact.created requires sha256 or path"@)),
            Some(key) => Ok(
                ChangeModel::Artifact {
                    key,
                    kind,
                    path: match path {
                        Some(p) => p,
                        None => ""@,
                    },
                    summary: tree_text(tree_get(e.payload, "summary"@)),
                },
            ),
        },
    }
}

pub open spec fn run_change(e: EventModel) -> Result<ChangeModel, KbFault> {
    match field(e.provenance, "trace_id"@) {
        None => Err(KbFault::Config("run event missing provenance.trace_id"@)),
        Some(trace_id) => match field(e.payload, "opening_id"@) {
            None => Err(KbFault::Config("run event missing payload.opening_id"@)),
            Some(opening_id) => Ok(
                ChangeModel::Run {
                    trace_id,
                    status: match field(e.payload, "status"@) {
                        Some(s) => s,
                        None => e.kind,
                    },
                    opening_id,
                },
            ),
        },
    }
}

pub open spec fn email_change(e: EventModel) -> ChangeModel {
    match tree_signed(tree_get(e.payload, "artifact_id"@)) {
        Some(n) => ChangeModel::HistoryOnly {
            entity: "artifact:event:"@ + signed_decimal(n as int),
        },
        None => ChangeModel::Nothing,
    }
}

/// What an event changes; kinds that the views do not know change nothing.
pub open spec fn change_of(e: EventModel) -> Result<ChangeModel, KbFault> {
    if e.kind == "contact.upserted"@ {
        contact_change(e)
    } else if e.kind == "artifact.created"@ {
        artifact_change(e)
    } else if e.kind == "run.started"@ || e.kind == "run.finished"@ {
        run_change(e)
    } else if e.kind == "email.sent"@ {
        Ok(email_change(e))
    } else {
        Ok(ChangeModel::Nothing)
    }
}

pub fn apply_contact_event(event: &PendingEvent) -> (r: Result<ViewChange, KbError>)
    ensures
        match (r, contact_change(event@)) {
            (Ok(c), Ok(m)) => c@ == m,
            (Err(e), Err(f)) => e@ == f,
            _ => false,
        },
{
    let name = field_in(&event.payload, "name");
    let email = match text_in(event.payload.get("email")) {
        Some(t) => Some(normalize_email(t.as_str())),
        None => None,
    };
    let org = field_in(&event.payload, "org");
    let trust = match event.payload.get("trust") {
        Some(Json::Number(n)) => n.clone(),
        _ => Numeral::Float("0.5".to_owned()),
    };
    match derive_contact_key(&email, &name, &org) {
        Some(key) => Ok(ViewChange::Contact { key, name, email, org, trust }),
        None => Err(
            KbError::Config(
                "contact.upserted requires email or name for key derivation".to_owned(),
            ),
        ),
    }
}

pub fn apply_artifact_event(event: &PendingEvent) -> (r: Result<ViewChange, KbError>)
    ensures
        match (r, artifact_change(event@)) {
            (Ok(c), Ok(m)) => c@ == m,
            (Err(e), Err(f)) => e@ == f,
            _ => false,
        },
{
    let sha256 = field_in(&event.payload, "sha256");
    let path = field_in(&event.payload, "path");
    let kind = match field_in(&event.payload, "kind") {
        Some(k) => k,
        None => {
            return Err(KbError::Config("artifact.created missing 'kind'".to_owned()));
        },
    };
    let summary = match text_in(event.payload.get("summary")) {
        Some(t) => Some(t.clone()),
        None => None,
    };
    match derive_artifact_key(&sha256, &path) {
        None => Err(KbError::Config("artifact.created requires sha256 or path".to_owned())),
        Some(key) => Ok(
            ViewChange::Artifact {
                key,
                kind,
                path: match path {
                    Some(p) => p,
                    None => "".to_owned(),
                },
                summary,
            },
        ),
    }
}

pub fn apply_run_event(event: &PendingEvent) -> (r: Result<ViewChange, KbError>)
    ensures
        match (r, run_change(event@)) {
            (Ok(c), Ok(m)) => c@ == m,
            (Err(e), Err(f)) => e@ == f,
            _ => false,
        },
{
    let trace_id = match field_in(&event.provenance, "trace_id") {
        Some(t) => t,
        None => {
            return Err(KbError::Config("run event missing provenance.trace_id".to_owned()));
        },
    };
    let opening_id = match field_in(&event.payload, "opening_id") {
        Some(t) => t,
        None => {
            return Err(KbError::Config("run event missing payload.opening_id".to_owned()));
        },
    };
    let status = match field_in(&event.payload, "status") {
        Some(s) => s,
        None => event.kind.clone(),
    };
    Ok(ViewChange::Run { trace_id, status, opening_id })
}

pub fn apply_email_event(event: &PendingEvent) -> (r: ViewChange)
    ensures
        r@ == email_change(event@),
{
    match signed_in(event.payload.get("artifact_id")) {
        Some(n) => ViewChange::HistoryOnly {
            entity: concat("artifact:event:", signed_text(n).as_str()),
        },
        None => ViewChange::Nothing,
    }
}

/// What an event changes in the views.
pub fn apply_event(event: &PendingEvent) -> (r: Result<ViewChange, KbError>)
    ensures
        match (r, change_of(event@)) {
            (Ok(c), Ok(m)) => c@ == m,
            (Err(e), Err(f)) => e@ == f,
            _ => false,
        },
{
    let kind = event.kind.as_str();
    if same(kind, "contact.upserted") {
        apply_contact_event(event)
    } else if same(kind, "artifact.created") {
        apply_artifact_event(event)
    } else if same(kind, "run.started") || same(kind, "run.finished") {
        apply_run_event(event)
    } else if same(kind, "email.sent") {
        Ok(apply_email_event(event))
    } else {
        Ok(ViewChange::Nothing)
    }
}

/// Takes events in by batches.
#[derive(Debug)]
pub struct Materializer {
    batch_size: usize,
}

/// A batch: the changes, and the number of the last event in it.
#[derive(Debug)]
pub struct Batch {
    pub changes: Vec<(i64, ViewChange)>,
    pub watermark: i64,
}

pub open spec fn event_models(s: Seq<PendingEvent>) -> Seq<EventModel> {
    s.map_values(|e: PendingEvent| e@)
}

pub open spec fn change_models(s: Seq<(i64, ViewChange)>) -> Seq<(i64, ChangeModel)> {
    s.map_values(|c: (i64, ViewChange)| (c.0, c.1@))
}

/// The changes of the first `n` events, or the first complaint.
pub open spec fn changes_upto(s: Seq<EventModel>, n: nat) -> Result<
    Seq<(i64, ChangeModel)>,
    KbFault,
>
    decreases n,
{
    if n == 0 {
        Ok(seq![])
    } else {
        match changes_upto(s, (n - 1) as nat) {
            Err(f) => Err(f),
            Ok(v) => match change_of(s[n - 1]) {
                Err(f) => Err(f),
                Ok(c) => Ok(v.push((s[n - 1].id, c))),
            },
        }
    }
}

proof fn lemma_changes_stop(s: Seq<EventModel>, i: nat, n: nat)
    requires
        changes_upto(s, i) is Err,
        i <= n,
    ensures
        changes_upto(s, n) == changes_upto(s, i),
    decreases n,
{
    if i < n {
        lemma_changes_stop(s, i, (n - 1) as nat);
    }
}

impl Materializer {
    pub closed spec fn view(self) -> usize {
        self.batch_size
    }

    pub fn new() -> (r: Self)
        ensures
            r@ == 512,
    {
        Materializer { batch_size: 512 }
    }

    /// With another size of batches, at least one.
    pub fn with_batch_size(self, batch_size: usize) -> (r: Self)
        ensures
            r@ == if batch_size < 1 {
                1
            } else {
                batch_size
            },
    {
        Materializer {
            batch_size: if batch_size < 1 {
                1
            } else {
                batch_size
            },
        }
    }

    /// How many events are asked for at a time.
    pub fn batch_size(&self) -> (r: usize)
        ensures
            r == self@,
    {
        self.batch_size
    }

    /// Plans a batch: nothing where no event waits, and otherwise all changes in order and the
    /// number up to which events have been taken in.
    pub fn plan(&self, pending: &Vec<PendingEvent>) -> (r: Result<Option<Batch>, KbError>)
        ensures
            match (r, changes_upto(event_models(pending@), pending@.len())) {
                (Ok(None), Ok(v)) => pending@.len() == 0,
                (Ok(Some(b)), Ok(v)) => pending@.len() > 0 && change_models(b.changes@) == v
                    && b.watermark == pending@.last().id,
                (Err(e), Err(f)) => e@ == f,
                _ => false,
            },
    {
        if pending.len() == 0 {
            return Ok(None);
        }
        let ghost all = event_models(pending@);
        let mut changes: Vec<(i64, ViewChange)> = Vec::new();
        let mut i: usize = 0;
        assert(change_models(changes@) =~= seq![]);
        while i < pending.len()
            invariant
                i <= pending.len(),
                pending@.len() > 0,
                all == event_models(pending@),
                changes_upto(all, i as nat) == Ok::<_, KbFault>(change_models(changes@)),
            decreases pending.len() - i,
        {
            assert(all[i as int] == pending@[i as int]@);
            let ghost o = changes@;
            match apply_event(&pending[i]) {
                Ok(c) => {
                    changes.push((pending[i].id, c));
                    assert(change_models(changes@) =~= change_models(o).push(
                        (pending@[i as int].id, c@),
                    ));
                },
                Err(e) => {
                    proof {
                        lemma_changes_stop(all, (i + 1) as nat, pending@.len());
                    }
                    return Err(e);
                },
            }
            i += 1;
        }
        Ok(Some(Batch { changes, watermark: pending[pending.len() - 1].id }))
    }
}

/// Two events for one address change the same row, and the history of both stands under one key.
pub proof fn one_address_one_contact(a: EventModel, b: EventModel)
    requires
        a.kind == "contact.upserted"@,
        b.kind == "contact.upserted"@,
        tree_text(tree_get(a.payload, "email"@)) is Some,
        tree_text(tree_get(b.payload, "email"@)) is Some,
        plain_email(tree_text(tree_get(a.payload, "email"@))->0) == plain_email(
            tree_text(tree_get(b.payload, "email"@))->0,
        ),
        trim(plain_email(tree_text(tree_get(a.payload, "email"@))->0)).len() > 0,
    ensures
        match (change_of(a), change_of(b)) {
            (
                Ok(ChangeModel::Contact { key: k, .. }),
                Ok(ChangeModel::Contact { key: l, .. }),
            ) => k == l,
            _ => false,
        },
{
}

} // verus!
