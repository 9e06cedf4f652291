//! What enters the ledger.

use crate::digest::{blake3_digest, blake3_of, push_text, utf8};
use crate::ids::{AgentId, TraceId};
use crate::json::{
    as_value, list_in, list_model, map_insert, signed_in, text_json, tree_get, tree_list, tree_of,
    tree_signed, value_model, value_of, Json, JsonMap, JsonModel, MapModel, Numeral, NumeralModel,
};
use crate::paths::{join_path, joined_path};
use crate::registry::schema::{
    schema_outcome, validate_instance, SchemaValidationError, SchemaViolation, ViolationModel,
};
use crate::text::{concat, concat3, has_prefix, join, joined, opt_text, same, signed_decimal, signed_text, starts_with, texts};
use vstd::prelude::*;

verus! {

#[derive(Debug)]
pub enum KbError {
    Config(String),
    Io(String),
    Sqlite(String),
    UnknownSchema(String),
    Schema(String),
    InvalidScope(String),
    MissingEvidence(i64),
    Canon(String),
    QueryNotReadOnly,
}

pub ghost enum KbFault {
    Config(Seq<char>),
    Io(Seq<char>),
    Sqlite(Seq<char>),
    UnknownSchema(Seq<char>),
    Schema(Seq<char>),
    InvalidScope(Seq<char>),
    MissingEvidence(i64),
    Canon(Seq<char>),
    QueryNotReadOnly,
}

pub open spec fn kb_text(f: KbFault) -> Seq<char> {
    match f {
        KbFault::Config(m) => "configuration error: "@ + m,
        KbFault::Io(m) => "filesystem error: "@ + m,
        KbFault::Sqlite(m) => "SQLite error: "@ + m,
        KbFault::UnknownSchema(k) => "schema not found for kind "@ + k,
        KbFault::Schema(m) => "payload validation failed: "@ + m,
        KbFault::InvalidScope(s) => "invalid scope '"@ + s + "'"@,
        KbFault::MissingEvidence(id) => "referential integrity failed for evidence id "@
            + signed_decimal(id as int),
        KbFault::Canon(m) => "canonicalization error: "@ + m,
        KbFault::QueryNotReadOnly => "query must be read-only"@,
    }
}

impl KbError {
    pub open spec fn view(self) -> KbFault {
        match self {
            KbError::Config(m) => KbFault::Config(m@),
            KbError::Io(m) => KbFault::Io(m@),
            KbError::Sqlite(m) => KbFault::Sqlite(m@),
            KbError::UnknownSchema(k) => KbFault::UnknownSchema(k@),
            KbError::Schema(m) => KbFault::Schema(m@),
            KbError::InvalidScope(s) => KbFault::InvalidScope(s@),
            KbError::MissingEvidence(id) => KbFault::MissingEvidence(id),
            KbError::Canon(m) => KbFault::Canon(m@),
            KbError::QueryNotReadOnly => KbFault::QueryNotReadOnly,
        }
    }

    pub fn message(&self) -> (r: String)
        ensures
            r@ == kb_text(self@),
    {
        match self {
            KbError::Config(m) => concat("configuration error: ", m.as_str()),
            KbError::Io(m) => concat("filesystem error: ", m.as_str()),
            KbError::Sqlite(m) => concat("SQLite error: ", m.as_str()),
            KbError::UnknownSchema(k) => concat("schema not found for kind ", k.as_str()),
            KbError::Schema(m) => concat("payload validation failed: ", m.as_str()),
            KbError::InvalidScope(s) => concat3("invalid scope '", s.as_str(), "'"),
            KbError::MissingEvidence(id) => concat(
                "referential integrity failed for evidence id ",
                signed_text(*id).as_str(),
            ),
            KbError::Canon(m) => concat("canonicalization error: ", m.as_str()),
            KbError::QueryNotReadOnly => "query must be read-only".to_owned(),
        }
    }
}

/// Where something in the ledger comes from.
#[derive(Debug)]
pub struct Provenance {
    pub trace_id: String,
    pub opening_id: String,
    pub agent_id: String,
    pub inputs_hash: Option<String>,
    pub rationale: Option<String>,
}

pub ghost struct ProvenanceModel {
    pub trace_id: Seq<char>,
    pub opening_id: Seq<char>,
    pub agent_id: Seq<char>,
    pub inputs_hash: Option<Seq<char>>,
    pub rationale: Option<Seq<char>>,
}

impl Provenance {
    pub open spec fn view(self) -> ProvenanceModel {
        ProvenanceModel {
            trace_id: self.trace_id@,
            opening_id: self.opening_id@,
            agent_id: self.agent_id@,
            inputs_hash: opt_text(self.inputs_hash),
            rationale: opt_text(self.rationale),
        }
    }
}

pub open spec fn put_text(m: MapModel, key: Seq<char>, t: Option<Seq<char>>) -> MapModel {
    match t {
        Some(s) => map_insert(m, key, JsonModel::Text(s)),
        None => m,
    }
}

/// Where something comes from, as a tree; what is not known is left out.
pub open spec fn provenance_tree(p: ProvenanceModel) -> JsonModel {
    let base = map_insert(
        map_insert(
            map_insert(MapModel::empty(), "trace_id"@, JsonModel::Text(p.trace_id)),
            "opening_id"@,
            JsonModel::Text(p.opening_id),
        ),
        "agent_id"@,
        JsonModel::Text(p.agent_id),
    );
    JsonModel::Object(
        put_text(put_text(base, "inputs_hash"@, p.inputs_hash), "rationale"@, p.rationale),
    )
}

impl Provenance {
    pub fn tree(&self) -> (r: Json)
        ensures
            r@ == provenance_tree(self@),
    {
        let mut m = JsonMap::new();
        m.insert("trace_id".to_owned(), text_json(self.trace_id.as_str()));
        m.insert("opening_id".to_owned(), text_json(self.opening_id.as_str()));
        m.insert("agent_id".to_owned(), text_json(self.agent_id.as_str()));
        match &self.inputs_hash {
            Some(h) => m.insert("inputs_hash".to_owned(), text_json(h.as_str())),
            None => {},
        }
        match &self.rationale {
            Some(t) => m.insert("rationale".to_owned(), text_json(t.as_str())),
            None => {},
        }
        Json::Object(m)
    }
}

/// A change that is proposed.
#[derive(Debug)]
pub struct StateDelta {
    pub kind: String,
    pub actor: String,
    pub scope: Option<String>,
    pub payload: Json,
    pub provenance: Provenance,
}

pub ghost struct DeltaModel {
    pub kind: Seq<char>,
    pub actor: Seq<char>,
    pub scope: Option<Seq<char>>,
    pub payload: JsonModel,
    pub provenance: ProvenanceModel,
}

/// The scope of a change: the user's where nothing is said.
pub open spec fn scope_of(d: DeltaModel) -> Seq<char> {
    match d.scope {
        Some(s) => s,
        None => "user"@,
    }
}

pub open spec fn is_scope(s: Seq<char>) -> bool {
    s == "user"@ || s == "system"@ || has_prefix(s, "agent:"@)
}

impl StateDelta {
    pub open spec fn view(self) -> DeltaModel {
        DeltaModel {
            kind: self.kind@,
            actor: self.actor@,
            scope: opt_text(self.scope),
            payload: self.payload@,
            provenance: self.provenance@,
        }
    }

    pub fn new(
        kind: String,
        actor: String,
        scope: Option<String>,
        payload: Json,
        provenance: Provenance,
    ) -> (r: Self)
        ensures
            r.kind == kind,
            r.actor == actor,
            r.scope == scope,
            r.payload == payload,
            r.provenance == provenance,
    {
        StateDelta { kind, actor, scope, payload, provenance }
    }

    pub fn scope(&self) -> (r: &str)
        ensures
            r@ == scope_of(self@),
    {
        match &self.scope {
            Some(s) => s.as_str(),
            None => "user",
        }
    }
}

pub fn validate_scope(scope: &str) -> (r: Result<(), KbError>)
    ensures
        match r {
            Ok(_) => is_scope(scope@),
            Err(e) => !is_scope(scope@) && e@ == KbFault::InvalidScope(scope@),
        },
{
    if same(scope, "user") || same(scope, "system") || starts_with(scope, "agent:") {
        Ok(())
    } else {
        Err(KbError::InvalidScope(scope.to_owned()))
    }
}

/// The numbers of the events that a payload cites.
pub open spec fn cited(items: Seq<JsonModel>) -> Seq<i64>
    decreases items.len(),
{
    if items.len() == 0 {
        seq![]
    } else {
        match tree_signed(Some(items.last())) {
            Some(n) => cited(items.drop_last()).push(n),
            None => cited(items.drop_last()),
        }
    }
}

pub open spec fn evidence_of(payload: JsonModel) -> Seq<i64> {
    match tree_list(tree_get(payload, "evidence"@)) {
        Some(items) => cited(items),
        None => seq![],
    }
}

pub fn evidence_ids(payload: &Json) -> (r: Vec<i64>)
    ensures
        r@ == evidence_of(payload@),
{
    let mut out: Vec<i64> = Vec::new();
    match list_in(payload.get("evidence")) {
        Some(items) => {
            let ghost all = crate::json::list_model(items@);
            let mut i: usize = 0;
            assert(out@ =~= cited(all.take(0)));
            while i < items.len()
                invariant
                    i <= items.len(),
                    all == crate::json::list_model(items@),
                    out@ == cited(all.take(i as int)),
                decreases items.len() - i,
            {
                assert(all.take(i + 1).drop_last() =~= all.take(i as int));
                assert(all.take(i + 1).last() == items@[i as int]@);
                match signed_in(Some(&items[i])) {
                    Some(n) => out.push(n),
                    None => {},
                }
                i += 1;
            }
            assert(all.take(all.len() as int) =~= all);
        },
        None => {
            assert(out@ =~= seq![]);
        },
    }
    out
}

pub open spec fn messages(s: Seq<ViolationModel>) -> Seq<Seq<char>> {
    s.map_values(|v: ViolationModel| v.message)
}

/// The kinds whose payload is held against a schema.
pub open spec fn shaped_kinds() -> Seq<Seq<char>> {
    seq![
        "contact.upserted"@,
        "artifact.created"@,
        "email.sent"@,
        "run.started"@,
        "run.finished"@,
    ]
}

pub fn schema_kinds() -> (r: Vec<String>)
    ensures
        texts(r@) == shaped_kinds(),
{
    let mut out: Vec<String> = Vec::new();
    out.push("contact.upserted".to_owned());
    out.push("artifact.created".to_owned());
    out.push("email.sent".to_owned());
    out.push("run.started".to_owned());
    out.push("run.finished".to_owned());
    assert(texts(out@) =~= shaped_kinds());
    out
}

/// The kinds that tell what a run did. Their payload is made by the runtime and follows the
/// opening, so they need no schema.
pub open spec fn trace_kinds() -> Seq<Seq<char>> {
    seq!["node.finished"@, "run.trace"@]
}

pub fn is_trace_kind(kind: &str) -> (r: bool)
    ensures
        r == trace_kinds().contains(kind@),
{
    let r = same(kind, "node.finished") || same(kind, "run.trace");
    proof {
        assert(trace_kinds()[0] == "node.finished"@);
        assert(trace_kinds()[1] == "run.trace"@);
    }
    r
}

/// What is wrong with a payload, held against the schema of its kind. The complaint is what the
/// validator says of a schema that it refuses.
pub open spec fn payload_fault(
    kind: Seq<char>,
    schema: Option<JsonModel>,
    payload: JsonModel,
    complaint: Seq<char>,
) -> Option<KbFault> {
    if schema is None && !trace_kinds().contains(kind) {
        Some(KbFault::UnknownSchema(kind))
    } else {
        match (as_value(payload), schema) {
            (None, _) => Some(KbFault::Schema("payload is no JSON value"@)),
            (Some(_), None) => None,
            (Some(p), Some(s)) => match schema_outcome(s, p) {
                None => Some(KbFault::Config(complaint)),
                Some(v) => if v.len() == 0 {
                    None
                } else {
                    Some(KbFault::Schema(join(messages(v), "; "@)))
                },
            },
        }
    }
}

fn message_list(v: &Vec<SchemaViolation>) -> (r: Vec<String>)
    ensures
        texts(r@) == messages(crate::registry::schema::violation_models(v@)),
{
    let mut out: Vec<String> = Vec::new();
    let mut i: usize = 0;
    while i < v.len()
        invariant
            i <= v.len(),
            out@.len() == i,
            forall|k: int| 0 <= k < i ==> (#[trigger] out@[k])@ == v@[k].message@,
        decreases v.len() - i,
    {
        out.push(v[i].message.clone());
        i += 1;
    }
    assert(texts(out@) =~= messages(crate::registry::schema::violation_models(v@)));
    out
}

pub open spec fn opt_value(v: Option<&serde_json::Value>) -> Option<JsonModel> {
    match v {
        Some(x) => Some(value_model(*x)),
        None => None,
    }
}

fn check_payload(kind: &str, schema: Option<&serde_json::Value>, payload: &Json) -> (r: Option<
    KbError,
>)
    ensures
        exists|complaint: Seq<char>|
            match r {
                Some(e) => #[trigger] payload_fault(kind@, opt_value(schema), payload@, complaint)
                    == Some(e@),
                None => payload_fault(kind@, opt_value(schema), payload@, complaint) is None,
            },
{
    let ghost any = seq!['?'];
    if schema.is_none() && !is_trace_kind(kind) {
        assert(payload_fault(kind@, opt_value(schema), payload@, any) == Some(
            KbFault::UnknownSchema(kind@),
        ));
        return Some(KbError::UnknownSchema(kind.to_owned()));
    }
    let value = match value_of(payload) {
        Some(v) => v,
        None => {
            assert(payload_fault(kind@, opt_value(schema), payload@, any) is Some);
            return Some(KbError::Schema("payload is no JSON value".to_owned()));
        },
    };
    let s = match schema {
        Some(s) => s,
        None => {
            assert(payload_fault(kind@, opt_value(schema), payload@, any) is None);
            return None;
        },
    };
    match validate_instance(s, &value) {
        Ok(_) => {
            assert(payload_fault(kind@, opt_value(schema), payload@, any) is None);
            None
        },
        Err(SchemaValidationError::InvalidSchema(m)) => {
            assert(payload_fault(kind@, opt_value(schema), payload@, m@) == Some(
                KbFault::Config(m@),
            ));
            Some(KbError::Config(m))
        },
        Err(SchemaValidationError::Violations(v)) => {
            let list = message_list(&v);
            assert(payload_fault(kind@, opt_value(schema), payload@, any) is Some);
            Some(KbError::Schema(joined(&list, "; ")))
        },
    }
}

/// What is wrong with a change before the ledger is asked, in the order in which it is found.
pub open spec fn delta_fault(d: DeltaModel, schema: Option<JsonModel>, complaint: Seq<char>) -> Option<
    KbFault,
> {
    if !is_scope(scope_of(d)) {
        Some(KbFault::InvalidScope(scope_of(d)))
    } else {
        payload_fault(d.kind, schema, d.payload, complaint)
    }
}

/// Looks at a change: its scope, then its payload. Gives the events that it cites, which are to be
/// looked up in the ledger. Which words a refused schema is told with is left open.
pub fn check_delta(delta: &StateDelta, schema: Option<&serde_json::Value>) -> (r: Result<
    Vec<i64>,
    KbError,
>)
    ensures
        exists|complaint: Seq<char>|
            match (r, #[trigger] delta_fault(delta@, opt_value(schema), complaint)) {
                (Ok(ids), None) => ids@ == evidence_of(delta@.payload),
                (Err(e), Some(f)) => e@ == f,
                _ => false,
            },
{
    match validate_scope(delta.scope()) {
        Ok(_) => {},
        Err(e) => {
            assert(delta_fault(delta@, opt_value(schema), seq!['?']) == Some(e@));
            return Err(e);
        },
    }
    let found = check_payload(delta.kind.as_str(), schema, &delta.payload);
    let ghost said = choose|complaint: Seq<char>|
        match found {
            Some(e) => #[trigger] payload_fault(
                delta.kind@,
                opt_value(schema),
                delta.payload@,
                complaint,
            ) == Some(e@),
            None => payload_fault(delta.kind@, opt_value(schema), delta.payload@, complaint) is None,
        };
    assert(delta_fault(delta@, opt_value(schema), said) == payload_fault(
        delta.kind@,
        opt_value(schema),
        delta.payload@,
        said,
    ));
    match found {
        Some(e) => Err(e),
        None => Ok(evidence_ids(&delta.payload)),
    }
}

/// The words of the validator count only where it refuses the schema: with a schema that it accepts,
/// and for the kinds without one, the change alone settles what is wrong with it.
pub proof fn complaints_tell_of_schemas_only(
    d: DeltaModel,
    schema: Option<JsonModel>,
    one: Seq<char>,
    other: Seq<char>,
)
    requires
        match (schema, as_value(d.payload)) {
            (Some(s), Some(p)) => schema_outcome(s, p) is Some,
            _ => true,
        },
    ensures
        delta_fault(d, schema, one) == delta_fault(d, schema, other),
{
}

/// The first event that is cited and is not there.
pub open spec fn first_missing(cited: Seq<i64>, there: Seq<bool>) -> Option<i64>
    decreases cited.len(),
{
    if cited.len() == 0 || there.len() == 0 {
        None
    } else if !there[0] {
        Some(cited[0])
    } else {
        first_missing(cited.skip(1), there.skip(1))
    }
}

/// Tells of the first event that is cited and is not there.
pub fn check_evidence(ids: &Vec<i64>, there: &Vec<bool>) -> (r: Result<(), KbError>)
    requires
        ids@.len() == there@.len(),
    ensures
        match (r, first_missing(ids@, there@)) {
            (Ok(_), None) => true,
            (Err(e), Some(id)) => e@ == KbFault::MissingEvidence(id),
            _ => false,
        },
{
    let mut i: usize = 0;
    assert(ids@.skip(0) =~= ids@);
    assert(there@.skip(0) =~= there@);
    while i < ids.len()
        invariant
            i <= ids.len(),
            ids@.len() == there@.len(),
            first_missing(ids@, there@) == first_missing(
                ids@.skip(i as int),
                there@.skip(i as int),
            ),
        decreases ids.len() - i,
    {
        assert(ids@.skip(i as int)[0] == ids@[i as int]);
        assert(there@.skip(i as int)[0] == there@[i as int]);
        assert(ids@.skip(i as int).skip(1) =~= ids@.skip(i + 1));
        assert(there@.skip(i as int).skip(1) =~= there@.skip(i + 1));
        if !there[i] {
            return Err(KbError::MissingEvidence(ids[i]));
        }
        i += 1;
    }
    Ok(())
}

pub open spec fn items_above_lowest(s: Seq<JsonModel>) -> bool
    decreases s, 0int,
{
    s.len() == 0 || (items_above_lowest(s.drop_last()) && above_lowest(s.last()))
}

pub open spec fn entries_above_lowest(m: MapModel) -> bool
    decreases m, 0int,
{
    m.len() == 0 || (entries_above_lowest(m.drop_last()) && above_lowest(m.last().1))
}

/// Whether no number in a tree is the lowest of the signed ones, which has no counterpart above
/// nought.
pub open spec fn above_lowest(j: JsonModel) -> bool
    decreases j, 1int,
{
    match j {
        JsonModel::Number(NumeralModel::Negative(n)) => n > i64::MIN,
        JsonModel::Array(s) => items_above_lowest(s),
        JsonModel::Object(m) => entries_above_lowest(m),
        _ => true,
    }
}

fn is_above_lowest(j: &Json) -> (r: bool)
    ensures
        r == above_lowest(j@),
    decreases j,
{
    match j {
        Json::Number(Numeral::Negative(n)) => *n > i64::MIN,
        Json::Array(items) => all_above_lowest(items),
        Json::Object(map) => map_above_lowest(map),
        _ => true,
    }
}

fn all_above_lowest(items: &Vec<Json>) -> (r: bool)
    ensures
        r == items_above_lowest(list_model(items@)),
    decreases items,
{
    let ghost all = list_model(items@);
    let mut clear = true;
    let mut i: usize = 0;
    while i < items.len()
        invariant
            i <= items.len(),
            all == list_model(items@),
            clear == items_above_lowest(all.take(i as int)),
        decreases items.len() - i,
    {
        let one = is_above_lowest(&items[i]);
        clear = clear && one;
        assert(all.take(i + 1).drop_last() =~= all.take(i as int));
        assert(all.take(i + 1).last() == items@[i as int]@);
        i += 1;
    }
    assert(all.take(all.len() as int) =~= all);
    clear
}

fn map_above_lowest(map: &JsonMap) -> (r: bool)
    ensures
        r == entries_above_lowest(map@),
    decreases map,
{
    let ghost all = map@;
    let mut clear = true;
    let mut i: usize = 0;
    while i < map.entries.len()
        invariant
            i <= map.entries.len(),
            all == map@,
            clear == entries_above_lowest(all.take(i as int)),
        decreases map.entries.len() - i,
    {
        let one = is_above_lowest(&map.entries[i].1);
        clear = clear && one;
        assert(all.take(i + 1).drop_last() =~= all.take(i as int));
        assert(all.take(i + 1).last().1 == map.entries@[i as int].1@);
        i += 1;
    }
    assert(all.take(all.len() as int) =~= all);
    clear
}

/// The canonical JSON text that `json_canon::to_string` writes for a tree, or its complaint.
pub uninterp spec fn canonical_json(tree: JsonModel) -> Result<Seq<char>, Seq<char>>;

/// `json_canon::to_string`. The claim is that the text is settled by the value's tree. The lowest
/// signed number is left out: the function takes the absolute value of every negative one.
#[verifier::external_body]
fn canonical(v: &serde_json::Value) -> (r: Result<String, String>)
    requires
        above_lowest(value_model(*v)),
    ensures
        match r {
            Ok(t) => canonical_json(value_model(*v)) == Ok::<_, Seq<char>>(t@),
            Err(m) => canonical_json(value_model(*v)) == Err::<Seq<char>, _>(m@),
        },
{
    json_canon::to_string(v).map_err(|e| e.to_string())
}

/// The canonical text of a tree.
pub open spec fn canonical_text(j: JsonModel) -> Result<Seq<char>, KbFault> {
    match as_value(j) {
        None => Err(KbFault::Canon("not a JSON value"@)),
        Some(d) => if !above_lowest(d) {
            Err(KbFault::Canon("number is out of range"@))
        } else {
            match canonical_json(d) {
                Ok(t) => Ok(t),
                Err(m) => Err(KbFault::Canon(m)),
            }
        },
    }
}

pub fn canonicalize_value(j: &Json) -> (r: Result<String, KbError>)
    ensures
        match (r, canonical_text(j@)) {
            (Ok(t), Ok(u)) => t@ == u,
            (Err(e), Err(f)) => e@ == f,
            _ => false,
        },
{
    let v = match value_of(j) {
        Some(v) => v,
        None => {
            return Err(KbError::Canon("not a JSON value".to_owned()));
        },
    };
    if !is_above_lowest(&tree_of(&v)) {
        return Err(KbError::Canon("number is out of range".to_owned()));
    }
    match canonical(&v) {
        Ok(t) => Ok(t),
        Err(m) => Err(KbError::Canon(m)),
    }
}

/// What the ledger's digest of a change covers.
pub open spec fn envelope(d: DeltaModel) -> JsonModel {
    JsonModel::Object(
        map_insert(
            map_insert(
                map_insert(
                    map_insert(
                        map_insert(MapModel::empty(), "kind"@, JsonModel::Text(d.kind)),
                        "actor"@,
                        JsonModel::Text(d.actor),
                    ),
                    "scope"@,
                    JsonModel::Text(scope_of(d)),
                ),
                "payload"@,
                d.payload,
            ),
            "provenance"@,
            provenance_tree(d.provenance),
        ),
    )
}

fn envelope_of(delta: &StateDelta) -> (r: Json)
    ensures
        r@ == envelope(delta@),
{
    let mut m = JsonMap::new();
    m.insert("kind".to_owned(), text_json(delta.kind.as_str()));
    m.insert("actor".to_owned(), text_json(delta.actor.as_str()));
    m.insert("scope".to_owned(), text_json(delta.scope()));
    m.insert("payload".to_owned(), delta.payload.clone());
    m.insert("provenance".to_owned(), delta.provenance.tree());
    Json::Object(m)
}

/// A row of the ledger.
#[derive(Debug)]
pub struct EventRow {
    pub ts_ms: u64,
    pub actor: String,
    pub kind: String,
    pub scope: String,
    pub payload_json: String,
    pub provenance_json: String,
    pub hash: Vec<u8>,
}

pub ghost struct RowModel {
    pub ts_ms: u64,
    pub actor: Seq<char>,
    pub kind: Seq<char>,
    pub scope: Seq<char>,
    pub payload_json: Seq<char>,
    pub provenance_json: Seq<char>,
    pub hash: Seq<u8>,
}

impl EventRow {
    pub open spec fn view(self) -> RowModel {
        RowModel {
            ts_ms: self.ts_ms,
            actor: self.actor@,
            kind: self.kind@,
            scope: self.scope@,
            payload_json: self.payload_json@,
            provenance_json: self.provenance_json@,
            hash: self.hash@,
        }
    }
}

/// The row that a change becomes.
pub open spec fn row_of(d: DeltaModel, ts_ms: u64) -> Result<RowModel, KbFault> {
    match canonical_text(d.payload) {
        Err(f) => Err(f),
        Ok(payload) => match canonical_text(provenance_tree(d.provenance)) {
            Err(f) => Err(f),
            Ok(provenance) => match canonical_text(envelope(d)) {
                Err(f) => Err(f),
                Ok(whole) => Ok(
                    RowModel {
                        ts_ms,
                        actor: d.actor,
                        kind: d.kind,
                        scope: scope_of(d),
                        payload_json: payload,
                        provenance_json: provenance,
                        hash: blake3_digest(utf8(whole)),
                    },
                ),
            },
        },
    }
}

/// Makes the row of a change that has been looked at.
pub fn event_row(delta: &StateDelta, ts_ms: u64) -> (r: Result<EventRow, KbError>)
    ensures
        match (r, row_of(delta@, ts_ms)) {
            (Ok(w), Ok(m)) => w@ == m,
            (Err(e), Err(f)) => e@ == f,
            _ => false,
        },
{
    let payload_json = match canonicalize_value(&delta.payload) {
        Ok(t) => t,
        Err(e) => {
            return Err(e);
        },
    };
    let provenance_json = match canonicalize_value(&delta.provenance.tree()) {
        Ok(t) => t,
        Err(e) => {
            return Err(e);
        },
    };
    let whole = match canonicalize_value(&envelope_of(delta)) {
        Ok(t) => t,
        Err(e) => {
            return Err(e);
        },
    };
    let mut bytes: Vec<u8> = Vec::new();
    push_text(&mut bytes, whole.as_str());
    assert(bytes@ =~= utf8(whole@));
    Ok(
        EventRow {
            ts_ms,
            actor: delta.actor.clone(),
            kind: delta.kind.clone(),
            scope: delta.scope().to_owned(),
            payload_json,
            provenance_json,
            hash: blake3_of(&bytes),
        },
    )
}

/// What the ledger takes of a change whose events it has looked up, or why it takes nothing.
pub open spec fn entry_of(
    d: DeltaModel,
    schema: Option<JsonModel>,
    complaint: Seq<char>,
    there: Seq<bool>,
    ts_ms: u64,
) -> Result<RowModel, KbFault> {
    match delta_fault(d, schema, complaint) {
        Some(f) => Err(f),
        None => match first_missing(evidence_of(d.payload), there) {
            Some(id) => Err(KbFault::MissingEvidence(id)),
            None => row_of(d, ts_ms),
        },
    }
}

/// Makes the row of a change that has been looked at and whose events have been looked up.
pub fn take_change(delta: &StateDelta, ids: &Vec<i64>, there: &Vec<bool>, ts_ms: u64) -> (r: Result<
    EventRow,
    KbError,
>)
    requires
        ids@ == evidence_of(delta@.payload),
        ids@.len() == there@.len(),
    ensures
        match (r, first_missing(evidence_of(delta@.payload), there@), row_of(delta@, ts_ms)) {
            (Err(e), Some(id), _) => e@ == KbFault::MissingEvidence(id),
            (Ok(w), None, Ok(m)) => w@ == m,
            (Err(e), None, Err(f)) => e@ == f,
            _ => false,
        },
        forall|schema: Option<JsonModel>, complaint: Seq<char>|
            delta_fault(delta@, schema, complaint) is None ==> match (
                r,
                #[trigger] entry_of(delta@, schema, complaint, there@, ts_ms),
            ) {
                (Ok(w), Ok(m)) => w@ == m,
                (Err(e), Err(f)) => e@ == f,
                _ => false,
            },
{
    match check_evidence(ids, there) {
        Ok(_) => event_row(delta, ts_ms),
        Err(e) => Err(e),
    }
}

/// The ledger after a change has been proposed.
pub open spec fn log_after(log: Seq<RowModel>, entry: Result<RowModel, KbFault>) -> Seq<RowModel> {
    match entry {
        Ok(row) => log.push(row),
        Err(_) => log,
    }
}

proof fn lemma_all_cited(cited: Seq<i64>, there: Seq<bool>)
    requires
        cited.len() == there.len(),
    ensures
        first_missing(cited, there) is None <==> forall|i: int|
            0 <= i < there.len() ==> #[trigger] there[i],
    decreases cited.len(),
{
    if cited.len() > 0 {
        let rest = there.skip(1);
        lemma_all_cited(cited.skip(1), rest);
        if there[0] {
            if first_missing(cited, there) is None {
                assert forall|i: int| 0 <= i < there.len() implies #[trigger] there[i] by {
                    if i > 0 {
                        assert(rest[i - 1]);
                    }
                }
            } else {
                let i = choose|i: int| 0 <= i < rest.len() && !#[trigger] rest[i];
                assert(!there[i + 1]);
            }
        }
    }
}

/// A change that is refused leaves the ledger as it was. One that is taken adds one row at its end
/// and moves nothing else; the row keeps the time, the actor, the kind and the scope, and every
/// event that the change cites is there.
pub proof fn changes_are_taken_whole(
    log: Seq<RowModel>,
    d: DeltaModel,
    schema: Option<JsonModel>,
    complaint: Seq<char>,
    there: Seq<bool>,
    ts_ms: u64,
)
    requires
        there.len() == evidence_of(d.payload).len(),
    ensures
        match entry_of(d, schema, complaint, there, ts_ms) {
            Err(f) => log_after(log, Err(f)) == log,
            Ok(row) => {
                &&& log_after(log, Ok(row)) == log.push(row)
                &&& (row.ts_ms, row.actor, row.kind, row.scope) == (
                    ts_ms,
                    d.actor,
                    d.kind,
                    scope_of(d),
                )
                &&& is_scope(row.scope)
                &&& forall|i: int| 0 <= i < there.len() ==> #[trigger] there[i]
            },
        },
{
    lemma_all_cited(evidence_of(d.payload), there);
}

/// A trace that a run leaves is never refused for want of a schema: with a right scope and a payload
/// that is a JSON value there is nothing wrong with it.
pub proof fn traces_need_no_schema(d: DeltaModel, complaint: Seq<char>)
    requires
        trace_kinds().contains(d.kind),
        is_scope(scope_of(d)),
        as_value(d.payload) is Some,
    ensures
        delta_fault(d, None, complaint) is None,
{
}

/// The digest of a change does not depend on when it is proposed: the same change proposed again
/// has the same digest, which the ledger holds only once.
pub proof fn repeated_changes_share_their_digest(d: DeltaModel, first: u64, second: u64)
    ensures
        match (row_of(d, first), row_of(d, second)) {
            (Ok(a), Ok(b)) => a.hash == b.hash && a == (RowModel { ts_ms: first, ..b }),
            (Err(e), Err(f)) => e == f,
            _ => false,
        },
{
}

/// A change whose scope is wrong is refused for that, whatever else is wrong with it.
pub proof fn scopes_are_looked_at_first(
    d: DeltaModel,
    schema: Option<JsonModel>,
    complaint: Seq<char>,
)
    requires
        !is_scope(scope_of(d)),
    ensures
        delta_fault(d, schema, complaint) == Some(KbFault::InvalidScope(scope_of(d))),
{
}

/// Where the two databases stand.
pub fn resolve_paths(root_dir: &str, events_db: &str, view_db: &str) -> (r: Result<
    (String, String),
    KbError,
>)
    ensures
        match r {
            Ok((e, v)) => root_dir@.len() > 0 && e@ == joined_path(root_dir@, events_db@) && v@
                == joined_path(root_dir@, view_db@),
            Err(e) => root_dir@.len() == 0 && e@ == KbFault::Config(
                "kb.root_dir must not be empty"@,
            ),
        },
{
    if root_dir.is_empty() {
        return Err(KbError::Config("kb.root_dir must not be empty".to_owned()));
    }
    Ok((join_path(root_dir, events_db), join_path(root_dir, view_db)))
}

#[derive(Clone, Copy, Debug, PartialEq, Eq, Structural)]
pub enum AuditDecision {
    Allow,
    Deny,
}

#[derive(Clone, Copy, Debug, PartialEq, Eq, Structural)]
pub enum AuditSeverity {
    Info,
    Warn,
    Error,
}

/// A decision on what an agent may do.
#[derive(Debug)]
pub struct CapAuditRecord {
    pub ts_ms: u64,
    pub trace_id: TraceId,
    pub agent_id: AgentId,
    pub cap: String,
    pub op: String,
    pub target: String,
    pub args_hash: Vec<u8>,
    pub decision: AuditDecision,
    pub reason: String,
    pub severity: AuditSeverity,
}

impl CapAuditRecord {
    pub fn new(
        ts_ms: u64,
        trace_id: TraceId,
        agent_id: AgentId,
        cap: String,
        op: String,
        target: String,
        args: &Vec<u8>,
        decision: AuditDecision,
        reason: String,
        severity: AuditSeverity,
    ) -> (r: Self)
        ensures
            r.ts_ms == ts_ms,
            r.trace_id == trace_id,
            r.agent_id == agent_id,
            r.cap == cap,
            r.op == op,
            r.target == target,
            r.args_hash@ == blake3_digest(args@),
            r.args_hash@.len() == 32,
            r.decision == decision,
            r.reason == reason,
            r.severity == severity,
    {
        CapAuditRecord {
            ts_ms,
            trace_id,
            agent_id,
            cap,
            op,
            target,
            args_hash: blake3_of(args),
            decision,
            reason,
            severity,
        }
    }
}

} // verus!
