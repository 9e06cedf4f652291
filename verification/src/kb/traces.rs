//! What is recorded of runs.

use crate::ids::{uuid_text, OpeningId, TraceId};
use crate::json::{
    as_value, map_insert, settled, settled_objects_grow, settled_trees_stay, text_json, Json, JsonMap, JsonModel, MapModel, Numeral, NumeralModel,
};
use crate::kb::ledger::{
    delta_fault, is_scope, trace_kinds, traces_need_no_schema, DeltaModel, Provenance,
    ProvenanceModel, StateDelta,
};
use crate::text::{copy_opt, opt_text};
use vstd::prelude::*;

verus! {

/// How a node ended.
#[derive(Debug)]
pub struct NodeFinishedRecord {
    pub node_id: String,
    pub status: String,
    pub attempt: u32,
    pub duration_ms: u64,
    pub outputs_hash: Option<String>,
    pub error: Option<String>,
}

/// Records runs on behalf of an actor.
#[derive(Debug)]
pub struct TraceStore {
    pub actor: String,
    pub scope: Option<String>,
}

pub open spec fn trace_text(t: TraceId) -> Seq<char> {
    "trace:"@ + uuid_text(t.0)
}

pub open spec fn opening_text(o: OpeningId) -> Seq<char> {
    "opening:"@ + uuid_text(o.0)
}

pub open spec fn run_provenance(actor: Seq<char>, t: TraceId, o: OpeningId) -> ProvenanceModel {
    ProvenanceModel {
        trace_id: trace_text(t),
        opening_id: opening_text(o),
        agent_id: actor,
        inputs_hash: None,
        rationale: None,
    }
}

pub open spec fn status_payload(o: OpeningId, status: Seq<char>) -> JsonModel {
    JsonModel::Object(
        map_insert(
            map_insert(MapModel::empty(), "opening_id"@, JsonModel::Text(opening_text(o))),
            "status"@,
            JsonModel::Text(status),
        ),
    )
}

pub open spec fn text_or_null(t: Option<Seq<char>>) -> JsonModel {
    match t {
        Some(s) => JsonModel::Text(s),
        None => JsonModel::Null,
    }
}

fn json_or_null(t: &Option<String>) -> (r: Json)
    ensures
        r@ == text_or_null(opt_text(*t)),
{
    match t {
        Some(s) => text_json(s.as_str()),
        None => Json::Null,
    }
}

pub open spec fn node_payload(t: TraceId, o: OpeningId, n: NodeFinishedRecord) -> JsonModel {
    let a = map_insert(MapModel::empty(), "trace_id"@, JsonModel::Text(trace_text(t)));
    let b = map_insert(a, "opening_id"@, JsonModel::Text(opening_text(o)));
    let c = map_insert(b, "node_id"@, JsonModel::Text(n.node_id@));
    let d = map_insert(c, "status"@, JsonModel::Text(n.status@));
    let e = map_insert(
        d,
        "attempt"@,
        JsonModel::Number(NumeralModel::Unsigned(n.attempt as u64)),
    );
    let f = map_insert(
        e,
        "duration_ms"@,
        JsonModel::Number(NumeralModel::Unsigned(n.duration_ms)),
    );
    let g = map_insert(f, "outputs_hash"@, text_or_null(opt_text(n.outputs_hash)));
    JsonModel::Object(map_insert(g, "error"@, text_or_null(opt_text(n.error))))
}

pub open spec fn run_delta(
    kind: Seq<char>,
    actor: Seq<char>,
    scope: Option<Seq<char>>,
    payload: JsonModel,
    t: TraceId,
    o: OpeningId,
) -> DeltaModel {
    DeltaModel { kind, actor, scope, payload, provenance: run_provenance(actor, t, o) }
}

impl TraceStore {
    fn provenance(&self, trace_id: &TraceId, opening_id: &OpeningId) -> (r: Provenance)
        ensures
            r@ == run_provenance(self.actor@, *trace_id, *opening_id),
    {
        Provenance {
            trace_id: trace_id.text(),
            opening_id: opening_id.text(),
            agent_id: self.actor.clone(),
            inputs_hash: None,
            rationale: None,
        }
    }

    fn delta(&self, kind: &str, payload: Json, trace_id: &TraceId, opening_id: &OpeningId) -> (r:
        StateDelta)
        ensures
            r@ == run_delta(
                kind@,
                self.actor@,
                opt_text(self.scope),
                payload@,
                *trace_id,
                *opening_id,
            ),
    {
        StateDelta {
            kind: kind.to_owned(),
            actor: self.actor.clone(),
            scope: copy_opt(&self.scope),
            payload,
            provenance: self.provenance(trace_id, opening_id),
        }
    }

    fn status(&self, kind: &str, trace_id: &TraceId, opening_id: &OpeningId, status: &str) -> (r:
        StateDelta)
        ensures
            r@ == run_delta(
                kind@,
                self.actor@,
                opt_text(self.scope),
                status_payload(*opening_id, status@),
                *trace_id,
                *opening_id,
            ),
    {
        let mut m = JsonMap::new();
        m.insert("opening_id".to_owned(), Json::Text(opening_id.text()));
        m.insert("status".to_owned(), text_json(status));
        self.delta(kind, Json::Object(m), trace_id, opening_id)
    }

    pub fn record_run_started(&self, trace_id: &TraceId, opening_id: &OpeningId) -> (r: StateDelta)
        ensures
            r@ == run_delta(
                "run.started"@,
                self.actor@,
                opt_text(self.scope),
                status_payload(*opening_id, "started"@),
                *trace_id,
                *opening_id,
            ),
    {
        self.status("run.started", trace_id, opening_id, "started")
    }

    pub fn record_run_finished(&self, trace_id: &TraceId, opening_id: &OpeningId, status: &str) -> (r:
        StateDelta)
        ensures
            r@ == run_delta(
                "run.finished"@,
                self.actor@,
                opt_text(self.scope),
                status_payload(*opening_id, status@),
                *trace_id,
                *opening_id,
            ),
    {
        self.status("run.finished", trace_id, opening_id, status)
    }

    pub fn record_node_finished(
        &self,
        trace_id: &TraceId,
        opening_id: &OpeningId,
        record: &NodeFinishedRecord,
    ) -> (r: StateDelta)
        ensures
            r@ == run_delta(
                "node.finished"@,
                self.actor@,
                opt_text(self.scope),
                node_payload(*trace_id, *opening_id, *record),
                *trace_id,
                *opening_id,
            ),
    {
        let mut m = JsonMap::new();
        m.insert("trace_id".to_owned(), Json::Text(trace_id.text()));
        m.insert("opening_id".to_owned(), Json::Text(opening_id.text()));
        m.insert("node_id".to_owned(), text_json(record.node_id.as_str()));
        m.insert("status".to_owned(), text_json(record.status.as_str()));
        m.insert(
            "attempt".to_owned(),
            Json::Number(Numeral::Unsigned(record.attempt as u64)),
        );
        m.insert(
            "duration_ms".to_owned(),
            Json::Number(Numeral::Unsigned(record.duration_ms)),
        );
        m.insert("outputs_hash".to_owned(), json_or_null(&record.outputs_hash));
        m.insert("error".to_owned(), json_or_null(&record.error));
        self.delta("node.finished", Json::Object(m), trace_id, opening_id)
    }

    /// One change for each node, in their order.
    pub fn record_nodes(
        &self,
        trace_id: &TraceId,
        opening_id: &OpeningId,
        records: &Vec<NodeFinishedRecord>,
    ) -> (r: Vec<StateDelta>)
        ensures
            r@.len() == records@.len(),
            forall|i: int|
                0 <= i < r@.len() ==> (#[trigger] r@[i])@ == run_delta(
                    "node.finished"@,
                    self.actor@,
                    opt_text(self.scope),
                    node_payload(*trace_id, *opening_id, records@[i]),
                    *trace_id,
                    *opening_id,
                ),
    {
        let mut out: Vec<StateDelta> = Vec::new();
        let mut i: usize = 0;
        while i < records.len()
            invariant
                i <= records.len(),
                out@.len() == i,
                forall|k: int|
                    0 <= k < i ==> (#[trigger] out@[k])@ == run_delta(
                        "node.finished"@,
                        self.actor@,
                        opt_text(self.scope),
                        node_payload(*trace_id, *opening_id, records@[k]),
                        *trace_id,
                        *opening_id,
                    ),
            decreases records.len() - i,
        {
            out.push(self.record_node_finished(trace_id, opening_id, &records[i]));
            i += 1;
        }
        out
    }

    /// The whole trace of a run.
    pub fn record_run_trace(&self, trace_id: &TraceId, opening_id: &OpeningId, trace: Json) -> (r:
        StateDelta)
        ensures
            r@ == run_delta(
                "run.trace"@,
                self.actor@,
                opt_text(self.scope),
                trace@,
                *trace_id,
                *opening_id,
            ),
    {
        self.delta("run.trace", trace, trace_id, opening_id)
    }
}

/// How a node ended is told by a tree that stays as it is.
proof fn lemma_node_payload(t: TraceId, o: OpeningId, n: NodeFinishedRecord)
    ensures
        settled(node_payload(t, o, n)),
{
    let a = map_insert(MapModel::empty(), "trace_id"@, JsonModel::Text(trace_text(t)));
    settled_objects_grow(MapModel::empty(), "trace_id"@, JsonModel::Text(trace_text(t)));
    let b = map_insert(a, "opening_id"@, JsonModel::Text(opening_text(o)));
    settled_objects_grow(a, "opening_id"@, JsonModel::Text(opening_text(o)));
    let c = map_insert(b, "node_id"@, JsonModel::Text(n.node_id@));
    settled_objects_grow(b, "node_id"@, JsonModel::Text(n.node_id@));
    let d = map_insert(c, "status"@, JsonModel::Text(n.status@));
    settled_objects_grow(c, "status"@, JsonModel::Text(n.status@));
    let attempt = JsonModel::Number(NumeralModel::Unsigned(n.attempt as u64));
    let e = map_insert(d, "attempt"@, attempt);
    settled_objects_grow(d, "attempt"@, attempt);
    let took = JsonModel::Number(NumeralModel::Unsigned(n.duration_ms));
    let f = map_insert(e, "duration_ms"@, took);
    settled_objects_grow(e, "duration_ms"@, took);
    let g = map_insert(f, "outputs_hash"@, text_or_null(opt_text(n.outputs_hash)));
    settled_objects_grow(f, "outputs_hash"@, text_or_null(opt_text(n.outputs_hash)));
    settled_objects_grow(g, "error"@, text_or_null(opt_text(n.error)));
}

/// What is recorded of the end of a node, and of a whole run whose trace is a JSON value, is never
/// refused by the ledger for its kind or its payload, whatever the store's right scope is.
pub proof fn traces_are_taken(
    actor: Seq<char>,
    scope: Option<Seq<char>>,
    t: TraceId,
    o: OpeningId,
    n: NodeFinishedRecord,
    trace: JsonModel,
    complaint: Seq<char>,
)
    requires
        scope matches Some(s) ==> is_scope(s),
        as_value(trace) is Some,
    ensures
        delta_fault(
            run_delta("node.finished"@, actor, scope, node_payload(t, o, n), t, o),
            None,
            complaint,
        ) is None,
        delta_fault(run_delta("run.trace"@, actor, scope, trace, t, o), None, complaint) is None,
{
    lemma_node_payload(t, o, n);
    settled_trees_stay(node_payload(t, o, n));
    assert(trace_kinds()[0] == "node.finished"@);
    assert(trace_kinds()[1] == "run.trace"@);
    traces_need_no_schema(
        run_delta("node.finished"@, actor, scope, node_payload(t, o, n), t, o),
        complaint,
    );
    traces_need_no_schema(run_delta("run.trace"@, actor, scope, trace, t, o), complaint);
}

} // verus!
