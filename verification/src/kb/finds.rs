//! What searches and rows promise.

use crate::digest::hex_text;
use crate::json::{
    insert_then_get, int_model, json_document, json_read, map_get, map_insert, ordered, tree_get,
    JsonModel, MapModel, NumeralModel,
};
use crate::kb::hits::{
    artifact_hit, cell_tree, contact_hit, event_hit, row_tree, run_hit, tree_or_text, Cell, SearchDomain,
};
use crate::kb::ledger::put_text;
use crate::text::{has_char, signed_decimal};
use crate::kb::traces::{opening_text, run_provenance, status_payload, trace_text};
use crate::kb::views::event_of;
use crate::kb::keys::history_keys;
use crate::ids::{OpeningId, TraceId};
use vstd::prelude::*;

verus! {

proof fn lemma_put_text(m: MapModel, key: Seq<char>, t: Option<Seq<char>>, q: Seq<char>)
    requires
        ordered(m),
    ensures
        ordered(put_text(m, key, t)),
        q != key ==> map_get(put_text(m, key, t), q) == map_get(m, q),
        t is Some ==> map_get(put_text(m, key, t), key) == Some(JsonModel::Text(t->0)),
        t is None ==> put_text(m, key, t) == m,
{
    if t is Some {
        insert_then_get(m, key, JsonModel::Text(t->0), q);
    }
}

/// A text, where there is one.
pub open spec fn words(t: Option<Seq<char>>) -> Option<JsonModel> {
    match t {
        Some(s) => Some(JsonModel::Text(s)),
        None => None,
    }
}

/// A contact that is found is called by its name, and tells where it is reached and how far it is
/// trusted.
pub proof fn found_contacts_tell_how_to_reach_them(
    key: Seq<char>,
    name: Option<Seq<char>>,
    email: Option<Seq<char>>,
    org: Option<Seq<char>>,
    trust: Option<Seq<char>>,
    id: i64,
)
    ensures
        ({
            let h = contact_hit(key, name, email, org, trust, id);
            &&& h.domain == SearchDomain::Contacts
            &&& h.key == key
            &&& h.source_event == id
            &&& name matches Some(n) ==> h.label == n
            &&& name is None ==> h.label == "contact"@
            &&& h.extra is Some
            &&& tree_get(h.extra->0, "email"@) == words(email)
            &&& tree_get(h.extra->0, "org"@) == words(org)
            &&& trust matches Some(t) ==> tree_get(h.extra->0, "trust"@) == Some(
                JsonModel::Number(NumeralModel::Float(t)),
            )
            &&& trust is None ==> tree_get(h.extra->0, "trust"@) is None
        }),
{
    reveal_strlit("email");
    reveal_strlit("org");
    reveal_strlit("trust");
    assert("email"@.len() != "org"@.len());
    assert("email"@[0] != "trust"@[0]);
    assert("org"@.len() != "trust"@.len());
    let m0 = MapModel::empty();
    let m1 = put_text(m0, "email"@, email);
    let m2 = put_text(m1, "org"@, org);
    lemma_put_text(m0, "email"@, email, "email"@);
    lemma_put_text(m0, "email"@, email, "org"@);
    lemma_put_text(m0, "email"@, email, "trust"@);
    lemma_put_text(m1, "org"@, org, "email"@);
    lemma_put_text(m1, "org"@, org, "org"@);
    lemma_put_text(m1, "org"@, org, "trust"@);
    if trust is Some {
        let t = JsonModel::Number(NumeralModel::Float(trust->0));
        insert_then_get(m2, "trust"@, t, "email"@);
        insert_then_get(m2, "trust"@, t, "org"@);
        insert_then_get(m2, "trust"@, t, "trust"@);
    }
}

/// An artifact that is found tells its kind, where it is, and what it is about.
pub proof fn found_artifacts_tell_where_they_are(
    key: Seq<char>,
    kind: Seq<char>,
    path: Seq<char>,
    summary: Option<Seq<char>>,
    id: i64,
)
    ensures
        ({
            let h = artifact_hit(key, kind, path, summary, id);
            &&& h.domain == SearchDomain::Artifacts
            &&& h.key == key
            &&& h.source_event == id
            &&& h.extra is Some
            &&& tree_get(h.extra->0, "kind"@) == Some(JsonModel::Text(kind))
            &&& tree_get(h.extra->0, "path"@) == Some(JsonModel::Text(path))
            &&& tree_get(h.extra->0, "summary"@) == words(summary)
        }),
{
    reveal_strlit("kind");
    reveal_strlit("path");
    reveal_strlit("summary");
    assert("kind"@[0] != "path"@[0]);
    assert("kind"@.len() != "summary"@.len());
    assert("path"@.len() != "summary"@.len());
    let m0 = MapModel::empty();
    let m1 = map_insert(m0, "kind"@, JsonModel::Text(kind));
    let m2 = map_insert(m1, "path"@, JsonModel::Text(path));
    let m3 = put_text(m2, "summary"@, summary);
    insert_then_get(m0, "kind"@, JsonModel::Text(kind), "kind"@);
    insert_then_get(m0, "kind"@, JsonModel::Text(kind), "path"@);
    insert_then_get(m0, "kind"@, JsonModel::Text(kind), "summary"@);
    insert_then_get(m1, "path"@, JsonModel::Text(path), "kind"@);
    insert_then_get(m1, "path"@, JsonModel::Text(path), "path"@);
    insert_then_get(m1, "path"@, JsonModel::Text(path), "summary"@);
    lemma_put_text(m2, "summary"@, summary, "kind"@);
    lemma_put_text(m2, "summary"@, summary, "path"@);
    lemma_put_text(m2, "summary"@, summary, "summary"@);
}

/// An event or a run that is found is known by its number or its trace, and called by its kind or its
/// status.
pub proof fn found_events_and_runs_are_known(
    n: i64,
    kind: Seq<char>,
    ts: i64,
    trace: Seq<char>,
    status: Seq<char>,
    opening: Seq<char>,
    id: i64,
)
    ensures
        ({
            let h = event_hit(n, kind, ts);
            &&& h.domain == SearchDomain::Events
            &&& h.key == "event:"@ + signed_decimal(n as int)
            &&& h.label == kind
            &&& h.source_event == n
            &&& h.extra is Some
            &&& tree_get(h.extra->0, "ts_ms"@) == Some(int_model(ts as int))
        }),
        ({
            let h = run_hit(trace, status, opening, id);
            &&& h.domain == SearchDomain::Runs
            &&& h.key == "run:"@ + trace
            &&& h.label == status
            &&& h.source_event == id
            &&& h.extra is Some
            &&& tree_get(h.extra->0, "trace_id"@) == Some(JsonModel::Text(trace))
            &&& tree_get(h.extra->0, "opening_id"@) == Some(JsonModel::Text(opening))
        }),
{
    reveal_strlit("trace_id");
    reveal_strlit("opening_id");
    assert("trace_id"@.len() != "opening_id"@.len());
    let m0 = MapModel::empty();
    let m1 = map_insert(m0, "trace_id"@, JsonModel::Text(trace));
    let m2 = map_insert(m1, "opening_id"@, JsonModel::Text(opening));
    insert_then_get(m0, "trace_id"@, JsonModel::Text(trace), "trace_id"@);
    insert_then_get(m0, "trace_id"@, JsonModel::Text(trace), "opening_id"@);
    insert_then_get(m1, "opening_id"@, JsonModel::Text(opening), "trace_id"@);
    insert_then_get(m1, "opening_id"@, JsonModel::Text(opening), "opening_id"@);
    insert_then_get(MapModel::empty(), "ts_ms"@, int_model(ts as int), "ts_ms"@);
}

/// A value of a row stands under the name of its column; a later column of the same name takes its
/// place.
pub proof fn values_stand_under_their_column(columns: Seq<Seq<char>>, cells: Seq<Cell>, n: nat, k: int)
    requires
        n <= cells.len(),
        n <= columns.len(),
        0 <= k < n,
        forall|j: int| k < j < n ==> #[trigger] columns[j] != columns[k],
    ensures
        map_get(row_tree(columns, cells, n), columns[k]) == Some(cell_tree(cells[k])),
    decreases n,
{
    lemma_row_ordered(columns, cells, (n - 1) as nat);
    insert_then_get(
        row_tree(columns, cells, (n - 1) as nat),
        columns[n - 1],
        cell_tree(cells[n - 1]),
        columns[k],
    );
    if k < n - 1 {
        assert(columns[n - 1] != columns[k]);
        values_stand_under_their_column(columns, cells, (n - 1) as nat, k);
    }
}

proof fn lemma_row_ordered(columns: Seq<Seq<char>>, cells: Seq<Cell>, n: nat)
    ensures
        ordered(row_tree(columns, cells, n)),
    decreases n,
{
    if n > 0 {
        lemma_row_ordered(columns, cells, (n - 1) as nat);
        insert_then_get(
            row_tree(columns, cells, (n - 1) as nat),
            columns[n - 1],
            cell_tree(cells[n - 1]),
            columns[n - 1],
        );
    }
}

/// A value keeps its kind: a number is a number, a text a text, bytes are written in hexadecimal, and
/// nothing is null.
pub proof fn values_keep_their_kind(n: i64, t: String, b: Vec<u8>)
    ensures
        cell_tree(Cell::Null) == JsonModel::Null,
        cell_tree(Cell::Integer(n)) == int_model(n as int),
        cell_tree(Cell::Real(Some(t))) == JsonModel::Number(NumeralModel::Float(t@)),
        cell_tree(Cell::Real(None)) == JsonModel::Null,
        cell_tree(Cell::Text(t)) == JsonModel::Text(t@),
        cell_tree(Cell::Blob(b)) == JsonModel::Text(hex_text(b@)),
{
}

/// What was kept is read as JSON, and as a text where it is none.
pub proof fn kept_values_are_read(t: Seq<char>, j: JsonModel)
    ensures
        json_document(t) == Some(j) ==> tree_or_text(t) == j,
        json_document(t) is None ==> tree_or_text(t) == JsonModel::Text(t),
{
}

/// A change of a run's status tells the opening and the status, and comes from the run.
pub proof fn statuses_tell_their_run(actor: Seq<char>, t: TraceId, o: OpeningId, status: Seq<char>)
    ensures
        tree_get(status_payload(o, status), "opening_id"@) == Some(JsonModel::Text(opening_text(o))),
        tree_get(status_payload(o, status), "status"@) == Some(JsonModel::Text(status)),
        run_provenance(actor, t, o).trace_id == trace_text(t),
        run_provenance(actor, t, o).opening_id == opening_text(o),
        run_provenance(actor, t, o).agent_id == actor,
{
    reveal_strlit("opening_id");
    reveal_strlit("status");
    assert("opening_id"@.len() != "status"@.len());
    let a = map_insert(MapModel::empty(), "opening_id"@, JsonModel::Text(opening_text(o)));
    insert_then_get(MapModel::empty(), "opening_id"@, JsonModel::Text(opening_text(o)), "opening_id"@);
    insert_then_get(a, "status"@, JsonModel::Text(status), "opening_id"@);
}

/// An event is read back from its row, where both of its documents can be.
pub proof fn events_are_read_from_their_row(id: i64, kind: Seq<char>, p: Seq<char>, q: Seq<char>)
    ensures
        event_of(id, kind, p, q) is Ok <==> json_read(p) is Ok && json_read(q) is Ok,
        event_of(id, kind, p, q) matches Ok(e) ==> e.id == id && e.kind == kind && json_read(p)->Ok_0
            == e.payload && json_read(q)->Ok_0 == e.provenance,
{
}

/// A history is looked for under the key itself, and under the key of each kind where it names none.
pub proof fn histories_are_looked_for(key: Seq<char>)
    ensures
        history_keys(key)[0] == key,
        has_char(key, ':') ==> history_keys(key).len() == 1,
        !has_char(key, ':') ==> history_keys(key).contains("contact:"@ + key) && history_keys(key).contains(
            "artifact:"@ + key,
        ) && history_keys(key).contains("run:"@ + key),
{
    if !has_char(key, ':') {
        assert(history_keys(key)[1] == "contact:"@ + key);
        assert(history_keys(key)[2] == "artifact:"@ + key);
        assert(history_keys(key)[3] == "run:"@ + key);
    }
}

} // verus!
