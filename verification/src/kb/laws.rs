//! What the views promise of the events they take in.

use crate::digest::{blake3_digest, utf8};
use crate::json::{as_value, insert_then_get, map_insert, tree_get, JsonModel, MapModel, NumeralModel};
use crate::kb::keys::{artifact_key, contact_key, plain_email};
use crate::kb::ledger::{
    canonical_text, cited, envelope, first_missing, is_scope, payload_fault, provenance_tree, row_of, scope_of,
    trace_kinds, DeltaModel, KbFault, ProvenanceModel,
};
use crate::kb::views::{change_of, changes_upto, history_key, ChangeModel, EventModel};
use crate::registry::schema::schema_outcome;
use crate::text::{has_prefix, signed_decimal, trim};
use vstd::prelude::*;

verus! {

/// Whether an event tells of a run.
pub open spec fn tells_of_a_run(e: EventModel) -> bool {
    e.kind == "run.started"@ || e.kind == "run.finished"@
}

proof fn lemma_kinds_differ()
    ensures
        "run.started"@ != "contact.upserted"@,
        "run.started"@ != "artifact.created"@,
        "run.finished"@ != "contact.upserted"@,
        "run.finished"@ != "artifact.created"@,
        "email.sent"@ != "contact.upserted"@,
        "email.sent"@ != "artifact.created"@,
        "email.sent"@ != "run.started"@,
        "email.sent"@ != "run.finished"@,
        "artifact.created"@ != "contact.upserted"@,
{
    reveal_strlit("run.started");
    reveal_strlit("run.finished");
    reveal_strlit("contact.upserted");
    reveal_strlit("artifact.created");
    reveal_strlit("email.sent");
    assert("run.started"@[0] == 'r' && "run.finished"@[0] == 'r' && "contact.upserted"@[0] == 'c'
        && "artifact.created"@[0] == 'a' && "email.sent"@[0] == 'e');
}

/// A run stands in the views under its trace and its opening, with the status that the event
/// tells; only where it tells none, the kind of the event is the status.
pub proof fn runs_show_the_status_they_are_told(
    e: EventModel,
    trace_id: Seq<char>,
    opening_id: Seq<char>,
)
    requires
        tells_of_a_run(e),
        tree_get(e.provenance, "trace_id"@) == Some(JsonModel::Text(trace_id)),
        tree_get(e.payload, "opening_id"@) == Some(JsonModel::Text(opening_id)),
    ensures
        change_of(e) matches Ok(ChangeModel::Run { trace_id: t, status: s, opening_id: o }) && t == trim(
            trace_id,
        ) && o == trim(opening_id) && match tree_get(e.payload, "status"@) {
            Some(JsonModel::Text(told)) => s == trim(told),
            _ => s == e.kind,
        },
{
    lemma_kinds_differ();
}

/// Two runs that ended in different ways are told apart in the views.
pub proof fn different_ends_are_told_apart(a: EventModel, b: EventModel, x: Seq<char>, y: Seq<char>)
    requires
        tells_of_a_run(a),
        tells_of_a_run(b),
        change_of(a) is Ok,
        change_of(b) is Ok,
        tree_get(a.payload, "status"@) == Some(JsonModel::Text(x)),
        tree_get(b.payload, "status"@) == Some(JsonModel::Text(y)),
        trim(x) != trim(y),
    ensures
        change_of(a) != change_of(b),
{
    lemma_kinds_differ();
}

/// A run is refused if and only if its trace or its opening is not told.
pub proof fn runs_need_a_trace_and_an_opening(e: EventModel)
    requires
        tells_of_a_run(e),
    ensures
        change_of(e) is Ok <==> (tree_get(e.provenance, "trace_id"@) matches Some(
            JsonModel::Text(_),
        )) && (tree_get(e.payload, "opening_id"@) matches Some(JsonModel::Text(_))),
        change_of(e) is Err && !(tree_get(e.provenance, "trace_id"@) matches Some(
            JsonModel::Text(_),
        )) ==> change_of(e) == Err::<ChangeModel, KbFault>(
            KbFault::Config("run event missing provenance.trace_id"@),
        ),
        change_of(e) is Err && (tree_get(e.provenance, "trace_id"@) matches Some(JsonModel::Text(_)))
            ==> change_of(e) == Err::<ChangeModel, KbFault>(
            KbFault::Config("run event missing payload.opening_id"@),
        ),
{
    lemma_kinds_differ();
}

/// A contact keeps what is told of it: its name and organisation without white space around
/// them, its address in its usual form, and how far it is trusted, which is halfway where nothing
/// is told.
pub proof fn contacts_keep_what_is_told(e: EventModel)
    requires
        e.kind == "contact.upserted"@,
        change_of(e) is Ok,
    ensures
        change_of(e) matches Ok(ChangeModel::Contact { key, name, email, org, trust }) && {
            &&& match tree_get(e.payload, "name"@) {
                Some(JsonModel::Text(t)) => name == Some(trim(t)),
                _ => name is None,
            }
            &&& match tree_get(e.payload, "email"@) {
                Some(JsonModel::Text(t)) => email == Some(plain_email(t)),
                _ => email is None,
            }
            &&& match tree_get(e.payload, "org"@) {
                Some(JsonModel::Text(t)) => org == Some(trim(t)),
                _ => org is None,
            }
            &&& match tree_get(e.payload, "trust"@) {
                Some(JsonModel::Number(n)) => trust == n,
                _ => trust == NumeralModel::Float("0.5"@),
            }
            &&& contact_key(email, name, org) == Some(key)
        },
{
}

/// A contact is refused if and only if neither a name nor an address that is not blank is told.
pub proof fn contacts_need_a_name_or_an_address(e: EventModel)
    requires
        e.kind == "contact.upserted"@,
    ensures
        change_of(e) is Err <==> !(tree_get(e.payload, "name"@) matches Some(JsonModel::Text(_))) && (
        match tree_get(e.payload, "email"@) {
            Some(JsonModel::Text(t)) => trim(plain_email(t)).len() == 0,
            _ => true,
        }),
{
}

/// An artifact keeps its kind, its path and its summary, and stands under its digest, or where
/// none is told, under that of its path.
pub proof fn artifacts_keep_what_is_told(e: EventModel, kind: Seq<char>)
    requires
        e.kind == "artifact.created"@,
        tree_get(e.payload, "kind"@) == Some(JsonModel::Text(kind)),
        change_of(e) is Ok,
    ensures
        change_of(e) matches Ok(ChangeModel::Artifact { key, kind: k, path, summary }) && {
            let sha256 = match tree_get(e.payload, "sha256"@) {
                Some(JsonModel::Text(t)) => Some(trim(t)),
                _ => None,
            };
            let place = match tree_get(e.payload, "path"@) {
                Some(JsonModel::Text(t)) => Some(trim(t)),
                _ => None,
            };
            &&& k == trim(kind)
            &&& path == match place {
                Some(p) => p,
                None => ""@,
            }
            &&& match tree_get(e.payload, "summary"@) {
                Some(JsonModel::Text(t)) => summary == Some(t),
                _ => summary is None,
            }
            &&& artifact_key(sha256, place) == Some(key)
        },
{
    lemma_kinds_differ();
}

/// A mail that was sent is noted in the history of the draft that it sent, and changes no row.
pub proof fn mails_are_noted_with_their_draft(e: EventModel, draft: u64)
    requires
        e.kind == "email.sent"@,
        tree_get(e.payload, "artifact_id"@) == Some(JsonModel::Number(NumeralModel::Unsigned(draft))),
        draft <= i64::MAX,
    ensures
        change_of(e) matches Ok(c) && history_key(c) == Some(
            "artifact:event:"@ + signed_decimal(draft as int),
        ) && !(c is Contact) && !(c is Artifact) && !(c is Run),
{
    lemma_kinds_differ();
}

/// The history of a row stands under the kind of the row and its key.
pub proof fn histories_stand_under_their_rows(e: EventModel)
    requires
        change_of(e) is Ok,
    ensures
        match change_of(e)->Ok_0 {
            ChangeModel::Contact { key, .. } => history_key(change_of(e)->Ok_0) == Some(
                "contact:"@ + key,
            ),
            ChangeModel::Artifact { key, .. } => history_key(change_of(e)->Ok_0) == Some(
                "artifact:"@ + key,
            ),
            ChangeModel::Run { trace_id, .. } => history_key(change_of(e)->Ok_0) == Some(
                "run:"@ + trace_id,
            ),
            ChangeModel::HistoryOnly { .. } => e.kind == "email.sent"@,
            ChangeModel::Nothing => history_key(change_of(e)->Ok_0) is None,
        },
{
    lemma_kinds_differ();
}

/// Events of a kind that the views do not know change nothing, and are not refused.
pub proof fn unknown_kinds_change_nothing(e: EventModel)
    requires
        e.kind != "contact.upserted"@,
        e.kind != "artifact.created"@,
        e.kind != "email.sent"@,
        !tells_of_a_run(e),
    ensures
        change_of(e) == Ok::<ChangeModel, KbFault>(ChangeModel::Nothing),
{
}

/// A batch holds the change of each event, in the order of the events and under their numbers; it
/// is refused if and only if one of the events is.
pub proof fn batches_hold_each_change(s: Seq<EventModel>, n: nat)
    requires
        n <= s.len(),
    ensures
        changes_upto(s, n) is Err <==> exists|i: int| 0 <= i < n && change_of(#[trigger] s[i]) is Err,
        changes_upto(s, n) matches Ok(v) ==> v.len() == n && forall|i: int|
            0 <= i < n ==> (#[trigger] v[i]).0 == s[i].id && Ok::<ChangeModel, KbFault>(v[i].1)
                == change_of(s[i]),
    decreases n,
{
    if n > 0 {
        let m = (n - 1) as nat;
        batches_hold_each_change(s, m);
        if changes_upto(s, n) is Err {
            if changes_upto(s, m) is Err {
                let i = choose|i: int| 0 <= i < m && change_of(#[trigger] s[i]) is Err;
                assert(0 <= i < n && change_of(s[i]) is Err);
            } else {
                assert(change_of(s[n - 1]) is Err);
            }
        } else {
            let v = changes_upto(s, n)->Ok_0;
            let w = changes_upto(s, m)->Ok_0;
            assert forall|i: int| 0 <= i < n implies (#[trigger] v[i]).0 == s[i].id && Ok::<
                ChangeModel,
                KbFault,
            >(v[i].1) == change_of(s[i]) by {
                if i < m {
                    assert(v[i] == w[i]);
                }
            }
            assert forall|i: int| 0 <= i < n implies change_of(#[trigger] s[i]) is Ok by {
                assert(v[i].0 == s[i].id);
            }
        }
    }
}

/// What a change is hashed by holds its kind, its actor, its scope, its payload and where it comes from.
pub proof fn digests_cover_the_whole_change(d: DeltaModel)
    ensures
        tree_get(envelope(d), "kind"@) == Some(JsonModel::Text(d.kind)),
        tree_get(envelope(d), "actor"@) == Some(JsonModel::Text(d.actor)),
        tree_get(envelope(d), "payload"@) == Some(d.payload),
        tree_get(envelope(d), "provenance"@) == Some(provenance_tree(d.provenance)),
        d.scope matches Some(s) ==> tree_get(envelope(d), "scope"@) == Some(JsonModel::Text(s)),
        d.scope is None ==> tree_get(envelope(d), "scope"@) == Some(JsonModel::Text("user"@)),
{
    reveal_strlit("kind");
    reveal_strlit("actor");
    reveal_strlit("scope");
    reveal_strlit("payload");
    reveal_strlit("provenance");
    assert("kind"@[0] == 'k' && "actor"@[0] == 'a' && "scope"@[0] == 's' && "payload"@[1] == 'a'
        && "provenance"@[1] == 'r' && "payload"@[0] == 'p' && "provenance"@[0] == 'p');
    let m0 = MapModel::empty();
    let m1 = map_insert(m0, "kind"@, JsonModel::Text(d.kind));
    let m2 = map_insert(m1, "actor"@, JsonModel::Text(d.actor));
    let m3 = map_insert(m2, "scope"@, JsonModel::Text(scope_of(d)));
    let m4 = map_insert(m3, "payload"@, d.payload);
    let m5 = map_insert(m4, "provenance"@, provenance_tree(d.provenance));
    insert_then_get(m0, "kind"@, JsonModel::Text(d.kind), "kind"@);
    insert_then_get(m0, "kind"@, JsonModel::Text(d.kind), "actor"@);
    insert_then_get(m0, "kind"@, JsonModel::Text(d.kind), "scope"@);
    insert_then_get(m0, "kind"@, JsonModel::Text(d.kind), "payload"@);
    insert_then_get(m0, "kind"@, JsonModel::Text(d.kind), "provenance"@);
    insert_then_get(m1, "actor"@, JsonModel::Text(d.actor), "kind"@);
    insert_then_get(m1, "actor"@, JsonModel::Text(d.actor), "actor"@);
    insert_then_get(m1, "actor"@, JsonModel::Text(d.actor), "scope"@);
    insert_then_get(m1, "actor"@, JsonModel::Text(d.actor), "payload"@);
    insert_then_get(m1, "actor"@, JsonModel::Text(d.actor), "provenance"@);
    insert_then_get(m2, "scope"@, JsonModel::Text(scope_of(d)), "kind"@);
    insert_then_get(m2, "scope"@, JsonModel::Text(scope_of(d)), "actor"@);
    insert_then_get(m2, "scope"@, JsonModel::Text(scope_of(d)), "scope"@);
    insert_then_get(m2, "scope"@, JsonModel::Text(scope_of(d)), "payload"@);
    insert_then_get(m2, "scope"@, JsonModel::Text(scope_of(d)), "provenance"@);
    insert_then_get(m3, "payload"@, d.payload, "kind"@);
    insert_then_get(m3, "payload"@, d.payload, "actor"@);
    insert_then_get(m3, "payload"@, d.payload, "scope"@);
    insert_then_get(m3, "payload"@, d.payload, "payload"@);
    insert_then_get(m3, "payload"@, d.payload, "provenance"@);
    insert_then_get(m4, "provenance"@, provenance_tree(d.provenance), "kind"@);
    insert_then_get(m4, "provenance"@, provenance_tree(d.provenance), "actor"@);
    insert_then_get(m4, "provenance"@, provenance_tree(d.provenance), "scope"@);
    insert_then_get(m4, "provenance"@, provenance_tree(d.provenance), "payload"@);
    insert_then_get(m4, "provenance"@, provenance_tree(d.provenance), "provenance"@);
}

/// Where a change comes from is told by its run, its opening and its agent, and by why it was made.
pub proof fn provenances_tell_everything(p: ProvenanceModel)
    ensures
        tree_get(provenance_tree(p), "trace_id"@) == Some(JsonModel::Text(p.trace_id)),
        tree_get(provenance_tree(p), "opening_id"@) == Some(JsonModel::Text(p.opening_id)),
        tree_get(provenance_tree(p), "agent_id"@) == Some(JsonModel::Text(p.agent_id)),
        p.rationale matches Some(t) ==> tree_get(provenance_tree(p), "rationale"@) == Some(
            JsonModel::Text(t),
        ),
        p.rationale is None ==> tree_get(provenance_tree(p), "rationale"@) is None,
        p.inputs_hash matches Some(t) ==> tree_get(provenance_tree(p), "inputs_hash"@) == Some(
            JsonModel::Text(t),
        ),
        p.inputs_hash is None ==> tree_get(provenance_tree(p), "inputs_hash"@) is None,
{
    reveal_strlit("trace_id");
    reveal_strlit("opening_id");
    reveal_strlit("agent_id");
    reveal_strlit("inputs_hash");
    reveal_strlit("rationale");
    assert("trace_id"@[0] == 't' && "opening_id"@[0] == 'o' && "agent_id"@[0] == 'a' && "inputs_hash"@[0]
        == 'i' && "rationale"@[0] == 'r');
    let m0 = MapModel::empty();
    let m1 = map_insert(m0, "trace_id"@, JsonModel::Text(p.trace_id));
    let m2 = map_insert(m1, "opening_id"@, JsonModel::Text(p.opening_id));
    let m3 = map_insert(m2, "agent_id"@, JsonModel::Text(p.agent_id));
    insert_then_get(m0, "trace_id"@, JsonModel::Text(p.trace_id), "trace_id"@);
    insert_then_get(m0, "trace_id"@, JsonModel::Text(p.trace_id), "opening_id"@);
    insert_then_get(m0, "trace_id"@, JsonModel::Text(p.trace_id), "agent_id"@);
    insert_then_get(m0, "trace_id"@, JsonModel::Text(p.trace_id), "inputs_hash"@);
    insert_then_get(m0, "trace_id"@, JsonModel::Text(p.trace_id), "rationale"@);
    insert_then_get(m1, "opening_id"@, JsonModel::Text(p.opening_id), "trace_id"@);
    insert_then_get(m1, "opening_id"@, JsonModel::Text(p.opening_id), "opening_id"@);
    insert_then_get(m1, "opening_id"@, JsonModel::Text(p.opening_id), "agent_id"@);
    insert_then_get(m1, "opening_id"@, JsonModel::Text(p.opening_id), "inputs_hash"@);
    insert_then_get(m1, "opening_id"@, JsonModel::Text(p.opening_id), "rationale"@);
    insert_then_get(m2, "agent_id"@, JsonModel::Text(p.agent_id), "trace_id"@);
    insert_then_get(m2, "agent_id"@, JsonModel::Text(p.agent_id), "opening_id"@);
    insert_then_get(m2, "agent_id"@, JsonModel::Text(p.agent_id), "agent_id"@);
    insert_then_get(m2, "agent_id"@, JsonModel::Text(p.agent_id), "inputs_hash"@);
    insert_then_get(m2, "agent_id"@, JsonModel::Text(p.agent_id), "rationale"@);
    let m4 = match p.inputs_hash {
        Some(t) => map_insert(m3, "inputs_hash"@, JsonModel::Text(t)),
        None => m3,
    };
    if let Some(t) = p.inputs_hash {
        insert_then_get(m3, "inputs_hash"@, JsonModel::Text(t), "trace_id"@);
        insert_then_get(m3, "inputs_hash"@, JsonModel::Text(t), "opening_id"@);
        insert_then_get(m3, "inputs_hash"@, JsonModel::Text(t), "agent_id"@);
        insert_then_get(m3, "inputs_hash"@, JsonModel::Text(t), "inputs_hash"@);
        insert_then_get(m3, "inputs_hash"@, JsonModel::Text(t), "rationale"@);
    }
    if let Some(t) = p.rationale {
        insert_then_get(m4, "rationale"@, JsonModel::Text(t), "trace_id"@);
        insert_then_get(m4, "rationale"@, JsonModel::Text(t), "opening_id"@);
        insert_then_get(m4, "rationale"@, JsonModel::Text(t), "agent_id"@);
        insert_then_get(m4, "rationale"@, JsonModel::Text(t), "inputs_hash"@);
        insert_then_get(m4, "rationale"@, JsonModel::Text(t), "rationale"@);
    }
}

/// A row keeps the payload and the provenance of its change, in their usual form, and the digest of the
/// whole change.
pub proof fn rows_keep_the_whole_change(d: DeltaModel, ts_ms: u64)
    requires
        row_of(d, ts_ms) is Ok,
    ensures
        ({
            let row = row_of(d, ts_ms)->Ok_0;
            &&& row.ts_ms == ts_ms
            &&& row.actor == d.actor
            &&& row.kind == d.kind
            &&& canonical_text(d.payload) == Ok::<Seq<char>, KbFault>(row.payload_json)
            &&& canonical_text(provenance_tree(d.provenance)) == Ok::<Seq<char>, KbFault>(row.provenance_json)
            &&& canonical_text(envelope(d)) matches Ok(whole) && row.hash == blake3_digest(utf8(whole))
        }),
{
}

/// A change may be made in the scope of the user, of the system or of an agent, and in no other.
pub proof fn scopes_are_three(s: Seq<char>)
    ensures
        is_scope("user"@),
        is_scope("system"@),
        is_scope("agent:"@ + s),
        is_scope(s) ==> s == "user"@ || s == "system"@ || has_prefix(s, "agent:"@),
{
    let a = "agent:"@;
    assert((a + s).take(a.len() as int) =~= a);
}

/// The first event that is cited and is not there is told of; nothing is told where all are there.
pub proof fn the_first_missing_event_is_told(cited: Seq<i64>, there: Seq<bool>, i: int)
    requires
        cited.len() == there.len(),
    ensures
        0 <= i < there.len() && !there[i] && (forall|j: int| 0 <= j < i ==> #[trigger] there[j])
            ==> first_missing(cited, there) == Some(cited[i]),
        (forall|j: int| 0 <= j < there.len() ==> #[trigger] there[j]) ==> first_missing(cited, there) is None,
    decreases cited.len(),
{
    if cited.len() > 0 {
        let rest = there.skip(1);
        the_first_missing_event_is_told(cited.skip(1), rest, i - 1);
        if 0 <= i < there.len() && !there[i] && (forall|j: int| 0 <= j < i ==> #[trigger] there[j]) {
            if i > 0 {
                assert(there[0]);
                assert forall|j: int| 0 <= j < i - 1 implies #[trigger] rest[j] by {
                    assert(there[j + 1]);
                }
                assert(rest[i - 1] == there[i]);
            }
        }
        if forall|j: int| 0 <= j < there.len() ==> #[trigger] there[j] {
            assert(there[0]);
            assert forall|j: int| 0 <= j < rest.len() implies #[trigger] rest[j] by {
                assert(there[j + 1]);
            }
        }
    }
}

/// Every number in the list of evidence is a cited event, in the order of the list.
pub proof fn numbers_are_cited(items: Seq<JsonModel>, n: u64)
    requires
        n <= i64::MAX,
    ensures
        cited(items.push(JsonModel::Number(NumeralModel::Unsigned(n)))) == cited(items).push(n as i64),
        forall|t: Seq<char>| cited(#[trigger] items.push(JsonModel::Text(t))) == cited(items),
        cited(Seq::<JsonModel>::empty()).len() == 0,
{
    let all = items.push(JsonModel::Number(NumeralModel::Unsigned(n)));
    assert(all.drop_last() =~= items);
    assert forall|t: Seq<char>| cited(#[trigger] items.push(JsonModel::Text(t))) == cited(items) by {
        assert(items.push(JsonModel::Text(t)).drop_last() =~= items);
    }
}

/// A payload of a kind without a schema is refused, unless the kind tells what a run did; one with a
/// schema is taken if and only if the schema finds nothing wrong with it.
pub proof fn payloads_are_held_against_their_schema(
    kind: Seq<char>,
    schema: Option<JsonModel>,
    payload: JsonModel,
    complaint: Seq<char>,
)
    requires
        as_value(payload) is Some,
    ensures
        schema is None && kind != "node.finished"@ && kind != "run.trace"@ ==> payload_fault(
            kind,
            schema,
            payload,
            complaint,
        ) == Some(KbFault::UnknownSchema(kind)),
        schema matches Some(s) ==> (payload_fault(kind, schema, payload, complaint) is None <==> (
        schema_outcome(s, as_value(payload)->0) matches Some(v) && v.len() == 0)),
{
    assert(trace_kinds()[0] == "node.finished"@);
    assert(trace_kinds()[1] == "run.trace"@);
    if trace_kinds().contains(kind) {
        let i = choose|i: int| 0 <= i < trace_kinds().len() && trace_kinds()[i] == kind;
        assert(i == 0 || i == 1);
    }
}

} // verus!
