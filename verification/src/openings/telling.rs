//! What is told of a run while it goes on, and what its readers understand.

use crate::agents::AgentRefModel;
use crate::json::{insert_then_get, map_get, ordered, JsonModel, MapModel};
use crate::openings::model::{agents_used, Fault, FragmentModel, KindModel, NodeModel};
use crate::openings::parser::{
    agent_of, count_field, flag_field, json_fields, small_field, string_field, string_items,
    string_list,
};
use crate::openings::records::{AttemptModel, EventModel, RecordModel, StateModel};
use crate::openings::runner::{
    end_events, noted, run_bytes, settle_events, start_events, ActiveModel, Next, OutcomeModel, RunModel,
};
use crate::openings::values::{outputs_digest, ports_bytes, values_bytes, PortsModel};
use crate::text::{all_name_chars, split_once, trim};
use crate::yaml::{
    yaml_bool, yaml_entries, yaml_get, yaml_items, yaml_small, yaml_text, yaml_unsigned, EntryModels,
    ShapeModel, YamlModel,
};
use crate::openings::nodes::{
    dodges_confirmation, hint_of, hints_of, looks_like_schema, tags_of, within_unit,
};
use crate::digest::utf8;
use vstd::prelude::*;

verus! {

/// Whether a list of events tells the state of a node.
pub open spec fn tells_state(s: Seq<EventModel>, id: Seq<char>, state: StateModel, attempt: int) -> bool {
    exists|i: int| 0 <= i < s.len() && #[trigger] s[i] == (EventModel::State { id, state, attempt })
}

/// An attempt that begins is told as running, under its number.
pub proof fn beginnings_are_told(id: Seq<char>, attempt: int)
    ensures
        tells_state(start_events(id, attempt), id, StateModel::Running, attempt),
        forall|i: int|
            0 <= i < start_events(id, attempt).len() && (#[trigger] start_events(id, attempt)[i]) is State
                ==> start_events(id, attempt)[i] == (EventModel::State {
                id,
                state: StateModel::Running,
                attempt,
            }),
{
    assert(start_events(id, attempt)[0] == (EventModel::State { id, state: StateModel::Running, attempt }));
}

/// An attempt that ends is told as what it was: a node that succeeded as such, one that failed for good
/// with the reason, and one that is tried again with a warning only.
pub proof fn ends_are_told(id: Seq<char>, attempt: int, o: OutcomeModel, next: Next, ms: u64)
    ensures
        o is Completed ==> tells_state(
            end_events(id, attempt, o, next, ms),
            id,
            StateModel::Succeeded,
            attempt,
        ),
        o matches OutcomeModel::Error(m) ==> tells_state(
            end_events(id, attempt, o, next, ms),
            id,
            StateModel::Failed(m),
            attempt,
        ),
        o matches OutcomeModel::Failed { retryable, reason } ==> next is RunFailed ==> tells_state(
            end_events(id, attempt, o, next, ms),
            id,
            StateModel::Failed(reason),
            attempt,
        ),
        o is TimedOut && next is RunFailed ==> exists|i: int|
            0 <= i < end_events(id, attempt, o, next, ms).len() && (#[trigger] end_events(
                id,
                attempt,
                o,
                next,
                ms,
            )[i]) is State,
        (o is Failed || o is TimedOut) && !(next is RunFailed) ==> forall|i: int|
            0 <= i < end_events(id, attempt, o, next, ms).len() ==> (#[trigger] end_events(
                id,
                attempt,
                o,
                next,
                ms,
            )[i]) is Log,
{
    let e = end_events(id, attempt, o, next, ms);
    match o {
        OutcomeModel::Completed(_) => {
            assert(e[0] == (EventModel::State { id, state: StateModel::Succeeded, attempt }));
        },
        OutcomeModel::Error(m) => {
            assert(e[1] == (EventModel::State { id, state: StateModel::Failed(m), attempt }));
        },
        OutcomeModel::Failed { retryable, reason } => {
            if next is RunFailed {
                assert(e[1] == (EventModel::State { id, state: StateModel::Failed(reason), attempt }));
            }
        },
        OutcomeModel::TimedOut => {
            if next is RunFailed {
                assert(e[1] is State);
            }
        },
    }
}

/// At the end every node that neither succeeded nor failed is told as passed over, and no other is.
pub proof fn the_rest_are_told_as_passed_over(s: Seq<RecordModel>, r: RecordModel)
    ensures
        r.state is Succeeded || r.state is Failed ==> settle_events(s.push(r)) == settle_events(s),
        !(r.state is Succeeded) && !(r.state is Failed) ==> settle_events(s.push(r)) == settle_events(s).push(
            EventModel::State { id: r.id, state: StateModel::Skipped, attempt: 0 },
        ),
        settle_events(Seq::<RecordModel>::empty()).len() == 0,
{
    assert(s.push(r).drop_last() =~= s);
}

/// An attempt is noted with its number, its times, what it got and what it gave, behind the earlier
/// ones; the records of other nodes stay.
pub proof fn attempts_are_noted(
    r: RunModel,
    a: ActiveModel,
    t0: u64,
    t1: u64,
    out: Option<PortsModel>,
    err: Option<Seq<char>>,
)
    requires
        r.current == Some(a),
        0 <= a.node < r.records.len(),
    ensures
        ({
            let s = noted(r, t0, t1, out, err);
            let q = s.records[a.node].attempts;
            &&& q.drop_last() == r.records[a.node].attempts
            &&& q.last().attempt == a.attempt
            &&& q.last().inputs == a.inputs
            &&& q.last().output == out
            &&& q.last().error == err
            &&& q.last().started_at == t0
            &&& q.last().finished_at == t1
            &&& s.records[a.node].id == r.records[a.node].id
            &&& s.records[a.node].state == r.records[a.node].state
            &&& s.current == r.current
            &&& s.outputs == r.outputs
            &&& forall|v: int|
                0 <= v < r.records.len() && v != a.node ==> #[trigger] s.records[v] == r.records[v]
        }),
{
    let s = noted(r, t0, t1, out, err);
    assert(s.records[a.node].attempts.drop_last() =~= r.records[a.node].attempts);
}

/// The digest of a run covers what every node gave last, and every last error, in the order of the
/// nodes.
pub proof fn digests_cover_every_node(s: Seq<RecordModel>, r: RecordModel, a: AttemptModel)
    requires
        r.attempts.len() > 0,
        r.attempts.last() == a,
    ensures
        a.output is Some && a.error is None ==> run_bytes(s.push(r)) == run_bytes(s) + outputs_digest(
            a.output->0,
        ),
        a.output is None && a.error is Some ==> run_bytes(s.push(r)) == run_bytes(s) + crate::digest::utf8(
            a.error->0,
        ),
{
    assert(s.push(r).drop_last() =~= s);
    if a.output is Some && a.error is None {
        assert(outputs_digest(a.output->0) + Seq::<u8>::empty() =~= outputs_digest(a.output->0));
    }
    if a.output is None && a.error is Some {
        assert(Seq::<u8>::empty() + crate::digest::utf8(a.error->0) =~= crate::digest::utf8(a.error->0));
    }
}

/// A value is found under its key, the first where it stands twice.
pub proof fn entries_are_found_by_key(m: EntryModels, key: Seq<char>)
    ensures
        yaml_get(m, key) matches Some(v) ==> exists|i: int|
            0 <= i < m.len() && (#[trigger] m[i]).0.shape == ShapeModel::Text(key) && m[i].1 == v && forall|
                k: int,
            |
                0 <= k < i ==> (#[trigger] m[k]).0.shape != ShapeModel::Text(key),
        yaml_get(m, key) is None <==> forall|k: int|
            0 <= k < m.len() ==> (#[trigger] m[k]).0.shape != ShapeModel::Text(key),
    decreases m.len(),
{
    if m.len() > 0 {
        let rest = m.skip(1);
        entries_are_found_by_key(rest, key);
        if m[0].0.shape == ShapeModel::Text(key) {
            assert(m[0].1 == yaml_get(m, key)->0);
        } else if yaml_get(rest, key) is Some {
            let v = yaml_get(rest, key)->0;
            let i = choose|i: int|
                0 <= i < rest.len() && (#[trigger] rest[i]).0.shape == ShapeModel::Text(key) && rest[i].1 == v
                    && forall|k: int| 0 <= k < i ==> (#[trigger] rest[k]).0.shape != ShapeModel::Text(key);
            assert(m[i + 1] == rest[i]);
            assert forall|k: int| 0 <= k < i + 1 implies (#[trigger] m[k]).0.shape != ShapeModel::Text(key) by {
                if k > 0 {
                    assert(m[k] == rest[k - 1]);
                }
            }
        } else {
            assert forall|k: int| 0 <= k < m.len() implies (#[trigger] m[k]).0.shape != ShapeModel::Text(
                key,
            ) by {
                if k > 0 {
                    assert(m[k] == rest[k - 1]);
                }
            }
        }
    }
}

/// A field that may be missing is nothing where it is, and refused where it is of another kind; a text
/// that is needed must be there and be one.
pub proof fn fields_are_read_by_kind(m: EntryModels, key: Seq<char>, why: Seq<char>, at: (int, int), src: Seq<char>)
    ensures
        yaml_get(m, key) is None ==> small_field(m, key, why, at) == Ok::<Option<u32>, Fault>(None)
            && count_field(m, key, why, at) == Ok::<Option<u64>, Fault>(None) && flag_field(m, key, why, at)
            == Ok::<Option<bool>, Fault>(None) && string_field(m, key, src) is Err,
        yaml_get(m, key) matches Some(v) ==> (v.shape matches ShapeModel::Bool(b) ==> flag_field(
            m,
            key,
            why,
            at,
        ) == Ok::<Option<bool>, Fault>(Some(b)) && count_field(m, key, why, at) is Err),
        yaml_get(m, key) matches Some(v) ==> (v.shape matches ShapeModel::Text(t) ==> string_field(m, key, src)
            == Ok::<Seq<char>, Fault>(t) && flag_field(m, key, why, at) is Err && small_field(m, key, why, at)
            is Err),
        string_field(m, key, src) is Ok ==> yaml_get(m, key) is Some && yaml_text(yaml_get(m, key)->0) == Some(
            string_field(m, key, src)->Ok_0,
        ),
{
}

/// A list of texts is read item by item, and refused where one of them is no text.
pub proof fn lists_are_read_item_by_item(
    items: Seq<YamlModel>,
    n: int,
    why: spec_fn(int) -> Seq<char>,
    at: (int, int),
)
    requires
        0 <= n <= items.len(),
    ensures
        string_items(items, n, why, at) is Ok <==> forall|i: int|
            0 <= i < n ==> yaml_text(#[trigger] items[i]) is Some,
        string_items(items, n, why, at) matches Ok(l) ==> l.len() == n && forall|i: int|
            0 <= i < n ==> yaml_text(items[i]) == Some(#[trigger] l[i]),
    decreases n,
{
    if n > 0 {
        lists_are_read_item_by_item(items, n - 1, why, at);
        if string_items(items, n, why, at) is Ok {
            let before = string_items(items, n - 1, why, at)->Ok_0;
            let all = string_items(items, n, why, at)->Ok_0;
            assert forall|i: int| 0 <= i < n implies yaml_text(items[i]) == Some(#[trigger] all[i]) by {
                if i < n - 1 {
                    assert(all[i] == before[i]);
                }
            }
            assert forall|i: int| 0 <= i < n implies yaml_text(#[trigger] items[i]) is Some by {
                assert(yaml_text(items[i]) == Some(all[i]));
            }
        }
    }
}

/// A list that is not there is empty, and what is no list is refused.
pub proof fn missing_lists_are_empty(m: EntryModels, key: Seq<char>, src: Seq<char>)
    ensures
        yaml_get(m, key) is None ==> string_list(m, key, src) == Ok::<Seq<Seq<char>>, Fault>(seq![]),
        yaml_get(m, key) matches Some(v) ==> yaml_items(v) is None ==> string_list(m, key, src) is Err,
{
}

/// Parameters are kept under their names, the last where a name stands twice; one that cannot be held is
/// refused.
pub proof fn parameters_are_kept(m: EntryModels, n: int, at: (int, int), other: Seq<char>)
    requires
        0 <= n < m.len(),
        json_fields(m, n, at) is Ok,
        ordered(json_fields(m, n, at)->Ok_0),
    ensures
        yaml_text(m[n].0) is None ==> json_fields(m, n + 1, at) is Err,
        m[n].1.json is Err ==> json_fields(m, n + 1, at) is Err,
        yaml_text(m[n].0) is Some && m[n].1.json is Ok ==> {
            let k = yaml_text(m[n].0)->0;
            &&& json_fields(m, n + 1, at) is Ok
            &&& ordered(json_fields(m, n + 1, at)->Ok_0)
            &&& map_get(json_fields(m, n + 1, at)->Ok_0, k) == Some(m[n].1.json->Ok_0)
            &&& other != k ==> map_get(json_fields(m, n + 1, at)->Ok_0, other) == map_get(
                json_fields(m, n, at)->Ok_0,
                other,
            )
        },
{
    if yaml_text(m[n].0) is Some && m[n].1.json is Ok {
        insert_then_get(json_fields(m, n, at)->Ok_0, yaml_text(m[n].0)->0, m[n].1.json->Ok_0, other);
    }
}

/// An agent is named by a name, and a variant behind an at sign; either must be well formed.
pub proof fn agents_are_named(raw: Seq<char>, src: Seq<char>, at: (int, int))
    ensures
        agent_of(raw, src, at) matches Ok(r) ==> r.name.len() > 0 && all_name_chars(r.name) && (r.variant
            matches Some(v) ==> v.len() > 0 && all_name_chars(v)),
        split_once(trim(raw), '@') is None && trim(raw).len() > 0 && all_name_chars(trim(raw)) ==> agent_of(
            raw,
            src,
            at,
        ) == Ok::<AgentRefModel, Fault>(AgentRefModel { name: trim(raw), variant: None }),
        split_once(trim(raw), '@') matches Some((a, b)) ==> (agent_of(raw, src, at) matches Ok(r) ==> r.name
            == trim(a) && r.variant == Some(trim(b))),
        trim(raw).len() == 0 ==> agent_of(raw, src, at) is Err,
{
}

/// Each agent that an opening uses is named once, in the order in which it is first used; openings are
/// not agents.
pub proof fn agents_are_named_once(nodes: Seq<NodeModel>, n: NodeModel)
    ensures
        n.kind matches KindModel::Agent(r) ==> agents_used(nodes.push(n)).contains(r),
        n.kind matches KindModel::Agent(r) ==> (agents_used(nodes).contains(r) ==> agents_used(nodes.push(n))
            == agents_used(nodes)),
        n.kind matches KindModel::Agent(r) ==> (!agents_used(nodes).contains(r) ==> agents_used(nodes.push(n))
            == agents_used(nodes).push(r)),
        n.kind is Opening ==> agents_used(nodes.push(n)) == agents_used(nodes),
{
    assert(nodes.push(n).drop_last() =~= nodes);
    if let KindModel::Agent(r) = n.kind {
        if !agents_used(nodes).contains(r) {
            assert(agents_used(nodes).push(r)[agents_used(nodes).len() as int] == r);
        }
    }
}

/// Only a mailer that is told to send without asking dodges the confirmation.
pub proof fn only_mailers_dodge_the_confirmation(r: AgentRefModel, o: Seq<char>, with: MapModel)
    ensures
        dodges_confirmation(KindModel::Agent(r), with) <==> r.name == "mailer"@ && map_get(
            with,
            "require_human_confirm"@,
        ) == Some(JsonModel::Bool(false)),
        !dodges_confirmation(KindModel::Opening(o), with),
{
}

/// Hints are a schema as it is where they look like one, and properties otherwise; without any there is
/// none.
pub proof fn hints_are_schemas_or_properties(v: YamlModel, m: EntryModels, at: (int, int), src: Seq<char>)
    ensures
        hints_of(None, src) == Ok::<Option<FragmentModel>, Fault>(None),
        yaml_entries(v) == Some(m) && looks_like_schema(m) && v.json is Ok ==> hint_of(v, at) == Ok::<
            FragmentModel,
            Fault,
        >(FragmentModel::Raw(v.json->Ok_0)),
        yaml_entries(v) == Some(m) && !looks_like_schema(m) && hint_of(v, at) is Ok ==> hint_of(v, at)->Ok_0
            is Properties,
        v.json is Err && yaml_entries(v) is None ==> hint_of(v, at) is Err,
{
}

/// Tags are the texts that are listed, and none where nothing is said.
pub proof fn tags_are_those_listed(v: YamlModel, src: Seq<char>)
    ensures
        tags_of(None, src) == Ok::<Seq<Seq<char>>, Fault>(seq![]),
        yaml_items(v) is None ==> tags_of(Some(v), src) is Err,
        tags_of(Some(v), src) matches Ok(l) ==> yaml_items(v) is Some && l.len() == yaml_items(v)->0.len()
            && forall|i: int| 0 <= i < l.len() ==> yaml_text(yaml_items(v)->0[i]) == Some(#[trigger] l[i]),
{
    if yaml_items(v) is Some {
        lists_are_read_item_by_item(
            yaml_items(v)->0,
            yaml_items(v)->0.len() as int,
            crate::openings::nodes::tag_complaint(),
            crate::openings::locate::place_of_key(src, "tags"@),
        );
    }
}

/// Numbers are read where they are whole, not below nothing and small enough.
pub proof fn whole_numbers_are_read(y: YamlModel, n: u64, b: bool)
    ensures
        y.shape == ShapeModel::Unsigned(n) ==> yaml_unsigned(y) == Some(n),
        y.shape == ShapeModel::Unsigned(n) && n <= u32::MAX ==> yaml_small(y) == Some(n as u32),
        y.shape == ShapeModel::Unsigned(n) && n > u32::MAX ==> yaml_small(y) is None,
        y.shape == ShapeModel::Unsigned(n) ==> within_unit(y) == (n <= 1),
        y.shape == ShapeModel::Bool(b) ==> yaml_bool(y) == Some(b) && yaml_unsigned(y) is None && !within_unit(y),
        y.shape is Text ==> yaml_bool(y) is None && yaml_unsigned(y) is None && !within_unit(y),
{
}

/// The digest of outputs covers the name of every port and all that stands there.
pub proof fn digests_cover_every_port(m: PortsModel, p: (Seq<char>, Seq<JsonModel>))
    ensures
        ports_bytes(m.push(p)) == ports_bytes(m) + utf8(p.0) + values_bytes(p.1),
        ports_bytes(PortsModel::empty()).len() == 0,
{
    assert(m.push(p).drop_last() =~= m);
}

} // verus!
