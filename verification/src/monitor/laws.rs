//! What the monitor promises.

use crate::bus::message::Header;
use crate::content::{CT_ACTION_DECISION, CT_ACTION_REQUEST, CT_METRICS_SNAPSHOT, CT_RUN_EVENT};
use crate::json::{insert_then_get, map_insert, tree_get, JsonModel, MapModel, NumeralModel};
use crate::monitor::feeds::{feed_event, feed_topic, is_optional, socket_place, wanted_feeds, FeedModel};
use crate::monitor::keys::{
    cleared, decision_of, decision_tree, filter_key, handled, keyed, processed, resolved, AppModel, EventModel,
    Key,
};
use crate::monitor::panes::{
    filter_of, group_rows, level_tint, log_row, log_rows, metric_rows, node_cells, padded, passes, plan_rows,
    status_tint, system_metric, trace_line, trace_rows, Tint,
};
use crate::monitor::state::{
    fresh_node, group_after, is_log_kind, is_plan_kind, is_trace_kind, metric_text, metrics_seen, node_after,
    run_seen, said, texts_in, GroupModel, LogModel, NodeModel, Pane, SaidModel, StateModel, TraceModel,
};
use crate::shelf::{in_order, put_then_get, shelf_get};
use crate::text::{decimal, has_text};
use vstd::prelude::*;

verus! {

/// What an event says is read from it: its own time before that of its details, and the usual words
/// only where it has none.
pub proof fn events_say_what_is_written(p: JsonModel, now: u64, t: u64)
    ensures
        tree_get(p, "kind"@) matches Some(JsonModel::Text(k)) ==> said(p, now).kind == k,
        tree_get(p, "kind"@) is None ==> said(p, now).kind == "unknown"@,
        tree_get(p, "message"@) matches Some(JsonModel::Text(m)) ==> said(p, now).message == m,
        tree_get(p, "level"@) matches Some(JsonModel::Text(l)) ==> said(p, now).level == l,
        tree_get(p, "level"@) is None ==> said(p, now).level == "info"@,
        tree_get(p, "ts_ms"@) == Some(JsonModel::Number(NumeralModel::Unsigned(t))) ==> said(p, now).ts == t,
        tree_get(p, "ts_ms"@) is None && tree_get(p, "meta"@) is None ==> said(p, now).ts == now,
        tree_get(p, "meta"@) matches Some(d) ==> (tree_get(d, "node_id"@) matches Some(JsonModel::Text(n))
            ==> said(p, now).node == Some(n)),
        tree_get(p, "meta"@) matches Some(d) ==> tree_get(d, "node_id"@) is None ==> (tree_get(
            d,
            "node"@,
        ) matches Some(JsonModel::Text(n)) ==> said(p, now).node == Some(n)),
        tree_get(p, "meta"@) is None ==> said(p, now).node is None,
{
}

/// An event of a run shows where its kind belongs: in the log, at its node, or in the trace; what is of
/// an unknown kind is logged with it. The monitor notes when.
pub proof fn events_show_in_their_pane(s: StateModel, p: JsonModel, now: u64)
    requires
        in_order(s.plan),
    ensures
        ({
            let e = said(p, now);
            let t = run_seen(s, p, now);
            &&& t.last_updated == Some(e.ts)
            &&& t.metrics == s.metrics
            &&& e.kind == "log"@ || e.kind == "node.stdout"@ || e.kind == "node.stderr"@ ==> t.logs
                == s.logs.push(LogModel { ts: e.ts, level: e.level, msg: e.message, node: e.node }) && t.plan
                == s.plan && t.trace == s.trace
            &&& is_plan_kind(e.kind) && !is_log_kind(e.kind) ==> (e.node matches Some(id) ==> shelf_get(
                t.plan,
                id,
            ) is Some && t.logs == s.logs && t.trace == s.trace && forall|q: Seq<char>|
                q != id ==> #[trigger] shelf_get(t.plan, q) == shelf_get(s.plan, q))
            &&& is_plan_kind(e.kind) && !is_log_kind(e.kind) && e.node is None ==> t.plan == s.plan && t.logs
                == s.logs.push(LogModel { ts: e.ts, level: e.level, msg: e.message, node: None })
            &&& (e.kind == "trace"@ || e.kind == "trace.line"@) && !is_log_kind(e.kind) && !is_plan_kind(e.kind)
                ==> t.trace == s.trace.push(TraceModel { ts: e.ts, msg: e.message, kind: e.kind }) && t.logs
                == s.logs && t.plan == s.plan
            &&& !is_log_kind(e.kind) && !is_plan_kind(e.kind) && !is_trace_kind(e.kind) ==> t.logs
                == s.logs.push(
                LogModel { ts: e.ts, level: e.level, msg: e.kind + ": "@ + e.message, node: e.node },
            ) && t.plan == s.plan && t.trace == s.trace
        }),
{
    let e = said(p, now);
    if is_plan_kind(e.kind) && !is_log_kind(e.kind) && e.node is Some {
        let id = e.node->0;
        let before = match shelf_get(s.plan, id) {
            Some(n) => n,
            None => fresh_node(id),
        };
        put_then_get(s.plan, id, node_after(before, e), id);
        assert forall|q: Seq<char>| q != id implies #[trigger] shelf_get(run_seen(s, p, now).plan, q)
            == shelf_get(s.plan, q) by {
            put_then_get(s.plan, id, node_after(before, e), q);
        }
    }
}

/// A node shows what the latest event says of it, keeps what that does not mention, and counts its
/// failures.
pub proof fn nodes_show_the_latest(n: NodeModel, e: SaidModel, d: JsonModel, a: u64)
    requires
        e.meta == Some(d),
        a <= u32::MAX,
    ensures
        node_after(n, e).id == n.id,
        tree_get(d, "state"@) matches Some(JsonModel::Text(t)) ==> node_after(n, e).status == t,
        tree_get(d, "state"@) is None ==> node_after(n, e).status == e.kind,
        tree_get(d, "attempt"@) == Some(JsonModel::Number(NumeralModel::Unsigned(a))) ==> node_after(
            n,
            e,
        ).attempt == a,
        tree_get(d, "attempt"@) is None ==> node_after(n, e).attempt == n.attempt,
        tree_get(d, "duration_ms"@) == Some(JsonModel::Number(NumeralModel::Unsigned(a))) ==> node_after(
            n,
            e,
        ).duration == a,
        tree_get(d, "duration_ms"@) is None ==> node_after(n, e).duration == n.duration,
        has_text(e.message, "failed"@) && n.error_count < u32::MAX ==> node_after(n, e).error_count
            == n.error_count + 1,
        !has_text(e.message, "failed"@) ==> node_after(n, e).error_count == n.error_count,
        tree_get(d, "inputs"@) is None ==> node_after(n, e).inputs == n.inputs,
        tree_get(d, "outputs"@) is None ==> node_after(n, e).outputs == n.outputs,
        tree_get(d, "inputs"@) matches Some(JsonModel::Array(l)) ==> node_after(n, e).inputs == texts_in(l),
        tree_get(d, "outputs"@) matches Some(JsonModel::Array(l)) ==> node_after(n, e).outputs == texts_in(l),
{
    assert(a <= u32::MAX ==> (a % 0x1_0000_0000) as u32 == a) by (bit_vector);
}

/// Of a list, the texts are taken, in their order.
pub proof fn only_texts_are_taken(l: Seq<JsonModel>, j: JsonModel)
    ensures
        j matches JsonModel::Text(t) ==> texts_in(l.push(j)) == texts_in(l).push(t),
        !(j is Text) ==> texts_in(l.push(j)) == texts_in(l),
        texts_in(Seq::<JsonModel>::empty()).len() == 0,
{
    assert(l.push(j).drop_last() =~= l);
}

/// A node that is new has not been tried and has not failed.
pub proof fn new_nodes_are_untried(id: Seq<char>)
    ensures
        fresh_node(id).id == id,
        fresh_node(id).status == "pending"@,
        fresh_node(id).attempt == 0 && fresh_node(id).duration == 0 && fresh_node(id).error_count == 0,
        fresh_node(id).inputs.len() == 0 && fresh_node(id).outputs.len() == 0,
{
}

/// Metrics go to their source, or to the system where none is named, and to no other; the rest of what
/// is known stays.
pub proof fn metrics_go_to_their_source(
    s: StateModel,
    m: MapModel,
    source: Option<Seq<char>>,
    other: Seq<char>,
)
    requires
        in_order(s.metrics),
        shelf_get(s.metrics, scope_of(source)) matches Some(g) ==> in_order(g),
    ensures
        ({
            let t = metrics_seen(s, JsonModel::Object(m), source);
            &&& t.logs == s.logs && t.plan == s.plan && t.trace == s.trace && t.last_updated == s.last_updated
            &&& other != scope_of(source) ==> shelf_get(t.metrics, other) == shelf_get(s.metrics, other)
            &&& shelf_get(t.metrics, scope_of(source)) is Some
            &&& m.len() > 0 ==> shelf_get(shelf_get(t.metrics, scope_of(source))->0, m.last().0) == Some(
                metric_text(m.last().1),
            )
        }),
{
    let scope = scope_of(source);
    let before: GroupModel = match shelf_get(s.metrics, scope) {
        Some(g) => g,
        None => seq![],
    };
    let after = group_after(before, m, m.len());
    put_then_get(s.metrics, scope, after, other);
    if m.len() > 0 {
        lemma_group_in_order(before, m, (m.len() - 1) as nat);
        put_then_get(
            group_after(before, m, (m.len() - 1) as nat),
            m.last().0,
            metric_text(m.last().1),
            m.last().0,
        );
    }
}

/// Where metrics of a source are kept.
pub open spec fn scope_of(source: Option<Seq<char>>) -> Seq<char> {
    match source {
        Some(t) => t,
        None => "system"@,
    }
}

proof fn lemma_group_in_order(g: GroupModel, m: MapModel, n: nat)
    requires
        in_order(g),
    ensures
        in_order(group_after(g, m, n)),
    decreases n,
{
    if n > 0 {
        lemma_group_in_order(g, m, (n - 1) as nat);
        put_then_get(
            group_after(g, m, (n - 1) as nat),
            m[n - 1].0,
            metric_text(m[n - 1].1),
            m[n - 1].0,
        );
    }
}

/// A metric that is a text is shown as it is, and the system's metrics are found by their name.
pub proof fn metrics_are_shown(s: StateModel, g: GroupModel, t: Seq<char>, key: Seq<char>)
    ensures
        metric_text(JsonModel::Text(t)) == t,
        shelf_get(s.metrics, "system"@) == Some(g) && shelf_get(g, key) == Some(t) ==> system_metric(s, key)
            == t,
        shelf_get(s.metrics, "system"@) is None ==> system_metric(s, key) == "N/A"@,
{
}

/// The newest entry of the log stands first, where the filter lets it pass by its words or its level.
pub proof fn the_newest_entry_stands_first(s: Seq<LogModel>, l: LogModel, filter: Seq<char>)
    ensures
        passes(filter, l.msg) || passes(filter, l.level) ==> log_rows(s.push(l), filter).len() == log_rows(
            s,
            filter,
        ).len() + 1 && log_rows(s.push(l), filter)[0] == log_row(l) && log_rows(s.push(l), filter).skip(1)
            == log_rows(s, filter),
        !passes(filter, l.msg) && !passes(filter, l.level) ==> log_rows(s.push(l), filter) == log_rows(
            s,
            filter,
        ),
        log_rows(Seq::<LogModel>::empty(), filter).len() == 0,
{
    assert(s.push(l).drop_last() =~= s);
    if passes(filter, l.msg) || passes(filter, l.level) {
        assert(log_rows(s.push(l), filter).skip(1) =~= log_rows(s, filter));
    }
}

/// The newest step of the trace stands first, where the filter lets it pass by its words or its kind.
pub proof fn the_newest_step_stands_first(s: Seq<TraceModel>, t: TraceModel, filter: Seq<char>)
    ensures
        passes(filter, t.msg) || passes(filter, t.kind) ==> trace_rows(s.push(t), filter).len() == trace_rows(
            s,
            filter,
        ).len() + 1 && trace_rows(s.push(t), filter)[0] == trace_line(t) && trace_rows(
            s.push(t),
            filter,
        ).skip(1) == trace_rows(s, filter),
        !passes(filter, t.msg) && !passes(filter, t.kind) ==> trace_rows(s.push(t), filter) == trace_rows(
            s,
            filter,
        ),
        trace_line(t) == "["@ + decimal(t.ts as nat) + "] "@ + t.kind + ": "@ + t.msg,
{
    assert(s.push(t).drop_last() =~= s);
    if passes(filter, t.msg) || passes(filter, t.kind) {
        assert(trace_rows(s.push(t), filter).skip(1) =~= trace_rows(s, filter));
    }
}

/// Nodes stand in the order of their names, those that the filter lets pass.
pub proof fn nodes_stand_in_order(
    s: Seq<(Seq<char>, NodeModel)>,
    n: (Seq<char>, NodeModel),
    filter: Seq<char>,
)
    ensures
        passes(filter, n.1.id) ==> plan_rows(s.push(n), filter) == plan_rows(s, filter).push(
            (status_tint(n.1.status), node_cells(n.1)),
        ),
        !passes(filter, n.1.id) ==> plan_rows(s.push(n), filter) == plan_rows(s, filter),
        node_cells(n.1).len() == 7,
        node_cells(n.1)[0] == n.1.id,
        node_cells(n.1)[1] == n.1.status,
        node_cells(n.1)[2] == decimal(n.1.attempt as nat),
        node_cells(n.1)[3] == decimal(n.1.duration as nat) + "ms"@,
        node_cells(n.1)[4] == decimal(n.1.error_count as nat),
        node_cells(n.1)[5] == decimal(n.1.inputs.len()),
        node_cells(n.1)[6] == decimal(n.1.outputs.len()),
{
    assert(s.push(n).drop_last() =~= s);
}

/// Metrics stand behind the heading of their source; a source that passes the filter shows all of
/// them.
pub proof fn metrics_stand_below_their_source(
    s: Seq<(Seq<char>, GroupModel)>,
    e: (Seq<char>, GroupModel),
    m: (Seq<char>, Seq<char>),
    filter: Seq<char>,
)
    ensures
        passes(filter, e.0) ==> metric_rows(s.push(e), filter).len() == metric_rows(s, filter).len() + 1
            + group_rows(e.0, e.1, filter).len() && metric_rows(s.push(e), filter)[metric_rows(
            s,
            filter,
        ).len() as int].heading,
        passes(filter, e.0) || passes(filter, m.0) ==> group_rows(e.0, e.1.push(m), filter).len()
            == group_rows(e.0, e.1, filter).len() + 1 && group_rows(e.0, e.1.push(m), filter).last().name
            == m.0 && group_rows(e.0, e.1.push(m), filter).last().value == m.1 && !group_rows(
            e.0,
            e.1.push(m),
            filter,
        ).last().heading,
        !passes(filter, e.0) && !passes(filter, m.0) ==> group_rows(e.0, e.1.push(m), filter) == group_rows(
            e.0,
            e.1,
            filter,
        ),
{
    assert(s.push(e).drop_last() =~= s);
    assert(e.1.push(m).drop_last() =~= e.1);
}

/// Nothing is hidden without a filter, and a filter shows what holds its words.
pub proof fn filters_show_what_holds_them(filter: Seq<char>, text: Seq<char>)
    ensures
        passes(filter_of(None), text),
        passes(filter_of(Some(filter)), text) <==> filter.len() == 0 || has_text(text, filter),
{
    reveal_strlit("");
    assert(""@.len() == 0);
}

/// Errors are red, warnings yellow, news green; what has failed is red and what went well is green.
pub proof fn colours_tell_how_it_went(t: Seq<char>)
    ensures
        level_tint("ERROR"@) == Tint::Red,
        level_tint("WARN"@) == Tint::Yellow,
        level_tint("INFO"@) == Tint::Green,
        level_tint(t) == Tint::White <==> t != "ERROR"@ && t != "WARN"@ && t != "INFO"@,
        status_tint("ok"@) == Tint::Green && status_tint("succeeded"@) == Tint::Green,
        status_tint("error"@) == Tint::Red && status_tint("failed"@) == Tint::Red,
        status_tint("running"@) == Tint::Blue,
        status_tint("pending"@) == Tint::Gray,
        status_tint(t) == Tint::White <==> t != "ok"@ && t != "succeeded"@ && t != "error"@ && t != "failed"@
            && t != "running"@ && t != "pending"@,
{
    reveal_strlit("ERROR");
    reveal_strlit("WARN");
    reveal_strlit("INFO");
    reveal_strlit("ok");
    reveal_strlit("succeeded");
    reveal_strlit("error");
    reveal_strlit("failed");
    reveal_strlit("running");
    reveal_strlit("pending");
    assert("ERROR"@.len() == 5 && "WARN"@.len() == 4 && "INFO"@.len() == 4);
    assert("WARN"@[0] != "INFO"@[0]);
    assert("ok"@.len() == 2 && "succeeded"@.len() == 9 && "error"@.len() == 5 && "failed"@.len() == 6
        && "running"@.len() == 7 && "pending"@.len() == 7);
    assert("running"@[0] != "pending"@[0]);
}

/// A level is followed by spaces until it has five characters, and never cut.
pub proof fn levels_are_padded(s: Seq<char>)
    ensures
        padded(s).len() == if s.len() < 5 {
            5
        } else {
            s.len()
        },
        padded(s).take(s.len() as int) == s,
        forall|i: int| s.len() <= i < padded(s).len() ==> #[trigger] padded(s)[i] == ' ',
    decreases 5 - s.len(),
{
    if s.len() < 5 {
        levels_are_padded(s.push(' '));
        let p = padded(s);
        assert(p.take(s.len() as int) =~= p.take(s.len() as int + 1).drop_last());
        assert forall|i: int| s.len() <= i < p.len() implies #[trigger] p[i] == ' ' by {
            if i == s.len() {
                assert(p.take(s.len() as int + 1)[i] == ' ');
            }
        }
    } else {
        assert(padded(s).take(s.len() as int) =~= s);
    }
}

/// A request opens the question, a connection is noticed, an error is logged; nothing else changes.
pub proof fn events_change_what_they_are_about(a: AppModel, e: EventModel, now: u64)
    ensures
        e matches EventModel::ActionRequest(h, j) ==> processed(a, e, now).modal == Some((h, j)) && processed(
            a,
            e,
            now,
        ).state == a.state,
        e is BusConnected ==> processed(a, e, now).connected && processed(a, e, now).state == a.state,
        e matches EventModel::Error(m) ==> processed(a, e, now).state.logs == a.state.logs.push(
            LogModel { ts: now, level: "ERROR"@, msg: "App Error: "@ + m, node: None },
        ),
        e matches EventModel::Run(j) ==> processed(a, e, now).state == run_seen(a.state, j, now),
        e matches EventModel::Metrics(j, s) ==> processed(a, e, now).state == metrics_seen(a.state, j, s),
        processed(a, e, now).active_pane == a.active_pane && processed(a, e, now).filter == a.filter
            && processed(a, e, now).paused == a.paused && processed(a, e, now).should_quit == a.should_quit,
        !(e is ActionRequest) ==> processed(a, e, now).modal == a.modal,
        !(e is BusConnected) ==> processed(a, e, now).connected == a.connected,
        a.paused && !(e is BusConnected) ==> handled(a, e, now).state == a.state && handled(a, e, now).buffered
            == a.buffered.push(e),
        !a.paused ==> handled(a, e, now) == processed(a, e, now),
{
}

/// The decision names the request that it is about, and says yes or no.
pub proof fn decisions_name_their_request(h: Header, approved: bool, now: u64, id: u64)
    ensures
        ({
            let c = decision_of(h, approved, now, id);
            &&& c.topic == "action.decision"@
            &&& c.header.schema_id == CT_ACTION_DECISION
            &&& c.header.trace_id == h.trace_id
            &&& c.header.msg_id == id
            &&& c.header.created_at_ms == now
            &&& tree_get(c.decision, "approved"@) == Some(JsonModel::Bool(approved))
            &&& tree_get(c.decision, "proposal_id"@) == Some(JsonModel::Text(decimal(h.msg_id as nat)))
        }),
{
    reveal_strlit("approved");
    reveal_strlit("rationale");
    reveal_strlit("proposal_id");
    assert("approved"@.len() == 8 && "rationale"@.len() == 9 && "proposal_id"@.len() == 11);
    let r = JsonModel::Text(
        if approved {
            "User approved via TUI"@
        } else {
            "User rejected via TUI"@
        },
    );
    let p = JsonModel::Text(decimal(h.msg_id as nat));
    let a = map_insert(MapModel::empty(), "approved"@, JsonModel::Bool(approved));
    insert_then_get(MapModel::empty(), "approved"@, JsonModel::Bool(approved), "approved"@);
    insert_then_get(a, "rationale"@, r, "approved"@);
    let b = map_insert(a, "rationale"@, r);
    insert_then_get(b, "proposal_id"@, p, "approved"@);
    assert(decision_tree(approved, h.msg_id) == JsonModel::Object(map_insert(b, "proposal_id"@, p)));
}

/// Enter agrees and escape refuses, while a question is open and no filter is typed; no other key
/// answers, and without a way to publish nothing is.
pub proof fn keys_answer_the_question(a: AppModel, q: (Header, JsonModel), key: Key, now: u64, id: u64)
    requires
        a.filter is None,
        a.modal == Some(q),
    ensures
        key is Enter && a.publishes ==> keyed(a, key, now, id).1 == Some(decision_of(q.0, true, now, id)),
        key is Esc && a.publishes ==> keyed(a, key, now, id).1 == Some(decision_of(q.0, false, now, id)),
        key is Enter || key is Esc ==> keyed(a, key, now, id).0.modal is None,
        !(key is Enter) && !(key is Esc) ==> keyed(a, key, now, id).1 is None && keyed(a, key, now, id).0 == a,
        !a.publishes ==> keyed(a, key, now, id).1 is None,
        resolved(a, true, now, id).0.modal is None,
{
}

/// What is typed into the filter is added to it and taken from its end; enter and escape close it.
pub proof fn filters_are_typed(f: Seq<char>, c: char, ctrl: bool, a: AppModel, key: Key, now: u64, id: u64)
    ensures
        filter_key(f, Key::Char(c, ctrl)) == Some(f.push(c)),
        filter_key(f.push(c), Key::Backspace) == Some(f),
        filter_key(f, Key::Enter) is None,
        filter_key(f, Key::Esc) is None,
        a.filter is Some ==> keyed(a, key, now, id).1 is None && keyed(a, key, now, id).0.modal == a.modal
            && keyed(a, key, now, id).0.should_quit == a.should_quit,
{
    assert(f.push(c).drop_last() =~= f);
}

/// The keys do what the help says, while no question is open and no filter is typed.
pub proof fn keys_do_what_they_say(a: AppModel, c: char, ctrl: bool, now: u64, id: u64)
    requires
        a.filter is None,
        a.modal is None,
    ensures
        keyed(a, Key::Char('q', ctrl), now, id).0.should_quit,
        keyed(a, Key::Char('c', true), now, id).0.should_quit,
        c != 'q' && !(c == 'c' && ctrl) && !a.should_quit && c != '.' ==> !keyed(
            a,
            Key::Char(c, ctrl),
            now,
            id,
        ).0.should_quit,
        keyed(a, Key::Char('?', ctrl), now, id).0.show_help == !a.show_help,
        keyed(a, Key::Char('/', ctrl), now, id).0.filter == Some(Seq::<char>::empty()),
        !a.paused ==> keyed(a, Key::Char('.', ctrl), now, id).0.paused,
        keyed(a, Key::Tab, now, id).0.active_pane == a.active_pane.following(),
        keyed(a, Key::BackTab, now, id).0.active_pane == a.active_pane.preceding(),
        keyed(a, Key::Char('!', ctrl), now, id).0.state == cleared(a.state, a.active_pane),
{
}

/// Clearing empties the pane that is shown, and no other; the plan stays.
pub proof fn only_the_pane_is_cleared(s: StateModel, p: Pane)
    ensures
        p == Pane::Log ==> cleared(s, p).logs.len() == 0,
        p != Pane::Log ==> cleared(s, p).logs == s.logs,
        p == Pane::Trace ==> cleared(s, p).trace.len() == 0,
        p != Pane::Trace ==> cleared(s, p).trace == s.trace,
        p == Pane::Metrics ==> cleared(s, p).metrics.len() == 0,
        p != Pane::Metrics ==> cleared(s, p).metrics == s.metrics,
        cleared(s, p).plan == s.plan,
{
}

/// The system's metrics, each agent's and the requests are listened to, and a run where one is watched;
/// only those of single agents can be done without.
pub proof fn feeds_are_asked_for(agents: Seq<Seq<char>>, trace: Option<Seq<char>>, t: Seq<char>)
    ensures
        wanted_feeds(agents, trace).contains(FeedModel::Metrics),
        wanted_feeds(agents, trace).contains(FeedModel::Actions),
        forall|i: int|
            0 <= i < agents.len() ==> wanted_feeds(agents, trace).contains(
                FeedModel::AgentMetrics(#[trigger] agents[i]),
            ),
        trace is Some ==> wanted_feeds(agents, trace).last() == FeedModel::Runs(trace->0),
        wanted_feeds(agents, None).len() == agents.len() + 2,
        feed_topic(FeedModel::Runs(t)) == "rlp/runs/"@ + t + "/events"@,
        feed_topic(FeedModel::AgentMetrics(t)) == "rlp/agents/"@ + t + "/metrics"@,
        feed_topic(FeedModel::Metrics) == "rlp/sys/metrics"@,
        feed_topic(FeedModel::Actions) == "action.request"@,
        is_optional(FeedModel::AgentMetrics(t)) && !is_optional(FeedModel::Metrics) && !is_optional(
            FeedModel::Actions,
        ) && !is_optional(FeedModel::Runs(t)),
{
    let w = wanted_feeds(agents, trace);
    assert(w[0] == FeedModel::Metrics);
    assert(w[agents.len() as int + 1] == FeedModel::Actions);
    assert forall|i: int| 0 <= i < agents.len() implies w.contains(
        FeedModel::AgentMetrics(#[trigger] agents[i]),
    ) by {
        assert(w[i + 1] == FeedModel::AgentMetrics(agents[i]));
    }
}

/// A message means what its feed carries, with its payload; one of another kind means nothing.
pub proof fn messages_mean_what_their_feed_carries(h: Header, j: JsonModel, t: Seq<char>)
    ensures
        h.schema_id == CT_METRICS_SNAPSHOT ==> feed_event(FeedModel::Metrics, h, Some(j)) == Some(
            EventModel::Metrics(j, None),
        ) && feed_event(FeedModel::AgentMetrics(t), h, Some(j)) == Some(EventModel::Metrics(j, Some(t))),
        h.schema_id == CT_ACTION_REQUEST ==> feed_event(FeedModel::Actions, h, Some(j)) == Some(
            EventModel::ActionRequest(h, j),
        ),
        h.schema_id == CT_RUN_EVENT ==> feed_event(FeedModel::Runs(t), h, Some(j)) == Some(EventModel::Run(j)),
        h.schema_id != CT_RUN_EVENT ==> feed_event(FeedModel::Runs(t), h, Some(j)) is None,
        h.schema_id != CT_ACTION_REQUEST ==> feed_event(FeedModel::Actions, h, Some(j)) is None,
        h.schema_id != CT_METRICS_SNAPSHOT ==> feed_event(FeedModel::Metrics, h, Some(j)) is None,
{
}

/// The bus is where one is told; else where the configuration says.
pub proof fn the_bus_is_where_one_is_told(p: Seq<char>, q: Seq<char>, dir: Seq<char>, c: Option<(Option<Seq<char>>, Seq<char>)>)
    ensures
        socket_place(Some(p), c) == p,
        socket_place(None, Some((Some(q), dir))) == q,
        socket_place(None, Some((None, dir))) == dir + "/rmp.sock"@,
{
}

} // verus!
