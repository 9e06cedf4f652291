//! What a run promises: whose values reach whom, who is tried again, who has a turn, how it ends.

use crate::digest::utf8;
use crate::json::JsonModel;
use crate::openings::graph::{lemma_waiting_none, lemma_waiting_some, waiting};
use crate::openings::model::{ComparisonOp, ExpressionModel, LiteralModel, OpeningModel};
use crate::openings::model::{PredicateModel, SuccessModel};
use crate::openings::nodes::ids;
use crate::openings::predicates::{bool_compares, cached, expression_holds, int_compares, outputs_of};
use crate::openings::predicates::{port_passes, text_compares, value_passes, verdict, verdict_row};
use crate::openings::records::{node_trace_of, NodeTraceModel, RecordModel, StateModel};
use crate::openings::replay::{judged, step_for, ExecutionModel, Step};
use crate::openings::runner::{after, all_settled, arcs_of, completed, earned, ends_well, fresh};
use crate::openings::runner::{handed_on, handed_on_upto, home, is_end, lemma_spots, line, node_timeout};
use crate::openings::runner::{noted, ports_fed, roots, run_inv, runnable, shape_inv};
use crate::openings::runner::{taken, with_state, Next, OutcomeModel, RunModel};
use crate::openings::values::{at_port, port_get};
use crate::openings::values::{outputs_digest, outputs_hex, pushed_lists_come_last, PortsModel};
use crate::text::{decimal, lemma_spot, spot, text_lt};
use vstd::prelude::*;

verus! {

/// Whether an edge lets pass what a node gave: it has no predicate, or a value at its port meets it.
pub open spec fn lets_pass(o: OpeningModel, k: int, out: PortsModel, table: Seq<Vec<bool>>) -> bool {
    match o.edges[k].predicate {
        None => true,
        Some(p) => port_passes(p, o.edges[k].from.port, out, verdict_row(table, k)),
    }
}

/// Whether an edge leads from one port of a node to another.
pub open spec fn joins(o: OpeningModel, k: int, u: int, v: int, port: Seq<char>) -> bool {
    o.edges[k].from.node == o.nodes[u].id && o.edges[k].to.node == o.nodes[v].id
        && o.edges[k].to.port == port
}

/// What the first `n` edges bring from one node to a port of another, in the order of the edges.
pub open spec fn brought(
    o: OpeningModel,
    u: int,
    v: int,
    port: Seq<char>,
    out: PortsModel,
    table: Seq<Vec<bool>>,
    n: int,
) -> Seq<JsonModel>
    decreases n,
{
    if n <= 0 {
        seq![]
    } else if joins(o, n - 1, u, v, port) && lets_pass(o, n - 1, out, table) {
        brought(o, u, v, port, out, table, n - 1) + at_port(out, o.edges[n - 1].from.port)
    } else {
        brought(o, u, v, port, out, table, n - 1)
    }
}

proof fn lemma_first_of_name(o: OpeningModel, v: int, name: Seq<char>)
    requires
        0 <= v < o.nodes.len(),
        home(o, v) == v,
    ensures
        spot(ids(o.nodes), name) == v <==> name == o.nodes[v].id,
{
    let names = ids(o.nodes);
    lemma_spot(names, name);
    assert(names[v] == o.nodes[v].id);
}

proof fn lemma_homes(o: OpeningModel, v: int)
    requires
        runnable(o),
        0 <= v < o.nodes.len(),
    ensures
        home(o, v) == v,
{
    let names = ids(o.nodes);
    lemma_spot(names, o.nodes[v].id);
    assert(names[v] == o.nodes[v].id);
    if home(o, v) < v {
        assert(names[home(o, v)] == names[v]);
    }
}

proof fn lemma_one_edge(
    o: OpeningModel,
    r: RunModel,
    k: int,
    u: int,
    v: int,
    port: Seq<char>,
    out: PortsModel,
    table: Seq<Vec<bool>>,
)
    requires
        shape_inv(o, r),
        0 <= k < o.edges.len(),
        0 <= u < o.nodes.len(),
        0 <= v < o.nodes.len(),
        home(o, u) == u,
        home(o, v) == v,
    ensures
        at_port(handed_on(o, r, k, u, out, table).buffers[v], port) == at_port(r.buffers[v], port) + if joins(
            o,
            k,
            u,
            v,
            port,
        ) && lets_pass(o, k, out, table) {
            at_port(out, o.edges[k].from.port)
        } else {
            seq![]
        },
{
    let e = o.edges[k];
    let s = handed_on(o, r, k, u, out, table);
    lemma_first_of_name(o, u, e.from.node);
    lemma_first_of_name(o, v, e.to.node);
    let (from, to) = arcs_of(o)[k];
    lemma_spots(o);
    assert(0 <= arcs_of(o)[k].1);
    assert(from == spot(ids(o.nodes), e.from.node) && to == spot(ids(o.nodes), e.to.node));
    assert(ports_fed(o, v, r.buffers[v]));
    assert(at_port(r.buffers[v], port) + seq![] =~= at_port(r.buffers[v], port));
    if from == u && to == v && port_get(out, e.from.port) is Some {
        pushed_lists_come_last(r.buffers[v], e.to.port, port_get(out, e.from.port)->0, port);
    }
    if from == u && to < o.nodes.len() && to != v {
        assert(s.buffers[v] == r.buffers[v]);
    }
}

proof fn lemma_edges(
    o: OpeningModel,
    r: RunModel,
    k: int,
    u: int,
    v: int,
    port: Seq<char>,
    out: PortsModel,
    table: Seq<Vec<bool>>,
)
    requires
        shape_inv(o, r),
        0 <= k <= o.edges.len(),
        0 <= u < o.nodes.len(),
        0 <= v < o.nodes.len(),
        home(o, u) == u,
        home(o, v) == v,
    ensures
        shape_inv(o, handed_on_upto(o, r, k, u, out, table)),
        at_port(handed_on_upto(o, r, k, u, out, table).buffers[v], port) == at_port(
            r.buffers[v],
            port,
        ) + brought(o, u, v, port, out, table, k),
        handed_on_upto(o, r, k, u, out, table).outputs == r.outputs,
        handed_on_upto(o, r, k, u, out, table).current == r.current,
        handed_on_upto(o, r, k, u, out, table).failed == r.failed,
    decreases k,
{
    if k > 0 {
        lemma_edges(o, r, k - 1, u, v, port, out, table);
        let s = handed_on_upto(o, r, k - 1, u, out, table);
        lemma_one_edge(o, s, k - 1, u, v, port, out, table);
        crate::openings::runner::lemma_handed_shape(o, s, k - 1, u, out, table);
        assert(at_port(handed_on_upto(o, r, k, u, out, table).buffers[v], port) =~= at_port(
            r.buffers[v],
            port,
        ) + brought(o, u, v, port, out, table, k));
    } else {
        assert(at_port(r.buffers[v], port) + brought(o, u, v, port, out, table, 0) =~= at_port(
            r.buffers[v],
            port,
        ));
    }
}

/// A node that completes hands on, to each port of each node, what the edges from it to that port
/// bring, behind what waits there; nothing else reaches a port.
pub proof fn nodes_get_what_edges_bring(
    o: OpeningModel,
    r: RunModel,
    out: PortsModel,
    started_at: u64,
    finished_at: u64,
    table: Seq<Vec<bool>>,
    v: int,
    port: Seq<char>,
)
    requires
        runnable(o),
        shape_inv(o, r),
        r.current is Some,
        0 <= v < o.nodes.len(),
    ensures
        at_port(
            after(o, r, OutcomeModel::Completed(out), started_at, finished_at, table).0.buffers[v],
            port,
        ) == at_port(r.buffers[v], port) + brought(
            o,
            r.current->0.node,
            v,
            port,
            out,
            table,
            o.edges.len() as int,
        ),
{
    let u = r.current->0.node;
    let n = noted(r, started_at, finished_at, Some(out), None);
    let s0 = with_state(n, u, StateModel::Succeeded);
    let s = RunModel { outputs: s0.outputs.push((u, out)), current: None, ..s0 };
    assert(shape_inv(o, s)) by {
        assert forall|w: int| 0 <= w < o.nodes.len() implies (#[trigger] s.records[w]).id
            == o.nodes[w].id by {
            assert(r.records[w].id == o.nodes[w].id);
        }
        assert forall|w: int| 0 <= w < o.nodes.len() implies ports_fed(o, w, #[trigger] s.buffers[w]) by {
            assert(ports_fed(o, w, r.buffers[w]));
        }
    }
    lemma_homes(o, u);
    lemma_homes(o, v);
    lemma_edges(o, s, o.edges.len() as int, u, v, port, out, table);
}

proof fn lemma_brought_holds(
    o: OpeningModel,
    u: int,
    v: int,
    port: Seq<char>,
    out: PortsModel,
    table: Seq<Vec<bool>>,
    n: int,
    k: int,
    i: int,
)
    requires
        0 <= k < n,
        joins(o, k, u, v, port),
        lets_pass(o, k, out, table),
        0 <= i < at_port(out, o.edges[k].from.port).len(),
    ensures
        brought(o, u, v, port, out, table, n).contains(at_port(out, o.edges[k].from.port)[i]),
    decreases n,
{
    let x = at_port(out, o.edges[k].from.port)[i];
    let before = brought(o, u, v, port, out, table, n - 1);
    let all = brought(o, u, v, port, out, table, n);
    if k == n - 1 {
        assert(all[before.len() + i] == x);
    } else {
        lemma_brought_holds(o, u, v, port, out, table, n - 1, k, i);
        let j = choose|j: int| 0 <= j < before.len() && before[j] == x;
        assert(all[j] == x);
    }
}

/// When a node completes, each value that it gave at the port where an edge starts waits at the
/// port where the edge ends, of the node where it ends, if the edge lets it pass.
pub proof fn edges_carry_values_to_their_ports(
    o: OpeningModel,
    r: RunModel,
    out: PortsModel,
    started_at: u64,
    finished_at: u64,
    table: Seq<Vec<bool>>,
    k: int,
    v: int,
    values: Seq<JsonModel>,
    i: int,
)
    requires
        runnable(o),
        shape_inv(o, r),
        r.current is Some,
        0 <= k < o.edges.len(),
        0 <= v < o.nodes.len(),
        o.edges[k].from.node == o.nodes[r.current->0.node].id,
        o.edges[k].to.node == o.nodes[v].id,
        lets_pass(o, k, out, table),
        port_get(out, o.edges[k].from.port) == Some(values),
        0 <= i < values.len(),
    ensures
        ({
            let s = after(o, r, OutcomeModel::Completed(out), started_at, finished_at, table).0;
            let there = port_get(s.buffers[v], o.edges[k].to.port);
            there is Some && there->0.contains(values[i])
        }),
{
    let port = o.edges[k].to.port;
    let u = r.current->0.node;
    let n = o.edges.len() as int;
    let s = after(o, r, OutcomeModel::Completed(out), started_at, finished_at, table).0;
    nodes_get_what_edges_bring(o, r, out, started_at, finished_at, table, v, port);
    lemma_brought_holds(o, u, v, port, out, table, n, k, i);
    let b = brought(o, u, v, port, out, table, n);
    let j = choose|j: int| 0 <= j < b.len() && b[j] == values[i];
    let all = at_port(s.buffers[v], port);
    let before = at_port(r.buffers[v], port);
    assert(all == before + b);
    assert(all[before.len() + j] == values[i]);
    assert(all.contains(values[i]));
}

/// Where no edge from the node that completes leads to a port, or none lets anything pass, nothing
/// new reaches the port.
pub proof fn closed_edges_carry_nothing(
    o: OpeningModel,
    r: RunModel,
    out: PortsModel,
    started_at: u64,
    finished_at: u64,
    table: Seq<Vec<bool>>,
    v: int,
    port: Seq<char>,
)
    requires
        runnable(o),
        shape_inv(o, r),
        r.current is Some,
        0 <= v < o.nodes.len(),
        forall|k: int|
            0 <= k < o.edges.len() && o.edges[k].to.port == port && (#[trigger] o.edges[k]).from.node
                == o.nodes[r.current->0.node].id && o.edges[k].to.node == o.nodes[v].id ==> !lets_pass(
                o,
                k,
                out,
                table,
            ),
    ensures
        at_port(
            after(o, r, OutcomeModel::Completed(out), started_at, finished_at, table).0.buffers[v],
            port,
        ) == at_port(r.buffers[v], port),
{
    nodes_get_what_edges_bring(o, r, out, started_at, finished_at, table, v, port);
    lemma_brought_nothing(o, r.current->0.node, v, port, out, table, o.edges.len() as int);
    assert(at_port(r.buffers[v], port) + seq![] =~= at_port(r.buffers[v], port));
}

proof fn lemma_brought_nothing(
    o: OpeningModel,
    u: int,
    v: int,
    port: Seq<char>,
    out: PortsModel,
    table: Seq<Vec<bool>>,
    n: int,
)
    requires
        n <= o.edges.len(),
        forall|k: int|
            0 <= k < o.edges.len() && o.edges[k].to.port == port && (#[trigger] o.edges[k]).from.node
                == o.nodes[u].id && o.edges[k].to.node == o.nodes[v].id ==> !lets_pass(o, k, out, table),
    ensures
        brought(o, u, v, port, out, table, n) == Seq::<JsonModel>::empty(),
    decreases n,
{
    if n > 0 {
        lemma_brought_nothing(o, u, v, port, out, table, n - 1);
        assert(o.edges[n - 1] == o.edges[n - 1]);
    }
}

/// A node is taken in hand with all that waited for it, and with nothing else; all others keep what
/// waits for them. The node that has waited longest is taken first.
pub proof fn nodes_start_with_what_waited(r: RunModel)
    requires
        r.queue.len() > 0,
        0 <= r.queue[0] < r.buffers.len(),
        r.records.len() == r.buffers.len(),
    ensures
        taken(r).current matches Some(a) && a.node == r.queue.first() && a.attempt == 1 && a.inputs
            == r.buffers[a.node],
        taken(r).queue == r.queue.drop_first(),
        forall|v: int|
            0 <= v < r.buffers.len() && v != r.queue.first() ==> #[trigger] taken(r).buffers[v]
                == r.buffers[v],
        taken(r).records[r.queue.first()].state is Running,
        forall|v: int|
            0 <= v < r.records.len() && v != r.queue.first() ==> #[trigger] taken(r).records[v]
                == r.records[v],
        taken(r).outputs == r.outputs,
        taken(r).failed == r.failed,
{
    assert(r.queue.skip(1) =~= r.queue.drop_first());
}

/// What waits for a node stays, whatever becomes of the attempt in hand: more may come behind it.
pub proof fn waiting_values_stay(
    o: OpeningModel,
    r: RunModel,
    outcome: OutcomeModel,
    started_at: u64,
    finished_at: u64,
    table: Seq<Vec<bool>>,
    v: int,
    port: Seq<char>,
)
    requires
        runnable(o),
        shape_inv(o, r),
        r.current is Some,
        0 <= v < o.nodes.len(),
    ensures
        at_port(r.buffers[v], port).is_prefix_of(
            at_port(after(o, r, outcome, started_at, finished_at, table).0.buffers[v], port),
        ),
        outcome !is Completed ==> after(o, r, outcome, started_at, finished_at, table).0.buffers
            == r.buffers,
{
    match outcome {
        OutcomeModel::Completed(out) => {
            nodes_get_what_edges_bring(o, r, out, started_at, finished_at, table, v, port);
        },
        _ => {},
    }
}

/// What a node is started with stands only at ports that edges lead to.
pub proof fn inputs_stand_at_named_ports(o: OpeningModel, r: RunModel, port: Seq<char>)
    requires
        shape_inv(o, r),
        r.current is Some,
        port_get(r.current->0.inputs, port) is Some,
    ensures
        exists|k: int|
            0 <= k < o.edges.len() && (#[trigger] o.edges[k]).to.port == port && o.edges[k].to.node
                == o.nodes[r.current->0.node].id,
{
    let v = r.current->0.node;
    assert(is_end(o, v, port));
    let k = choose|k: int|
        0 <= k < o.edges.len() && (#[trigger] o.edges[k]).to.node == o.nodes[v].id
            && o.edges[k].to.port == port;
    assert(o.edges[k].to.port == port);
}

/// How the attempt in hand is written down: under its number, with its times and the inputs of the
/// node, behind the earlier attempts.
pub open spec fn written_down(
    r: RunModel,
    s: RunModel,
    started_at: u64,
    finished_at: u64,
    output: Option<PortsModel>,
    error: Option<Seq<char>>,
) -> bool {
    let a = r.current->0;
    let before = r.records[a.node].attempts;
    let now = s.records[a.node].attempts;
    &&& now.len() == before.len() + 1
    &&& forall|i: int| 0 <= i < before.len() ==> #[trigger] now[i] == before[i]
    &&& now.last().attempt == a.attempt
    &&& now.last().started_at == started_at
    &&& now.last().finished_at == finished_at
    &&& now.last().inputs == a.inputs
    &&& now.last().output == output
    &&& now.last().error == error
}

/// Whether nothing but the record of the node in hand differs.
pub open spec fn rest_stays(r: RunModel, s: RunModel) -> bool {
    let u = r.current->0.node;
    &&& s.queue == r.queue
    &&& s.buffers == r.buffers
    &&& s.outputs == r.outputs
    &&& s.remaining == r.remaining
    &&& s.inbound == r.inbound
    &&& s.records.len() == r.records.len()
    &&& forall|v: int| 0 <= v < r.records.len() && v != u ==> #[trigger] s.records[v] == r.records[v]
}

/// Whether the node in hand has failed for good, and the run with it.
pub open spec fn run_broke(r: RunModel, s: RunModel, next: Next, reason: Seq<char>) -> bool {
    &&& next is RunFailed
    &&& s.failed
    &&& s.current is None
    &&& s.records[r.current->0.node].state == StateModel::Failed(reason)
}

/// Whether the same node, with the same inputs, is in hand for its next attempt.
pub open spec fn in_hand_again(r: RunModel, s: RunModel, next: Next) -> bool {
    let a = r.current->0;
    &&& next matches Next::Retry { failed_attempt } && failed_attempt == a.attempt
    &&& s.failed == r.failed
    &&& s.current matches Some(b) && b.node == a.node && b.inputs == a.inputs && b.attempt == a.attempt
        + 1
    &&& s.records[a.node].state == r.records[a.node].state
}

/// A failure that may be retried is tried again as long as attempts are left, with the same
/// inputs. A failure that may not, and the last attempt's, ends the run with its reason, whatever
/// attempts are left.
pub proof fn failures_are_retried_while_attempts_are_left(
    o: OpeningModel,
    r: RunModel,
    retryable: bool,
    reason: Seq<char>,
    started_at: u64,
    finished_at: u64,
    table: Seq<Vec<bool>>,
)
    requires
        shape_inv(o, r),
        r.current is Some,
    ensures
        ({
            let a = r.current->0;
            let max = o.nodes[a.node].retry.max_attempts;
            let (s, next) = after(
                o,
                r,
                OutcomeModel::Failed { retryable, reason },
                started_at,
                finished_at,
                table,
            );
            &&& retryable && a.attempt < max ==> in_hand_again(r, s, next)
            &&& !retryable ==> run_broke(r, s, next, reason)
            &&& a.attempt >= max ==> run_broke(r, s, next, reason)
            &&& written_down(r, s, started_at, finished_at, None, Some(reason))
            &&& rest_stays(r, s)
        }),
{
}

/// An attempt that takes too long is tried again as long as attempts are left, and ends the run
/// otherwise. Its error tells the limit.
pub proof fn timeouts_are_retried_while_attempts_are_left(
    o: OpeningModel,
    r: RunModel,
    started_at: u64,
    finished_at: u64,
    table: Seq<Vec<bool>>,
)
    requires
        shape_inv(o, r),
        r.current is Some,
    ensures
        ({
            let a = r.current->0;
            let max = o.nodes[a.node].retry.max_attempts;
            let reason = "timeout after "@ + decimal(node_timeout(o, a.node) as nat) + " ms"@;
            let (s, next) = after(o, r, OutcomeModel::TimedOut, started_at, finished_at, table);
            &&& a.attempt < max ==> in_hand_again(r, s, next)
            &&& a.attempt >= max ==> run_broke(r, s, next, reason)
            &&& written_down(r, s, started_at, finished_at, None, Some(reason))
            &&& rest_stays(r, s)
        }),
{
}

/// An error is not tried again: it ends the run, whatever attempts are left.
pub proof fn errors_end_the_run(
    o: OpeningModel,
    r: RunModel,
    message: Seq<char>,
    started_at: u64,
    finished_at: u64,
    table: Seq<Vec<bool>>,
)
    requires
        shape_inv(o, r),
        r.current is Some,
    ensures
        ({
            let (s, next) = after(
                o,
                r,
                OutcomeModel::Error(message),
                started_at,
                finished_at,
                table,
            );
            &&& run_broke(r, s, next, message)
            &&& written_down(r, s, started_at, finished_at, None, Some(message))
            &&& rest_stays(r, s)
        }),
{
}

/// A node that completes has succeeded, with its outputs written down and kept; the run goes on.
pub proof fn outputs_are_kept(
    o: OpeningModel,
    r: RunModel,
    out: PortsModel,
    started_at: u64,
    finished_at: u64,
    table: Seq<Vec<bool>>,
)
    requires
        runnable(o),
        run_inv(o, r),
        earned(o, r),
        shape_inv(o, r),
        r.current is Some,
    ensures
        ({
            let (s, next) = after(
                o,
                r,
                OutcomeModel::Completed(out),
                started_at,
                finished_at,
                table,
            );
            let u = r.current->0.node;
            &&& next is NodeDone
            &&& !s.failed
            &&& s.current is None
            &&& s.records[u].state is Succeeded
            &&& s.outputs == r.outputs.push((u, out))
            &&& written_down(r, s, started_at, finished_at, Some(out), None)
        }),
{
    let u = r.current->0.node;
    let n = noted(r, started_at, finished_at, Some(out), None);
    let s0 = with_state(n, u, StateModel::Succeeded);
    let s1 = RunModel { outputs: s0.outputs.push((u, out)), current: None, ..s0 };
    assert(line(r)[completed(r).len() as int] == u);
    assert(r.remaining[u] == 0);
    assert(!r.failed);
    lemma_records_stay(o, s1, o.edges.len() as int, u, u, out, table);
}

proof fn lemma_records_stay(
    o: OpeningModel,
    r: RunModel,
    k: int,
    u: int,
    v: int,
    out: PortsModel,
    table: Seq<Vec<bool>>,
)
    requires
        0 <= k <= o.edges.len(),
        0 <= v < r.records.len(),
        r.records.len() == r.remaining.len(),
        r.records.len() == o.nodes.len(),
        r.remaining[v] == 0,
    ensures
        handed_on_upto(o, r, k, u, out, table).records[v] == r.records[v],
        handed_on_upto(o, r, k, u, out, table).records.len() == r.records.len(),
        handed_on_upto(o, r, k, u, out, table).remaining.len() == r.remaining.len(),
        handed_on_upto(o, r, k, u, out, table).remaining[v] == 0,
        handed_on_upto(o, r, k, u, out, table).outputs == r.outputs,
        handed_on_upto(o, r, k, u, out, table).failed == r.failed,
        handed_on_upto(o, r, k, u, out, table).current == r.current,
    decreases k,
{
    if k > 0 {
        lemma_records_stay(o, r, k - 1, u, v, out, table);
        lemma_spots(o);
        assert(0 <= arcs_of(o)[k - 1].1);
    }
}

/// A node's own limit of time goes before that of the opening, and half a minute is the limit where
/// neither has one.
pub proof fn own_limits_go_first(o: OpeningModel, v: int)
    requires
        0 <= v < o.nodes.len(),
    ensures
        o.nodes[v].timeout_ms matches Some(t) ==> node_timeout(o, v) == t,
        o.nodes[v].timeout_ms is None ==> (o.policy.timeout_ms matches Some(t) ==> node_timeout(o, v)
            == t),
        o.nodes[v].timeout_ms is None && o.policy.timeout_ms is None ==> node_timeout(o, v) == 30_000,
{
}

/// Whether an edge leads to a node.
pub open spec fn is_fed(o: OpeningModel, v: int) -> bool {
    exists|k: int| 0 <= k < o.edges.len() && (#[trigger] o.edges[k]).to.node == o.nodes[v].id
}

proof fn lemma_fed(o: OpeningModel, v: int)
    requires
        runnable(o),
        0 <= v < o.nodes.len(),
    ensures
        is_fed(o, v) <==> waiting(arcs_of(o), v, seq![]) > 0,
{
    let none = Seq::<int>::empty();
    lemma_homes(o, v);
    if waiting(arcs_of(o), v, none) > 0 {
        let k = lemma_waiting_some(arcs_of(o), v, none);
        lemma_first_of_name(o, v, o.edges[k].to.node);
        assert(o.edges[k].to.node == o.nodes[v].id);
    }
    if is_fed(o, v) {
        let k = choose|k: int|
            0 <= k < o.edges.len() && (#[trigger] o.edges[k]).to.node == o.nodes[v].id;
        lemma_first_of_name(o, v, o.edges[k].to.node);
        if waiting(arcs_of(o), v, none) == 0 {
            lemma_waiting_none(arcs_of(o), v, none, k);
        }
    }
}

/// A run begins with the nodes that no edge leads to, in the order of the opening.
pub proof fn runs_begin_with_the_unfed(o: OpeningModel, v: int)
    requires
        runnable(o),
        0 <= v < o.nodes.len(),
    ensures
        fresh(o).queue.contains(v) <==> !is_fed(o, v),
        forall|i: int, j: int|
            0 <= i < j < fresh(o).queue.len() ==> #[trigger] fresh(o).queue[i] < #[trigger] fresh(
                o,
            ).queue[j],
        fresh(o).records[v].id == o.nodes[v].id,
        fresh(o).records[v].state is Pending,
        fresh(o).records[v].attempts.len() == 0,
        fresh(o).buffers[v].len() == 0,
        fresh(o).outputs.len() == 0,
        !fresh(o).failed,
        fresh(o).current is None,
{
    lemma_fed(o, v);
    lemma_root_order(o, o.nodes.len() as int, v);
}

proof fn lemma_root_order(o: OpeningModel, n: int, v: int)
    requires
        runnable(o),
        0 <= n <= o.nodes.len(),
        0 <= v < o.nodes.len(),
    ensures
        roots(o, n).contains(v) <==> v < n && waiting(arcs_of(o), v, seq![]) == 0,
        forall|i: int| 0 <= i < roots(o, n).len() ==> #[trigger] roots(o, n)[i] < n,
        forall|i: int, j: int|
            0 <= i < j < roots(o, n).len() ==> #[trigger] roots(o, n)[i] < #[trigger] roots(o, n)[j],
    decreases n,
{
    if n > 0 {
        lemma_root_order(o, n - 1, v);
        lemma_homes(o, n - 1);
        let before = roots(o, n - 1);
        let all = roots(o, n);
        if waiting(arcs_of(o), n - 1, seq![]) == 0 {
            crate::openings::graph::lemma_contains_push(before, n - 1, v);
            assert(all == before.push(n - 1));
        }
        assert forall|i: int| 0 <= i < all.len() implies #[trigger] all[i] < n by {
            if i < before.len() {
                assert(all[i] == before[i]);
            }
        }
        assert forall|i: int, j: int| 0 <= i < j < all.len() implies #[trigger] all[i]
            < #[trigger] all[j] by {
            assert(all[i] == before[i]);
            if j < before.len() {
                assert(all[j] == before[j]);
            }
        }
    }
}

/// A node that an edge leads to has its turn only when something waits at one of its ports.
pub proof fn turns_are_earned(o: OpeningModel, r: RunModel, i: int)
    requires
        runnable(o),
        run_inv(o, r),
        earned(o, r),
        0 <= i < r.queue.len(),
        is_fed(o, r.queue[i]),
    ensures
        r.buffers[r.queue[i]].len() > 0,
{
    assert(line(r)[line(r).len() - r.queue.len() + i] == r.queue[i]);
    lemma_fed(o, r.queue[i]);
}

/// A node that is fed is started with something at its ports.
pub proof fn fed_nodes_start_with_something(o: OpeningModel, r: RunModel)
    requires
        runnable(o),
        run_inv(o, r),
        earned(o, r),
        r.current is Some,
        is_fed(o, r.current->0.node),
    ensures
        r.current->0.inputs.len() > 0,
{
    assert(line(r)[completed(r).len() as int] == r.current->0.node);
    lemma_fed(o, r.current->0.node);
}

/// A node for which something waits, and whose feeders have all completed, is not passed over while
/// the run goes on: it has been given work.
pub proof fn whoever_got_something_has_a_turn(o: OpeningModel, r: RunModel, v: int)
    requires
        runnable(o),
        run_inv(o, r),
        earned(o, r),
        !r.failed,
        0 <= v < o.nodes.len(),
        r.buffers[v].len() > 0,
        forall|k: int|
            0 <= k < o.edges.len() && (#[trigger] o.edges[k]).to.node == o.nodes[v].id ==> completed(
                r,
            ).contains(spot(ids(o.nodes), o.edges[k].from.node)),
    ensures
        line(r).contains(v),
        r.records[v].state !is Skipped,
{
    lemma_homes(o, v);
    let done = completed(r);
    if waiting(arcs_of(o), v, done) > 0 {
        let k = lemma_waiting_some(arcs_of(o), v, done);
        lemma_first_of_name(o, v, o.edges[k].to.node);
        assert(o.edges[k].to.node == o.nodes[v].id);
    }
    assert(r.remaining[v] == 0);
    assert(r.records[v].state !is Skipped);
}

/// A node is passed over only when every node that feeds it has completed and nothing came of it,
/// and it is not given work after that.
pub proof fn nodes_are_passed_over_for_want_of_input(o: OpeningModel, r: RunModel, v: int, k: int)
    requires
        runnable(o),
        run_inv(o, r),
        earned(o, r),
        0 <= v < o.nodes.len(),
        r.records[v].state is Skipped,
        0 <= k < o.edges.len(),
        o.edges[k].to.node == o.nodes[v].id,
    ensures
        completed(r).contains(spot(ids(o.nodes), o.edges[k].from.node)),
        r.buffers[v].len() == 0,
        !line(r).contains(v),
{
    lemma_homes(o, v);
    lemma_first_of_name(o, v, o.edges[k].to.node);
    assert(r.remaining[v] == waiting(arcs_of(o), v, completed(r)));
    lemma_waiting_none(arcs_of(o), v, completed(r), k);
}

/// A run that failed is no success. One that did not is a success where no condition is set, and
/// otherwise if the condition holds.
pub proof fn runs_succeed_by_their_condition(o: OpeningModel, r: RunModel, table: Seq<Vec<bool>>)
    ensures
        r.failed ==> !ends_well(o, r, table),
        !r.failed && o.success is None ==> ends_well(o, r, table),
{
}

/// A condition of which one part is enough holds if one holds, and fails if none does.
pub proof fn one_of_any_is_enough(
    o: OpeningModel,
    r: RunModel,
    table: Seq<Vec<bool>>,
    parts: Seq<ExpressionModel>,
    k: int,
)
    requires
        !r.failed,
        o.success == Some(SuccessModel::AnyOf(parts)),
    ensures
        0 <= k < parts.len() && part_holds(o, r, parts[k], verdict_row(table, k)) ==> ends_well(o, r, table),
        (forall|j: int|
            0 <= j < parts.len() ==> !part_holds(
                o,
                r,
                #[trigger] parts[j],
                verdict_row(table, j),
            )) ==> !ends_well(o, r, table),
{
    assert forall|j: int| 0 <= j < parts.len() implies part_holds(
        o,
        r,
        #[trigger] parts[j],
        verdict_row(table, j),
    ) == expression_holds(parts[j], ids(o.nodes), r.outputs, verdict_row(table, j)) by {
        lemma_part(o, r, parts[j], verdict_row(table, j));
    }
}

proof fn lemma_part(o: OpeningModel, r: RunModel, part: ExpressionModel, row: Seq<bool>)
    ensures
        part_holds(o, r, part, row) == expression_holds(part, ids(o.nodes), r.outputs, row),
{
    match part {
        ExpressionModel::Comparison(p, predicate) => {
            if let Some(out) = outputs_of(ids(o.nodes), r.outputs, p.node) {
                let values = at_port(out, p.port);
                if expression_holds(part, ids(o.nodes), r.outputs, row) {
                    let i = choose|i: int|
                        0 <= i < values.len() && value_passes(
                            predicate,
                            #[trigger] values[i],
                            verdict(row, i),
                        );
                    assert(value_passes(predicate, values[i], verdict(row, i)));
                }
                if part_holds(o, r, part, row) {
                    let i = choose|i: int|
                        0 <= i < values.len() && value_passes(
                            predicate,
                            #[trigger] values[i],
                            0 <= i < row.len() && row[i],
                        );
                    assert(value_passes(predicate, values[i], verdict(row, i)));
                }
            }
        },
        _ => {},
    }
}

/// A condition of which all parts are needed fails if one does, and holds if all do.
pub proof fn all_parts_are_needed(
    o: OpeningModel,
    r: RunModel,
    table: Seq<Vec<bool>>,
    parts: Seq<ExpressionModel>,
    k: int,
)
    requires
        !r.failed,
        o.success == Some(SuccessModel::AllOf(parts)),
    ensures
        0 <= k < parts.len() && !part_holds(o, r, parts[k], verdict_row(table, k)) ==> !ends_well(
            o,
            r,
            table,
        ),
        (forall|j: int|
            0 <= j < parts.len() ==> part_holds(o, r, #[trigger] parts[j], verdict_row(table, j)))
            ==> ends_well(o, r, table),
{
    assert forall|j: int| 0 <= j < parts.len() implies part_holds(
        o,
        r,
        #[trigger] parts[j],
        verdict_row(table, j),
    ) == expression_holds(parts[j], ids(o.nodes), r.outputs, verdict_row(table, j)) by {
        lemma_part(o, r, parts[j], verdict_row(table, j));
    }
}

/// Whether a part of a success condition holds of what the nodes gave: there is a value at the port
/// it names, or one that meets its predicate.
pub open spec fn part_holds(
    o: OpeningModel,
    r: RunModel,
    part: ExpressionModel,
    row: Seq<bool>,
) -> bool {
    match part {
        ExpressionModel::Exists(p) => match outputs_of(ids(o.nodes), r.outputs, p.node) {
            Some(out) => at_port(out, p.port).len() > 0,
            None => false,
        },
        ExpressionModel::Comparison(p, predicate) => match outputs_of(
            ids(o.nodes),
            r.outputs,
            p.node,
        ) {
            Some(out) => exists|i: int|
                0 <= i < at_port(out, p.port).len() && value_passes(
                    predicate,
                    #[trigger] at_port(out, p.port)[i],
                    0 <= i < row.len() && row[i],
                ),
            None => false,
        },
    }
}

/// The outputs under a node's name are those that the node of that name gave last.
pub proof fn outputs_are_found_by_name(
    names: Seq<Seq<char>>,
    cache: Seq<(int, PortsModel)>,
    v: int,
    j: int,
)
    requires
        names.no_duplicates(),
        0 <= v < names.len(),
        0 <= j < cache.len(),
        cache[j].0 == v,
        forall|i: int| j < i < cache.len() ==> (#[trigger] cache[i]).0 != v,
    ensures
        outputs_of(names, cache, names[v]) == Some(cache[j].1),
{
    lemma_spot(names, names[v]);
    lemma_cached(cache, v, j);
}

proof fn lemma_cached(cache: Seq<(int, PortsModel)>, v: int, j: int)
    requires
        0 <= j < cache.len(),
        cache[j].0 == v,
        forall|i: int| j < i < cache.len() ==> (#[trigger] cache[i]).0 != v,
    ensures
        cached(cache, v) == Some(cache[j].1),
    decreases cache.len(),
{
    if j < cache.len() - 1 {
        assert(cache[cache.len() - 1].0 != v);
        lemma_cached(cache.drop_last(), v, j);
    }
}

/// Comparisons of whole numbers, of texts and of truth values mean what their signs say.
pub proof fn comparisons_mean_what_they_say(a: int, b: int, s: Seq<char>, t: Seq<char>, x: bool, y: bool)
    ensures
        int_compares(a, b, ComparisonOp::Eq) <==> a == b,
        int_compares(a, b, ComparisonOp::NotEq) <==> a != b,
        int_compares(a, b, ComparisonOp::Lt) <==> a < b,
        int_compares(a, b, ComparisonOp::Lte) <==> a <= b,
        int_compares(a, b, ComparisonOp::Gt) <==> a > b,
        int_compares(a, b, ComparisonOp::Gte) <==> a >= b,
        text_compares(s, t, ComparisonOp::Eq) <==> s == t,
        text_compares(s, t, ComparisonOp::NotEq) <==> s != t,
        text_compares(s, t, ComparisonOp::Lt) <==> text_lt(s, t),
        text_compares(s, t, ComparisonOp::Lte) <==> text_lt(s, t) || s == t,
        text_compares(s, t, ComparisonOp::Gt) <==> text_lt(t, s),
        text_compares(s, t, ComparisonOp::Gte) <==> text_lt(t, s) || s == t,
        bool_compares(x, y, ComparisonOp::Eq) <==> x == y,
        bool_compares(x, y, ComparisonOp::NotEq) <==> x != y,
{
    crate::text::lemma_text_lt_total(s, t);
    crate::text::lemma_text_lt_irreflexive(s);
    if text_lt(s, t) && text_lt(t, s) {
        crate::text::lemma_text_lt_transitive(s, t, s);
    }
}

/// A value of another kind than the one a predicate compares with does not meet it.
pub proof fn kinds_are_not_mixed(p: PredicateModel, v: JsonModel, by_float: bool)
    requires
        value_passes(p, v, by_float),
    ensures
        match p.value {
            LiteralModel::Bool(_) => v is Bool,
            LiteralModel::String(_) => v is Text,
            LiteralModel::Integer(_) => v is Number,
            LiteralModel::Float(_) => v is Number,
        },
{
}

/// When a run is over, what succeeded or failed stays so, and all else is skipped, with its attempts
/// kept.
pub proof fn ends_keep_what_was_reached(r: RunModel, v: int)
    requires
        0 <= v < r.records.len(),
    ensures
        ({
            let before = r.records[v];
            let end = all_settled(r.records)[v];
            &&& end.id == before.id
            &&& end.attempts == before.attempts
            &&& before.state is Succeeded || before.state is Failed ==> end.state == before.state
            &&& !(before.state is Succeeded || before.state is Failed) ==> end.state is Skipped
        }),
{
}

/// A node that gives again what it gave matches, and one that gives something else does not.
pub proof fn replays_compare_outputs(t: NodeTraceModel, out: PortsModel, hash: Seq<char>)
    requires
        t.state is Succeeded,
        t.final_attempt matches Some(a) && a.output_hash == Some(hash),
    ensures
        judged(t, ExecutionModel::Completed(out)).1 is None <==> outputs_hex(out) == hash,
        judged(t, ExecutionModel::Completed(out)).1 matches Some(m) ==> m.id == t.id && m.expected_hash
            == Some(hash) && m.actual_hash == Some(outputs_hex(out)),
        judged(t, ExecutionModel::Completed(out)).0 == outputs_digest(out),
{
}

/// A node that fails again for the reason for which it failed matches, and one that fails for
/// another does not.
pub proof fn replays_compare_reasons(t: NodeTraceModel, recorded: Seq<char>, reason: Seq<char>)
    requires
        t.state == StateModel::Failed(recorded),
        t.final_attempt matches Some(a) && (a.error == Some(recorded) || a.error is None),
    ensures
        judged(t, ExecutionModel::Failed(reason)).1 is None <==> reason == recorded,
        judged(t, ExecutionModel::Failed(reason)).0 == utf8(recorded),
{
}

/// A node that ends in another way than it did never matches.
pub proof fn replays_compare_ends(t: NodeTraceModel, out: PortsModel, reason: Seq<char>)
    ensures
        !(t.state is Succeeded) ==> (judged(t, ExecutionModel::Completed(out)).1 matches Some(m) && m.id
            == t.id),
        !(t.state is Failed) ==> (judged(t, ExecutionModel::Failed(reason)).1 matches Some(m) && m.id
            == t.id),
{
}

/// Every node of a trace that was tried and is still in the opening is run again; one that is not
/// is told of, and so is one that is said to have ended without an attempt.
pub proof fn replays_run_what_was_tried(names: Seq<Seq<char>>, t: NodeTraceModel)
    ensures
        names.contains(t.id) && t.final_attempt is Some ==> (step_for(names, t) matches Step::Execute(v) && 0
            <= v < names.len() && names[v] == t.id),
        !names.contains(t.id) ==> (step_for(names, t) matches Step::Mismatch(m) && m.id == t.id),
        names.contains(t.id) && t.final_attempt is None && (t.state is Succeeded || t.state is Failed)
            ==> (step_for(names, t) matches Step::Mismatch(m) && m.id == t.id),
        names.contains(t.id) && t.final_attempt is None && !(t.state is Succeeded || t.state is Failed)
            ==> step_for(names, t) is Pass,
{
    crate::text::lemma_last_spot(names, t.id);
}

/// The trace of a node tells its name, its state and its last attempt, with the digest of what it
/// gave.
pub proof fn traces_tell_the_last_attempt(r: RecordModel)
    ensures
        node_trace_of(r).id == r.id,
        node_trace_of(r).state == r.state,
        r.attempts.len() == 0 ==> node_trace_of(r).final_attempt is None,
        r.attempts.len() > 0 ==> (node_trace_of(r).final_attempt matches Some(a) && a.attempt
            == r.attempts.last().attempt && a.error == r.attempts.last().error && a.inputs
            == r.attempts.last().inputs && match r.attempts.last().output {
            Some(o) => a.output_hash == Some(outputs_hex(o)),
            None => a.output_hash is None,
        }),
{
}

} // verus!
