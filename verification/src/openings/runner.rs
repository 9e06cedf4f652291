//! Running an opening: which node is tried next, what its outcome changes, how the run ends.

use crate::digest::{blake3_hex, blake3_hex_of, push_bytes, push_text, utf8};
use crate::ids::{OpeningId, TraceId};
use crate::openings::document::{opening_of, read_openings_are_well_formed};
use crate::openings::graph::{arcs_model, arcs_within, ints, leaving, lemma_contains_push};
use crate::openings::graph::{lemma_leaving_mono, lemma_leaving_take, lemma_waiting_bound};
use crate::openings::graph::{lemma_waiting_none, lemma_waiting_push, lemma_waiting_some};
use crate::openings::graph::{lemma_waiting_split, waiting};
use crate::openings::graph::Arcs;
use crate::openings::model::edge_models;
use crate::openings::model::{EdgeModel, NodeModel, Opening, OpeningModel};
use crate::openings::nodes::ids;
use crate::openings::predicates::{cache_model, evaluate_predicate, evaluate_success, port_passes};
use crate::openings::predicates::{success_holds, verdict_row};
use crate::openings::records::{attempt_models, event_models, node_trace_of, record_models};
use crate::openings::records::{trace_models, trace_node, AttemptModel, EventModel};
use crate::openings::records::{NodeAttemptRecord, NodeExecution, NodeRecord};
use crate::openings::records::{NodeState, NodeTrace, NodeTraceModel, RecordModel, RunEvent};
use crate::openings::records::{RunReport, RunTrace, RunnerError, StateModel, TraceModel};
use crate::openings::values::{outputs_digest, port_get, port_names, port_push_all, NodeInputs};
use crate::openings::values::{ports_ordered, pushed_lists_come_last, NodeOutputs, PortsModel};
use crate::text::{
    concat3, decimal, decimal_text, join, joined, lemma_spot, place_in, spot, texts,
};
use crate::yaml::YamlModel;
use vstd::prelude::*;

verus! {

pub ghost struct ActiveModel {
    pub node: int,
    pub attempt: int,
    pub inputs: PortsModel,
}

/// The state of a run. Nodes are named by their position in the opening.
pub ghost struct RunModel {
    pub records: Seq<RecordModel>,
    pub inbound: Seq<int>,
    pub remaining: Seq<int>,
    pub queue: Seq<int>,
    pub buffers: Seq<PortsModel>,
    pub outputs: Seq<(int, PortsModel)>,
    pub failed: bool,
    pub current: Option<ActiveModel>,
}

/// The edges as arcs between the positions at which their nodes stand first. A node that is not
/// there stands behind all others.
pub open spec fn arcs_of(o: OpeningModel) -> Arcs {
    let names = ids(o.nodes);
    o.edges.map_values(
        |e: EdgeModel| (spot(names, e.from.node), spot(names, e.to.node)),
    )
}

/// The position that stands for a node: that of the first node of its name.
pub open spec fn home(o: OpeningModel, v: int) -> int {
    spot(ids(o.nodes), o.nodes[v].id)
}

proof fn lemma_home(o: OpeningModel, v: int)
    requires
        0 <= v < o.nodes.len(),
    ensures
        0 <= home(o, v) <= v,
        runnable(o) ==> home(o, v) == v,
{
    let names = ids(o.nodes);
    lemma_spot(names, o.nodes[v].id);
    assert(names[v] == o.nodes[v].id);
    if runnable(o) && home(o, v) < v {
        assert(names[home(o, v)] == names[v]);
    }
}

pub proof fn lemma_spots(o: OpeningModel)
    ensures
        arcs_of(o).len() == o.edges.len(),
        forall|k: int|
            0 <= k < arcs_of(o).len() ==> 0 <= (#[trigger] arcs_of(o)[k]).0 <= o.nodes.len() && 0
                <= arcs_of(o)[k].1 <= o.nodes.len(),
{
    let names = ids(o.nodes);
    assert forall|k: int| 0 <= k < arcs_of(o).len() implies 0 <= (#[trigger] arcs_of(o)[k]).0
        <= o.nodes.len() && 0 <= arcs_of(o)[k].1 <= o.nodes.len() by {
        lemma_spot(names, o.edges[k].from.node);
        lemma_spot(names, o.edges[k].to.node);
    }
}

/// Whether the nodes of an opening have different names and its edges join them.
pub open spec fn runnable(o: OpeningModel) -> bool {
    &&& ids(o.nodes).no_duplicates()
    &&& forall|k: int|
        0 <= k < o.edges.len() ==> ids(o.nodes).contains((#[trigger] o.edges[k]).from.node)
            && ids(o.nodes).contains(o.edges[k].to.node)
}

/// How often a node is tried at most.
pub open spec fn attempt_limit(n: NodeModel) -> int {
    if n.retry.max_attempts == 0 {
        1
    } else {
        n.retry.max_attempts as int
    }
}

/// How long an attempt at a node may take.
pub open spec fn node_timeout(o: OpeningModel, node: int) -> u64 {
    match o.nodes[node].timeout_ms {
        Some(t) => t,
        None => match o.policy.timeout_ms {
            Some(t) => t,
            None => 30_000,
        },
    }
}

/// The nodes that have given their outputs, in the order in which they did.
pub open spec fn completed(r: RunModel) -> Seq<int> {
    r.outputs.map_values(|e: (int, PortsModel)| e.0)
}

pub open spec fn in_hand(r: RunModel) -> Seq<int> {
    match r.current {
        Some(a) => seq![a.node],
        None => seq![],
    }
}

/// The nodes that were given work: those done, the one in hand, those that wait for their turn.
pub open spec fn line(r: RunModel) -> Seq<int> {
    completed(r) + in_hand(r) + r.queue
}

pub open spec fn same_shape(o: OpeningModel, r: RunModel) -> bool {
    let n = o.nodes.len();
    &&& r.records.len() == n
    &&& r.inbound.len() == n
    &&& r.remaining.len() == n
    &&& r.buffers.len() == n
    &&& forall|v: int| 0 <= v < n ==> (#[trigger] r.records[v]).id == o.nodes[v].id
}

/// Whether a record fits its state: the last attempt of a node that succeeded gave outputs, that
/// of a node that failed gave the reason, and no other node was tried but the one in hand.
pub open spec fn record_fits(r: RecordModel, busy: bool) -> bool {
    match r.state {
        StateModel::Succeeded => r.attempts.len() > 0 && r.attempts.last().output is Some
            && r.attempts.last().error is None,
        StateModel::Failed(reason) => r.attempts.len() > 0 && r.attempts.last().output is None
            && r.attempts.last().error == Some(reason),
        _ => busy || r.attempts.len() == 0,
    }
}

pub open spec fn records_fit(r: RunModel) -> bool {
    forall|v: int|
        0 <= v < r.records.len() ==> record_fits(#[trigger] r.records[v], in_hand(r).contains(v))
}

/// What holds in every state of a run: a node is given work once, after all nodes that feed it;
/// the counters tell how many are still owed; a node counts as succeeded when it has given its
/// outputs; nothing has failed before the run has, and then one node has; no node is tried more
/// often than it may be; and until the run has failed, a node to which nothing is owed was given
/// work or is skipped.
pub open spec fn run_inv(o: OpeningModel, r: RunModel) -> bool {
    let n = o.nodes.len() as int;
    let arcs = arcs_of(o);
    &&& same_shape(o, r)
    &&& records_fit(r)
    &&& line(r).no_duplicates()
    &&& forall|i: int| 0 <= i < line(r).len() ==> 0 <= #[trigger] line(r)[i] < n
    &&& forall|i: int|
        0 <= i < line(r).len() ==> waiting(arcs, #[trigger] line(r)[i], completed(r)) == 0
    &&& forall|v: int| 0 <= v < n ==> #[trigger] r.remaining[v] == waiting(arcs, v, completed(r))
    &&& r.current matches Some(a) ==> 1 <= a.attempt <= attempt_limit(o.nodes[a.node])
        && r.records[a.node].state is Running
    &&& forall|v: int|
        0 <= v < n ==> ((#[trigger] r.records[v]).state is Succeeded <==> completed(r).contains(v))
    &&& !r.failed ==> forall|v: int| 0 <= v < n ==> (#[trigger] r.records[v]).state !is Failed
    &&& r.failed ==> r.current is None
    &&& !r.failed ==> all_served(r)
    &&& one_failure(r)
    &&& tried_within(o, r)
    &&& r.current matches Some(a) ==> r.records[a.node].attempts.len() <= a.attempt
}

/// Whether no two nodes have failed.
pub open spec fn one_failure(r: RunModel) -> bool {
    forall|v: int, w: int|
        0 <= v < r.records.len() && 0 <= w < r.records.len() && (#[trigger] r.records[v]).state is Failed
            && (#[trigger] r.records[w]).state is Failed ==> v == w
}

/// Whether no node was tried more often than it may be.
pub open spec fn tried_within(o: OpeningModel, r: RunModel) -> bool {
    forall|v: int|
        0 <= v < r.records.len() ==> (#[trigger] r.records[v]).attempts.len() <= attempt_limit(
            o.nodes[v],
        )
}

/// Whether the attempt in hand is still to be written down.
pub open spec fn unwritten(r: RunModel) -> bool {
    r.current matches Some(a) ==> r.records[a.node].attempts.len() < a.attempt
}

/// Whether every node to which nothing is owed was given work or is skipped.
pub open spec fn all_served(r: RunModel) -> bool {
    forall|v: int|
        0 <= v < r.remaining.len() && #[trigger] r.remaining[v] == 0 ==> line(r).contains(v)
            || r.records[v].state is Skipped
}

/// The nodes among the first `n` that no edge leads to.
pub open spec fn roots(o: OpeningModel, n: int) -> Seq<int>
    decreases n,
{
    if n <= 0 {
        seq![]
    } else if waiting(arcs_of(o), home(o, n - 1), seq![]) == 0 {
        roots(o, n - 1).push(home(o, n - 1))
    } else {
        roots(o, n - 1)
    }
}

/// The state before the first node is tried.
pub open spec fn fresh(o: OpeningModel) -> RunModel {
    let n = o.nodes.len();
    let owed = Seq::new(n, |v: int| waiting(arcs_of(o), v, seq![]) as int);
    RunModel {
        records: o.nodes.map_values(
            |x: NodeModel| RecordModel { id: x.id, state: StateModel::Pending, attempts: seq![] },
        ),
        inbound: owed,
        remaining: owed,
        queue: roots(o, n as int),
        buffers: Seq::new(n, |v: int| PortsModel::empty()),
        outputs: seq![],
        failed: false,
        current: None,
    }
}

proof fn lemma_roots_within(o: OpeningModel, n: int)
    requires
        0 <= n <= o.nodes.len(),
    ensures
        forall|i: int| 0 <= i < roots(o, n).len() ==> 0 <= #[trigger] roots(o, n)[i] < o.nodes.len(),
    decreases n,
{
    if n > 0 {
        lemma_roots_within(o, n - 1);
        lemma_home(o, n - 1);
        let before = roots(o, n - 1);
        assert forall|i: int| 0 <= i < roots(o, n).len() implies 0 <= #[trigger] roots(o, n)[i]
            < o.nodes.len() by {
            if i < before.len() {
                assert(roots(o, n)[i] == before[i]);
            }
        }
    }
}

proof fn lemma_roots(o: OpeningModel, n: int)
    requires
        0 <= n <= o.nodes.len(),
        runnable(o),
    ensures
        roots(o, n).no_duplicates(),
        forall|i: int|
            0 <= i < roots(o, n).len() ==> 0 <= #[trigger] roots(o, n)[i] < n && waiting(
                arcs_of(o),
                roots(o, n)[i],
                seq![],
            ) == 0,
        forall|v: int|
            0 <= v < n && #[trigger] waiting(arcs_of(o), v, seq![]) == 0 ==> roots(o, n).contains(v),
    decreases n,
{
    if n > 0 {
        lemma_roots(o, n - 1);
        lemma_home(o, n - 1);
        let before = roots(o, n - 1);
        assert forall|v: int| 0 <= v < n && #[trigger] waiting(arcs_of(o), v, seq![])
            == 0 implies roots(o, n).contains(v) by {
            lemma_contains_push(before, n - 1, v);
        }
    }
}

/// Whether an edge leads to a port of a node.
pub open spec fn is_end(o: OpeningModel, v: int, port: Seq<char>) -> bool {
    exists|k: int|
        0 <= k < o.edges.len() && (#[trigger] o.edges[k]).to.node == o.nodes[v].id
            && o.edges[k].to.port == port
}

/// Whether values stand only at ports of a node that an edge leads to.
pub open spec fn ports_fed(o: OpeningModel, v: int, m: PortsModel) -> bool {
    &&& ports_ordered(m)
    &&& forall|port: Seq<char>| (#[trigger] port_get(m, port)) is Some ==> is_end(o, v, port)
}

/// Whether all that waits for a node, and all that the node in hand was given, stands at ports that
/// edges lead to.
pub open spec fn fed(o: OpeningModel, r: RunModel) -> bool {
    &&& forall|v: int| 0 <= v < o.nodes.len() ==> ports_fed(o, v, #[trigger] r.buffers[v])
    &&& r.current matches Some(a) ==> ports_fed(o, a.node, a.inputs)
}

/// Whether each node that an edge leads to has its turn only with something at its ports, and a
/// node is passed over only when nothing more can come to it and nothing came.
pub open spec fn earned(o: OpeningModel, r: RunModel) -> bool {
    &&& forall|v: int|
        0 <= v < o.nodes.len() ==> #[trigger] r.inbound[v] == waiting(arcs_of(o), v, seq![])
    &&& forall|i: int|
        0 <= i < r.queue.len() && r.inbound[#[trigger] r.queue[i]] > 0
            ==> r.buffers[r.queue[i]].len() > 0
    &&& r.current matches Some(a) ==> (r.inbound[a.node] > 0 ==> a.inputs.len() > 0)
    &&& forall|v: int|
        0 <= v < o.nodes.len() && (#[trigger] r.records[v]).state is Skipped ==> r.remaining[v] == 0
            && r.buffers[v].len() == 0 && !line(r).contains(v)
}

/// What holds in every state of a run, whatever the opening: there is a place for each node, what
/// waits or is in hand is one of them, and what was handed on stands where edges lead.
pub open spec fn shape_inv(o: OpeningModel, r: RunModel) -> bool {
    let n = o.nodes.len() as int;
    &&& same_shape(o, r)
    &&& forall|i: int| 0 <= i < r.queue.len() ==> 0 <= #[trigger] r.queue[i] < n
    &&& r.current matches Some(a) ==> 0 <= a.node < n && 1 <= a.attempt <= attempt_limit(
        o.nodes[a.node],
    )
    &&& r.failed ==> r.current is None
    &&& fed(o, r)
}

proof fn lemma_fresh_inv(o: OpeningModel)
    ensures
        shape_inv(o, fresh(o)),
        runnable(o) ==> run_inv(o, fresh(o)) && earned(o, fresh(o)),
{
    let r = fresh(o);
    lemma_roots_within(o, o.nodes.len() as int);
    if runnable(o) {
        lemma_roots(o, o.nodes.len() as int);
        assert(completed(r) =~= Seq::<int>::empty());
        assert(line(r) =~= r.queue);
    }
}

pub open spec fn with_state(r: RunModel, node: int, state: StateModel) -> RunModel {
    RunModel {
        records: r.records.update(node, RecordModel { state, ..r.records[node] }),
        ..r
    }
}

/// The first waiting node is taken in hand.
pub open spec fn taken(r: RunModel) -> RunModel {
    let u = r.queue[0];
    let s = with_state(r, u, StateModel::Running);
    RunModel {
        queue: r.queue.skip(1),
        buffers: r.buffers.update(u, PortsModel::empty()),
        current: Some(ActiveModel { node: u, attempt: 1, inputs: r.buffers[u] }),
        ..s
    }
}

proof fn lemma_taken_inv(o: OpeningModel, r: RunModel)
    requires
        run_inv(o, r),
        earned(o, r),
        r.current is None,
        !r.failed,
        r.queue.len() > 0,
    ensures
        run_inv(o, taken(r)),
        earned(o, taken(r)),
        unwritten(taken(r)),
        0 <= r.queue[0] < o.nodes.len(),
        !completed(r).contains(r.queue[0]),
{
    let t = taken(r);
    let u = r.queue[0];
    assert(completed(t) =~= completed(r));
    assert(line(t) =~= line(r));
    assert(line(r)[completed(r).len() as int] == u);
    assert(!completed(r).contains(u)) by {
        if completed(r).contains(u) {
            let i = choose|i: int| 0 <= i < completed(r).len() && completed(r)[i] == u;
            assert(line(r)[i] == u);
        }
    }
    assert(r.records[u].state !is Succeeded && r.records[u].state !is Failed);
    assert(record_fits(r.records[u], in_hand(r).contains(u)));
    assert(r.records[u].attempts.len() == 0);
    assert(earned(o, t)) by {
        assert(0 <= u < o.nodes.len());
        assert forall|i: int| 0 <= i < t.queue.len() && t.inbound[#[trigger] t.queue[i]] > 0 implies t.buffers[t.queue[i]].len()
            > 0 by {
            assert(t.queue[i] == r.queue[i + 1]);
            assert(line(r)[completed(r).len() + i + 1] == r.queue[i + 1]);
            assert(r.queue[i + 1] != u);
        }
        assert forall|v: int| 0 <= v < o.nodes.len() && (#[trigger] t.records[v]).state is Skipped implies t.remaining[v]
            == 0 && t.buffers[v].len() == 0 && !line(t).contains(v) by {
            assert(r.records[v].state is Skipped);
        }
    }
}

/// Edge number `k` once node `u` has given `out`: the values at its port are handed on where its
/// predicate passes, and the node behind it is owed one less. When nothing more is owed to that
/// node, it gets its turn, or is skipped if nothing was handed to it.
pub open spec fn handed_on(
    o: OpeningModel,
    r: RunModel,
    k: int,
    u: int,
    out: PortsModel,
    table: Seq<Vec<bool>>,
) -> RunModel {
    let e = o.edges[k];
    let (from, to) = arcs_of(o)[k];
    let passes = match e.predicate {
        None => true,
        Some(p) => port_passes(p, e.from.port, out, verdict_row(table, k)),
    };
    let buffers = match port_get(out, e.from.port) {
        Some(values) => if passes {
            r.buffers.update(to, port_push_all(r.buffers[to], e.to.port, values))
        } else {
            r.buffers
        },
        None => r.buffers,
    };
    if from != u || to >= o.nodes.len() {
        r
    } else if r.remaining[to] <= 0 {
        RunModel { buffers, ..r }
    } else {
        let left = r.remaining[to] - 1;
        let s = RunModel { buffers, remaining: r.remaining.update(to, left), ..r };
        if left > 0 {
            s
        } else if buffers[to].len() > 0 || r.inbound[to] == 0 {
            RunModel { queue: s.queue.push(to), ..s }
        } else {
            with_state(s, to, StateModel::Skipped)
        }
    }
}

/// The first `k` edges, one after the other.
pub open spec fn handed_on_upto(
    o: OpeningModel,
    r: RunModel,
    k: int,
    u: int,
    out: PortsModel,
    table: Seq<Vec<bool>>,
) -> RunModel
    decreases k,
{
    if k <= 0 {
        r
    } else {
        handed_on(o, handed_on_upto(o, r, k - 1, u, out, table), k - 1, u, out, table)
    }
}

/// The attempt in hand is written down.
pub open spec fn noted(
    r: RunModel,
    started_at: u64,
    finished_at: u64,
    output: Option<PortsModel>,
    error: Option<Seq<char>>,
) -> RunModel {
    let a = r.current->0;
    let rec = r.records[a.node];
    let attempt = AttemptModel {
        attempt: a.attempt,
        started_at: started_at as int,
        finished_at: finished_at as int,
        inputs: a.inputs,
        output,
        error,
    };
    RunModel {
        records: r.records.update(
            a.node,
            RecordModel { attempts: rec.attempts.push(attempt), ..rec },
        ),
        ..r
    }
}

/// The node in hand gave `out`.
pub open spec fn succeeded(
    o: OpeningModel,
    r: RunModel,
    out: PortsModel,
    table: Seq<Vec<bool>>,
) -> RunModel {
    let u = r.current->0.node;
    let s = with_state(r, u, StateModel::Succeeded);
    handed_on_upto(
        o,
        RunModel { outputs: s.outputs.push((u, out)), current: None, ..s },
        o.edges.len() as int,
        u,
        out,
        table,
    )
}

/// The node in hand failed for good, and with it the run.
pub open spec fn broken(r: RunModel, reason: Seq<char>) -> RunModel {
    let s = with_state(r, r.current->0.node, StateModel::Failed(reason));
    RunModel { failed: true, current: None, ..s }
}

/// The node in hand is tried once more.
pub open spec fn retried(r: RunModel) -> RunModel {
    let a = r.current->0;
    RunModel { current: Some(ActiveModel { attempt: a.attempt + 1, ..a }), ..r }
}

/// What holds while the outputs of node `u` are handed on along the edges, `done` being the
/// nodes that were done before.
spec fn mid_inv(o: OpeningModel, r: RunModel, k: int, u: int, done: Seq<int>) -> bool {
    let n = o.nodes.len() as int;
    let arcs = arcs_of(o);
    &&& 0 <= k <= o.edges.len()
    &&& same_shape(o, r)
    &&& records_fit(r)
    &&& r.current is None
    &&& !r.failed
    &&& completed(r) == done.push(u)
    &&& !done.contains(u)
    &&& line(r).no_duplicates()
    &&& forall|i: int| 0 <= i < line(r).len() ==> 0 <= #[trigger] line(r)[i] < n
    &&& forall|i: int|
        0 <= i < line(r).len() ==> waiting(arcs, #[trigger] line(r)[i], completed(r)) == 0
    &&& forall|i: int| 0 <= i < line(r).len() ==> r.remaining[#[trigger] line(r)[i]] == 0
    &&& forall|v: int|
        0 <= v < n ==> #[trigger] r.remaining[v] == waiting(arcs, v, done) - leaving(
            arcs.take(k),
            u,
            v,
        )
    &&& forall|v: int|
        0 <= v < n ==> ((#[trigger] r.records[v]).state is Succeeded <==> completed(r).contains(v))
    &&& forall|v: int| 0 <= v < n ==> (#[trigger] r.records[v]).state !is Failed
    &&& all_served(r)
    &&& tried_within(o, r)
}

proof fn lemma_arcs_within(o: OpeningModel)
    requires
        runnable(o),
    ensures
        arcs_within(o.nodes.len() as int, arcs_of(o)),
        arcs_of(o).len() == o.edges.len(),
{
    let names = ids(o.nodes);
    let arcs = arcs_of(o);
    assert forall|k: int| 0 <= k < arcs.len() implies 0 <= (#[trigger] arcs[k]).0 < o.nodes.len()
        && 0 <= arcs[k].1 < o.nodes.len() by {
        let e = o.edges[k];
        assert(names.contains(e.from.node) && names.contains(e.to.node));
        let i = choose|i: int| 0 <= i < names.len() && names[i] == e.from.node;
        let j = choose|j: int| 0 <= j < names.len() && names[j] == e.to.node;
        lemma_spot(names, e.from.node);
        lemma_spot(names, e.to.node);
        assert(names[i] == e.from.node && names[j] == e.to.node);
    }
}

/// Handing on along an edge keeps the shape of a run.
pub proof fn lemma_handed_shape(
    o: OpeningModel,
    r: RunModel,
    k: int,
    u: int,
    out: PortsModel,
    table: Seq<Vec<bool>>,
)
    requires
        shape_inv(o, r),
        0 <= k < o.edges.len(),
    ensures
        shape_inv(o, handed_on(o, r, k, u, out, table)),
        handed_on(o, r, k, u, out, table).current == r.current,
        handed_on(o, r, k, u, out, table).failed == r.failed,
{
    lemma_spots(o);
    let s = handed_on(o, r, k, u, out, table);
    let to = arcs_of(o)[k].1;
    assert(0 <= to);
    assert forall|i: int| 0 <= i < s.queue.len() implies 0 <= #[trigger] s.queue[i] < o.nodes.len() by {
        if i < r.queue.len() {
            assert(s.queue[i] == r.queue[i]);
        }
    }
    assert(same_shape(o, s)) by {
        assert forall|v: int| 0 <= v < o.nodes.len() implies (#[trigger] s.records[v]).id
            == o.nodes[v].id by {
            assert(r.records[v].id == o.nodes[v].id);
        }
    }
    assert(fed(o, s)) by {
        let e = o.edges[k];
        assert forall|v: int| 0 <= v < o.nodes.len() implies ports_fed(o, v, #[trigger] s.buffers[v]) by {
            assert(ports_fed(o, v, r.buffers[v]));
            if s.buffers[v] != r.buffers[v] {
                assert(v == to);
                let values = port_get(out, e.from.port)->0;
                assert(s.buffers[v] == port_push_all(r.buffers[v], e.to.port, values));
                lemma_spot(ids(o.nodes), e.to.node);
                assert(e.to.node == o.nodes[v].id);
                assert(is_end(o, v, e.to.port));
                pushed_lists_come_last(r.buffers[v], e.to.port, values, e.to.port);
                assert forall|port: Seq<char>| (#[trigger] port_get(s.buffers[v], port)) is Some implies is_end(
                    o,
                    v,
                    port,
                ) by {
                    pushed_lists_come_last(r.buffers[v], e.to.port, values, port);
                }
            }
        }
    }
}

proof fn lemma_mid_step(
    o: OpeningModel,
    r: RunModel,
    k: int,
    u: int,
    done: Seq<int>,
    out: PortsModel,
    table: Seq<Vec<bool>>,
)
    requires
        runnable(o),
        mid_inv(o, r, k, u, done),
        k < o.edges.len(),
    ensures
        mid_inv(o, handed_on(o, r, k, u, out, table), k + 1, u, done),
        earned(o, r) ==> earned(o, handed_on(o, r, k, u, out, table)),
        0 <= arcs_of(o)[k].1 < o.nodes.len(),
{
    lemma_arcs_within(o);
    let n = o.nodes.len() as int;
    let arcs = arcs_of(o);
    let (from, to) = arcs[k];
    let s = handed_on(o, r, k, u, out, table);
    assert(0 <= arcs[k].1 < n);
    assert forall|v: int| 0 <= v < n implies #[trigger] leaving(arcs.take(k + 1), u, v) == leaving(
        arcs.take(k),
        u,
        v,
    ) + (if from == u && to == v {
        1int
    } else {
        0int
    }) by {
        lemma_leaving_take(arcs, k, u, v);
    }
    assert(completed(s) =~= completed(r));
    if from == u {
        lemma_waiting_push(arcs, to, done, u);
        lemma_leaving_mono(arcs, k + 1, u, to);
        assert(r.remaining[to] > 0);
        assert(!line(r).contains(to)) by {
            if line(r).contains(to) {
                let i = choose|i: int| 0 <= i < line(r).len() && line(r)[i] == to;
                assert(r.remaining[line(r)[i]] == 0);
            }
        }
        assert(!completed(r).contains(to)) by {
            if completed(r).contains(to) {
                let i = choose|i: int| 0 <= i < completed(r).len() && completed(r)[i] == to;
                assert(line(r)[i] == to);
            }
        }
        if s.remaining[to] == 0 {
            assert(waiting(arcs, to, completed(r)) == 0);
        }
        assert(all_served(s)) by {
            assert forall|v: int| 0 <= v < s.remaining.len() && #[trigger] s.remaining[v]
                == 0 implies line(s).contains(v) || s.records[v].state is Skipped by {
                if s.queue.len() > r.queue.len() {
                    assert(line(s) =~= line(r).push(to));
                    lemma_contains_push(line(r), to, v);
                } else {
                    assert(line(s) =~= line(r));
                }
                if v != to {
                    assert(r.remaining[v] == 0);
                }
            }
        }
        if s.queue.len() > r.queue.len() {
            assert(line(s) =~= line(r).push(to));
            assert(line(s).no_duplicates()) by {
                assert forall|i: int, j: int|
                    0 <= i < line(s).len() && 0 <= j < line(s).len() && i != j implies line(s)[i]
                    != line(s)[j] by {
                    if i == line(r).len() {
                        assert(line(r).contains(line(r)[j]));
                    } else if j == line(r).len() {
                        assert(line(r).contains(line(r)[i]));
                    }
                }
            }
            assert forall|i: int| 0 <= i < line(s).len() implies s.remaining[#[trigger] line(s)[i]]
                == 0 && waiting(arcs, line(s)[i], completed(s)) == 0 && 0 <= line(s)[i] < n by {
                if i < line(r).len() {
                    assert(line(s)[i] == line(r)[i]);
                    assert(line(r).contains(line(r)[i]));
                }
            }
        } else {
            assert(line(s) =~= line(r));
            assert forall|i: int| 0 <= i < line(s).len() implies s.remaining[#[trigger] line(s)[i]]
                == 0 by {
                assert(line(s)[i] == line(r)[i]);
                assert(line(r).contains(line(r)[i]));
            }
        }
    } else {
        assert(line(s) =~= line(r));
    }
    if earned(o, r) && from == u {
        assert forall|i: int| 0 <= i < s.queue.len() && s.inbound[#[trigger] s.queue[i]] > 0 implies s.buffers[s.queue[i]].len()
            > 0 by {
            if i < r.queue.len() {
                assert(s.queue[i] == r.queue[i]);
                assert(line(r)[completed(r).len() + i] == r.queue[i]);
                assert(r.queue[i] != to);
            }
        }
        assert forall|v: int| 0 <= v < n && (#[trigger] s.records[v]).state is Skipped implies s.remaining[v]
            == 0 && s.buffers[v].len() == 0 && !line(s).contains(v) by {
            if v != to {
                assert(r.records[v].state is Skipped);
                if s.queue.len() > r.queue.len() {
                    assert(line(s) =~= line(r).push(to));
                    lemma_contains_push(line(r), to, v);
                }
            } else {
                assert(r.records[to].state !is Skipped);
                assert(line(s) =~= line(r));
            }
        }
    }
}

proof fn lemma_succeeded_inv(
    o: OpeningModel,
    r: RunModel,
    out: PortsModel,
    table: Seq<Vec<bool>>,
)
    requires
        runnable(o),
        run_inv(o, r),
        r.current is Some,
        !r.failed,
        r.records[r.current->0.node].attempts.len() > 0,
        r.records[r.current->0.node].attempts.last().output is Some,
        r.records[r.current->0.node].attempts.last().error is None,
        earned(o, r),
    ensures
        run_inv(o, succeeded(o, r, out, table)),
        earned(o, succeeded(o, r, out, table)),
{
    let u = r.current->0.node;
    let done = completed(r);
    let s = with_state(r, u, StateModel::Succeeded);
    let s = RunModel { outputs: s.outputs.push((u, out)), current: None, ..s };
    lemma_first_mid(o, r, out);
    lemma_mid_all(o, s, o.edges.len() as int, u, done, out, table);
    let t = succeeded(o, r, out, table);
    let arcs = arcs_of(o);
    lemma_arcs_within(o);
    assert(arcs.take(arcs.len() as int) =~= arcs);
    assert forall|v: int| 0 <= v < o.nodes.len() implies #[trigger] t.remaining[v] == waiting(
        arcs,
        v,
        completed(t),
    ) by {
        lemma_waiting_push(arcs, v, done, u);
    }
}

proof fn lemma_first_mid(o: OpeningModel, r: RunModel, out: PortsModel)
    requires
        runnable(o),
        run_inv(o, r),
        r.current is Some,
        !r.failed,
        r.records[r.current->0.node].attempts.len() > 0,
        r.records[r.current->0.node].attempts.last().output is Some,
        r.records[r.current->0.node].attempts.last().error is None,
        earned(o, r),
    ensures
        ({
            let u = r.current->0.node;
            let s = with_state(r, u, StateModel::Succeeded);
            let t = RunModel { outputs: s.outputs.push((u, out)), current: None, ..s };
            mid_inv(o, t, 0, u, completed(r)) && earned(o, t)
        }),
        0 <= r.current->0.node < o.nodes.len(),
{
    let n = o.nodes.len() as int;
    let arcs = arcs_of(o);
    let u = r.current->0.node;
    let done = completed(r);
    let s0 = with_state(r, u, StateModel::Succeeded);
    let s = RunModel { outputs: s0.outputs.push((u, out)), current: None, ..s0 };
    assert(completed(s) =~= done.push(u));
    assert(line(s) =~= line(r));
    assert(line(r)[done.len() as int] == u);
    assert(!done.contains(u)) by {
        if done.contains(u) {
            let i = choose|i: int| 0 <= i < done.len() && done[i] == u;
            assert(line(r)[i] == u);
        }
    }
    assert(arcs.take(0) =~= Seq::empty());
    assert forall|i: int| 0 <= i < line(s).len() implies s.remaining[#[trigger] line(s)[i]] == 0
        && waiting(arcs, line(s)[i], completed(s)) == 0 by {
        let w = line(r)[i];
        assert(waiting(arcs, w, done) == 0);
        lemma_waiting_push(arcs, w, done, u);
    }
    assert forall|v: int| 0 <= v < n implies ((#[trigger] s.records[v]).state is Succeeded
        <==> completed(s).contains(v)) by {
        lemma_contains_push(done, u, v);
        assert(r.records[v].state is Succeeded <==> done.contains(v));
    }
    assert forall|v: int| 0 <= v < n implies (#[trigger] s.records[v]).state !is Failed by {
        assert(r.records[v].state !is Failed);
    }
    assert forall|v: int| 0 <= v < n && (#[trigger] s.records[v]).state is Skipped implies s.remaining[v]
        == 0 && s.buffers[v].len() == 0 && !line(s).contains(v) by {
        assert(r.records[v].state is Skipped);
    }
}

proof fn lemma_mid_all(
    o: OpeningModel,
    r: RunModel,
    k: int,
    u: int,
    done: Seq<int>,
    out: PortsModel,
    table: Seq<Vec<bool>>,
)
    requires
        runnable(o),
        mid_inv(o, r, 0, u, done),
        earned(o, r),
        0 <= k <= o.edges.len(),
    ensures
        mid_inv(o, handed_on_upto(o, r, k, u, out, table), k, u, done),
        earned(o, handed_on_upto(o, r, k, u, out, table)),
    decreases k,
{
    if k > 0 {
        lemma_mid_all(o, r, k - 1, u, done, out, table);
        lemma_mid_step(
            o,
            handed_on_upto(o, r, k - 1, u, out, table),
            k - 1,
            u,
            done,
            out,
            table,
        );
    }
}

proof fn lemma_noted_inv(
    o: OpeningModel,
    r: RunModel,
    started_at: u64,
    finished_at: u64,
    output: Option<PortsModel>,
    error: Option<Seq<char>>,
)
    requires
        run_inv(o, r),
        earned(o, r),
        r.current is Some,
        unwritten(r),
    ensures
        run_inv(o, noted(r, started_at, finished_at, output, error)),
        earned(o, noted(r, started_at, finished_at, output, error)),
        0 <= r.current->0.node < o.nodes.len(),
{
    let s = noted(r, started_at, finished_at, output, error);
    assert(completed(s) =~= completed(r));
    assert(line(s) =~= line(r));
    assert(line(r)[completed(r).len() as int] == r.current->0.node);
    assert forall|v: int| 0 <= v < o.nodes.len() implies (#[trigger] s.records[v]).state
        == r.records[v].state && s.records[v].id == r.records[v].id && s.records[v].attempts.len()
        <= attempt_limit(o.nodes[v]) by {
        assert(r.records[v].attempts.len() <= attempt_limit(o.nodes[v]));
    }
    assert forall|v: int| 0 <= v < o.nodes.len() && (#[trigger] s.records[v]).state is Skipped implies s.remaining[v]
        == 0 && s.buffers[v].len() == 0 && !line(s).contains(v) by {
        assert(r.records[v].state is Skipped);
    }
}

proof fn lemma_broken_inv(o: OpeningModel, r: RunModel, reason: Seq<char>)
    requires
        run_inv(o, r),
        earned(o, r),
        r.current is Some,
        r.records[r.current->0.node].attempts.len() > 0,
        r.records[r.current->0.node].attempts.last().output is None,
        r.records[r.current->0.node].attempts.last().error == Some(reason),
    ensures
        run_inv(o, broken(r, reason)),
        earned(o, broken(r, reason)),
{
    let s = broken(r, reason);
    let u = r.current->0.node;
    let done = completed(r);
    assert(completed(s) =~= done);
    assert(line(r)[done.len() as int] == u);
    assert(line(s) =~= done + r.queue);
    assert forall|i: int, j: int|
        0 <= i < line(s).len() && 0 <= j < line(s).len() && i != j implies line(s)[i]
        != line(s)[j] by {
        let a = if i < done.len() {
            i
        } else {
            i + 1
        };
        let b = if j < done.len() {
            j
        } else {
            j + 1
        };
        assert(line(r)[a] == line(s)[i] && line(r)[b] == line(s)[j]);
    }
    assert forall|i: int| 0 <= i < line(s).len() implies 0 <= #[trigger] line(s)[i] < o.nodes.len()
        && waiting(arcs_of(o), line(s)[i], completed(s)) == 0 by {
        let a = if i < done.len() {
            i
        } else {
            i + 1
        };
        assert(line(r)[a] == line(s)[i]);
    }
    assert(!done.contains(u)) by {
        if done.contains(u) {
            let i = choose|i: int| 0 <= i < done.len() && done[i] == u;
            assert(line(r)[i] == u);
        }
    }
    assert forall|v: int| 0 <= v < o.nodes.len() implies ((#[trigger] s.records[v]).state is Succeeded
        <==> completed(s).contains(v)) by {
        assert(r.records[v].state is Succeeded <==> done.contains(v));
    }
    assert forall|v: int| 0 <= v < o.nodes.len() && v != u implies (#[trigger] s.records[v]).state !is Failed by {
        assert(r.records[v].state !is Failed);
    }
    assert(tried_within(o, s)) by {
        assert forall|v: int| 0 <= v < s.records.len() implies (#[trigger] s.records[v]).attempts.len()
            <= attempt_limit(o.nodes[v]) by {
            assert(r.records[v].attempts.len() <= attempt_limit(o.nodes[v]));
        }
    }
    assert forall|v: int| 0 <= v < o.nodes.len() && (#[trigger] s.records[v]).state is Skipped implies s.remaining[v]
        == 0 && s.buffers[v].len() == 0 && !line(s).contains(v) by {
        assert(r.records[v].state is Skipped);
        if line(s).contains(v) {
            let i = choose|i: int| 0 <= i < line(s).len() && line(s)[i] == v;
            let a = if i < done.len() {
                i
            } else {
                i + 1
            };
            assert(line(r)[a] == v);
        }
    }
}

proof fn lemma_retried_inv(o: OpeningModel, r: RunModel)
    requires
        run_inv(o, r),
        earned(o, r),
        r.current is Some,
        r.current->0.attempt < attempt_limit(o.nodes[r.current->0.node]),
    ensures
        run_inv(o, retried(r)),
        earned(o, retried(r)),
        unwritten(retried(r)),
{
    let s = retried(r);
    assert(completed(s) =~= completed(r));
    assert(line(s) =~= line(r));
}

/// A node is given work only after every node that feeds it has given its outputs.
pub proof fn work_follows_its_inputs(o: OpeningModel, r: RunModel, i: int, k: int)
    requires
        run_inv(o, r),
        0 <= i < line(r).len(),
        0 <= k < arcs_of(o).len(),
        arcs_of(o)[k].1 == line(r)[i],
    ensures
        completed(r).contains(arcs_of(o)[k].0),
{
    lemma_waiting_none(arcs_of(o), line(r)[i], completed(r), k);
}

/// No node is forgotten: in a run that has not failed and has nothing left to do, each node has
/// succeeded, is skipped, or is behind a node that did not succeed.
pub proof fn no_node_is_forgotten(o: OpeningModel, r: RunModel, v: int)
    requires
        run_inv(o, r),
        !r.failed,
        r.current is None,
        r.queue.len() == 0,
        0 <= v < o.nodes.len(),
    ensures
        r.records[v].state is Succeeded || r.records[v].state is Skipped || exists|k: int|
            0 <= k < arcs_of(o).len() && (#[trigger] arcs_of(o)[k]).1 == v && !completed(
                r,
            ).contains(arcs_of(o)[k].0),
{
    assert(line(r) =~= completed(r));
    assert(r.remaining[v] == waiting(arcs_of(o), v, completed(r)));
    if r.remaining[v] > 0 {
        let k = lemma_waiting_some(arcs_of(o), v, completed(r));
        assert(arcs_of(o)[k].1 == v);
    }
}

/// At most one node of a run fails, and none is tried more often than its retries allow.
pub proof fn failures_and_attempts_are_bounded(o: OpeningModel, r: RunModel, v: int, w: int)
    requires
        run_inv(o, r),
        0 <= v < o.nodes.len(),
        0 <= w < o.nodes.len(),
    ensures
        r.records[v].state is Failed && r.records[w].state is Failed ==> v == w,
        r.records[v].attempts.len() <= attempt_limit(o.nodes[v]),
{
}

/// No node is given work twice.
pub proof fn work_is_given_once(o: OpeningModel, r: RunModel, i: int, j: int)
    requires
        run_inv(o, r),
        0 <= i < j < line(r).len(),
    ensures
        line(r)[i] != line(r)[j],
{
}


/// What became of an attempt.
#[derive(Debug)]
pub enum Outcome {
    Execution(NodeExecution),
    Error(RunnerError),
    TimedOut,
}

pub ghost enum OutcomeModel {
    Completed(PortsModel),
    Failed { retryable: bool, reason: Seq<char> },
    Error(Seq<char>),
    TimedOut,
}

impl Outcome {
    pub open spec fn view(self) -> OutcomeModel {
        match self {
            Outcome::Execution(NodeExecution::Completed(out)) => OutcomeModel::Completed(out@),
            Outcome::Execution(NodeExecution::Failed { retryable, reason }) => OutcomeModel::Failed {
                retryable,
                reason: reason@,
            },
            Outcome::Error(e) => OutcomeModel::Error(e.text()),
            Outcome::TimedOut => OutcomeModel::TimedOut,
        }
    }
}

/// What is to be done after an attempt.
#[derive(Clone, Copy, Debug, PartialEq, Eq, Structural)]
pub enum Next {
    NodeDone,
    Retry { failed_attempt: u32 },
    RunFailed,
}

pub open spec fn timeout_reason(ms: u64) -> Seq<char> {
    "timeout after "@ + decimal(ms as nat) + " ms"@
}

/// The run after an attempt. A failure that may be retried, and a timeout, is tried again while
/// attempts are left; every other failure ends the run.
pub open spec fn after(
    o: OpeningModel,
    r: RunModel,
    outcome: OutcomeModel,
    started_at: u64,
    finished_at: u64,
    table: Seq<Vec<bool>>,
) -> (RunModel, Next) {
    let a = r.current->0;
    let left = a.attempt < attempt_limit(o.nodes[a.node]);
    let retry = Next::Retry { failed_attempt: a.attempt as u32 };
    match outcome {
        OutcomeModel::Completed(out) => (
            succeeded(o, noted(r, started_at, finished_at, Some(out), None), out, table),
            Next::NodeDone,
        ),
        OutcomeModel::Failed { retryable, reason } => {
            let s = noted(r, started_at, finished_at, None, Some(reason));
            if retryable && left {
                (retried(s), retry)
            } else {
                (broken(s, reason), Next::RunFailed)
            }
        },
        OutcomeModel::Error(m) => (
            broken(noted(r, started_at, finished_at, None, Some(m)), m),
            Next::RunFailed,
        ),
        OutcomeModel::TimedOut => {
            let reason = timeout_reason(node_timeout(o, a.node));
            let s = noted(r, started_at, finished_at, None, Some(reason));
            if left {
                (retried(s), retry)
            } else {
                (broken(s, reason), Next::RunFailed)
            }
        },
    }
}

pub open spec fn node_phrase(id: Seq<char>, middle: Seq<char>, attempt: int) -> Seq<char> {
    "node '"@ + id + middle + decimal(attempt as nat)
}

/// What is told when an attempt starts.
pub open spec fn start_events(id: Seq<char>, attempt: int) -> Seq<EventModel> {
    seq![
        EventModel::State { id, state: StateModel::Running, attempt },
        EventModel::Log {
            id,
            level: "info"@,
            message: node_phrase(id, "' attempt "@, attempt) + " started"@,
        },
    ]
}

/// What is told when an attempt has ended.
pub open spec fn end_events(
    id: Seq<char>,
    attempt: int,
    outcome: OutcomeModel,
    next: Next,
    timeout_ms: u64,
) -> Seq<EventModel> {
    match outcome {
        OutcomeModel::Completed(out) => seq![
            EventModel::State { id, state: StateModel::Succeeded, attempt },
            EventModel::Log {
                id,
                level: "info"@,
                message: node_phrase(id, "' succeeded on attempt "@, attempt),
            },
            EventModel::Line(
                id + " -> succeeded (attempt "@ + decimal(attempt as nat) + ", outputs="@ + join(
                    port_names(out),
                    ", "@,
                ) + ")"@,
            ),
        ],
        OutcomeModel::Failed { retryable, reason } => {
            let told = seq![
                EventModel::Log {
                    id,
                    level: "warn"@,
                    message: node_phrase(id, "' failed on attempt "@, attempt) + " ("@ + reason
                        + ")"@,
                },
            ];
            if next is RunFailed {
                told.push(EventModel::State { id, state: StateModel::Failed(reason), attempt })
            } else {
                told
            }
        },
        OutcomeModel::Error(m) => seq![
            EventModel::Log {
                id,
                level: "error"@,
                message: node_phrase(id, "' error on attempt "@, attempt) + ": "@ + m,
            },
            EventModel::State { id, state: StateModel::Failed(m), attempt },
        ],
        OutcomeModel::TimedOut => {
            let told = seq![
                EventModel::Log {
                    id,
                    level: "warn"@,
                    message: node_phrase(id, "' timed out on attempt "@, attempt) + " after "@
                        + decimal(timeout_ms as nat) + " ms"@,
                },
            ];
            if next is RunFailed {
                told.push(
                    EventModel::State {
                        id,
                        state: StateModel::Failed(timeout_reason(timeout_ms)),
                        attempt,
                    },
                )
            } else {
                told
            }
        },
    }
}

#[derive(Debug)]
struct Active {
    node: usize,
    attempt: u32,
    inputs: NodeInputs,
}

/// A run of an opening.
#[derive(Debug)]
pub struct Runner {
    opening: Opening,
    trace_id: TraceId,
    opening_id: OpeningId,
    names: Vec<String>,
    arcs: Vec<(usize, usize)>,
    records: Vec<NodeRecord>,
    inbound: Vec<usize>,
    remaining: Vec<usize>,
    queue: Vec<usize>,
    buffers: Vec<NodeInputs>,
    outputs: Vec<(usize, NodeOutputs)>,
    failed: bool,
    current: Option<Active>,
}

pub open spec fn input_models(s: Seq<NodeInputs>) -> Seq<PortsModel> {
    s.map_values(|b: NodeInputs| b@)
}

impl Active {
    closed spec fn view(self) -> ActiveModel {
        ActiveModel { node: self.node as int, attempt: self.attempt as int, inputs: self.inputs@ }
    }
}

/// A node to be tried.
#[derive(Clone, Copy, Debug, PartialEq, Eq, Structural)]
pub struct Attempt {
    pub node: usize,
    pub attempt: u32,
    pub timeout_ms: u64,
}

impl Runner {
    pub closed spec fn view(self) -> RunModel {
        RunModel {
            records: record_models(self.records@),
            inbound: ints(self.inbound@),
            remaining: ints(self.remaining@),
            queue: ints(self.queue@),
            buffers: input_models(self.buffers@),
            outputs: cache_model(self.outputs@),
            failed: self.failed,
            current: match self.current {
                Some(a) => Some(a@),
                None => None,
            },
        }
    }

    /// The opening that is run.
    pub closed spec fn source(self) -> OpeningModel {
        self.opening@
    }

    pub closed spec fn valid(self) -> bool {
        &&& self.sound()
        &&& runnable(self.opening@) ==> unwritten(self@)
    }

    closed spec fn sound(self) -> bool {
        &&& texts(self.names@) == ids(self.opening@.nodes)
        &&& arcs_model(self.arcs@) == arcs_of(self.opening@)
        &&& shape_inv(self.opening@, self@)
        &&& runnable(self.opening@) ==> run_inv(self.opening@, self@) && earned(
            self.opening@,
            self@,
        )
    }

    pub closed spec fn trace(self) -> TraceId {
        self.trace_id
    }

    pub closed spec fn run_id(self) -> OpeningId {
        self.opening_id
    }

    pub fn trace_id(&self) -> (r: TraceId)
        ensures
            r == self.trace(),
    {
        self.trace_id
    }

    pub fn opening_id(&self) -> (r: OpeningId)
        ensures
            r == self.run_id(),
    {
        self.opening_id
    }

    pub fn opening(&self) -> (r: &Opening)
        ensures
            r@ == self.source(),
    {
        &self.opening
    }

    /// A run of `opening` before its first node is tried. Nodes that share a name share a record; the
    /// first of them is the one that is run.
    pub fn new(opening: Opening, trace_id: TraceId, opening_id: OpeningId) -> (r: Self)
        ensures
            r.valid(),
            r.source() == opening@,
            r@ == fresh(opening@),
            r.trace() == trace_id,
            r.run_id() == opening_id,
    {
        let ghost o = opening@;
        let n = opening.nodes.len();
        let mut names: Vec<String> = Vec::new();
        let mut records: Vec<NodeRecord> = Vec::new();
        let mut buffers: Vec<NodeInputs> = Vec::new();
        let mut inbound: Vec<usize> = Vec::new();
        let mut i: usize = 0;
        while i < n
            invariant
                i <= n,
                n == opening.nodes.len(),
                o == opening@,
                names@.len() == i,
                records@.len() == i,
                buffers@.len() == i,
                inbound@.len() == i,
                forall|k: int| 0 <= k < i ==> (#[trigger] names@[k])@ == o.nodes[k].id,
                forall|k: int|
                    0 <= k < i ==> (#[trigger] records@[k]).node_id@ == o.nodes[k].id
                        && records@[k].state is Pending && records@[k].attempts@.len() == 0,
                forall|k: int|
                    0 <= k < i ==> (#[trigger] buffers@[k])@ == PortsModel::empty(),
                forall|k: int| 0 <= k < i ==> #[trigger] inbound@[k] == 0,
            decreases n - i,
        {
            names.push(opening.nodes[i].id.clone());
            records.push(
                NodeRecord {
                    node_id: opening.nodes[i].id.clone(),
                    state: NodeState::Pending,
                    attempts: Vec::new(),
                },
            );
            buffers.push(NodeInputs::new());
            inbound.push(0);
            i += 1;
        }
        assert(texts(names@) =~= ids(o.nodes));
        let arcs = arcs_between(&opening, &names);
        let ghost model = arcs_of(o);
        let ghost none: Seq<int> = seq![];
        let mut k: usize = 0;
        while k < arcs.len()
            invariant
                k <= arcs.len(),
                model == arcs_model(arcs@),
                model == arcs_of(o),
                none == Seq::<int>::empty(),
                inbound@.len() == n,
                forall|v: int|
                    0 <= v < n ==> #[trigger] inbound@[v] == waiting(model.take(k as int), v, none),
            decreases arcs.len() - k,
        {
            let to = arcs[k].1;
            assert(model[k as int] == (arcs@[k as int].0 as int, to as int));
            proof {
                assert forall|v: int| 0 <= v < n implies #[trigger] waiting(
                    model.take(k + 1),
                    v,
                    none,
                ) == waiting(model.take(k as int), v, none) + (if v == to {
                    1int
                } else {
                    0int
                }) by {
                    lemma_waiting_split(model, k as int, v, none);
                }
                lemma_waiting_bound(model.take(k as int), to as int, none);
            }
            if to < n {
                inbound.set(to, inbound[to] + 1);
            }
            k += 1;
        }
        assert(model.take(model.len() as int) =~= model);
        let mut remaining: Vec<usize> = Vec::new();
        let mut queue: Vec<usize> = Vec::new();
        let mut v: usize = 0;
        assert(ints(queue@) =~= roots(o, 0));
        while v < n
            invariant
                v <= n,
                n == o.nodes.len(),
                names@.len() == n,
                texts(names@) == ids(o.nodes),
                model == arcs_of(o),
                inbound@.len() == n,
                remaining@ == inbound@.take(v as int),
                none == Seq::<int>::empty(),
                forall|w: int| 0 <= w < n ==> #[trigger] inbound@[w] == waiting(model, w, none),
                ints(queue@) == roots(o, v as int),
            decreases n - v,
        {
            remaining.push(inbound[v]);
            proof {
                lemma_home(o, v as int);
                assert(texts(names@)[v as int] == names@[v as int]@);
                assert(ids(o.nodes)[v as int] == o.nodes[v as int].id);
            }
            let w = place_in(&names, names[v].as_str());
            assert(w == home(o, v as int));
            if inbound[w] == 0 {
                let ghost q = queue@;
                queue.push(w);
                assert(ints(queue@) =~= ints(q).push(w as int));
            }
            v += 1;
        }
        let r = Runner {
            opening,
            trace_id,
            opening_id,
            names,
            arcs,
            records,
            inbound,
            remaining,
            queue,
            buffers,
            outputs: Vec::new(),
            failed: false,
            current: None,
        };
        proof {
            let f = fresh(o);
            assert forall|k: int| 0 <= k < n implies record_models(r.records@)[k]
                == f.records[k] by {
                assert(attempt_models(r.records@[k].attempts@) =~= seq![]);
            }
            assert(r@.records =~= f.records);
            assert(r@.inbound =~= f.inbound);
            assert(r@.remaining =~= f.remaining);
            assert(r@.buffers =~= f.buffers);
            assert(r@.outputs =~= f.outputs);
            lemma_fresh_inv(o);
        }
        r
    }

    /// Takes the next waiting node in hand. There is none once the run has failed.
    pub fn take_next(&mut self) -> (r: Option<Attempt>)
        requires
            old(self).valid(),
            old(self)@.current is None,
        ensures
            final(self).valid(),
            final(self).source() == old(self).source(),
            final(self).trace() == old(self).trace(),
            final(self).run_id() == old(self).run_id(),
            match r {
                None => final(self)@ == old(self)@ && (old(self)@.failed
                    || old(self)@.queue.len() == 0),
                Some(a) => !old(self)@.failed && old(self)@.queue.len() > 0 && final(self)@
                    == taken(old(self)@) && a.node == old(self)@.queue[0] && a.attempt == 1
                    && a.timeout_ms == node_timeout(old(self).source(), a.node as int),
            },
    {
        if self.failed || self.queue.len() == 0 {
            return None;
        }
        let ghost r0 = self@;
        let ghost o = self.opening@;
        proof {
            if runnable(o) {
                lemma_taken_inv(o, r0);
            }
            assert(r0.queue[0] == self.queue@[0]);
            assert(0 <= r0.queue[0] < o.nodes.len());
        }
        let ghost q0 = self.queue@;
        let u = self.queue.remove(0);
        assert(ints(self.queue@) =~= r0.queue.skip(1));
        self.set_state(u, NodeState::Running);
        let inputs = self.buffers[u].clone();
        let ghost b0 = self.buffers@;
        self.buffers.set(u, NodeInputs::new());
        assert(input_models(self.buffers@) =~= r0.buffers.update(u as int, PortsModel::empty()));
        self.current = Some(Active { node: u, attempt: 1, inputs });
        assert(self@ == taken(r0));
        assert(shape_inv(o, self@)) by {
            assert forall|i: int| 0 <= i < self@.queue.len() implies 0 <= #[trigger] self@.queue[i]
                < o.nodes.len() by {
                assert(self@.queue[i] == r0.queue[i + 1]);
            }
            assert forall|v: int| 0 <= v < o.nodes.len() implies (#[trigger] self@.records[v]).id
                == o.nodes[v].id by {
                assert(r0.records[v].id == o.nodes[v].id);
            }
        }
        Some(Attempt { node: u, attempt: 1, timeout_ms: self.timeout_of(u) })
    }

    fn set_state(&mut self, node: usize, state: NodeState)
        requires
            node < old(self).records.len(),
        ensures
            record_models(final(self).records@) == record_models(old(self).records@).update(
                node as int,
                (RecordModel { state: state@, ..record_models(old(self).records@)[node as int] }),
            ),
            final(self).records.len() == old(self).records.len(),
            final(self).opening == old(self).opening,
            final(self).trace_id == old(self).trace_id,
            final(self).opening_id == old(self).opening_id,
            final(self).names == old(self).names,
            final(self).arcs == old(self).arcs,
            final(self).inbound == old(self).inbound,
            final(self).remaining == old(self).remaining,
            final(self).queue == old(self).queue,
            final(self).buffers == old(self).buffers,
            final(self).outputs == old(self).outputs,
            final(self).failed == old(self).failed,
            final(self).current == old(self).current,
    {
        let ghost before = self.records@;
        self.records[node].state = state;
        assert(record_models(self.records@) =~= record_models(before).update(
            node as int,
            RecordModel { state: state@, ..record_models(before)[node as int] },
        ));
    }

    fn timeout_of(&self, node: usize) -> (r: u64)
        requires
            node < self.opening.nodes.len(),
        ensures
            r == node_timeout(self.opening@, node as int),
    {
        match self.opening.nodes[node].timeout_ms {
            Some(t) => t,
            None => match self.opening.policy.timeout_ms {
                Some(t) => t,
                None => 30_000,
            },
        }
    }
}

fn arcs_between(opening: &Opening, names: &Vec<String>) -> (r: Vec<(usize, usize)>)
    requires
        texts(names@) == ids(opening@.nodes),
    ensures
        arcs_model(r@) == arcs_of(opening@),
{
    let ghost all = arcs_of(opening@);
    let mut arcs: Vec<(usize, usize)> = Vec::new();
    let mut i: usize = 0;
    assert(arcs_model(arcs@) =~= all.take(0));
    while i < opening.edges.len()
        invariant
            i <= opening.edges.len(),
            all == arcs_of(opening@),
            all.len() == opening.edges@.len(),
            opening@.edges == edge_models(opening.edges@),
            texts(names@) == ids(opening@.nodes),
            arcs_model(arcs@) == all.take(i as int),
        decreases opening.edges.len() - i,
    {
        assert(opening@.edges[i as int] == opening.edges@[i as int]@);
        let a = place_in(names, opening.edges[i].from.node.as_str());
        let b = place_in(names, opening.edges[i].to.node.as_str());
        let ghost o = arcs@;
        arcs.push((a, b));
        proof {
            assert(arcs_model(arcs@) =~= arcs_model(o).push((a as int, b as int)));
            assert(all[i as int] == (a as int, b as int));
            assert(all.take(i + 1) =~= all.take(i as int).push((a as int, b as int)));
        }
        i += 1;
    }
    assert(all.take(all.len() as int) =~= all);
    arcs
}

impl Runner {
    /// Whether nothing but the state of the run differs.
    closed spec fn same_run(self, other: Runner) -> bool {
        &&& self.opening == other.opening
        &&& self.trace_id == other.trace_id
        &&& self.opening_id == other.opening_id
        &&& self.names == other.names
        &&& self.arcs == other.arcs
    }

    fn note(
        &mut self,
        started_at: u64,
        finished_at: u64,
        output: Option<NodeOutputs>,
        error: Option<String>,
    )
        requires
            old(self).valid(),
            old(self)@.current is Some,
        ensures
            final(self)@ == noted(
                old(self)@,
                started_at,
                finished_at,
                crate::openings::records::opt_outputs(output),
                crate::text::opt_text(error),
            ),
            final(self).same_run(*old(self)),
            final(self).sound(),
    {
        let ghost r0 = self@;
        proof {
            if runnable(self.opening@) {
                lemma_noted_inv(
                    self.opening@,
                    r0,
                    started_at,
                    finished_at,
                    crate::openings::records::opt_outputs(output),
                    crate::text::opt_text(error),
                );
            }
        }
        if let Some(a) = &self.current {
            let record = NodeAttemptRecord {
                attempt: a.attempt,
                started_at,
                finished_at,
                inputs: a.inputs.clone(),
                output,
                error,
            };
            let node = a.node;
            let ghost before = self.records@;
            self.records[node].attempts.push(record);
            proof {
                let model = record@;
                let rec = r0.records[node as int];
                assert(attempt_models(self.records@[node as int].attempts@) =~= attempt_models(
                    before[node as int].attempts@,
                ).push(model));
                assert(record_models(self.records@) =~= r0.records.update(
                    node as int,
                    RecordModel { attempts: rec.attempts.push(model), ..rec },
                ));
            }
        }
    }

    fn fail(&mut self, reason: String)
        requires
            old(self).sound(),
            old(self)@.current is Some,
            old(self)@.records[old(self)@.current->0.node].attempts.len() > 0,
            old(self)@.records[old(self)@.current->0.node].attempts.last().output is None,
            old(self)@.records[old(self)@.current->0.node].attempts.last().error == Some(reason@),
        ensures
            final(self)@ == broken(old(self)@, reason@),
            final(self).same_run(*old(self)),
            final(self).valid(),
    {
        let ghost r0 = self@;
        proof {
            if runnable(self.opening@) {
                lemma_broken_inv(self.opening@, r0, reason@);
            }
        }
        let node = match &self.current {
            Some(a) => a.node,
            None => 0,
        };
        self.set_state(node, NodeState::Failed { reason });
        self.failed = true;
        self.current = None;
    }

    fn retry(&mut self)
        requires
            old(self).sound(),
            old(self)@.current matches Some(a) && a.attempt < attempt_limit(
                old(self).source().nodes[a.node],
            ),
        ensures
            final(self)@ == retried(old(self)@),
            final(self).same_run(*old(self)),
            final(self).valid(),
    {
        let ghost r0 = self@;
        proof {
            if runnable(self.opening@) {
                lemma_retried_inv(self.opening@, r0);
            }
        }
        let next = match &self.current {
            Some(a) => Some(
                Active { node: a.node, attempt: a.attempt + 1, inputs: a.inputs.clone() },
            ),
            None => None,
        };
        self.current = next;
    }

    fn succeed(&mut self, out: &NodeOutputs, floats: &Vec<Vec<bool>>)
        requires
            old(self).sound(),
            old(self)@.current is Some,
            !old(self)@.failed,
            old(self)@.records[old(self)@.current->0.node].attempts.len() > 0,
            old(self)@.records[old(self)@.current->0.node].attempts.last().output is Some,
            old(self)@.records[old(self)@.current->0.node].attempts.last().error is None,
        ensures
            final(self)@ == succeeded(old(self).source(), old(self)@, out@, floats@),
            final(self).same_run(*old(self)),
            final(self).valid(),
    {
        let ghost r0 = self@;
        let ghost o = self.opening@;
        let ghost done = completed(r0);
        proof {
            if runnable(o) {
                lemma_succeeded_inv(o, r0, out@, floats@);
                lemma_first_mid(o, r0, out@);
            }
            lemma_spots(o);
        }
        let u = match &self.current {
            Some(a) => a.node,
            None => 0,
        };
        self.set_state(u, NodeState::Succeeded);
        let ghost c0 = self.outputs@;
        self.outputs.push((u, out.clone()));
        assert(cache_model(self.outputs@) =~= cache_model(c0).push((u as int, out@)));
        self.current = None;
        let ghost r1 = self@;
        let mut k: usize = 0;
        while k < self.opening.edges.len()
            invariant
                k <= self.opening.edges.len(),
                o == self.opening@,
                self.same_run(*old(self)),
                texts(self.names@) == ids(o.nodes),
                arcs_model(self.arcs@) == arcs_of(o),
                arcs_of(o).len() == o.edges.len(),
                self@ == handed_on_upto(o, r1, k as int, u as int, out@, floats@),
                shape_inv(o, self@),
                self@.current is None,
                !self@.failed,
                runnable(o) ==> mid_inv(o, self@, k as int, u as int, done) && earned(o, self@),
            decreases self.opening.edges.len() - k,
        {
            proof {
                if runnable(o) {
                    lemma_mid_step(o, self@, k as int, u as int, done, out@, floats@);
                }
                lemma_handed_shape(o, self@, k as int, u as int, out@, floats@);
                assert(arcs_of(o)[k as int] == (
                    self.arcs@[k as int].0 as int,
                    self.arcs@[k as int].1 as int,
                ));
            }
            self.hand_on(k, u, out, floats);
            k += 1;
        }
    }

    fn hand_on(&mut self, k: usize, u: usize, out: &NodeOutputs, floats: &Vec<Vec<bool>>)
        requires
            k < old(self).opening.edges.len(),
            texts(old(self).names@) == ids(old(self).opening@.nodes),
            arcs_model(old(self).arcs@) == arcs_of(old(self).opening@),
            arcs_of(old(self).opening@).len() == old(self).opening@.edges.len(),
            same_shape(old(self).opening@, old(self)@),
        ensures
            final(self).same_run(*old(self)),
            final(self)@ == handed_on(
                old(self).opening@,
                old(self)@,
                k as int,
                u as int,
                out@,
                floats@,
            ),
    {
        let ghost r0 = self@;
        let ghost o = self.opening@;
        let (from, to) = self.arcs[k];
        assert(arcs_of(o)[k as int] == (from as int, to as int));
        assert(o.edges[k as int] == self.opening.edges@[k as int]@);
        if from != u || to >= self.opening.nodes.len() {
            return ;
        }
        let passes = match &self.opening.edges[k].predicate {
            None => true,
            Some(p) => {
                let port = self.opening.edges[k].from.port.as_str();
                if k < floats.len() {
                    evaluate_predicate(p, port, out, &floats[k])
                } else {
                    let none: Vec<bool> = Vec::new();
                    assert(none@ =~= verdict_row(floats@, k as int));
                    evaluate_predicate(p, port, out, &none)
                }
            },
        };
        if passes {
            if let Some(values) = out.ports.get(self.opening.edges[k].from.port.as_str()) {
                let ghost b0 = self.buffers@;
                let mut b = self.buffers[to].clone();
                b.ports.push_all(self.opening.edges[k].to.port.as_str(), values);
                self.buffers.set(to, b);
                assert(input_models(self.buffers@) =~= input_models(b0).update(to as int, b@));
            }
        }
        if self.remaining[to] > 0 {
            let ghost m0 = self.remaining@;
            let left: usize = self.remaining[to] - 1;
            self.remaining.set(to, left);
            assert(ints(self.remaining@) =~= ints(m0).update(to as int, left as int));
            if left == 0 {
                let delivered = !self.buffers[to].ports.is_empty();
                let had_inbound = self.inbound[to] > 0;
                if delivered || !had_inbound {
                    let ghost q0 = self.queue@;
                    self.queue.push(to);
                    assert(ints(self.queue@) =~= ints(q0).push(to as int));
                } else {
                    self.set_state(to, NodeState::Skipped);
                }
            }
        }
    }

    /// The attempt in hand.
    pub fn attempt_in_hand(&self) -> (r: Option<Attempt>)
        requires
            self.valid(),
        ensures
            match (r, self@.current) {
                (Some(a), Some(c)) => a.node == c.node && a.attempt == c.attempt && a.timeout_ms
                    == node_timeout(self.source(), c.node),
                (None, None) => true,
                _ => false,
            },
    {
        match &self.current {
            Some(a) => {
                Some(
                    Attempt {
                        node: a.node,
                        attempt: a.attempt,
                        timeout_ms: self.timeout_of(a.node),
                    },
                )
            },
            None => None,
        }
    }

    /// The inputs of the node in hand.
    pub fn inputs_in_hand(&self) -> (r: Option<&NodeInputs>)
        ensures
            match (r, self@.current) {
                (Some(i), Some(c)) => i@ == c.inputs,
                (None, None) => true,
                _ => false,
            },
    {
        match &self.current {
            Some(a) => Some(&a.inputs),
            None => None,
        }
    }

    /// What is told when the attempt in hand starts.
    pub fn start_events(&self) -> (r: Vec<RunEvent>)
        requires
            self.valid(),
            self@.current is Some,
        ensures
            event_models(r@) == start_events(
                self.source().nodes[self@.current->0.node].id,
                self@.current->0.attempt,
            ),
    {
        let mut out: Vec<RunEvent> = Vec::new();
        if let Some(a) = &self.current {
            let id = self.opening.nodes[a.node].id.clone();
            out.push(
                RunEvent::NodeState {
                    node_id: id.clone(),
                    state: NodeState::Running,
                    attempt: a.attempt,
                },
            );
            let mut message = phrase(id.as_str(), "' attempt ", a.attempt);
            message.append(" started");
            out.push(RunEvent::LogLine { node_id: id, level: "info".to_owned(), message });
            assert(event_models(out@) =~= start_events(id@, a.attempt as int));
        }
        out
    }

    /// Takes the outcome of the attempt in hand. `floats` holds, for each edge and each value at
    /// the edge's port, the verdict of its predicate's comparison as floating point numbers.
    pub fn finish_attempt(
        &mut self,
        outcome: Outcome,
        started_at: u64,
        finished_at: u64,
        floats: &Vec<Vec<bool>>,
    ) -> (r: (Next, Vec<RunEvent>))
        requires
            old(self).valid(),
            old(self)@.current is Some,
        ensures
            final(self).valid(),
            final(self).source() == old(self).source(),
            final(self).trace() == old(self).trace(),
            final(self).run_id() == old(self).run_id(),
            (final(self)@, r.0) == after(
                old(self).source(),
                old(self)@,
                outcome@,
                started_at,
                finished_at,
                floats@,
            ),
            event_models(r.1@) == end_events(
                old(self).source().nodes[old(self)@.current->0.node].id,
                old(self)@.current->0.attempt,
                outcome@,
                r.0,
                node_timeout(old(self).source(), old(self)@.current->0.node),
            ),
    {
        let ghost r0 = self@;
        let ghost o = self.opening@;
        let (node, attempt): (usize, u32) = match &self.current {
            Some(a) => (a.node, a.attempt),
            None => (0, 0),
        };
        let id = self.opening.nodes[node].id.clone();
        let timeout_ms = self.timeout_of(node);
        let max = self.opening.nodes[node].retry.max_attempts;
        let limit: u32 = if max == 0 {
            1
        } else {
            max
        };
        match outcome {
            Outcome::Execution(NodeExecution::Completed(outputs)) => {
                self.note(started_at, finished_at, Some(outputs.clone()), None);
                self.succeed(&outputs, floats);
                (Next::NodeDone, success_events(&id, attempt, &outputs))
            },
            Outcome::Execution(NodeExecution::Failed { retryable, reason }) => {
                self.note(started_at, finished_at, None, Some(reason.clone()));
                let mut message = phrase(id.as_str(), "' failed on attempt ", attempt);
                message.append(" (");
                message.append(reason.as_str());
                message.append(")");
                if retryable && attempt < limit {
                    self.retry();
                    (
                        Next::Retry { failed_attempt: attempt },
                        one_event(log_line(&id, "warn", message)),
                    )
                } else {
                    let told = failed_event(&id, attempt, &reason);
                    self.fail(reason);
                    (Next::RunFailed, two_events(log_line(&id, "warn", message), told))
                }
            },
            Outcome::Error(err) => {
                let reason = err.message();
                self.note(started_at, finished_at, None, Some(reason.clone()));
                let mut message = phrase(id.as_str(), "' error on attempt ", attempt);
                message.append(": ");
                message.append(reason.as_str());
                let told = failed_event(&id, attempt, &reason);
                self.fail(reason);
                (Next::RunFailed, two_events(log_line(&id, "error", message), told))
            },
            Outcome::TimedOut => {
                let ms = decimal_text(timeout_ms);
                let reason = concat3("timeout after ", ms.as_str(), " ms");
                self.note(started_at, finished_at, None, Some(reason.clone()));
                let mut message = phrase(id.as_str(), "' timed out on attempt ", attempt);
                message.append(" after ");
                message.append(ms.as_str());
                message.append(" ms");
                if attempt < limit {
                    self.retry();
                    (
                        Next::Retry { failed_attempt: attempt },
                        one_event(log_line(&id, "warn", message)),
                    )
                } else {
                    let told = failed_event(&id, attempt, &reason);
                    self.fail(reason);
                    (Next::RunFailed, two_events(log_line(&id, "warn", message), told))
                }
            },
        }
    }
}

fn phrase(id: &str, middle: &str, attempt: u32) -> (r: String)
    ensures
        r@ == node_phrase(id@, middle@, attempt as int),
{
    let mut out = concat3("node '", id, middle);
    out.append(decimal_text(attempt as u64).as_str());
    out
}

fn log_line(id: &String, level: &str, message: String) -> (r: RunEvent)
    ensures
        r@ == (EventModel::Log { id: id@, level: level@, message: message@ }),
{
    RunEvent::LogLine { node_id: id.clone(), level: level.to_owned(), message }
}

fn failed_event(id: &String, attempt: u32, reason: &String) -> (r: RunEvent)
    ensures
        r@ == (EventModel::State {
            id: id@,
            state: StateModel::Failed(reason@),
            attempt: attempt as int,
        }),
{
    RunEvent::NodeState {
        node_id: id.clone(),
        state: NodeState::Failed { reason: reason.clone() },
        attempt,
    }
}

fn one_event(e: RunEvent) -> (r: Vec<RunEvent>)
    ensures
        event_models(r@) == seq![e@],
{
    let mut out: Vec<RunEvent> = Vec::new();
    out.push(e);
    assert(event_models(out@) =~= seq![e@]);
    out
}

fn two_events(a: RunEvent, b: RunEvent) -> (r: Vec<RunEvent>)
    ensures
        event_models(r@) == seq![a@, b@],
        event_models(r@) == seq![a@].push(b@),
{
    let mut out: Vec<RunEvent> = Vec::new();
    out.push(a);
    out.push(b);
    assert(event_models(out@) =~= seq![a@, b@]);
    assert(event_models(out@) =~= seq![a@].push(b@));
    out
}

fn success_events(id: &String, attempt: u32, out: &NodeOutputs) -> (r: Vec<RunEvent>)
    ensures
        event_models(r@) == end_events(
            id@,
            attempt as int,
            OutcomeModel::Completed(out@),
            Next::NodeDone,
            0,
        ),
{
    let mut events: Vec<RunEvent> = Vec::new();
    events.push(
        RunEvent::NodeState { node_id: id.clone(), state: NodeState::Succeeded, attempt },
    );
    events.push(log_line(id, "info", phrase(id.as_str(), "' succeeded on attempt ", attempt)));
    let n = decimal_text(attempt as u64);
    let mut line = concat3(id.as_str(), " -> succeeded (attempt ", n.as_str());
    line.append(", outputs=");
    let names = out.ports.names();
    line.append(joined(&names, ", ").as_str());
    line.append(")");
    events.push(RunEvent::TraceLine { line });
    assert(event_models(events@) =~= end_events(
        id@,
        attempt as int,
        OutcomeModel::Completed(out@),
        Next::NodeDone,
        0,
    ));
    events
}

/// The state in which a node is left when the run is over.
pub open spec fn settled(r: RecordModel) -> RecordModel {
    match r.state {
        StateModel::Succeeded => r,
        StateModel::Failed(_) => r,
        _ => RecordModel { state: StateModel::Skipped, ..r },
    }
}

pub open spec fn all_settled(s: Seq<RecordModel>) -> Seq<RecordModel> {
    s.map_values(|r: RecordModel| settled(r))
}

/// What is told of the nodes that are left behind.
pub open spec fn settle_events(s: Seq<RecordModel>) -> Seq<EventModel>
    decreases s.len(),
{
    if s.len() == 0 {
        seq![]
    } else {
        let before = settle_events(s.drop_last());
        match s.last().state {
            StateModel::Succeeded => before,
            StateModel::Failed(_) => before,
            _ => before.push(
                EventModel::State { id: s.last().id, state: StateModel::Skipped, attempt: 0 },
            ),
        }
    }
}

/// The bytes that one node adds to the digest of a run: the digest of its last outputs and the
/// text of its last error.
pub open spec fn record_bytes(r: RecordModel) -> Seq<u8> {
    if r.attempts.len() == 0 {
        seq![]
    } else {
        let a = r.attempts.last();
        (match a.output {
            Some(o) => outputs_digest(o),
            None => seq![],
        }) + (match a.error {
            Some(e) => utf8(e),
            None => seq![],
        })
    }
}

pub open spec fn run_bytes(s: Seq<RecordModel>) -> Seq<u8>
    decreases s.len(),
{
    if s.len() == 0 {
        seq![]
    } else {
        run_bytes(s.drop_last()) + record_bytes(s.last())
    }
}

pub open spec fn traces_of(s: Seq<RecordModel>) -> Seq<NodeTraceModel> {
    s.map_values(|r: RecordModel| node_trace_of(r))
}

/// Whether a run ends well: nothing failed and the success condition holds.
pub open spec fn ends_well(o: OpeningModel, r: RunModel, table: Seq<Vec<bool>>) -> bool {
    !r.failed && success_holds(o.success, ids(o.nodes), r.outputs, table)
}

/// A run that ends well leaves no failed node behind, and every node of a run that is over has
/// succeeded, failed or been skipped.
pub proof fn ends_are_clean(o: OpeningModel, r: RunModel, table: Seq<Vec<bool>>, v: int)
    requires
        run_inv(o, r),
        0 <= v < o.nodes.len(),
    ensures
        ends_well(o, r, table) ==> all_settled(r.records)[v].state !is Failed,
        all_settled(r.records)[v].state is Succeeded || all_settled(r.records)[v].state is Failed
            || all_settled(r.records)[v].state is Skipped,
{
    assert(r.records[v].state !is Failed || r.failed);
}

/// The trace that a run leaves.
pub open spec fn trace_of_run(
    o: OpeningModel,
    r: RunModel,
    table: Seq<Vec<bool>>,
    trace_id: TraceId,
    opening_id: OpeningId,
) -> TraceModel {
    TraceModel {
        trace_id,
        opening_id,
        nodes: traces_of(shown(o, all_settled(r.records))),
        ladder: seq![],
        final_hash: blake3_hex(run_bytes(shown(o, r.records))),
        success: ends_well(o, r, table),
    }
}

fn trace_nodes(records: &Vec<NodeRecord>, places: &Vec<usize>) -> (r: Vec<NodeTrace>)
    requires
        forall|v: int| 0 <= v < places@.len() ==> #[trigger] places@[v] < records@.len(),
    ensures
        trace_models(r@) == traces_of(picked(record_models(records@), ints(places@))),
{
    let mut r: Vec<NodeTrace> = Vec::new();
    let mut i: usize = 0;
    while i < places.len()
        invariant
            i <= places.len(),
            r@.len() == i,
            forall|v: int| 0 <= v < places@.len() ==> #[trigger] places@[v] < records@.len(),
            forall|k: int|
                0 <= k < i ==> (#[trigger] r@[k])@ == node_trace_of(records@[places@[k] as int]@),
        decreases places.len() - i,
    {
        r.push(trace_node(&records[places[i]]));
        i += 1;
    }
    assert(trace_models(r@) =~= traces_of(picked(record_models(records@), ints(places@))));
    r
}

/// The records that stand for the nodes at these positions.
pub open spec fn picked(s: Seq<RecordModel>, places: Seq<int>) -> Seq<RecordModel> {
    places.map_values(|p: int| s[p])
}

/// The positions that stand for the nodes of an opening.
pub open spec fn homes(o: OpeningModel) -> Seq<int> {
    Seq::new(o.nodes.len(), |v: int| home(o, v))
}

/// The record of each node of an opening; nodes that share a name share one.
pub open spec fn shown(o: OpeningModel, s: Seq<RecordModel>) -> Seq<RecordModel> {
    picked(s, homes(o))
}

/// The records of the first `n` nodes, one for each name.
pub open spec fn kept(o: OpeningModel, s: Seq<RecordModel>, n: int) -> Seq<RecordModel>
    decreases n,
{
    if n <= 0 {
        seq![]
    } else if home(o, n - 1) == n - 1 {
        kept(o, s, n - 1).push(s[n - 1])
    } else {
        kept(o, s, n - 1)
    }
}

/// Where no two nodes share a name, each has the record at its own position.
pub proof fn lemma_shown(o: OpeningModel, s: Seq<RecordModel>)
    requires
        runnable(o),
        s.len() == o.nodes.len(),
    ensures
        shown(o, s) == s,
        kept(o, s, s.len() as int) == s,
{
    assert forall|v: int| 0 <= v < s.len() implies home(o, v) == v by {
        lemma_home(o, v);
    }
    assert(shown(o, s) =~= s);
    lemma_kept(o, s, s.len() as int);
    assert(s.take(s.len() as int) =~= s);
}

proof fn lemma_kept(o: OpeningModel, s: Seq<RecordModel>, n: int)
    requires
        runnable(o),
        s.len() == o.nodes.len(),
        0 <= n <= s.len(),
    ensures
        kept(o, s, n) == s.take(n),
    decreases n,
{
    if n > 0 {
        lemma_kept(o, s, n - 1);
        lemma_home(o, n - 1);
        assert(s.take(n) =~= s.take(n - 1).push(s[n - 1]));
    }
}

fn places_of(opening: &Opening, names: &Vec<String>) -> (r: Vec<usize>)
    requires
        texts(names@) == ids(opening@.nodes),
    ensures
        ints(r@) == homes(opening@),
        r@.len() == opening@.nodes.len(),
        forall|v: int| 0 <= v < r@.len() ==> #[trigger] r@[v] == home(opening@, v) && r@[v] <= v,
{
    let ghost o = opening@;
    let mut r: Vec<usize> = Vec::new();
    let mut i: usize = 0;
    assert(texts(names@).len() == names@.len());
    while i < names.len()
        invariant
            i <= names.len(),
            o == opening@,
            texts(names@) == ids(o.nodes),
            names@.len() == o.nodes.len(),
            r@.len() == i,
            forall|v: int| 0 <= v < i ==> #[trigger] r@[v] == home(o, v) && r@[v] <= v,
        decreases names.len() - i,
    {
        proof {
            lemma_home(o, i as int);
            assert(texts(names@)[i as int] == names@[i as int]@);
            assert(ids(o.nodes)[i as int] == o.nodes[i as int].id);
        }
        r.push(place_in(names, names[i].as_str()));
        i += 1;
    }
    assert(ints(r@) =~= homes(o));
    r
}

fn firsts(records: Vec<NodeRecord>, places: &Vec<usize>, opening: &Opening) -> (r: Vec<NodeRecord>)
    requires
        places@.len() == records@.len(),
        forall|v: int| 0 <= v < places@.len() ==> #[trigger] places@[v] == home(opening@, v),
    ensures
        record_models(r@) == kept(
            opening@,
            record_models(records@),
            records@.len() as int,
        ),
{
    let ghost o = opening@;
    let ghost all = record_models(records@);
    let mut left = records;
    let mut out: Vec<NodeRecord> = Vec::new();
    let mut i: usize = 0;
    assert(record_models(out@) =~= seq![]);
    assert(record_models(left@) =~= all.skip(0));
    while i < places.len()
        invariant
            i <= places.len(),
            o == opening@,
            all.len() == places@.len(),
            forall|v: int| 0 <= v < places@.len() ==> #[trigger] places@[v] == home(opening@, v),
            record_models(left@) == all.skip(i as int),
            record_models(out@) == kept(o, all, i as int),
        decreases places.len() - i,
    {
        assert(record_models(left@).len() == left@.len());
        let ghost l = left@;
        assert(record_models(l)[0] == l[0]@);
        let record = left.remove(0);
        assert(record@ == all[i as int]);
        assert(record_models(left@) =~= record_models(l).skip(1));
        assert(all.skip(i as int).skip(1) =~= all.skip(i + 1));
        if places[i] == i {
            let ghost b = out@;
            out.push(record);
            assert(record_models(out@) =~= record_models(b).push(record@));
        }
        i += 1;
    }
    out
}

/// The digest of a run, from the records of its nodes.
fn run_digest(records: &Vec<NodeRecord>, places: &Vec<usize>) -> (r: String)
    requires
        forall|v: int| 0 <= v < places@.len() ==> #[trigger] places@[v] < records@.len(),
    ensures
        r@ == blake3_hex(run_bytes(picked(record_models(records@), ints(places@)))),
{
    let ghost all = picked(record_models(records@), ints(places@));
    let mut bytes: Vec<u8> = Vec::new();
    let mut i: usize = 0;
    while i < places.len()
        invariant
            i <= places.len(),
            all == picked(record_models(records@), ints(places@)),
            forall|v: int| 0 <= v < places@.len() ==> #[trigger] places@[v] < records@.len(),
            bytes@ == run_bytes(all.take(i as int)),
        decreases places.len() - i,
    {
        assert(all.take(i + 1).drop_last() =~= all.take(i as int));
        let record = &records[places[i]];
        assert(all.take(i + 1).last() == record@);
        let n = record.attempts.len();
        let ghost b0 = bytes@;
        if n > 0 {
            let a = &record.attempts[n - 1];
            assert(record@.attempts.last() == a@);
            if let Some(out) = &a.output {
                let d = out.hash();
                push_bytes(&mut bytes, &d);
            }
            if let Some(e) = &a.error {
                push_text(&mut bytes, e.as_str());
            }
        }
        assert(bytes@ =~= b0 + record_bytes(record@));
        i += 1;
    }
    assert(all.take(all.len() as int) =~= all);
    blake3_hex_of(&bytes)
}

/// Every opening that is read can be run with its nodes told apart.
pub proof fn read_openings_are_runnable(doc: YamlModel, source: Seq<char>)
    requires
        opening_of(doc, source) is Ok,
    ensures
        runnable(opening_of(doc, source)->Ok_0),
{
    read_openings_are_well_formed(doc, source);
}

/// A run of an opening whose nodes have different names, and whose edges join them, keeps the
/// invariant of runs.
pub proof fn valid_runs_keep_the_invariant(r: Runner)
    requires
        r.valid(),
        runnable(r.source()),
    ensures
        run_inv(r.source(), r@),
        earned(r.source(), r@),
        unwritten(r@),
{
}

/// In every run, what waits for a node and what the node in hand was given stands at ports that
/// edges lead to.
pub proof fn inputs_stand_where_edges_lead(r: Runner)
    requires
        r.valid(),
    ensures
        fed(r.source(), r@),
{
}

impl Runner {
    /// Ends the run: what did not come to its turn is skipped, and the trace is told last.
    /// `floats` holds, for each expression of the success condition and each value
    /// at its port, the verdict of the comparison as floating point numbers.
    pub fn finish(self, floats: &Vec<Vec<bool>>) -> (r: (RunReport, Vec<RunEvent>))
        requires
            self.valid(),
        ensures
            record_models(r.0.node_records@) == kept(
                self.source(),
                all_settled(self@.records),
                self@.records.len() as int,
            ),
            r.0.trace@ == trace_of_run(
                self.source(),
                self@,
                floats@,
                self.trace(),
                self.run_id(),
            ),
            event_models(r.1@) == settle_events(
                kept(self.source(), self@.records, self@.records.len() as int),
            ).push(EventModel::Completed(r.0.trace@)),
    {
        let ghost o = self.opening@;
        let success = !self.failed && evaluate_success(
            &self.opening.success,
            &self.names,
            &self.outputs,
            floats,
        );
        let trace_id = self.trace_id;
        let opening_id = self.opening_id;
        let places = places_of(&self.opening, &self.names);
        let opening = self.opening;
        let mut records = self.records;
        let ghost all = record_models(records@);
        let final_hash = run_digest(&records, &places);
        let mut events: Vec<RunEvent> = Vec::new();
        let mut i: usize = 0;
        assert(event_models(events@) =~= seq![]);
        while i < records.len()
            invariant
                i <= records.len(),
                records@.len() == all.len(),
                places@.len() == all.len(),
                forall|v: int| 0 <= v < places@.len() ==> #[trigger] places@[v] == home(o, v),
                forall|k: int| i <= k < all.len() ==> (#[trigger] records@[k])@ == all[k],
                forall|k: int| 0 <= k < i ==> (#[trigger] records@[k])@ == settled(all[k]),
                event_models(events@) == settle_events(kept(o, all, i as int)),
            decreases records.len() - i,
        {
            let ghost before = kept(o, all, i as int);
            assert(before.push(all[i as int]).drop_last() =~= before);
            assert(records@[i as int]@ == all[i as int]);
            let over = match &records[i].state {
                NodeState::Succeeded => true,
                NodeState::Failed { .. } => true,
                _ => false,
            };
            if !over {
                records[i].state = NodeState::Skipped;
                if places[i] == i {
                    let ghost e0 = events@;
                    let e = RunEvent::NodeState {
                        node_id: records[i].node_id.clone(),
                        state: NodeState::Skipped,
                        attempt: 0,
                    };
                    events.push(e);
                    assert(event_models(events@) =~= event_models(e0).push(e@));
                }
            }
            assert(records@[i as int]@ == settled(all[i as int]));
            i += 1;
        }
        assert(record_models(records@) =~= all_settled(all));
        let told = RunTrace {
            trace_id,
            opening_id,
            nodes: trace_nodes(&records, &places),
            ladder: Vec::new(),
            final_hash: final_hash.clone(),
            success,
        };
        let trace = RunTrace {
            trace_id,
            opening_id,
            nodes: trace_nodes(&records, &places),
            ladder: Vec::new(),
            final_hash,
            success,
        };
        assert(trace@.ladder =~= seq![]);
        assert(told@.ladder =~= seq![]);
        let ghost e0 = events@;
        let e = RunEvent::Completed { trace: told };
        events.push(e);
        assert(event_models(events@) =~= event_models(e0).push(e@));
        (RunReport { trace, node_records: firsts(records, &places, &opening) }, events)
    }
}

} // verus!
