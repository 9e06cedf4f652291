//! Replaying a trace: running its nodes again and comparing what they give.

use crate::digest::{blake3_hex, blake3_hex_of, push_bytes, push_text, utf8};
use crate::ids::{OpeningId, TraceId};
use crate::openings::nodes::ids;
use crate::openings::model::OpeningModel;
use crate::openings::records::node_trace_of;
use crate::openings::records::{NodeExecution, NodeState, NodeTrace, NodeTraceModel, RecordModel};
use crate::openings::records::StateModel;
use crate::openings::runner::{all_settled, in_hand, record_bytes, record_fits, run_bytes, run_inv};
use crate::openings::runner::{lemma_shown, runnable, settled, trace_of_run, traces_of, RunModel};
use crate::openings::values::{outputs_digest, outputs_hex, PortsModel};
use crate::text::{
    concat, concat3, copy_opt, last_position, last_spot, lemma_last_spot, opt_text, same, texts,
};
use vstd::prelude::*;

verus! {

#[derive(Debug)]
pub struct ReplayMismatch {
    pub node_id: String,
    pub expected_hash: Option<String>,
    pub actual_hash: Option<String>,
    pub reason: String,
}

#[derive(Debug)]
pub struct ReplayReport {
    pub matches: bool,
    pub mismatches: Vec<ReplayMismatch>,
    pub replay_hash: String,
}

pub ghost struct MismatchModel {
    pub id: Seq<char>,
    pub expected_hash: Option<Seq<char>>,
    pub actual_hash: Option<Seq<char>>,
    pub reason: Seq<char>,
}

impl ReplayMismatch {
    pub open spec fn view(self) -> MismatchModel {
        MismatchModel {
            id: self.node_id@,
            expected_hash: opt_text(self.expected_hash),
            actual_hash: opt_text(self.actual_hash),
            reason: self.reason@,
        }
    }
}

pub open spec fn mismatch_models(s: Seq<ReplayMismatch>) -> Seq<MismatchModel> {
    s.map_values(|m: ReplayMismatch| m@)
}

pub ghost enum ExecutionModel {
    Completed(PortsModel),
    Failed(Seq<char>),
}

impl NodeExecution {
    pub open spec fn result(self) -> ExecutionModel {
        match self {
            NodeExecution::Completed(out) => ExecutionModel::Completed(out@),
            NodeExecution::Failed { reason, .. } => ExecutionModel::Failed(reason@),
        }
    }
}

/// What a replay does about a node of a trace.
pub ghost enum Step {
    Pass,
    Mismatch(MismatchModel),
    Execute(int),
}

pub open spec fn recorded_hash(t: NodeTraceModel) -> Option<Seq<char>> {
    match t.final_attempt {
        Some(a) => a.output_hash,
        None => None,
    }
}

/// Whether a node is run again, passed over, or wrong as it stands.
pub open spec fn step_for(names: Seq<Seq<char>>, t: NodeTraceModel) -> Step {
    match last_spot(names, t.id) {
        None => Step::Mismatch(
            MismatchModel {
                id: t.id,
                expected_hash: recorded_hash(t),
                actual_hash: None,
                reason: "node not present in opening definition"@,
            },
        ),
        Some(node) => match (t.final_attempt, t.state) {
            (Some(_), _) => Step::Execute(node),
            (None, StateModel::Failed(reason)) => Step::Mismatch(
                MismatchModel {
                    id: t.id,
                    expected_hash: None,
                    actual_hash: None,
                    reason: "node recorded as failed: "@ + reason,
                },
            ),
            (None, StateModel::Succeeded) => Step::Mismatch(
                MismatchModel {
                    id: t.id,
                    expected_hash: None,
                    actual_hash: None,
                    reason: "trace missing final attempt for succeeded node"@,
                },
            ),
            (None, _) => Step::Pass,
        },
    }
}

pub open spec fn state_name(s: StateModel) -> Seq<char> {
    match s {
        StateModel::Pending => "Pending"@,
        StateModel::Running => "Running"@,
        StateModel::Succeeded => "Succeeded"@,
        StateModel::Failed(_) => "Failed"@,
        StateModel::Skipped => "Skipped"@,
        StateModel::Cancelled => "Cancelled"@,
    }
}

/// The reason for which a node failed: the error of its last attempt, or else its state's.
pub open spec fn expected_reason(t: NodeTraceModel, recorded: Seq<char>) -> Seq<char> {
    match t.final_attempt->0.error {
        Some(e) => e,
        None => recorded,
    }
}

/// The bytes that a node run again adds to the digest of a replay, and what does not match.
pub open spec fn judged(t: NodeTraceModel, x: ExecutionModel) -> (Seq<u8>, Option<MismatchModel>) {
    let wrong = |actual_hash: Option<Seq<char>>, reason: Seq<char>|
        MismatchModel { id: t.id, expected_hash: recorded_hash(t), actual_hash, reason };
    match (x, t.state) {
        (ExecutionModel::Completed(out), StateModel::Succeeded) => (
            outputs_digest(out),
            if recorded_hash(t) == Some(outputs_hex(out)) {
                None
            } else {
                Some(wrong(Some(outputs_hex(out)), "output hash mismatch"@))
            },
        ),
        (ExecutionModel::Failed(reason), StateModel::Failed(recorded)) => {
            let expected = expected_reason(t, recorded);
            (
                utf8(expected),
                if expected == reason {
                    None
                } else {
                    Some(
                        MismatchModel {
                            id: t.id,
                            expected_hash: None,
                            actual_hash: None,
                            reason: "failure reason mismatch (expected '"@ + expected + "', got '"@
                                + reason + "')"@,
                        },
                    )
                },
            )
        },
        (ExecutionModel::Completed(out), StateModel::Failed(_)) => (
            seq![],
            Some(wrong(Some(outputs_hex(out)), "expected failure but replay succeeded"@)),
        ),
        (ExecutionModel::Failed(reason), StateModel::Succeeded) => (
            seq![],
            Some(wrong(None, "executor reported failure: "@ + reason)),
        ),
        (ExecutionModel::Completed(_), s) => (
            seq![],
            Some(
                wrong(None, "unexpected state "@ + state_name(s) + " for completed node"@),
            ),
        ),
        (ExecutionModel::Failed(reason), s) => (
            seq![],
            Some(
                wrong(
                    None,
                    "executor reported failure while node recorded as "@ + state_name(s) + ": "@
                        + reason,
                ),
            ),
        ),
    }
}

/// A replay in progress.
#[derive(Debug)]
pub struct Replay {
    names: Vec<String>,
    mismatches: Vec<ReplayMismatch>,
    bytes: Vec<u8>,
}

pub ghost struct ReplayModel {
    pub mismatches: Seq<MismatchModel>,
    pub bytes: Seq<u8>,
}

pub open spec fn with_mismatch(r: ReplayModel, m: Option<MismatchModel>) -> ReplayModel {
    match m {
        Some(m) => ReplayModel { mismatches: r.mismatches.push(m), ..r },
        None => r,
    }
}

fn state_text(s: &NodeState) -> (r: &'static str)
    ensures
        r@ == state_name(s@),
{
    match s {
        NodeState::Pending => "Pending",
        NodeState::Running => "Running",
        NodeState::Succeeded => "Succeeded",
        NodeState::Failed { .. } => "Failed",
        NodeState::Skipped => "Skipped",
        NodeState::Cancelled => "Cancelled",
    }
}

impl Replay {
    pub closed spec fn view(self) -> ReplayModel {
        ReplayModel { mismatches: mismatch_models(self.mismatches@), bytes: self.bytes@ }
    }

    /// The names of the opening's nodes.
    pub closed spec fn nodes(self) -> Seq<Seq<char>> {
        texts(self.names@)
    }

    /// A replay against the nodes with these names.
    pub fn new(names: Vec<String>) -> (r: Self)
        ensures
            r.nodes() == texts(names@),
            r@ == (ReplayModel { mismatches: seq![], bytes: seq![] }),
    {
        let r = Replay { names, mismatches: Vec::new(), bytes: Vec::new() };
        assert(r@.mismatches =~= seq![]);
        r
    }

    fn complain(
        &mut self,
        node_id: &String,
        expected_hash: Option<String>,
        actual_hash: Option<String>,
        reason: String,
    )
        ensures
            final(self).nodes() == old(self).nodes(),
            final(self)@ == with_mismatch(
                old(self)@,
                Some(
                    (MismatchModel {
                        id: node_id@,
                        expected_hash: opt_text(expected_hash),
                        actual_hash: opt_text(actual_hash),
                        reason: reason@,
                    }),
                ),
            ),
    {
        let ghost before = self.mismatches@;
        let m = ReplayMismatch {
            node_id: node_id.clone(),
            expected_hash,
            actual_hash,
            reason,
        };
        self.mismatches.push(m);
        assert(mismatch_models(self.mismatches@) =~= mismatch_models(before).push(m@));
    }

    /// Considers a node of the trace. Gives the position of the node to run again, if it is to be:
    /// the last one of its name.
    pub fn consider(&mut self, t: &NodeTrace) -> (r: Option<usize>)
        ensures
            final(self).nodes() == old(self).nodes(),
            match step_for(old(self).nodes(), t@) {
                Step::Pass => r is None && final(self)@ == old(self)@,
                Step::Mismatch(m) => r is None && final(self)@ == with_mismatch(
                    old(self)@,
                    Some(m),
                ),
                Step::Execute(node) => r is Some && r->0 == node && final(self)@ == old(self)@,
            },
    {
        let found = last_position(&self.names, t.node_id.as_str());
        let i = match found {
            None => {
                let expected = match &t.final_attempt {
                    Some(a) => copy_opt(&a.output_hash),
                    None => None,
                };
                self.complain(
                    &t.node_id,
                    expected,
                    None,
                    "node not present in opening definition".to_owned(),
                );
                return None;
            },
            Some(i) => i,
        };
        match (&t.final_attempt, &t.state) {
            (Some(_), _) => Some(i),
            (None, NodeState::Failed { reason }) => {
                self.complain(
                    &t.node_id,
                    None,
                    None,
                    concat("node recorded as failed: ", reason.as_str()),
                );
                None
            },
            (None, NodeState::Succeeded) => {
                self.complain(
                    &t.node_id,
                    None,
                    None,
                    "trace missing final attempt for succeeded node".to_owned(),
                );
                None
            },
            (None, _) => None,
        }
    }

    /// Takes what a node gave when it was run again.
    pub fn judge(&mut self, t: &NodeTrace, x: &NodeExecution)
        requires
            t@.final_attempt is Some,
        ensures
            final(self).nodes() == old(self).nodes(),
            final(self)@ == with_mismatch(
                (ReplayModel { bytes: old(self)@.bytes + judged(t@, x.result()).0, ..old(self)@ }),
                judged(t@, x.result()).1,
            ),
    {
        let ghost r0 = self@;
        let expected_hash = match &t.final_attempt {
            Some(a) => copy_opt(&a.output_hash),
            None => None,
        };
        match (x, &t.state) {
            (NodeExecution::Completed(out), NodeState::Succeeded) => {
                let digest = out.hash();
                push_bytes(&mut self.bytes, &digest);
                let actual = out.hash_hex();
                let agrees = match &expected_hash {
                    Some(h) => same(h.as_str(), actual.as_str()),
                    None => false,
                };
                if !agrees {
                    self.complain(
                        &t.node_id,
                        expected_hash,
                        Some(actual),
                        "output hash mismatch".to_owned(),
                    );
                }
            },
            (NodeExecution::Failed { reason, .. }, NodeState::Failed { reason: recorded }) => {
                let expected = match &t.final_attempt {
                    Some(a) => match &a.error {
                        Some(e) => e.as_str(),
                        None => recorded.as_str(),
                    },
                    None => recorded.as_str(),
                };
                push_text(&mut self.bytes, expected);
                if !same(expected, reason.as_str()) {
                    let mut message = concat3(
                        "failure reason mismatch (expected '",
                        expected,
                        "', got '",
                    );
                    message.append(reason.as_str());
                    message.append("')");
                    self.complain(&t.node_id, None, None, message);
                }
            },
            (NodeExecution::Completed(out), NodeState::Failed { .. }) => {
                self.complain(
                    &t.node_id,
                    expected_hash,
                    Some(out.hash_hex()),
                    "expected failure but replay succeeded".to_owned(),
                );
            },
            (NodeExecution::Failed { reason, .. }, NodeState::Succeeded) => {
                self.complain(
                    &t.node_id,
                    expected_hash,
                    None,
                    concat("executor reported failure: ", reason.as_str()),
                );
            },
            (NodeExecution::Completed(_), s) => {
                self.complain(
                    &t.node_id,
                    expected_hash,
                    None,
                    concat3("unexpected state ", state_text(s), " for completed node"),
                );
            },
            (NodeExecution::Failed { reason, .. }, s) => {
                let mut message = concat3(
                    "executor reported failure while node recorded as ",
                    state_text(s),
                    ": ",
                );
                message.append(reason.as_str());
                self.complain(&t.node_id, expected_hash, None, message);
            },
        }
        assert(r0.bytes + Seq::<u8>::empty() =~= r0.bytes);
    }

    /// The outcome of the replay.
    pub fn finish(self) -> (r: ReplayReport)
        ensures
            r.matches == (self@.mismatches.len() == 0),
            mismatch_models(r.mismatches@) == self@.mismatches,
            r.replay_hash@ == blake3_hex(self@.bytes),
    {
        let replay_hash = blake3_hex_of(&self.bytes);
        assert(self@.mismatches.len() == self.mismatches@.len());
        ReplayReport {
            matches: self.mismatches.len() == 0,
            mismatches: self.mismatches,
            replay_hash,
        }
    }
}

/// The replay of the first `n` nodes of a trace, where running node number `i` of the trace again
/// gives `results[i]`.
pub open spec fn replayed(
    names: Seq<Seq<char>>,
    traces: Seq<NodeTraceModel>,
    results: Seq<ExecutionModel>,
    n: int,
) -> ReplayModel
    decreases n,
{
    if n <= 0 {
        ReplayModel { mismatches: seq![], bytes: seq![] }
    } else {
        let before = replayed(names, traces, results, n - 1);
        let t = traces[n - 1];
        match step_for(names, t) {
            Step::Pass => before,
            Step::Mismatch(m) => with_mismatch(before, Some(m)),
            Step::Execute(_) => {
                let (bytes, m) = judged(t, results[n - 1]);
                with_mismatch(ReplayModel { bytes: before.bytes + bytes, ..before }, m)
            },
        }
    }
}

/// Whether running a node again gives what its record tells: the same outputs, or a failure for
/// the same reason.
pub open spec fn repeats(r: RecordModel, x: ExecutionModel) -> bool {
    match r.state {
        StateModel::Succeeded => x == ExecutionModel::Completed(r.attempts.last().output->0),
        StateModel::Failed(reason) => x == ExecutionModel::Failed(reason),
        _ => true,
    }
}

proof fn lemma_faithful(
    names: Seq<Seq<char>>,
    records: Seq<RecordModel>,
    results: Seq<ExecutionModel>,
    n: int,
)
    requires
        0 <= n <= records.len(),
        forall|v: int| 0 <= v < records.len() ==> names.contains((#[trigger] records[v]).id),
        forall|v: int| 0 <= v < records.len() ==> record_fits(#[trigger] records[v], false),
        forall|v: int| 0 <= v < records.len() ==> repeats(#[trigger] records[v], results[v]),
    ensures
        replayed(names, traces_of(all_settled(records)), results, n).mismatches.len() == 0,
        replayed(names, traces_of(all_settled(records)), results, n).bytes == run_bytes(
            records.take(n),
        ),
    decreases n,
{
    if n > 0 {
        lemma_faithful(names, records, results, n - 1);
        let r = records[n - 1];
        let t = traces_of(all_settled(records))[n - 1];
        assert(t == node_trace_of(settled(r)));
        assert(records.take(n).drop_last() =~= records.take(n - 1));
        assert(records.take(n).last() == r);
        assert(record_fits(r, false));
        assert(repeats(r, results[n - 1]));
        let before = replayed(names, traces_of(all_settled(records)), results, n - 1);
        lemma_last_spot(names, r.id);
        match r.state {
            StateModel::Succeeded => {
                let out = r.attempts.last().output->0;
                assert(record_bytes(r) =~= outputs_digest(out));
            },
            StateModel::Failed(reason) => {
                assert(record_bytes(r) =~= utf8(reason));
            },
            _ => {
                assert(before.bytes + record_bytes(r) =~= before.bytes);
            },
        }
    }
}

/// A replay that gives what the run gave has no mismatch and the digest of the run.
pub proof fn faithful_replays_match(
    o: OpeningModel,
    r: RunModel,
    results: Seq<ExecutionModel>,
    table: Seq<Vec<bool>>,
    trace_id: TraceId,
    opening_id: OpeningId,
)
    requires
        runnable(o),
        run_inv(o, r),
        r.current is None,
        results.len() == r.records.len(),
        forall|v: int| 0 <= v < r.records.len() ==> repeats(#[trigger] r.records[v], results[v]),
    ensures
        ({
            let trace = trace_of_run(o, r, table, trace_id, opening_id);
            let report = replayed(ids(o.nodes), trace.nodes, results, trace.nodes.len() as int);
            report.mismatches.len() == 0 && blake3_hex(report.bytes) == trace.final_hash
        }),
{
    let names = ids(o.nodes);
    lemma_shown(o, r.records);
    lemma_shown(o, all_settled(r.records));
    assert forall|v: int| 0 <= v < r.records.len() implies names.contains(
        (#[trigger] r.records[v]).id,
    ) by {
        assert(names[v] == o.nodes[v].id);
    }
    assert forall|v: int| 0 <= v < r.records.len() implies record_fits(
        #[trigger] r.records[v],
        false,
    ) by {
        assert(!in_hand(r).contains(v));
    }
    lemma_faithful(names, r.records, results, r.records.len() as int);
    assert(r.records.take(r.records.len() as int) =~= r.records);
}

} // verus!
