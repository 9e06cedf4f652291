//! What a run leaves behind: states, attempts, traces, events.

use crate::ids::{OpeningId, TraceId};
use crate::openings::values::{outputs_hex, NodeInputs, NodeOutputs, PortsModel};
use crate::text::{concat, concat3, copy_opt, decimal, decimal_text, opt_text};
use vstd::prelude::*;

verus! {

#[derive(Debug)]
pub enum RunnerError {
    Executor(String),
    NodeFailure { node_id: String, reason: String },
    Timeout { node_id: String, timeout_ms: u64 },
}

impl RunnerError {
    pub open spec fn text(self) -> Seq<char> {
        match self {
            RunnerError::Executor(m) => "executor error: "@ + m@,
            RunnerError::NodeFailure { node_id, reason } => "node '"@ + node_id@ + "' failed: "@
                + reason@,
            RunnerError::Timeout { node_id, timeout_ms } => "node '"@ + node_id@
                + "' timed out after "@ + decimal(timeout_ms as nat) + " ms"@,
        }
    }

    pub fn message(&self) -> (r: String)
        ensures
            r@ == self.text(),
    {
        match self {
            RunnerError::Executor(m) => concat("executor error: ", m.as_str()),
            RunnerError::NodeFailure { node_id, reason } => {
                let mut out = concat3("node '", node_id.as_str(), "' failed: ");
                out.append(reason.as_str());
                out
            },
            RunnerError::Timeout { node_id, timeout_ms } => {
                let mut out = concat3("node '", node_id.as_str(), "' timed out after ");
                out.append(decimal_text(*timeout_ms).as_str());
                out.append(" ms");
                out
            },
        }
    }
}

#[derive(Debug)]
pub enum NodeExecution {
    Completed(NodeOutputs),
    Failed { retryable: bool, reason: String },
}

#[derive(Debug)]
pub enum NodeState {
    Pending,
    Running,
    Succeeded,
    Failed { reason: String },
    Skipped,
    Cancelled,
}

pub ghost enum StateModel {
    Pending,
    Running,
    Succeeded,
    Failed(Seq<char>),
    Skipped,
    Cancelled,
}

impl NodeState {
    pub open spec fn view(self) -> StateModel {
        match self {
            NodeState::Pending => StateModel::Pending,
            NodeState::Running => StateModel::Running,
            NodeState::Succeeded => StateModel::Succeeded,
            NodeState::Failed { reason } => StateModel::Failed(reason@),
            NodeState::Skipped => StateModel::Skipped,
            NodeState::Cancelled => StateModel::Cancelled,
        }
    }
}

impl Clone for NodeState {
    fn clone(&self) -> (r: Self)
        ensures
            r@ == self@,
    {
        match self {
            NodeState::Pending => NodeState::Pending,
            NodeState::Running => NodeState::Running,
            NodeState::Succeeded => NodeState::Succeeded,
            NodeState::Failed { reason } => NodeState::Failed { reason: reason.clone() },
            NodeState::Skipped => NodeState::Skipped,
            NodeState::Cancelled => NodeState::Cancelled,
        }
    }
}

/// One attempt at a node. The times are milliseconds since the epoch.
#[derive(Debug)]
pub struct NodeAttemptRecord {
    pub attempt: u32,
    pub started_at: u64,
    pub finished_at: u64,
    pub inputs: NodeInputs,
    pub output: Option<NodeOutputs>,
    pub error: Option<String>,
}

#[derive(Debug)]
pub struct NodeRecord {
    pub node_id: String,
    pub state: NodeState,
    pub attempts: Vec<NodeAttemptRecord>,
}

pub ghost struct AttemptModel {
    pub attempt: int,
    pub started_at: int,
    pub finished_at: int,
    pub inputs: PortsModel,
    pub output: Option<PortsModel>,
    pub error: Option<Seq<char>>,
}

pub ghost struct RecordModel {
    pub id: Seq<char>,
    pub state: StateModel,
    pub attempts: Seq<AttemptModel>,
}

pub open spec fn opt_outputs(o: Option<NodeOutputs>) -> Option<PortsModel> {
    match o {
        Some(o) => Some(o@),
        None => None,
    }
}

impl NodeAttemptRecord {
    pub open spec fn view(self) -> AttemptModel {
        AttemptModel {
            attempt: self.attempt as int,
            started_at: self.started_at as int,
            finished_at: self.finished_at as int,
            inputs: self.inputs@,
            output: opt_outputs(self.output),
            error: opt_text(self.error),
        }
    }
}

pub open spec fn attempt_models(s: Seq<NodeAttemptRecord>) -> Seq<AttemptModel> {
    s.map_values(|a: NodeAttemptRecord| a@)
}

impl NodeRecord {
    pub open spec fn view(self) -> RecordModel {
        RecordModel {
            id: self.node_id@,
            state: self.state@,
            attempts: attempt_models(self.attempts@),
        }
    }
}

pub open spec fn record_models(s: Seq<NodeRecord>) -> Seq<RecordModel> {
    s.map_values(|r: NodeRecord| r@)
}

#[derive(Debug)]
pub struct NodeAttemptTrace {
    pub attempt: u32,
    pub inputs: NodeInputs,
    pub outputs: Option<NodeOutputs>,
    pub output_hash: Option<String>,
    pub error: Option<String>,
}

#[derive(Debug)]
pub struct NodeTrace {
    pub node_id: String,
    pub state: NodeState,
    pub final_attempt: Option<NodeAttemptTrace>,
}

/// A hop of a message in the ladder view of a trace.
#[derive(Debug)]
pub struct LadderHop {
    pub ts_ms: u64,
    pub topic: String,
    pub schema_id: u16,
    pub frame_len: u32,
    pub body_len: u32,
    pub from: String,
    pub to: String,
    pub msg_id: u64,
    pub kind: Option<String>,
}

#[derive(Debug)]
pub struct RunTrace {
    pub trace_id: TraceId,
    pub opening_id: OpeningId,
    pub nodes: Vec<NodeTrace>,
    pub ladder: Vec<LadderHop>,
    pub final_hash: String,
    pub success: bool,
}

#[derive(Debug)]
pub struct RunReport {
    pub trace: RunTrace,
    pub node_records: Vec<NodeRecord>,
}

pub ghost struct FinalAttemptModel {
    pub attempt: int,
    pub inputs: PortsModel,
    pub outputs: Option<PortsModel>,
    pub output_hash: Option<Seq<char>>,
    pub error: Option<Seq<char>>,
}

pub ghost struct NodeTraceModel {
    pub id: Seq<char>,
    pub state: StateModel,
    pub final_attempt: Option<FinalAttemptModel>,
}

impl NodeAttemptTrace {
    pub open spec fn view(self) -> FinalAttemptModel {
        FinalAttemptModel {
            attempt: self.attempt as int,
            inputs: self.inputs@,
            outputs: opt_outputs(self.outputs),
            output_hash: opt_text(self.output_hash),
            error: opt_text(self.error),
        }
    }
}

pub open spec fn opt_final(a: Option<NodeAttemptTrace>) -> Option<FinalAttemptModel> {
    match a {
        Some(a) => Some(a@),
        None => None,
    }
}

impl NodeTrace {
    pub open spec fn view(self) -> NodeTraceModel {
        NodeTraceModel {
            id: self.node_id@,
            state: self.state@,
            final_attempt: opt_final(self.final_attempt),
        }
    }
}

pub open spec fn trace_models(s: Seq<NodeTrace>) -> Seq<NodeTraceModel> {
    s.map_values(|t: NodeTrace| t@)
}

pub ghost struct TraceModel {
    pub trace_id: TraceId,
    pub opening_id: OpeningId,
    pub nodes: Seq<NodeTraceModel>,
    pub ladder: Seq<LadderHop>,
    pub final_hash: Seq<char>,
    pub success: bool,
}

impl RunTrace {
    pub open spec fn view(self) -> TraceModel {
        TraceModel {
            trace_id: self.trace_id,
            opening_id: self.opening_id,
            nodes: trace_models(self.nodes@),
            ladder: self.ladder@,
            final_hash: self.final_hash@,
            success: self.success,
        }
    }
}

/// What a run tells those who watch it.
#[derive(Debug)]
pub enum RunEvent {
    NodeState { node_id: String, state: NodeState, attempt: u32 },
    LogLine { node_id: String, level: String, message: String },
    TraceLine { line: String },
    Completed { trace: RunTrace },
}

pub ghost enum EventModel {
    State { id: Seq<char>, state: StateModel, attempt: int },
    Log { id: Seq<char>, level: Seq<char>, message: Seq<char> },
    Line(Seq<char>),
    Completed(TraceModel),
}

impl RunEvent {
    pub open spec fn view(self) -> EventModel {
        match self {
            RunEvent::NodeState { node_id, state, attempt } => EventModel::State {
                id: node_id@,
                state: state@,
                attempt: attempt as int,
            },
            RunEvent::LogLine { node_id, level, message } => EventModel::Log {
                id: node_id@,
                level: level@,
                message: message@,
            },
            RunEvent::TraceLine { line } => EventModel::Line(line@),
            RunEvent::Completed { trace } => EventModel::Completed(trace@),
        }
    }
}

pub open spec fn event_models(s: Seq<RunEvent>) -> Seq<EventModel> {
    s.map_values(|e: RunEvent| e@)
}

/// The last attempt in a record, as it stands in a trace.
pub open spec fn last_attempt(r: RecordModel) -> Option<FinalAttemptModel> {
    if r.attempts.len() == 0 {
        None
    } else {
        let a = r.attempts.last();
        Some(
            FinalAttemptModel {
                attempt: a.attempt,
                inputs: a.inputs,
                outputs: a.output,
                output_hash: match a.output {
                    Some(o) => Some(outputs_hex(o)),
                    None => None,
                },
                error: a.error,
            },
        )
    }
}

pub open spec fn node_trace_of(r: RecordModel) -> NodeTraceModel {
    NodeTraceModel { id: r.id, state: r.state, final_attempt: last_attempt(r) }
}

fn trace_attempt(r: &NodeRecord) -> (t: Option<NodeAttemptTrace>)
    ensures
        opt_final(t) == last_attempt(r@),
{
    if r.attempts.len() == 0 {
        return None;
    }
    let a = &r.attempts[r.attempts.len() - 1];
    assert(attempt_models(r.attempts@).last() == a@);
    let (outputs, output_hash) = match &a.output {
        Some(o) => (Some(o.clone()), Some(o.hash_hex())),
        None => (None, None),
    };
    Some(
        NodeAttemptTrace {
            attempt: a.attempt,
            inputs: a.inputs.clone(),
            outputs,
            output_hash,
            error: copy_opt(&a.error),
        },
    )
}

/// A record as it stands in a trace.
pub fn trace_node(r: &NodeRecord) -> (t: NodeTrace)
    ensures
        t@ == node_trace_of(r@),
{
    NodeTrace { node_id: r.node_id.clone(), state: r.state.clone(), final_attempt: trace_attempt(r) }
}

} // verus!
