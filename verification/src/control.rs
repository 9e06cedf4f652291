//! What is asked of the daemon, and what it answers.

use crate::ids::{AgentId, OpeningId, TraceId};
use vstd::prelude::*;

verus! {

#[derive(Debug)]
pub enum ControlRequest {
    /// Run an opening.
    RunSubmit(RunSubmitRequest),
    /// Stop a run.
    RunCancel(RunCancelRequest),
}

#[derive(Debug)]
pub struct RunSubmitRequest {
    pub request_id: TraceId,
    pub opening_yaml: String,
}

#[derive(Debug)]
pub struct RunCancelRequest {
    pub trace_id: TraceId,
}

#[allow(inconsistent_fields)]
#[derive(Debug)]
pub enum ControlResponse {
    RunAccepted(RunAccepted),
    RunRejected { request_id: TraceId, reason: String },
    RunCancelled { request_id: TraceId, trace_id: TraceId },
}

#[derive(Debug)]
pub struct RunAccepted {
    pub request_id: TraceId,
    pub trace_id: TraceId,
    pub opening_id: OpeningId,
    pub opening_name: String,
}

/// The identifiers that go along with messages and spans.
#[derive(Clone, Copy, Debug)]
pub struct TraceContext {
    pub trace_id: TraceId,
    pub opening_id: OpeningId,
    pub agent_id: AgentId,
}

/// The identifiers as a span carries them.
pub open spec fn span_texts(c: TraceContext) -> (Seq<char>, Seq<char>, Seq<char>) {
    (
        crate::kb::traces::trace_text(c.trace_id),
        crate::kb::traces::opening_text(c.opening_id),
        crate::crew::common::agent_text(c.agent_id),
    )
}

impl TraceContext {
    /// What a child span is marked with, so that it belongs to the same trace.
    pub fn span_fields(&self) -> (r: (String, String, String))
        ensures
            (r.0@, r.1@, r.2@) == span_texts(*self),
    {
        (self.trace_id.text(), self.opening_id.text(), self.agent_id.text())
    }
}

} // verus!
