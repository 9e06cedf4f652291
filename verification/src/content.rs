//! Kinds of message bodies: their schema numbers and their names.

use crate::text::same;
use vstd::prelude::*;

verus! {

/// The schema number of no body.
pub const CT_INVALID: u16 = 0x0000;

pub const CT_OBSERVATION: u16 = 0x0101;

pub const CT_INTENT: u16 = 0x0102;

pub const CT_TOOL_CALL: u16 = 0x0103;

pub const CT_TOOL_RESULT: u16 = 0x0104;

pub const CT_ARTIFACT: u16 = 0x0105;

pub const CT_CRITIQUE: u16 = 0x0106;

pub const CT_STATE_DELTA: u16 = 0x0107;

pub const CT_RUN_EVENT: u16 = 0x0108;

pub const CT_CONTROL: u16 = 0x0109;

pub const CT_ERROR_REPORT: u16 = 0x010a;

pub const CT_AGENT_HELLO: u16 = 0x0201;

pub const CT_RUNTIME_HELLO: u16 = 0x0202;

pub const CT_INIT: u16 = 0x0203;

pub const CT_HOSTCALL_REQ: u16 = 0x0204;

pub const CT_HOSTCALL_RES: u16 = 0x0205;

pub const CT_INTENT_CONTACTS_RESOLVE: u16 = 0x0301;

pub const CT_CONTACTS_RESOLVED: u16 = 0x0302;

pub const CT_INTENT_CONTEXT_GATHER: u16 = 0x0303;

pub const CT_CONTEXT_BUNDLE: u16 = 0x0304;

pub const CT_INTENT_DRAFT_WRITE: u16 = 0x0305;

pub const CT_DRAFT_EMAIL: u16 = 0x0306;

pub const CT_INTENT_REVIEW_DRAFT: u16 = 0x0307;

pub const CT_REVIEW_CRITIQUE: u16 = 0x0308;

pub const CT_INTENT_SEND_MAIL: u16 = 0x0309;

pub const CT_MAIL_RESULT: u16 = 0x030a;

pub const CT_EXECUTOR_AGENT_REQUEST: u16 = 0x0401;

pub const CT_EXECUTOR_AGENT_RESPONSE: u16 = 0x0402;

pub const CT_CTRL_REQ: u16 = 0x0501;

pub const CT_CTRL_RESP: u16 = 0x0502;

pub const CT_METRICS_SNAPSHOT: u16 = 0x0601;

pub const CT_OPENING_EVENT: u16 = 0x0602;

pub const CT_TRACE_LINE: u16 = 0x0603;

pub const CT_AGENT_LOG_LINE: u16 = 0x0604;

pub const CT_ACTION_REQUEST: u16 = 0x0701;

pub const CT_ACTION_DECISION: u16 = 0x0702;

pub const CT_BUS_DROP_NOTICE: u16 = 0x0801;

/// The families of bodies.
#[derive(Clone, Copy, Debug, PartialEq, Eq, Hash, Structural)]
pub enum TypeFamily {
    Observation,
    Intent,
    Artifact,
    ToolResult,
    Critique,
    StateDelta,
    Error,
}

pub open spec fn family_text(f: TypeFamily) -> Seq<char> {
    match f {
        TypeFamily::Observation => "observation"@,
        TypeFamily::Intent => "intent"@,
        TypeFamily::Artifact => "artifact"@,
        TypeFamily::ToolResult => "toolresult"@,
        TypeFamily::Critique => "critique"@,
        TypeFamily::StateDelta => "statedelta"@,
        TypeFamily::Error => "error"@,
    }
}

impl TypeFamily {
    /// What the names of the family start with.
    pub fn prefix(self) -> (r: &'static str)
        ensures
            r@ == family_text(self),
    {
        match self {
            TypeFamily::Observation => "observation",
            TypeFamily::Intent => "intent",
            TypeFamily::Artifact => "artifact",
            TypeFamily::ToolResult => "toolresult",
            TypeFamily::Critique => "critique",
            TypeFamily::StateDelta => "statedelta",
            TypeFamily::Error => "error",
        }
    }
}

/// What is known of a kind of body.
#[derive(Clone, Copy, Debug)]
pub struct TypeDescriptor {
    pub schema_id: u16,
    pub family: TypeFamily,
    pub kind: &'static str,
    pub version: u16,
    pub type_str: &'static str,
    pub json_schema_id: &'static str,
}

pub ghost struct DescriptorModel {
    pub schema_id: u16,
    pub family: TypeFamily,
    pub kind: Seq<char>,
    pub version: u16,
    pub type_str: Seq<char>,
    pub json_schema_id: Seq<char>,
}

impl TypeDescriptor {
    pub open spec fn view(self) -> DescriptorModel {
        DescriptorModel {
            schema_id: self.schema_id,
            family: self.family,
            kind: self.kind@,
            version: self.version,
            type_str: self.type_str@,
            json_schema_id: self.json_schema_id@,
        }
    }
}

/// The name of a kind: its family, its own name and its version.
pub open spec fn kind_name(family: TypeFamily, kind: Seq<char>) -> Seq<char> {
    family_text(family) + "."@ + kind + ".v1"@
}

/// A kind of body in its first version.
pub open spec fn described(schema_id: u16, family: TypeFamily, kind: Seq<char>) -> DescriptorModel {
    DescriptorModel {
        schema_id,
        family,
        kind,
        version: 1,
        type_str: kind_name(family, kind),
        json_schema_id: "schema://runloop/"@ + kind_name(family, kind) + "#"@,
    }
}

/// All kinds of bodies.
pub open spec fn kinds() -> Seq<DescriptorModel> {
    seq![
        described(CT_OBSERVATION, TypeFamily::Observation, "generic"@),
        described(CT_INTENT, TypeFamily::Intent, "generic"@),
        described(CT_TOOL_CALL, TypeFamily::Intent, "tool_call"@),
        described(CT_TOOL_RESULT, TypeFamily::ToolResult, "generic"@),
        described(CT_ARTIFACT, TypeFamily::Artifact, "generic"@),
        described(CT_CRITIQUE, TypeFamily::Critique, "generic"@),
        described(CT_STATE_DELTA, TypeFamily::StateDelta, "generic"@),
        described(CT_RUN_EVENT, TypeFamily::Observation, "run.event"@),
        described(CT_CONTROL, TypeFamily::Intent, "control"@),
        described(CT_ERROR_REPORT, TypeFamily::Error, "report"@),
        described(CT_AGENT_HELLO, TypeFamily::Observation, "agent.hello"@),
        described(CT_RUNTIME_HELLO, TypeFamily::Observation, "runtime.hello"@),
        described(CT_INIT, TypeFamily::Intent, "init"@),
        described(CT_HOSTCALL_REQ, TypeFamily::Intent, "hostcall.request"@),
        described(CT_HOSTCALL_RES, TypeFamily::ToolResult, "hostcall.response"@),
        described(CT_INTENT_CONTACTS_RESOLVE, TypeFamily::Intent, "contacts.resolve"@),
        described(CT_CONTACTS_RESOLVED, TypeFamily::ToolResult, "contacts.resolved"@),
        described(CT_INTENT_CONTEXT_GATHER, TypeFamily::Intent, "context.gather"@),
        described(CT_CONTEXT_BUNDLE, TypeFamily::Observation, "context.bundle"@),
        described(CT_INTENT_DRAFT_WRITE, TypeFamily::Intent, "draft.write"@),
        described(CT_DRAFT_EMAIL, TypeFamily::Artifact, "draft.email"@),
        described(CT_INTENT_REVIEW_DRAFT, TypeFamily::Intent, "review.draft"@),
        described(CT_REVIEW_CRITIQUE, TypeFamily::Critique, "review"@),
        described(CT_INTENT_SEND_MAIL, TypeFamily::Intent, "send.mail"@),
        described(CT_MAIL_RESULT, TypeFamily::ToolResult, "mail.result"@),
        described(CT_EXECUTOR_AGENT_REQUEST, TypeFamily::Intent, "executor.agent.request"@),
        described(CT_EXECUTOR_AGENT_RESPONSE, TypeFamily::ToolResult, "executor.agent.response"@),
        described(CT_CTRL_REQ, TypeFamily::Intent, "ctrl.request"@),
        described(CT_CTRL_RESP, TypeFamily::ToolResult, "ctrl.response"@),
        described(CT_METRICS_SNAPSHOT, TypeFamily::Observation, "metrics.snapshot"@),
        described(CT_OPENING_EVENT, TypeFamily::Observation, "opening.event"@),
        described(CT_TRACE_LINE, TypeFamily::Observation, "trace.line"@),
        described(CT_AGENT_LOG_LINE, TypeFamily::Observation, "agent.log"@),
        described(CT_ACTION_REQUEST, TypeFamily::Intent, "action.request"@),
        described(CT_ACTION_DECISION, TypeFamily::ToolResult, "action.decision"@),
        described(CT_BUS_DROP_NOTICE, TypeFamily::Error, "bus.drop.notice"@),
    ]
}

/// The number of kinds.
pub const KIND_COUNT: usize = 36;

/// The name that is written out is the name that is put together.
proof fn lemma_names()
    ensures
        "observation.generic.v1"@ == kind_name(TypeFamily::Observation, "generic"@),
        "schema://runloop/observation.generic.v1#"@ == "schema://runloop/"@ + kind_name(TypeFamily::Observation, "generic"@) + "#"@,
        "intent.generic.v1"@ == kind_name(TypeFamily::Intent, "generic"@),
        "schema://runloop/intent.generic.v1#"@ == "schema://runloop/"@ + kind_name(TypeFamily::Intent, "generic"@) + "#"@,
        "intent.tool_call.v1"@ == kind_name(TypeFamily::Intent, "tool_call"@),
        "schema://runloop/intent.tool_call.v1#"@ == "schema://runloop/"@ + kind_name(TypeFamily::Intent, "tool_call"@) + "#"@,
        "toolresult.generic.v1"@ == kind_name(TypeFamily::ToolResult, "generic"@),
        "schema://runloop/toolresult.generic.v1#"@ == "schema://runloop/"@ + kind_name(TypeFamily::ToolResult, "generic"@) + "#"@,
        "artifact.generic.v1"@ == kind_name(TypeFamily::Artifact, "generic"@),
        "schema://runloop/artifact.generic.v1#"@ == "schema://runloop/"@ + kind_name(TypeFamily::Artifact, "generic"@) + "#"@,
        "critique.generic.v1"@ == kind_name(TypeFamily::Critique, "generic"@),
        "schema://runloop/critique.generic.v1#"@ == "schema://runloop/"@ + kind_name(TypeFamily::Critique, "generic"@) + "#"@,
        "statedelta.generic.v1"@ == kind_name(TypeFamily::StateDelta, "generic"@),
        "schema://runloop/statedelta.generic.v1#"@ == "schema://runloop/"@ + kind_name(TypeFamily::StateDelta, "generic"@) + "#"@,
        "observation.run.event.v1"@ == kind_name(TypeFamily::Observation, "run.event"@),
        "schema://runloop/observation.run.event.v1#"@ == "schema://runloop/"@ + kind_name(TypeFamily::Observation, "run.event"@) + "#"@,
        "intent.control.v1"@ == kind_name(TypeFamily::Intent, "control"@),
        "schema://runloop/intent.control.v1#"@ == "schema://runloop/"@ + kind_name(TypeFamily::Intent, "control"@) + "#"@,
        "error.report.v1"@ == kind_name(TypeFamily::Error, "report"@),
        "schema://runloop/error.report.v1#"@ == "schema://runloop/"@ + kind_name(TypeFamily::Error, "report"@) + "#"@,
        "observation.agent.hello.v1"@ == kind_name(TypeFamily::Observation, "agent.hello"@),
        "schema://runloop/observation.agent.hello.v1#"@ == "schema://runloop/"@ + kind_name(TypeFamily::Observation, "agent.hello"@) + "#"@,
        "observation.runtime.hello.v1"@ == kind_name(TypeFamily::Observation, "runtime.hello"@),
        "schema://runloop/observation.runtime.hello.v1#"@ == "schema://runloop/"@ + kind_name(TypeFamily::Observation, "runtime.hello"@) + "#"@,
        "intent.init.v1"@ == kind_name(TypeFamily::Intent, "init"@),
        "schema://runloop/intent.init.v1#"@ == "schema://runloop/"@ + kind_name(TypeFamily::Intent, "init"@) + "#"@,
        "intent.hostcall.request.v1"@ == kind_name(TypeFamily::Intent, "hostcall.request"@),
        "schema://runloop/intent.hostcall.request.v1#"@ == "schema://runloop/"@ + kind_name(TypeFamily::Intent, "hostcall.request"@) + "#"@,
        "toolresult.hostcall.response.v1"@ == kind_name(TypeFamily::ToolResult, "hostcall.response"@),
        "schema://runloop/toolresult.hostcall.response.v1#"@ == "schema://runloop/"@ + kind_name(TypeFamily::ToolResult, "hostcall.response"@) + "#"@,
        "intent.contacts.resolve.v1"@ == kind_name(TypeFamily::Intent, "contacts.resolve"@),
        "schema://runloop/intent.contacts.resolve.v1#"@ == "schema://runloop/"@ + kind_name(TypeFamily::Intent, "contacts.resolve"@) + "#"@,
        "toolresult.contacts.resolved.v1"@ == kind_name(TypeFamily::ToolResult, "contacts.resolved"@),
        "schema://runloop/toolresult.contacts.resolved.v1#"@ == "schema://runloop/"@ + kind_name(TypeFamily::ToolResult, "contacts.resolved"@) + "#"@,
        "intent.context.gather.v1"@ == kind_name(TypeFamily::Intent, "context.gather"@),
        "schema://runloop/intent.context.gather.v1#"@ == "schema://runloop/"@ + kind_name(TypeFamily::Intent, "context.gather"@) + "#"@,
        "observation.context.bundle.v1"@ == kind_name(TypeFamily::Observation, "context.bundle"@),
        "schema://runloop/observation.context.bundle.v1#"@ == "schema://runloop/"@ + kind_name(TypeFamily::Observation, "context.bundle"@) + "#"@,
        "intent.draft.write.v1"@ == kind_name(TypeFamily::Intent, "draft.write"@),
        "schema://runloop/intent.draft.write.v1#"@ == "schema://runloop/"@ + kind_name(TypeFamily::Intent, "draft.write"@) + "#"@,
        "artifact.draft.email.v1"@ == kind_name(TypeFamily::Artifact, "draft.email"@),
        "schema://runloop/artifact.draft.email.v1#"@ == "schema://runloop/"@ + kind_name(TypeFamily::Artifact, "draft.email"@) + "#"@,
        "intent.review.draft.v1"@ == kind_name(TypeFamily::Intent, "review.draft"@),
        "schema://runloop/intent.review.draft.v1#"@ == "schema://runloop/"@ + kind_name(TypeFamily::Intent, "review.draft"@) + "#"@,
        "critique.review.v1"@ == kind_name(TypeFamily::Critique, "review"@),
        "schema://runloop/critique.review.v1#"@ == "schema://runloop/"@ + kind_name(TypeFamily::Critique, "review"@) + "#"@,
        "intent.send.mail.v1"@ == kind_name(TypeFamily::Intent, "send.mail"@),
        "schema://runloop/intent.send.mail.v1#"@ == "schema://runloop/"@ + kind_name(TypeFamily::Intent, "send.mail"@) + "#"@,
        "toolresult.mail.result.v1"@ == kind_name(TypeFamily::ToolResult, "mail.result"@),
        "schema://runloop/toolresult.mail.result.v1#"@ == "schema://runloop/"@ + kind_name(TypeFamily::ToolResult, "mail.result"@) + "#"@,
        "intent.executor.agent.request.v1"@ == kind_name(TypeFamily::Intent, "executor.agent.request"@),
        "schema://runloop/intent.executor.agent.request.v1#"@ == "schema://runloop/"@ + kind_name(TypeFamily::Intent, "executor.agent.request"@) + "#"@,
        "toolresult.executor.agent.response.v1"@ == kind_name(TypeFamily::ToolResult, "executor.agent.response"@),
        "schema://runloop/toolresult.executor.agent.response.v1#"@ == "schema://runloop/"@ + kind_name(TypeFamily::ToolResult, "executor.agent.response"@) + "#"@,
        "intent.ctrl.request.v1"@ == kind_name(TypeFamily::Intent, "ctrl.request"@),
        "schema://runloop/intent.ctrl.request.v1#"@ == "schema://runloop/"@ + kind_name(TypeFamily::Intent, "ctrl.request"@) + "#"@,
        "toolresult.ctrl.response.v1"@ == kind_name(TypeFamily::ToolResult, "ctrl.response"@),
        "schema://runloop/toolresult.ctrl.response.v1#"@ == "schema://runloop/"@ + kind_name(TypeFamily::ToolResult, "ctrl.response"@) + "#"@,
        "observation.metrics.snapshot.v1"@ == kind_name(TypeFamily::Observation, "metrics.snapshot"@),
        "schema://runloop/observation.metrics.snapshot.v1#"@ == "schema://runloop/"@ + kind_name(TypeFamily::Observation, "metrics.snapshot"@) + "#"@,
        "observation.opening.event.v1"@ == kind_name(TypeFamily::Observation, "opening.event"@),
        "schema://runloop/observation.opening.event.v1#"@ == "schema://runloop/"@ + kind_name(TypeFamily::Observation, "opening.event"@) + "#"@,
        "observation.trace.line.v1"@ == kind_name(TypeFamily::Observation, "trace.line"@),
        "schema://runloop/observation.trace.line.v1#"@ == "schema://runloop/"@ + kind_name(TypeFamily::Observation, "trace.line"@) + "#"@,
        "observation.agent.log.v1"@ == kind_name(TypeFamily::Observation, "agent.log"@),
        "schema://runloop/observation.agent.log.v1#"@ == "schema://runloop/"@ + kind_name(TypeFamily::Observation, "agent.log"@) + "#"@,
        "intent.action.request.v1"@ == kind_name(TypeFamily::Intent, "action.request"@),
        "schema://runloop/intent.action.request.v1#"@ == "schema://runloop/"@ + kind_name(TypeFamily::Intent, "action.request"@) + "#"@,
        "toolresult.action.decision.v1"@ == kind_name(TypeFamily::ToolResult, "action.decision"@),
        "schema://runloop/toolresult.action.decision.v1#"@ == "schema://runloop/"@ + kind_name(TypeFamily::ToolResult, "action.decision"@) + "#"@,
        "error.bus.drop.notice.v1"@ == kind_name(TypeFamily::Error, "bus.drop.notice"@),
        "schema://runloop/error.bus.drop.notice.v1#"@ == "schema://runloop/"@ + kind_name(TypeFamily::Error, "bus.drop.notice"@) + "#"@,
{
    reveal_strlit(".");
    reveal_strlit(".v1");
    reveal_strlit("schema://runloop/");
    reveal_strlit("#");
    reveal_strlit("observation");
    reveal_strlit("intent");
    reveal_strlit("artifact");
    reveal_strlit("toolresult");
    reveal_strlit("critique");
    reveal_strlit("statedelta");
    reveal_strlit("error");
    reveal_strlit("action.decision");
    reveal_strlit("action.request");
    reveal_strlit("agent.hello");
    reveal_strlit("agent.log");
    reveal_strlit("bus.drop.notice");
    reveal_strlit("contacts.resolve");
    reveal_strlit("contacts.resolved");
    reveal_strlit("context.bundle");
    reveal_strlit("context.gather");
    reveal_strlit("control");
    reveal_strlit("ctrl.request");
    reveal_strlit("ctrl.response");
    reveal_strlit("draft.email");
    reveal_strlit("draft.write");
    reveal_strlit("executor.agent.request");
    reveal_strlit("executor.agent.response");
    reveal_strlit("generic");
    reveal_strlit("hostcall.request");
    reveal_strlit("hostcall.response");
    reveal_strlit("init");
    reveal_strlit("mail.result");
    reveal_strlit("metrics.snapshot");
    reveal_strlit("opening.event");
    reveal_strlit("report");
    reveal_strlit("review");
    reveal_strlit("review.draft");
    reveal_strlit("run.event");
    reveal_strlit("runtime.hello");
    reveal_strlit("send.mail");
    reveal_strlit("tool_call");
    reveal_strlit("trace.line");
    assert("observation.generic.v1"@ =~= kind_name(TypeFamily::Observation, "generic"@)) by {
        reveal_strlit("observation.generic.v1");
    }
    assert("schema://runloop/observation.generic.v1#"@ =~= "schema://runloop/"@ + kind_name(TypeFamily::Observation, "generic"@) + "#"@) by {
        reveal_strlit("schema://runloop/observation.generic.v1#");
    }
    assert("intent.generic.v1"@ =~= kind_name(TypeFamily::Intent, "generic"@)) by {
        reveal_strlit("intent.generic.v1");
    }
    assert("schema://runloop/intent.generic.v1#"@ =~= "schema://runloop/"@ + kind_name(TypeFamily::Intent, "generic"@) + "#"@) by {
        reveal_strlit("schema://runloop/intent.generic.v1#");
    }
    assert("intent.tool_call.v1"@ =~= kind_name(TypeFamily::Intent, "tool_call"@)) by {
        reveal_strlit("intent.tool_call.v1");
    }
    assert("schema://runloop/intent.tool_call.v1#"@ =~= "schema://runloop/"@ + kind_name(TypeFamily::Intent, "tool_call"@) + "#"@) by {
        reveal_strlit("schema://runloop/intent.tool_call.v1#");
    }
    assert("toolresult.generic.v1"@ =~= kind_name(TypeFamily::ToolResult, "generic"@)) by {
        reveal_strlit("toolresult.generic.v1");
    }
    assert("schema://runloop/toolresult.generic.v1#"@ =~= "schema://runloop/"@ + kind_name(TypeFamily::ToolResult, "generic"@) + "#"@) by {
        reveal_strlit("schema://runloop/toolresult.generic.v1#");
    }
    assert("artifact.generic.v1"@ =~= kind_name(TypeFamily::Artifact, "generic"@)) by {
        reveal_strlit("artifact.generic.v1");
    }
    assert("schema://runloop/artifact.generic.v1#"@ =~= "schema://runloop/"@ + kind_name(TypeFamily::Artifact, "generic"@) + "#"@) by {
        reveal_strlit("schema://runloop/artifact.generic.v1#");
    }
    assert("critique.generic.v1"@ =~= kind_name(TypeFamily::Critique, "generic"@)) by {
        reveal_strlit("critique.generic.v1");
    }
    assert("schema://runloop/critique.generic.v1#"@ =~= "schema://runloop/"@ + kind_name(TypeFamily::Critique, "generic"@) + "#"@) by {
        reveal_strlit("schema://runloop/critique.generic.v1#");
    }
    assert("statedelta.generic.v1"@ =~= kind_name(TypeFamily::StateDelta, "generic"@)) by {
        reveal_strlit("statedelta.generic.v1");
    }
    assert("schema://runloop/statedelta.generic.v1#"@ =~= "schema://runloop/"@ + kind_name(TypeFamily::StateDelta, "generic"@) + "#"@) by {
        reveal_strlit("schema://runloop/statedelta.generic.v1#");
    }
    assert("observation.run.event.v1"@ =~= kind_name(TypeFamily::Observation, "run.event"@)) by {
        reveal_strlit("observation.run.event.v1");
    }
    assert("schema://runloop/observation.run.event.v1#"@ =~= "schema://runloop/"@ + kind_name(TypeFamily::Observation, "run.event"@) + "#"@) by {
        reveal_strlit("schema://runloop/observation.run.event.v1#");
    }
    assert("intent.control.v1"@ =~= kind_name(TypeFamily::Intent, "control"@)) by {
        reveal_strlit("intent.control.v1");
    }
    assert("schema://runloop/intent.control.v1#"@ =~= "schema://runloop/"@ + kind_name(TypeFamily::Intent, "control"@) + "#"@) by {
        reveal_strlit("schema://runloop/intent.control.v1#");
    }
    assert("error.report.v1"@ =~= kind_name(TypeFamily::Error, "report"@)) by {
        reveal_strlit("error.report.v1");
    }
    assert("schema://runloop/error.report.v1#"@ =~= "schema://runloop/"@ + kind_name(TypeFamily::Error, "report"@) + "#"@) by {
        reveal_strlit("schema://runloop/error.report.v1#");
    }
    assert("observation.agent.hello.v1"@ =~= kind_name(TypeFamily::Observation, "agent.hello"@)) by {
        reveal_strlit("observation.agent.hello.v1");
    }
    assert("schema://runloop/observation.agent.hello.v1#"@ =~= "schema://runloop/"@ + kind_name(TypeFamily::Observation, "agent.hello"@) + "#"@) by {
        reveal_strlit("schema://runloop/observation.agent.hello.v1#");
    }
    assert("observation.runtime.hello.v1"@ =~= kind_name(TypeFamily::Observation, "runtime.hello"@)) by {
        reveal_strlit("observation.runtime.hello.v1");
    }
    assert("schema://runloop/observation.runtime.hello.v1#"@ =~= "schema://runloop/"@ + kind_name(TypeFamily::Observation, "runtime.hello"@) + "#"@) by {
        reveal_strlit("schema://runloop/observation.runtime.hello.v1#");
    }
    assert("intent.init.v1"@ =~= kind_name(TypeFamily::Intent, "init"@)) by {
        reveal_strlit("intent.init.v1");
    }
    assert("schema://runloop/intent.init.v1#"@ =~= "schema://runloop/"@ + kind_name(TypeFamily::Intent, "init"@) + "#"@) by {
        reveal_strlit("schema://runloop/intent.init.v1#");
    }
    assert("intent.hostcall.request.v1"@ =~= kind_name(TypeFamily::Intent, "hostcall.request"@)) by {
        reveal_strlit("intent.hostcall.request.v1");
    }
    assert("schema://runloop/intent.hostcall.request.v1#"@ =~= "schema://runloop/"@ + kind_name(TypeFamily::Intent, "hostcall.request"@) + "#"@) by {
        reveal_strlit("schema://runloop/intent.hostcall.request.v1#");
    }
    assert("toolresult.hostcall.response.v1"@ =~= kind_name(TypeFamily::ToolResult, "hostcall.response"@)) by {
        reveal_strlit("toolresult.hostcall.response.v1");
    }
    assert("schema://runloop/toolresult.hostcall.response.v1#"@ =~= "schema://runloop/"@ + kind_name(TypeFamily::ToolResult, "hostcall.response"@) + "#"@) by {
        reveal_strlit("schema://runloop/toolresult.hostcall.response.v1#");
    }
    assert("intent.contacts.resolve.v1"@ =~= kind_name(TypeFamily::Intent, "contacts.resolve"@)) by {
        reveal_strlit("intent.contacts.resolve.v1");
    }
    assert("schema://runloop/intent.contacts.resolve.v1#"@ =~= "schema://runloop/"@ + kind_name(TypeFamily::Intent, "contacts.resolve"@) + "#"@) by {
        reveal_strlit("schema://runloop/intent.contacts.resolve.v1#");
    }
    assert("toolresult.contacts.resolved.v1"@ =~= kind_name(TypeFamily::ToolResult, "contacts.resolved"@)) by {
        reveal_strlit("toolresult.contacts.resolved.v1");
    }
    assert("schema://runloop/toolresult.contacts.resolved.v1#"@ =~= "schema://runloop/"@ + kind_name(TypeFamily::ToolResult, "contacts.resolved"@) + "#"@) by {
        reveal_strlit("schema://runloop/toolresult.contacts.resolved.v1#");
    }
    assert("intent.context.gather.v1"@ =~= kind_name(TypeFamily::Intent, "context.gather"@)) by {
        reveal_strlit("intent.context.gather.v1");
    }
    assert("schema://runloop/intent.context.gather.v1#"@ =~= "schema://runloop/"@ + kind_name(TypeFamily::Intent, "context.gather"@) + "#"@) by {
        reveal_strlit("schema://runloop/intent.context.gather.v1#");
    }
    assert("observation.context.bundle.v1"@ =~= kind_name(TypeFamily::Observation, "context.bundle"@)) by {
        reveal_strlit("observation.context.bundle.v1");
    }
    assert("schema://runloop/observation.context.bundle.v1#"@ =~= "schema://runloop/"@ + kind_name(TypeFamily::Observation, "context.bundle"@) + "#"@) by {
        reveal_strlit("schema://runloop/observation.context.bundle.v1#");
    }
    assert("intent.draft.write.v1"@ =~= kind_name(TypeFamily::Intent, "draft.write"@)) by {
        reveal_strlit("intent.draft.write.v1");
    }
    assert("schema://runloop/intent.draft.write.v1#"@ =~= "schema://runloop/"@ + kind_name(TypeFamily::Intent, "draft.write"@) + "#"@) by {
        reveal_strlit("schema://runloop/intent.draft.write.v1#");
    }
    assert("artifact.draft.email.v1"@ =~= kind_name(TypeFamily::Artifact, "draft.email"@)) by {
        reveal_strlit("artifact.draft.email.v1");
    }
    assert("schema://runloop/artifact.draft.email.v1#"@ =~= "schema://runloop/"@ + kind_name(TypeFamily::Artifact, "draft.email"@) + "#"@) by {
        reveal_strlit("schema://runloop/artifact.draft.email.v1#");
    }
    assert("intent.review.draft.v1"@ =~= kind_name(TypeFamily::Intent, "review.draft"@)) by {
        reveal_strlit("intent.review.draft.v1");
    }
    assert("schema://runloop/intent.review.draft.v1#"@ =~= "schema://runloop/"@ + kind_name(TypeFamily::Intent, "review.draft"@) + "#"@) by {
        reveal_strlit("schema://runloop/intent.review.draft.v1#");
    }
    assert("critique.review.v1"@ =~= kind_name(TypeFamily::Critique, "review"@)) by {
        reveal_strlit("critique.review.v1");
    }
    assert("schema://runloop/critique.review.v1#"@ =~= "schema://runloop/"@ + kind_name(TypeFamily::Critique, "review"@) + "#"@) by {
        reveal_strlit("schema://runloop/critique.review.v1#");
    }
    assert("intent.send.mail.v1"@ =~= kind_name(TypeFamily::Intent, "send.mail"@)) by {
        reveal_strlit("intent.send.mail.v1");
    }
    assert("schema://runloop/intent.send.mail.v1#"@ =~= "schema://runloop/"@ + kind_name(TypeFamily::Intent, "send.mail"@) + "#"@) by {
        reveal_strlit("schema://runloop/intent.send.mail.v1#");
    }
    assert("toolresult.mail.result.v1"@ =~= kind_name(TypeFamily::ToolResult, "mail.result"@)) by {
        reveal_strlit("toolresult.mail.result.v1");
    }
    assert("schema://runloop/toolresult.mail.result.v1#"@ =~= "schema://runloop/"@ + kind_name(TypeFamily::ToolResult, "mail.result"@) + "#"@) by {
        reveal_strlit("schema://runloop/toolresult.mail.result.v1#");
    }
    assert("intent.executor.agent.request.v1"@ =~= kind_name(TypeFamily::Intent, "executor.agent.request"@)) by {
        reveal_strlit("intent.executor.agent.request.v1");
    }
    assert("schema://runloop/intent.executor.agent.request.v1#"@ =~= "schema://runloop/"@ + kind_name(TypeFamily::Intent, "executor.agent.request"@) + "#"@) by {
        reveal_strlit("schema://runloop/intent.executor.agent.request.v1#");
    }
    assert("toolresult.executor.agent.response.v1"@ =~= kind_name(TypeFamily::ToolResult, "executor.agent.response"@)) by {
        reveal_strlit("toolresult.executor.agent.response.v1");
    }
    assert("schema://runloop/toolresult.executor.agent.response.v1#"@ =~= "schema://runloop/"@ + kind_name(TypeFamily::ToolResult, "executor.agent.response"@) + "#"@) by {
        reveal_strlit("schema://runloop/toolresult.executor.agent.response.v1#");
    }
    assert("intent.ctrl.request.v1"@ =~= kind_name(TypeFamily::Intent, "ctrl.request"@)) by {
        reveal_strlit("intent.ctrl.request.v1");
    }
    assert("schema://runloop/intent.ctrl.request.v1#"@ =~= "schema://runloop/"@ + kind_name(TypeFamily::Intent, "ctrl.request"@) + "#"@) by {
        reveal_strlit("schema://runloop/intent.ctrl.request.v1#");
    }
    assert("toolresult.ctrl.response.v1"@ =~= kind_name(TypeFamily::ToolResult, "ctrl.response"@)) by {
        reveal_strlit("toolresult.ctrl.response.v1");
    }
    assert("schema://runloop/toolresult.ctrl.response.v1#"@ =~= "schema://runloop/"@ + kind_name(TypeFamily::ToolResult, "ctrl.response"@) + "#"@) by {
        reveal_strlit("schema://runloop/toolresult.ctrl.response.v1#");
    }
    assert("observation.metrics.snapshot.v1"@ =~= kind_name(TypeFamily::Observation, "metrics.snapshot"@)) by {
        reveal_strlit("observation.metrics.snapshot.v1");
    }
    assert("schema://runloop/observation.metrics.snapshot.v1#"@ =~= "schema://runloop/"@ + kind_name(TypeFamily::Observation, "metrics.snapshot"@) + "#"@) by {
        reveal_strlit("schema://runloop/observation.metrics.snapshot.v1#");
    }
    assert("observation.opening.event.v1"@ =~= kind_name(TypeFamily::Observation, "opening.event"@)) by {
        reveal_strlit("observation.opening.event.v1");
    }
    assert("schema://runloop/observation.opening.event.v1#"@ =~= "schema://runloop/"@ + kind_name(TypeFamily::Observation, "opening.event"@) + "#"@) by {
        reveal_strlit("schema://runloop/observation.opening.event.v1#");
    }
    assert("observation.trace.line.v1"@ =~= kind_name(TypeFamily::Observation, "trace.line"@)) by {
        reveal_strlit("observation.trace.line.v1");
    }
    assert("schema://runloop/observation.trace.line.v1#"@ =~= "schema://runloop/"@ + kind_name(TypeFamily::Observation, "trace.line"@) + "#"@) by {
        reveal_strlit("schema://runloop/observation.trace.line.v1#");
    }
    assert("observation.agent.log.v1"@ =~= kind_name(TypeFamily::Observation, "agent.log"@)) by {
        reveal_strlit("observation.agent.log.v1");
    }
    assert("schema://runloop/observation.agent.log.v1#"@ =~= "schema://runloop/"@ + kind_name(TypeFamily::Observation, "agent.log"@) + "#"@) by {
        reveal_strlit("schema://runloop/observation.agent.log.v1#");
    }
    assert("intent.action.request.v1"@ =~= kind_name(TypeFamily::Intent, "action.request"@)) by {
        reveal_strlit("intent.action.request.v1");
    }
    assert("schema://runloop/intent.action.request.v1#"@ =~= "schema://runloop/"@ + kind_name(TypeFamily::Intent, "action.request"@) + "#"@) by {
        reveal_strlit("schema://runloop/intent.action.request.v1#");
    }
    assert("toolresult.action.decision.v1"@ =~= kind_name(TypeFamily::ToolResult, "action.decision"@)) by {
        reveal_strlit("toolresult.action.decision.v1");
    }
    assert("schema://runloop/toolresult.action.decision.v1#"@ =~= "schema://runloop/"@ + kind_name(TypeFamily::ToolResult, "action.decision"@) + "#"@) by {
        reveal_strlit("schema://runloop/toolresult.action.decision.v1#");
    }
    assert("error.bus.drop.notice.v1"@ =~= kind_name(TypeFamily::Error, "bus.drop.notice"@)) by {
        reveal_strlit("error.bus.drop.notice.v1");
    }
    assert("schema://runloop/error.bus.drop.notice.v1#"@ =~= "schema://runloop/"@ + kind_name(TypeFamily::Error, "bus.drop.notice"@) + "#"@) by {
        reveal_strlit("schema://runloop/error.bus.drop.notice.v1#");
    }
}

/// The kind at a place of the list.
pub fn descriptor_at(i: usize) -> (r: TypeDescriptor)
    requires
        i < KIND_COUNT,
    ensures
        r@ == kinds()[i as int],
{
    proof {
        lemma_names();
    }
    match i {
        0 => TypeDescriptor {
            schema_id: CT_OBSERVATION,
            family: TypeFamily::Observation,
            kind: "generic",
            version: 1,
            type_str: "observation.generic.v1",
            json_schema_id: "schema://runloop/observation.generic.v1#",
        },
        1 => TypeDescriptor {
            schema_id: CT_INTENT,
            family: TypeFamily::Intent,
            kind: "generic",
            version: 1,
            type_str: "intent.generic.v1",
            json_schema_id: "schema://runloop/intent.generic.v1#",
        },
        2 => TypeDescriptor {
            schema_id: CT_TOOL_CALL,
            family: TypeFamily::Intent,
            kind: "tool_call",
            version: 1,
            type_str: "intent.tool_call.v1",
            json_schema_id: "schema://runloop/intent.tool_call.v1#",
        },
        3 => TypeDescriptor {
            schema_id: CT_TOOL_RESULT,
            family: TypeFamily::ToolResult,
            kind: "generic",
            version: 1,
            type_str: "toolresult.generic.v1",
            json_schema_id: "schema://runloop/toolresult.generic.v1#",
        },
        4 => TypeDescriptor {
            schema_id: CT_ARTIFACT,
            family: TypeFamily::Artifact,
            kind: "generic",
            version: 1,
            type_str: "artifact.generic.v1",
            json_schema_id: "schema://runloop/artifact.generic.v1#",
        },
        5 => TypeDescriptor {
            schema_id: CT_CRITIQUE,
            family: TypeFamily::Critique,
            kind: "generic",
            version: 1,
            type_str: "critique.generic.v1",
            json_schema_id: "schema://runloop/critique.generic.v1#",
        },
        6 => TypeDescriptor {
            schema_id: CT_STATE_DELTA,
            family: TypeFamily::StateDelta,
            kind: "generic",
            version: 1,
            type_str: "statedelta.generic.v1",
            json_schema_id: "schema://runloop/statedelta.generic.v1#",
        },
        7 => TypeDescriptor {
            schema_id: CT_RUN_EVENT,
            family: TypeFamily::Observation,
            kind: "run.event",
            version: 1,
            type_str: "observation.run.event.v1",
            json_schema_id: "schema://runloop/observation.run.event.v1#",
        },
        8 => TypeDescriptor {
            schema_id: CT_CONTROL,
            family: TypeFamily::Intent,
            kind: "control",
            version: 1,
            type_str: "intent.control.v1",
            json_schema_id: "schema://runloop/intent.control.v1#",
        },
        9 => TypeDescriptor {
            schema_id: CT_ERROR_REPORT,
            family: TypeFamily::Error,
            kind: "report",
            version: 1,
            type_str: "error.report.v1",
            json_schema_id: "schema://runloop/error.report.v1#",
        },
        10 => TypeDescriptor {
            schema_id: CT_AGENT_HELLO,
            family: TypeFamily::Observation,
            kind: "agent.hello",
            version: 1,
            type_str: "observation.agent.hello.v1",
            json_schema_id: "schema://runloop/observation.agent.hello.v1#",
        },
        11 => TypeDescriptor {
            schema_id: CT_RUNTIME_HELLO,
            family: TypeFamily::Observation,
            kind: "runtime.hello",
            version: 1,
            type_str: "observation.runtime.hello.v1",
            json_schema_id: "schema://runloop/observation.runtime.hello.v1#",
        },
        12 => TypeDescriptor {
            schema_id: CT_INIT,
            family: TypeFamily::Intent,
            kind: "init",
            version: 1,
            type_str: "intent.init.v1",
            json_schema_id: "schema://runloop/intent.init.v1#",
        },
        13 => TypeDescriptor {
            schema_id: CT_HOSTCALL_REQ,
            family: TypeFamily::Intent,
            kind: "hostcall.request",
            version: 1,
            type_str: "intent.hostcall.request.v1",
            json_schema_id: "schema://runloop/intent.hostcall.request.v1#",
        },
        14 => TypeDescriptor {
            schema_id: CT_HOSTCALL_RES,
            family: TypeFamily::ToolResult,
            kind: "hostcall.response",
            version: 1,
            type_str: "toolresult.hostcall.response.v1",
            json_schema_id: "schema://runloop/toolresult.hostcall.response.v1#",
        },
        15 => TypeDescriptor {
            schema_id: CT_INTENT_CONTACTS_RESOLVE,
            family: TypeFamily::Intent,
            kind: "contacts.resolve",
            version: 1,
            type_str: "intent.contacts.resolve.v1",
            json_schema_id: "schema://runloop/intent.contacts.resolve.v1#",
        },
        16 => TypeDescriptor {
            schema_id: CT_CONTACTS_RESOLVED,
            family: TypeFamily::ToolResult,
            kind: "contacts.resolved",
            version: 1,
            type_str: "toolresult.contacts.resolved.v1",
            json_schema_id: "schema://runloop/toolresult.contacts.resolved.v1#",
        },
        17 => TypeDescriptor {
            schema_id: CT_INTENT_CONTEXT_GATHER,
            family: TypeFamily::Intent,
            kind: "context.gather",
            version: 1,
            type_str: "intent.context.gather.v1",
            json_schema_id: "schema://runloop/intent.context.gather.v1#",
        },
        18 => TypeDescriptor {
            schema_id: CT_CONTEXT_BUNDLE,
            family: TypeFamily::Observation,
            kind: "context.bundle",
            version: 1,
            type_str: "observation.context.bundle.v1",
            json_schema_id: "schema://runloop/observation.context.bundle.v1#",
        },
        19 => TypeDescriptor {
            schema_id: CT_INTENT_DRAFT_WRITE,
            family: TypeFamily::Intent,
            kind: "draft.write",
            version: 1,
            type_str: "intent.draft.write.v1",
            json_schema_id: "schema://runloop/intent.draft.write.v1#",
        },
        20 => TypeDescriptor {
            schema_id: CT_DRAFT_EMAIL,
            family: TypeFamily::Artifact,
            kind: "draft.email",
            version: 1,
            type_str: "artifact.draft.email.v1",
            json_schema_id: "schema://runloop/artifact.draft.email.v1#",
        },
        21 => TypeDescriptor {
            schema_id: CT_INTENT_REVIEW_DRAFT,
            family: TypeFamily::Intent,
            kind: "review.draft",
            version: 1,
            type_str: "intent.review.draft.v1",
            json_schema_id: "schema://runloop/intent.review.draft.v1#",
        },
        22 => TypeDescriptor {
            schema_id: CT_REVIEW_CRITIQUE,
            family: TypeFamily::Critique,
            kind: "review",
            version: 1,
            type_str: "critique.review.v1",
            json_schema_id: "schema://runloop/critique.review.v1#",
        },
        23 => TypeDescriptor {
            schema_id: CT_INTENT_SEND_MAIL,
            family: TypeFamily::Intent,
            kind: "send.mail",
            version: 1,
            type_str: "intent.send.mail.v1",
            json_schema_id: "schema://runloop/intent.send.mail.v1#",
        },
        24 => TypeDescriptor {
            schema_id: CT_MAIL_RESULT,
            family: TypeFamily::ToolResult,
            kind: "mail.result",
            version: 1,
            type_str: "toolresult.mail.result.v1",
            json_schema_id: "schema://runloop/toolresult.mail.result.v1#",
        },
        25 => TypeDescriptor {
            schema_id: CT_EXECUTOR_AGENT_REQUEST,
            family: TypeFamily::Intent,
            kind: "executor.agent.request",
            version: 1,
            type_str: "intent.executor.agent.request.v1",
            json_schema_id: "schema://runloop/intent.executor.agent.request.v1#",
        },
        26 => TypeDescriptor {
            schema_id: CT_EXECUTOR_AGENT_RESPONSE,
            family: TypeFamily::ToolResult,
            kind: "executor.agent.response",
            version: 1,
            type_str: "toolresult.executor.agent.response.v1",
            json_schema_id: "schema://runloop/toolresult.executor.agent.response.v1#",
        },
        27 => TypeDescriptor {
            schema_id: CT_CTRL_REQ,
            family: TypeFamily::Intent,
            kind: "ctrl.request",
            version: 1,
            type_str: "intent.ctrl.request.v1",
            json_schema_id: "schema://runloop/intent.ctrl.request.v1#",
        },
        28 => TypeDescriptor {
            schema_id: CT_CTRL_RESP,
            family: TypeFamily::ToolResult,
            kind: "ctrl.response",
            version: 1,
            type_str: "toolresult.ctrl.response.v1",
            json_schema_id: "schema://runloop/toolresult.ctrl.response.v1#",
        },
        29 => TypeDescriptor {
            schema_id: CT_METRICS_SNAPSHOT,
            family: TypeFamily::Observation,
            kind: "metrics.snapshot",
            version: 1,
            type_str: "observation.metrics.snapshot.v1",
            json_schema_id: "schema://runloop/observation.metrics.snapshot.v1#",
        },
        30 => TypeDescriptor {
            schema_id: CT_OPENING_EVENT,
            family: TypeFamily::Observation,
            kind: "opening.event",
            version: 1,
            type_str: "observation.opening.event.v1",
            json_schema_id: "schema://runloop/observation.opening.event.v1#",
        },
        31 => TypeDescriptor {
            schema_id: CT_TRACE_LINE,
            family: TypeFamily::Observation,
            kind: "trace.line",
            version: 1,
            type_str: "observation.trace.line.v1",
            json_schema_id: "schema://runloop/observation.trace.line.v1#",
        },
        32 => TypeDescriptor {
            schema_id: CT_AGENT_LOG_LINE,
            family: TypeFamily::Observation,
            kind: "agent.log",
            version: 1,
            type_str: "observation.agent.log.v1",
            json_schema_id: "schema://runloop/observation.agent.log.v1#",
        },
        33 => TypeDescriptor {
            schema_id: CT_ACTION_REQUEST,
            family: TypeFamily::Intent,
            kind: "action.request",
            version: 1,
            type_str: "intent.action.request.v1",
            json_schema_id: "schema://runloop/intent.action.request.v1#",
        },
        34 => TypeDescriptor {
            schema_id: CT_ACTION_DECISION,
            family: TypeFamily::ToolResult,
            kind: "action.decision",
            version: 1,
            type_str: "toolresult.action.decision.v1",
            json_schema_id: "schema://runloop/toolresult.action.decision.v1#",
        },
        _ => TypeDescriptor {
            schema_id: CT_BUS_DROP_NOTICE,
            family: TypeFamily::Error,
            kind: "bus.drop.notice",
            version: 1,
            type_str: "error.bus.drop.notice.v1",
            json_schema_id: "schema://runloop/error.bus.drop.notice.v1#",
        },
    }
}

/// The kind of a schema number.
pub fn descriptor_for_schema(schema_id: u16) -> (r: Option<TypeDescriptor>)
    ensures
        match r {
            Some(d) => d.schema_id == schema_id && kinds().contains(d@),
            None => forall|i: int| 0 <= i < kinds().len() ==> (#[trigger] kinds()[i]).schema_id
                != schema_id,
        },
{
    let mut i: usize = 0;
    while i < KIND_COUNT
        invariant
            i <= KIND_COUNT,
            forall|j: int| 0 <= j < i ==> (#[trigger] kinds()[j]).schema_id != schema_id,
        decreases KIND_COUNT - i,
    {
        let d = descriptor_at(i);
        if d.schema_id == schema_id {
            return Some(d);
        }
        i += 1;
    }
    None
}

/// The kind of a name.
pub fn descriptor_for_type(type_str: &str) -> (r: Option<TypeDescriptor>)
    ensures
        match r {
            Some(d) => d.type_str@ == type_str@ && kinds().contains(d@),
            None => forall|i: int| 0 <= i < kinds().len() ==> (#[trigger] kinds()[i]).type_str
                != type_str@,
        },
{
    let mut i: usize = 0;
    while i < KIND_COUNT
        invariant
            i <= KIND_COUNT,
            forall|j: int| 0 <= j < i ==> (#[trigger] kinds()[j]).type_str != type_str@,
        decreases KIND_COUNT - i,
    {
        let d = descriptor_at(i);
        if same(d.type_str, type_str) {
            return Some(d);
        }
        i += 1;
    }
    None
}

/// The name of a schema number.
pub fn type_name_for(schema_id: u16) -> (r: Option<&'static str>)
    ensures
        match r {
            Some(t) => exists|i: int|
                0 <= i < kinds().len() && (#[trigger] kinds()[i]).schema_id == schema_id
                    && kinds()[i].type_str == t@,
            None => forall|i: int| 0 <= i < kinds().len() ==> (#[trigger] kinds()[i]).schema_id
                != schema_id,
        },
{
    match descriptor_for_schema(schema_id) {
        Some(d) => Some(d.type_str),
        None => None,
    }
}

/// The schema number of a name.
pub fn schema_for(name: &str) -> (r: Option<u16>)
    ensures
        match r {
            Some(n) => exists|i: int|
                0 <= i < kinds().len() && (#[trigger] kinds()[i]).type_str == name@
                    && kinds()[i].schema_id == n,
            None => forall|i: int| 0 <= i < kinds().len() ==> (#[trigger] kinds()[i]).type_str
                != name@,
        },
{
    match descriptor_for_type(name) {
        Some(d) => Some(d.schema_id),
        None => None,
    }
}

/// The family of a schema number.
pub fn family_for_schema(schema_id: u16) -> (r: Option<TypeFamily>)
    ensures
        match r {
            Some(f) => exists|i: int|
                0 <= i < kinds().len() && (#[trigger] kinds()[i]).schema_id == schema_id
                    && kinds()[i].family == f,
            None => forall|i: int| 0 <= i < kinds().len() ==> (#[trigger] kinds()[i]).schema_id
                != schema_id,
        },
{
    match descriptor_for_schema(schema_id) {
        Some(d) => Some(d.family),
        None => None,
    }
}

/// The place of a schema number.
spec fn schema_place(n: u16) -> int {
    if n == CT_OBSERVATION {
        0
    } else if n == CT_INTENT {
        1
    } else if n == CT_TOOL_CALL {
        2
    } else if n == CT_TOOL_RESULT {
        3
    } else if n == CT_ARTIFACT {
        4
    } else if n == CT_CRITIQUE {
        5
    } else if n == CT_STATE_DELTA {
        6
    } else if n == CT_RUN_EVENT {
        7
    } else if n == CT_CONTROL {
        8
    } else if n == CT_ERROR_REPORT {
        9
    } else if n == CT_AGENT_HELLO {
        10
    } else if n == CT_RUNTIME_HELLO {
        11
    } else if n == CT_INIT {
        12
    } else if n == CT_HOSTCALL_REQ {
        13
    } else if n == CT_HOSTCALL_RES {
        14
    } else if n == CT_INTENT_CONTACTS_RESOLVE {
        15
    } else if n == CT_CONTACTS_RESOLVED {
        16
    } else if n == CT_INTENT_CONTEXT_GATHER {
        17
    } else if n == CT_CONTEXT_BUNDLE {
        18
    } else if n == CT_INTENT_DRAFT_WRITE {
        19
    } else if n == CT_DRAFT_EMAIL {
        20
    } else if n == CT_INTENT_REVIEW_DRAFT {
        21
    } else if n == CT_REVIEW_CRITIQUE {
        22
    } else if n == CT_INTENT_SEND_MAIL {
        23
    } else if n == CT_MAIL_RESULT {
        24
    } else if n == CT_EXECUTOR_AGENT_REQUEST {
        25
    } else if n == CT_EXECUTOR_AGENT_RESPONSE {
        26
    } else if n == CT_CTRL_REQ {
        27
    } else if n == CT_CTRL_RESP {
        28
    } else if n == CT_METRICS_SNAPSHOT {
        29
    } else if n == CT_OPENING_EVENT {
        30
    } else if n == CT_TRACE_LINE {
        31
    } else if n == CT_AGENT_LOG_LINE {
        32
    } else if n == CT_ACTION_REQUEST {
        33
    } else if n == CT_ACTION_DECISION {
        34
    } else if n == CT_BUS_DROP_NOTICE {
        35
    } else {
        -1
    }
}

/// The place of a name.
spec fn name_place(s: Seq<char>) -> int {
    if s == "observation.generic.v1"@ {
        0
    } else if s == "intent.generic.v1"@ {
        1
    } else if s == "intent.tool_call.v1"@ {
        2
    } else if s == "toolresult.generic.v1"@ {
        3
    } else if s == "artifact.generic.v1"@ {
        4
    } else if s == "critique.generic.v1"@ {
        5
    } else if s == "statedelta.generic.v1"@ {
        6
    } else if s == "observation.run.event.v1"@ {
        7
    } else if s == "intent.control.v1"@ {
        8
    } else if s == "error.report.v1"@ {
        9
    } else if s == "observation.agent.hello.v1"@ {
        10
    } else if s == "observation.runtime.hello.v1"@ {
        11
    } else if s == "intent.init.v1"@ {
        12
    } else if s == "intent.hostcall.request.v1"@ {
        13
    } else if s == "toolresult.hostcall.response.v1"@ {
        14
    } else if s == "intent.contacts.resolve.v1"@ {
        15
    } else if s == "toolresult.contacts.resolved.v1"@ {
        16
    } else if s == "intent.context.gather.v1"@ {
        17
    } else if s == "observation.context.bundle.v1"@ {
        18
    } else if s == "intent.draft.write.v1"@ {
        19
    } else if s == "artifact.draft.email.v1"@ {
        20
    } else if s == "intent.review.draft.v1"@ {
        21
    } else if s == "critique.review.v1"@ {
        22
    } else if s == "intent.send.mail.v1"@ {
        23
    } else if s == "toolresult.mail.result.v1"@ {
        24
    } else if s == "intent.executor.agent.request.v1"@ {
        25
    } else if s == "toolresult.executor.agent.response.v1"@ {
        26
    } else if s == "intent.ctrl.request.v1"@ {
        27
    } else if s == "toolresult.ctrl.response.v1"@ {
        28
    } else if s == "observation.metrics.snapshot.v1"@ {
        29
    } else if s == "observation.opening.event.v1"@ {
        30
    } else if s == "observation.trace.line.v1"@ {
        31
    } else if s == "observation.agent.log.v1"@ {
        32
    } else if s == "intent.action.request.v1"@ {
        33
    } else if s == "toolresult.action.decision.v1"@ {
        34
    } else if s == "error.bus.drop.notice.v1"@ {
        35
    } else {
        -1
    }
}

proof fn lemma_places()
    ensures
        name_place("observation.generic.v1"@) == 0,
        name_place("intent.generic.v1"@) == 1,
        name_place("intent.tool_call.v1"@) == 2,
        name_place("toolresult.generic.v1"@) == 3,
        name_place("artifact.generic.v1"@) == 4,
        name_place("critique.generic.v1"@) == 5,
        name_place("statedelta.generic.v1"@) == 6,
        name_place("observation.run.event.v1"@) == 7,
        name_place("intent.control.v1"@) == 8,
        name_place("error.report.v1"@) == 9,
        name_place("observation.agent.hello.v1"@) == 10,
        name_place("observation.runtime.hello.v1"@) == 11,
        name_place("intent.init.v1"@) == 12,
        name_place("intent.hostcall.request.v1"@) == 13,
        name_place("toolresult.hostcall.response.v1"@) == 14,
        name_place("intent.contacts.resolve.v1"@) == 15,
        name_place("toolresult.contacts.resolved.v1"@) == 16,
        name_place("intent.context.gather.v1"@) == 17,
        name_place("observation.context.bundle.v1"@) == 18,
        name_place("intent.draft.write.v1"@) == 19,
        name_place("artifact.draft.email.v1"@) == 20,
        name_place("intent.review.draft.v1"@) == 21,
        name_place("critique.review.v1"@) == 22,
        name_place("intent.send.mail.v1"@) == 23,
        name_place("toolresult.mail.result.v1"@) == 24,
        name_place("intent.executor.agent.request.v1"@) == 25,
        name_place("toolresult.executor.agent.response.v1"@) == 26,
        name_place("intent.ctrl.request.v1"@) == 27,
        name_place("toolresult.ctrl.response.v1"@) == 28,
        name_place("observation.metrics.snapshot.v1"@) == 29,
        name_place("observation.opening.event.v1"@) == 30,
        name_place("observation.trace.line.v1"@) == 31,
        name_place("observation.agent.log.v1"@) == 32,
        name_place("intent.action.request.v1"@) == 33,
        name_place("toolresult.action.decision.v1"@) == 34,
        name_place("error.bus.drop.notice.v1"@) == 35,
{
    assert("observation.generic.v1"@.len() == 22 && "observation.generic.v1"@[7] == 't'  && "observation.generic.v1"@[13] == 'e') by {
        reveal_strlit("observation.generic.v1");
    }
    assert("intent.generic.v1"@.len() == 17 && "intent.generic.v1"@[7] == 'g'  && "intent.generic.v1"@[13] == 'c') by {
        reveal_strlit("intent.generic.v1");
    }
    assert("intent.tool_call.v1"@.len() == 19 && "intent.tool_call.v1"@[7] == 't'  && "intent.tool_call.v1"@[13] == 'a') by {
        reveal_strlit("intent.tool_call.v1");
    }
    assert("toolresult.generic.v1"@.len() == 21 && "toolresult.generic.v1"@[7] == 'u'  && "toolresult.generic.v1"@[13] == 'n') by {
        reveal_strlit("toolresult.generic.v1");
    }
    assert("artifact.generic.v1"@.len() == 19 && "artifact.generic.v1"@[7] == 't'  && "artifact.generic.v1"@[13] == 'r') by {
        reveal_strlit("artifact.generic.v1");
    }
    assert("critique.generic.v1"@.len() == 19 && "critique.generic.v1"@[7] == 'e'  && "critique.generic.v1"@[13] == 'r') by {
        reveal_strlit("critique.generic.v1");
    }
    assert("statedelta.generic.v1"@.len() == 21 && "statedelta.generic.v1"@[7] == 'l'  && "statedelta.generic.v1"@[13] == 'n') by {
        reveal_strlit("statedelta.generic.v1");
    }
    assert("observation.run.event.v1"@.len() == 24 && "observation.run.event.v1"@[7] == 't'  && "observation.run.event.v1"@[13] == 'u') by {
        reveal_strlit("observation.run.event.v1");
    }
    assert("intent.control.v1"@.len() == 17 && "intent.control.v1"@[7] == 'c'  && "intent.control.v1"@[13] == 'l') by {
        reveal_strlit("intent.control.v1");
    }
    assert("error.report.v1"@.len() == 15 && "error.report.v1"@[7] == 'e'  && "error.report.v1"@[13] == 'v') by {
        reveal_strlit("error.report.v1");
    }
    assert("observation.agent.hello.v1"@.len() == 26 && "observation.agent.hello.v1"@[7] == 't'  && "observation.agent.hello.v1"@[13] == 'g') by {
        reveal_strlit("observation.agent.hello.v1");
    }
    assert("observation.runtime.hello.v1"@.len() == 28 && "observation.runtime.hello.v1"@[7] == 't'  && "observation.runtime.hello.v1"@[13] == 'u') by {
        reveal_strlit("observation.runtime.hello.v1");
    }
    assert("intent.init.v1"@.len() == 14 && "intent.init.v1"@[7] == 'i'  && "intent.init.v1"@[13] == '1') by {
        reveal_strlit("intent.init.v1");
    }
    assert("intent.hostcall.request.v1"@.len() == 26 && "intent.hostcall.request.v1"@[7] == 'h'  && "intent.hostcall.request.v1"@[13] == 'l') by {
        reveal_strlit("intent.hostcall.request.v1");
    }
    assert("toolresult.hostcall.response.v1"@.len() == 31 && "toolresult.hostcall.response.v1"@[7] == 'u'  && "toolresult.hostcall.response.v1"@[13] == 's') by {
        reveal_strlit("toolresult.hostcall.response.v1");
    }
    assert("intent.contacts.resolve.v1"@.len() == 26 && "intent.contacts.resolve.v1"@[7] == 'c'  && "intent.contacts.resolve.v1"@[13] == 't') by {
        reveal_strlit("intent.contacts.resolve.v1");
    }
    assert("toolresult.contacts.resolved.v1"@.len() == 31 && "toolresult.contacts.resolved.v1"@[7] == 'u'  && "toolresult.contacts.resolved.v1"@[13] == 'n') by {
        reveal_strlit("toolresult.contacts.resolved.v1");
    }
    assert("intent.context.gather.v1"@.len() == 24 && "intent.context.gather.v1"@[7] == 'c'  && "intent.context.gather.v1"@[13] == 't') by {
        reveal_strlit("intent.context.gather.v1");
    }
    assert("observation.context.bundle.v1"@.len() == 29 && "observation.context.bundle.v1"@[7] == 't'  && "observation.context.bundle.v1"@[13] == 'o') by {
        reveal_strlit("observation.context.bundle.v1");
    }
    assert("intent.draft.write.v1"@.len() == 21 && "intent.draft.write.v1"@[7] == 'd'  && "intent.draft.write.v1"@[13] == 'w') by {
        reveal_strlit("intent.draft.write.v1");
    }
    assert("artifact.draft.email.v1"@.len() == 23 && "artifact.draft.email.v1"@[7] == 't'  && "artifact.draft.email.v1"@[13] == 't') by {
        reveal_strlit("artifact.draft.email.v1");
    }
    assert("intent.review.draft.v1"@.len() == 22 && "intent.review.draft.v1"@[7] == 'r'  && "intent.review.draft.v1"@[13] == '.') by {
        reveal_strlit("intent.review.draft.v1");
    }
    assert("critique.review.v1"@.len() == 18 && "critique.review.v1"@[7] == 'e'  && "critique.review.v1"@[13] == 'e') by {
        reveal_strlit("critique.review.v1");
    }
    assert("intent.send.mail.v1"@.len() == 19 && "intent.send.mail.v1"@[7] == 's'  && "intent.send.mail.v1"@[13] == 'a') by {
        reveal_strlit("intent.send.mail.v1");
    }
    assert("toolresult.mail.result.v1"@.len() == 25 && "toolresult.mail.result.v1"@[7] == 'u'  && "toolresult.mail.result.v1"@[13] == 'i') by {
        reveal_strlit("toolresult.mail.result.v1");
    }
    assert("intent.executor.agent.request.v1"@.len() == 32 && "intent.executor.agent.request.v1"@[7] == 'e'  && "intent.executor.agent.request.v1"@[13] == 'o') by {
        reveal_strlit("intent.executor.agent.request.v1");
    }
    assert("toolresult.executor.agent.response.v1"@.len() == 37 && "toolresult.executor.agent.response.v1"@[7] == 'u'  && "toolresult.executor.agent.response.v1"@[13] == 'e') by {
        reveal_strlit("toolresult.executor.agent.response.v1");
    }
    assert("intent.ctrl.request.v1"@.len() == 22 && "intent.ctrl.request.v1"@[7] == 'c'  && "intent.ctrl.request.v1"@[13] == 'e') by {
        reveal_strlit("intent.ctrl.request.v1");
    }
    assert("toolresult.ctrl.response.v1"@.len() == 27 && "toolresult.ctrl.response.v1"@[7] == 'u'  && "toolresult.ctrl.response.v1"@[13] == 'r') by {
        reveal_strlit("toolresult.ctrl.response.v1");
    }
    assert("observation.metrics.snapshot.v1"@.len() == 31 && "observation.metrics.snapshot.v1"@[7] == 't'  && "observation.metrics.snapshot.v1"@[13] == 'e') by {
        reveal_strlit("observation.metrics.snapshot.v1");
    }
    assert("observation.opening.event.v1"@.len() == 28 && "observation.opening.event.v1"@[7] == 't'  && "observation.opening.event.v1"@[13] == 'p') by {
        reveal_strlit("observation.opening.event.v1");
    }
    assert("observation.trace.line.v1"@.len() == 25 && "observation.trace.line.v1"@[7] == 't'  && "observation.trace.line.v1"@[13] == 'r') by {
        reveal_strlit("observation.trace.line.v1");
    }
    assert("observation.agent.log.v1"@.len() == 24 && "observation.agent.log.v1"@[7] == 't'  && "observation.agent.log.v1"@[13] == 'g') by {
        reveal_strlit("observation.agent.log.v1");
    }
    assert("intent.action.request.v1"@.len() == 24 && "intent.action.request.v1"@[7] == 'a'  && "intent.action.request.v1"@[13] == '.') by {
        reveal_strlit("intent.action.request.v1");
    }
    assert("toolresult.action.decision.v1"@.len() == 29 && "toolresult.action.decision.v1"@[7] == 'u'  && "toolresult.action.decision.v1"@[13] == 't') by {
        reveal_strlit("toolresult.action.decision.v1");
    }
    assert("error.bus.drop.notice.v1"@.len() == 24 && "error.bus.drop.notice.v1"@[7] == 'u'  && "error.bus.drop.notice.v1"@[13] == 'p') by {
        reveal_strlit("error.bus.drop.notice.v1");
    }
}

proof fn lemma_kind_places(i: int)
    requires
        0 <= i < kinds().len(),
    ensures
        schema_place(kinds()[i].schema_id) == i,
        name_place(kinds()[i].type_str) == i,
{
    lemma_names();
    lemma_places();
}

/// Schema numbers and names stand for one another: no two kinds share either.
pub proof fn kinds_are_told_apart(i: int, j: int)
    requires
        0 <= i < kinds().len(),
        0 <= j < kinds().len(),
        kinds()[i].schema_id == kinds()[j].schema_id || kinds()[i].type_str == kinds()[j].type_str,
    ensures
        i == j,
{
    lemma_kind_places(i);
    lemma_kind_places(j);
}

} // verus!
