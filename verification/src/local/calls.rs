//! How agents are called: what they are told, where they stand, and when another way is taken.

use crate::agents::{reference_text, AgentRef, AgentRefModel};
use crate::armor::{base64_bytes, base64_text, write_base64};
use crate::json::{compact, json_text, Json, JsonMap, JsonModel, MapModel};
use crate::openings::records::RunnerError;
use crate::paths::{join_path, joined_path};
use crate::registry::manifests::AgentBundle;
use crate::text::{concat, concat3, contains, has_text, same, texts};
use vstd::prelude::*;

verus! {

/// Whether an error says that execution failed for a reason.
pub open spec fn fails_with(e: RunnerError, reason: Seq<char>) -> bool {
    match e {
        RunnerError::Executor(m) => m@ == reason,
        _ => false,
    }
}

/// The way in which a node's agent is run.
#[derive(Clone, Copy, Debug, PartialEq, Eq, Structural)]
pub enum AgentRoute {
    Contact,
    Context,
    Writer,
    Critic,
    Mailer,
    SystemTra,
    Generic,
}

pub open spec fn route_of(name: Seq<char>) -> AgentRoute {
    if name == "contact_resolver"@ {
        AgentRoute::Contact
    } else if name == "context_gatherer"@ {
        AgentRoute::Context
    } else if name == "writer"@ {
        AgentRoute::Writer
    } else if name == "critic"@ {
        AgentRoute::Critic
    } else if name == "mailer"@ {
        AgentRoute::Mailer
    } else if name == "system_tra"@ {
        AgentRoute::SystemTra
    } else {
        AgentRoute::Generic
    }
}

pub fn agent_route(reference: &AgentRef) -> (r: AgentRoute)
    ensures
        r == route_of(reference.name@),
{
    let name = reference.name.as_str();
    if same(name, "contact_resolver") {
        AgentRoute::Contact
    } else if same(name, "context_gatherer") {
        AgentRoute::Context
    } else if same(name, "writer") {
        AgentRoute::Writer
    } else if same(name, "critic") {
        AgentRoute::Critic
    } else if same(name, "mailer") {
        AgentRoute::Mailer
    } else if same(name, "system_tra") {
        AgentRoute::SystemTra
    } else {
        AgentRoute::Generic
    }
}

/// An opening within an opening is not run here.
pub fn nested_opening(name: &str) -> (r: RunnerError)
    ensures
        fails_with(r, "nested opening '"@ + name@ + "' unsupported in local executor"@),
{
    RunnerError::Executor(
        concat3("nested opening '", name, "' unsupported in local executor"),
    )
}

/// A reference as an agent is told of it: the name, and the variant if one is given.
pub open spec fn told_reference(r: AgentRefModel) -> Seq<char> {
    match r.variant {
        Some(v) => r.name + "@"@ + v,
        None => r.name,
    }
}

pub fn reference_spec(reference: &AgentRef) -> (r: String)
    ensures
        r@ == told_reference(reference@),
{
    match &reference.variant {
        Some(v) => concat3(reference.name.as_str(), "@", v.as_str()),
        None => reference.name.clone(),
    }
}

/// A parameter as an agent is told of it: a text as it is, anything else as JSON.
pub open spec fn told_value(j: JsonModel) -> Seq<char> {
    match j {
        JsonModel::Text(t) => t,
        _ => json_text(j),
    }
}

pub fn stringify_input(value: &Json) -> (r: String)
    ensures
        r@ == told_value(value@),
{
    match value {
        Json::Text(t) => t.clone(),
        _ => compact(value),
    }
}

/// Something that is handed over as bytes: base64, which the agent reads back.
pub fn encode_json_arg(bytes: &Vec<u8>) -> (r: String)
    ensures
        r@ == base64_text(bytes@),
        base64_bytes(r@) == Some(bytes@),
{
    write_base64(bytes)
}

/// The arguments for an agent that is told its first `n` parameters by name.
pub open spec fn named_args(r: AgentRefModel, with: MapModel, n: nat) -> Seq<Seq<char>>
    decreases n,
{
    if n == 0 {
        seq![told_reference(r)]
    } else {
        named_args(r, with, (n - 1) as nat).push("--"@ + with[n - 1].0).push(
            told_value(with[n - 1].1),
        )
    }
}

/// The arguments and the environment for an agent that is told all parameters of its node.
#[derive(Debug)]
pub struct GenericCall {
    pub args: Vec<String>,
    pub env: Vec<(String, String)>,
}

pub fn generic_call(reference: &AgentRef, with: &JsonMap) -> (r: GenericCall)
    ensures
        texts(r.args@) == named_args(reference@, with@, with@.len()),
        r.env@.len() == 1,
        r.env@[0].0@ == "RUNLOOP_NODE_INPUT"@,
        r.env@[0].1@ == json_text(JsonModel::Object(with@)),
{
    let mut args: Vec<String> = Vec::new();
    args.push(reference_spec(reference));
    assert(texts(args@) =~= named_args(reference@, with@, 0));
    let mut i: usize = 0;
    while i < with.entries.len()
        invariant
            i <= with.entries.len(),
            with@.len() == with.entries@.len(),
            texts(args@) == named_args(reference@, with@, i as nat),
        decreases with.entries.len() - i,
    {
        assert(with@[i as int] == (with.entries@[i as int].0@, with.entries@[i as int].1@));
        let ghost o = args@;
        let name = concat("--", with.entries[i].0.as_str());
        let value = stringify_input(&with.entries[i].1);
        args.push(name);
        args.push(value);
        assert(texts(args@) =~= texts(o).push(name@).push(value@));
        i += 1;
    }
    let mut env: Vec<(String, String)> = Vec::new();
    env.push(("RUNLOOP_NODE_INPUT".to_owned(), compact(&Json::Object(with.clone()))));
    GenericCall { args, env }
}

/// What was found of an agent's program: whether it is a file, and its digest or why there is none.
#[derive(Debug)]
pub struct ProgramFacts {
    pub is_file: bool,
    pub digest: Result<String, String>,
}

/// Whether an agent's program can be run: it is there, and it is the one that was promised.
pub open spec fn runnable(b: AgentBundle, f: ProgramFacts) -> bool {
    match (b.wasm_entry, f.digest) {
        (Some(e), Ok(d)) => f.is_file && d@ == e.blake3@,
        _ => false,
    }
}

/// Whether the program of an agent is run, rather than the way that is built in.
pub fn wasm_bundle(bundle: &AgentBundle, facts: &ProgramFacts) -> (r: bool)
    ensures
        r == runnable(*bundle, *facts),
{
    match (&bundle.wasm_entry, &facts.digest) {
        (Some(e), Ok(d)) => facts.is_file && same(d.as_str(), e.blake3.as_str()),
        _ => false,
    }
}

/// Why an agent without another way cannot be run.
pub open spec fn unrunnable(r: AgentRefModel, b: AgentBundle, f: ProgramFacts) -> Option<Seq<char>> {
    match b.wasm_entry {
        None => Some("agent '"@ + told_reference(r) + "' is missing entry_wasm"@),
        Some(e) => if !f.is_file {
            Some("agent '"@ + told_reference(r) + "' missing wasm binary at "@ + e.path@)
        } else {
            match f.digest {
                Err(m) => Some(e.path@ + " digest check failed: "@ + m@),
                Ok(d) => if d@ != e.blake3@ {
                    Some(
                        "agent '"@ + told_reference(r) + "' wasm digest mismatch (expected "@
                            + e.blake3@ + ", got "@ + d@ + ")"@,
                    )
                } else {
                    None
                },
            }
        },
    }
}

pub fn require_wasm_bundle(reference: &AgentRef, bundle: &AgentBundle, facts: &ProgramFacts) -> (r:
    Result<(), RunnerError>)
    ensures
        match (r, unrunnable(reference@, *bundle, *facts)) {
            (Ok(_), None) => true,
            (Err(e), Some(m)) => fails_with(e, m),
            _ => false,
        },
{
    let who = concat("agent '", reference_spec(reference).as_str());
    let entry = match &bundle.wasm_entry {
        None => {
            return Err(
                RunnerError::Executor(concat(who.as_str(), "' is missing entry_wasm")),
            );
        },
        Some(e) => e,
    };
    if !facts.is_file {
        return Err(
            RunnerError::Executor(
                concat3(who.as_str(), "' missing wasm binary at ", entry.path.as_str()),
            ),
        );
    }
    match &facts.digest {
        Err(m) => Err(
            RunnerError::Executor(
                concat3(entry.path.as_str(), " digest check failed: ", m.as_str()),
            ),
        ),
        Ok(d) => {
            if same(d.as_str(), entry.blake3.as_str()) {
                Ok(())
            } else {
                let mut text = concat3(
                    who.as_str(),
                    "' wasm digest mismatch (expected ",
                    entry.blake3.as_str(),
                );
                text.append(", got ");
                text.append(d.as_str());
                text.append(")");
                Err(RunnerError::Executor(text))
            }
        },
    }
}

/// A program runs just where nothing stands against it.
pub proof fn runnable_or_explained(r: AgentRefModel, b: AgentBundle, f: ProgramFacts)
    ensures
        runnable(b, f) <==> unrunnable(r, b, f) is None,
{
}

/// Whether the built-in way is taken after an error: only where the program was not there.
pub open spec fn falls_back(e: RunnerError) -> bool {
    match e {
        RunnerError::Executor(m) => has_text(m@, "missing wasm entry"@) || has_text(
            m@,
            "No such file or directory"@,
        ),
        _ => false,
    }
}

pub fn should_fallback(err: &RunnerError) -> (r: bool)
    ensures
        r == falls_back(*err),
{
    match err {
        RunnerError::Executor(m) => contains(m.as_str(), "missing wasm entry") || contains(
            m.as_str(),
            "No such file or directory",
        ),
        _ => false,
    }
}

/// What is done next for a node.
#[derive(Debug)]
pub enum Step {
    Invoke(Vec<String>),
    Native,
}

/// An agent's program is called where it can be run.
pub fn first_step(runs: bool, args: Vec<String>) -> (r: Step)
    ensures
        r == (if runs {
            Step::Invoke(args)
        } else {
            Step::Native
        }),
{
    if runs {
        Step::Invoke(args)
    } else {
        Step::Native
    }
}

/// After a failed call: the built-in way, or the failure.
pub fn after_failure(err: RunnerError) -> (r: Result<Step, RunnerError>)
    ensures
        r == (if falls_back(err) {
            Ok::<Step, RunnerError>(Step::Native)
        } else {
            Err::<Step, RunnerError>(err)
        }),
{
    if should_fallback(&err) {
        Ok(Step::Native)
    } else {
        Err(err)
    }
}

/// Where and how a program is started.
#[derive(Debug)]
pub struct SpawnPlan {
    pub program: String,
    pub policy_path: String,
    pub args: Vec<String>,
    pub env: Vec<(String, String)>,
    pub cwd: String,
    pub stdout_capacity: usize,
    pub stderr_capacity: usize,
    pub ready_timeout_ms: u64,
}

pub fn spawn_plan(
    bundle: &AgentBundle,
    args: Vec<String>,
    env: Vec<(String, String)>,
    timeout_ms: u64,
) -> (r: Result<SpawnPlan, RunnerError>)
    ensures
        match (r, bundle.wasm_entry) {
            (Ok(p), Some(e)) => {
                &&& p.program@ == e.path@
                &&& p.policy_path@ == (match bundle.policy_path {
                    Some(path) => path@,
                    None => joined_path(bundle.manifest_dir@, "policy.caps"@),
                })
                &&& p.args == args
                &&& p.env == env
                &&& p.cwd@ == bundle.manifest_dir@
                &&& p.stdout_capacity == 262144
                &&& p.stderr_capacity == 65536
                &&& p.ready_timeout_ms == timeout_ms
            },
            (Err(e), None) => fails_with(e, "agent missing wasm entry"@),
            _ => false,
        },
{
    match &bundle.wasm_entry {
        None => Err(RunnerError::Executor("agent missing wasm entry".to_owned())),
        Some(e) => Ok(
            SpawnPlan {
                program: e.path.clone(),
                policy_path: match &bundle.policy_path {
                    Some(p) => p.clone(),
                    None => join_path(bundle.manifest_dir.as_str(), "policy.caps"),
                },
                args,
                env,
                cwd: bundle.manifest_dir.clone(),
                stdout_capacity: 262144,
                stderr_capacity: 65536,
                ready_timeout_ms: timeout_ms,
            },
        ),
    }
}

/// How long an agent may take.
pub fn agent_timeout_ms(timeout_ms: Option<u64>) -> (r: u64)
    ensures
        r == match timeout_ms {
            Some(t) => t,
            None => 30_000,
        },
{
    match timeout_ms {
        Some(t) => t,
        None => 30_000,
    }
}

/// An agent's answer that is not of the right shape.
pub fn invalid_output(reference: &AgentRef, err: &str) -> (r: RunnerError)
    ensures
        fails_with(r, "invalid "@ + reference_text(reference@) + " output: "@ + err@),
{
    let mut text = concat3("invalid ", reference.spec().as_str(), " output: ");
    text.append(err);
    RunnerError::Executor(text)
}

} // verus!
