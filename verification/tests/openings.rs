use runloop::ids::{OpeningId, TraceId};
use runloop::json::{bool_in, compact, int_json, list_in, map_in, read_json, text_in, text_json, unsigned_in, Json, JsonMap, Numeral};
use runloop::openings::document::parse_opening_str;
use runloop::openings::locate::SourceLocation;
use runloop::openings::model::{ComparisonOp, Error, Literal, NodeKind, Opening, Predicate};
use runloop::openings::predicates::evaluate_predicate;
use runloop::openings::records::{NodeExecution, NodeState, RunEvent, RunReport, RunnerError};
use runloop::openings::replay::{Replay, ReplayReport};
use runloop::openings::runner::{Next, Outcome, Runner};
use runloop::openings::templates::apply_param_templates;
use runloop::openings::values::NodeOutputs;

fn json(text: &str) -> Json {
    read_json(text).expect("test JSON")
}

fn shown(j: Option<&Json>) -> String {
    compact(j.expect("a value"))
}

fn outputs(pairs: &[(&str, &str)]) -> NodeOutputs {
    let mut o = NodeOutputs::new();
    for (port, value) in pairs {
        o.push(port, json(value));
    }
    o
}

fn completed(pairs: &[(&str, &str)]) -> NodeExecution {
    NodeExecution::Completed(outputs(pairs))
}

fn boom() -> NodeExecution {
    NodeExecution::Failed { retryable: false, reason: "boom".to_string() }
}

type Script = fn(&str) -> Option<NodeExecution>;

fn run(opening: Opening, script: Script) -> (RunReport, Vec<RunEvent>) {
    let mut runner = Runner::new(opening, TraceId(7), OpeningId(9));
    let none: Vec<Vec<bool>> = Vec::new();
    let mut events = Vec::new();
    'nodes: while let Some(first) = runner.take_next() {
        let id = runner.opening().nodes[first.node].id.clone();
        loop {
            events.extend(runner.start_events());
            let outcome = match script(&id) {
                Some(x) => Outcome::Execution(x),
                None => Outcome::Error(RunnerError::Executor(format!("no mock for {id}"))),
            };
            let (next, more) = runner.finish_attempt(outcome, 1, 2, &none);
            events.extend(more);
            match next {
                Next::NodeDone => continue 'nodes,
                Next::RunFailed => break 'nodes,
                Next::Retry { .. } => {}
            }
        }
    }
    let (report, last) = runner.finish(&none);
    events.extend(last);
    (report, events)
}

fn replay(opening: &Opening, report: &RunReport, script: Script) -> ReplayReport {
    let mut r = Replay::new(opening.nodes.iter().map(|n| n.id.clone()).collect());
    for t in &report.trace.nodes {
        if let Some(i) = r.consider(t) {
            let x = script(&opening.nodes[i].id).expect("mock");
            r.judge(t, &x);
        }
    }
    r.finish()
}

const TWO: &str = r#"
version: 0
name: unit_test
nodes:
  - id: first
    use: agent:first
  - id: second
    use: agent:second
edges:
  - from: first.out
    to: second.in
success:
  all_of:
    - second.ok == true
"#;

fn two_script(id: &str) -> Option<NodeExecution> {
    match id {
        "first" => Some(completed(&[("out", "\"payload\"")])),
        "second" => Some(completed(&[("ok", "true")])),
        _ => None,
    }
}

#[test]
fn runner_executes_and_replays() {
    let opening = parse_opening_str(TWO).expect("parse opening");
    let (report, _) = run(opening, two_script);
    assert!(report.trace.success, "run should succeed");
    let again = parse_opening_str(TWO).expect("parse opening");
    let replayed = replay(&again, &report, two_script);
    assert!(replayed.matches, "replay should match original outputs");
    assert_eq!(replayed.replay_hash, report.trace.final_hash);
}

#[test]
fn replay_notices_other_outputs() {
    fn other(id: &str) -> Option<NodeExecution> {
        match id {
            "first" => Some(completed(&[("out", "\"other\"")])),
            _ => two_script(id),
        }
    }
    let opening = parse_opening_str(TWO).expect("parse opening");
    let (report, _) = run(opening, two_script);
    let again = parse_opening_str(TWO).expect("parse opening");
    let replayed = replay(&again, &report, other);
    assert!(!replayed.matches);
    assert_eq!(replayed.mismatches.len(), 1);
    assert_eq!(replayed.mismatches[0].node_id, "first");
    assert_eq!(replayed.mismatches[0].reason, "output hash mismatch");
}

#[test]
fn agent_reference_supports_variant() {
    let yaml = r#"
version: 0
name: variants
nodes:
  - id: alpha
    use: agent:writer@nightly
  - id: beta
    use: agent:critic
edges: []
"#;
    let opening = parse_opening_str(yaml).expect("parse opening");
    let node = opening.nodes.iter().find(|n| n.id == "alpha").expect("alpha node");
    match &node.kind {
        NodeKind::Agent { reference } => {
            assert_eq!(reference.name, "writer");
            assert_eq!(reference.variant.as_deref(), Some("nightly"));
        }
        other => panic!("expected agent node, got {other:?}"),
    }
    let refs = opening.agent_refs();
    assert_eq!(refs.len(), 2);
    assert_eq!(refs[0].spec(), "writer@nightly");
    assert_eq!(refs[1].spec(), "critic");
}

#[test]
fn schema_hints_build_object_schema() {
    let yaml = r#"
version: 0
name: hints
nodes:
  - id: alpha
    use: agent:writer
    schema_hints:
      with:
        tone:
          enum: ["neutral"]
        topic:
          required: true
edges: []
"#;
    let opening = parse_opening_str(yaml).expect("parse opening");
    let node = opening.nodes.iter().find(|n| n.id == "alpha").expect("node");
    let schema = node.schema_hints.with_schema().expect("schema");
    let properties = map_in(schema.get("properties")).expect("properties map");
    assert!(properties.has("tone"));
    let required = list_in(schema.get("required")).expect("required array");
    assert!(required.iter().any(|v| text_in(Some(v)).map(|s| s.as_str()) == Some("topic")));
}

#[test]
fn predicate_can_skip_downstream_node() {
    let yaml = r#"
version: 0
name: gating
nodes:
  - id: review
    use: agent:critic
  - id: send
    use: agent:mailer
edges:
  - from: review.ok==true
    to: send.in
"#;
    fn script(id: &str) -> Option<NodeExecution> {
        match id {
            "review" => Some(completed(&[("ok", "false")])),
            "send" => Some(completed(&[])),
            _ => None,
        }
    }
    let opening = parse_opening_str(yaml).expect("parse opening");
    let (report, _) = run(opening, script);
    let review = report.node_records.iter().find(|r| r.node_id == "review").expect("review record");
    assert!(matches!(review.state, NodeState::Succeeded));
    let send = report.node_records.iter().find(|r| r.node_id == "send").expect("send record");
    assert!(matches!(send.state, NodeState::Skipped));
}

#[test]
fn templating_supports_numeric_and_boolean_params() {
    let yaml = r#"
version: 0
name: numeric_params
params:
  limit: 5
  enabled: true
nodes:
  - id: worker
    use: agent:worker
    with:
      limit: "{{params.limit}}"
      enabled: "{{params.enabled}}"
  - id: sink
    use: agent:sink
edges:
  - from: worker.out
    to: sink.input
"#;
    let opening = parse_opening_str(yaml).expect("parse opening");
    let worker = opening.nodes.iter().find(|n| n.id == "worker").expect("worker node");
    assert_eq!(unsigned_in(worker.with.get("limit")), Some(5));
    assert_eq!(bool_in(worker.with.get("enabled")), Some(true));
}

#[test]
fn goals_non_strings_raise_error() {
    let yaml = r#"
version: 0
name: bad_goals
goals:
  - 123
nodes:
  - id: lone
    use: agent:lone
edges: []
"#;
    let err = parse_opening_str(yaml).expect_err("non-string goal should fail");
    let message = err.message();
    assert!(message.contains("goals[0]"), "error should mention offending goal index: {message}");
}

#[test]
fn predicate_checks_all_values_on_port() {
    let yaml = r#"
version: 0
name: multi_value
nodes:
  - id: start
    use: agent:start
  - id: gate
    use: agent:gate
edges:
  - from: start.flag==true
    to: gate.input
success:
  all_of:
    - gate.ok == true
"#;
    fn script(id: &str) -> Option<NodeExecution> {
        match id {
            "start" => Some(completed(&[("flag", "false"), ("flag", "true")])),
            "gate" => Some(completed(&[("ok", "true")])),
            _ => None,
        }
    }
    let opening = parse_opening_str(yaml).expect("parse opening");
    let (report, _) = run(opening, script);
    let gate = report.node_records.iter().find(|r| r.node_id == "gate").expect("gate record");
    assert!(matches!(gate.state, NodeState::Succeeded));
    assert!(report.trace.success, "run should succeed when a later port value matches predicate");
}

#[test]
fn replay_handles_node_failure() {
    let yaml = r#"
version: 0
name: failing
nodes:
  - id: flake
    use: agent:flake
  - id: sink
    use: agent:sink
edges:
  - from: flake.out
    to: sink.in
"#;
    fn script(id: &str) -> Option<NodeExecution> {
        match id {
            "flake" => Some(boom()),
            _ => None,
        }
    }
    let opening = parse_opening_str(yaml).expect("parse opening");
    let (report, _) = run(opening, script);
    assert!(!report.trace.success, "run should fail");
    let again = parse_opening_str(yaml).expect("parse opening");
    let replayed = replay(&again, &report, script);
    assert!(replayed.matches, "replay should match recorded failure");
}

#[test]
fn runner_emits_structured_events_in_order() {
    let yaml = r#"
version: 0
name: single_node
nodes:
  - id: first
    use: agent:first
  - id: sink
    use: agent:sink
edges:
  - from: first.out
    to: sink.in
success:
  all_of:
    - sink.ok == true
"#;
    fn script(id: &str) -> Option<NodeExecution> {
        match id {
            "first" => Some(completed(&[("out", "\"ok\"")])),
            "sink" => Some(completed(&[("ok", "true")])),
            _ => None,
        }
    }
    let opening = parse_opening_str(yaml).expect("parse opening");
    let (report, events) = run(opening, script);
    let trace_id = report.trace.trace_id;
    assert!(events.len() >= 6, "expected node lifecycle events before completion");
    assert!(matches!(
        &events[0],
        RunEvent::NodeState { state: NodeState::Running, attempt: 1, node_id } if node_id == "first"
    ));
    assert!(matches!(
        &events[1],
        RunEvent::LogLine { node_id, level, .. } if node_id == "first" && level == "info"
    ));
    assert!(matches!(&events[2], RunEvent::NodeState { state: NodeState::Succeeded, attempt: 1, .. }));
    assert!(matches!(
        &events[3],
        RunEvent::LogLine { node_id, message, .. } if node_id == "first" && message.contains("succeeded")
    ));
    assert!(matches!(&events[4], RunEvent::TraceLine { .. }));
    match events.last() {
        Some(RunEvent::Completed { trace }) => {
            assert_eq!(trace.trace_id, trace_id, "completed trace id matches");
        }
        other => panic!("unexpected final event: {other:?}"),
    }
}

#[test]
fn applies_array_param_when_template_is_entire_value() {
    let mut payload = JsonMap::new();
    payload.insert("extra_lines".to_string(), text_json("{{params.extra_lines}}"));
    let mut params = JsonMap::new();
    params.insert("extra_lines".to_string(), json(r#"["set -g mouse on", "setw -g mode-keys vi"]"#));
    apply_param_templates(&mut payload, &params, SourceLocation::new(1, 1))
        .expect("should substitute array param");
    assert_eq!(shown(payload.get("extra_lines")), r#"["set -g mouse on","setw -g mode-keys vi"]"#);
}

#[test]
fn applies_object_param_inside_array_element() {
    let mut payload = JsonMap::new();
    payload.insert("items".to_string(), Json::Array(vec![text_json("{{params.obj}}")]));
    let mut params = JsonMap::new();
    params.insert("obj".to_string(), json(r#"{"key": "value"}"#));
    apply_param_templates(&mut payload, &params, SourceLocation::new(1, 1))
        .expect("should substitute object param inside array");
    let items = list_in(payload.get("items")).expect("items array");
    assert_eq!(shown(items.first()), r#"{"key":"value"}"#);
}

#[test]
fn rejects_inline_template_with_non_scalar_param() {
    let mut payload = JsonMap::new();
    payload.insert("line".to_string(), text_json("prefix {{params.extra_lines}}"));
    let mut params = JsonMap::new();
    params.insert("extra_lines".to_string(), json(r#"["foo"]"#));
    let err = apply_param_templates(&mut payload, &params, SourceLocation::new(3, 5))
        .expect_err("inline template should be rejected");
    assert!(matches!(err, Error::Validation { .. }));
}

#[test]
fn allows_templates_inside_object_values() {
    let mut payload = JsonMap::new();
    payload.insert(
        "input".to_string(),
        json(r#"{"history_limit": "{{params.limit}}", "tmux_conf": "~/.tmux.conf"}"#),
    );
    let mut params = JsonMap::new();
    params.insert("limit".to_string(), int_json(1234));
    apply_param_templates(&mut payload, &params, SourceLocation::new(1, 1))
        .expect("object template should be substituted");
    let input = map_in(payload.get("input")).expect("input object");
    assert_eq!(shown(input.get("history_limit")), "1234");
    assert_eq!(shown(input.get("tmux_conf")), "\"~/.tmux.conf\"");
}

fn max_output() -> NodeOutputs {
    let mut o = NodeOutputs::new();
    o.push("out", Json::Number(Numeral::Unsigned(u64::MAX)));
    o
}

#[test]
fn integer_predicate_handles_large_unsigned_values_for_gt() {
    let predicate = Predicate { op: ComparisonOp::Gt, value: Literal::Integer(-1) };
    assert!(evaluate_predicate(&predicate, "out", &max_output(), &vec![]));
}

#[test]
fn integer_predicate_handles_large_unsigned_values_for_lt() {
    let predicate = Predicate { op: ComparisonOp::Lt, value: Literal::Integer(i64::MAX) };
    assert!(!evaluate_predicate(&predicate, "out", &max_output(), &vec![]));
}

#[test]
fn string_predicate_supports_ordering_ops() {
    let o = outputs(&[("out", "\"lion\"")]);
    let gt = Predicate { op: ComparisonOp::Gt, value: Literal::String("hawk".to_string()) };
    assert!(evaluate_predicate(&gt, "out", &o, &vec![]));
    let lt = Predicate { op: ComparisonOp::Lt, value: Literal::String("zebra".to_string()) };
    assert!(evaluate_predicate(&lt, "out", &o, &vec![]));
}

#[test]
fn cycles_are_rejected() {
    let yaml = r#"
version: 0
name: ring
nodes:
  - id: a
    use: agent:a
  - id: b
    use: agent:b
edges:
  - from: a.out
    to: b.in
  - from: b.out
    to: a.in
"#;
    let err = parse_opening_str(yaml).expect_err("a ring has no order");
    assert!(matches!(err, Error::Validation { .. }));
    assert!(err.message().starts_with("validation error at "));
}

#[test]
fn broken_yaml_is_a_parse_error() {
    let err = parse_opening_str("version: [").expect_err("no YAML");
    assert!(matches!(err, Error::Parse { .. }));
    assert!(err.message().starts_with("YAML parse error at "));
}

#[test]
fn output_digests_follow_ports_and_values() {
    let a = outputs(&[("x", "1"), ("y", "2")]);
    let b = outputs(&[("y", "2"), ("x", "1")]);
    let c = outputs(&[("x", "2"), ("y", "1")]);
    assert_eq!(a.hash_hex(), b.hash_hex());
    assert_ne!(a.hash_hex(), c.hash_hex());
    assert_eq!(a.hash_hex().len(), 64);
    assert_eq!(a.hash().len(), 32);
}

#[test]
fn runner_errors_are_told() {
    let e = RunnerError::Timeout { node_id: "n".to_string(), timeout_ms: 15 };
    assert_eq!(e.message(), "node 'n' timed out after 15 ms");
    let f = RunnerError::NodeFailure { node_id: "n".to_string(), reason: "why".to_string() };
    assert_eq!(f.message(), "node 'n' failed: why");
    assert_eq!(RunnerError::Executor("x".to_string()).message(), "executor error: x");
}

#[test]
fn unfed_nodes_are_skipped_with_what_follows() {
    let yaml = r#"
version: 0
name: skips
nodes:
  - id: first
    use: agent:first
  - id: second
    use: agent:second
  - id: third
    use: agent:third
edges:
  - from: first.out == "go"
    to: second.in
  - from: second.out
    to: third.in
"#;
    fn stay(id: &str) -> Option<NodeExecution> {
        match id {
            "first" => Some(completed(&[("out", "\"stay\"")])),
            _ => None,
        }
    }
    fn go(id: &str) -> Option<NodeExecution> {
        match id {
            "first" => Some(completed(&[("out", "\"go\"")])),
            _ => Some(completed(&[("out", "1")])),
        }
    }
    let (held, _) = run(parse_opening_str(yaml).expect("parse opening"), stay);
    let states: Vec<&NodeState> = held.trace.nodes.iter().map(|n| &n.state).collect();
    assert!(matches!(states[..], [NodeState::Succeeded, NodeState::Skipped, NodeState::Skipped]));
    assert!(held.trace.success);
    let (gone, events) = run(parse_opening_str(yaml).expect("parse opening"), go);
    assert!(gone.trace.nodes.iter().all(|n| matches!(n.state, NodeState::Succeeded)));
    assert!(matches!(events.last(), Some(RunEvent::Completed { trace }) if trace.final_hash == gone.trace.final_hash));
}

#[test]
fn nodes_that_share_a_name_share_a_record() {
    let mut doubled = parse_opening_str(TWO).expect("opening");
    doubled.nodes[1].id = doubled.nodes[0].id.clone();
    let (report, _) = run(doubled, two_script);
    assert!(!report.trace.success, "nobody is called second");
    assert_eq!(report.node_records.len(), 1);
    assert_eq!(report.node_records[0].attempts.len(), 2, "each takes its turn");
    assert!(report.node_records[0].attempts.iter().all(|a| a.attempt == 1));
    assert_eq!(report.trace.nodes.len(), 2);
    assert!(report.trace.nodes.iter().all(|n| n.node_id == "first" && matches!(n.state, NodeState::Succeeded)));
    let mut again = parse_opening_str(TWO).expect("opening");
    again.nodes[1].id = again.nodes[0].id.clone();
    let replayed = replay(&again, &report, two_script);
    assert!(replayed.matches);
    assert_eq!(replayed.replay_hash, report.trace.final_hash);
    let mut r = Replay::new(vec!["first".to_string(), "first".to_string()]);
    assert_eq!(r.consider(&report.trace.nodes[0]), Some(1), "the last of a name is run again");
}

#[test]
fn edges_from_nowhere_hold_a_node_back() {
    let mut loose = parse_opening_str(TWO).expect("opening");
    loose.edges[0].from.node = "nobody".to_string();
    let (report, events) = run(loose, two_script);
    assert!(matches!(report.trace.nodes[0].state, NodeState::Succeeded));
    assert!(matches!(report.trace.nodes[1].state, NodeState::Skipped));
    assert!(events.iter().any(|e| matches!(e, RunEvent::NodeState { node_id, state: NodeState::Skipped, attempt: 0 } if node_id == "second")));
    assert!(!report.trace.success);
    let mut astray = parse_opening_str(TWO).expect("opening");
    astray.edges[0].to.node = "nobody".to_string();
    let (report, _) = run(astray, two_script);
    assert!(report.trace.nodes.iter().all(|n| matches!(n.state, NodeState::Succeeded)));
    assert!(report.trace.success);
}
