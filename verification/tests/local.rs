use runloop::agents::{AgentPorts, AgentRef, DescribedAgent};
use runloop::broker::types::Fraction;
use runloop::crew::common::{
    ActionDecision, AgentError, ContextBundle, ContextSnippet, DraftArtifact, MailResult, ResolvedContact, Review,
    ReviewNotes,
};
use runloop::ids::{AgentId, EventId, OpeningId, TraceId};
use runloop::json::{compact, read_json, Json, JsonMap};
use runloop::kb::ledger::KbError;
use runloop::local::calls::{
    after_failure, agent_route, agent_timeout_ms, first_step, generic_call, invalid_output, nested_opening,
    reference_spec, require_wasm_bundle, should_fallback, spawn_plan, stringify_input, wasm_bundle, AgentRoute,
    ProgramFacts, Step,
};
use runloop::local::jobs::{
    draft_event, generic_outputs, mail_recorded, needed, persisted_draft, plan_contact, plan_context, plan_critic,
    plan_system_tra, plan_writer, seed_contact, seed_query, MailStep, MailerAgentOutput, MailerJob, MailerReads,
    WriterAgentOutput, WriterReads,
};
use runloop::local::trees::{bundle_json, contact_json, draft_json, mail_json, review_json, review_outputs};
use runloop::local::watch::{try_parse_json, Watch};
use runloop::openings::records::RunnerError;
use runloop::registry::manifests::{AgentBinary, AgentBundle};

fn writer() -> AgentRef {
    AgentRef::new("writer".to_string(), Some("v1".to_string()))
}

fn fraction() -> Fraction {
    Fraction { short: "0.4".to_string(), wide: "0.4000000059604645".to_string() }
}

fn contact() -> ResolvedContact {
    ResolvedContact {
        contact_id: "contact:k".to_string(),
        name: "Ann".to_string(),
        email: "a@x".to_string(),
        org: None,
        confidence: fraction(),
        last_event_id: Some(EventId(3)),
    }
}

fn bundle_of(entry: Option<(&str, &str)>) -> AgentBundle {
    AgentBundle {
        described: DescribedAgent {
            reference: writer(),
            ports: AgentPorts { inputs: vec![], outputs: vec![] },
            schema: runloop::agents::AgentSchemaBundle { with: None },
            version: "1".to_string(),
            digest: "d".to_string(),
            artifacts: runloop::agents::AgentArtifacts { tools: None },
        },
        manifest_dir: "/m".to_string(),
        wasm_entry: entry.map(|(p, d)| AgentBinary { path: p.to_string(), blake3: d.to_string() }),
        native_entry: None,
        policy_path: None,
        tools: None,
    }
}

#[test]
fn stringify_input_keeps_string() {
    assert_eq!(stringify_input(&Json::Text("plain".to_string())), "plain");
}

#[test]
fn stringify_input_serializes_object() {
    let input = read_json(
        r#"{"tmux_conf": "~/.tmux.conf", "history_limit": 42, "extra_tmux_lines": ["set -g mouse on"]}"#,
    )
    .unwrap();
    let result = stringify_input(&input);
    let reparsed = read_json(&result).unwrap();
    assert!(reparsed.equals(&input));
}

#[test]
fn agents_have_their_ways() {
    let route = |n: &str| agent_route(&AgentRef::new(n.to_string(), None));
    assert_eq!(route("contact_resolver"), AgentRoute::Contact);
    assert_eq!(route("context_gatherer"), AgentRoute::Context);
    assert_eq!(route("writer"), AgentRoute::Writer);
    assert_eq!(route("critic"), AgentRoute::Critic);
    assert_eq!(route("mailer"), AgentRoute::Mailer);
    assert_eq!(route("system_tra"), AgentRoute::SystemTra);
    assert_eq!(route("else"), AgentRoute::Generic);
    assert_eq!(
        nested_opening("o").message(),
        "executor error: nested opening 'o' unsupported in local executor"
    );
    assert_eq!(reference_spec(&writer()), "writer@v1");
    assert_eq!(agent_timeout_ms(None), 30_000);
    assert_eq!(agent_timeout_ms(Some(5)), 5);
}

#[test]
fn programs_are_checked() {
    let b = bundle_of(Some(("/m/a.wasm", "dd")));
    let good = ProgramFacts { is_file: true, digest: Ok("dd".to_string()) };
    let other = ProgramFacts { is_file: true, digest: Ok("ee".to_string()) };
    let gone = ProgramFacts { is_file: false, digest: Err("x".to_string()) };
    let unread = ProgramFacts { is_file: true, digest: Err("x".to_string()) };
    assert!(wasm_bundle(&b, &good));
    assert!(!wasm_bundle(&b, &other));
    assert!(!wasm_bundle(&b, &gone));
    assert!(!wasm_bundle(&bundle_of(None), &good));
    assert!(require_wasm_bundle(&writer(), &b, &good).is_ok());
    let told = |b: &AgentBundle, f: &ProgramFacts| require_wasm_bundle(&writer(), b, f).unwrap_err().message();
    assert_eq!(
        told(&b, &other),
        "executor error: agent 'writer@v1' wasm digest mismatch (expected dd, got ee)"
    );
    assert_eq!(told(&b, &gone), "executor error: agent 'writer@v1' missing wasm binary at /m/a.wasm");
    assert_eq!(told(&b, &unread), "executor error: /m/a.wasm digest check failed: x");
    assert_eq!(told(&bundle_of(None), &good), "executor error: agent 'writer@v1' is missing entry_wasm");
}

#[test]
fn missing_programs_fall_back() {
    let missing = || RunnerError::Executor("agent missing wasm entry".to_string());
    assert!(should_fallback(&missing()));
    assert!(should_fallback(&RunnerError::Executor("x: No such file or directory".to_string())));
    assert!(!should_fallback(&RunnerError::Executor("other".to_string())));
    assert!(matches!(after_failure(missing()), Ok(Step::Native)));
    assert!(after_failure(RunnerError::Timeout { node_id: "n".to_string(), timeout_ms: 1 }).is_err());
    assert!(matches!(first_step(true, vec![]), Step::Invoke(_)));
    assert!(matches!(first_step(false, vec![]), Step::Native));
}

#[test]
fn programs_are_started_beside_their_manifest() {
    let p = spawn_plan(&bundle_of(Some(("/m/a.wasm", "d"))), vec!["a".to_string()], vec![], 9).unwrap();
    assert_eq!((p.program.as_str(), p.policy_path.as_str(), p.cwd.as_str()), ("/m/a.wasm", "/m/policy.caps", "/m"));
    assert_eq!((p.stdout_capacity, p.stderr_capacity, p.ready_timeout_ms), (262144, 65536, 9));
    assert_eq!(
        spawn_plan(&bundle_of(None), vec![], vec![], 9).unwrap_err().message(),
        "executor error: agent missing wasm entry"
    );
    assert_eq!(invalid_output(&writer(), "e").message(), "executor error: invalid writer@v1 output: e");
}

#[test]
fn parameters_become_arguments() {
    let mut with = JsonMap::new();
    with.insert("n".to_string(), read_json("[1]").unwrap());
    with.insert("a".to_string(), Json::Text("t".to_string()));
    let call = generic_call(&writer(), &with);
    assert_eq!(call.args, vec!["writer@v1", "--a", "t", "--n", "[1]"]);
    assert_eq!(call.env, vec![("RUNLOOP_NODE_INPUT".to_string(), r#"{"a":"t","n":[1]}"#.to_string())]);
}

#[test]
fn contact_queries_are_planned() {
    let some = |s: &str| Ok(Some(s.to_string()));
    let p = plan_contact(&writer(), some("q"), Ok(None), "n1").unwrap();
    assert_eq!(p.args, vec!["writer@v1", "--query", "q"]);
    let q = plan_contact(&writer(), Ok(None), some("r"), "n1").unwrap();
    assert_eq!(q.query, "r");
    let none = plan_contact(&writer(), Ok(None), Err("bad".to_string()), "n1").unwrap_err();
    assert_eq!(none.message(), "executor error: contact_resolver requires a 'query'");
    let bad = plan_contact(&writer(), Err("bad".to_string()), Ok(None), "n1").unwrap_err();
    assert_eq!(bad.message(), "executor error: invalid parameter 'query' for node n1: bad");
}

#[test]
fn contexts_are_planned() {
    let p = plan_context(&writer(), Ok(None), Ok(Some(b"hello".to_vec())), "n").unwrap();
    assert_eq!(p.topic, "general update");
    assert_eq!(p.args, vec!["writer@v1", "--topic", "general update", "--contact-base64", "aGVsbG8="]);
    let e = plan_context(&writer(), Ok(None), Err("m".to_string()), "n").unwrap_err();
    assert_eq!(e.message(), "executor error: failed to decode port 'contact': m");
}

fn bundle() -> ContextBundle {
    ContextBundle {
        topic: "T".to_string(),
        snippets: vec![ContextSnippet {
            title: "t".to_string(),
            excerpt: "e".to_string(),
            event_id: EventId(2),
        }],
    }
}

#[test]
fn drafts_are_planned() {
    let reads = WriterReads {
        recipient: Ok(Some((contact(), b"r".to_vec()))),
        context: Ok(Some((bundle(), b"c".to_vec()))),
        topic: Ok(None),
        tone: Ok(Some("formal".to_string())),
        model: Ok(None),
    };
    let p = plan_writer(&writer(), reads, "n", "local:m").unwrap();
    assert_eq!(
        p.args,
        vec![
            "writer@v1", "--recipient-base64", "cg==", "--topic", "update", "--tone", "formal", "--context-base64",
            "Yw=="
        ]
    );
    assert_eq!(p.request.model.as_deref(), Some("local:m"));
    assert_eq!(p.request.max_words, Some(180));
    let lost = WriterReads {
        recipient: Ok(Some((contact(), vec![]))),
        context: Ok(None),
        topic: Ok(None),
        tone: Ok(None),
        model: Ok(None),
    };
    assert_eq!(
        plan_writer(&writer(), lost, "n", "m").unwrap_err().message(),
        "executor error: writer missing context input"
    );
}

#[test]
fn drafts_of_programs_are_recorded() {
    let out = WriterAgentOutput {
        body_md: "abc".to_string(),
        rationale: "why".to_string(),
        citations: vec![5],
        word_count: 9,
    };
    let d = draft_event("w", &TraceId(1), &OpeningId(2), &contact(), &out, "/p");
    assert_eq!(d.kind, "artifact.created");
    assert_eq!(d.actor, "agent:w");
    assert_eq!(d.provenance.agent_id, "agent:w");
    assert!(compact(&d.payload).contains("\"citations\":[5]"));
    let a = persisted_draft(EventId(4), "/p".to_string(), out);
    assert_eq!((a.word_count, a.citations.len()), (9, 1));
    assert_eq!(a.sha256, "ba7816bf8f01cfea414140de5dae2223b00361a396177a9cb410ff61f20015ad");
    assert_eq!(plan_critic(&writer(), &b"d".to_vec()), vec!["writer@v1", "--draft-base64", "ZA=="]);
}

fn draft() -> DraftArtifact {
    DraftArtifact {
        artifact_id: EventId(7),
        path: "/d".to_string(),
        sha256: "s".to_string(),
        body_md: "b".to_string(),
        rationale: "r".to_string(),
        citations: vec![EventId(1)],
        word_count: 1,
    }
}

fn approved_review() -> Review {
    Review { ok: true, notes: ReviewNotes { summary: "fine".to_string(), suggestions: vec!["s".to_string()] } }
}

fn mailer_job() -> MailerJob {
    let reads = MailerReads {
        draft: Ok(Some((draft(), b"d".to_vec()))),
        contact: Ok(Some((contact(), b"c".to_vec()))),
        review: Ok(Some((approved_review(), b"r".to_vec()))),
        topic: Ok(Some("T".to_string())),
    };
    MailerJob::begin(reads, "n").unwrap()
}

#[test]
fn mails_are_confirmed_sent_and_recorded() {
    let mut job = mailer_job();
    assert!(job.proposal(false, "n", TraceId(1), OpeningId(2), AgentId(3)).is_none());
    let p = job.proposal(true, "n", TraceId(1), OpeningId(2), AgentId(3)).unwrap();
    assert_eq!(p.id, "node:n");
    assert_eq!(p.summary, "Send draft email \"r\"");
    job.decided(Ok(ActionDecision::approved(Some("ok by me".to_string())))).unwrap();
    match job.call(&writer(), true).unwrap() {
        Step::Invoke(args) => assert_eq!(
            args,
            vec![
                "writer@v1", "--draft-base64", "ZA==", "--contact-base64", "Yw==", "--review-base64", "cg==",
                "--topic", "T"
            ]
        ),
        other => panic!("no call: {other:?}"),
    }
    let answer = MailerAgentOutput {
        status: "sent".to_string(),
        recipients: vec!["a@x".to_string()],
        message_id: "m".to_string(),
        delivered_at_ms: 5,
    };
    match job.called(Ok(answer), "n", &TraceId(1), &OpeningId(2)).unwrap() {
        MailStep::Record(delta, result) => {
            assert_eq!(delta.kind, "email.sent");
            assert_eq!(compact(&delta.payload), r#"{"artifact_id":7,"subject":"T","to":["a@x"]}"#);
            assert_eq!(delta.provenance.rationale.as_deref(), Some("ok by me"));
            let outputs = mail_recorded(Ok(()), &result).unwrap();
            assert_eq!(compact(&outputs.ports.get("ok").unwrap()[0]), "true");
            let lost = mail_recorded(Err(KbError::QueryNotReadOnly), &result).unwrap_err();
            assert_eq!(lost.message(), "executor error: query must be read-only");
        }
        other => panic!("not recorded: {other:?}"),
    }
}

#[test]
fn declined_mails_are_not_sent() {
    let mut job = mailer_job();
    job.decided(Ok(ActionDecision::rejected(None))).unwrap();
    assert_eq!(
        job.call(&writer(), true).unwrap_err().message(),
        "executor error: send cancelled by operator"
    );
    assert!(matches!(job.call(&writer(), false), Ok(Step::Native)));
    assert!(job.decided(Err(AgentError::ConfirmationUnavailable)).is_err());
    let missing = RunnerError::Executor("missing wasm entry".to_string());
    assert!(matches!(job.called(Err(missing), "n", &TraceId(1), &OpeningId(2)), Ok(MailStep::Native)));
    let request = job.native_request();
    assert_eq!(request.draft.body_preview, "b");
}

#[test]
fn mailers_need_their_inputs() {
    let reads = MailerReads {
        draft: Ok(Some((draft(), vec![]))),
        contact: Err("bad".to_string()),
        review: Ok(None),
        topic: Ok(None),
    };
    assert_eq!(
        MailerJob::begin(reads, "n").unwrap_err().message(),
        "executor error: failed to decode port 'contact': bad"
    );
    let none: Result<Option<u8>, String> = Ok(None);
    assert_eq!(
        needed(none, "in", "critic missing draft input").unwrap_err().message(),
        "executor error: critic missing draft input"
    );
}

#[test]
fn system_inputs_are_passed_on() {
    let mut with = JsonMap::new();
    assert_eq!(
        plan_system_tra(&writer(), &with, true).unwrap_err().message(),
        "executor error: system_tra requires an 'input'"
    );
    with.insert("input".to_string(), read_json(r#"{"a": 1}"#).unwrap());
    assert_eq!(plan_system_tra(&writer(), &with, true).unwrap(), vec!["writer@v1", "--input", r#"{"a":1}"#]);
    assert_eq!(
        plan_system_tra(&writer(), &with, false).unwrap_err().message(),
        "executor error: system_tra missing wasm entry"
    );
}

#[test]
fn answers_go_to_their_ports() {
    let ports = vec!["b".to_string(), "c".to_string()];
    let o = generic_outputs(read_json(r#"{"a": 1, "b": 2}"#).unwrap(), &ports);
    assert_eq!(compact(&o.ports.get("b").unwrap()[0]), "2");
    assert!(o.ports.get("a").is_none());
    assert!(o.ports.get("out").is_none());
    let whole = generic_outputs(read_json(r#"{"a": 1}"#).unwrap(), &ports);
    assert_eq!(compact(&whole.ports.get("out").unwrap()[0]), r#"{"a":1}"#);
    let list = generic_outputs(read_json("[1]").unwrap(), &ports);
    assert_eq!(compact(&list.ports.get("out").unwrap()[0]), "[1]");
}

#[test]
fn results_stand_at_ports_as_trees() {
    assert_eq!(
        compact(&contact_json(&contact())),
        r#"{"confidence":0.4000000059604645,"contact_id":"contact:k","email":"a@x","last_event_id":3,"name":"Ann","org":null}"#
    );
    assert_eq!(
        compact(&bundle_json(&bundle())),
        r#"{"snippets":[{"event_id":2,"excerpt":"e","title":"t"}],"topic":"T"}"#
    );
    assert_eq!(
        compact(&draft_json(&draft())),
        r#"{"artifact_id":7,"body_md":"b","citations":[1],"path":"/d","rationale":"r","sha256":"s","word_count":1}"#
    );
    assert_eq!(
        compact(&review_json(&approved_review())),
        r#"{"notes":{"suggestions":["s"],"summary":"fine"},"ok":true}"#
    );
    let mail = MailResult {
        status: "dry-run".to_string(),
        recipients: vec!["a@x".to_string()],
        artifact_id: EventId(7),
        message_id: String::new(),
        delivered_at_ms: 0,
    };
    assert_eq!(
        compact(&mail_json(&mail)),
        r#"{"artifact_id":7,"delivered_at_ms":0,"message_id":"","recipients":["a@x"],"status":"dry-run"}"#
    );
    let o = review_outputs(&approved_review());
    assert_eq!(compact(&o.ports.get("ok").unwrap()[0]), "true");
}

#[test]
fn programs_are_watched() {
    assert_eq!(try_parse_json(&b" {\"a\":1}\n".to_vec()).as_deref(), Some("{\"a\":1}"));
    assert_eq!(try_parse_json(&b"{".to_vec()), None);
    assert_eq!(try_parse_json(&b"  ".to_vec()), None);
    assert_eq!(try_parse_json(&vec![0xff]), None);
    let mut w = Watch::new();
    let look = |w: &mut Watch, out: &[u8], err: &[u8], late: bool| {
        w.look(&out.to_vec(), &err.to_vec(), late, "writer", "n", 50)
    };
    assert!(look(&mut w, b"{\"a\"", b"  \n", false).is_none());
    assert_eq!((w.stdout_seen, w.stderr_seen), (4, 3));
    match look(&mut w, b"{\"a\":1}", b"  \n", false) {
        Some(Ok(t)) => assert_eq!(t, "{\"a\":1}"),
        other => panic!("no answer: {other:?}"),
    }
    let mut v = Watch::new();
    match look(&mut v, b"", b"bo\xffom\n", false) {
        Some(Err(e)) => assert_eq!(e.message(), "executor error: agent writer failed: bo\u{fffd}om"),
        other => panic!("no failure: {other:?}"),
    }
    let mut u = Watch::new();
    match look(&mut u, b"", b"", true) {
        Some(Err(e)) => assert_eq!(e.message(), "node 'n' timed out after 50 ms"),
        other => panic!("no timeout: {other:?}"),
    }
}

#[test]
fn the_first_contact_is_put_in_once() {
    assert!(seed_query().contains("john@acme.com"));
    assert!(seed_contact(1).is_none());
    let d = seed_contact(0).unwrap();
    assert_eq!(d.scope(), "system");
    assert_eq!(
        compact(&d.payload),
        r#"{"email":"john@acme.com","evidence":[],"name":"John Smith","org":"Acme","trust":0.9}"#
    );
}

#[test]
fn built_in_mails_ask_only_where_that_is_wanted() {
    let mut job = mailer_job();
    assert!(job.native_decision(true).is_none(), "the operator is asked");
    let free = job.native_decision(false).expect("nobody is asked");
    assert!(free.approved && free.rationale.is_none());
    job.decided(Ok(ActionDecision::approved(Some("ok".to_string())))).unwrap();
    assert_eq!(job.native_decision(true).expect("decided").rationale.as_deref(), Some("ok"));
}
