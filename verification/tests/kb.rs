use runloop::ids::{AgentId, EventId, OpeningId, TraceId};
use runloop::json::{compact, read_json, Json, Numeral};
use runloop::kb::hits::{
    gather_hits, like_pattern, ordered_ids, row_to_object, Cell, EventRecord, SearchDomain, SearchHit, SearchRows,
};
use runloop::kb::keys::{derive_artifact_key, derive_contact_key, entity_key_candidates, normalize_email};
use runloop::kb::ledger::{
    canonicalize_value, check_delta, check_evidence, event_row, evidence_ids, resolve_paths, schema_kinds,
    take_change, AuditDecision, AuditSeverity, CapAuditRecord, KbError, Provenance, StateDelta,
};
use runloop::kb::traces::{NodeFinishedRecord, TraceStore};
use runloop::kb::views::{apply_event, Materializer, PendingEvent, ViewChange};

fn json(text: &str) -> Json {
    read_json(text).expect("test JSON")
}

fn provenance_with_trace(trace: &str) -> Provenance {
    Provenance {
        trace_id: trace.to_string(),
        opening_id: "opening:1".to_string(),
        agent_id: "agent:writer@v1".to_string(),
        inputs_hash: None,
        rationale: Some("unit-test".to_string()),
    }
}

fn delta(scope: Option<&str>, payload: &str) -> StateDelta {
    StateDelta::new(
        "contact.upserted".to_string(),
        "agent:writer@v1".to_string(),
        scope.map(|s| s.to_string()),
        json(payload),
        provenance_with_trace("trace:1"),
    )
}

fn contact_delta(name: &str, email: &str, trust: &str) -> StateDelta {
    delta(None, &format!(r#"{{"name": "{name}", "email": "{email}", "trust": {trust}}}"#))
}

fn contact_schema() -> serde_json::Value {
    serde_json::from_str(r#"{"type": "object", "required": ["name", "email"]}"#).expect("schema")
}

fn pending(id: i64, d: &StateDelta) -> PendingEvent {
    let row = event_row(d, 5).expect("row");
    PendingEvent::from_row(id, row.kind, &row.payload_json, &row.provenance_json).expect("pending")
}

#[test]
fn duplicate_hash_rejected() {
    let one = event_row(&contact_delta("Alice", "alice@example.com", "0.6"), 1).expect("first");
    let two = event_row(&contact_delta("Alice", "alice@example.com", "0.6"), 2).expect("second");
    assert_eq!(one.hash, two.hash, "the same change has the same digest whenever it comes");
    assert_eq!(one.hash.len(), 32);
    let other = event_row(&contact_delta("Alice", "alice@example.com", "0.7"), 1).expect("third");
    assert_ne!(one.hash, other.hash);
    assert_eq!(one.scope, "user");
}

#[test]
fn the_lowest_number_is_refused() {
    let lowest = json("-9223372036854775808");
    assert!(matches!(canonicalize_value(&lowest), Err(KbError::Canon(m)) if m == "number is out of range"));
    let deep = json(r#"{"a": [1, {"b": -9223372036854775808}]}"#);
    assert!(matches!(canonicalize_value(&deep), Err(KbError::Canon(_))));
    assert!(event_row(&delta(None, r#"{"n": -9223372036854775808}"#), 1).is_err());
    assert!(matches!(canonicalize_value(&json("-9223372036854775807")), Err(KbError::Canon(_))));
    assert_eq!(canonicalize_value(&json("-9007199254740991")).unwrap(), "-9007199254740991");
}

#[test]
fn deep_payloads_are_looked_at() {
    let mut tree = Json::Null;
    for _ in 0..300 {
        tree = Json::Array(vec![tree]);
    }
    let text = canonicalize_value(&tree).expect("canonical");
    assert_eq!(text.len(), 604);
    assert!(text.starts_with("[[[") && text.contains("null"));
}

#[test]
fn refused_schemas_are_told() {
    let broken: serde_json::Value = serde_json::from_str(r#"{"type": "nothing"}"#).expect("schema");
    let d = contact_delta("A", "a@x", "0.1");
    assert!(matches!(check_delta(&d, Some(&broken)), Err(KbError::Config(_))));
}

#[test]
fn traces_enter_the_ledger_without_a_schema() {
    let store = TraceStore { actor: "agent:runloop".to_string(), scope: Some("system".to_string()) };
    let whole = store.record_run_trace(&TraceId(1), &OpeningId(2), json(r#"{"success": true}"#));
    assert_eq!(whole.kind, "run.trace");
    let ids = check_delta(&whole, None).expect("taken");
    let row = take_change(&whole, &ids, &vec![], 7).expect("row");
    assert_eq!((row.ts_ms, row.kind.as_str(), row.scope.as_str()), (7, "run.trace", "system"));
    assert_eq!(row.payload_json, r#"{"success":true}"#);
    let end = NodeFinishedRecord {
        node_id: "n".to_string(),
        status: "succeeded".to_string(),
        attempt: 1,
        duration_ms: 2,
        outputs_hash: None,
        error: None,
    };
    assert!(check_delta(&store.record_node_finished(&TraceId(1), &OpeningId(2), &end), None).is_ok());
    assert_eq!(schema_kinds().len(), 5);
    assert!(schema_kinds().contains(&"run.finished".to_string()));
}

#[test]
fn changes_need_their_evidence() {
    let d = delta(None, r#"{"name": "A", "email": "a@x", "evidence": [3, 4]}"#);
    let ids = check_delta(&d, Some(&contact_schema())).expect("well formed");
    assert_eq!(ids, vec![3, 4]);
    assert!(matches!(take_change(&d, &ids, &vec![true, false], 1), Err(KbError::MissingEvidence(4))));
    assert!(take_change(&d, &ids, &vec![true, true], 1).is_ok());
}

#[test]
fn invalid_payload_rejected() {
    let d = delta(None, r#"{"name": "Bob"}"#);
    match check_delta(&d, Some(&contact_schema())).expect_err("missing email should be rejected") {
        KbError::Schema(msg) => assert!(msg.contains("email"), "expected schema error mentioning email, got {msg}"),
        other => panic!("unexpected error variant: {other:?}"),
    }
    assert!(matches!(check_delta(&d, None), Err(KbError::UnknownSchema(k)) if k == "contact.upserted"));
    let good = contact_delta("A", "a@x", "0.1");
    assert!(check_delta(&good, Some(&contact_schema())).unwrap().is_empty());
}

#[test]
fn materializer_applies_contact_upserts() {
    let events = vec![
        pending(1, &contact_delta("Alice", "alice@example.com", "0.55")),
        pending(2, &contact_delta("Alice Cooper", "alice@example.com", "0.90")),
    ];
    let materializer = Materializer::new();
    assert_eq!(materializer.batch_size(), 512);
    assert_eq!(Materializer::new().with_batch_size(0).batch_size(), 1);
    let batch = materializer.plan(&events).expect("plan").expect("work");
    assert_eq!(batch.watermark, 2);
    assert!(materializer.plan(&vec![]).expect("second plan").is_none(), "expected no work");
    let email = Some(normalize_email("alice@example.com"));
    let key = derive_contact_key(&email, &Some("Alice Cooper".to_string()), &None).expect("contact key");
    assert_eq!(batch.changes.len(), 2);
    for (_, change) in &batch.changes {
        assert_eq!(change.entity(), Some(format!("contact:{key}")));
    }
    match &batch.changes[1] {
        (2, ViewChange::Contact { key: found, name, trust, .. }) => {
            assert_eq!(found, &key);
            assert_eq!(name.as_deref(), Some("Alice Cooper"));
            assert!(matches!(trust, Numeral::Float(t) if t == "0.9"));
        }
        other => panic!("unexpected change {other:?}"),
    }
    assert!(entity_key_candidates(&key).contains(&format!("contact:{key}")));
    assert_eq!(ordered_ids(&vec![2, 1, 2]), vec![1, 2]);
}

#[test]
fn search_returns_contact() {
    let contact = SearchHit::contact(
        "k".to_string(),
        Some("Eve Search".to_string()),
        &Some("eve@example.com".to_string()),
        &None,
        Some("0.42".to_string()),
        1,
    );
    let rows = SearchRows { contacts: vec![contact], artifacts: vec![], runs: vec![], events: vec![] };
    let hits = gather_hits(rows);
    assert!(hits.iter().any(|hit| hit.domain == SearchDomain::Contacts));
    assert_eq!((hits[0].key.as_str(), hits[0].label.as_str()), ("k", "Eve Search"));
    assert_eq!(like_pattern("Eve"), "%Eve%");
}

#[test]
fn invalid_scope_rejected() {
    let d = delta(Some("invalid"), r#"{"name": "Mallory", "email": "mallory@example.com"}"#);
    let err = check_delta(&d, Some(&contact_schema())).expect_err("invalid scope should fail");
    assert!(matches!(err, KbError::InvalidScope(scope) if scope == "invalid"));
}

#[test]
fn missing_evidence_rejected() {
    let d = delta(None, r#"{"name": "Mallory", "email": "mallory@example.com", "evidence": [999]}"#);
    let ids = check_delta(&d, Some(&contact_schema())).expect("well formed");
    assert_eq!(ids, vec![999]);
    let err = check_evidence(&ids, &vec![false]).expect_err("invalid evidence should fail");
    assert!(matches!(err, KbError::MissingEvidence(id) if id == 999));
    assert!(check_evidence(&ids, &vec![true]).is_ok());
    assert_eq!(evidence_ids(&json(r#"{"evidence": [1, "x", 2]}"#)), vec![1, 2]);
}

#[test]
fn run_search_returns_prefixed_key() {
    let d = StateDelta::new(
        "run.started".to_string(),
        "agent:runtime@v1".to_string(),
        Some("system".to_string()),
        json(r#"{"opening_id": "opening-123", "status": "started"}"#),
        provenance_with_trace("trace-run"),
    );
    match apply_event(&pending(3, &d)).expect("applied") {
        ViewChange::Run { trace_id, status, opening_id } => {
            let hit = SearchHit::run(trace_id, status, opening_id, 3);
            assert_eq!(hit.key, "run:trace-run");
            assert_eq!(hit.domain, SearchDomain::Runs);
        }
        other => panic!("unexpected change {other:?}"),
    }
    let entity = apply_event(&pending(3, &d)).expect("applied").entity();
    assert_eq!(entity.as_deref(), Some("run:trace-run"));
}

#[test]
fn keys_come_from_addresses() {
    assert_eq!(normalize_email("  A.B@Example.COM "), "a.b@example.com");
    let by_mail = |e: &str, n: &str| derive_contact_key(&Some(e.to_string()), &Some(n.to_string()), &None);
    assert_eq!(by_mail("a@x", "One"), by_mail("a@x", "Two"));
    assert_ne!(by_mail("a@x", "One"), by_mail("b@x", "One"));
    assert_eq!(derive_contact_key(&None, &None, &None), None);
    assert!(derive_artifact_key(&None, &None).is_none());
    assert!(derive_artifact_key(&Some("s".to_string()), &None).is_some());
}

#[test]
fn canonical_text_is_ordered() {
    assert_eq!(canonicalize_value(&json(r#"{ "b": 1, "a": [true, null] }"#)).unwrap(), r#"{"a":[true,null],"b":1}"#);
    assert_eq!(canonicalize_value(&json("1.0")).unwrap(), "1");
    let doubled = Json::Number(Numeral::Float("x".to_string()));
    assert!(matches!(canonicalize_value(&doubled), Err(KbError::Canon(m)) if m == "not a JSON value"));
}

#[test]
fn databases_have_their_place() {
    let (events, view) = resolve_paths("/kb", "e.sqlite", "v.sqlite").expect("paths");
    assert_eq!((events.as_str(), view.as_str()), ("/kb/e.sqlite", "/kb/v.sqlite"));
}

#[test]
fn audits_hash_their_arguments() {
    let record = CapAuditRecord::new(
        9,
        TraceId(1),
        AgentId(2),
        "net".to_string(),
        "connect".to_string(),
        "host".to_string(),
        &b"args".to_vec(),
        AuditDecision::Deny,
        "no".to_string(),
        AuditSeverity::Warn,
    );
    assert_eq!(record.args_hash, blake3::hash(b"args").as_bytes().to_vec());
    assert_eq!((record.ts_ms, record.decision), (9, AuditDecision::Deny));
}

#[test]
fn rows_become_objects() {
    let columns = vec!["i".to_string(), "r".to_string(), "t".to_string(), "n".to_string(), "b".to_string()];
    let cells = vec![
        Cell::Integer(-3),
        Cell::Real(Some("0.5".to_string())),
        Cell::Text("x".to_string()),
        Cell::Null,
        Cell::Blob(vec![0xab, 0x01]),
    ];
    let shown = compact(&row_to_object(&columns, &cells));
    assert!(shown.contains("\"i\":-3"));
    assert!(shown.contains("\"r\":0.5"));
    assert!(shown.contains("\"t\":\"x\""));
    assert!(shown.contains("\"n\":null"));
    let record = EventRecord::from_row(4, 7, "k".to_string(), "{\"a\":1}".to_string(), "{".to_string());
    assert_eq!(record.id, EventId(4));
    assert_eq!(compact(&record.payload), "{\"a\":1}");
    assert_eq!(compact(&record.provenance), "\"{\"");
}

#[test]
fn runs_are_recorded() {
    let store = TraceStore { actor: "runtime".to_string(), scope: None };
    let started = store.record_run_started(&TraceId(1), &OpeningId(2));
    assert_eq!(started.kind, "run.started");
    let finished = store.record_run_finished(&TraceId(1), &OpeningId(2), "ok");
    assert_eq!(finished.kind, "run.finished");
    let node = NodeFinishedRecord {
        node_id: "n".to_string(),
        status: "succeeded".to_string(),
        attempt: 1,
        duration_ms: 4,
        outputs_hash: None,
        error: None,
    };
    let deltas = store.record_nodes(&TraceId(1), &OpeningId(2), &vec![node]);
    assert_eq!(deltas.len(), 1);
    assert_eq!(deltas[0].kind, "node.finished");
    assert_eq!(store.record_run_trace(&TraceId(1), &OpeningId(2), Json::Null).kind, "run.trace");
}

#[test]
fn kb_errors_are_told() {
    let s = || "x".to_string();
    assert_eq!(KbError::Config(s()).message(), "configuration error: x");
    assert_eq!(KbError::Io(s()).message(), "filesystem error: x");
    assert_eq!(KbError::Sqlite(s()).message(), "SQLite error: x");
    assert_eq!(KbError::UnknownSchema(s()).message(), "schema not found for kind x");
    assert_eq!(KbError::Schema(s()).message(), "payload validation failed: x");
    assert_eq!(KbError::InvalidScope(s()).message(), "invalid scope 'x'");
    assert_eq!(KbError::MissingEvidence(4).message(), "referential integrity failed for evidence id 4");
    assert_eq!(KbError::Canon(s()).message(), "canonicalization error: x");
}
