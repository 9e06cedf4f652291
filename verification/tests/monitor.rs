use runloop::bus::message::Header;
use runloop::content::{CT_ACTION_DECISION, CT_ACTION_REQUEST, CT_METRICS_SNAPSHOT, CT_RUN_EVENT};
use runloop::json::{compact, read_json, Json};
use runloop::monitor::feeds::{feeds, replayed, socket_path, Feed};
use runloop::monitor::keys::{ActionCommand, App, Event, Key};
use runloop::monitor::panes::{logs_pane, metrics_pane, plan_pane, status_bar, trace_pane, Tint};
use runloop::monitor::state::Pane;

fn json(text: &str) -> Json {
    read_json(text).expect("test JSON")
}

fn app() -> App {
    App::new("test-trace".to_string(), false)
}

#[test]
fn test_handle_event_run_event_log() {
    let mut app = app();
    let payload = json(
        r#"{"kind": "log", "level": "INFO", "message": "test message", "meta": {"ts_ms": 12345, "node_id": "node-1"}}"#,
    );
    app.handle_event(Event::Run(payload), 1);
    assert_eq!(app.state.logs.len(), 1);
    assert_eq!(app.state.logs[0].msg, "test message");
    assert_eq!(app.state.logs[0].level, "INFO");
    assert_eq!(app.state.logs[0].node.as_deref(), Some("node-1"));
    assert_eq!(app.state.logs[0].ts, 12345);
}

#[test]
fn test_handle_event_metrics() {
    let mut app = app();
    let payload = json(r#"{"cpu": 10.5, "mem": "512MB"}"#);
    app.handle_event(Event::Metrics(payload, Some("agent-1".to_string())), 1);
    let (_, group) = app.state.metrics.iter().find(|(k, _)| k == "agent-1").expect("agent-1 group");
    let get = |key: &str| group.values.iter().find(|(k, _)| k == key).map(|(_, v)| v.as_str());
    assert_eq!(get("cpu"), Some("10.50"));
    assert_eq!(get("mem"), Some("512MB"));
}

#[test]
fn test_pause_buffering() {
    let mut app = app();
    app.paused = true;
    let payload = json(r#"{"kind": "log", "level": "INFO", "message": "buffered", "meta": {"ts_ms": 1}}"#);
    app.handle_event(Event::Run(payload), 1);
    assert!(app.state.logs.is_empty());
    assert_eq!(app.buffered_events.len(), 1);
    app.paused = false;
    app.unpause(2);
    assert_eq!(app.state.logs.len(), 1);
    assert!(app.buffered_events.is_empty());
}

fn seen(texts: &[&str]) -> App {
    let mut a = app();
    for t in texts {
        a.handle_event(Event::Run(json(t)), 77);
    }
    a
}

#[test]
fn nodes_are_followed() {
    let a = seen(&[
        r#"{"kind": "node.started", "meta": {"node": "b", "attempt": 1, "inputs": ["x", 3, "y"]}}"#,
        r#"{"kind": "status", "message": "it failed", "meta": {"node_id": "b", "state": "failed", "duration_ms": 9, "outputs": ["o"]}}"#,
        r#"{"kind": "plan", "meta": {"node_id": "a", "attempt": 4294967297}}"#,
    ]);
    assert_eq!(a.state.plan.len(), 2);
    assert_eq!(a.state.plan[0].0, "a");
    assert_eq!(a.state.plan[0].1.attempt, 1);
    let b = &a.state.plan[1].1;
    assert_eq!((b.status.as_str(), b.attempt, b.duration, b.error_count), ("failed", 1, 9, 1));
    assert_eq!(b.inputs, vec!["x".to_string(), "y".to_string()]);
    assert_eq!(b.outputs, vec!["o".to_string()]);
    assert!(a.state.logs.is_empty());
    assert_eq!(a.state.last_updated, Some(77));
    let rows = plan_pane(&a);
    assert_eq!(rows[1].cells, vec!["b", "failed", "1", "9ms", "1", "2", "1"]);
    assert_eq!(rows[1].tint, Tint::Red);
    assert_eq!(rows[0].tint, Tint::White);
}

#[test]
fn other_events_are_logged_or_traced() {
    let a = seen(&[
        r#"{"kind": "trace.line", "ts_ms": 3, "message": "hop"}"#,
        r#"{"kind": "plan", "message": "lost"}"#,
        r#"{"kind": "odd", "message": "m", "meta": {"node_id": "n"}}"#,
        r#"{}"#,
    ]);
    assert_eq!(trace_pane(&a), vec!["[3] trace.line: hop".to_string()]);
    let lines: Vec<String> = logs_pane(&a).into_iter().map(|l| l.text).collect();
    assert_eq!(lines, vec!["[77] info  - unknown: ", "[77] info  n odd: m", "[77] info  - lost"]);
}

#[test]
fn errors_are_logged() {
    let mut a = app();
    a.handle_event(Event::Error("gone".to_string()), 5);
    assert_eq!(a.state.logs[0].msg, "App Error: gone");
    assert_eq!(logs_pane(&a)[0].tint, Tint::Red);
    assert_eq!(logs_pane(&a)[0].text, "[5] ERROR - App Error: gone");
}

#[test]
fn keys_move_between_panes_and_filter() {
    let mut a = app();
    assert_eq!(a.active_pane, Pane::Plan);
    a.on_key(Key::Tab, 0, 0);
    assert_eq!(a.active_pane, Pane::Metrics);
    a.on_key(Key::BackTab, 0, 0);
    a.on_key(Key::BackTab, 0, 0);
    assert_eq!(a.active_pane, Pane::Log);
    a.on_key(Key::Char('/', false), 0, 0);
    a.on_key(Key::Char('q', false), 0, 0);
    a.on_key(Key::Char('x', false), 0, 0);
    a.on_key(Key::Backspace, 0, 0);
    assert_eq!(a.filter_input.as_deref(), Some("q"));
    assert!(!a.should_quit);
    assert_eq!(status_bar(&a).filter, "FILTER: q_");
    a.on_key(Key::Esc, 0, 0);
    assert!(a.filter_input.is_none());
    a.on_key(Key::Char('?', false), 0, 0);
    assert!(a.show_help);
    a.on_key(Key::Char('c', false), 0, 0);
    assert!(!a.should_quit);
    a.on_key(Key::Char('c', true), 0, 0);
    assert!(a.should_quit);
}

#[test]
fn panes_are_cleared_but_the_plan_stays() {
    let mut a = seen(&[r#"{"kind": "log", "message": "x"}"#, r#"{"kind": "plan", "meta": {"node_id": "a"}}"#]);
    a.on_key(Key::Char('!', false), 0, 0);
    assert_eq!(a.state.plan.len(), 1);
    a.on_key(Key::BackTab, 0, 0);
    a.on_key(Key::Char('!', false), 0, 0);
    assert!(a.state.logs.is_empty());
}

#[test]
fn pauses_keep_events_in_order() {
    let mut a = app();
    a.on_key(Key::Char('.', false), 0, 0);
    a.handle_event(Event::Run(json(r#"{"kind": "log", "message": "one"}"#)), 1);
    a.handle_event(Event::BusConnected, 1);
    a.handle_event(Event::Run(json(r#"{"kind": "log", "message": "two"}"#)), 2);
    assert!(a.connected);
    assert_eq!(status_bar(&a).paused, "PAUSED | ");
    assert!(a.state.logs.is_empty());
    a.on_key(Key::Char('.', false), 9, 0);
    let told: Vec<String> = a.state.logs.iter().map(|l| format!("{} {}", l.ts, l.msg)).collect();
    assert_eq!(told, vec!["9 one", "9 two"]);
}

#[test]
fn requests_are_decided() {
    let mut a = App::new("t".to_string(), true);
    let header = Header { msg_id: 42, trace_id: 6, ..Header::default() };
    a.handle_event(Event::ActionRequest(header, json("{}")), 0);
    assert_eq!(status_bar(&a).confirm, "CONFIRM REQUIRED (!)");
    assert!(a.on_key(Key::Char('q', false), 0, 0).is_none());
    assert!(!a.should_quit);
    match a.on_key(Key::Enter, 100, 7) {
        Some(ActionCommand::PublishDecision(h, j, topic)) => {
            assert_eq!((h.schema_id, h.created_at_ms, h.ttl_ms), (CT_ACTION_DECISION, 100, 30_000));
            assert_eq!((h.trace_id, h.msg_id), (6, 7));
            assert_eq!(
                compact(&j),
                r#"{"approved":true,"proposal_id":"42","rationale":"User approved via TUI"}"#
            );
            assert_eq!(topic, "action.decision");
        }
        other => panic!("no decision: {other:?}"),
    }
    assert!(a.on_key(Key::Enter, 100, 8).is_none());
    let mut silent = app();
    silent.handle_event(Event::ActionRequest(header, json("{}")), 0);
    assert!(silent.on_key(Key::Esc, 0, 0).is_none());
    assert!(silent.confirm_modal.is_none());
}

#[test]
fn metrics_are_shown_by_scope() {
    let mut a = app();
    a.handle_event(Event::Metrics(json(r#"{"agents_running": 3, "flag": true}"#), None), 0);
    a.handle_event(Event::Metrics(json(r#"{"x": "y"}"#), Some("äpfel".to_string())), 0);
    let rows: Vec<String> = metrics_pane(&a).into_iter().map(|r| format!("{}={}", r.name, r.value)).collect();
    assert_eq!(rows, vec!["-- SYSTEM --=", "agents_running=3.00", "flag=true", "-- ÄPFEL --=", "x=y"]);
    assert_eq!(status_bar(&a).load, "agents:3.00 queue:N/A");
    a.filter_input = Some("flag".to_string());
    let some: Vec<String> = metrics_pane(&a).into_iter().map(|r| r.name).collect();
    assert_eq!(some, vec!["flag"]);
}

#[test]
fn feeds_are_asked_for_in_order() {
    let all = feeds(&vec!["a1".to_string()], &Some("t9".to_string()));
    let topics: Vec<String> = all.iter().map(|f| f.topic()).collect();
    assert_eq!(
        topics,
        vec!["rlp/sys/metrics", "rlp/agents/a1/metrics", "action.request", "rlp/runs/t9/events"]
    );
    assert!(all[1].optional());
    assert!(!all[0].optional());
    assert_eq!(feeds(&vec![], &None).len(), 2);
    let h = Header { schema_id: CT_METRICS_SNAPSHOT, ..Header::default() };
    assert!(matches!(all[1].event(h, Some(json("{}"))), Some(Event::Metrics(_, Some(_)))));
    assert!(matches!(Feed::Metrics.event(h, Some(json("{}"))), Some(Event::Metrics(_, None))));
    assert!(Feed::Metrics.event(h, None).is_none());
    assert!(Feed::Actions.event(h, Some(json("{}"))).is_none());
    let act = Header { schema_id: CT_ACTION_REQUEST, ..Header::default() };
    assert!(matches!(Feed::Actions.event(act, Some(json("{}"))), Some(Event::ActionRequest(_, _))));
    assert_eq!(Feed::Runs("t".to_string()).kind(), CT_RUN_EVENT);
}

#[test]
fn sockets_are_found() {
    assert_eq!(socket_path(Some("/s".to_string()), None), "/s");
    assert_eq!(socket_path(None, Some((Some("/p".to_string()), "/d".to_string()))), "/p");
    assert_eq!(socket_path(None, Some((None, "/d".to_string()))), "/d/rmp.sock");
    assert_eq!(socket_path(None, None), "/tmp/runloop/rmp.sock");
}

#[test]
fn recordings_are_replayed() {
    assert!(matches!(replayed("{\"kind\":\"log\"}"), Some(Event::Run(_))));
    assert!(replayed("   ").is_none());
    assert!(replayed("{").is_none());
}
