use runloop::agents::AgentRef;
use runloop::content::{
    descriptor_at, descriptor_for_schema, descriptor_for_type, family_for_schema, schema_for, type_name_for,
    TypeFamily, KIND_COUNT,
};
use runloop::control::TraceContext;
use runloop::digest::{blake3_hex_of, sha256_hex_of};
use runloop::error::Error;
use runloop::ids::{AgentId, EventId, OpeningId, TraceId};
use runloop::json::{compact, parse_json, read_json, text_json, Json, JsonMap, Numeral};
use runloop::paths::{file_name_of, join_path, parent_of, same_path};

#[test]
fn bidirectional_lookup() {
    for i in 0..KIND_COUNT {
        let desc = descriptor_at(i);
        assert_eq!(type_name_for(desc.schema_id), Some(desc.type_str));
        assert_eq!(schema_for(desc.type_str), Some(desc.schema_id));
        assert_eq!(family_for_schema(desc.schema_id), Some(desc.family));
    }
    assert!(schema_for("missing").is_none());
    assert!(descriptor_for_schema(0xFFFF).is_none());
}

#[test]
fn kinds_know_their_family() {
    let d = descriptor_for_type(type_name_for(runloop::content::CT_ACTION_DECISION).expect("name")).expect("kind");
    assert_eq!(d.kind, "action.decision");
    assert_eq!(d.family, TypeFamily::ToolResult);
    assert!(d.type_str.starts_with(d.family.prefix()));
}

#[test]
fn default_ids_are_nil() {
    assert_eq!(AgentId::default().0, 0);
    assert_eq!(OpeningId::default().0, 0);
    assert_eq!(TraceId::default().0, 0);
    assert_eq!(uuid::Uuid::from_u128(AgentId::default().0), uuid::Uuid::nil());
}

#[test]
fn trace_id_parses_with_and_without_prefix() {
    let trace = TraceId::new();
    let raw = trace.text();
    let parsed = TraceId::parse(&raw).expect("prefixed trace parses");
    assert_eq!(parsed.0, trace.0);
    let uuid_text = uuid::Uuid::from_u128(trace.0).to_string();
    let bare = TraceId::parse(&uuid_text).expect("uuid parses");
    assert_eq!(bare.0, trace.0);
    assert!(TraceId::parse("trace:nothing").is_none());
}

#[test]
fn ids_are_told_apart_by_their_prefix() {
    assert_eq!(AgentId(0).text(), "agent:00000000-0000-0000-0000-000000000000");
    assert_eq!(OpeningId(1).text(), "opening:00000000-0000-0000-0000-000000000001");
    assert_eq!(TraceId(255).text(), "trace:00000000-0000-0000-0000-0000000000ff");
    let digits = TraceId(0x0123456789abcdeffedcba9876543210).text();
    assert_eq!(digits, "trace:01234567-89ab-cdef-fedc-ba9876543210");
    assert_eq!(EventId(-3).text(), "event:-3");
    assert_ne!(AgentId::new().0, AgentId::new().0);
}

#[test]
fn spans_carry_the_identifiers() {
    let c = TraceContext { trace_id: TraceId(1), opening_id: OpeningId(2), agent_id: AgentId(3) };
    let (t, o, a) = c.span_fields();
    assert_eq!(t, "trace:00000000-0000-0000-0000-000000000001");
    assert_eq!(o, "opening:00000000-0000-0000-0000-000000000002");
    assert_eq!(a, "agent:00000000-0000-0000-0000-000000000003");
}

#[test]
fn references_are_told_and_ordered() {
    let a = AgentRef::new("writer".to_string(), None);
    let b = AgentRef::new("writer".to_string(), Some("nightly".to_string()));
    let c = AgentRef::new("writer".to_string(), Some(String::new()));
    assert_eq!(a.spec(), "writer");
    assert_eq!(b.spec(), "writer@nightly");
    assert_eq!(c.spec(), "writer");
    assert!(!a.has_variant());
    assert!(b.has_variant());
    assert!(a.precedes(&b));
    assert!(!b.precedes(&a));
    assert!(!a.precedes(&a));
    assert!(a.equals(&AgentRef::new("writer".to_string(), None)));
}

#[test]
fn errors_are_told() {
    assert_eq!(Error::Config("x".to_string()).message(), "configuration error: x");
    assert_eq!(Error::Bus("x".to_string()).message(), "bus error: x");
    assert_eq!(Error::Timeout("x".to_string()).message(), "timeout exceeded: x");
}

#[test]
fn digests_are_the_usual_ones() {
    let abc = b"abc".to_vec();
    assert_eq!(sha256_hex_of(&abc), "ba7816bf8f01cfea414140de5dae2223b00361a396177a9cb410ff61f20015ad");
    assert_eq!(blake3_hex_of(&abc), "6437b3ac38465133ffb63b75273a8db548c558465d79db03fd359c6cd5bd9d85");
}

#[test]
fn json_is_read_and_written() {
    let text = "{\"b\":[1,-2,1.5,null,true],\"a\":\"x\\\"y\\n\"}";
    let j = read_json(text).expect("JSON");
    assert_eq!(compact(&j), "{\"a\":\"x\\\"y\\n\",\"b\":[1,-2,1.5,null,true]}");
    assert!(read_json("{").is_none());
    let message = parse_json("{").expect_err("no JSON");
    assert!(message.contains("EOF"), "{message}");
}

#[test]
fn maps_hold_one_value_for_each_key() {
    let mut m = JsonMap::new();
    m.insert("k".to_string(), text_json("one"));
    m.insert("j".to_string(), Json::Number(Numeral::Unsigned(1)));
    m.insert("k".to_string(), text_json("two"));
    assert_eq!(m.len(), 2);
    assert_eq!(compact(m.get("k").expect("k")), "\"two\"");
    assert_eq!(m.entries[0].0, "j");
    assert!(m.remove("j").is_some());
    assert!(!m.has("j"));
}

#[test]
fn paths_are_joined_and_taken_apart() {
    assert_eq!(join_path("/a/b", "c"), "/a/b/c");
    assert_eq!(join_path("/a/b/", "c"), "/a/b/c");
    assert_eq!(join_path("/a", "/c"), "/c");
    assert_eq!(file_name_of("/a/b/").as_deref(), Some("b"));
    assert_eq!(parent_of("/a/b").as_deref(), Some("/a"));
    assert!(same_path("/a//b/./", "/a/b"));
}
