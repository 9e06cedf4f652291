use runloop::agents::AgentRef;
use runloop::config::checks::Surroundings;
use runloop::digest::blake3_hex_of;
use runloop::json::{read_json, Json};
use runloop::registry::dirs::{
    choose_workspace, default_demo_agents_dir, resolve_opening_path, resolve_paths, workspace_target, AncestorFacts,
    PathOverrides,
};
use runloop::registry::discovery::Discovery;
use runloop::registry::manifests::{
    build_bundle, build_described, digests_from, list_agents, unique_references, AgentRegistry, AgentRegistryError,
    ArtifactSpec, EntrySpec, FoundManifest, ManifestDoc,
};
use runloop::registry::schema::{
    judge, schema_property_names, validate_instance, SchemaValidationError,
};
use runloop::registry::tools::{Budget, Observability, ToolEntry, ToolsDoc, Transport};

fn texts(v: &[&str]) -> Vec<String> {
    v.iter().map(|s| s.to_string()).collect()
}

fn at_home() -> Surroundings {
    Surroundings { home: Some("/home/u".to_string()), vars: vec![] }
}

fn defaults() -> Vec<String> {
    texts(&["~/.runloop/agents"])
}

#[test]
fn override_precedes_config() {
    let overrides = PathOverrides { agents_dir: Some("/tmp/override-agents".to_string()), ..Default::default() };
    let config = texts(&["/tmp/config-agents"]);
    let resolved = resolve_paths(&config, &defaults(), &overrides, &None, &at_home(), &vec![]);
    assert_eq!(resolved.agents.first().unwrap(), "/tmp/override-agents");
    assert!(resolved.agents.contains(&"/tmp/config-agents".to_string()));
}

#[test]
fn workspace_is_used_when_override_missing() {
    let facts = AncestorFacts {
        dir: "/w".to_string(),
        has_manifest: true,
        manifest: Some("[workspace]\n".to_string()),
        target_is_dir: false,
        target_manifest: None,
    };
    let root = choose_workspace(None, false, &vec![facts]);
    assert_eq!(root.as_deref(), Some("/w"));
    let overrides = PathOverrides { cwd: Some("/w".to_string()), ..Default::default() };
    let resolved = resolve_paths(&defaults(), &defaults(), &overrides, &root, &at_home(), &vec![]);
    assert!(resolved.agents.contains(&"/w/agents".to_string()));
    assert!(resolved.openings.contains(&"/w/examples/openings".to_string()));
}

#[test]
fn resolve_opening_uses_search_dirs() {
    let files = texts(&["/t/openings/demo.yaml"]);
    let resolved = resolve_opening_path("demo", &texts(&["/t/openings"]), &files).unwrap();
    assert_eq!(resolved, "/t/openings/demo.yaml");
    let lost = resolve_opening_path("other", &texts(&["/t/openings"]), &files).unwrap_err();
    assert!(lost.message().starts_with("opening 'other' not found (searched: "));
}

#[test]
fn missing_dirs_emit_fallback_info() {
    let overrides = PathOverrides { cwd: Some("/t".to_string()), ..Default::default() };
    let resolved = resolve_paths(
        &texts(&["/t/agents-missing"]),
        &texts(&["/t/openings-missing"]),
        &overrides,
        &None,
        &at_home(),
        &texts(&[default_demo_agents_dir()]),
    );
    assert!(
        resolved.agents.iter().any(|p| p == default_demo_agents_dir()),
        "expected demo fallback in agent search dirs"
    );
    assert!(resolved.demo_agents.is_some(), "expected demo fallback marker");
    assert!(resolved.info.iter().any(|msg| msg.contains("demo bundles")));
    assert!(resolved.warnings.iter().any(|msg| msg.contains("opening search dirs")));
}

#[test]
fn expands_tilde_in_config_paths() {
    let none = PathOverrides::default();
    let resolved = resolve_paths(&defaults(), &defaults(), &none, &None, &at_home(), &vec![]);
    assert!(resolved.agents.iter().any(|p| p.starts_with("/home/u/.runloop/agents")));
}

#[test]
fn workspaces_are_pointed_to() {
    let manifest = "workspace = \"../root\"\n";
    assert_eq!(workspace_target("/a/b", manifest).as_deref(), Some("/a/b/../root"));
    assert_eq!(workspace_target("/a/b", "[workspace]\n").is_none(), true);
    assert_eq!(choose_workspace(Some("/n".to_string()), true, &vec![]).as_deref(), Some("/n"));
    assert_eq!(choose_workspace(Some("/n".to_string()), false, &vec![]), None);
}

fn writer_doc(version: &str, variant: Option<&str>) -> ManifestDoc {
    ManifestDoc {
        name: "writer".to_string(),
        version: version.to_string(),
        variant: variant.map(|v| v.to_string()),
        agent_entry_native: None,
        agent_entry_wasm: None,
        inputs: vec![],
        outputs: vec![],
        schema: None,
        entry_native: None,
        entry_wasm: None,
        caps_file: None,
        tools: None,
    }
}

fn writer() -> AgentRef {
    AgentRef::new("writer".to_string(), None)
}

fn found(path: &str, version: &str, variant: Option<&str>) -> FoundManifest {
    FoundManifest { path: path.to_string(), raw: "raw".to_string(), doc: writer_doc(version, variant) }
}

#[test]
fn describe_many_deduplicates_references() {
    let refs = unique_references(&vec![writer(), writer()]);
    assert_eq!(refs.len(), 1, "duplicate references should be collapsed");
    let other = AgentRef::new("writer".to_string(), Some("pro".to_string()));
    assert_eq!(unique_references(&vec![writer(), other, writer()]).len(), 2);
    let blank = AgentRef::new("writer".to_string(), Some(String::new()));
    assert_eq!(unique_references(&vec![writer(), blank]).len(), 1, "an empty variant is none");
}

#[test]
fn describe_rejects_variant_mismatch() {
    let asked = AgentRef::new("writer".to_string(), Some("basic".to_string()));
    let err = build_described(&asked, &writer_doc("1.0.0", Some("pro")), "raw")
        .expect_err("variant mismatch should fail");
    let msg = err.message();
    assert!(msg.contains("variant mismatch"), "expected mismatch detail, got {msg}");
    let name = AgentRef::new("critic".to_string(), None);
    let wrong = build_described(&name, &writer_doc("1.0.0", None), "raw").expect_err("name mismatch");
    assert!(wrong.message().starts_with("agent mismatch for critic: "));
}

#[test]
fn list_discovers_manifests() {
    let mut walk = Discovery::new("/t", false, true);
    assert_eq!(walk.next().map(|(p, _)| p.clone()).as_deref(), Some("/t"));
    walk.look(false, &texts(&["/t/writer"]));
    walk.look(true, &vec![]);
    assert!(walk.next().is_none());
    let manifests = walk.finish();
    assert_eq!(manifests, texts(&["/t/writer/manifest.toml"]));
    let listed = list_agents(&vec![found(&manifests[0], "1.0.0", None)]).expect("list agents");
    assert_eq!(listed.len(), 1);
    assert_eq!(listed[0].described.reference.name, "writer");
    assert_eq!(listed[0].described.version, "1.0.0");
    assert_eq!(listed[0].manifest_path, "/t/writer/manifest.toml");
}

#[test]
fn list_prefers_first_search_dir() {
    let all = vec![
        found("/a/writer/manifest.toml", "1.0.0", None),
        found("/b/writer/manifest.toml", "2.0.0", None),
    ];
    let listed = list_agents(&all).expect("list agents");
    assert_eq!(listed.len(), 1);
    assert_eq!(listed[0].described.version, "1.0.0");
}

#[test]
fn list_discovers_variant_layout() {
    let mut walk = Discovery::new("/t", false, true);
    walk.look(false, &texts(&["/t/writer"]));
    walk.look(false, &texts(&["/t/writer/variants"]));
    walk.look(false, &texts(&["/t/writer/variants/pro"]));
    walk.look(true, &vec![]);
    let manifests = walk.finish();
    assert_eq!(manifests, texts(&["/t/writer/variants/pro/manifest.toml"]));
    let listed = list_agents(&vec![found(&manifests[0], "1.1.0", Some("pro"))]).expect("list agents");
    assert_eq!(listed.len(), 1);
    assert_eq!(listed[0].described.reference.variant.as_deref(), Some("pro"));
    assert_eq!(listed[0].manifest_path, manifests[0]);
}

#[test]
fn walks_stay_shallow() {
    let mut walk = Discovery::new("/t", false, true);
    let mut dir = "/t".to_string();
    let mut seen = 0;
    loop {
        let below = match walk.next() {
            Some((_, deeper)) => deeper,
            None => break,
        };
        seen += 1;
        dir.push_str("/d");
        let next = if below { vec![dir.clone()] } else { vec![] };
        walk.look(false, &next);
    }
    assert_eq!(seen, 4);
    assert_eq!(Discovery::new("/m/manifest.toml", true, false).finish(), texts(&["/m/manifest.toml"]));
    assert!(Discovery::new("/none", false, false).finish().is_empty());
}

fn with_tools(version: u32) -> ManifestDoc {
    ManifestDoc {
        tools: Some(ArtifactSpec {
            path: "tools.json".to_string(),
            blake3: "abcdef".to_string(),
            version: Some(version),
        }),
        ..writer_doc("1.0.0", None)
    }
}

#[test]
fn bundle_exposes_tools_attachment() {
    let bundle =
        build_bundle(&writer(), "/t/writer/manifest.toml", &with_tools(1), "raw").expect("bundle with tools");
    let tools = bundle.tools.expect("tools attachment present");
    assert!(tools.path.ends_with("tools.json"));
    assert_eq!(tools.blake3, "abcdef");
    assert_eq!(tools.version, 1);
    assert_eq!(bundle.described.artifacts.tools.as_ref().expect("digest").blake3, "abcdef");
    assert_eq!(bundle.described.digest, blake3_hex_of(&b"raw".to_vec()));
}

#[test]
fn bundles_know_their_programs() {
    let doc = ManifestDoc {
        entry_wasm: Some(EntrySpec { path: "a.wasm".to_string(), blake3: "d".to_string() }),
        caps_file: Some("p.caps".to_string()),
        ..writer_doc("1.0.0", None)
    };
    let bundle = build_bundle(&writer(), "/t/writer/manifest.toml", &doc, "raw").expect("bundle");
    assert_eq!(bundle.wasm_entry.unwrap().path, "/t/writer/a.wasm");
    assert_eq!(bundle.policy_path.as_deref(), Some("/t/writer/p.caps"));
    assert_eq!(bundle.manifest_dir, "/t/writer");
    assert!(bundle.native_entry.is_none());
}

#[test]
fn unsupported_tools_version_rejected() {
    let err = build_described(&writer(), &with_tools(99), "raw").expect_err("unsupported tools version");
    let msg = err.message();
    assert!(msg.contains("unsupported tools.json version"), "expected tools version error, got {msg}");
}

#[test]
fn manifests_are_looked_for_in_order() {
    let registry = AgentRegistry::new(&texts(&["/a", "/b"]));
    let candidates = registry.manifest_candidates(&writer());
    assert_eq!(candidates[0], "/a/writer/manifest.toml");
    let files = texts(&["/b/writer/manifest.toml"]);
    assert_eq!(registry.find_manifest(&writer(), &files).unwrap(), "/b/writer/manifest.toml");
    let lost = registry.find_manifest(&writer(), &vec![]).unwrap_err();
    assert_eq!(lost.message(), "agent manifest not found for writer");
}

#[test]
fn registry_errors_are_told() {
    let p = || "/p".to_string();
    let s = || "why".to_string();
    assert_eq!(AgentRegistryError::IoPath { path: p(), source: s() }.message(), "/p: why");
    assert_eq!(AgentRegistryError::Io { path: p(), source: s() }.message(), "failed to read manifest /p: why");
    assert_eq!(AgentRegistryError::Parse { path: p(), source: s() }.message(), "failed to parse manifest /p: why");
    assert_eq!(
        AgentRegistryError::Schema { reference: writer(), detail: s() }.message(),
        "schema error for writer: why"
    );
    assert_eq!(
        AgentRegistryError::Artifact { reference: writer(), detail: s() }.message(),
        "artifact error for writer: why"
    );
    assert_eq!(AgentRegistryError::Tools { detail: s() }.message(), "tools.json error: why");
}

#[test]
fn digests_follow_the_descriptions() {
    let d = build_described(&writer(), &writer_doc("1", None), "raw").expect("described");
    let digests = digests_from(&vec![d]);
    assert_eq!(digests.len(), 1);
    assert_eq!(digests[0].digest, blake3_hex_of(&b"raw".to_vec()));
}

#[test]
fn schema_property_names_extracts_keys() {
    let schema = read_json(r#"{"properties": {"alpha": {}, "beta": {}}}"#).unwrap();
    let props = schema_property_names(&schema);
    assert!(props.contains(&"alpha".to_string()));
    assert!(props.contains(&"beta".to_string()));
    assert_eq!(props.len(), 2);
}

#[test]
fn digest_file_hex_computes_hash() {
    let digest = blake3_hex_of(&b"abc123".to_vec());
    assert_eq!(digest.len(), 64);
    assert_eq!(digest, blake3::hash(b"abc123").to_hex().to_string());
}

fn value(text: &str) -> serde_json::Value {
    serde_json::from_str(text).expect("test value")
}

#[test]
fn instances_are_held_to_schemas() {
    let schema = value(r#"{"type": "object", "required": ["email"]}"#);
    assert!(validate_instance(&schema, &value(r#"{"email": "x"}"#)).is_ok());
    match validate_instance(&schema, &value(r#"{"name": "x"}"#)) {
        Err(SchemaValidationError::Violations(v)) => {
            assert_eq!(v.len(), 1);
            assert!(v[0].message.contains("email"));
            assert_eq!(v[0].kind, "required");
        }
        other => panic!("unexpected {other:?}"),
    }
    let broken = value(r#"{"type": "nothing"}"#);
    assert!(matches!(validate_instance(&broken, &schema), Err(SchemaValidationError::InvalidSchema(_))));
    assert!(judge(Ok(vec![])).is_ok());
    assert!(matches!(judge(Err("bad".to_string())), Err(SchemaValidationError::InvalidSchema(m)) if m == "bad"));
    let kinds = |schema: &str, found: &str| match validate_instance(&value(schema), &value(found)) {
        Err(SchemaValidationError::Violations(v)) => v.into_iter().map(|x| x.kind).collect::<Vec<_>>(),
        other => panic!("unexpected {other:?}"),
    };
    assert_eq!(kinds(r#"{"type": "string"}"#, "1"), vec!["type"]);
    assert_eq!(kinds(r#"{"minLength": 3}"#, "\"a\""), vec!["minLength"]);
    assert_eq!(kinds(r#"{"enum": [1, 2]}"#, "3"), vec!["enum"]);
    assert_eq!(kinds(r#"{"properties": {"a": {}}, "additionalProperties": false}"#, r#"{"x": 1}"#), vec!["additionalProperties"]);
    assert_eq!(kinds("false", "1"), vec!["falseSchema"]);
}

fn tool(id: &str, transport: Transport) -> ToolEntry {
    ToolEntry {
        id: id.to_string(),
        description: "send mail".to_string(),
        transport,
        input_schema: Json::Null,
        result_schema: Json::Null,
        schema_refs: vec![],
        capabilities: texts(&["net:example.com"]),
        secrets: vec![],
        budget: Some(Budget { tokens: None, usd: Some("1.0".to_string()) }),
        requires_confirmation: true,
        observability: Some(Observability { tags: vec![] }),
    }
}

fn http(method: &str, url: &str) -> Transport {
    Transport::Http { method: method.to_string(), url: url.to_string(), headers: vec![] }
}

#[test]
fn validates_version_and_entries() {
    let doc = ToolsDoc { version: 1, tools: vec![tool("mail.smtp_send", http("POST", "https://example.com"))] };
    assert!(doc.validate().is_ok());
    assert!(ToolsDoc { version: 2, tools: vec![] }.validate().is_err());
    assert!(ToolsDoc { version: 1, tools: vec![] }.validate().is_ok());
    let empty = ToolsDoc { version: 1, tools: vec![tool("", http("POST", "https://example.com"))] };
    assert!(empty.validate().is_err());
    let nowhere = ToolsDoc { version: 1, tools: vec![tool("a", http("POST", ""))] };
    assert!(nowhere.validate().is_err());
    let silent =
        ToolsDoc { version: 1, tools: vec![tool("a", Transport::Exec { command: String::new(), args: vec![] })] };
    assert!(silent.validate().is_err());
}
