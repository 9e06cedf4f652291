use runloop::config::checks::{expand_path, look_up, rewrite_sockets_dir, Surroundings};
use runloop::config::keys::{find_unknown_keys, known_keys_for_path};
use runloop::config::overrides::{
    apply_env_overrides, config_candidate_paths, load_layers, load_yaml_value, parse_alias, parse_env_value, set_path,
    ConfigFile, ConfigSource, EnvPair, FileContent,
};
use runloop::config::routes::{default_route_vec, route_list, ModelRoute, RouteRepr};
use runloop::config::settings::{default_runtime_sockets_dir_with, Config, TestingConfig};
use runloop::config::trees::{diff_values, merge_value, normalize_kb_aliases, normalize_router_aliases};
use runloop::json::{bool_in, compact, read_json, text_in, Json, JsonMap};

fn json(text: &str) -> Json {
    read_json(text).expect("test JSON")
}

fn file(text: &str) -> ConfigFile {
    ConfigFile { path: "/c/config.yaml".to_string(), content: FileContent::Text(text.to_string()) }
}

fn env(key: &str, value: &str) -> EnvPair {
    EnvPair { key: key.to_string(), value: value.to_string(), fraction: None }
}

fn at_home() -> Surroundings {
    Surroundings { home: Some("/home/u".to_string()), vars: vec![("DIR".to_string(), "d".to_string())] }
}

fn base() -> Json {
    json(
        r#"{"version": 1, "runtime": {"agent_container": "x", "sockets_dir": "/s"}, "models": {"default": "m"},
            "router": {"default_opening": "o"}, "kb": {"root_dir": "/k", "events_db": "e", "view_db": "v"},
            "security": {"confirm_external_actions": true}}"#,
    )
}

fn text_at<'a>(tree: &'a Json, section: &str, key: &str) -> &'a str {
    text_in(tree.get(section).expect("section").get(key)).expect("text")
}

#[test]
fn defaults_validate() {
    Config::defaults(None).validate().expect("default config should validate");
}

#[test]
fn secrets_are_strict_unless_testing() {
    let mut config = Config::defaults(None);
    assert!(!config.allow_missing_secrets());
    assert!(!config.expose_raw_secrets());
    config.security.testing = Some(TestingConfig::default());
    assert!(!config.allow_missing_secrets());
    config.security.testing = Some(TestingConfig {
        allow_missing_secrets: true,
        expose_raw_secrets: true,
        ..TestingConfig::default()
    });
    assert!(config.allow_missing_secrets());
    assert!(config.expose_raw_secrets());
}

#[test]
fn metrics_interval_bounds() {
    let mut config = Config::defaults(None);
    config.observability.metrics_interval_ms = 99;
    assert!(config.validate().is_err(), "should reject too-low interval");
    config.observability.metrics_interval_ms = 100;
    config.validate().expect("100ms should pass");
    config.observability.metrics_interval_ms = 60_000;
    config.validate().expect("60s should pass");
    config.observability.metrics_interval_ms = 60_001;
    assert!(config.validate().is_err(), "should reject too-high interval");
}

#[test]
fn load_with_file_and_env_overrides() {
    let found = file(
        r#"
version: 1
runtime:
  agent_container: "wasm32-wasip1"
kb:
  root_dir: "~/.custom-pog"
security:
  confirm_external_actions: false
"#,
    );
    let env_pairs = vec![
        env("RUNLOOP__MODELS__DEFAULT", "local:test"),
        env("RUNLOOP__ROUTER__DEFAULT_OPENING", "compose_support_ticket"),
    ];
    let (tree, layers) = load_layers(&base(), &vec![found], &env_pairs).expect("config load");
    assert_eq!(text_at(&tree, "models", "default"), "local:test");
    assert_eq!(text_at(&tree, "router", "default_opening"), "compose_support_ticket");
    assert_eq!(bool_in(tree.get("security").unwrap().get("confirm_external_actions")), Some(false));
    assert!(text_at(&tree, "kb", "root_dir").ends_with(".custom-pog"));
    assert_eq!(layers.len(), 3);
    assert!(matches!(layers[0].source, ConfigSource::Defaults));
    assert!(matches!(&layers[1].source, ConfigSource::File { exists: true, .. }));
    match &layers[2].source {
        ConfigSource::Env { keys } => assert_eq!(keys.len(), 2),
        other => panic!("unexpected layer {other:?}"),
    }
    let mut config = Config::defaults(None);
    config.kb.root_dir = text_at(&tree, "kb", "root_dir").to_string();
    config.expand_paths(&at_home());
    assert_eq!(config.kb.root_dir, "/home/u/.custom-pog");
}

#[test]
fn kb_aliases_normalized() {
    let found = file("\nversion: 1\nkb:\n  ledger: \"events.sqlite\"\n  materialized: \"pog.sqlite\"\n");
    let (tree, _) = load_layers(&base(), &vec![found], &vec![]).expect("config load");
    assert_eq!(text_at(&tree, "kb", "events_db"), "events.sqlite");
    assert_eq!(text_at(&tree, "kb", "view_db"), "pog.sqlite");
    assert!(tree.get("kb").unwrap().get("ledger").is_none());
}

#[test]
fn sockets_dir_prefers_xdg_runtime_dir() {
    let resolved = default_runtime_sockets_dir_with(Some("/tmp/t/xdg"));
    assert!(resolved.starts_with("/tmp/t/xdg/runloop"));
    assert_eq!(default_runtime_sockets_dir_with(Some("/tmp/t/xdg//")), "/tmp/t/xdg/runloop");
    assert_eq!(Config::defaults(Some("/x")).runtime.sockets_dir, "/x/runloop");
}

#[test]
fn deprecation_rewrite_for_sock_dir() {
    let found = file(
        "\nversion: 1\nruntime:\n  agent_container: \"wasm32-wasip1\"\n  sockets_dir: \"~/.runloop/run\"\n",
    );
    let (tree, _) = load_layers(&base(), &vec![found], &vec![]).expect("load");
    let mut config = Config::defaults(None);
    config.runtime.sockets_dir = text_at(&tree, "runtime", "sockets_dir").to_string();
    config.expand_paths(&at_home());
    assert!(config.runtime.sockets_dir.ends_with("/.runloop/sock"));
    assert_eq!(rewrite_sockets_dir("/h/.runloop/run"), "/h/.runloop/sock");
    assert_eq!(rewrite_sockets_dir("/h/other/run"), "/h/other/run");
}

fn pairs(p: &[(&str, &str)]) -> RouteRepr {
    RouteRepr::Pairs(p.iter().map(|(a, b)| (a.to_string(), b.to_string())).collect())
}

#[test]
fn broker_route_map_orders_catch_all_last() {
    let routes = route_list(pairs(&[("*", "local"), ("gpt4*", "openai")]));
    assert_eq!(routes.len(), 2);
    assert_eq!(routes[0].pattern, "gpt4*");
    assert_eq!(routes[1].pattern, "*");
}

#[test]
fn single_pairs_become_routes() {
    let routes = route_list(pairs(&[("*", "local")]));
    assert_eq!(routes.len(), 1);
    assert_eq!(routes[0].provider, "local");
    let listed = vec![ModelRoute { pattern: "a".to_string(), provider: "p".to_string(), target_model: None }];
    assert_eq!(route_list(RouteRepr::List(listed))[0].provider, "p");
    assert_eq!(route_list(RouteRepr::List(vec![])).len(), 1);
}

#[test]
fn longer_patterns_are_tried_first() {
    let routes = route_list(pairs(&[("a", "p"), ("*", "p"), ("abc", "p"), ("b", "p")]));
    let order: Vec<&str> = routes.iter().map(|r| r.pattern.as_str()).collect();
    assert_eq!(order, vec!["abc", "a", "b", "*"]);
}

#[test]
fn missing_route_defaults_to_local() {
    let routes = route_list(RouteRepr::Missing);
    assert_eq!(routes.len(), 1);
    assert_eq!(routes[0].provider, "local");
    assert_eq!(routes[0].pattern, "*");
    assert_eq!(default_route_vec()[0].provider, "local");
}

fn complaint(config: &Config) -> String {
    config.validate().unwrap_err().message()
}

#[test]
fn validate_rejects_empty_socket_path() {
    let mut config = Config::defaults(None);
    config.runtime.socket_path = Some("   ".to_string());
    assert!(complaint(&config).contains("runtime.socket_path cannot be empty"));
}

#[test]
fn validate_rejects_empty_sockets_dir_when_no_path() {
    let mut config = Config::defaults(None);
    config.runtime.socket_path = None;
    config.runtime.sockets_dir = "   ".to_string();
    assert!(complaint(&config).contains("runtime.sockets_dir cannot be empty"));
}

#[test]
fn validate_rejects_invalid_action_decision_kind() {
    let mut config = Config::defaults(None);
    config.bus.auth.publishers.action_decision.allowed_kinds.push("invalid_kind".to_string());
    assert!(complaint(&config).contains("unknown publisher kind 'invalid_kind'"));
}

#[test]
fn validate_rejects_empty_action_decision_kind() {
    let mut config = Config::defaults(None);
    config.bus.auth.publishers.action_decision.allowed_kinds.push("   ".to_string());
    assert!(complaint(&config).contains("empty publisher kind entry"));
}

#[test]
fn patches_win_and_the_rest_stays() {
    let mut tree = json(r#"{"a": {"x": 1, "y": 2}, "b": 3}"#);
    merge_value(&mut tree, &json(r#"{"a": {"y": [1], "z": null}, "b": {"c": 1}}"#));
    assert_eq!(compact(&tree), r#"{"a":{"x":1,"y":[1],"z":null},"b":{"c":1}}"#);
}

#[test]
fn differences_are_listed() {
    let before = json(r#"{"a": {"x": 1}, "b": 2}"#);
    let after = json(r#"{"a": {"x": 5}, "b": 2, "c": true}"#);
    let found: Vec<String> = diff_values(&before, &after)
        .iter()
        .map(|o| format!("{}:{}", o.key, compact(&o.new_value)))
        .collect();
    assert_eq!(found, vec!["a.x:5", "c:true"]);
}

#[test]
fn old_names_are_rewritten() {
    let mut tree = json(r#"{"router": {"allow_shell_fastpath": true}, "kb": {"ledger": "l", "events_db": "e"}}"#);
    normalize_router_aliases(&mut tree);
    normalize_kb_aliases(&mut tree);
    assert_eq!(bool_in(tree.get("router").unwrap().get("fastpath_shell")), Some(true));
    assert!(tree.get("router").unwrap().get("allow_shell_fastpath").is_none());
    assert!(tree.get("kb").unwrap().get("ledger").is_none());
}

#[test]
fn environment_values_are_read() {
    let shown = |raw: &str| compact(&parse_env_value(raw, &None));
    assert_eq!(shown("TRUE"), "true");
    assert_eq!(shown("false"), "false");
    assert_eq!(shown("0"), "0");
    assert_eq!(shown("1"), "1");
    assert_eq!(shown("-12"), "-12");
    assert_eq!(shown("[1, 2]"), "[1,2]");
    assert_eq!(shown("[1"), "\"[1\"");
    assert_eq!(shown("{x}"), "\"{x}\"");
    assert_eq!(compact(&parse_env_value("1.50", &Some("1.5".to_string()))), "1.5");
}

#[test]
fn figures_turn_switches_and_count_elsewhere() {
    let mut root = match json(r#"{"runtime": {"max_agents": 8}, "router": {"fastpath_shell": false}}"#) {
        Json::Object(m) => m,
        other => panic!("unexpected {other:?}"),
    };
    let vars = vec![
        env("RUNLOOP__RUNTIME__MAX_AGENTS", "1"),
        env("RUNLOOP__ROUTER__FASTPATH_SHELL", "1"),
        env("RUNLOOP__NEW__COUNT", "0"),
    ];
    apply_env_overrides(&mut root, &vars).expect("applied");
    assert_eq!(
        compact(&Json::Object(root)),
        r#"{"new":{"count":0},"router":{"fastpath_shell":true},"runtime":{"max_agents":1}}"#
    );
}

#[test]
fn settings_keep_their_kind_whatever_a_file_says() {
    let mut root = match json(r#"{"kb": {"wal": "yes", "events_db": 3}, "runtime": {"max_agents": "many"}}"#) {
        Json::Object(m) => m,
        other => panic!("unexpected {other:?}"),
    };
    let vars = vec![
        env("RUNLOOP__KB__WAL", "0"),
        env("RUNLOOP__KB__EVENTS_DB", "5"),
        env("RUNLOOP__KB__VIEW_DB", "true"),
        env("RUNLOOP__RUNTIME__MAX_AGENTS", "4"),
        env("RUNLOOP__SECURITY__SECRETS__MASTER_KEY", "0042"),
        env("RUNLOOP__OBSERVABILITY__TRACES__ENABLED", "1"),
    ];
    apply_env_overrides(&mut root, &vars).expect("applied");
    assert_eq!(
        compact(&Json::Object(root)),
        concat_lines(&[
            r#"{"kb":{"events_db":"5","view_db":"true","wal":false},"#,
            r#""observability":{"traces":{"enabled":true}},"runtime":{"max_agents":4},"#,
            r#""security":{"secrets":{"master_key":"0042"}}}"#,
        ])
    );
}

fn concat_lines(parts: &[&str]) -> String {
    parts.concat()
}

#[test]
fn the_broker_knows_its_keys() {
    let tree = json(r#"{"models": {"broker": {"route": [], "routing": [], "cache": {}, "providers": [], "budgets": {}}}}"#);
    assert!(find_unknown_keys(&tree).iter().all(|k| k.key != "route" && k.key != "cache" && k.key != "routing"));
    assert!(known_keys_for_path("models/broker").contains(&"cache"));
    assert!(known_keys_for_path("security/testing").contains(&"expose_raw_secrets"));
    assert!(known_keys_for_path("security/testing").contains(&"allow_missing_secrets"));
}

#[test]
fn paths_are_set_in_trees() {
    let mut root = JsonMap::new();
    assert!(set_path(&mut root, &vec!["a".to_string(), "b".to_string()], json("1")));
    assert!(set_path(&mut root, &vec!["a".to_string(), "c".to_string()], json("2")));
    assert_eq!(compact(&Json::Object(root.clone())), r#"{"a":{"b":1,"c":2}}"#);
    assert!(!set_path(&mut root, &vec!["a".to_string(), "b".to_string(), "d".to_string()], json("2")));
}

#[test]
fn aliases_name_settings() {
    let (path, value) = parse_alias(&env("RUNLOOP_LOG_LEVEL", "debug")).expect("alias");
    assert_eq!(path, vec!["logging".to_string(), "level".to_string()]);
    assert_eq!(compact(&value), "\"debug\"");
    assert!(parse_alias(&env("RUNLOOP_OTHER", "x")).is_none());
    let asked = |value: &str| compact(&parse_alias(&env("RUNLOOP_SECURITY_CONFIRM_EXTERNAL_ACTIONS", value)).unwrap().1);
    assert_eq!((asked("0"), asked("1"), asked("true")), ("false".to_string(), "true".to_string(), "true".to_string()));
    assert_eq!(compact(&parse_alias(&env("RUNLOOP_MODELS_DEFAULT", "7")).unwrap().1), "\"7\"");
    let mut root = JsonMap::new();
    let keys = apply_env_overrides(&mut root, &vec![env("RUNLOOP__A__B", "x"), env("PATH", "y")]).expect("applied");
    assert_eq!(keys.len(), 1);
    assert_eq!(compact(&Json::Object(root)), r#"{"a":{"b":"x"}}"#);
}

#[test]
fn candidate_paths_are_in_order() {
    let dir = Some("/cfg".to_string());
    let home = Some("/home/u".to_string());
    let paths = config_candidate_paths(None, &dir, &home);
    assert!(paths.iter().all(|p| p.ends_with("config.yaml")));
    let told = config_candidate_paths(Some("/x.yaml".to_string()), &dir, &home);
    assert_eq!(told, vec!["/x.yaml".to_string()]);
}

#[test]
fn files_are_read_or_refused() {
    let content = |c: FileContent| load_yaml_value(&ConfigFile { path: "/p".to_string(), content: c });
    assert!(content(FileContent::Missing).unwrap().is_none());
    assert!(content(FileContent::Unreadable("denied".to_string())).unwrap_err().message().contains("denied"));
    assert!(content(FileContent::NotText("bad".to_string())).is_err());
    assert!(content(FileContent::Text("a: [".to_string())).is_err());
    assert!(content(FileContent::Text("a: 1".to_string())).unwrap().is_some());
}

#[test]
fn paths_are_expanded() {
    let s = at_home();
    assert_eq!(expand_path("~/x", &s), "/home/u/x");
    assert_eq!(expand_path("/a/$DIR/${DIR}", &s), "/a/d/d");
    assert_eq!(expand_path("/a/$NONE", &s), "/a/$NONE");
    assert_eq!(look_up(&s.vars, "DIR").as_deref(), Some("d"));
    assert_eq!(look_up(&s.vars, "NONE"), None);
}

#[test]
fn unknown_keys_are_found() {
    assert!(known_keys_for_path("kb").contains(&"root_dir"));
    let found = find_unknown_keys(&json(r#"{"version": 1, "kb": {"root_dir": "x", "odd": 1}, "extra": 2}"#));
    let keys: Vec<&str> = found.iter().map(|u| u.key.as_str()).collect();
    assert_eq!(keys.len(), 2);
    assert!(keys.contains(&"odd"));
    assert!(keys.contains(&"extra"));
}
