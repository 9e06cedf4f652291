//! The settings of the runtime and their defaults.

use crate::config::routes::{default_route_vec, default_routes, route_models, ModelRoute};
use crate::text::{concat, is_blank, texts, trim, trim_end_of, trimmed_end_of};
use vstd::prelude::*;

verus! {

#[derive(Clone, Copy, Debug, PartialEq, Eq, Structural)]
pub enum ProviderKind {
    Local,
    Http,
    HttpGemini,
    HttpOpenAiChat,
    HttpAnthropic,
    HttpOllama,
}

/// A provider of models. The headers stand in the order of their names.
#[derive(Debug)]
pub struct ModelProvider {
    pub id: String,
    pub kind: ProviderKind,
    pub model_dir: Option<String>,
    pub base_url: Option<String>,
    pub secret_id: Option<String>,
    pub headers: Vec<(String, String)>,
    pub schema: Option<String>,
}

/// The directory for sockets: below the user's runtime directory where there is one.
pub open spec fn sockets_dir_text(runtime_dir: Option<Seq<char>>) -> Seq<char> {
    match runtime_dir {
        Some(d) => if trim(d).len() > 0 {
            trim_end_of(d, '/') + "/runloop"@
        } else {
            "~/.runloop/sock"@
        },
        None => "~/.runloop/sock"@,
    }
}

pub open spec fn opt_str(t: Option<&str>) -> Option<Seq<char>> {
    match t {
        Some(s) => Some(s@),
        None => None,
    }
}

pub fn default_runtime_sockets_dir_with(runtime_dir: Option<&str>) -> (r: String)
    ensures
        r@ == sockets_dir_text(opt_str(runtime_dir)),
{
    match runtime_dir {
        Some(d) => {
            if !is_blank(d) {
                return concat(trimmed_end_of(d, '/').as_str(), "/runloop");
            }
        },
        None => {},
    }
    "~/.runloop/sock".to_owned()
}

fn strings(words: Vec<&str>) -> (r: Vec<String>)
    ensures
        texts(r@) == words@.map_values(|w: &str| w@),
{
    let mut r: Vec<String> = Vec::new();
    let mut i: usize = 0;
    while i < words.len()
        invariant
            i <= words.len(),
            r@.len() == i,
            forall|k: int| 0 <= k < i ==> (#[trigger] r@[k])@ == words@[k]@,
        decreases words.len() - i,
    {
        r.push(words[i].to_owned());
        i += 1;
    }
    assert(texts(r@) =~= words@.map_values(|w: &str| w@));
    r
}

#[derive(Debug)]
pub struct PressureThreshold {
    pub cpu_pct: u8,
    pub mem_pct: u8,
    pub io_wait_pct: u8,
}

pub open spec fn is_default_pressure_threshold(c: PressureThreshold) -> bool {
    &&& c.cpu_pct == 90
    &&& c.mem_pct == 90
    &&& c.io_wait_pct == 50
}

impl Default for PressureThreshold {
    fn default() -> (r: Self)
        ensures
            is_default_pressure_threshold(r),
    {
        PressureThreshold {
            cpu_pct: 90,
            mem_pct: 90,
            io_wait_pct: 50,
        }
    }
}

#[derive(Debug)]
pub struct RuntimeConfig {
    pub base: String,
    pub agent_container: String,
    pub socket_path: Option<String>,
    pub workdir: String,
    pub sockets_dir: String,
    pub max_agents: u32,
    pub pressure_threshold: PressureThreshold,
}

pub open spec fn is_default_runtime_config(c: RuntimeConfig, runtime_dir: Option<Seq<char>>) -> bool {
    &&& c.base@ == "debian"@
    &&& c.agent_container@ == "wasm32-wasip1"@
    &&& c.socket_path is None
    &&& c.workdir@ == "~/.runloop"@
    &&& c.sockets_dir@ == sockets_dir_text(runtime_dir)
    &&& c.max_agents == 0
    &&& is_default_pressure_threshold(c.pressure_threshold)
}

impl RuntimeConfig {
    pub fn defaults(runtime_dir: Option<&str>) -> (r: Self)
        ensures
            is_default_runtime_config(r, opt_str(runtime_dir)),
    {
        RuntimeConfig {
            base: "debian".to_owned(),
            agent_container: "wasm32-wasip1".to_owned(),
            socket_path: None,
            workdir: "~/.runloop".to_owned(),
            sockets_dir: default_runtime_sockets_dir_with(runtime_dir),
            max_agents: 0,
            pressure_threshold: PressureThreshold::default(),
        }
    }
}

#[derive(Debug)]
pub struct BrokerCacheConfig {
    pub ttl_ms: u64,
    pub capacity: usize,
}

pub open spec fn is_default_broker_cache_config(c: BrokerCacheConfig) -> bool {
    &&& c.ttl_ms == 600_000
    &&& c.capacity == 1_024
}

impl Default for BrokerCacheConfig {
    fn default() -> (r: Self)
        ensures
            is_default_broker_cache_config(r),
    {
        BrokerCacheConfig {
            ttl_ms: 600_000,
            capacity: 1_024,
        }
    }
}

#[derive(Debug)]
pub struct ModelBudgets {
    pub default_tokens: u32,
    pub per_request_tokens_cap: u32,
    pub hard_cap_usd: Option<String>,
}

pub open spec fn is_default_model_budgets(c: ModelBudgets) -> bool {
    &&& c.default_tokens == 8_000
    &&& c.per_request_tokens_cap == 2_000
    &&& c.hard_cap_usd is None
}

impl Default for ModelBudgets {
    fn default() -> (r: Self)
        ensures
            is_default_model_budgets(r),
    {
        ModelBudgets {
            default_tokens: 8_000,
            per_request_tokens_cap: 2_000,
            hard_cap_usd: None,
        }
    }
}

#[derive(Debug)]
pub struct BrokerConfig {
    pub providers: Vec<ModelProvider>,
    pub route: Vec<ModelRoute>,
    pub cache: BrokerCacheConfig,
    pub budgets: ModelBudgets,
}

pub open spec fn is_default_broker_config(c: BrokerConfig) -> bool {
    &&& c.providers@ == Seq::<ModelProvider>::empty()
    &&& route_models(c.route@) == default_routes()
    &&& is_default_broker_cache_config(c.cache)
    &&& is_default_model_budgets(c.budgets)
}

impl Default for BrokerConfig {
    fn default() -> (r: Self)
        ensures
            is_default_broker_config(r),
    {
        BrokerConfig {
            providers: Vec::new(),
            route: default_route_vec(),
            cache: BrokerCacheConfig::default(),
            budgets: ModelBudgets::default(),
        }
    }
}

#[derive(Debug)]
pub struct ModelsConfig {
    pub default: String,
    pub broker: BrokerConfig,
}

pub open spec fn is_default_models_config(c: ModelsConfig) -> bool {
    &&& c.default@ == "null:echo"@
    &&& is_default_broker_config(c.broker)
}

impl Default for ModelsConfig {
    fn default() -> (r: Self)
        ensures
            is_default_models_config(r),
    {
        ModelsConfig {
            default: "null:echo".to_owned(),
            broker: BrokerConfig::default(),
        }
    }
}

#[derive(Debug)]
pub struct KbRedactionConfig {
    pub mask_email: bool,
    pub level: String,
    pub at_query_time: bool,
    pub materialize_masked_columns: bool,
    pub url_param_denylist: Vec<String>,
}

pub open spec fn is_default_kb_redaction_config(c: KbRedactionConfig) -> bool {
    &&& c.mask_email
    &&& c.level@ == "strict"@
    &&& c.at_query_time
    &&& c.materialize_masked_columns
    &&& texts(c.url_param_denylist@) == seq!["token"@, "key"@, "password"@, "signature"@, "auth"@]
}

impl Default for KbRedactionConfig {
    fn default() -> (r: Self)
        ensures
            is_default_kb_redaction_config(r),
    {
        let r = KbRedactionConfig {
            mask_email: true,
            level: "strict".to_owned(),
            at_query_time: true,
            materialize_masked_columns: true,
            url_param_denylist: strings(vec!["token", "key", "password", "signature", "auth"]),
        };
        assert(texts(r.url_param_denylist@) =~= seq!["token"@, "key"@, "password"@, "signature"@, "auth"@]);
        r
    }
}

#[derive(Debug)]
pub struct KbConfig {
    pub root_dir: String,
    pub events_db: String,
    pub view_db: String,
    pub wal: bool,
    pub fts: bool,
    pub redaction: KbRedactionConfig,
}

pub open spec fn is_default_kb_config(c: KbConfig) -> bool {
    &&& c.root_dir@ == "~/.runloop/pog"@
    &&& c.events_db@ == "events.sqlite"@
    &&& c.view_db@ == "pog.sqlite"@
    &&& c.wal
    &&& !c.fts
    &&& is_default_kb_redaction_config(c.redaction)
}

impl Default for KbConfig {
    fn default() -> (r: Self)
        ensures
            is_default_kb_config(r),
    {
        KbConfig {
            root_dir: "~/.runloop/pog".to_owned(),
            events_db: "events.sqlite".to_owned(),
            view_db: "pog.sqlite".to_owned(),
            wal: true,
            fts: false,
            redaction: KbRedactionConfig::default(),
        }
    }
}

#[derive(Debug)]
pub struct SecurityCapsConfig {
    pub audit_on_allow: bool,
    pub audit_on_deny: bool,
}

pub open spec fn is_default_security_caps_config(c: SecurityCapsConfig) -> bool {
    &&& !c.audit_on_allow
    &&& c.audit_on_deny
}

impl Default for SecurityCapsConfig {
    fn default() -> (r: Self)
        ensures
            is_default_security_caps_config(r),
    {
        SecurityCapsConfig {
            audit_on_allow: false,
            audit_on_deny: true,
        }
    }
}

#[derive(Debug)]
pub struct SecretsConfig {
    pub provider: String,
    pub root: Option<String>,
    pub encryption: String,
    pub master_key: Option<String>,
    pub allow_export: bool,
    pub allow_list: bool,
    pub default_ttl: u64,
}

pub open spec fn is_default_secrets_config(c: SecretsConfig) -> bool {
    &&& c.provider@ == "stub"@
    &&& c.root is Some
    &&& c.root->0@ == "~/.runloop/secrets"@
    &&& c.encryption@ == "none"@
    &&& c.master_key is None
    &&& !c.allow_export
    &&& !c.allow_list
    &&& c.default_ttl == 0
}

impl Default for SecretsConfig {
    fn default() -> (r: Self)
        ensures
            is_default_secrets_config(r),
    {
        SecretsConfig {
            provider: "stub".to_owned(),
            root: Some("~/.runloop/secrets".to_owned()),
            encryption: "none".to_owned(),
            master_key: None,
            allow_export: false,
            allow_list: false,
            default_ttl: 0,
        }
    }
}

#[derive(Debug)]
pub struct TestingConfig {
    pub broker_mode: Option<String>,
    pub broker_seed: Option<u64>,
    pub allow_missing_secrets: bool,
    pub expose_raw_secrets: bool,
}

impl Default for TestingConfig {
    fn default() -> (r: Self)
        ensures
            r.broker_mode is None,
            r.broker_seed is None,
            !r.allow_missing_secrets,
            !r.expose_raw_secrets,
    {
        TestingConfig {
            broker_mode: None,
            broker_seed: None,
            allow_missing_secrets: false,
            expose_raw_secrets: false,
        }
    }
}

#[derive(Debug)]
pub struct SecurityConfig {
    pub confirm_external_actions: bool,
    pub allow_unsigned_agents: bool,
    pub allowed_agent_signers: Vec<String>,
    pub caps: SecurityCapsConfig,
    pub secrets: SecretsConfig,
    pub testing: Option<TestingConfig>,
}

pub open spec fn is_default_security_config(c: SecurityConfig) -> bool {
    &&& c.confirm_external_actions
    &&& c.allow_unsigned_agents
    &&& texts(c.allowed_agent_signers@) == Seq::<Seq<char>>::empty()
    &&& is_default_security_caps_config(c.caps)
    &&& is_default_secrets_config(c.secrets)
    &&& c.testing is None
}

impl Default for SecurityConfig {
    fn default() -> (r: Self)
        ensures
            is_default_security_config(r),
    {
        let r = SecurityConfig {
            confirm_external_actions: true,
            allow_unsigned_agents: true,
            allowed_agent_signers: Vec::new(),
            caps: SecurityCapsConfig::default(),
            secrets: SecretsConfig::default(),
            testing: None,
        };
        assert(texts(r.allowed_agent_signers@) =~= Seq::<Seq<char>>::empty());
        r
    }
}

#[derive(Debug)]
pub struct RouterConfig {
    pub fastpath_shell: bool,
    pub default_opening: String,
    pub allowlist: Vec<String>,
    pub denylist: Vec<String>,
    pub known_commands: Vec<String>,
}

pub open spec fn is_default_router_config(c: RouterConfig) -> bool {
    &&& c.fastpath_shell
    &&& c.default_opening@ == "compose_email"@
    &&& texts(c.allowlist@) == Seq::<Seq<char>>::empty()
    &&& texts(c.denylist@) == seq!["rm -rf /"@]
    &&& texts(c.known_commands@) == Seq::<Seq<char>>::empty()
}

impl Default for RouterConfig {
    fn default() -> (r: Self)
        ensures
            is_default_router_config(r),
    {
        let r = RouterConfig {
            fastpath_shell: true,
            default_opening: "compose_email".to_owned(),
            allowlist: Vec::new(),
            denylist: strings(vec!["rm -rf /"]),
            known_commands: Vec::new(),
        };
        assert(texts(r.allowlist@) =~= Seq::<Seq<char>>::empty());
        assert(texts(r.denylist@) =~= seq!["rm -rf /"@]);
        assert(texts(r.known_commands@) =~= Seq::<Seq<char>>::empty());
        r
    }
}

#[derive(Debug)]
pub struct UiConfig {
    pub theme: String,
    pub confirm_prompts: String,
}

pub open spec fn is_default_ui_config(c: UiConfig) -> bool {
    &&& c.theme@ == "mono"@
    &&& c.confirm_prompts@ == "inline"@
}

impl Default for UiConfig {
    fn default() -> (r: Self)
        ensures
            is_default_ui_config(r),
    {
        UiConfig {
            theme: "mono".to_owned(),
            confirm_prompts: "inline".to_owned(),
        }
    }
}

#[derive(Debug)]
pub struct LoggingConfig {
    pub level: String,
    pub file: Option<String>,
    pub format: String,
}

pub open spec fn is_default_logging_config(c: LoggingConfig) -> bool {
    &&& c.level@ == "info"@
    &&& c.file is None
    &&& c.format@ == "auto"@
}

impl Default for LoggingConfig {
    fn default() -> (r: Self)
        ensures
            is_default_logging_config(r),
    {
        LoggingConfig {
            level: "info".to_owned(),
            file: None,
            format: "auto".to_owned(),
        }
    }
}

#[derive(Debug)]
pub struct TracesConfig {
    pub enabled: bool,
    pub otlp_endpoint: Option<String>,
    pub sampling: String,
}

pub open spec fn is_default_traces_config(c: TracesConfig) -> bool {
    &&& !c.enabled
    &&& c.otlp_endpoint is None
    &&& c.sampling@ == "parent"@
}

impl Default for TracesConfig {
    fn default() -> (r: Self)
        ensures
            is_default_traces_config(r),
    {
        TracesConfig {
            enabled: false,
            otlp_endpoint: None,
            sampling: "parent".to_owned(),
        }
    }
}

#[derive(Debug)]
pub struct ObservabilityConfig {
    pub traces: TracesConfig,
    pub metrics_interval_ms: u32,
}

pub open spec fn is_default_observability_config(c: ObservabilityConfig) -> bool {
    &&& is_default_traces_config(c.traces)
    &&& c.metrics_interval_ms == 1_000
}

impl Default for ObservabilityConfig {
    fn default() -> (r: Self)
        ensures
            is_default_observability_config(r),
    {
        ObservabilityConfig {
            traces: TracesConfig::default(),
            metrics_interval_ms: 1_000,
        }
    }
}

#[derive(Debug)]
pub struct SearchDirsConfig {
    pub search_dirs: Vec<String>,
}

pub open spec fn is_default_search_dirs_config(c: SearchDirsConfig) -> bool {
    &&& texts(c.search_dirs@) == Seq::<Seq<char>>::empty()
}

impl Default for SearchDirsConfig {
    fn default() -> (r: Self)
        ensures
            is_default_search_dirs_config(r),
    {
        let r = SearchDirsConfig {
            search_dirs: Vec::new(),
        };
        assert(texts(r.search_dirs@) =~= Seq::<Seq<char>>::empty());
        r
    }
}

#[derive(Debug)]
pub struct BusPublisherRule {
    pub allowed_kinds: Vec<String>,
}

pub open spec fn is_default_bus_publisher_rule(c: BusPublisherRule) -> bool {
    &&& texts(c.allowed_kinds@) == seq!["ui"@, "tui"@]
}

impl Default for BusPublisherRule {
    fn default() -> (r: Self)
        ensures
            is_default_bus_publisher_rule(r),
    {
        let r = BusPublisherRule {
            allowed_kinds: strings(vec!["ui", "tui"]),
        };
        assert(texts(r.allowed_kinds@) =~= seq!["ui"@, "tui"@]);
        r
    }
}

#[derive(Debug)]
pub struct BusPublishersConfig {
    pub action_decision: BusPublisherRule,
}

pub open spec fn is_default_bus_publishers_config(c: BusPublishersConfig) -> bool {
    &&& is_default_bus_publisher_rule(c.action_decision)
}

impl Default for BusPublishersConfig {
    fn default() -> (r: Self)
        ensures
            is_default_bus_publishers_config(r),
    {
        BusPublishersConfig {
            action_decision: BusPublisherRule::default(),
        }
    }
}

#[derive(Debug)]
pub struct BusAuthConfig {
    pub publishers: BusPublishersConfig,
}

pub open spec fn is_default_bus_auth_config(c: BusAuthConfig) -> bool {
    &&& is_default_bus_publishers_config(c.publishers)
}

impl Default for BusAuthConfig {
    fn default() -> (r: Self)
        ensures
            is_default_bus_auth_config(r),
    {
        BusAuthConfig {
            publishers: BusPublishersConfig::default(),
        }
    }
}

#[derive(Debug)]
pub struct BusConfig {
    pub auth: BusAuthConfig,
}

pub open spec fn is_default_bus_config(c: BusConfig) -> bool {
    &&& is_default_bus_auth_config(c.auth)
}

impl Default for BusConfig {
    fn default() -> (r: Self)
        ensures
            is_default_bus_config(r),
    {
        BusConfig {
            auth: BusAuthConfig::default(),
        }
    }
}

/// The settings of the runtime.
#[derive(Debug)]
pub struct Config {
    pub version: u32,
    pub runtime: RuntimeConfig,
    pub models: ModelsConfig,
    pub kb: KbConfig,
    pub security: SecurityConfig,
    pub router: RouterConfig,
    pub ui: UiConfig,
    pub logging: LoggingConfig,
    pub observability: ObservabilityConfig,
    pub openings: SearchDirsConfig,
    pub agents: SearchDirsConfig,
    pub bus: BusConfig,
}

pub open spec fn is_default_config(c: Config, runtime_dir: Option<Seq<char>>) -> bool {
    &&& c.version == 1
    &&& is_default_runtime_config(c.runtime, runtime_dir)
    &&& is_default_models_config(c.models)
    &&& is_default_kb_config(c.kb)
    &&& is_default_security_config(c.security)
    &&& is_default_router_config(c.router)
    &&& is_default_ui_config(c.ui)
    &&& is_default_logging_config(c.logging)
    &&& is_default_observability_config(c.observability)
    &&& texts(c.openings.search_dirs@) == seq![
        "~/.runloop/openings"@,
        "./examples/openings"@,
        "/etc/runloop/openings"@,
    ]
    &&& texts(c.agents.search_dirs@) == seq![
        "~/.runloop/agents"@,
        "./agents"@,
        "/usr/lib/runloop/agents"@,
    ]
    &&& is_default_bus_config(c.bus)
}

impl Config {
    /// Whether agents may start though a secret they name is not there: only where the settings
    /// for testing say so.
    pub fn allow_missing_secrets(&self) -> (r: bool)
        ensures
            r == (self.security.testing matches Some(t) && t.allow_missing_secrets),
    {
        match &self.security.testing {
            Some(t) => t.allow_missing_secrets,
            None => false,
        }
    }

    /// Whether agents may see secrets as they are: only where the settings for testing say so.
    pub fn expose_raw_secrets(&self) -> (r: bool)
        ensures
            r == (self.security.testing matches Some(t) && t.expose_raw_secrets),
    {
        match &self.security.testing {
            Some(t) => t.expose_raw_secrets,
            None => false,
        }
    }

    /// The settings where nothing is configured.
    pub fn defaults(runtime_dir: Option<&str>) -> (r: Self)
        ensures
            is_default_config(r, opt_str(runtime_dir)),
    {
        let openings = SearchDirsConfig {
            search_dirs: strings(
                vec!["~/.runloop/openings", "./examples/openings", "/etc/runloop/openings"],
            ),
        };
        let agents = SearchDirsConfig {
            search_dirs: strings(
                vec!["~/.runloop/agents", "./agents", "/usr/lib/runloop/agents"],
            ),
        };
        assert(texts(openings.search_dirs@) =~= seq![
            "~/.runloop/openings"@,
            "./examples/openings"@,
            "/etc/runloop/openings"@,
        ]);
        assert(texts(agents.search_dirs@) =~= seq![
            "~/.runloop/agents"@,
            "./agents"@,
            "/usr/lib/runloop/agents"@,
        ]);
        Config {
            version: 1,
            runtime: RuntimeConfig::defaults(runtime_dir),
            models: ModelsConfig::default(),
            kb: KbConfig::default(),
            security: SecurityConfig::default(),
            router: RouterConfig::default(),
            ui: UiConfig::default(),
            logging: LoggingConfig::default(),
            observability: ObservabilityConfig::default(),
            openings,
            agents,
            bus: BusConfig::default(),
        }
    }
}

} // verus!
