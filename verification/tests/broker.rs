use runloop::broker::answers::{
    collect_text_parts, http_status_error, is_safety_finish_reason, read_anthropic, read_chat, read_completions,
    read_gemini, read_ollama, AnthropicResponse, AnthropicUsage, GeminiCandidate, GeminiResponse,
    GeminiUsageMetadata, OllamaResponse, OpenAiChatChoice, OpenAiChatMessage, OpenAiChatResponse, OpenAiChoice,
    OpenAiCompletionResponse, OpenAiUsage,
};
use runloop::broker::cache::BrokerCache;
use runloop::broker::calls::{
    gemini_extras, gemini_hints, gemini_model_path, http_call, resolve_secret, GeminiExtrasPayload, GeminiHints,
    GeminiSafetySetting, HttpCall, NoopSecretResolver, SecretResolver,
};
use runloop::broker::desk::{
    build_provider, compose_cache_key, echo_completion, estimate_tokens, estimate_tokens_from_len, route_matches,
    saturating_millis, usage_profile, Broker, BrokerInitError, BudgetLimits, CallOutcome, Provider, Start,
};
use runloop::broker::types::{BrokerError, Fraction, ModelOutput, ModelParams, ModelRequest};
use runloop::config::routes::ModelRoute;
use runloop::config::settings::{BrokerCacheConfig, BrokerConfig, ModelBudgets, ModelProvider, ProviderKind};
use runloop::ids::TraceId;
use runloop::json::{compact, read_json, Json};

fn json(text: &str) -> Json {
    read_json(text).expect("test JSON")
}

fn route(pattern: &str, provider: &str) -> ModelRoute {
    ModelRoute { pattern: pattern.to_string(), provider: provider.to_string(), target_model: None }
}

fn broker_config() -> BrokerConfig {
    BrokerConfig {
        providers: vec![],
        route: vec![route("*", "null")],
        cache: BrokerCacheConfig { ttl_ms: 60_000, capacity: 8 },
        budgets: ModelBudgets::default(),
    }
}

fn request() -> ModelRequest {
    ModelRequest {
        trace_id: TraceId::default(),
        model: "local:echo".to_string(),
        prompt: "hello".to_string(),
        role_system: None,
        params: None,
        budget_tokens: None,
        timeout_ms: None,
        cache_ttl_ms: None,
        cache_key: None,
        stream: false,
        extras: None,
    }
}

fn complete(broker: &mut Broker, req: &ModelRequest, now_ns: u64) -> Result<ModelOutput, BrokerError> {
    match broker.begin(req, now_ns) {
        Start::Refused(e) => Err(e),
        Start::Cached(out) => Ok(out),
        Start::Call(plan) => {
            let done = echo_completion(req, &plan.model);
            broker.finish(req, plan, CallOutcome::Done(done), 3, now_ns)
        }
    }
}

#[test]
fn null_provider_echoes_prompt() {
    let mut broker = Broker::new(&broker_config()).expect("broker init");
    let resp = complete(&mut broker, &request(), 0).expect("complete");
    assert_eq!(resp.text, "hello");
    assert!(!resp.cached);
    assert_eq!(resp.latency_ms, 3);
    assert_eq!(resp.provider, "null");
    assert_eq!(broker.stats().calls, 1);
}

#[test]
fn cache_hit_sets_flag() {
    let mut broker = Broker::new(&broker_config()).expect("broker init");
    let req = ModelRequest { cache_ttl_ms: Some(30_000), ..request() };
    let first = complete(&mut broker, &req, 0).expect("first");
    assert!(!first.cached);
    let second = complete(&mut broker, &req, 1).expect("second");
    assert!(second.cached);
    assert_eq!(second.text, first.text);
    assert_eq!(broker.stats().cache_hits, 1);
    let late = complete(&mut broker, &req, 30_000_000_000).expect("third");
    assert!(!late.cached);
}

#[test]
fn budget_exceeded_produces_error() {
    let mut broker = Broker::new(&broker_config()).expect("broker init");
    let req = ModelRequest {
        budget_tokens: Some(1),
        prompt: "wide prompt exceeding budget".to_string(),
        ..request()
    };
    let err = complete(&mut broker, &req, 0).expect_err("should err");
    assert!(matches!(err, BrokerError::BudgetExceeded { .. }));
}

#[test]
fn streaming_unsupported_error() {
    let mut broker = Broker::new(&broker_config()).expect("broker init");
    let req = ModelRequest { stream: true, ..request() };
    let err = complete(&mut broker, &req, 0).expect_err("should err");
    assert!(matches!(err, BrokerError::StreamingUnsupported));
}

#[test]
fn cache_respects_budget_changes() {
    let mut broker = Broker::new(&broker_config()).expect("broker init");
    let warm = ModelRequest { cache_ttl_ms: Some(30_000), budget_tokens: Some(500), ..request() };
    complete(&mut broker, &warm, 0).expect("warm cache");
    let tightened = ModelRequest { cache_ttl_ms: Some(30_000), budget_tokens: Some(1), ..request() };
    let err = complete(&mut broker, &tightened, 1).expect_err("budget enforcement");
    assert!(matches!(err, BrokerError::BudgetExceeded { .. }));
}

#[test]
fn calls_can_fail() {
    let mut broker = Broker::new(&broker_config()).expect("broker init");
    let req = ModelRequest { timeout_ms: Some(70), ..request() };
    for outcome in [CallOutcome::TimedOut, CallOutcome::Failed(BrokerError::Cancelled)] {
        let plan = match broker.begin(&req, 0) {
            Start::Call(plan) => plan,
            _ => panic!("no call"),
        };
        let timed_out = matches!(outcome, CallOutcome::TimedOut);
        let err = broker.finish(&req, plan, outcome, 0, 0).expect_err("failed");
        if timed_out {
            assert!(matches!(err, BrokerError::Timeout { timeout_ms: 70 }));
        } else {
            assert!(matches!(err, BrokerError::Cancelled));
        }
    }
    assert_eq!(saturating_millis(1u128 << 40), u32::MAX);
    assert_eq!(saturating_millis(7), 7);
}

struct MapSecrets(String, String);

impl SecretResolver for MapSecrets {
    fn resolve(&self, secret_id: &str) -> Option<String> {
        if secret_id == self.0 {
            Some(self.1.clone())
        } else {
            None
        }
    }
}

fn provider_config(id: &str, kind: ProviderKind, secret: Option<&str>) -> ModelProvider {
    ModelProvider {
        id: id.to_string(),
        kind,
        model_dir: None,
        base_url: Some("http://host:1".to_string()),
        secret_id: secret.map(|s| s.to_string()),
        headers: vec![],
        schema: None,
    }
}

fn no_hints() -> GeminiHints {
    GeminiHints { safety_settings: None, response_mime_type: None }
}

fn has_header(call: &HttpCall, name: &str, value: &str) -> bool {
    call.headers.iter().any(|(n, v)| n.eq_ignore_ascii_case(name) && v == value)
}

fn params(temperature: &str, max_tokens: u32, stop: &str) -> Option<ModelParams> {
    Some(ModelParams {
        temperature: Some(Fraction { short: temperature.to_string(), wide: temperature.to_string() }),
        top_p: Some(Fraction { short: "0.9".to_string(), wide: "0.9".to_string() }),
        max_tokens: Some(max_tokens),
        stop: Some(vec![stop.to_string()]),
    })
}

fn call(provider: &Provider, req: &ModelRequest, model: &str, secret: &str, hints: &GeminiHints) -> HttpCall {
    http_call(provider, req, model, secret, hints).expect("an HTTP provider")
}

#[test]
fn gemini_provider_maps_requests_and_responses() {
    let provider =
        build_provider(&provider_config("gemini", ProviderKind::HttpGemini, Some("gemini_api"))).expect("provider");
    let secrets = MapSecrets("gemini_api".to_string(), "test-key".to_string());
    let secret = resolve_secret(&provider, &secrets).expect("secret");
    let req = ModelRequest {
        model: "gemini-1.5-flash".to_string(),
        role_system: Some("be concise".to_string()),
        params: params("0.2", 64, "STOP"),
        budget_tokens: Some(8000),
        timeout_ms: Some(1_000),
        extras: Some(json(
            r#"{"gemini": {"safety": [{"category": "HARM_CATEGORY_DANGEROUS_CONTENT", "threshold": "BLOCK_NONE"}],
                "response_mime_type": "text/plain"}}"#,
        )),
        ..request()
    };
    assert!(gemini_extras(&req.extras).expect("extras").is_some());
    let hints = gemini_hints(Some(Ok(GeminiExtrasPayload {
        safety: Some(vec![GeminiSafetySetting {
            category: "HARM_CATEGORY_DANGEROUS_CONTENT".to_string(),
            threshold: "BLOCK_NONE".to_string(),
        }]),
        mime_type: None,
        response_mime_type: Some("text/plain".to_string()),
    })))
    .expect("hints");
    let made = call(&provider, &req, "gemini-1.5-flash", &secret, &hints);
    assert!(has_header(&made, "x-goog-api-key", "test-key"));
    assert_eq!(made.url, "http://host:1/v1beta/models/gemini-1.5-flash:generateContent");
    let body = compact(&made.body);
    assert!(body.contains(r#""safetySettings":[{"category":"HARM_CATEGORY_DANGEROUS_CONTENT","threshold":"BLOCK_NONE"}]"#));
    assert!(body.contains(r#""contents":[{"parts":[{"text":"hello"}],"role":"user"}]"#));
    let reply = GeminiResponse {
        candidates: vec![GeminiCandidate {
            parts: Some(vec![Some("hi".to_string()), Some(" there".to_string())]),
            finish_reason: Some("STOP".to_string()),
        }],
        usage_metadata: Some(GeminiUsageMetadata { prompt_token_count: Some(12), candidates_token_count: Some(24) }),
        model_version: Some("models/gemini-1.5-flash".to_string()),
        block_reason: None,
    };
    let completion = read_gemini(&reply, "gemini-1.5-flash").expect("completion");
    assert_eq!(completion.text, "hi there");
    assert_eq!(completion.tokens_in, Some(12));
    assert_eq!(completion.tokens_out, Some(24));
    assert_eq!(completion.finish_reason.as_deref(), Some("stop"));
    assert_eq!(completion.provider_model, "models/gemini-1.5-flash");
}

#[test]
fn gemini_provider_surfaces_safety_blocks() {
    let reply = GeminiResponse {
        candidates: vec![GeminiCandidate { parts: None, finish_reason: Some("SAFETY".to_string()) }],
        usage_metadata: None,
        model_version: None,
        block_reason: Some("SAFETY".to_string()),
    };
    match read_gemini(&reply, "gemini-pro").expect_err("should be blocked") {
        BrokerError::ProviderFault { code, message } => {
            assert_eq!(code, "safety_blocked");
            assert!(message.contains("Gemini"));
        }
        other => panic!("unexpected error: {other:?}"),
    }
    assert!(is_safety_finish_reason("SAFETY"));
    assert!(!is_safety_finish_reason("STOP"));
    assert_eq!(collect_text_parts(&vec![None, Some("a".to_string())]).as_deref(), Some("a"));
    assert_eq!(collect_text_parts(&vec![]), None);
}

#[test]
fn openai_chat_provider_maps_requests_and_responses() {
    let provider = build_provider(&provider_config("openai", ProviderKind::HttpOpenAiChat, Some("openai_api")))
        .expect("provider");
    let req = ModelRequest {
        model: "gpt-4o-mini".to_string(),
        role_system: Some("be short".to_string()),
        params: params("0.3", 64, "stop"),
        ..request()
    };
    let made = call(&provider, &req, "gpt-4o-mini", "test-key", &no_hints());
    assert_eq!(made.url, "http://host:1/v1/chat/completions");
    assert_eq!(made.bearer.as_deref(), Some("test-key"));
    assert!(made.body.equals(&json(
        r#"{"model": "gpt-4o-mini", "messages": [{"role": "system", "content": "be short"},
            {"role": "user", "content": "hello"}], "temperature": 0.3, "top_p": 0.9, "max_tokens": 64,
            "stop": ["stop"], "stream": false}"#
    )));
    let reply = OpenAiChatResponse {
        choices: vec![OpenAiChatChoice {
            message: Some(OpenAiChatMessage { role: "assistant".to_string(), content: "hi there".to_string() }),
            finish_reason: Some("stop".to_string()),
        }],
        usage: Some(OpenAiUsage { prompt_tokens: Some(12), completion_tokens: Some(4) }),
        finish_reason: None,
        model: Some("gpt-4o-mini".to_string()),
    };
    let completion = read_chat(&reply, "gpt-4o-mini").expect("completion");
    assert_eq!(completion.text, "hi there");
    assert_eq!(completion.tokens_in, Some(12));
    assert_eq!(completion.tokens_out, Some(4));
    assert_eq!(completion.finish_reason.as_deref(), Some("stop"));
    assert_eq!(completion.provider_model, "gpt-4o-mini");
}

#[test]
fn anthropic_provider_maps_requests_and_responses() {
    let provider = build_provider(&provider_config("haiku", ProviderKind::HttpAnthropic, Some("anthropic_api")))
        .expect("provider");
    let req = ModelRequest {
        model: "haiku-20240307".to_string(),
        role_system: Some("you are brief".to_string()),
        params: params("0.5", 32, "stop"),
        ..request()
    };
    let made = call(&provider, &req, "haiku-20240307", "anth-key", &no_hints());
    assert_eq!(made.url, "http://host:1/v1/messages");
    assert!(has_header(&made, "x-api-key", "anth-key"));
    assert!(has_header(&made, "anthropic-version", "2023-06-01"));
    let reply = AnthropicResponse {
        content: vec![Some("hello from haiku".to_string())],
        stop_reason: Some("end_turn".to_string()),
        usage: Some(AnthropicUsage { input_tokens: Some(10), output_tokens: Some(5) }),
    };
    let completion = read_anthropic(&reply, "haiku-20240307").expect("completion");
    assert_eq!(completion.text, "hello from haiku");
    assert_eq!(completion.tokens_in, Some(10));
    assert_eq!(completion.tokens_out, Some(5));
    assert_eq!(completion.finish_reason.as_deref(), Some("end_turn"));
}

#[test]
fn ollama_provider_maps_requests_and_responses() {
    let provider = build_provider(&provider_config("ollama", ProviderKind::HttpOllama, None)).expect("provider");
    let made = call(&provider, &request(), "llama3:8b", "", &no_hints());
    assert_eq!(made.url, "http://host:1/api/generate");
    assert!(made.body.equals(&json(r#"{"model": "llama3:8b", "prompt": "hello", "stream": false}"#)));
    let reply =
        OllamaResponse { response: "hey there".to_string(), prompt_eval_count: Some(8), eval_count: Some(6) };
    let completion = read_ollama(&reply, "llama3:8b").expect("completion");
    assert_eq!(completion.text, "hey there");
    assert_eq!(completion.tokens_in, Some(8));
    assert_eq!(completion.tokens_out, Some(6));
}

#[test]
fn ollama_provider_forwards_system_prompt() {
    let provider = build_provider(&provider_config("ollama", ProviderKind::HttpOllama, None)).expect("provider");
    let req = ModelRequest { role_system: Some("stay brief".to_string()), ..request() };
    let made = call(&provider, &req, "llama3:8b", "", &no_hints());
    assert!(made.body.equals(&json(
        r#"{"model": "llama3:8b", "prompt": "hello", "system": "stay brief", "stream": false}"#
    )));
    let reply =
        OllamaResponse { response: "brief reply".to_string(), prompt_eval_count: None, eval_count: None };
    assert_eq!(read_ollama(&reply, "llama3:8b").expect("completion").text, "brief reply");
}

#[test]
fn completions_need_a_choice() {
    let reply = |choices| OpenAiCompletionResponse { choices, usage: None, finish_reason: None, model: None };
    assert!(read_completions(&reply(vec![]), "m").is_err());
    let one = vec![OpenAiChoice { text: "t".to_string(), finish_reason: None }];
    let done = read_completions(&reply(one), "m").expect("completion");
    assert_eq!((done.text.as_str(), done.provider_model.as_str()), ("t", "m"));
    let provider = build_provider(&provider_config("http", ProviderKind::Http, None)).expect("provider");
    let made = call(&provider, &request(), "m", "", &no_hints());
    assert!(made.url.starts_with("http://host:1/v1/completions"));
}

#[test]
fn usage_profile_counts_system_instruction_text() {
    let mut output = ModelOutput {
        text: "done".to_string(),
        tokens_in: None,
        tokens_out: None,
        cached: false,
        provider: "null".to_string(),
        provider_model: "null".to_string(),
        latency_ms: 0,
        finish_reason: None,
    };
    let system = Some("system instruction".to_string());
    let (tokens_in, tokens_out, total) = usage_profile(&output, "prompt", &system);
    assert_eq!(tokens_out, Some(estimate_tokens("done")));
    let expected_in = estimate_tokens_from_len("prompt".len() + "system instruction".len());
    assert_eq!(tokens_in, Some(expected_in));
    assert_eq!(total, expected_in + tokens_out.unwrap());
    output.tokens_in = Some(42);
    let (tokens_in, _, _) = usage_profile(&output, "prompt", &system);
    assert_eq!(tokens_in, Some(42));
}

#[test]
fn broker_routes_requests_to_gemini_provider() {
    let cfg = BrokerConfig {
        providers: vec![provider_config("gemini", ProviderKind::HttpGemini, Some("gemini_api"))],
        route: vec![route("gemini-*", "gemini")],
        cache: BrokerCacheConfig::default(),
        budgets: ModelBudgets::default(),
    };
    let mut broker = Broker::new(&cfg).expect("broker init");
    let req = ModelRequest {
        model: "gemini-1.5-flash".to_string(),
        role_system: Some("stay concise".to_string()),
        budget_tokens: Some(2_000),
        timeout_ms: Some(500),
        ..request()
    };
    let plan = match broker.begin(&req, 0) {
        Start::Call(plan) => plan,
        _ => panic!("no call"),
    };
    let provider = broker.provider(&plan.provider).expect("provider");
    let made = call(provider, &req, &plan.model, "test-key", &no_hints());
    assert!(made.url.ends_with("/v1beta/models/gemini-1.5-flash:generateContent"));
    let reply = GeminiResponse {
        candidates: vec![GeminiCandidate {
            parts: Some(vec![Some("r1".to_string()), Some(" r2".to_string())]),
            finish_reason: Some("STOP".to_string()),
        }],
        usage_metadata: None,
        model_version: None,
        block_reason: None,
    };
    let done = read_gemini(&reply, &plan.model).expect("completion");
    let output = broker.finish(&req, plan, CallOutcome::Done(done), 1, 0).expect("completion");
    assert_eq!(output.text, "r1 r2");
    assert_eq!(output.provider, "gemini");
}

#[test]
fn unrouted_models_are_refused() {
    let cfg = BrokerConfig { route: vec![route("gpt*", "null")], ..broker_config() };
    let mut broker = Broker::new(&cfg).expect("broker init");
    assert!(complete(&mut broker, &request(), 0).is_err());
    assert!(route_matches("gpt*", "gpt-4"));
    assert!(!route_matches("gpt*", "xgpt"));
    assert!(route_matches("a", "a"));
}

fn refused(config: BrokerConfig) -> BrokerInitError {
    match Broker::new(&config) {
        Ok(_) => panic!("expected broker init to fail"),
        Err(e) => e,
    }
}

#[test]
fn http_provider_missing_base_url_fails() {
    let mut bare = provider_config("http", ProviderKind::Http, None);
    bare.base_url = None;
    let cfg = BrokerConfig { providers: vec![bare], route: vec![route("*", "http")], ..broker_config() };
    let err = refused(cfg);
    assert!(matches!(err, BrokerInitError::MissingBaseUrl { .. }));
    assert_eq!(err.message(), "http provider 'http' missing base_url");
}

#[test]
fn bad_settings_are_refused() {
    let local = || provider_config("p", ProviderKind::Local, None);
    let twice = BrokerConfig { providers: vec![local(), local()], ..broker_config() };
    assert_eq!(refused(twice).message(), "duplicate provider id 'p'");
    let lost = BrokerConfig { route: vec![route("x", "nobody")], ..broker_config() };
    assert_eq!(refused(lost).message(), "route 'x' references unknown provider 'nobody'");
    let mut odd = provider_config("h", ProviderKind::Http, None);
    odd.schema = Some("soap".to_string());
    let schema = BrokerConfig { providers: vec![odd], ..broker_config() };
    assert_eq!(refused(schema).message(), "unsupported provider schema 'soap' for 'h'");
    let mut named = provider_config("h", ProviderKind::Http, None);
    named.headers = vec![("bad name".to_string(), "v".to_string())];
    let names = BrokerConfig { providers: vec![named], ..broker_config() };
    assert_eq!(refused(names).message(), "invalid header name 'bad name' for provider 'h'");
    let mut valued = provider_config("h", ProviderKind::Http, None);
    valued.headers = vec![("x-a".to_string(), "\n".to_string())];
    let values = BrokerConfig { providers: vec![valued], ..broker_config() };
    assert_eq!(refused(values).message(), "invalid header value for 'x-a' on provider 'h'");
}

#[test]
fn secrets_are_needed_where_they_are_named() {
    let provider =
        build_provider(&provider_config("openai", ProviderKind::HttpOpenAiChat, Some("k"))).expect("provider");
    assert!(resolve_secret(&provider, &NoopSecretResolver).is_err());
    assert_eq!(resolve_secret(&provider, &MapSecrets("k".to_string(), "v".to_string())).unwrap(), "v");
}

#[test]
fn faults_are_told() {
    let told = |e: BrokerError| (e.message(), e.metric_label());
    assert_eq!(told(BrokerError::StreamingUnsupported).0, "streaming unsupported");
    assert_eq!(told(BrokerError::BudgetExceeded { limit: 1, used: 2 }).0, "budget exceeded (limit=1, used=2)");
    assert_eq!(told(BrokerError::Timeout { timeout_ms: 4 }), ("timeout after 4ms".to_string(), "timeout"));
    let fault = BrokerError::ProviderFault { code: "c".to_string(), message: "m".to_string() };
    assert_eq!(told(fault), ("provider fault: c m".to_string(), "provider_fault"));
    assert_eq!(told(BrokerError::InvalidRequest { reason: "r".to_string() }).0, "invalid request: r");
    assert_eq!(told(BrokerError::Cancelled).0, "cancelled");
    assert_eq!(told(BrokerError::OutputTooLarge { cap: 3 }).0, "output too large (cap=3)");
    assert!(matches!(http_status_error(500, Some("b".to_string())), BrokerError::ProviderFault { .. }));
}

#[test]
fn budgets_are_bounded_by_the_cap() {
    let limits = BudgetLimits::new(100, 50);
    assert_eq!(limits.effective_limit(None), Some(50));
    assert_eq!(limits.effective_limit(Some(20)), Some(20));
    assert_eq!(limits.effective_limit(Some(80)), Some(50));
    assert!(limits.enforce(Some(20), 20).is_ok());
    assert!(limits.enforce(Some(20), 21).is_err());
    assert_eq!(BudgetLimits::new(0, 0).effective_limit(None), None);
}

#[test]
fn tokens_are_estimated() {
    assert_eq!(estimate_tokens_from_len(0), estimate_tokens(""));
    assert_eq!(estimate_tokens_from_len(9), 3);
    assert_eq!(estimate_tokens("abcd"), 1);
}

#[test]
fn keys_tell_requests_apart() {
    let key = |r: &ModelRequest| compose_cache_key("p", "m", r);
    assert_eq!(key(&request()), key(&request()));
    let other = ModelRequest { prompt: "x".to_string(), ..request() };
    assert_ne!(key(&request()), key(&other));
    let tuned = ModelRequest { params: params("0.1", 1, "s"), ..request() };
    assert_ne!(key(&request()), key(&tuned));
}

#[test]
fn caches_forget() {
    let mut broker = Broker::new(&broker_config()).expect("broker init");
    let out = complete(&mut broker, &request(), 0).expect("output");
    let mut cache = BrokerCache::new(10, 1);
    assert_eq!(cache.default_ttl_ms(), 10);
    cache.keep("a".to_string(), &out, 10, 0);
    assert!(cache.check("a", 1).is_some());
    cache.keep("b".to_string(), &out, 10, 0);
    assert!(cache.check("a", 1).is_none());
    assert!(cache.check("b", 10_000_000).is_none());
}

#[test]
fn gemini_paths_and_hints_are_checked() {
    assert_eq!(gemini_model_path("models/x"), gemini_model_path("models/x"));
    assert!(gemini_hints(None).unwrap().safety_settings.is_none());
    assert!(matches!(gemini_hints(Some(Err("e".to_string()))), Err(BrokerError::InvalidRequest { .. })));
    assert!(gemini_extras(&None).unwrap().is_none());
}

#[test]
fn kept_answers_outlive_other_calls() {
    let mut broker = Broker::new(&broker_config()).expect("broker init");
    let req = ModelRequest { cache_ttl_ms: Some(30_000), ..request() };
    let first = complete(&mut broker, &req, 0).expect("first");
    let other = ModelRequest { prompt: "other".to_string(), cache_ttl_ms: Some(30_000), ..request() };
    complete(&mut broker, &other, 1).expect("other");
    let before = broker.stats();
    let again = complete(&mut broker, &req, 2).expect("again");
    assert!(again.cached && !first.cached);
    assert_eq!((&again.text, again.tokens_in, again.tokens_out), (&first.text, first.tokens_in, first.tokens_out));
    assert_eq!((&again.provider, &again.provider_model, again.latency_ms), (&first.provider, &first.provider_model, first.latency_ms));
    assert_eq!(broker.stats().cache_hits, before.cache_hits + 1);
}

#[test]
fn refused_answers_leave_nothing_behind() {
    let mut broker = Broker::new(&broker_config()).expect("broker init");
    let tight = ModelRequest { budget_tokens: Some(1), cache_ttl_ms: Some(30_000), prompt: "a rather long prompt".to_string(), ..request() };
    match complete(&mut broker, &tight, 0) {
        Err(BrokerError::BudgetExceeded { limit, used }) => assert!(limit == 1 && used > limit),
        other => panic!("unexpected {other:?}"),
    }
    let stats = broker.stats();
    assert_eq!((stats.calls, stats.cache_hits, stats.tokens_prompt, stats.tokens_completion), (1, 0, 0, 0));
    let wide = ModelRequest { budget_tokens: Some(500), ..tight };
    assert!(!complete(&mut broker, &wide, 1).expect("enough").cached);
}

#[test]
fn header_names_are_tokens() {
    let with = |name: &str| {
        let mut cfg = provider_config("p", ProviderKind::HttpOpenAiChat, None);
        cfg.headers = vec![(name.to_string(), "v".to_string())];
        build_provider(&cfg).is_ok()
    };
    assert!(with("X-Own_Header~1"));
    assert!(!with(""));
    assert!(!with("two words"));
    assert!(!with("a:b"));
    assert!(!with("caf\u{e9}"));
}
