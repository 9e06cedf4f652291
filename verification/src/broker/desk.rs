//! The broker's decisions: who answers a request, what it may cost, what is kept.

use crate::broker::cache::{
    found, kept, touched, BrokerCache, CacheModel, KeptEntries, KeptModel,
};
use crate::broker::types::{
    params_text, BrokerError, BrokerFault, CompletionModel, ModelOutput, ModelRequest, OutputModel,
    ProviderCompletion, RequestModel,
};
use crate::bus::dedupe::{
    holds_key, keys_once, lemma_not_held, lemma_place, place_of_key, taking_back_frees_the_key, with_put,
    without,
};
use crate::config::routes::{route_models, ModelRoute, RouteModel};
use crate::config::settings::{BrokerConfig, ModelProvider, ProviderKind};
use crate::digest::{blake3_hex, blake3_hex_of, push_text, utf8};
use crate::json::{compact, json_text};
use crate::text::{
    concat3, copy_opt, has_prefix, has_suffix, lower, opt_text, same, same_ignoring_case,
    starts_with, strip_suffix,
};
use vstd::prelude::*;

verus! {

/// A provider as the broker knows it.
#[derive(Debug)]
pub struct Provider {
    pub id: String,
    pub kind: ProviderKind,
    pub base_url: String,
    pub secret_id: Option<String>,
    pub headers: Vec<(String, String)>,
}

pub type HeaderModels = Seq<(Seq<char>, Seq<char>)>;

pub ghost struct ProviderModel {
    pub id: Seq<char>,
    pub kind: ProviderKind,
    pub base_url: Seq<char>,
    pub secret_id: Option<Seq<char>>,
    pub headers: HeaderModels,
}

pub open spec fn header_models(s: Seq<(String, String)>) -> HeaderModels {
    s.map_values(|p: (String, String)| (p.0@, p.1@))
}

impl Provider {
    pub open spec fn view(self) -> ProviderModel {
        ProviderModel {
            id: self.id@,
            kind: self.kind,
            base_url: self.base_url@,
            secret_id: opt_text(self.secret_id),
            headers: header_models(self.headers@),
        }
    }
}

pub open spec fn provider_models(s: Seq<Provider>) -> Seq<ProviderModel> {
    s.map_values(|p: Provider| p@)
}

#[allow(inconsistent_fields)]
#[derive(Debug)]
pub enum BrokerInitError {
    DuplicateProvider(String),
    MissingBaseUrl { id: String },
    UnsupportedSchema { id: String, schema: String },
    InvalidHeaderName { id: String, header: String },
    InvalidHeaderValue { id: String, header: String },
    UnknownProvider { pattern: String, provider: String },
}

pub ghost enum InitFault {
    DuplicateProvider(Seq<char>),
    MissingBaseUrl(Seq<char>),
    UnsupportedSchema(Seq<char>, Seq<char>),
    InvalidHeaderName(Seq<char>, Seq<char>),
    InvalidHeaderValue(Seq<char>, Seq<char>),
    UnknownProvider(Seq<char>, Seq<char>),
}

pub open spec fn init_text(f: InitFault) -> Seq<char> {
    match f {
        InitFault::DuplicateProvider(id) => "duplicate provider id '"@ + id + "'"@,
        InitFault::MissingBaseUrl(id) => "http provider '"@ + id + "' missing base_url"@,
        InitFault::UnsupportedSchema(id, schema) => "unsupported provider schema '"@ + schema
            + "' for '"@ + id + "'"@,
        InitFault::InvalidHeaderName(id, header) => "invalid header name '"@ + header
            + "' for provider '"@ + id + "'"@,
        InitFault::InvalidHeaderValue(id, header) => "invalid header value for '"@ + header
            + "' on provider '"@ + id + "'"@,
        InitFault::UnknownProvider(pattern, provider) => "route '"@ + pattern
            + "' references unknown provider '"@ + provider + "'"@,
    }
}

impl BrokerInitError {
    pub open spec fn view(self) -> InitFault {
        match self {
            BrokerInitError::DuplicateProvider(id) => InitFault::DuplicateProvider(id@),
            BrokerInitError::MissingBaseUrl { id } => InitFault::MissingBaseUrl(id@),
            BrokerInitError::UnsupportedSchema { id, schema } => InitFault::UnsupportedSchema(
                id@,
                schema@,
            ),
            BrokerInitError::InvalidHeaderName { id, header } => InitFault::InvalidHeaderName(
                id@,
                header@,
            ),
            BrokerInitError::InvalidHeaderValue { id, header } => InitFault::InvalidHeaderValue(
                id@,
                header@,
            ),
            BrokerInitError::UnknownProvider { pattern, provider } => InitFault::UnknownProvider(
                pattern@,
                provider@,
            ),
        }
    }

    pub fn message(&self) -> (r: String)
        ensures
            r@ == init_text(self@),
    {
        match self {
            BrokerInitError::DuplicateProvider(id) => concat3(
                "duplicate provider id '",
                id.as_str(),
                "'",
            ),
            BrokerInitError::MissingBaseUrl { id } => concat3(
                "http provider '",
                id.as_str(),
                "' missing base_url",
            ),
            BrokerInitError::UnsupportedSchema { id, schema } => two_quoted(
                "unsupported provider schema '",
                schema.as_str(),
                "' for '",
                id.as_str(),
            ),
            BrokerInitError::InvalidHeaderName { id, header } => two_quoted(
                "invalid header name '",
                header.as_str(),
                "' for provider '",
                id.as_str(),
            ),
            BrokerInitError::InvalidHeaderValue { id, header } => two_quoted(
                "invalid header value for '",
                header.as_str(),
                "' on provider '",
                id.as_str(),
            ),
            BrokerInitError::UnknownProvider { pattern, provider } => two_quoted(
                "route '",
                pattern.as_str(),
                "' references unknown provider '",
                provider.as_str(),
            ),
        }
    }
}

fn two_quoted(a: &str, x: &str, b: &str, y: &str) -> (r: String)
    ensures
        r@ == a@ + x@ + b@ + y@ + "'"@,
{
    let mut m = concat3(a, x, b);
    m.append(y);
    m.append("'");
    m
}

/// Whether a byte may stand in a header's name: a letter, a figure, or one of a few signs.
pub open spec fn is_name_byte(b: u8) -> bool {
    ||| 48 <= b <= 57
    ||| 65 <= b <= 90
    ||| 94 <= b <= 122
    ||| 35 <= b <= 39
    ||| b == 33 || b == 42 || b == 43 || b == 45 || b == 46 || b == 124 || b == 126
}

/// Whether the bytes are a header's name: not too many, at least one, and each may stand there.
pub open spec fn is_header_name(bytes: Seq<u8>) -> bool {
    &&& 0 < bytes.len() <= 65_535
    &&& forall|i: int| 0 <= i < bytes.len() ==> is_name_byte(#[trigger] bytes[i])
}

/// `reqwest::header::HeaderName::try_from` on a text takes it if it has between one and 65535 bytes
/// and all of them may stand in a header's name.
#[verifier::external_body]
fn accepts_header_name(name: &str) -> (r: bool)
    ensures
        r == is_header_name(utf8(name@)),
{
    reqwest::header::HeaderName::try_from(name).is_ok()
}

/// Whether every byte may stand in a header's value: a tab, or no control character.
pub open spec fn is_header_value(bytes: Seq<u8>) -> bool {
    forall|i: int| 0 <= i < bytes.len() ==> (#[trigger] bytes[i] >= 32 && bytes[i] != 127) || bytes[i] == 9
}

/// `reqwest::header::HeaderValue::try_from` on a text takes it if no byte of it is a control
/// character other than a tab.
#[verifier::external_body]
fn accepts_header_value(value: &str) -> (r: bool)
    ensures
        r == is_header_value(utf8(value@)),
{
    reqwest::header::HeaderValue::try_from(value).is_ok()
}

/// The first header that is not taken.
pub open spec fn header_fault(id: Seq<char>, h: HeaderModels) -> Option<InitFault>
    decreases h.len(),
{
    if h.len() == 0 {
        None
    } else if !is_header_name(utf8(h[0].0)) {
        Some(InitFault::InvalidHeaderName(id, h[0].0))
    } else if !is_header_value(utf8(h[0].1)) {
        Some(InitFault::InvalidHeaderValue(id, h[0].0))
    } else {
        header_fault(id, h.skip(1))
    }
}

fn check_headers(id: &str, headers: &Vec<(String, String)>) -> (r: Option<BrokerInitError>)
    ensures
        match r {
            Some(e) => header_fault(id@, header_models(headers@)) == Some(e@),
            None => header_fault(id@, header_models(headers@)) is None,
        },
{
    let ghost all = header_models(headers@);
    let mut i: usize = 0;
    assert(all.skip(0) =~= all);
    while i < headers.len()
        invariant
            i <= headers.len(),
            all == header_models(headers@),
            header_fault(id@, all) == header_fault(id@, all.skip(i as int)),
        decreases headers.len() - i,
    {
        assert(all.skip(i as int)[0] == (headers@[i as int].0@, headers@[i as int].1@));
        assert(all.skip(i as int).skip(1) =~= all.skip(i + 1));
        if !accepts_header_name(headers[i].0.as_str()) {
            return Some(
                BrokerInitError::InvalidHeaderName {
                    id: id.to_owned(),
                    header: headers[i].0.clone(),
                },
            );
        }
        if !accepts_header_value(headers[i].1.as_str()) {
            return Some(
                BrokerInitError::InvalidHeaderValue {
                    id: id.to_owned(),
                    header: headers[i].0.clone(),
                },
            );
        }
        i += 1;
    }
    None
}

/// Headers without those of a name, whatever its case.
pub open spec fn headers_without(h: HeaderModels, name: Seq<char>) -> HeaderModels
    decreases h.len(),
{
    if h.len() == 0 {
        h
    } else if lower(h.last().0) == lower(name) {
        headers_without(h.drop_last(), name)
    } else {
        headers_without(h.drop_last(), name).push(h.last())
    }
}

/// The headers that a provider is sent beside those of a request.
pub open spec fn standing_headers(kind: ProviderKind, h: HeaderModels) -> HeaderModels {
    match kind {
        ProviderKind::HttpAnthropic => headers_without(h, "anthropic-version"@).push(
            ("anthropic-version"@, "2023-06-01"@),
        ),
        ProviderKind::HttpOllama => HeaderModels::empty(),
        _ => h,
    }
}

fn keep_headers(kind: ProviderKind, headers: &Vec<(String, String)>) -> (r: Vec<(String, String)>)
    ensures
        header_models(r@) == standing_headers(kind, header_models(headers@)),
{
    let ghost all = header_models(headers@);
    let mut out: Vec<(String, String)> = Vec::new();
    match kind {
        ProviderKind::HttpOllama => {
            assert(header_models(out@) =~= HeaderModels::empty());
            return out;
        },
        _ => {},
    }
    let anthropic = match kind {
        ProviderKind::HttpAnthropic => true,
        _ => false,
    };
    let mut i: usize = 0;
    assert(header_models(out@) =~= all.take(0));
    while i < headers.len()
        invariant
            i <= headers.len(),
            all == header_models(headers@),
            header_models(out@) == if anthropic {
                headers_without(all.take(i as int), "anthropic-version"@)
            } else {
                all.take(i as int)
            },
        decreases headers.len() - i,
    {
        let ghost o = out@;
        assert(all.take(i + 1).drop_last() =~= all.take(i as int));
        assert(all.take(i + 1) =~= all.take(i as int).push(all[i as int]));
        let dropped = anthropic && same_ignoring_case(headers[i].0.as_str(), "anthropic-version");
        if !dropped {
            let h = (headers[i].0.clone(), headers[i].1.clone());
            out.push(h);
            assert(header_models(out@) =~= header_models(o).push(all[i as int]));
        }
        i += 1;
    }
    assert(all.take(all.len() as int) =~= all);
    if anthropic {
        let ghost o = out@;
        let h = ("anthropic-version".to_owned(), "2023-06-01".to_owned());
        out.push(h);
        assert(header_models(out@) =~= header_models(o).push(
            ("anthropic-version"@, "2023-06-01"@),
        ));
    }
    out
}

/// The provider that its settings describe.
pub open spec fn built(c: ModelProvider) -> Result<ProviderModel, InitFault> {
    let headers = header_models(c.headers@);
    if c.kind == ProviderKind::Local {
        Ok(
            ProviderModel {
                id: c.id@,
                kind: c.kind,
                base_url: ""@,
                secret_id: None,
                headers: HeaderModels::empty(),
            },
        )
    } else if c.base_url is None {
        Err(InitFault::MissingBaseUrl(c.id@))
    } else if c.kind == ProviderKind::Http && c.schema is Some && c.schema->0@
        != "openai-completions"@ {
        Err(InitFault::UnsupportedSchema(c.id@, c.schema->0@))
    } else if c.kind != ProviderKind::HttpOllama && header_fault(c.id@, headers) is Some {
        Err(header_fault(c.id@, headers)->0)
    } else {
        Ok(
            ProviderModel {
                id: c.id@,
                kind: c.kind,
                base_url: c.base_url->0@,
                secret_id: if c.kind == ProviderKind::HttpOllama {
                    None
                } else {
                    opt_text(c.secret_id)
                },
                headers: standing_headers(c.kind, headers),
            },
        )
    }
}

pub fn build_provider(c: &ModelProvider) -> (r: Result<Provider, BrokerInitError>)
    ensures
        match (r, built(*c)) {
            (Ok(p), Ok(m)) => p@ == m,
            (Err(e), Err(f)) => e@ == f,
            _ => false,
        },
{
    if c.kind == ProviderKind::Local {
        return Ok(null_provider(c.id.as_str()));
    }
    let base_url = match &c.base_url {
        Some(u) => u.clone(),
        None => {
            return Err(BrokerInitError::MissingBaseUrl { id: c.id.clone() });
        },
    };
    if c.kind == ProviderKind::Http {
        match &c.schema {
            Some(s) => {
                if !same(s.as_str(), "openai-completions") {
                    return Err(
                        BrokerInitError::UnsupportedSchema { id: c.id.clone(), schema: s.clone() },
                    );
                }
            },
            None => {},
        }
    }
    if c.kind != ProviderKind::HttpOllama {
        match check_headers(c.id.as_str(), &c.headers) {
            Some(e) => {
                return Err(e);
            },
            None => {},
        }
    }
    Ok(
        Provider {
            id: c.id.clone(),
            kind: c.kind,
            base_url,
            secret_id: if c.kind == ProviderKind::HttpOllama {
                None
            } else {
                copy_opt(&c.secret_id)
            },
            headers: keep_headers(c.kind, &c.headers),
        },
    )
}

/// The provider that gives every prompt back.
pub open spec fn echo_model(id: Seq<char>) -> ProviderModel {
    ProviderModel {
        id,
        kind: ProviderKind::Local,
        base_url: ""@,
        secret_id: None,
        headers: HeaderModels::empty(),
    }
}

fn null_provider(id: &str) -> (r: Provider)
    ensures
        r@ == echo_model(id@),
{
    let r = Provider {
        id: id.to_owned(),
        kind: ProviderKind::Local,
        base_url: "".to_owned(),
        secret_id: None,
        headers: Vec::new(),
    };
    assert(r@.headers =~= HeaderModels::empty());
    r
}

/// The provider of a name.
pub open spec fn provider_named(s: Seq<ProviderModel>, id: Seq<char>) -> Option<ProviderModel>
    decreases s.len(),
{
    if s.len() == 0 {
        None
    } else if s[0].id == id {
        Some(s[0])
    } else {
        provider_named(s.skip(1), id)
    }
}

fn find_provider(s: &Vec<Provider>, id: &str) -> (r: Option<usize>)
    ensures
        match r {
            Some(i) => i < s.len() && provider_named(provider_models(s@), id@) == Some(s@[i as int]@)
                && s@[i as int].id@ == id@,
            None => provider_named(provider_models(s@), id@) is None,
        },
{
    let ghost all = provider_models(s@);
    let mut i: usize = 0;
    assert(all.skip(0) =~= all);
    while i < s.len()
        invariant
            i <= s.len(),
            all == provider_models(s@),
            provider_named(all, id@) == provider_named(all.skip(i as int), id@),
        decreases s.len() - i,
    {
        assert(all.skip(i as int)[0] == s@[i as int]@);
        assert(all.skip(i as int).skip(1) =~= all.skip(i + 1));
        if same(s[i].id.as_str(), id) {
            return Some(i);
        }
        i += 1;
    }
    None
}

/// The providers that the first `n` settings describe.
pub open spec fn providers_upto(c: Seq<ModelProvider>, n: nat) -> Result<
    Seq<ProviderModel>,
    InitFault,
>
    decreases n,
{
    if n == 0 {
        Ok(seq![])
    } else {
        match providers_upto(c, (n - 1) as nat) {
            Err(f) => Err(f),
            Ok(s) => if provider_named(s, c[n - 1].id@) is Some {
                Err(InitFault::DuplicateProvider(c[n - 1].id@))
            } else {
                match built(c[n - 1]) {
                    Ok(p) => Ok(s.push(p)),
                    Err(f) => Err(f),
                }
            },
        }
    }
}

proof fn lemma_providers_stop(c: Seq<ModelProvider>, i: nat, n: nat)
    requires
        providers_upto(c, i) is Err,
        i <= n,
    ensures
        providers_upto(c, n) == providers_upto(c, i),
    decreases n,
{
    if i < n {
        lemma_providers_stop(c, i, (n - 1) as nat);
    }
}

/// A provider of its own for a name that no other has.
pub open spec fn with_echo(s: Seq<ProviderModel>, id: Seq<char>) -> Seq<ProviderModel> {
    if provider_named(s, id) is Some {
        s
    } else {
        s.push(echo_model(id))
    }
}

/// The first route that names a provider that is not there.
pub open spec fn route_fault(routes: Seq<RouteModel>, providers: Seq<ProviderModel>) -> Option<
    InitFault,
>
    decreases routes.len(),
{
    if routes.len() == 0 {
        None
    } else if provider_named(providers, routes[0].provider) is None {
        Some(InitFault::UnknownProvider(routes[0].pattern, routes[0].provider))
    } else {
        route_fault(routes.skip(1), providers)
    }
}

/// Where no route is given, every model is echoed.
pub open spec fn working_routes(routes: Seq<RouteModel>) -> Seq<RouteModel> {
    if routes.len() == 0 {
        seq![RouteModel { pattern: "*"@, provider: "null"@, target_model: None }]
    } else {
        routes
    }
}

#[derive(Clone, Copy, Debug, PartialEq, Eq, Structural)]
pub struct BrokerStats {
    pub calls: u64,
    pub cache_hits: u64,
    pub tokens_prompt: u64,
    pub tokens_completion: u64,
}

/// The limits on what a request may cost; zero is no limit.
#[derive(Clone, Copy, Debug, PartialEq, Eq, Structural)]
pub struct BudgetLimits {
    pub default_tokens: Option<u32>,
    pub per_request_cap: Option<u32>,
}

pub open spec fn no_zero(n: Option<u32>) -> Option<u32> {
    match n {
        Some(v) => if v > 0 {
            Some(v)
        } else {
            None
        },
        None => None,
    }
}

fn drop_zero(n: Option<u32>) -> (r: Option<u32>)
    ensures
        r == no_zero(n),
{
    match n {
        Some(v) => if v > 0 {
            Some(v)
        } else {
            None
        },
        None => None,
    }
}

/// The limit for a request: its own or the default, no more than the cap.
pub open spec fn limit_of(b: BudgetLimits, asked: Option<u32>) -> Option<u32> {
    let wanted = if asked is Some {
        asked
    } else {
        b.default_tokens
    };
    match (wanted, b.per_request_cap) {
        (Some(w), Some(cap)) => no_zero(
            Some(
                if w <= cap {
                    w
                } else {
                    cap
                },
            ),
        ),
        _ => no_zero(wanted),
    }
}

/// What is wrong with a cost.
pub open spec fn budget_fault(b: BudgetLimits, asked: Option<u32>, used: u32) -> Option<BrokerFault> {
    match limit_of(b, asked) {
        Some(limit) => if used > limit {
            Some(BrokerFault::BudgetExceeded(limit, used))
        } else {
            None
        },
        None => None,
    }
}

impl BudgetLimits {
    pub fn new(default_tokens: u32, per_request_tokens_cap: u32) -> (r: Self)
        ensures
            r.default_tokens == no_zero(Some(default_tokens)),
            r.per_request_cap == no_zero(Some(per_request_tokens_cap)),
    {
        BudgetLimits {
            default_tokens: drop_zero(Some(default_tokens)),
            per_request_cap: drop_zero(Some(per_request_tokens_cap)),
        }
    }

    pub fn effective_limit(&self, asked: Option<u32>) -> (r: Option<u32>)
        ensures
            r == limit_of(*self, asked),
    {
        let wanted = match asked {
            Some(n) => Some(n),
            None => self.default_tokens,
        };
        match (wanted, self.per_request_cap) {
            (Some(w), Some(cap)) => drop_zero(
                Some(
                    if w <= cap {
                        w
                    } else {
                        cap
                    },
                ),
            ),
            _ => drop_zero(wanted),
        }
    }

    pub fn enforce(&self, asked: Option<u32>, total_tokens: u32) -> (r: Result<(), BrokerError>)
        ensures
            match r {
                Ok(_) => budget_fault(*self, asked, total_tokens) is None,
                Err(e) => budget_fault(*self, asked, total_tokens) == Some(e@),
            },
    {
        match self.effective_limit(asked) {
            Some(limit) => if total_tokens > limit {
                Err(BrokerError::BudgetExceeded { limit, used: total_tokens })
            } else {
                Ok(())
            },
            None => Ok(()),
        }
    }
}

/// About how many tokens some bytes are: one for each four, in 32 bits.
pub open spec fn tokens_for(bytes: nat) -> u32 {
    ((bytes + 3) / 4 % 0x1_0000_0000) as u32
}

fn tokens_for_len(a: usize, b: usize) -> (r: u32)
    ensures
        r == tokens_for((a + b) as nat),
{
    ((a as u128 + b as u128 + 3) / 4 % 0x1_0000_0000) as u32
}

pub fn estimate_tokens_from_len(len: usize) -> (r: u32)
    ensures
        r == tokens_for(len as nat),
{
    tokens_for_len(len, 0)
}

pub fn estimate_tokens(text: &str) -> (r: u32)
    ensures
        r == tokens_for(utf8(text@).len()),
{
    estimate_tokens_from_len(text.as_bytes().len())
}

pub open spec fn text_len(t: Option<Seq<char>>) -> nat {
    match t {
        Some(s) => utf8(s).len(),
        None => 0,
    }
}

pub open spec fn capped_sum(a: u32, b: u32) -> u32 {
    if a + b > u32::MAX {
        u32::MAX
    } else {
        (a + b) as u32
    }
}

/// What an answer cost: what the provider counted, or else an estimate.
pub open spec fn usage(o: OutputModel, prompt: Seq<char>, system: Option<Seq<char>>) -> (u32, u32) {
    (
        match o.tokens_in {
            Some(n) => n,
            None => tokens_for(utf8(prompt).len() + text_len(system)),
        },
        match o.tokens_out {
            Some(n) => n,
            None => tokens_for(utf8(o.text).len()),
        },
    )
}

pub fn usage_profile(output: &ModelOutput, prompt: &str, system: &Option<String>) -> (r: (
    Option<u32>,
    Option<u32>,
    u32,
))
    ensures
        r.0 == Some(usage(output@, prompt@, opt_text(*system)).0),
        r.1 == Some(usage(output@, prompt@, opt_text(*system)).1),
        r.2 == capped_sum(
            usage(output@, prompt@, opt_text(*system)).0,
            usage(output@, prompt@, opt_text(*system)).1,
        ),
{
    let system_len: usize = match system {
        Some(s) => s.as_str().as_bytes().len(),
        None => 0,
    };
    let tokens_in = match output.tokens_in {
        Some(n) => n,
        None => tokens_for_len(prompt.as_bytes().len(), system_len),
    };
    let tokens_out = match output.tokens_out {
        Some(n) => n,
        None => estimate_tokens(output.text.as_str()),
    };
    (Some(tokens_in), Some(tokens_out), tokens_in.saturating_add(tokens_out))
}

/// Whether a pattern covers a model: all of them, those that start so, or the one.
pub open spec fn covers(pattern: Seq<char>, model: Seq<char>) -> bool {
    if pattern == "*"@ {
        true
    } else if pattern.len() > 0 && pattern.last() == '*' {
        has_prefix(model, pattern.drop_last())
    } else {
        pattern == model
    }
}

pub fn route_matches(pattern: &str, model: &str) -> (r: bool)
    ensures
        r == covers(pattern@, model@),
{
    if same(pattern, "*") {
        return true;
    }
    proof {
        reveal_strlit("*");
        if pattern@.len() > 0 && pattern@.last() == '*' {
            assert(pattern@.skip(pattern@.len() - 1) =~= "*"@);
            assert(pattern@.take(pattern@.len() - 1) =~= pattern@.drop_last());
        }
        if has_suffix(pattern@, "*"@) {
            assert(pattern@.skip(pattern@.len() - 1)[0] == pattern@.last());
            assert(pattern@.take(pattern@.len() - 1) =~= pattern@.drop_last());
        }
    }
    match strip_suffix(pattern, "*") {
        Some(prefix) => starts_with(model, prefix.as_str()),
        None => same(pattern, model),
    }
}

/// The first route that covers a model.
pub open spec fn first_route(routes: Seq<RouteModel>, model: Seq<char>) -> Option<RouteModel>
    decreases routes.len(),
{
    if routes.len() == 0 {
        None
    } else if covers(routes[0].pattern, model) {
        Some(routes[0])
    } else {
        first_route(routes.skip(1), model)
    }
}

/// What is hashed for a request: who is asked for what, and with which words.
pub open spec fn key_bytes(provider: Seq<char>, model: Seq<char>, r: RequestModel) -> Seq<u8> {
    utf8(provider) + utf8(model) + utf8(r.prompt) + match r.role_system {
        Some(s) => utf8(s),
        None => seq![],
    } + match r.params {
        Some(p) => utf8(params_text(p)),
        None => seq![],
    } + match r.extras {
        Some(j) => utf8(json_text(j)),
        None => seq![],
    } + match r.cache_key {
        Some(k) => utf8(k),
        None => seq![],
    }
}

/// The key under which an answer is kept.
pub fn compose_cache_key(provider: &str, model: &str, request: &ModelRequest) -> (r: String)
    ensures
        r@ == blake3_hex(key_bytes(provider@, model@, request@)),
{
    let mut bytes: Vec<u8> = Vec::new();
    push_text(&mut bytes, provider);
    push_text(&mut bytes, model);
    push_text(&mut bytes, request.prompt.as_str());
    match &request.role_system {
        Some(s) => push_text(&mut bytes, s.as_str()),
        None => {},
    }
    match &request.params {
        Some(p) => push_text(&mut bytes, p.json_text().as_str()),
        None => {},
    }
    match &request.extras {
        Some(j) => push_text(&mut bytes, compact(j).as_str()),
        None => {},
    }
    match &request.cache_key {
        Some(k) => push_text(&mut bytes, k.as_str()),
        None => {},
    }
    assert(bytes@ =~= key_bytes(provider@, model@, request@));
    blake3_hex_of(&bytes)
}

pub ghost struct BrokerModel {
    pub providers: Seq<ProviderModel>,
    pub routes: Seq<RouteModel>,
    pub cache: Option<CacheModel>,
    pub budgets: BudgetLimits,
    pub stats: BrokerStats,
}

/// A broker as it is set up.
pub open spec fn initial(c: BrokerConfig) -> Result<BrokerModel, InitFault> {
    match providers_upto(c.providers@, c.providers@.len()) {
        Err(f) => Err(f),
        Ok(s) => {
            let providers = with_echo(with_echo(s, "null"@), "local"@);
            let routes = route_models(c.route@);
            match route_fault(routes, providers) {
                Some(f) => Err(f),
                None => Ok(
                    BrokerModel {
                        providers,
                        routes: working_routes(routes),
                        cache: if c.cache.capacity == 0 || c.cache.ttl_ms == 0 {
                            None
                        } else {
                            Some(
                                CacheModel {
                                    default_ttl_ms: c.cache.ttl_ms,
                                    capacity: c.cache.capacity as nat,
                                    entries: seq![],
                                },
                            )
                        },
                        budgets: BudgetLimits {
                            default_tokens: no_zero(Some(c.budgets.default_tokens)),
                            per_request_cap: no_zero(Some(c.budgets.per_request_tokens_cap)),
                        },
                        stats: BrokerStats {
                            calls: 0,
                            cache_hits: 0,
                            tokens_prompt: 0,
                            tokens_completion: 0,
                        },
                    },
                ),
            }
        },
    }
}

pub struct Broker {
    providers: Vec<Provider>,
    routes: Vec<ModelRoute>,
    cache: Option<BrokerCache>,
    budgets: BudgetLimits,
    stats: BrokerStats,
}

/// A call that is to be made.
#[derive(Debug)]
pub struct CallPlan {
    pub provider: String,
    pub model: String,
    pub timeout_ms: Option<u32>,
    pub key: String,
    pub ttl_ms: Option<u64>,
}

pub ghost struct PlanModel {
    pub provider: Seq<char>,
    pub model: Seq<char>,
    pub timeout_ms: Option<u32>,
    pub key: Seq<char>,
    pub ttl_ms: Option<u64>,
}

impl CallPlan {
    pub open spec fn view(self) -> PlanModel {
        PlanModel {
            provider: self.provider@,
            model: self.model@,
            timeout_ms: self.timeout_ms,
            key: self.key@,
            ttl_ms: self.ttl_ms,
        }
    }
}

/// How a request starts.
#[derive(Debug)]
pub enum Start {
    Refused(BrokerError),
    Cached(ModelOutput),
    Call(CallPlan),
}

pub ghost enum StartModel {
    Refused(BrokerFault),
    Cached(OutputModel),
    Call(PlanModel),
}

impl Start {
    pub open spec fn view(self) -> StartModel {
        match self {
            Start::Refused(e) => StartModel::Refused(e@),
            Start::Cached(o) => StartModel::Cached(o@),
            Start::Call(p) => StartModel::Call(p@),
        }
    }
}

/// How long an answer is kept: as asked, or as the cache has it; zero is not at all.
pub open spec fn ttl_of(asked: Option<u32>, cache: Option<CacheModel>) -> Option<u64> {
    match asked {
        Some(n) => if n == 0 {
            None
        } else {
            Some(n as u64)
        },
        None => match cache {
            Some(c) => if c.default_ttl_ms == 0 {
                None
            } else {
                Some(c.default_ttl_ms)
            },
            None => None,
        },
    }
}

pub open spec fn summed(a: u64, b: u32) -> u64 {
    ((a + b) % 0x1_0000_0000_0000_0000) as u64
}

/// An answer with its cost, the counters with it, or the budget's complaint.
pub open spec fn charged(b: BrokerModel, r: RequestModel, o: OutputModel) -> (
    BrokerModel,
    Result<OutputModel, BrokerFault>,
) {
    let (tokens_in, tokens_out) = usage(o, r.prompt, r.role_system);
    match budget_fault(b.budgets, r.budget_tokens, capped_sum(tokens_in, tokens_out)) {
        Some(f) => (b, Err(f)),
        None => (
            BrokerModel {
                stats: BrokerStats {
                    tokens_prompt: summed(b.stats.tokens_prompt, tokens_in),
                    tokens_completion: summed(b.stats.tokens_completion, tokens_out),
                    ..b.stats
                },
                ..b
            },
            Ok(OutputModel { tokens_in: Some(tokens_in), tokens_out: Some(tokens_out), ..o }),
        ),
    }
}

/// The plan for a request.
pub open spec fn plan_of(b: BrokerModel, r: RequestModel, route: RouteModel) -> PlanModel {
    let model = match route.target_model {
        Some(m) => m,
        None => r.model,
    };
    PlanModel {
        provider: route.provider,
        model,
        timeout_ms: match r.timeout_ms {
            Some(0) => None,
            other => other,
        },
        key: blake3_hex(key_bytes(route.provider, model, r)),
        ttl_ms: ttl_of(r.cache_ttl_ms, b.cache),
    }
}

/// How a request starts: refused, answered from the cache, or with a call.
pub open spec fn started(b: BrokerModel, r: RequestModel, now_ns: u64) -> (BrokerModel, StartModel) {
    if r.stream {
        (b, StartModel::Refused(BrokerFault::StreamingUnsupported))
    } else {
        match first_route(b.routes, r.model) {
            None => (
                b,
                StartModel::Refused(
                    BrokerFault::InvalidRequest(
                        "no provider configured for model '"@ + r.model + "'"@,
                    ),
                ),
            ),
            Some(route) => if provider_named(b.providers, route.provider) is None {
                (
                    b,
                    StartModel::Refused(
                        BrokerFault::InvalidRequest(
                            "routing for model '"@ + r.model + "' references unknown provider '"@
                                + route.provider + "'"@,
                        ),
                    ),
                )
            } else {
                let plan = plan_of(b, r, route);
                let called = BrokerModel {
                    stats: BrokerStats { calls: summed(b.stats.calls, 1), ..b.stats },
                    ..b
                };
                match b.cache {
                    None => (called, StartModel::Call(plan)),
                    Some(c) => {
                        let (d, hit) = found(c, plan.key, now_ns);
                        let looked = BrokerModel { cache: Some(d), ..called };
                        match hit {
                            None => (looked, StartModel::Call(plan)),
                            Some(o) => {
                                let counted = BrokerModel {
                                    stats: BrokerStats {
                                        cache_hits: summed(b.stats.cache_hits, 1),
                                        ..called.stats
                                    },
                                    ..looked
                                };
                                match charged(counted, r, o) {
                                    (e, Ok(answer)) => (e, StartModel::Cached(answer)),
                                    (e, Err(f)) => (e, StartModel::Refused(f)),
                                }
                            },
                        }
                    },
                }
            },
        }
    }
}

/// What became of a call.
#[derive(Debug)]
pub enum CallOutcome {
    TimedOut,
    Failed(BrokerError),
    Done(ProviderCompletion),
}

pub ghost enum OutcomeModel {
    TimedOut,
    Failed(BrokerFault),
    Done(CompletionModel),
}

impl CallOutcome {
    pub open spec fn view(self) -> OutcomeModel {
        match self {
            CallOutcome::TimedOut => OutcomeModel::TimedOut,
            CallOutcome::Failed(e) => OutcomeModel::Failed(e@),
            CallOutcome::Done(c) => OutcomeModel::Done(c@),
        }
    }
}

pub open spec fn short_millis(ms: u128) -> u32 {
    if ms > u32::MAX {
        u32::MAX
    } else {
        ms as u32
    }
}

pub fn saturating_millis(ms: u128) -> (r: u32)
    ensures
        r == short_millis(ms),
{
    if ms > u32::MAX as u128 {
        u32::MAX
    } else {
        ms as u32
    }
}

/// The answer that a completion is.
pub open spec fn answer_of(p: PlanModel, c: CompletionModel, latency_ms: u128) -> OutputModel {
    OutputModel {
        text: c.text,
        tokens_in: c.tokens_in,
        tokens_out: c.tokens_out,
        cached: false,
        provider: p.provider,
        provider_model: if c.provider_model.len() == 0 {
            p.model
        } else {
            c.provider_model
        },
        latency_ms: short_millis(latency_ms),
        finish_reason: c.finish_reason,
    }
}

/// How a call ends: an answer within the budget, kept where that is asked for, or an error.
pub open spec fn ended(
    b: BrokerModel,
    r: RequestModel,
    p: PlanModel,
    outcome: OutcomeModel,
    latency_ms: u128,
    now_ns: u64,
) -> (BrokerModel, Result<OutputModel, BrokerFault>) {
    match outcome {
        OutcomeModel::TimedOut => (
            b,
            Err(
                BrokerFault::Timeout(
                    match p.timeout_ms {
                        Some(n) => n,
                        None => 0,
                    },
                ),
            ),
        ),
        OutcomeModel::Failed(f) => (b, Err(f)),
        OutcomeModel::Done(c) => match charged(b, r, answer_of(p, c, latency_ms)) {
            (e, Err(f)) => (e, Err(f)),
            (e, Ok(answer)) => (
                match (p.ttl_ms, e.cache) {
                    (Some(ttl), Some(cache)) => BrokerModel {
                        cache: Some(kept(cache, p.key, answer, ttl, now_ns)),
                        ..e
                    },
                    _ => e,
                },
                Ok(answer),
            ),
        },
    }
}

fn add_count(a: u64, b: u32) -> (r: u64)
    ensures
        r == summed(a, b),
{
    ((a as u128 + b as u128) % 0x1_0000_0000_0000_0000) as u64
}

fn build_all(cfgs: &Vec<ModelProvider>) -> (r: Result<Vec<Provider>, BrokerInitError>)
    ensures
        match (r, providers_upto(cfgs@, cfgs@.len())) {
            (Ok(v), Ok(s)) => provider_models(v@) == s,
            (Err(e), Err(f)) => e@ == f,
            _ => false,
        },
{
    let mut out: Vec<Provider> = Vec::new();
    assert(provider_models(out@) =~= seq![]);
    let mut i: usize = 0;
    while i < cfgs.len()
        invariant
            i <= cfgs.len(),
            providers_upto(cfgs@, i as nat) == Ok::<_, InitFault>(provider_models(out@)),
        decreases cfgs.len() - i,
    {
        let ghost o = out@;
        if find_provider(&out, cfgs[i].id.as_str()).is_some() {
            proof {
                lemma_providers_stop(cfgs@, (i + 1) as nat, cfgs@.len());
            }
            return Err(BrokerInitError::DuplicateProvider(cfgs[i].id.clone()));
        }
        match build_provider(&cfgs[i]) {
            Ok(p) => {
                out.push(p);
                assert(provider_models(out@) =~= provider_models(o).push(p@));
            },
            Err(e) => {
                proof {
                    lemma_providers_stop(cfgs@, (i + 1) as nat, cfgs@.len());
                }
                return Err(e);
            },
        }
        i += 1;
    }
    Ok(out)
}

fn add_echo(v: &mut Vec<Provider>, id: &str)
    ensures
        provider_models(final(v)@) == with_echo(provider_models(old(v)@), id@),
{
    let ghost o = v@;
    if find_provider(v, id).is_none() {
        let p = null_provider(id);
        v.push(p);
        assert(provider_models(v@) =~= provider_models(o).push(p@));
    }
}

fn check_routes(routes: &Vec<ModelRoute>, providers: &Vec<Provider>) -> (r: Option<BrokerInitError>)
    ensures
        match r {
            Some(e) => route_fault(route_models(routes@), provider_models(providers@)) == Some(e@),
            None => route_fault(route_models(routes@), provider_models(providers@)) is None,
        },
{
    let ghost all = route_models(routes@);
    let mut i: usize = 0;
    assert(all.skip(0) =~= all);
    while i < routes.len()
        invariant
            i <= routes.len(),
            all == route_models(routes@),
            route_fault(all, provider_models(providers@)) == route_fault(
                all.skip(i as int),
                provider_models(providers@),
            ),
        decreases routes.len() - i,
    {
        assert(all.skip(i as int)[0] == routes@[i as int]@);
        assert(all.skip(i as int).skip(1) =~= all.skip(i + 1));
        if find_provider(providers, routes[i].provider.as_str()).is_none() {
            return Some(
                BrokerInitError::UnknownProvider {
                    pattern: routes[i].pattern.clone(),
                    provider: routes[i].provider.clone(),
                },
            );
        }
        i += 1;
    }
    None
}

fn copy_routes(routes: &Vec<ModelRoute>) -> (r: Vec<ModelRoute>)
    ensures
        route_models(r@) == working_routes(route_models(routes@)),
{
    let mut out: Vec<ModelRoute> = Vec::new();
    if routes.len() == 0 {
        out.push(
            ModelRoute {
                pattern: "*".to_owned(),
                provider: "null".to_owned(),
                target_model: None,
            },
        );
        assert(route_models(out@) =~= working_routes(route_models(routes@)));
        return out;
    }
    let mut i: usize = 0;
    while i < routes.len()
        invariant
            i <= routes.len(),
            out@.len() == i,
            forall|k: int| 0 <= k < i ==> (#[trigger] out@[k])@ == routes@[k]@,
        decreases routes.len() - i,
    {
        out.push(routes[i].clone());
        i += 1;
    }
    assert(route_models(out@) =~= route_models(routes@));
    out
}

/// Whether what a broker keeps is in order: room for something, each key once, no more than fits.
pub open spec fn sound(b: BrokerModel) -> bool {
    b.cache matches Some(c) ==> {
        &&& c.capacity > 0
        &&& keys_once(c.entries)
        &&& c.entries.len() <= c.capacity
    }
}

proof fn lemma_touch(s: KeptEntries, key: Seq<char>)
    requires
        keys_once(s),
    ensures
        keys_once(touched(s, key)),
        touched(s, key).len() == s.len(),
        forall|k: Seq<char>| #[trigger] answer_at(touched(s, key), k) == answer_at(s, k),
        keys_once(without(s, key)),
        without(s, key).len() <= s.len(),
        forall|k: Seq<char>|
            k != key ==> #[trigger] answer_at(without(s, key), k) == answer_at(s, k),
        answer_at(without(s, key), key) is None,
{
    let w = without(s, key);
    let t = touched(s, key);
    lemma_place(s, key);
    taking_back_frees_the_key(s, key);
    lemma_place(w, key);
    if holds_key(s, key) {
        let p = place_of_key(s, key);
        assert forall|i: int, j: int| 0 <= i < j < t.len() implies (#[trigger] t[i]).0 != (
        #[trigger] t[j]).0 by {
            assert(t[i] == w[i]);
            if j < w.len() {
                assert(t[j] == w[j]);
            }
        }
        assert forall|k: Seq<char>| #[trigger] answer_at(t, k) == answer_at(s, k) by {
            lemma_place(s, k);
            lemma_place(t, k);
            if holds_key(s, k) {
                let q = place_of_key(s, k);
                let at = if q < p {
                    q
                } else if q == p {
                    t.len() - 1
                } else {
                    q - 1
                };
                assert(t[at] == s[q]);
                lemma_answer(t, at);
            } else {
                assert forall|i: int| 0 <= i < t.len() implies (#[trigger] t[i]).0 != k by {
                    let from = if i == t.len() - 1 {
                        p
                    } else if i < p {
                        i
                    } else {
                        i + 1
                    };
                    assert(t[i] == s[from]);
                }
                lemma_not_held(t, k);
            }
        }
        assert forall|k: Seq<char>| k != key implies #[trigger] answer_at(w, k) == answer_at(s, k) by {
            lemma_place(s, k);
            if holds_key(s, k) {
                let q = place_of_key(s, k);
                let at = if q < p {
                    q
                } else {
                    q - 1
                };
                assert(w[at] == s[q]);
                lemma_answer(w, at);
            } else {
                assert forall|i: int| 0 <= i < w.len() implies (#[trigger] w[i]).0 != k by {
                    let from = if i < p {
                        i
                    } else {
                        i + 1
                    };
                    assert(w[i] == s[from]);
                }
                lemma_not_held(w, k);
            }
        }
    }
}

/// What is kept under a key.
pub open spec fn answer_at(s: KeptEntries, key: Seq<char>) -> Option<KeptModel> {
    if holds_key(s, key) {
        Some(s[place_of_key(s, key)].1)
    } else {
        None
    }
}

proof fn lemma_answer(s: KeptEntries, i: int)
    requires
        keys_once(s),
        0 <= i < s.len(),
    ensures
        answer_at(s, s[i].0) == Some(s[i].1),
{
    lemma_place(s, s[i].0);
    let p = place_of_key(s, s[i].0);
    if p < i {
        assert(s[p].0 != s[i].0);
    }
}

proof fn lemma_put(s: KeptEntries, capacity: nat, key: Seq<char>, v: KeptModel)
    requires
        keys_once(s),
        s.len() <= capacity,
        capacity > 0,
    ensures
        keys_once(with_put(s, capacity, key, v)),
        with_put(s, capacity, key, v).len() <= capacity,
        answer_at(with_put(s, capacity, key, v), key) == Some(v),
        s.len() < capacity || holds_key(s, key) ==> forall|k: Seq<char>|
            k != key ==> #[trigger] answer_at(with_put(s, capacity, key, v), k) == answer_at(s, k),
{
    lemma_touch(s, key);
    let base = if holds_key(s, key) {
        without(s, key)
    } else if s.len() == capacity {
        s.skip(1)
    } else {
        s
    };
    let r = with_put(s, capacity, key, v);
    assert(r =~= base.push((key, v)));
    lemma_place(s, key);
    lemma_place(base, key);
    assert(keys_once(base)) by {
        if !holds_key(s, key) && s.len() == capacity {
            assert forall|i: int, j: int| 0 <= i < j < base.len() implies (#[trigger] base[i]).0 != (
            #[trigger] base[j]).0 by {
                assert(base[i] == s[i + 1] && base[j] == s[j + 1]);
            }
        }
    }
    assert(!holds_key(base, key)) by {
        if !holds_key(s, key) && s.len() == capacity {
            assert forall|i: int| 0 <= i < base.len() implies (#[trigger] base[i]).0 != key by {
                assert(base[i] == s[i + 1]);
            }
            lemma_not_held(base, key);
        }
    }
    assert forall|i: int, j: int| 0 <= i < j < r.len() implies (#[trigger] r[i]).0 != (
    #[trigger] r[j]).0 by {
        assert(r[i] == base[i]);
        if j < base.len() {
            assert(r[j] == base[j]);
        }
    }
    lemma_answer(r, r.len() - 1);
    if s.len() < capacity || holds_key(s, key) {
        assert forall|k: Seq<char>| k != key implies #[trigger] answer_at(r, k) == answer_at(s, k) by {
            assert(answer_at(base, k) == answer_at(s, k));
            lemma_place(base, k);
            if holds_key(base, k) {
                let q = place_of_key(base, k);
                assert(r[q] == base[q]);
                lemma_answer(r, q);
            } else {
                assert forall|i: int| 0 <= i < r.len() implies (#[trigger] r[i]).0 != k by {
                    if i < base.len() {
                        assert(r[i] == base[i]);
                    }
                }
                lemma_not_held(r, k);
            }
        }
    }
}

/// Starting a request keeps a broker sound, and leaves every answer that has not expired where it
/// is.
pub proof fn starts_leave_kept_answers(b: BrokerModel, r: RequestModel, now_ns: u64, key: Seq<char>)
    requires
        sound(b),
    ensures
        sound(started(b, r, now_ns).0),
        b.cache is Some <==> started(b, r, now_ns).0.cache is Some,
        (b.cache matches Some(c) ==> (answer_at(c.entries, key) matches Some(e) ==> (e.expires_ns
            > now_ns ==> answer_at(started(b, r, now_ns).0.cache->0.entries, key) == Some(e)))),
{
    if b.cache is Some && first_route(b.routes, r.model) is Some {
        let c = b.cache->0;
        let plan = plan_of(b, r, first_route(b.routes, r.model)->0);
        lemma_touch(c.entries, plan.key);
        lemma_touch(touched(c.entries, plan.key), plan.key);
        lemma_place(c.entries, plan.key);
        assert(answer_at(c.entries, key) == answer_at(touched(c.entries, plan.key), key));
    }
}

/// The end of a call keeps a broker sound. It leaves the answers under other keys where they are, as
/// long as there is room.
pub proof fn ends_leave_kept_answers(
    b: BrokerModel,
    r: RequestModel,
    p: PlanModel,
    outcome: OutcomeModel,
    latency_ms: u128,
    now_ns: u64,
    key: Seq<char>,
)
    requires
        sound(b),
    ensures
        sound(ended(b, r, p, outcome, latency_ms, now_ns).0),
        b.cache is Some <==> ended(b, r, p, outcome, latency_ms, now_ns).0.cache is Some,
        b.cache matches Some(c) ==> (key != p.key && (c.entries.len() < c.capacity || holds_key(
            c.entries,
            p.key,
        )) ==> answer_at(
            ended(b, r, p, outcome, latency_ms, now_ns).0.cache->0.entries,
            key,
        ) == answer_at(c.entries, key)),
{
    if b.cache is Some && p.ttl_ms is Some && outcome is Done {
        let c = b.cache->0;
        let answer = charged(b, r, answer_of(p, outcome->Done_0, latency_ms)).1;
        if answer is Ok {
            lemma_put(
                c.entries,
                c.capacity,
                p.key,
                KeptModel {
                    output: OutputModel { cached: false, ..answer->Ok_0 },
                    expires_ns: crate::broker::cache::expiry_ns(now_ns, p.ttl_ms->0),
                },
            );
        }
    }
}

/// While a broker keeps an answer to a request and it has not expired, the request is answered with
/// it, marked as kept, within its budget. One call and one hit are counted, and nobody is called.
pub proof fn kept_answers_serve(b: BrokerModel, r: RequestModel, now_ns: u64)
    requires
        sound(b),
        !r.stream,
        b.cache is Some,
        first_route(b.routes, r.model) matches Some(route) && provider_named(
            b.providers,
            route.provider,
        ) is Some && (answer_at(b.cache->0.entries, plan_of(b, r, route).key) matches Some(e)
            && e.expires_ns > now_ns),
    ensures
        ({
            let route = first_route(b.routes, r.model)->0;
            let e = answer_at(b.cache->0.entries, plan_of(b, r, route).key)->0;
            let (after, start) = started(b, r, now_ns);
            let (tokens_in, tokens_out) = usage(e.output, r.prompt, r.role_system);
            &&& after.stats.calls == summed(b.stats.calls, 1)
            &&& after.stats.cache_hits == summed(b.stats.cache_hits, 1)
            &&& start !is Call
            &&& budget_fault(b.budgets, r.budget_tokens, capped_sum(tokens_in, tokens_out)) is None
                ==> start == StartModel::Cached(
                OutputModel {
                    cached: true,
                    tokens_in: Some(tokens_in),
                    tokens_out: Some(tokens_out),
                    ..e.output
                },
            )
        }),
{
}

/// An answer that breaks the budget is not kept: the call is counted and nothing else, and the same
/// request with another budget is called for again.
pub proof fn refused_answers_are_not_kept(
    b: BrokerModel,
    r: RequestModel,
    completion: CompletionModel,
    latency_ms: u128,
    first_ns: u64,
    done_ns: u64,
    again: RequestModel,
    later_ns: u64,
)
    requires
        sound(b),
        started(b, r, first_ns).1 is Call,
        ended(
            started(b, r, first_ns).0,
            r,
            started(b, r, first_ns).1->Call_0,
            OutcomeModel::Done(completion),
            latency_ms,
            done_ns,
        ).1 is Err,
        again == (RequestModel { budget_tokens: again.budget_tokens, ..r }),
    ensures
        ({
            let (mid, start) = started(b, r, first_ns);
            let (after, result) = ended(
                mid,
                r,
                start->Call_0,
                OutcomeModel::Done(completion),
                latency_ms,
                done_ns,
            );
            &&& after == mid
            &&& mid.stats == (BrokerStats { calls: summed(b.stats.calls, 1), ..b.stats })
            &&& result->Err_0 is BudgetExceeded
            &&& started(after, again, later_ns).1 == start
        }),
{
    let (mid, start) = started(b, r, first_ns);
    let plan = start->Call_0;
    if b.cache is Some {
        let c = b.cache->0;
        lemma_touch(c.entries, plan.key);
        lemma_touch(touched(c.entries, plan.key), plan.key);
        assert(!holds_key(mid.cache->0.entries, plan.key));
    }
}

impl Broker {
    pub closed spec fn view(self) -> BrokerModel {
        BrokerModel {
            providers: provider_models(self.providers@),
            routes: route_models(self.routes@),
            cache: match self.cache {
                Some(c) => Some(c@),
                None => None,
            },
            budgets: self.budgets,
            stats: self.stats,
        }
    }

    pub fn new(config: &BrokerConfig) -> (r: Result<Self, BrokerInitError>)
        ensures
            match (r, initial(*config)) {
                (Ok(b), Ok(m)) => b@ == m && sound(b@),
                (Err(e), Err(f)) => e@ == f,
                _ => false,
            },
    {
        let mut providers = match build_all(&config.providers) {
            Ok(v) => v,
            Err(e) => {
                return Err(e);
            },
        };
        add_echo(&mut providers, "null");
        add_echo(&mut providers, "local");
        match check_routes(&config.route, &providers) {
            Some(e) => {
                return Err(e);
            },
            None => {},
        }
        let cache = if config.cache.capacity == 0 || config.cache.ttl_ms == 0 {
            None
        } else {
            Some(BrokerCache::new(config.cache.ttl_ms, config.cache.capacity))
        };
        Ok(
            Broker {
                providers,
                routes: copy_routes(&config.route),
                cache,
                budgets: BudgetLimits::new(
                    config.budgets.default_tokens,
                    config.budgets.per_request_tokens_cap,
                ),
                stats: BrokerStats {
                    calls: 0,
                    cache_hits: 0,
                    tokens_prompt: 0,
                    tokens_completion: 0,
                },
            },
        )
    }

    pub fn stats(&self) -> (r: BrokerStats)
        ensures
            r == self@.stats,
    {
        self.stats
    }

    /// The provider of a name.
    pub fn provider(&self, id: &str) -> (r: Option<&Provider>)
        ensures
            match r {
                Some(p) => provider_named(self@.providers, id@) == Some(p@),
                None => provider_named(self@.providers, id@) is None,
            },
    {
        match find_provider(&self.providers, id) {
            Some(i) => Some(&self.providers[i]),
            None => None,
        }
    }

    fn route_for(&self, model: &str) -> (r: Option<usize>)
        ensures
            match r {
                Some(i) => i < self.routes.len() && first_route(self@.routes, model@) == Some(
                    self.routes@[i as int]@,
                ),
                None => first_route(self@.routes, model@) is None,
            },
    {
        let ghost all = self@.routes;
        let mut i: usize = 0;
        assert(all.skip(0) =~= all);
        while i < self.routes.len()
            invariant
                i <= self.routes.len(),
                all == self@.routes,
                first_route(all, model@) == first_route(all.skip(i as int), model@),
            decreases self.routes.len() - i,
        {
            assert(all.skip(i as int)[0] == self.routes@[i as int]@);
            assert(all.skip(i as int).skip(1) =~= all.skip(i + 1));
            if route_matches(self.routes[i].pattern.as_str(), model) {
                return Some(i);
            }
            i += 1;
        }
        None
    }

    fn charge(&mut self, request: &ModelRequest, output: ModelOutput) -> (r: Result<
        ModelOutput,
        BrokerError,
    >)
        ensures
            final(self)@ == charged(old(self)@, request@, output@).0,
            match (r, charged(old(self)@, request@, output@).1) {
                (Ok(o), Ok(m)) => o@ == m,
                (Err(e), Err(f)) => e@ == f,
                _ => false,
            },
    {
        let (tokens_in, tokens_out, total) = usage_profile(
            &output,
            request.prompt.as_str(),
            &request.role_system,
        );
        match self.budgets.enforce(request.budget_tokens, total) {
            Ok(_) => {},
            Err(e) => {
                return Err(e);
            },
        }
        match tokens_in {
            Some(n) => {
                self.stats.tokens_prompt = add_count(self.stats.tokens_prompt, n);
            },
            None => {},
        }
        match tokens_out {
            Some(n) => {
                self.stats.tokens_completion = add_count(self.stats.tokens_completion, n);
            },
            None => {},
        }
        let mut answer = output;
        answer.tokens_in = tokens_in;
        answer.tokens_out = tokens_out;
        Ok(answer)
    }

    /// Takes a request: refuses it, answers it from the cache, or says whom to call.
    pub fn begin(&mut self, request: &ModelRequest, now_ns: u64) -> (r: Start)
        ensures
            final(self)@ == started(old(self)@, request@, now_ns).0,
            r@ == started(old(self)@, request@, now_ns).1,
            sound(old(self)@) ==> sound(final(self)@),
    {
        proof {
            if sound(self@) {
                starts_leave_kept_answers(self@, request@, now_ns, seq![]);
            }
        }
        if request.stream {
            return Start::Refused(BrokerError::StreamingUnsupported);
        }
        let route = match self.route_for(request.model.as_str()) {
            Some(i) => self.routes[i].clone(),
            None => {
                return Start::Refused(
                    BrokerError::InvalidRequest {
                        reason: concat3(
                            "no provider configured for model '",
                            request.model.as_str(),
                            "'",
                        ),
                    },
                );
            },
        };
        if find_provider(&self.providers, route.provider.as_str()).is_none() {
            return Start::Refused(
                BrokerError::InvalidRequest {
                    reason: two_quoted(
                        "routing for model '",
                        request.model.as_str(),
                        "' references unknown provider '",
                        route.provider.as_str(),
                    ),
                },
            );
        }
        self.stats.calls = add_count(self.stats.calls, 1);
        let model = match &route.target_model {
            Some(m) => m.clone(),
            None => request.model.clone(),
        };
        let ttl_ms = match request.cache_ttl_ms {
            Some(n) => if n == 0 {
                None
            } else {
                Some(n as u64)
            },
            None => match &self.cache {
                Some(c) => if c.default_ttl_ms() == 0 {
                    None
                } else {
                    Some(c.default_ttl_ms())
                },
                None => None,
            },
        };
        let key = compose_cache_key(route.provider.as_str(), model.as_str(), request);
        let timeout_ms = match request.timeout_ms {
            Some(n) => if n == 0 {
                None
            } else {
                Some(n)
            },
            None => None,
        };
        let hit = match self.cache.take() {
            Some(c) => {
                let mut cache = c;
                let hit = cache.check(key.as_str(), now_ns);
                self.cache = Some(cache);
                hit
            },
            None => None,
        };
        match hit {
            Some(output) => {
                self.stats.cache_hits = add_count(self.stats.cache_hits, 1);
                match self.charge(request, output) {
                    Ok(answer) => Start::Cached(answer),
                    Err(e) => Start::Refused(e),
                }
            },
            None => Start::Call(
                CallPlan { provider: route.provider, model, timeout_ms, key, ttl_ms },
            ),
        }
    }

    /// Takes what became of a call.
    pub fn finish(
        &mut self,
        request: &ModelRequest,
        plan: CallPlan,
        outcome: CallOutcome,
        latency_ms: u128,
        now_ns: u64,
    ) -> (r: Result<ModelOutput, BrokerError>)
        ensures
            final(self)@ == ended(
                old(self)@,
                request@,
                plan@,
                outcome@,
                latency_ms,
                now_ns,
            ).0,
            match (
                r,
                ended(old(self)@, request@, plan@, outcome@, latency_ms, now_ns).1,
            ) {
                (Ok(o), Ok(m)) => o@ == m,
                (Err(e), Err(f)) => e@ == f,
                _ => false,
            },
            sound(old(self)@) ==> sound(final(self)@),
    {
        proof {
            if sound(self@) {
                ends_leave_kept_answers(
                    self@,
                    request@,
                    plan@,
                    outcome@,
                    latency_ms,
                    now_ns,
                    seq![],
                );
            }
        }
        let completion = match outcome {
            CallOutcome::TimedOut => {
                return Err(
                    BrokerError::Timeout {
                        timeout_ms: match plan.timeout_ms {
                            Some(n) => n,
                            None => 0,
                        },
                    },
                );
            },
            CallOutcome::Failed(e) => {
                return Err(e);
            },
            CallOutcome::Done(c) => c,
        };
        let provider_model = if completion.provider_model.as_str().is_empty() {
            plan.model
        } else {
            completion.provider_model
        };
        let output = ModelOutput {
            text: completion.text,
            tokens_in: completion.tokens_in,
            tokens_out: completion.tokens_out,
            cached: false,
            provider: plan.provider,
            provider_model,
            latency_ms: saturating_millis(latency_ms),
            finish_reason: completion.finish_reason,
        };
        let answer = match self.charge(request, output) {
            Ok(a) => a,
            Err(e) => {
                return Err(e);
            },
        };
        match plan.ttl_ms {
            Some(ttl) => {
                match self.cache.take() {
                    Some(c) => {
                        let mut cache = c;
                        cache.keep(plan.key, &answer, ttl, now_ns);
                        self.cache = Some(cache);
                    },
                    None => {},
                }
            },
            None => {},
        }
        Ok(answer)
    }
}

/// The request's prompt, given back.
pub open spec fn echoed(r: RequestModel, model: Seq<char>) -> CompletionModel {
    CompletionModel {
        text: r.prompt,
        tokens_in: Some(tokens_for(utf8(r.prompt).len())),
        tokens_out: Some(tokens_for(utf8(r.prompt).len())),
        finish_reason: Some("stop"@),
        provider_model: model,
    }
}

/// What a provider answers that gives every prompt back.
pub fn echo_completion(request: &ModelRequest, model: &str) -> (r: ProviderCompletion)
    ensures
        r@ == echoed(request@, model@),
{
    let n = estimate_tokens(request.prompt.as_str());
    ProviderCompletion {
        text: request.prompt.clone(),
        tokens_in: Some(n),
        tokens_out: Some(n),
        finish_reason: Some("stop".to_owned()),
        provider_model: model.to_owned(),
    }
}

/// No answer costs more than the request's limit, whether it was called for or kept.
pub proof fn answers_keep_the_budget(b: BrokerModel, r: RequestModel, o: OutputModel)
    ensures
        charged(b, r, o).1 matches Ok(a) ==> (limit_of(b.budgets, r.budget_tokens) matches Some(
            limit,
        ) ==> capped_sum(a.tokens_in->0, a.tokens_out->0) <= limit),
{
}

/// A request that is asked again while its answer is kept is answered with it, marked as kept, and
/// nobody is called.
pub proof fn kept_answers_are_given_again(
    b: BrokerModel,
    r: RequestModel,
    completion: CompletionModel,
    latency_ms: u128,
    first_ns: u64,
    done_ns: u64,
    later_ns: u64,
)
    requires
        sound(b),
        b.cache is Some,
        started(b, r, first_ns).1 is Call,
        ({
            let (mid, start) = started(b, r, first_ns);
            let plan = start->Call_0;
            &&& ended(mid, r, plan, OutcomeModel::Done(completion), latency_ms, done_ns).1 is Ok
            &&& plan.ttl_ms is Some
            &&& later_ns < crate::broker::cache::expiry_ns(done_ns, plan.ttl_ms->0)
        }),
    ensures
        ({
            let (mid, start) = started(b, r, first_ns);
            let plan = start->Call_0;
            let (after, result) = ended(
                mid,
                r,
                plan,
                OutcomeModel::Done(completion),
                latency_ms,
                done_ns,
            );
            started(after, r, later_ns).1 == StartModel::Cached(
                OutputModel { cached: true, ..(result->Ok_0) },
            )
        }),
{
    let (mid, start) = started(b, r, first_ns);
    let plan = start->Call_0;
    let (after, result) = ended(
        mid,
        r,
        plan,
        OutcomeModel::Done(completion),
        latency_ms,
        done_ns,
    );
    let answer = result->Ok_0;
    let d = mid.cache->0;
    starts_leave_kept_answers(b, r, first_ns, plan.key);
    crate::broker::cache::kept_answers_are_found(
        d,
        plan.key,
        answer,
        plan.ttl_ms->0,
        done_ns,
        later_ns,
    );
}

} // verus!
