//! What the providers are sent.

use crate::broker::desk::{header_models, HeaderModels, Provider, ProviderModel};
use crate::broker::types::{
    opt_fraction, BrokerError, BrokerFault, Fraction, FractionModel, ModelParams, ModelRequest,
    ParamsModel, RequestModel,
};
use crate::config::settings::ProviderKind;
use crate::ids::uuid_text;
use crate::json::{
    list_model, map_get, map_insert, texts_json, texts_model, Json, JsonMap, JsonModel, MapModel,
    Numeral, NumeralModel,
};
use crate::text::{concat, concat3, has_prefix, opt_text, starts_with, texts, trim_end_of, trimmed_end_of};
use vstd::prelude::*;

verus! {

/// A request over HTTP, its body a JSON tree.
#[derive(Debug)]
pub struct HttpCall {
    pub url: String,
    pub bearer: Option<String>,
    pub headers: Vec<(String, String)>,
    pub body: Json,
}

pub ghost struct HttpModel {
    pub url: Seq<char>,
    pub bearer: Option<Seq<char>>,
    pub headers: HeaderModels,
    pub body: JsonModel,
}

impl HttpCall {
    pub open spec fn view(self) -> HttpModel {
        HttpModel {
            url: self.url@,
            bearer: opt_text(self.bearer),
            headers: header_models(self.headers@),
            body: self.body@,
        }
    }
}

/// Looks secrets up by their names.
pub trait SecretResolver {
    fn resolve(&self, secret_id: &str) -> Option<String>;
}

/// Knows no secret.
pub struct NoopSecretResolver;

impl SecretResolver for NoopSecretResolver {
    fn resolve(&self, secret_id: &str) -> (r: Option<String>)
        ensures
            r is None,
    {
        None
    }
}

/// The secret for a provider: nothing where it needs none, and a fault where it is not found.
pub open spec fn secret_of(secret_id: Option<Seq<char>>, found: Option<Seq<char>>) -> Result<
    Seq<char>,
    BrokerFault,
> {
    match (secret_id, found) {
        (None, _) => Ok(""@),
        (Some(_), Some(s)) => Ok(s),
        (Some(id), None) => Err(
            BrokerFault::ProviderFault("secret_missing"@, "secret '"@ + id + "' not found"@),
        ),
    }
}

pub fn secret_from(secret_id: &Option<String>, found: Option<String>) -> (r: Result<
    String,
    BrokerError,
>)
    ensures
        match (r, secret_of(opt_text(*secret_id), opt_text(found))) {
            (Ok(s), Ok(t)) => s@ == t,
            (Err(e), Err(f)) => e@ == f,
            _ => false,
        },
{
    match (secret_id, found) {
        (None, _) => Ok("".to_owned()),
        (Some(_), Some(s)) => Ok(s),
        (Some(id), None) => Err(
            BrokerError::ProviderFault {
                code: "secret_missing".to_owned(),
                message: concat3("secret '", id.as_str(), "' not found"),
            },
        ),
    }
}

/// Asks for a provider's secret.
pub fn resolve_secret<R: SecretResolver>(provider: &Provider, secrets: &R) -> (r: Result<
    String,
    BrokerError,
>)
    ensures
        provider.secret_id is None ==> (r matches Ok(s) && s@ == ""@),
        r matches Err(e) ==> provider.secret_id is Some && e@ == BrokerFault::ProviderFault(
            "secret_missing"@,
            "secret '"@ + provider.secret_id->0@ + "' not found"@,
        ),
        provider.secret_id is Some ==> exists|id: &str, found: Option<String>|
            id@ == provider.secret_id->0@ && #[trigger] call_ensures(
                R::resolve,
                (secrets, id),
                found,
            ) && (match (r, secret_of(opt_text(provider.secret_id), opt_text(found))) {
                (Ok(s), Ok(t)) => s@ == t,
                (Err(e), Err(f)) => e@ == f,
                _ => false,
            }),
{
    let found = match &provider.secret_id {
        Some(id) => secrets.resolve(id.as_str()),
        None => None,
    };
    secret_from(&provider.secret_id, found)
}

pub open spec fn put(m: MapModel, key: Seq<char>, value: Option<JsonModel>) -> MapModel {
    match value {
        Some(v) => map_insert(m, key, v),
        None => m,
    }
}

fn put_json(m: &mut JsonMap, key: &str, value: Option<Json>)
    ensures
        final(m)@ == put(
            old(m)@,
            key@,
            match value {
                Some(v) => Some(v@),
                None => None,
            },
        ),
{
    match value {
        Some(v) => {
            m.insert(key.to_owned(), v);
        },
        None => {},
    }
}

pub open spec fn number_model(n: u32) -> JsonModel {
    JsonModel::Number(NumeralModel::Unsigned(n as u64))
}

pub open spec fn opt_number(n: Option<u32>) -> Option<JsonModel> {
    match n {
        Some(x) => Some(number_model(x)),
        None => None,
    }
}

fn number_json(n: Option<u32>) -> (r: Option<Json>)
    ensures
        (match r {
            Some(j) => Some(j@),
            None => None,
        }) == opt_number(n),
{
    match n {
        Some(x) => Some(Json::Number(Numeral::Unsigned(x as u64))),
        None => None,
    }
}

pub open spec fn opt_wide(f: Option<FractionModel>) -> Option<JsonModel> {
    match f {
        Some(x) => Some(JsonModel::Number(NumeralModel::Float(x.wide))),
        None => None,
    }
}

fn wide_json(f: &Option<Fraction>) -> (r: Option<Json>)
    ensures
        (match r {
            Some(j) => Some(j@),
            None => None,
        }) == opt_wide(opt_fraction(*f)),
{
    match f {
        Some(x) => Some(Json::Number(Numeral::Float(x.wide.clone()))),
        None => None,
    }
}

pub open spec fn opt_short(f: Option<FractionModel>) -> Option<JsonModel> {
    match f {
        Some(x) => Some(JsonModel::Number(NumeralModel::Float(x.short))),
        None => None,
    }
}

fn short_json(f: &Option<Fraction>) -> (r: Option<Json>)
    ensures
        (match r {
            Some(j) => Some(j@),
            None => None,
        }) == opt_short(opt_fraction(*f)),
{
    match f {
        Some(x) => Some(Json::Number(Numeral::Float(x.short.clone()))),
        None => None,
    }
}

pub open spec fn opt_list(v: Option<Seq<Seq<char>>>) -> Option<JsonModel> {
    match v {
        Some(s) => Some(texts_model(s)),
        None => None,
    }
}

fn list_json(v: &Option<Vec<String>>) -> (r: Option<Json>)
    ensures
        (match r {
            Some(j) => Some(j@),
            None => None,
        }) == opt_list(
            match v {
                Some(s) => Some(texts(s@)),
                None => None,
            },
        ),
{
    match v {
        Some(s) => Some(texts_json(s)),
        None => None,
    }
}

pub open spec fn opt_words(t: Option<Seq<char>>) -> Option<JsonModel> {
    match t {
        Some(s) => Some(JsonModel::Text(s)),
        None => None,
    }
}

fn words_json(t: &Option<String>) -> (r: Option<Json>)
    ensures
        (match r {
            Some(j) => Some(j@),
            None => None,
        }) == opt_words(opt_text(*t)),
{
    match t {
        Some(s) => Some(Json::Text(s.clone())),
        None => None,
    }
}

/// The parameters of a request where it has none.
pub open spec fn no_params() -> ParamsModel {
    ParamsModel { temperature: None, top_p: None, max_tokens: None, stop: None }
}

pub open spec fn params_of(r: RequestModel) -> ParamsModel {
    match r.params {
        Some(p) => p,
        None => no_params(),
    }
}

/// The parameters as two services of one maker take them.
pub open spec fn with_params(m: MapModel, p: ParamsModel) -> MapModel {
    put(
        put(
            put(
                put(m, "max_tokens"@, opt_number(p.max_tokens)),
                "temperature"@,
                opt_wide(p.temperature),
            ),
            "top_p"@,
            opt_wide(p.top_p),
        ),
        "stop"@,
        opt_list(p.stop),
    )
}

fn put_params(m: &mut JsonMap, p: &Option<ModelParams>)
    ensures
        final(m)@ == with_params(
            old(m)@,
            match p {
                Some(x) => x@,
                None => no_params(),
            },
        ),
{
    match p {
        Some(x) => {
            put_json(m, "max_tokens", number_json(x.max_tokens));
            put_json(m, "temperature", wide_json(&x.temperature));
            put_json(m, "top_p", wide_json(&x.top_p));
            put_json(m, "stop", list_json(&x.stop));
        },
        None => {},
    }
}

/// An object of a model, a prompt, and that the answer comes in one piece.
pub open spec fn plain_body(r: RequestModel, model: Seq<char>) -> MapModel {
    map_insert(
        map_insert(
            map_insert(MapModel::empty(), "model"@, JsonModel::Text(model)),
            "prompt"@,
            JsonModel::Text(r.prompt),
        ),
        "stream"@,
        JsonModel::Bool(false),
    )
}

fn plain_json(request: &ModelRequest, model: &str) -> (r: JsonMap)
    ensures
        r@ == plain_body(request@, model@),
{
    let mut m = JsonMap::new();
    m.insert("model".to_owned(), Json::Text(model.to_owned()));
    m.insert("prompt".to_owned(), Json::Text(request.prompt.clone()));
    m.insert("stream".to_owned(), Json::Bool(false));
    m
}

pub open spec fn completions_body(r: RequestModel, model: Seq<char>) -> JsonModel {
    JsonModel::Object(with_params(plain_body(r, model), params_of(r)))
}

pub fn completions_json(request: &ModelRequest, model: &str) -> (r: Json)
    ensures
        r@ == completions_body(request@, model@),
{
    let mut m = plain_json(request, model);
    put_params(&mut m, &request.params);
    Json::Object(m)
}

/// A message of a conversation.
pub open spec fn message_model(role: Seq<char>, content: Seq<char>) -> JsonModel {
    JsonModel::Object(
        map_insert(
            map_insert(MapModel::empty(), "role"@, JsonModel::Text(role)),
            "content"@,
            JsonModel::Text(content),
        ),
    )
}

fn message_json(role: &str, content: &str) -> (r: Json)
    ensures
        r@ == message_model(role@, content@),
{
    let mut m = JsonMap::new();
    m.insert("role".to_owned(), Json::Text(role.to_owned()));
    m.insert("content".to_owned(), Json::Text(content.to_owned()));
    Json::Object(m)
}

/// The conversation of a request: the instructions, if there are any, then the prompt.
pub open spec fn messages_model(r: RequestModel) -> JsonModel {
    JsonModel::Array(
        match r.role_system {
            Some(s) => seq![message_model("system"@, s), message_model("user"@, r.prompt)],
            None => seq![message_model("user"@, r.prompt)],
        },
    )
}

pub open spec fn chat_body(r: RequestModel, model: Seq<char>) -> JsonModel {
    JsonModel::Object(
        with_params(
            map_insert(
                map_insert(
                    map_insert(MapModel::empty(), "model"@, JsonModel::Text(model)),
                    "messages"@,
                    messages_model(r),
                ),
                "stream"@,
                JsonModel::Bool(false),
            ),
            params_of(r),
        ),
    )
}

pub fn chat_json(request: &ModelRequest, model: &str) -> (r: Json)
    ensures
        r@ == chat_body(request@, model@),
{
    let mut messages: Vec<Json> = Vec::new();
    match &request.role_system {
        Some(s) => messages.push(message_json("system", s.as_str())),
        None => {},
    }
    messages.push(message_json("user", request.prompt.as_str()));
    assert(list_model(messages@) =~= messages_model(request@)->Array_0);
    let mut m = JsonMap::new();
    m.insert("model".to_owned(), Json::Text(model.to_owned()));
    m.insert("messages".to_owned(), Json::Array(messages));
    m.insert("stream".to_owned(), Json::Bool(false));
    put_params(&mut m, &request.params);
    Json::Object(m)
}

/// How long an answer may be: as asked, at least one token, and 512 where nothing is asked.
pub open spec fn length_limit(p: ParamsModel) -> u32 {
    match p.max_tokens {
        Some(n) => if n == 0 {
            1
        } else {
            n
        },
        None => 512,
    }
}

pub open spec fn anthropic_body(r: RequestModel, model: Seq<char>) -> JsonModel {
    let p = params_of(r);
    let base = map_insert(
        map_insert(
            map_insert(MapModel::empty(), "model"@, JsonModel::Text(model)),
            "messages"@,
            JsonModel::Array(seq![message_model("user"@, r.prompt)]),
        ),
        "stream"@,
        JsonModel::Bool(false),
    );
    JsonModel::Object(
        put(
            put(
                put(
                    map_insert(
                        put(base, "system"@, opt_words(r.role_system)),
                        "max_tokens"@,
                        number_model(length_limit(p)),
                    ),
                    "temperature"@,
                    opt_wide(p.temperature),
                ),
                "top_p"@,
                opt_wide(p.top_p),
            ),
            "stop_sequences"@,
            opt_list(p.stop),
        ),
    )
}

pub fn anthropic_json(request: &ModelRequest, model: &str) -> (r: Json)
    ensures
        r@ == anthropic_body(request@, model@),
{
    let mut messages: Vec<Json> = Vec::new();
    messages.push(message_json("user", request.prompt.as_str()));
    assert(list_model(messages@) =~= seq![message_model("user"@, request@.prompt)]);
    let mut m = JsonMap::new();
    m.insert("model".to_owned(), Json::Text(model.to_owned()));
    m.insert("messages".to_owned(), Json::Array(messages));
    m.insert("stream".to_owned(), Json::Bool(false));
    put_json(&mut m, "system", words_json(&request.role_system));
    let asked = match &request.params {
        Some(p) => p.max_tokens,
        None => None,
    };
    let limit: u32 = match asked {
        Some(n) => if n == 0 {
            1
        } else {
            n
        },
        None => 512,
    };
    m.insert("max_tokens".to_owned(), Json::Number(Numeral::Unsigned(limit as u64)));
    match &request.params {
        Some(p) => {
            put_json(&mut m, "temperature", wide_json(&p.temperature));
            put_json(&mut m, "top_p", wide_json(&p.top_p));
            put_json(&mut m, "stop_sequences", list_json(&p.stop));
        },
        None => {},
    }
    Json::Object(m)
}

/// The entries of `from`, put into `m` one after the other.
pub open spec fn put_all(m: MapModel, from: MapModel, n: nat) -> MapModel
    decreases n,
{
    if n == 0 {
        m
    } else {
        map_insert(put_all(m, from, (n - 1) as nat), from[n - 1].0, from[n - 1].1)
    }
}

/// The options of a request: its parameters, then what it has for this service.
pub open spec fn ollama_options(r: RequestModel) -> MapModel {
    let p = params_of(r);
    let base = put(
        put(
            put(MapModel::empty(), "temperature"@, opt_wide(p.temperature)),
            "top_p"@,
            opt_wide(p.top_p),
        ),
        "stop"@,
        opt_list(p.stop),
    );
    match r.extras {
        Some(JsonModel::Object(m)) => match map_get(m, "ollama"@) {
            Some(JsonModel::Object(own)) => put_all(base, own, own.len()),
            _ => base,
        },
        _ => base,
    }
}

pub open spec fn ollama_body(r: RequestModel, model: Seq<char>) -> JsonModel {
    let base = put(plain_body(r, model), "system"@, opt_words(r.role_system));
    JsonModel::Object(
        if ollama_options(r).len() == 0 {
            base
        } else {
            map_insert(base, "options"@, JsonModel::Object(ollama_options(r)))
        },
    )
}

fn options_json(request: &ModelRequest) -> (r: JsonMap)
    ensures
        r@ == ollama_options(request@),
{
    let mut m = JsonMap::new();
    match &request.params {
        Some(p) => {
            put_json(&mut m, "temperature", wide_json(&p.temperature));
            put_json(&mut m, "top_p", wide_json(&p.top_p));
            put_json(&mut m, "stop", list_json(&p.stop));
        },
        None => {},
    }
    let ghost base = m@;
    let own = match &request.extras {
        Some(Json::Object(e)) => match e.get("ollama") {
            Some(Json::Object(o)) => Some(o),
            _ => None,
        },
        _ => None,
    };
    match own {
        Some(o) => {
            let mut i: usize = 0;
            while i < o.entries.len()
                invariant
                    i <= o.entries.len(),
                    m@ == put_all(base, o@, i as nat),
                decreases o.entries.len() - i,
            {
                assert(o@[i as int] == (o.entries@[i as int].0@, o.entries@[i as int].1@));
                m.insert(o.entries[i].0.clone(), o.entries[i].1.clone());
                i += 1;
            }
        },
        None => {},
    }
    m
}

pub fn ollama_json(request: &ModelRequest, model: &str) -> (r: Json)
    ensures
        r@ == ollama_body(request@, model@),
{
    let options = options_json(request);
    let mut m = plain_json(request, model);
    put_json(&mut m, "system", words_json(&request.role_system));
    if options.len() > 0 {
        m.insert("options".to_owned(), Json::Object(options));
    }
    Json::Object(m)
}

/// A category of harm and the threshold at which an answer is blocked.
#[derive(Debug)]
pub struct GeminiSafetySetting {
    pub category: String,
    pub threshold: String,
}

/// What a request may say beside its prompt to this service.
#[derive(Debug)]
pub struct GeminiHints {
    pub safety_settings: Option<Vec<GeminiSafetySetting>>,
    pub response_mime_type: Option<String>,
}

/// The section as it is written; the older name of the answer's type is taken too.
#[derive(Debug)]
pub struct GeminiExtrasPayload {
    pub safety: Option<Vec<GeminiSafetySetting>>,
    pub mime_type: Option<String>,
    pub response_mime_type: Option<String>,
}

pub type SafetyModels = Seq<(Seq<char>, Seq<char>)>;

pub open spec fn safety_models(s: Seq<GeminiSafetySetting>) -> SafetyModels {
    s.map_values(|x: GeminiSafetySetting| (x.category@, x.threshold@))
}

pub open spec fn opt_safety(s: Option<Vec<GeminiSafetySetting>>) -> Option<SafetyModels> {
    match s {
        Some(v) => Some(safety_models(v@)),
        None => None,
    }
}

/// The section of the extras for this service: none where there is none, an error where the extras
/// are no object.
pub open spec fn gemini_section(extras: Option<JsonModel>) -> Result<Option<JsonModel>, BrokerFault> {
    match extras {
        None => Ok(None),
        Some(JsonModel::Null) => Ok(None),
        Some(JsonModel::Object(m)) => match map_get(m, "gemini"@) {
            None => Ok(None),
            Some(JsonModel::Null) => Ok(None),
            Some(j) => Ok(Some(j)),
        },
        Some(_) => Err(BrokerFault::InvalidRequest("extras must be a JSON object"@)),
    }
}

pub fn gemini_extras(extras: &Option<Json>) -> (r: Result<Option<&Json>, BrokerError>)
    ensures
        match (
            r,
            gemini_section(
                match extras {
                    Some(j) => Some(j@),
                    None => None,
                },
            ),
        ) {
            (Ok(Some(j)), Ok(Some(k))) => j@ == k,
            (Ok(None), Ok(None)) => true,
            (Err(e), Err(f)) => e@ == f,
            _ => false,
        },
{
    match extras {
        None => Ok(None),
        Some(Json::Null) => Ok(None),
        Some(Json::Object(m)) => match m.get("gemini") {
            None => Ok(None),
            Some(Json::Null) => Ok(None),
            Some(j) => Ok(Some(j)),
        },
        Some(_) => Err(
            BrokerError::InvalidRequest { reason: "extras must be a JSON object".to_owned() },
        ),
    }
}

/// The hints in a section that was read, or the reader's complaint.
pub fn gemini_hints(read: Option<Result<GeminiExtrasPayload, String>>) -> (r: Result<
    GeminiHints,
    BrokerError,
>)
    ensures
        match (r, read) {
            (Ok(h), None) => h.safety_settings is None && h.response_mime_type is None,
            (Ok(h), Some(Ok(p))) => h.safety_settings == p.safety && h.response_mime_type == if p.response_mime_type is Some {
                p.response_mime_type
            } else {
                p.mime_type
            },
            (Err(e), Some(Err(m))) => e@ == BrokerFault::InvalidRequest(
                "extras.gemini invalid: "@ + m@,
            ),
            _ => false,
        },
{
    match read {
        None => Ok(GeminiHints { safety_settings: None, response_mime_type: None }),
        Some(Ok(p)) => Ok(
            GeminiHints {
                safety_settings: p.safety,
                response_mime_type: match p.response_mime_type {
                    Some(t) => Some(t),
                    None => p.mime_type,
                },
            },
        ),
        Some(Err(m)) => Err(
            BrokerError::InvalidRequest { reason: concat("extras.gemini invalid: ", m.as_str()) },
        ),
    }
}

/// Words with the role of who says them.
pub open spec fn part_model(role: Seq<char>, text: Seq<char>) -> JsonModel {
    JsonModel::Object(
        map_insert(
            map_insert(MapModel::empty(), "role"@, JsonModel::Text(role)),
            "parts"@,
            JsonModel::Array(
                seq![
                    JsonModel::Object(
                        map_insert(MapModel::empty(), "text"@, JsonModel::Text(text)),
                    ),
                ],
            ),
        ),
    )
}

fn part_json(role: &str, text: &str) -> (r: Json)
    ensures
        r@ == part_model(role@, text@),
{
    let mut t = JsonMap::new();
    t.insert("text".to_owned(), Json::Text(text.to_owned()));
    let mut parts: Vec<Json> = Vec::new();
    let part = Json::Object(t);
    parts.push(part);
    assert(list_model(parts@) =~= seq![part@]);
    let mut m = JsonMap::new();
    m.insert("role".to_owned(), Json::Text(role.to_owned()));
    m.insert("parts".to_owned(), Json::Array(parts));
    Json::Object(m)
}

/// How the answer is to be made; an empty list of stops says nothing.
pub open spec fn generation_config(r: RequestModel, mime: Option<Seq<char>>) -> MapModel {
    let p = params_of(r);
    let stop = match p.stop {
        Some(s) => if s.len() == 0 {
            None
        } else {
            Some(texts_model(s))
        },
        None => None,
    };
    put(
        put(
            put(
                put(
                    put(MapModel::empty(), "temperature"@, opt_short(p.temperature)),
                    "topP"@,
                    opt_short(p.top_p),
                ),
                "maxOutputTokens"@,
                opt_number(p.max_tokens),
            ),
            "stopSequences"@,
            stop,
        ),
        "responseMimeType"@,
        opt_words(mime),
    )
}

fn generation_json(request: &ModelRequest, mime: &Option<String>) -> (r: JsonMap)
    ensures
        r@ == generation_config(request@, opt_text(*mime)),
{
    let mut m = JsonMap::new();
    match &request.params {
        Some(p) => {
            put_json(&mut m, "temperature", short_json(&p.temperature));
            put_json(&mut m, "topP", short_json(&p.top_p));
            put_json(&mut m, "maxOutputTokens", number_json(p.max_tokens));
            match &p.stop {
                Some(s) => {
                    if s.len() > 0 {
                        m.insert("stopSequences".to_owned(), texts_json(s));
                    }
                },
                None => {},
            }
        },
        None => {},
    }
    put_json(&mut m, "responseMimeType", words_json(mime));
    m
}

pub open spec fn safety_model(s: SafetyModels) -> JsonModel {
    JsonModel::Array(
        s.map_values(
            |x: (Seq<char>, Seq<char>)|
                JsonModel::Object(
                    map_insert(
                        map_insert(MapModel::empty(), "category"@, JsonModel::Text(x.0)),
                        "threshold"@,
                        JsonModel::Text(x.1),
                    ),
                ),
        ),
    )
}

fn safety_json(s: &Vec<GeminiSafetySetting>) -> (r: Json)
    ensures
        r@ == safety_model(safety_models(s@)),
{
    let mut out: Vec<Json> = Vec::new();
    let mut i: usize = 0;
    while i < s.len()
        invariant
            i <= s.len(),
            out@.len() == i,
            forall|k: int|
                0 <= k < i ==> (#[trigger] out@[k])@ == safety_model(
                    safety_models(s@),
                )->Array_0[k],
        decreases s.len() - i,
    {
        let mut m = JsonMap::new();
        m.insert("category".to_owned(), Json::Text(s[i].category.clone()));
        m.insert("threshold".to_owned(), Json::Text(s[i].threshold.clone()));
        out.push(Json::Object(m));
        i += 1;
    }
    assert(list_model(out@) =~= safety_model(safety_models(s@))->Array_0);
    Json::Array(out)
}

pub open spec fn gemini_body(
    r: RequestModel,
    safety: Option<SafetyModels>,
    mime: Option<Seq<char>>,
) -> JsonModel {
    let config = generation_config(r, mime);
    JsonModel::Object(
        put(
            put(
                put(
                    map_insert(
                        MapModel::empty(),
                        "contents"@,
                        JsonModel::Array(seq![part_model("user"@, r.prompt)]),
                    ),
                    "systemInstruction"@,
                    match r.role_system {
                        Some(s) => Some(part_model("system"@, s)),
                        None => None,
                    },
                ),
                "generationConfig"@,
                if config.len() == 0 {
                    None
                } else {
                    Some(JsonModel::Object(config))
                },
            ),
            "safetySettings"@,
            match safety {
                Some(s) => Some(safety_model(s)),
                None => None,
            },
        ),
    )
}

pub fn gemini_json(request: &ModelRequest, hints: &GeminiHints) -> (r: Json)
    ensures
        r@ == gemini_body(
            request@,
            opt_safety(hints.safety_settings),
            opt_text(hints.response_mime_type),
        ),
{
    let mut contents: Vec<Json> = Vec::new();
    let user = part_json("user", request.prompt.as_str());
    contents.push(user);
    assert(list_model(contents@) =~= seq![user@]);
    let mut m = JsonMap::new();
    m.insert("contents".to_owned(), Json::Array(contents));
    match &request.role_system {
        Some(s) => m.insert("systemInstruction".to_owned(), part_json("system", s.as_str())),
        None => {},
    }
    let config = generation_json(request, &hints.response_mime_type);
    if config.len() > 0 {
        m.insert("generationConfig".to_owned(), Json::Object(config));
    }
    match &hints.safety_settings {
        Some(s) => m.insert("safetySettings".to_owned(), safety_json(s)),
        None => {},
    }
    Json::Object(m)
}

/// The name of a model as this service has it.
pub open spec fn model_path(model: Seq<char>) -> Seq<char> {
    if has_prefix(model, "models/"@) {
        model
    } else {
        "models/"@ + model
    }
}

pub fn gemini_model_path(model: &str) -> (r: String)
    ensures
        r@ == model_path(model@),
{
    if starts_with(model, "models/") {
        model.to_owned()
    } else {
        concat("models/", model)
    }
}

/// Where a provider is called.
pub open spec fn call_url(kind: ProviderKind, base: Seq<char>, model: Seq<char>) -> Seq<char> {
    let root = trim_end_of(base, '/');
    match kind {
        ProviderKind::Http => root + "/v1/completions"@,
        ProviderKind::HttpOpenAiChat => root + "/v1/chat/completions"@,
        ProviderKind::HttpAnthropic => root + "/v1/messages"@,
        ProviderKind::HttpOllama => root + "/api/generate"@,
        ProviderKind::HttpGemini => root + "/v1beta/"@ + model_path(model) + ":generateContent"@,
        ProviderKind::Local => ""@,
    }
}

fn url_for(kind: ProviderKind, base: &str, model: &str) -> (r: String)
    ensures
        r@ == call_url(kind, base@, model@),
{
    let root = trimmed_end_of(base, '/');
    match kind {
        ProviderKind::Http => concat(root.as_str(), "/v1/completions"),
        ProviderKind::HttpOpenAiChat => concat(root.as_str(), "/v1/chat/completions"),
        ProviderKind::HttpAnthropic => concat(root.as_str(), "/v1/messages"),
        ProviderKind::HttpOllama => concat(root.as_str(), "/api/generate"),
        ProviderKind::HttpGemini => {
            let path = gemini_model_path(model);
            let mut u = concat3(root.as_str(), "/v1beta/", path.as_str());
            u.append(":generateContent");
            u
        },
        ProviderKind::Local => "".to_owned(),
    }
}

/// The header in which a provider takes its secret, where it is no bearer token.
pub open spec fn secret_header(kind: ProviderKind) -> Option<Seq<char>> {
    match kind {
        ProviderKind::HttpAnthropic => Some("x-api-key"@),
        ProviderKind::HttpGemini => Some("X-Goog-Api-Key"@),
        _ => None,
    }
}

/// The headers of a call: the secret, the standing ones, the trace.
pub open spec fn call_headers(p: ProviderModel, r: RequestModel, secret: Seq<char>) -> HeaderModels {
    let first = match secret_header(p.kind) {
        Some(name) => if secret.len() > 0 {
            seq![(name, secret)]
        } else {
            seq![]
        },
        None => seq![],
    };
    (first + p.headers).push(("X-Runloop-Trace-Id"@, "trace:"@ + uuid_text(r.trace_id)))
}

pub open spec fn call_bearer(kind: ProviderKind, secret: Seq<char>) -> Option<Seq<char>> {
    match kind {
        ProviderKind::Http | ProviderKind::HttpOpenAiChat => if secret.len() > 0 {
            Some(secret)
        } else {
            None
        },
        _ => None,
    }
}

pub open spec fn call_body(
    kind: ProviderKind,
    r: RequestModel,
    model: Seq<char>,
    safety: Option<SafetyModels>,
    mime: Option<Seq<char>>,
) -> JsonModel {
    match kind {
        ProviderKind::Http => completions_body(r, model),
        ProviderKind::HttpOpenAiChat => chat_body(r, model),
        ProviderKind::HttpAnthropic => anthropic_body(r, model),
        ProviderKind::HttpOllama => ollama_body(r, model),
        ProviderKind::HttpGemini => gemini_body(r, safety, mime),
        ProviderKind::Local => JsonModel::Null,
    }
}

fn headers_for(provider: &Provider, request: &ModelRequest, secret: &str) -> (r: Vec<
    (String, String),
>)
    ensures
        header_models(r@) == call_headers(provider@, request@, secret@),
{
    let mut out: Vec<(String, String)> = Vec::new();
    if !secret.is_empty() {
        match provider.kind {
            ProviderKind::HttpAnthropic => {
                out.push(("x-api-key".to_owned(), secret.to_owned()));
            },
            ProviderKind::HttpGemini => {
                out.push(("X-Goog-Api-Key".to_owned(), secret.to_owned()));
            },
            _ => {},
        }
    }
    let ghost first = header_models(out@);
    let ghost own = provider@.headers;
    proof {
        let want: HeaderModels = match secret_header(provider.kind) {
            Some(name) => if secret@.len() > 0 {
                seq![(name, secret@)]
            } else {
                seq![]
            },
            None => seq![],
        };
        assert(first =~= want);
        assert(first + own.take(0) =~= first);
    }
    let mut i: usize = 0;
    while i < provider.headers.len()
        invariant
            i <= provider.headers.len(),
            own == provider@.headers,
            header_models(out@) == first + own.take(i as int),
        decreases provider.headers.len() - i,
    {
        let ghost o = out@;
        let h = (provider.headers[i].0.clone(), provider.headers[i].1.clone());
        out.push(h);
        assert(own[i as int] == (h.0@, h.1@));
        assert(header_models(out@) =~= header_models(o).push(own[i as int]));
        assert(first + own.take(i + 1) =~= (first + own.take(i as int)).push(own[i as int]));
        i += 1;
    }
    assert(own.take(own.len() as int) =~= own);
    let ghost o = out@;
    let trace = request.trace_id.text();
    out.push(("X-Runloop-Trace-Id".to_owned(), trace));
    assert(header_models(out@) =~= header_models(o).push(("X-Runloop-Trace-Id"@, trace@)));
    out
}

/// The call to a provider; none for one that is not reached over HTTP.
pub fn http_call(
    provider: &Provider,
    request: &ModelRequest,
    model: &str,
    secret: &str,
    hints: &GeminiHints,
) -> (r: Option<HttpCall>)
    ensures
        match r {
            Some(c) => provider.kind != ProviderKind::Local && c@ == (HttpModel {
                url: call_url(provider.kind, provider.base_url@, model@),
                bearer: call_bearer(provider.kind, secret@),
                headers: call_headers(provider@, request@, secret@),
                body: call_body(
                    provider.kind,
                    request@,
                    model@,
                    opt_safety(hints.safety_settings),
                    opt_text(hints.response_mime_type),
                ),
            }),
            None => provider.kind == ProviderKind::Local,
        },
{
    let body = match provider.kind {
        ProviderKind::Local => {
            return None;
        },
        ProviderKind::Http => completions_json(request, model),
        ProviderKind::HttpOpenAiChat => chat_json(request, model),
        ProviderKind::HttpAnthropic => anthropic_json(request, model),
        ProviderKind::HttpOllama => ollama_json(request, model),
        ProviderKind::HttpGemini => gemini_json(request, hints),
    };
    let bearer = match provider.kind {
        ProviderKind::Http | ProviderKind::HttpOpenAiChat => if secret.is_empty() {
            None
        } else {
            Some(secret.to_owned())
        },
        _ => None,
    };
    Some(
        HttpCall {
            url: url_for(provider.kind, provider.base_url.as_str(), model),
            bearer,
            headers: headers_for(provider, request, secret),
            body,
        },
    )
}

} // verus!
