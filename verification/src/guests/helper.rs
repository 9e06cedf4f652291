//! Asks a model, runs a command, and tells of both.

use crate::broker::types::{
    Fraction, FractionModel, ModelParams, ModelRequest, ParamsModel, RequestModel,
};
use crate::guests::host::{ExecResult, ModelOutput, ModelOutputMeta};
use crate::ids::TraceId;
use crate::json::{
    int_json, int_model, map_insert, text_json, Json, JsonMap, JsonModel, MapModel, Numeral,
    NumeralModel,
};
use crate::kb::traces::text_or_null;
use crate::text::opt_text;
use vstd::prelude::*;

verus! {

/// What the model is asked.
pub open spec fn helper_request(model: Seq<char>, prompt: Seq<char>) -> RequestModel {
    RequestModel {
        trace_id: 0,
        model,
        prompt,
        role_system: None,
        params: Some(
            ParamsModel {
                temperature: Some(FractionModel { short: "0.4"@, wide: "0.4000000059604645"@ }),
                top_p: None,
                max_tokens: None,
                stop: None,
            },
        ),
        budget_tokens: Some(4096),
        timeout_ms: Some(15000),
        cache_ttl_ms: None,
        cache_key: None,
        stream: false,
        extras: None,
    }
}

pub fn request(model: &str, prompt: String) -> (r: ModelRequest)
    ensures
        r@ == helper_request(model@, prompt@),
{
    ModelRequest {
        trace_id: TraceId(0),
        model: model.to_owned(),
        prompt,
        role_system: None,
        params: Some(
            ModelParams {
                temperature: Some(
                    Fraction { short: "0.4".to_owned(), wide: "0.4000000059604645".to_owned() },
                ),
                top_p: None,
                max_tokens: None,
                stop: None,
            },
        ),
        budget_tokens: Some(4096),
        timeout_ms: Some(15000),
        cache_ttl_ms: None,
        cache_key: None,
        stream: false,
        extras: None,
    }
}

pub open spec fn number_or_null(n: Option<u32>) -> JsonModel {
    match n {
        Some(x) => JsonModel::Number(NumeralModel::Unsigned(x as u64)),
        None => JsonModel::Null,
    }
}

fn small_json(n: Option<u32>) -> (r: Json)
    ensures
        r@ == number_or_null(n),
{
    match n {
        Some(x) => Json::Number(Numeral::Unsigned(x as u64)),
        None => Json::Null,
    }
}

pub open spec fn meta_tree(m: ModelOutputMeta) -> JsonModel {
    let a = map_insert(MapModel::empty(), "tokens_in"@, number_or_null(m.tokens_in));
    let b = map_insert(a, "tokens_out"@, number_or_null(m.tokens_out));
    let c = map_insert(b, "cached"@, JsonModel::Bool(m.cached));
    let d = map_insert(c, "provider"@, JsonModel::Text(m.provider@));
    let e = map_insert(d, "provider_model"@, JsonModel::Text(m.provider_model@));
    let f = map_insert(
        e,
        "latency_ms"@,
        JsonModel::Number(NumeralModel::Unsigned(m.latency_ms as u64)),
    );
    JsonModel::Object(map_insert(f, "finish_reason"@, text_or_null(opt_text(m.finish_reason))))
}

fn meta_json(m: &ModelOutputMeta) -> (r: Json)
    ensures
        r@ == meta_tree(*m),
{
    let mut t = JsonMap::new();
    t.insert("tokens_in".to_owned(), small_json(m.tokens_in));
    t.insert("tokens_out".to_owned(), small_json(m.tokens_out));
    t.insert("cached".to_owned(), Json::Bool(m.cached));
    t.insert("provider".to_owned(), text_json(m.provider.as_str()));
    t.insert("provider_model".to_owned(), text_json(m.provider_model.as_str()));
    t.insert("latency_ms".to_owned(), Json::Number(Numeral::Unsigned(m.latency_ms as u64)));
    t.insert(
        "finish_reason".to_owned(),
        match &m.finish_reason {
            Some(s) => text_json(s.as_str()),
            None => Json::Null,
        },
    );
    Json::Object(t)
}

/// What is told of the model and of the command, as far as each was asked for.
pub open spec fn told(
    answer: Option<ModelOutput>,
    command: Option<Seq<char>>,
    ran: Option<ExecResult>,
) -> JsonModel {
    let a = match answer {
        Some(o) => map_insert(
            MapModel::empty(),
            "model"@,
            JsonModel::Object(
                map_insert(
                    map_insert(MapModel::empty(), "text"@, JsonModel::Text(o.text@)),
                    "meta"@,
                    match o.meta {
                        Some(m) => meta_tree(m),
                        None => JsonModel::Null,
                    },
                ),
            ),
        ),
        None => MapModel::empty(),
    };
    JsonModel::Object(
        match (command, ran) {
            (Some(c), Some(x)) => map_insert(
                a,
                "exec"@,
                JsonModel::Object(
                    map_insert(
                        map_insert(
                            map_insert(
                                map_insert(MapModel::empty(), "command"@, JsonModel::Text(c)),
                                "exit_code"@,
                                int_model(x.exit_code as int),
                            ),
                            "stdout"@,
                            JsonModel::Text(x.stdout@),
                        ),
                        "stderr"@,
                        JsonModel::Text(x.stderr@),
                    ),
                ),
            ),
            _ => a,
        },
    )
}

pub fn tell(answer: &Option<ModelOutput>, command: &Option<String>, ran: &Option<ExecResult>) -> (r:
    Json)
    ensures
        r@ == told(*answer, opt_text(*command), *ran),
{
    let mut t = JsonMap::new();
    match answer {
        Some(o) => {
            let mut m = JsonMap::new();
            m.insert("text".to_owned(), text_json(o.text.as_str()));
            m.insert(
                "meta".to_owned(),
                match &o.meta {
                    Some(x) => meta_json(x),
                    None => Json::Null,
                },
            );
            t.insert("model".to_owned(), Json::Object(m));
        },
        None => {},
    }
    match (command, ran) {
        (Some(c), Some(x)) => {
            let mut m = JsonMap::new();
            m.insert("command".to_owned(), text_json(c.as_str()));
            m.insert("exit_code".to_owned(), int_json(x.exit_code as i64));
            m.insert("stdout".to_owned(), text_json(x.stdout.as_str()));
            m.insert("stderr".to_owned(), text_json(x.stderr.as_str()));
            t.insert("exec".to_owned(), Json::Object(m));
        },
        _ => {},
    }
    Json::Object(t)
}

} // verus!
