//! What is sent to a provider: the model, the words and the parameters of the request.

use crate::broker::answers::{
    anthropic_answer, chat_answer, completions_answer, gathered, ollama_answer, AnthropicResponse,
    OllamaResponse, OpenAiChatResponse, OpenAiCompletionResponse,
};
use crate::broker::calls::{
    anthropic_body, call_bearer, call_body, call_headers, call_url, chat_body, completions_body,
    gemini_body, generation_config, length_limit, message_model, messages_model, number_model,
    ollama_body, ollama_options, opt_list, opt_number, opt_wide, opt_words, params_of, part_model, put,
    secret_of, SafetyModels,
};
use crate::broker::desk::ProviderModel;
use crate::broker::types::{BrokerFault, RequestModel};
use crate::config::settings::ProviderKind;
use crate::ids::uuid_text;
use crate::json::{insert_then_get, map_get, map_insert, ordered, tree_get, JsonModel, MapModel};
use crate::text::{has_prefix, trim, trim_end_of};
use vstd::prelude::*;

verus! {

proof fn lemma_put(m: MapModel, key: Seq<char>, value: Option<JsonModel>, q: Seq<char>)
    requires
        ordered(m),
    ensures
        ordered(put(m, key, value)),
        q != key ==> map_get(put(m, key, value), q) == map_get(m, q),
        value is Some ==> map_get(put(m, key, value), key) == value,
        value is None ==> put(m, key, value) == m,
{
    if value is Some {
        insert_then_get(m, key, value->0, q);
    }
}

/// What the completion service is sent: the model, the prompt as it is, and the parameters that the
/// request has.
pub proof fn completions_carry_the_request(r: RequestModel, model: Seq<char>)
    ensures
        tree_get(completions_body(r, model), "model"@) == Some(JsonModel::Text(model)),
        tree_get(completions_body(r, model), "prompt"@) == Some(JsonModel::Text(r.prompt)),
        tree_get(completions_body(r, model), "stream"@) == Some(JsonModel::Bool(false)),
        tree_get(completions_body(r, model), "max_tokens"@) == opt_number(params_of(r).max_tokens),
        tree_get(completions_body(r, model), "temperature"@) == opt_wide(params_of(r).temperature),
        tree_get(completions_body(r, model), "top_p"@) == opt_wide(params_of(r).top_p),
        tree_get(completions_body(r, model), "stop"@) == opt_list(params_of(r).stop),
{
    let p = params_of(r);
    reveal_strlit("model");
    reveal_strlit("prompt");
    reveal_strlit("stream");
    reveal_strlit("max_tokens");
    reveal_strlit("temperature");
    reveal_strlit("top_p");
    reveal_strlit("stop");
    assert("model"@.len() != "prompt"@.len());
    assert("model"@.len() != "stream"@.len());
    assert("model"@.len() != "max_tokens"@.len());
    assert("model"@.len() != "temperature"@.len());
    assert("model"@[0] != "top_p"@[0]);
    assert("model"@.len() != "stop"@.len());
    assert("prompt"@[0] != "stream"@[0]);
    assert("prompt"@.len() != "max_tokens"@.len());
    assert("prompt"@.len() != "temperature"@.len());
    assert("prompt"@.len() != "top_p"@.len());
    assert("prompt"@.len() != "stop"@.len());
    assert("stream"@.len() != "max_tokens"@.len());
    assert("stream"@.len() != "temperature"@.len());
    assert("stream"@.len() != "top_p"@.len());
    assert("stream"@.len() != "stop"@.len());
    assert("max_tokens"@.len() != "temperature"@.len());
    assert("max_tokens"@.len() != "top_p"@.len());
    assert("max_tokens"@.len() != "stop"@.len());
    assert("temperature"@.len() != "top_p"@.len());
    assert("temperature"@.len() != "stop"@.len());
    assert("top_p"@.len() != "stop"@.len());
    let m0 = MapModel::empty();
    let m1 = map_insert(m0, "model"@, JsonModel::Text(model));
    let m2 = map_insert(m1, "prompt"@, JsonModel::Text(r.prompt));
    let m3 = map_insert(m2, "stream"@, JsonModel::Bool(false));
    let m4 = put(m3, "max_tokens"@, opt_number(p.max_tokens));
    let m5 = put(m4, "temperature"@, opt_wide(p.temperature));
    let m6 = put(m5, "top_p"@, opt_wide(p.top_p));
    let m7 = put(m6, "stop"@, opt_list(p.stop));
    insert_then_get(m0, "model"@, JsonModel::Text(model), "model"@);
    insert_then_get(m0, "model"@, JsonModel::Text(model), "prompt"@);
    insert_then_get(m0, "model"@, JsonModel::Text(model), "stream"@);
    insert_then_get(m0, "model"@, JsonModel::Text(model), "max_tokens"@);
    insert_then_get(m0, "model"@, JsonModel::Text(model), "temperature"@);
    insert_then_get(m0, "model"@, JsonModel::Text(model), "top_p"@);
    insert_then_get(m0, "model"@, JsonModel::Text(model), "stop"@);
    insert_then_get(m1, "prompt"@, JsonModel::Text(r.prompt), "model"@);
    insert_then_get(m1, "prompt"@, JsonModel::Text(r.prompt), "prompt"@);
    insert_then_get(m1, "prompt"@, JsonModel::Text(r.prompt), "stream"@);
    insert_then_get(m1, "prompt"@, JsonModel::Text(r.prompt), "max_tokens"@);
    insert_then_get(m1, "prompt"@, JsonModel::Text(r.prompt), "temperature"@);
    insert_then_get(m1, "prompt"@, JsonModel::Text(r.prompt), "top_p"@);
    insert_then_get(m1, "prompt"@, JsonModel::Text(r.prompt), "stop"@);
    insert_then_get(m2, "stream"@, JsonModel::Bool(false), "model"@);
    insert_then_get(m2, "stream"@, JsonModel::Bool(false), "prompt"@);
    insert_then_get(m2, "stream"@, JsonModel::Bool(false), "stream"@);
    insert_then_get(m2, "stream"@, JsonModel::Bool(false), "max_tokens"@);
    insert_then_get(m2, "stream"@, JsonModel::Bool(false), "temperature"@);
    insert_then_get(m2, "stream"@, JsonModel::Bool(false), "top_p"@);
    insert_then_get(m2, "stream"@, JsonModel::Bool(false), "stop"@);
    lemma_put(m3, "max_tokens"@, opt_number(p.max_tokens), "model"@);
    lemma_put(m3, "max_tokens"@, opt_number(p.max_tokens), "prompt"@);
    lemma_put(m3, "max_tokens"@, opt_number(p.max_tokens), "stream"@);
    lemma_put(m3, "max_tokens"@, opt_number(p.max_tokens), "max_tokens"@);
    lemma_put(m3, "max_tokens"@, opt_number(p.max_tokens), "temperature"@);
    lemma_put(m3, "max_tokens"@, opt_number(p.max_tokens), "top_p"@);
    lemma_put(m3, "max_tokens"@, opt_number(p.max_tokens), "stop"@);
    lemma_put(m4, "temperature"@, opt_wide(p.temperature), "model"@);
    lemma_put(m4, "temperature"@, opt_wide(p.temperature), "prompt"@);
    lemma_put(m4, "temperature"@, opt_wide(p.temperature), "stream"@);
    lemma_put(m4, "temperature"@, opt_wide(p.temperature), "max_tokens"@);
    lemma_put(m4, "temperature"@, opt_wide(p.temperature), "temperature"@);
    lemma_put(m4, "temperature"@, opt_wide(p.temperature), "top_p"@);
    lemma_put(m4, "temperature"@, opt_wide(p.temperature), "stop"@);
    lemma_put(m5, "top_p"@, opt_wide(p.top_p), "model"@);
    lemma_put(m5, "top_p"@, opt_wide(p.top_p), "prompt"@);
    lemma_put(m5, "top_p"@, opt_wide(p.top_p), "stream"@);
    lemma_put(m5, "top_p"@, opt_wide(p.top_p), "max_tokens"@);
    lemma_put(m5, "top_p"@, opt_wide(p.top_p), "temperature"@);
    lemma_put(m5, "top_p"@, opt_wide(p.top_p), "top_p"@);
    lemma_put(m5, "top_p"@, opt_wide(p.top_p), "stop"@);
    lemma_put(m6, "stop"@, opt_list(p.stop), "model"@);
    lemma_put(m6, "stop"@, opt_list(p.stop), "prompt"@);
    lemma_put(m6, "stop"@, opt_list(p.stop), "stream"@);
    lemma_put(m6, "stop"@, opt_list(p.stop), "max_tokens"@);
    lemma_put(m6, "stop"@, opt_list(p.stop), "temperature"@);
    lemma_put(m6, "stop"@, opt_list(p.stop), "top_p"@);
    lemma_put(m6, "stop"@, opt_list(p.stop), "stop"@);
}

/// What the chat service is sent: the model, the conversation, and the parameters that the request has.
pub proof fn chats_carry_the_request(r: RequestModel, model: Seq<char>)
    ensures
        tree_get(chat_body(r, model), "model"@) == Some(JsonModel::Text(model)),
        tree_get(chat_body(r, model), "messages"@) == Some(messages_model(r)),
        tree_get(chat_body(r, model), "stream"@) == Some(JsonModel::Bool(false)),
        tree_get(chat_body(r, model), "max_tokens"@) == opt_number(params_of(r).max_tokens),
        tree_get(chat_body(r, model), "temperature"@) == opt_wide(params_of(r).temperature),
        tree_get(chat_body(r, model), "top_p"@) == opt_wide(params_of(r).top_p),
        tree_get(chat_body(r, model), "stop"@) == opt_list(params_of(r).stop),
{
    let p = params_of(r);
    reveal_strlit("model");
    reveal_strlit("messages");
    reveal_strlit("stream");
    reveal_strlit("max_tokens");
    reveal_strlit("temperature");
    reveal_strlit("top_p");
    reveal_strlit("stop");
    assert("model"@.len() != "messages"@.len());
    assert("model"@.len() != "stream"@.len());
    assert("model"@.len() != "max_tokens"@.len());
    assert("model"@.len() != "temperature"@.len());
    assert("model"@[0] != "top_p"@[0]);
    assert("model"@.len() != "stop"@.len());
    assert("messages"@.len() != "stream"@.len());
    assert("messages"@.len() != "max_tokens"@.len());
    assert("messages"@.len() != "temperature"@.len());
    assert("messages"@.len() != "top_p"@.len());
    assert("messages"@.len() != "stop"@.len());
    assert("stream"@.len() != "max_tokens"@.len());
    assert("stream"@.len() != "temperature"@.len());
    assert("stream"@.len() != "top_p"@.len());
    assert("stream"@.len() != "stop"@.len());
    assert("max_tokens"@.len() != "temperature"@.len());
    assert("max_tokens"@.len() != "top_p"@.len());
    assert("max_tokens"@.len() != "stop"@.len());
    assert("temperature"@.len() != "top_p"@.len());
    assert("temperature"@.len() != "stop"@.len());
    assert("top_p"@.len() != "stop"@.len());
    let m0 = MapModel::empty();
    let m1 = map_insert(m0, "model"@, JsonModel::Text(model));
    let m2 = map_insert(m1, "messages"@, messages_model(r));
    let m3 = map_insert(m2, "stream"@, JsonModel::Bool(false));
    let m4 = put(m3, "max_tokens"@, opt_number(p.max_tokens));
    let m5 = put(m4, "temperature"@, opt_wide(p.temperature));
    let m6 = put(m5, "top_p"@, opt_wide(p.top_p));
    let m7 = put(m6, "stop"@, opt_list(p.stop));
    insert_then_get(m0, "model"@, JsonModel::Text(model), "model"@);
    insert_then_get(m0, "model"@, JsonModel::Text(model), "messages"@);
    insert_then_get(m0, "model"@, JsonModel::Text(model), "stream"@);
    insert_then_get(m0, "model"@, JsonModel::Text(model), "max_tokens"@);
    insert_then_get(m0, "model"@, JsonModel::Text(model), "temperature"@);
    insert_then_get(m0, "model"@, JsonModel::Text(model), "top_p"@);
    insert_then_get(m0, "model"@, JsonModel::Text(model), "stop"@);
    insert_then_get(m1, "messages"@, messages_model(r), "model"@);
    insert_then_get(m1, "messages"@, messages_model(r), "messages"@);
    insert_then_get(m1, "messages"@, messages_model(r), "stream"@);
    insert_then_get(m1, "messages"@, messages_model(r), "max_tokens"@);
    insert_then_get(m1, "messages"@, messages_model(r), "temperature"@);
    insert_then_get(m1, "messages"@, messages_model(r), "top_p"@);
    insert_then_get(m1, "messages"@, messages_model(r), "stop"@);
    insert_then_get(m2, "stream"@, JsonModel::Bool(false), "model"@);
    insert_then_get(m2, "stream"@, JsonModel::Bool(false), "messages"@);
    insert_then_get(m2, "stream"@, JsonModel::Bool(false), "stream"@);
    insert_then_get(m2, "stream"@, JsonModel::Bool(false), "max_tokens"@);
    insert_then_get(m2, "stream"@, JsonModel::Bool(false), "temperature"@);
    insert_then_get(m2, "stream"@, JsonModel::Bool(false), "top_p"@);
    insert_then_get(m2, "stream"@, JsonModel::Bool(false), "stop"@);
    lemma_put(m3, "max_tokens"@, opt_number(p.max_tokens), "model"@);
    lemma_put(m3, "max_tokens"@, opt_number(p.max_tokens), "messages"@);
    lemma_put(m3, "max_tokens"@, opt_number(p.max_tokens), "stream"@);
    lemma_put(m3, "max_tokens"@, opt_number(p.max_tokens), "max_tokens"@);
    lemma_put(m3, "max_tokens"@, opt_number(p.max_tokens), "temperature"@);
    lemma_put(m3, "max_tokens"@, opt_number(p.max_tokens), "top_p"@);
    lemma_put(m3, "max_tokens"@, opt_number(p.max_tokens), "stop"@);
    lemma_put(m4, "temperature"@, opt_wide(p.temperature), "model"@);
    lemma_put(m4, "temperature"@, opt_wide(p.temperature), "messages"@);
    lemma_put(m4, "temperature"@, opt_wide(p.temperature), "stream"@);
    lemma_put(m4, "temperature"@, opt_wide(p.temperature), "max_tokens"@);
    lemma_put(m4, "temperature"@, opt_wide(p.temperature), "temperature"@);
    lemma_put(m4, "temperature"@, opt_wide(p.temperature), "top_p"@);
    lemma_put(m4, "temperature"@, opt_wide(p.temperature), "stop"@);
    lemma_put(m5, "top_p"@, opt_wide(p.top_p), "model"@);
    lemma_put(m5, "top_p"@, opt_wide(p.top_p), "messages"@);
    lemma_put(m5, "top_p"@, opt_wide(p.top_p), "stream"@);
    lemma_put(m5, "top_p"@, opt_wide(p.top_p), "max_tokens"@);
    lemma_put(m5, "top_p"@, opt_wide(p.top_p), "temperature"@);
    lemma_put(m5, "top_p"@, opt_wide(p.top_p), "top_p"@);
    lemma_put(m5, "top_p"@, opt_wide(p.top_p), "stop"@);
    lemma_put(m6, "stop"@, opt_list(p.stop), "model"@);
    lemma_put(m6, "stop"@, opt_list(p.stop), "messages"@);
    lemma_put(m6, "stop"@, opt_list(p.stop), "stream"@);
    lemma_put(m6, "stop"@, opt_list(p.stop), "max_tokens"@);
    lemma_put(m6, "stop"@, opt_list(p.stop), "temperature"@);
    lemma_put(m6, "stop"@, opt_list(p.stop), "top_p"@);
    lemma_put(m6, "stop"@, opt_list(p.stop), "stop"@);
}

/// A conversation ends with the prompt, as the user's words; the instructions come before it, as the
/// system's.
pub proof fn conversations_end_with_the_prompt(r: RequestModel, role: Seq<char>, content: Seq<char>)
    ensures
        messages_model(r) matches JsonModel::Array(s) && s.len() > 0 && s.last() == message_model(
            "user"@,
            r.prompt,
        ) && (r.role_system matches Some(t) ==> s.len() == 2 && s[0] == message_model("system"@, t)) && (
        r.role_system is None ==> s.len() == 1),
        tree_get(message_model(role, content), "role"@) == Some(JsonModel::Text(role)),
        tree_get(message_model(role, content), "content"@) == Some(JsonModel::Text(content)),
{
    reveal_strlit("role");
    reveal_strlit("content");
    assert("role"@.len() != "content"@.len());
    let m0 = MapModel::empty();
    let m1 = map_insert(m0, "role"@, JsonModel::Text(role));
    let m2 = map_insert(m1, "content"@, JsonModel::Text(content));
    insert_then_get(m0, "role"@, JsonModel::Text(role), "role"@);
    insert_then_get(m0, "role"@, JsonModel::Text(role), "content"@);
    insert_then_get(m1, "content"@, JsonModel::Text(content), "role"@);
    insert_then_get(m1, "content"@, JsonModel::Text(content), "content"@);
}

/// What the message service is sent: the model, the prompt, the instructions beside it, and a limit,
/// which is never zero.
pub proof fn messages_carry_the_request(r: RequestModel, model: Seq<char>)
    ensures
        tree_get(anthropic_body(r, model), "model"@) == Some(JsonModel::Text(model)),
        tree_get(anthropic_body(r, model), "messages"@) == Some(JsonModel::Array(seq![message_model("user"@, r.prompt)])),
        tree_get(anthropic_body(r, model), "stream"@) == Some(JsonModel::Bool(false)),
        tree_get(anthropic_body(r, model), "system"@) == opt_words(r.role_system),
        tree_get(anthropic_body(r, model), "temperature"@) == opt_wide(params_of(r).temperature),
        tree_get(anthropic_body(r, model), "top_p"@) == opt_wide(params_of(r).top_p),
        tree_get(anthropic_body(r, model), "stop_sequences"@) == opt_list(params_of(r).stop),
        params_of(r).max_tokens matches Some(n) ==> n > 0 ==> tree_get(anthropic_body(r, model), "max_tokens"@) == Some(
            number_model(n),
        ),
        params_of(r).max_tokens == Some(0u32) ==> tree_get(anthropic_body(r, model), "max_tokens"@) == Some(
            number_model(1),
        ),
        params_of(r).max_tokens is None ==> tree_get(anthropic_body(r, model), "max_tokens"@) == Some(
            number_model(512),
        ),
{
    let p = params_of(r);
    reveal_strlit("model");
    reveal_strlit("messages");
    reveal_strlit("stream");
    reveal_strlit("system");
    reveal_strlit("max_tokens");
    reveal_strlit("temperature");
    reveal_strlit("top_p");
    reveal_strlit("stop_sequences");
    assert("model"@.len() != "messages"@.len());
    assert("model"@.len() != "stream"@.len());
    assert("model"@.len() != "system"@.len());
    assert("model"@.len() != "max_tokens"@.len());
    assert("model"@.len() != "temperature"@.len());
    assert("model"@[0] != "top_p"@[0]);
    assert("model"@.len() != "stop_sequences"@.len());
    assert("messages"@.len() != "stream"@.len());
    assert("messages"@.len() != "system"@.len());
    assert("messages"@.len() != "max_tokens"@.len());
    assert("messages"@.len() != "temperature"@.len());
    assert("messages"@.len() != "top_p"@.len());
    assert("messages"@.len() != "stop_sequences"@.len());
    assert("stream"@[1] != "system"@[1]);
    assert("stream"@.len() != "max_tokens"@.len());
    assert("stream"@.len() != "temperature"@.len());
    assert("stream"@.len() != "top_p"@.len());
    assert("stream"@.len() != "stop_sequences"@.len());
    assert("system"@.len() != "max_tokens"@.len());
    assert("system"@.len() != "temperature"@.len());
    assert("system"@.len() != "top_p"@.len());
    assert("system"@.len() != "stop_sequences"@.len());
    assert("max_tokens"@.len() != "temperature"@.len());
    assert("max_tokens"@.len() != "top_p"@.len());
    assert("max_tokens"@.len() != "stop_sequences"@.len());
    assert("temperature"@.len() != "top_p"@.len());
    assert("temperature"@.len() != "stop_sequences"@.len());
    assert("top_p"@.len() != "stop_sequences"@.len());
    let m0 = MapModel::empty();
    let m1 = map_insert(m0, "model"@, JsonModel::Text(model));
    let m2 = map_insert(m1, "messages"@, JsonModel::Array(seq![message_model("user"@, r.prompt)]));
    let m3 = map_insert(m2, "stream"@, JsonModel::Bool(false));
    let m4 = put(m3, "system"@, opt_words(r.role_system));
    let m5 = map_insert(m4, "max_tokens"@, number_model(length_limit(p)));
    let m6 = put(m5, "temperature"@, opt_wide(p.temperature));
    let m7 = put(m6, "top_p"@, opt_wide(p.top_p));
    let m8 = put(m7, "stop_sequences"@, opt_list(p.stop));
    insert_then_get(m0, "model"@, JsonModel::Text(model), "model"@);
    insert_then_get(m0, "model"@, JsonModel::Text(model), "messages"@);
    insert_then_get(m0, "model"@, JsonModel::Text(model), "stream"@);
    insert_then_get(m0, "model"@, JsonModel::Text(model), "system"@);
    insert_then_get(m0, "model"@, JsonModel::Text(model), "max_tokens"@);
    insert_then_get(m0, "model"@, JsonModel::Text(model), "temperature"@);
    insert_then_get(m0, "model"@, JsonModel::Text(model), "top_p"@);
    insert_then_get(m0, "model"@, JsonModel::Text(model), "stop_sequences"@);
    insert_then_get(m1, "messages"@, JsonModel::Array(seq![message_model("user"@, r.prompt)]), "model"@);
    insert_then_get(m1, "messages"@, JsonModel::Array(seq![message_model("user"@, r.prompt)]), "messages"@);
    insert_then_get(m1, "messages"@, JsonModel::Array(seq![message_model("user"@, r.prompt)]), "stream"@);
    insert_then_get(m1, "messages"@, JsonModel::Array(seq![message_model("user"@, r.prompt)]), "system"@);
    insert_then_get(m1, "messages"@, JsonModel::Array(seq![message_model("user"@, r.prompt)]), "max_tokens"@);
    insert_then_get(m1, "messages"@, JsonModel::Array(seq![message_model("user"@, r.prompt)]), "temperature"@);
    insert_then_get(m1, "messages"@, JsonModel::Array(seq![message_model("user"@, r.prompt)]), "top_p"@);
    insert_then_get(m1, "messages"@, JsonModel::Array(seq![message_model("user"@, r.prompt)]), "stop_sequences"@);
    insert_then_get(m2, "stream"@, JsonModel::Bool(false), "model"@);
    insert_then_get(m2, "stream"@, JsonModel::Bool(false), "messages"@);
    insert_then_get(m2, "stream"@, JsonModel::Bool(false), "stream"@);
    insert_then_get(m2, "stream"@, JsonModel::Bool(false), "system"@);
    insert_then_get(m2, "stream"@, JsonModel::Bool(false), "max_tokens"@);
    insert_then_get(m2, "stream"@, JsonModel::Bool(false), "temperature"@);
    insert_then_get(m2, "stream"@, JsonModel::Bool(false), "top_p"@);
    insert_then_get(m2, "stream"@, JsonModel::Bool(false), "stop_sequences"@);
    lemma_put(m3, "system"@, opt_words(r.role_system), "model"@);
    lemma_put(m3, "system"@, opt_words(r.role_system), "messages"@);
    lemma_put(m3, "system"@, opt_words(r.role_system), "stream"@);
    lemma_put(m3, "system"@, opt_words(r.role_system), "system"@);
    lemma_put(m3, "system"@, opt_words(r.role_system), "max_tokens"@);
    lemma_put(m3, "system"@, opt_words(r.role_system), "temperature"@);
    lemma_put(m3, "system"@, opt_words(r.role_system), "top_p"@);
    lemma_put(m3, "system"@, opt_words(r.role_system), "stop_sequences"@);
    insert_then_get(m4, "max_tokens"@, number_model(length_limit(p)), "model"@);
    insert_then_get(m4, "max_tokens"@, number_model(length_limit(p)), "messages"@);
    insert_then_get(m4, "max_tokens"@, number_model(length_limit(p)), "stream"@);
    insert_then_get(m4, "max_tokens"@, number_model(length_limit(p)), "system"@);
    insert_then_get(m4, "max_tokens"@, number_model(length_limit(p)), "max_tokens"@);
    insert_then_get(m4, "max_tokens"@, number_model(length_limit(p)), "temperature"@);
    insert_then_get(m4, "max_tokens"@, number_model(length_limit(p)), "top_p"@);
    insert_then_get(m4, "max_tokens"@, number_model(length_limit(p)), "stop_sequences"@);
    lemma_put(m5, "temperature"@, opt_wide(p.temperature), "model"@);
    lemma_put(m5, "temperature"@, opt_wide(p.temperature), "messages"@);
    lemma_put(m5, "temperature"@, opt_wide(p.temperature), "stream"@);
    lemma_put(m5, "temperature"@, opt_wide(p.temperature), "system"@);
    lemma_put(m5, "temperature"@, opt_wide(p.temperature), "max_tokens"@);
    lemma_put(m5, "temperature"@, opt_wide(p.temperature), "temperature"@);
    lemma_put(m5, "temperature"@, opt_wide(p.temperature), "top_p"@);
    lemma_put(m5, "temperature"@, opt_wide(p.temperature), "stop_sequences"@);
    lemma_put(m6, "top_p"@, opt_wide(p.top_p), "model"@);
    lemma_put(m6, "top_p"@, opt_wide(p.top_p), "messages"@);
    lemma_put(m6, "top_p"@, opt_wide(p.top_p), "stream"@);
    lemma_put(m6, "top_p"@, opt_wide(p.top_p), "system"@);
    lemma_put(m6, "top_p"@, opt_wide(p.top_p), "max_tokens"@);
    lemma_put(m6, "top_p"@, opt_wide(p.top_p), "temperature"@);
    lemma_put(m6, "top_p"@, opt_wide(p.top_p), "top_p"@);
    lemma_put(m6, "top_p"@, opt_wide(p.top_p), "stop_sequences"@);
    lemma_put(m7, "stop_sequences"@, opt_list(p.stop), "model"@);
    lemma_put(m7, "stop_sequences"@, opt_list(p.stop), "messages"@);
    lemma_put(m7, "stop_sequences"@, opt_list(p.stop), "stream"@);
    lemma_put(m7, "stop_sequences"@, opt_list(p.stop), "system"@);
    lemma_put(m7, "stop_sequences"@, opt_list(p.stop), "max_tokens"@);
    lemma_put(m7, "stop_sequences"@, opt_list(p.stop), "temperature"@);
    lemma_put(m7, "stop_sequences"@, opt_list(p.stop), "top_p"@);
    lemma_put(m7, "stop_sequences"@, opt_list(p.stop), "stop_sequences"@);
}

/// What the local service is sent: the model, the prompt, the instructions, and options where there are
/// any.
pub proof fn local_calls_carry_the_request(r: RequestModel, model: Seq<char>)
    ensures
        tree_get(ollama_body(r, model), "model"@) == Some(JsonModel::Text(model)),
        tree_get(ollama_body(r, model), "prompt"@) == Some(JsonModel::Text(r.prompt)),
        tree_get(ollama_body(r, model), "stream"@) == Some(JsonModel::Bool(false)),
        tree_get(ollama_body(r, model), "system"@) == opt_words(r.role_system),
        ollama_options(r).len() > 0 ==> tree_get(ollama_body(r, model), "options"@) == Some(
            JsonModel::Object(ollama_options(r)),
        ),
        ollama_options(r).len() == 0 ==> tree_get(ollama_body(r, model), "options"@) is None,
{
    reveal_strlit("model");
    reveal_strlit("prompt");
    reveal_strlit("stream");
    reveal_strlit("system");
    reveal_strlit("options");
    assert("model"@.len() != "prompt"@.len());
    assert("model"@.len() != "stream"@.len());
    assert("model"@.len() != "system"@.len());
    assert("model"@.len() != "options"@.len());
    assert("prompt"@[0] != "stream"@[0]);
    assert("prompt"@[0] != "system"@[0]);
    assert("prompt"@.len() != "options"@.len());
    assert("stream"@[1] != "system"@[1]);
    assert("stream"@.len() != "options"@.len());
    assert("system"@.len() != "options"@.len());
    let m0 = MapModel::empty();
    let m1 = map_insert(m0, "model"@, JsonModel::Text(model));
    let m2 = map_insert(m1, "prompt"@, JsonModel::Text(r.prompt));
    let m3 = map_insert(m2, "stream"@, JsonModel::Bool(false));
    let m4 = put(m3, "system"@, opt_words(r.role_system));
    insert_then_get(m0, "model"@, JsonModel::Text(model), "model"@);
    insert_then_get(m0, "model"@, JsonModel::Text(model), "prompt"@);
    insert_then_get(m0, "model"@, JsonModel::Text(model), "stream"@);
    insert_then_get(m0, "model"@, JsonModel::Text(model), "system"@);
    insert_then_get(m0, "model"@, JsonModel::Text(model), "options"@);
    insert_then_get(m1, "prompt"@, JsonModel::Text(r.prompt), "model"@);
    insert_then_get(m1, "prompt"@, JsonModel::Text(r.prompt), "prompt"@);
    insert_then_get(m1, "prompt"@, JsonModel::Text(r.prompt), "stream"@);
    insert_then_get(m1, "prompt"@, JsonModel::Text(r.prompt), "system"@);
    insert_then_get(m1, "prompt"@, JsonModel::Text(r.prompt), "options"@);
    insert_then_get(m2, "stream"@, JsonModel::Bool(false), "model"@);
    insert_then_get(m2, "stream"@, JsonModel::Bool(false), "prompt"@);
    insert_then_get(m2, "stream"@, JsonModel::Bool(false), "stream"@);
    insert_then_get(m2, "stream"@, JsonModel::Bool(false), "system"@);
    insert_then_get(m2, "stream"@, JsonModel::Bool(false), "options"@);
    lemma_put(m3, "system"@, opt_words(r.role_system), "model"@);
    lemma_put(m3, "system"@, opt_words(r.role_system), "prompt"@);
    lemma_put(m3, "system"@, opt_words(r.role_system), "stream"@);
    lemma_put(m3, "system"@, opt_words(r.role_system), "system"@);
    lemma_put(m3, "system"@, opt_words(r.role_system), "options"@);
    insert_then_get(m4, "options"@, JsonModel::Object(ollama_options(r)), "model"@);
    insert_then_get(m4, "options"@, JsonModel::Object(ollama_options(r)), "prompt"@);
    insert_then_get(m4, "options"@, JsonModel::Object(ollama_options(r)), "stream"@);
    insert_then_get(m4, "options"@, JsonModel::Object(ollama_options(r)), "system"@);
    insert_then_get(m4, "options"@, JsonModel::Object(ollama_options(r)), "options"@);
}

/// What the content service is sent: the prompt, the instructions beside it, and how the answer is to be
/// made where anything is said of it.
pub proof fn contents_carry_the_request(
    r: RequestModel,
    safety: Option<SafetyModels>,
    mime: Option<Seq<char>>,
)
    ensures
        tree_get(gemini_body(r, safety, mime), "contents"@) == Some(JsonModel::Array(seq![part_model("user"@, r.prompt)])),
        r.role_system matches Some(t) ==> tree_get(gemini_body(r, safety, mime), "systemInstruction"@) == Some(
            part_model("system"@, t),
        ),
        r.role_system is None ==> tree_get(gemini_body(r, safety, mime), "systemInstruction"@) is None,
        generation_config(r, mime).len() > 0 ==> tree_get(gemini_body(r, safety, mime), "generationConfig"@)
            == Some(JsonModel::Object(generation_config(r, mime))),
        safety is None ==> tree_get(gemini_body(r, safety, mime), "safetySettings"@) is None,
        safety is Some ==> tree_get(gemini_body(r, safety, mime), "safetySettings"@) is Some,
{
    let instructions = match r.role_system {
        Some(t) => Some(part_model("system"@, t)),
        None => None,
    };
    let made = if generation_config(r, mime).len() == 0 {
        None
    } else {
        Some(JsonModel::Object(generation_config(r, mime)))
    };
    let safe = match safety {
        Some(x) => Some(crate::broker::calls::safety_model(x)),
        None => None,
    };
    reveal_strlit("contents");
    reveal_strlit("systemInstruction");
    reveal_strlit("generationConfig");
    reveal_strlit("safetySettings");
    assert("contents"@.len() != "systemInstruction"@.len());
    assert("contents"@.len() != "generationConfig"@.len());
    assert("contents"@.len() != "safetySettings"@.len());
    assert("systemInstruction"@.len() != "generationConfig"@.len());
    assert("systemInstruction"@.len() != "safetySettings"@.len());
    assert("generationConfig"@.len() != "safetySettings"@.len());
    let m0 = MapModel::empty();
    let m1 = map_insert(m0, "contents"@, JsonModel::Array(seq![part_model("user"@, r.prompt)]));
    let m2 = put(m1, "systemInstruction"@, instructions);
    let m3 = put(m2, "generationConfig"@, made);
    let m4 = put(m3, "safetySettings"@, safe);
    insert_then_get(m0, "contents"@, JsonModel::Array(seq![part_model("user"@, r.prompt)]), "contents"@);
    insert_then_get(m0, "contents"@, JsonModel::Array(seq![part_model("user"@, r.prompt)]), "systemInstruction"@);
    insert_then_get(m0, "contents"@, JsonModel::Array(seq![part_model("user"@, r.prompt)]), "generationConfig"@);
    insert_then_get(m0, "contents"@, JsonModel::Array(seq![part_model("user"@, r.prompt)]), "safetySettings"@);
    lemma_put(m1, "systemInstruction"@, instructions, "contents"@);
    lemma_put(m1, "systemInstruction"@, instructions, "systemInstruction"@);
    lemma_put(m1, "systemInstruction"@, instructions, "generationConfig"@);
    lemma_put(m1, "systemInstruction"@, instructions, "safetySettings"@);
    lemma_put(m2, "generationConfig"@, made, "contents"@);
    lemma_put(m2, "generationConfig"@, made, "systemInstruction"@);
    lemma_put(m2, "generationConfig"@, made, "generationConfig"@);
    lemma_put(m2, "generationConfig"@, made, "safetySettings"@);
    lemma_put(m3, "safetySettings"@, safe, "contents"@);
    lemma_put(m3, "safetySettings"@, safe, "systemInstruction"@);
    lemma_put(m3, "safetySettings"@, safe, "generationConfig"@);
    lemma_put(m3, "safetySettings"@, safe, "safetySettings"@);
}

/// Each kind of provider is called at its own place below its address, however many slashes the address
/// ends with.
pub proof fn calls_go_below_the_address(base: Seq<char>, model: Seq<char>)
    ensures
        call_url(ProviderKind::Http, base, model) == trim_end_of(base, '/') + "/v1/completions"@,
        call_url(ProviderKind::HttpOpenAiChat, base, model) == trim_end_of(base, '/')
            + "/v1/chat/completions"@,
        call_url(ProviderKind::HttpAnthropic, base, model) == trim_end_of(base, '/') + "/v1/messages"@,
        call_url(ProviderKind::HttpOllama, base, model) == trim_end_of(base, '/') + "/api/generate"@,
        !has_prefix(model, "models/"@) ==> call_url(ProviderKind::HttpGemini, base, model) == trim_end_of(
            base,
            '/',
        ) + "/v1beta/"@ + ("models/"@ + model) + ":generateContent"@,
        call_url(ProviderKind::Http, base.push('/'), model) == call_url(ProviderKind::Http, base, model),
        call_url(ProviderKind::HttpAnthropic, base.push('/'), model) == call_url(
            ProviderKind::HttpAnthropic,
            base,
            model,
        ),
{
    assert(base.push('/').drop_last() =~= base);
}

/// A call carries the trace of its request and the provider's own headers. The secret stands where the
/// provider takes it: as a bearer token or in one header, and nowhere if there is none.
pub proof fn calls_carry_trace_and_secret(p: ProviderModel, r: RequestModel, secret: Seq<char>)
    ensures
        call_headers(p, r, secret).last() == ("X-Runloop-Trace-Id"@, "trace:"@ + uuid_text(r.trace_id)),
        forall|i: int| 0 <= i < p.headers.len() ==> call_headers(p, r, secret).contains(#[trigger] p.headers[i]),
        secret.len() > 0 && (p.kind is Http || p.kind is HttpOpenAiChat) ==> call_bearer(p.kind, secret) == Some(
            secret,
        ) && call_headers(p, r, secret).len() == p.headers.len() + 1,
        secret.len() > 0 && p.kind is HttpAnthropic ==> call_headers(p, r, secret)[0] == ("x-api-key"@, secret)
            && call_bearer(p.kind, secret) is None,
        secret.len() > 0 && p.kind is HttpGemini ==> call_headers(p, r, secret)[0] == (
            "X-Goog-Api-Key"@,
            secret,
        ) && call_bearer(p.kind, secret) is None,
        secret.len() == 0 || p.kind is HttpOllama ==> call_bearer(p.kind, secret) is None && call_headers(
            p,
            r,
            secret,
        ).len() == p.headers.len() + 1,
{
    let all = call_headers(p, r, secret);
    let n = all.len() - p.headers.len() - 1;
    assert forall|i: int| 0 <= i < p.headers.len() implies all.contains(#[trigger] p.headers[i]) by {
        assert(all[n + i] == p.headers[i]);
    }
}

/// A provider without a secret needs none; one with a secret is refused while it cannot be found.
pub proof fn secrets_must_be_found(id: Seq<char>, found: Seq<char>)
    ensures
        secret_of(Some(id), Some(found)) == Ok::<Seq<char>, BrokerFault>(found),
        secret_of(Some(id), None) matches Err(f) && f is ProviderFault,
        secret_of(None, None) == Ok::<Seq<char>, BrokerFault>(""@),
{
}

/// Each kind of provider is sent the body that it reads.
pub proof fn providers_are_sent_their_own_body(
    r: RequestModel,
    model: Seq<char>,
    safety: Option<SafetyModels>,
    mime: Option<Seq<char>>,
)
    ensures
        call_body(ProviderKind::Http, r, model, safety, mime) == completions_body(r, model),
        call_body(ProviderKind::HttpOpenAiChat, r, model, safety, mime) == chat_body(r, model),
        call_body(ProviderKind::HttpAnthropic, r, model, safety, mime) == anthropic_body(r, model),
        call_body(ProviderKind::HttpOllama, r, model, safety, mime) == ollama_body(r, model),
        call_body(ProviderKind::HttpGemini, r, model, safety, mime) == gemini_body(r, safety, mime),
{
}

/// A completion's answer is its first choice, with the tokens that were counted; without a choice there
/// is no answer.
pub proof fn completions_answer_with_the_first_choice(r: OpenAiCompletionResponse, model: Seq<char>)
    ensures
        completions_answer(r, model) is Ok <==> r.choices@.len() > 0,
        completions_answer(r, model) matches Ok(c) ==> {
            &&& c.text == r.choices@[0].text@
            &&& r.usage matches Some(u) ==> c.tokens_in == u.prompt_tokens && c.tokens_out
                == u.completion_tokens
            &&& r.usage is None ==> c.tokens_in is None && c.tokens_out is None
            &&& r.model matches Some(m) ==> c.provider_model == m@
            &&& r.model is None ==> c.provider_model == model
            &&& r.choices@[0].finish_reason matches Some(t) ==> c.finish_reason == Some(t@)
        },
{
}

/// A chat's answer is what its first choice says; one that says nothing is no answer.
pub proof fn chats_answer_with_the_first_choice(r: OpenAiChatResponse, model: Seq<char>)
    ensures
        chat_answer(r, model) is Ok <==> r.choices@.len() > 0 && r.choices@[0].message is Some
            && r.choices@[0].message->0.content@.len() > 0,
        chat_answer(r, model) matches Ok(c) ==> {
            &&& c.text == r.choices@[0].message->0.content@
            &&& r.usage matches Some(u) ==> c.tokens_in == u.prompt_tokens && c.tokens_out
                == u.completion_tokens
            &&& r.model matches Some(m) ==> c.provider_model == m@
            &&& r.model is None ==> c.provider_model == model
        },
{
}

/// A message's answer is all of its text, one part behind the other; without text there is no answer.
pub proof fn messages_answer_with_all_their_text(r: AnthropicResponse, model: Seq<char>)
    ensures
        anthropic_answer(r, model) is Ok <==> gathered(r.content@).len() > 0,
        anthropic_answer(r, model) matches Ok(c) ==> c.text == gathered(r.content@) && c.provider_model
            == model && (r.usage matches Some(u) ==> c.tokens_in == u.input_tokens && c.tokens_out
            == u.output_tokens),
{
}

/// Gathered text is made of the parts in their order, and parts without text add nothing.
pub proof fn parts_are_gathered_in_order(parts: Seq<Option<String>>, last: Option<String>)
    ensures
        gathered(parts.push(last)) == gathered(parts) + match last {
            Some(t) => t@,
            None => seq![],
        },
        gathered(Seq::<Option<String>>::empty()).len() == 0,
{
    assert(parts.push(last).drop_last() =~= parts);
}

/// The local service's answer is what it wrote; a blank one is no answer.
pub proof fn local_answers_are_what_was_written(r: OllamaResponse, model: Seq<char>)
    ensures
        ollama_answer(r, model) is Ok <==> trim(r.response@).len() > 0,
        ollama_answer(r, model) matches Ok(c) ==> c.text == r.response@ && c.tokens_in == r.prompt_eval_count
            && c.tokens_out == r.eval_count && c.provider_model == model,
{
}

} // verus!
