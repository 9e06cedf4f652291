//! How a broker is set up, and what the content service is told and answers.

use crate::broker::answers::{
    block_reason_of, candidate_text, first_with_text, gemini_answer, status_fault, GeminiCandidate,
    GeminiResponse,
};
use crate::broker::calls::{
    gemini_section, generation_config, ollama_options, opt_list, opt_number, opt_short, opt_wide,
    opt_words, params_of, put, put_all,
};
use crate::broker::desk::{
    built, echoed, header_fault, header_models, headers_without, is_header_name, is_header_value,
    provider_named, providers_upto, route_fault, tokens_for, with_echo, working_routes, HeaderModels,
    InitFault, ProviderModel,
};
use crate::broker::types::{BrokerFault, RequestModel};
use crate::config::routes::RouteModel;
use crate::config::settings::{ModelProvider, ProviderKind};
use crate::digest::utf8;
use crate::json::{insert_then_get, map_get, ordered, texts_model, JsonModel, MapModel};
use crate::text::{decimal, lower, opt_text};
use vstd::prelude::*;

verus! {

/// A provider is set up as it is configured; one that is reached over the network needs an address.
pub proof fn providers_are_set_up_as_configured(c: ModelProvider)
    ensures
        built(c) matches Ok(p) ==> p.id == c.id@ && p.kind == c.kind,
        c.kind == ProviderKind::Local ==> built(c) is Ok,
        c.kind != ProviderKind::Local && c.base_url is None ==> built(c) == Err::<ProviderModel, InitFault>(
            InitFault::MissingBaseUrl(c.id@),
        ),
        c.kind != ProviderKind::Local ==> (built(c) matches Ok(p) ==> c.base_url is Some && p.base_url
            == c.base_url->0@),
        c.kind == ProviderKind::Http ==> (built(c) matches Ok(p) ==> p.secret_id == opt_text(c.secret_id)
            && p.headers == header_models(c.headers@)),
        c.kind == ProviderKind::HttpGemini ==> (built(c) matches Ok(p) ==> p.secret_id == opt_text(c.secret_id)
            && p.headers == header_models(c.headers@)),
        c.kind == ProviderKind::HttpAnthropic ==> (built(c) matches Ok(p) ==> p.secret_id == opt_text(
            c.secret_id,
        ) && p.headers.last() == ("anthropic-version"@, "2023-06-01"@)),
        c.kind == ProviderKind::HttpOllama ==> (built(c) matches Ok(p) ==> p.secret_id is None
            && p.headers.len() == 0),
        c.kind == ProviderKind::Http && c.base_url is Some && (c.schema is None || c.schema->0@
            == "openai-completions"@) && header_fault(c.id@, header_models(c.headers@)) is None ==> built(
            c,
        ) is Ok,
{
}

/// Headers are accepted just where every name and every value is one.
pub proof fn headers_must_be_well_formed(id: Seq<char>, h: HeaderModels)
    ensures
        header_fault(id, h) is None <==> forall|i: int|
            0 <= i < h.len() ==> is_header_name(utf8((#[trigger] h[i]).0)) && is_header_value(utf8(h[i].1)),
    decreases h.len(),
{
    if h.len() > 0 {
        let rest = h.skip(1);
        headers_must_be_well_formed(id, rest);
        if header_fault(id, h) is None {
            assert forall|i: int| 0 <= i < h.len() implies is_header_name(utf8((#[trigger] h[i]).0))
                && is_header_value(utf8(h[i].1)) by {
                if i > 0 {
                    assert(rest[i - 1] == h[i]);
                }
            }
        } else if forall|i: int|
            0 <= i < h.len() ==> is_header_name(utf8((#[trigger] h[i]).0)) && is_header_value(utf8(h[i].1)) {
            assert(is_header_name(utf8(h[0].0)));
            assert forall|i: int| 0 <= i < rest.len() implies is_header_name(utf8((#[trigger] rest[i]).0))
                && is_header_value(utf8(rest[i].1)) by {
                assert(rest[i] == h[i + 1]);
            }
        }
    }
}

/// Routes are accepted just where each leads to a provider that is there.
pub proof fn routes_must_lead_somewhere(routes: Seq<RouteModel>, p: Seq<ProviderModel>)
    ensures
        route_fault(routes, p) is None <==> forall|i: int|
            0 <= i < routes.len() ==> provider_named(p, (#[trigger] routes[i]).provider) is Some,
    decreases routes.len(),
{
    if routes.len() > 0 {
        let rest = routes.skip(1);
        routes_must_lead_somewhere(rest, p);
        if route_fault(routes, p) is None {
            assert forall|i: int| 0 <= i < routes.len() implies provider_named(
                p,
                (#[trigger] routes[i]).provider,
            ) is Some by {
                if i > 0 {
                    assert(rest[i - 1] == routes[i]);
                }
            }
        } else if forall|i: int|
            0 <= i < routes.len() ==> provider_named(p, (#[trigger] routes[i]).provider) is Some {
            assert(provider_named(p, routes[0].provider) is Some);
            assert forall|i: int| 0 <= i < rest.len() implies provider_named(
                p,
                (#[trigger] rest[i]).provider,
            ) is Some by {
                assert(rest[i] == routes[i + 1]);
            }
        }
    }
}

/// Providers stand in the order of the configuration, each under its own name, and no name twice.
pub proof fn providers_stand_in_order(c: Seq<ModelProvider>, n: nat)
    requires
        n <= c.len(),
        providers_upto(c, n) is Ok,
    ensures
        providers_upto(c, n)->Ok_0.len() == n,
        forall|i: int|
            0 <= i < n ==> built(c[i]) == Ok::<ProviderModel, InitFault>(
                #[trigger] providers_upto(c, n)->Ok_0[i],
            ),
    decreases n,
{
    if n > 0 {
        providers_stand_in_order(c, (n - 1) as nat);
        let before = providers_upto(c, (n - 1) as nat)->Ok_0;
        let all = providers_upto(c, n)->Ok_0;
        assert forall|i: int| 0 <= i < n implies built(c[i]) == Ok::<ProviderModel, InitFault>(
            #[trigger] all[i],
        ) by {
            if i < n - 1 {
                assert(all[i] == before[i]);
            }
        }
    }
}

/// A name that is taken is refused.
pub proof fn names_are_taken_once(c: Seq<ModelProvider>, n: nat)
    requires
        n < c.len(),
        providers_upto(c, n) is Ok,
    ensures
        provider_named(providers_upto(c, n)->Ok_0, c[n as int].id@) is Some ==> providers_upto(c, n + 1)
            == Err::<Seq<ProviderModel>, InitFault>(InitFault::DuplicateProvider(c[n as int].id@)),
{
}

/// Without routes everything goes to the provider that echoes; a provider that is there is not
/// replaced by it.
pub proof fn without_routes_prompts_are_echoed(s: Seq<ProviderModel>, id: Seq<char>, routes: Seq<RouteModel>)
    ensures
        routes.len() > 0 ==> working_routes(routes) == routes,
        working_routes(Seq::<RouteModel>::empty()).len() == 1,
        working_routes(Seq::<RouteModel>::empty())[0].pattern == "*"@,
        working_routes(Seq::<RouteModel>::empty())[0].provider == "null"@,
        provider_named(s, id) is Some ==> with_echo(s, id) == s,
        provider_named(s, id) is None ==> with_echo(s, id).drop_last() == s && with_echo(s, id).last().id
            == id && with_echo(s, id).last().kind == ProviderKind::Local,
{
    if provider_named(s, id) is None {
        assert(with_echo(s, id).drop_last() =~= s);
    }
}

/// An echo is the prompt, counted on both sides.
pub proof fn echoes_are_the_prompt(r: RequestModel, model: Seq<char>)
    ensures
        echoed(r, model).text == r.prompt,
        echoed(r, model).provider_model == model,
        echoed(r, model).tokens_in == Some(tokens_for(utf8(r.prompt).len())),
        echoed(r, model).tokens_out == echoed(r, model).tokens_in,
{
}

/// A refusal by status tells the status and what came with it.
pub proof fn refusals_tell_their_status(status: u16, b: Seq<char>)
    ensures
        status_fault(status, Some(b)) == BrokerFault::ProviderFault("http_"@ + decimal(status as nat), b),
        status_fault(status, None) matches BrokerFault::ProviderFault(c, m) && m == "no body"@,
{
}

/// The content service's answer is that of its first candidate with text, unless the prompt was
/// blocked.
pub proof fn contents_answer_with_the_first_text(r: GeminiResponse, model: Seq<char>)
    ensures
        block_reason_of(opt_text(r.block_reason)) is Some ==> gemini_answer(r, model) is Err,
        r.block_reason is None ==> (gemini_answer(r, model) is Ok <==> exists|i: int|
            0 <= i < r.candidates@.len() && candidate_text(#[trigger] r.candidates@[i]) is Some),
        gemini_answer(r, model) matches Ok(c) ==> {
            &&& exists|i: int|
                0 <= i < r.candidates@.len() && candidate_text(#[trigger] r.candidates@[i]) == Some(c.text)
                    && forall|k: int| 0 <= k < i ==> candidate_text(#[trigger] r.candidates@[k]) is None
            &&& r.usage_metadata matches Some(u) ==> c.tokens_in == u.prompt_token_count && c.tokens_out
                == u.candidates_token_count
            &&& r.usage_metadata is None ==> c.tokens_in is None && c.tokens_out is None
            &&& r.model_version matches Some(v) ==> c.provider_model == v@
        },
        block_reason_of(None) is None,
{
    lemma_first_with_text(r.candidates@);
    let i = first_with_text(r.candidates@);
    if 0 <= i < r.candidates@.len() {
        assert(candidate_text(r.candidates@[i]) is Some);
    }
}

proof fn lemma_first_with_text(s: Seq<GeminiCandidate>)
    ensures
        0 <= first_with_text(s) <= s.len(),
        first_with_text(s) < s.len() ==> candidate_text(s[first_with_text(s)]) is Some,
        forall|k: int| 0 <= k < first_with_text(s) ==> candidate_text(#[trigger] s[k]) is None,
    decreases s.len(),
{
    if s.len() > 0 && candidate_text(s[0]) is None {
        let rest = s.skip(1);
        lemma_first_with_text(rest);
        assert forall|k: int| 0 <= k < first_with_text(s) implies candidate_text(#[trigger] s[k]) is None by {
            if k > 0 {
                assert(rest[k - 1] == s[k]);
            }
        }
    }
}

/// Wishes for the content service stand in an object of their own.
pub proof fn wishes_stand_in_their_section(m: MapModel, j: JsonModel, t: Seq<char>)
    ensures
        gemini_section(None) == Ok::<Option<JsonModel>, BrokerFault>(None),
        map_get(m, "gemini"@) is None ==> gemini_section(Some(JsonModel::Object(m))) == Ok::<
            Option<JsonModel>,
            BrokerFault,
        >(None),
        map_get(m, "gemini"@) == Some(j) && !(j is Null) ==> gemini_section(Some(JsonModel::Object(m))) == Ok::<
            Option<JsonModel>,
            BrokerFault,
        >(Some(j)),
        gemini_section(Some(JsonModel::Text(t))) is Err,
{
}

proof fn lemma_put(m: MapModel, key: Seq<char>, value: Option<JsonModel>, q: Seq<char>)
    requires
        ordered(m),
    ensures
        ordered(put(m, key, value)),
        q != key ==> map_get(put(m, key, value), q) == map_get(m, q),
        value is Some ==> map_get(put(m, key, value), key) == value,
        value is None ==> put(m, key, value) == m,
{
    if value is Some {
        insert_then_get(m, key, value->0, q);
    }
}

/// How the content service is to answer is what the request says of it.
pub proof fn contents_are_made_as_asked(r: RequestModel, mime: Option<Seq<char>>)
    ensures
        map_get(generation_config(r, mime), "temperature"@) == opt_short(params_of(r).temperature),
        map_get(generation_config(r, mime), "topP"@) == opt_short(params_of(r).top_p),
        map_get(generation_config(r, mime), "maxOutputTokens"@) == opt_number(params_of(r).max_tokens),
        map_get(generation_config(r, mime), "responseMimeType"@) == opt_words(mime),
        params_of(r).stop matches Some(l) ==> l.len() > 0 ==> map_get(
            generation_config(r, mime),
            "stopSequences"@,
        ) == Some(texts_model(l)),
{
    let p = params_of(r);
    let stop = match p.stop {
        Some(l) => if l.len() == 0 {
            None
        } else {
            Some(texts_model(l))
        },
        None => None,
    };
    reveal_strlit("temperature");
    reveal_strlit("topP");
    reveal_strlit("maxOutputTokens");
    reveal_strlit("stopSequences");
    reveal_strlit("responseMimeType");
    assert("temperature"@.len() != "topP"@.len());
    assert("temperature"@.len() != "maxOutputTokens"@.len());
    assert("temperature"@.len() != "stopSequences"@.len());
    assert("temperature"@.len() != "responseMimeType"@.len());
    assert("topP"@.len() != "maxOutputTokens"@.len());
    assert("topP"@.len() != "stopSequences"@.len());
    assert("topP"@.len() != "responseMimeType"@.len());
    assert("maxOutputTokens"@.len() != "stopSequences"@.len());
    assert("maxOutputTokens"@.len() != "responseMimeType"@.len());
    assert("stopSequences"@.len() != "responseMimeType"@.len());
    let m0 = MapModel::empty();
    let m1 = put(m0, "temperature"@, opt_short(p.temperature));
    let m2 = put(m1, "topP"@, opt_short(p.top_p));
    let m3 = put(m2, "maxOutputTokens"@, opt_number(p.max_tokens));
    let m4 = put(m3, "stopSequences"@, stop);
    let m5 = put(m4, "responseMimeType"@, opt_words(mime));
    lemma_put(m0, "temperature"@, opt_short(p.temperature), "temperature"@);
    lemma_put(m0, "temperature"@, opt_short(p.temperature), "topP"@);
    lemma_put(m0, "temperature"@, opt_short(p.temperature), "maxOutputTokens"@);
    lemma_put(m0, "temperature"@, opt_short(p.temperature), "stopSequences"@);
    lemma_put(m0, "temperature"@, opt_short(p.temperature), "responseMimeType"@);
    lemma_put(m1, "topP"@, opt_short(p.top_p), "temperature"@);
    lemma_put(m1, "topP"@, opt_short(p.top_p), "topP"@);
    lemma_put(m1, "topP"@, opt_short(p.top_p), "maxOutputTokens"@);
    lemma_put(m1, "topP"@, opt_short(p.top_p), "stopSequences"@);
    lemma_put(m1, "topP"@, opt_short(p.top_p), "responseMimeType"@);
    lemma_put(m2, "maxOutputTokens"@, opt_number(p.max_tokens), "temperature"@);
    lemma_put(m2, "maxOutputTokens"@, opt_number(p.max_tokens), "topP"@);
    lemma_put(m2, "maxOutputTokens"@, opt_number(p.max_tokens), "maxOutputTokens"@);
    lemma_put(m2, "maxOutputTokens"@, opt_number(p.max_tokens), "stopSequences"@);
    lemma_put(m2, "maxOutputTokens"@, opt_number(p.max_tokens), "responseMimeType"@);
    lemma_put(m3, "stopSequences"@, stop, "temperature"@);
    lemma_put(m3, "stopSequences"@, stop, "topP"@);
    lemma_put(m3, "stopSequences"@, stop, "maxOutputTokens"@);
    lemma_put(m3, "stopSequences"@, stop, "stopSequences"@);
    lemma_put(m3, "stopSequences"@, stop, "responseMimeType"@);
    lemma_put(m4, "responseMimeType"@, opt_words(mime), "temperature"@);
    lemma_put(m4, "responseMimeType"@, opt_words(mime), "topP"@);
    lemma_put(m4, "responseMimeType"@, opt_words(mime), "maxOutputTokens"@);
    lemma_put(m4, "responseMimeType"@, opt_words(mime), "stopSequences"@);
    lemma_put(m4, "responseMimeType"@, opt_words(mime), "responseMimeType"@);
}

/// The local service's options are those of the request, where it has no wishes of its own.
pub proof fn local_options_are_those_asked_for(r: RequestModel)
    requires
        r.extras is None,
    ensures
        map_get(ollama_options(r), "temperature"@) == opt_wide(params_of(r).temperature),
        map_get(ollama_options(r), "top_p"@) == opt_wide(params_of(r).top_p),
        map_get(ollama_options(r), "stop"@) == opt_list(params_of(r).stop),
{
    let p = params_of(r);
    reveal_strlit("temperature");
    reveal_strlit("top_p");
    reveal_strlit("stop");
    assert("temperature"@.len() != "top_p"@.len());
    assert("temperature"@.len() != "stop"@.len());
    assert("top_p"@.len() != "stop"@.len());
    let m0 = MapModel::empty();
    let m1 = put(m0, "temperature"@, opt_wide(p.temperature));
    let m2 = put(m1, "top_p"@, opt_wide(p.top_p));
    let m3 = put(m2, "stop"@, opt_list(p.stop));
    lemma_put(m0, "temperature"@, opt_wide(p.temperature), "temperature"@);
    lemma_put(m0, "temperature"@, opt_wide(p.temperature), "top_p"@);
    lemma_put(m0, "temperature"@, opt_wide(p.temperature), "stop"@);
    lemma_put(m1, "top_p"@, opt_wide(p.top_p), "temperature"@);
    lemma_put(m1, "top_p"@, opt_wide(p.top_p), "top_p"@);
    lemma_put(m1, "top_p"@, opt_wide(p.top_p), "stop"@);
    lemma_put(m2, "stop"@, opt_list(p.stop), "temperature"@);
    lemma_put(m2, "stop"@, opt_list(p.stop), "top_p"@);
    lemma_put(m2, "stop"@, opt_list(p.stop), "stop"@);
}

/// What is put over other options goes before them.
pub proof fn own_options_go_first(m: MapModel, own: MapModel, n: nat, other: Seq<char>)
    requires
        n < own.len(),
        ordered(put_all(m, own, n)),
    ensures
        ordered(put_all(m, own, n + 1)),
        map_get(put_all(m, own, n + 1), own[n as int].0) == Some(own[n as int].1),
        other != own[n as int].0 ==> map_get(put_all(m, own, n + 1), other) == map_get(put_all(m, own, n), other),
        put_all(m, own, 0) == m,
{
    insert_then_get(put_all(m, own, n), own[n as int].0, own[n as int].1, other);
}

/// A header is left out under any case of its name, and no other is.
pub proof fn headers_are_left_out_by_name(h: HeaderModels, e: (Seq<char>, Seq<char>), name: Seq<char>)
    ensures
        lower(e.0) == lower(name) ==> headers_without(h.push(e), name) == headers_without(h, name),
        lower(e.0) != lower(name) ==> headers_without(h.push(e), name) == headers_without(h, name).push(e),
{
    assert(h.push(e).drop_last() =~= h);
}

} // verus!
