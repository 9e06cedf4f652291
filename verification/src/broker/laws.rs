//! What the broker promises: whom it calls, what it answers, what it counts and keeps.

use crate::broker::desk::{
    answer_at, budget_fault, charged, covers, ended, first_route, initial, key_bytes, limit_of,
    provider_named, providers_upto, route_fault, started, tokens_for,
    with_echo, BrokerModel, BudgetLimits, OutcomeModel, PlanModel, ProviderModel, StartModel,
};
use crate::broker::types::{
    params_text, BrokerFault, CompletionModel, OutputModel, RequestModel,
};
use crate::config::routes::{route_models, RouteModel};
use crate::config::settings::BrokerConfig;
use crate::digest::{blake3_hex, utf8};
use crate::json::json_text;
use vstd::prelude::*;

verus! {

/// A pattern that ends in a star covers the models that start with what is before the star, and
/// one without a star covers the model of that name alone.
pub proof fn patterns_cover_what_they_say(word: Seq<char>, model: Seq<char>)
    ensures
        covers(word.push('*'), model) <==> word.len() <= model.len() && model.take(
            word.len() as int,
        ) == word,
        word.len() == 0 || word.last() != '*' ==> (covers(word, model) <==> word == model),
{
    reveal_strlit("*");
    let star = word.push('*');
    assert(star.drop_last() =~= word);
    if word.len() == 0 {
        assert(star =~= "*"@);
        assert(model.take(0) =~= word);
    }
    if star == "*"@ {
        assert(star.len() == 1);
        assert(word.len() == 0);
        assert(model.take(0) =~= word);
    }
    if word.len() > 0 && word.last() != '*' && word == "*"@ {
        assert(word.last() == '*');
    }
}

/// Whether a route is the first that covers a model.
pub open spec fn leads(routes: Seq<RouteModel>, k: int, model: Seq<char>) -> bool {
    &&& 0 <= k < routes.len()
    &&& covers(routes[k].pattern, model)
    &&& forall|j: int| 0 <= j < k ==> !covers(#[trigger] routes[j].pattern, model)
}

proof fn lemma_leads(routes: Seq<RouteModel>, k: int, model: Seq<char>)
    requires
        leads(routes, k, model),
    ensures
        first_route(routes, model) == Some(routes[k]),
    decreases routes.len(),
{
    if k > 0 {
        assert(!covers(routes[0].pattern, model));
        let rest = routes.skip(1);
        assert forall|j: int| 0 <= j < k - 1 implies !covers(#[trigger] rest[j].pattern, model) by {
            assert(rest[j] == routes[j + 1]);
        }
        lemma_leads(rest, k - 1, model);
    }
}

proof fn lemma_no_route(routes: Seq<RouteModel>, model: Seq<char>)
    requires
        forall|j: int| 0 <= j < routes.len() ==> !covers(#[trigger] routes[j].pattern, model),
    ensures
        first_route(routes, model) is None,
    decreases routes.len(),
{
    if routes.len() > 0 {
        assert(!covers(routes[0].pattern, model));
        let rest = routes.skip(1);
        assert forall|j: int| 0 <= j < rest.len() implies !covers(#[trigger] rest[j].pattern, model) by {
            assert(rest[j] == routes[j + 1]);
        }
        lemma_no_route(rest, model);
    }
}

/// A provider is found under its name, and none is found under a name that none has.
pub proof fn providers_are_found_by_name(s: Seq<ProviderModel>, id: Seq<char>)
    ensures
        provider_named(s, id) is Some <==> exists|i: int| 0 <= i < s.len() && (#[trigger] s[i]).id == id,
        provider_named(s, id) matches Some(p) ==> p.id == id && s.contains(p),
    decreases s.len(),
{
    if s.len() > 0 {
        let rest = s.skip(1);
        providers_are_found_by_name(rest, id);
        if s[0].id == id {
            assert(s.contains(s[0]));
        } else {
            if provider_named(rest, id) is Some {
                let p = provider_named(rest, id)->0;
                let j = choose|j: int| 0 <= j < rest.len() && rest[j] == p;
                assert(s[j + 1] == p);
            }
            if exists|i: int| 0 <= i < s.len() && (#[trigger] s[i]).id == id {
                let i = choose|i: int| 0 <= i < s.len() && (#[trigger] s[i]).id == id;
                assert(rest[i - 1].id == id);
            }
        }
    }
}

/// The model that a route asks for: its own where it has one, and else the one of the request.
pub open spec fn asked_model(route: RouteModel, r: RequestModel) -> Seq<char> {
    if route.target_model is Some {
        route.target_model->0
    } else {
        r.model
    }
}

/// A call goes to the provider of the first route that covers the request's model, and asks it for
/// the route's own model, or where the route has none, for the request's. The answer will be kept
/// under the key of that provider and that model.
pub proof fn calls_follow_their_route(b: BrokerModel, r: RequestModel, now_ns: u64, k: int)
    requires
        leads(b.routes, k, r.model),
        started(b, r, now_ns).1 is Call,
    ensures
        ({
            let plan = started(b, r, now_ns).1->Call_0;
            let route = b.routes[k];
            &&& plan.provider == route.provider
            &&& route.target_model matches Some(m) ==> plan.model == m && plan.key == blake3_hex(
                key_bytes(route.provider, m, r),
            )
            &&& route.target_model is None ==> plan.model == r.model && plan.key == blake3_hex(
                key_bytes(route.provider, r.model, r),
            )
            &&& plan.timeout_ms == if r.timeout_ms == Some(0u32) {
                None
            } else {
                r.timeout_ms
            }
            &&& exists|i: int| 0 <= i < b.providers.len() && (#[trigger] b.providers[i]).id == plan.provider
        }),
{
    lemma_leads(b.routes, k, r.model);
    providers_are_found_by_name(b.providers, b.routes[k].provider);
}

/// A request that a route covers, and whose answer is not kept, is called for: nothing else is
/// done with it.
pub proof fn covered_requests_are_called_for(b: BrokerModel, r: RequestModel, now_ns: u64, k: int, i: int)
    requires
        !r.stream,
        leads(b.routes, k, r.model),
        0 <= i < b.providers.len(),
        b.providers[i].id == b.routes[k].provider,
        b.cache matches Some(c) ==> (answer_at(
            c.entries,
            blake3_hex(key_bytes(b.routes[k].provider, asked_model(b.routes[k], r), r)),
        ) matches Some(e) ==> e.expires_ns <= now_ns),
    ensures
        started(b, r, now_ns).1 is Call,
        b.stats.calls < u64::MAX ==> started(b, r, now_ns).0.stats.calls == b.stats.calls + 1,
        started(b, r, now_ns).0.stats.cache_hits == b.stats.cache_hits,
{
    lemma_leads(b.routes, k, r.model);
    providers_are_found_by_name(b.providers, b.routes[k].provider);
}

/// A request whose answer is kept and has not expired is not called for: it gets that answer, or
/// the budget's complaint.
pub proof fn kept_answers_spare_the_call(b: BrokerModel, r: RequestModel, now_ns: u64, k: int, i: int)
    requires
        !r.stream,
        leads(b.routes, k, r.model),
        0 <= i < b.providers.len(),
        b.providers[i].id == b.routes[k].provider,
        b.cache matches Some(c) && (answer_at(
            c.entries,
            blake3_hex(key_bytes(b.routes[k].provider, asked_model(b.routes[k], r), r)),
        ) matches Some(e) && e.expires_ns > now_ns),
    ensures
        ({
            let key = blake3_hex(key_bytes(b.routes[k].provider, asked_model(b.routes[k], r), r));
            let kept = answer_at(b.cache->0.entries, key)->0.output;
            match started(b, r, now_ns).1 {
                StartModel::Call(_) => false,
                StartModel::Refused(f) => f is BudgetExceeded,
                StartModel::Cached(o) => o.text == kept.text && o.cached && o.provider == kept.provider
                    && o.provider_model == kept.provider_model && o.finish_reason == kept.finish_reason,
            }
        }),
        b.stats.cache_hits < u64::MAX ==> started(b, r, now_ns).0.stats.cache_hits
            == b.stats.cache_hits + 1,
{
    lemma_leads(b.routes, k, r.model);
    providers_are_found_by_name(b.providers, b.routes[k].provider);
}

/// A request that no route covers, or that asks for a stream, is refused, and nothing is counted.
pub proof fn uncovered_requests_are_refused(b: BrokerModel, r: RequestModel, now_ns: u64)
    requires
        r.stream || forall|j: int|
            0 <= j < b.routes.len() ==> !covers(#[trigger] b.routes[j].pattern, r.model),
    ensures
        started(b, r, now_ns).0 == b,
        r.stream ==> started(b, r, now_ns).1 == StartModel::Refused(BrokerFault::StreamingUnsupported),
        !r.stream ==> started(b, r, now_ns).1 == StartModel::Refused(
            BrokerFault::InvalidRequest("no provider configured for model '"@ + r.model + "'"@),
        ),
{
    if !r.stream {
        lemma_no_route(b.routes, r.model);
    }
}

proof fn lemma_cancel(a: Seq<u8>, x: Seq<u8>, y: Seq<u8>, z: Seq<u8>)
    requires
        a + x + z == a + y + z,
    ensures
        x == y,
{
    let l = a + x + z;
    let r = a + y + z;
    assert(l.len() == r.len());
    assert(x =~= l.subrange(a.len() as int, (a.len() + x.len()) as int));
    assert(y =~= r.subrange(a.len() as int, (a.len() + y.len()) as int));
}

proof fn lemma_utf8_once(a: Seq<char>, b: Seq<char>)
    requires
        utf8(a) == utf8(b),
    ensures
        a == b,
{
    vstd::utf8::encode_utf8_decode_utf8(a);
    vstd::utf8::encode_utf8_decode_utf8(b);
}

/// The bytes of a text that may be missing.
pub open spec fn bytes_if_any(t: Option<Seq<char>>) -> Seq<u8> {
    match t {
        Some(s) => utf8(s),
        None => seq![],
    }
}

/// The bytes of a request's parameters.
spec fn params_bytes(r: RequestModel) -> Seq<u8> {
    match r.params {
        Some(x) => utf8(params_text(x)),
        None => seq![],
    }
}

/// The bytes of what else a request asks.
spec fn extras_bytes(r: RequestModel) -> Seq<u8> {
    match r.extras {
        Some(x) => utf8(json_text(x)),
        None => seq![],
    }
}

/// Answers of different providers, and of different models, are not kept under the same bytes.
pub proof fn providers_and_models_tell(
    p: Seq<char>,
    q: Seq<char>,
    m: Seq<char>,
    n: Seq<char>,
    r: RequestModel,
)
    ensures
        p != q ==> key_bytes(p, m, r) != key_bytes(q, m, r),
        m != n ==> key_bytes(p, m, r) != key_bytes(p, n, r),
{
    let none = Seq::<u8>::empty();
    let z = behind(r);
    lemma_behind(p, m, r);
    lemma_behind(q, m, r);
    lemma_behind(p, n, r);
    if p != q && key_bytes(p, m, r) == key_bytes(q, m, r) {
        assert(key_bytes(p, m, r) =~= none + utf8(p) + (utf8(m) + z));
        assert(key_bytes(q, m, r) =~= none + utf8(q) + (utf8(m) + z));
        lemma_cancel(none, utf8(p), utf8(q), utf8(m) + z);
        lemma_utf8_once(p, q);
    }
    if m != n && key_bytes(p, m, r) == key_bytes(p, n, r) {
        lemma_cancel(utf8(p), utf8(m), utf8(n), z);
        lemma_utf8_once(m, n);
    }
}

/// The bytes of a request behind the provider and the model.
spec fn behind(r: RequestModel) -> Seq<u8> {
    utf8(r.prompt) + bytes_if_any(r.role_system) + params_bytes(r) + extras_bytes(r) + bytes_if_any(
        r.cache_key,
    )
}

proof fn lemma_behind(p: Seq<char>, m: Seq<char>, r: RequestModel)
    ensures
        key_bytes(p, m, r) == utf8(p) + utf8(m) + behind(r),
{
    assert(key_bytes(p, m, r) =~= utf8(p) + utf8(m) + behind(r));
}

/// Answers to different prompts are not kept under the same bytes.
pub proof fn prompts_tell(p: Seq<char>, m: Seq<char>, r: RequestModel, s: RequestModel)
    requires
        s == (RequestModel { prompt: s.prompt, ..r }),
        r.prompt != s.prompt,
    ensures
        key_bytes(p, m, r) != key_bytes(p, m, s),
{
    if key_bytes(p, m, r) == key_bytes(p, m, s) {
        let a = utf8(p) + utf8(m);
        let z = bytes_if_any(r.role_system) + params_bytes(r) + extras_bytes(r) + bytes_if_any(r.cache_key);
        assert(key_bytes(p, m, r) =~= a + utf8(r.prompt) + z);
        assert(key_bytes(p, m, s) =~= a + utf8(s.prompt) + z);
        lemma_cancel(a, utf8(r.prompt), utf8(s.prompt), z);
        lemma_utf8_once(r.prompt, s.prompt);
    }
}

/// Answers in different roles are not kept under the same bytes.
pub proof fn roles_tell(p: Seq<char>, m: Seq<char>, r: RequestModel, s: RequestModel)
    requires
        s == (RequestModel { role_system: s.role_system, ..r }),
        bytes_if_any(r.role_system) != bytes_if_any(s.role_system),
    ensures
        key_bytes(p, m, r) != key_bytes(p, m, s),
{
    if key_bytes(p, m, r) == key_bytes(p, m, s) {
        let a = utf8(p) + utf8(m) + utf8(r.prompt);
        let z = params_bytes(r) + extras_bytes(r) + bytes_if_any(r.cache_key);
        assert(key_bytes(p, m, r) =~= a + bytes_if_any(r.role_system) + z);
        assert(key_bytes(p, m, s) =~= a + bytes_if_any(s.role_system) + z);
        lemma_cancel(a, bytes_if_any(r.role_system), bytes_if_any(s.role_system), z);
    }
}

/// Answers with different parameters are not kept under the same bytes.
pub proof fn parameters_tell(p: Seq<char>, m: Seq<char>, r: RequestModel, s: RequestModel)
    requires
        s == (RequestModel { params: s.params, ..r }),
        r.params is Some && s.params is Some,
        params_text(r.params->0) != params_text(s.params->0),
    ensures
        key_bytes(p, m, r) != key_bytes(p, m, s),
{
    if key_bytes(p, m, r) == key_bytes(p, m, s) {
        let a = utf8(p) + utf8(m) + utf8(r.prompt) + bytes_if_any(r.role_system);
        let z = extras_bytes(r) + bytes_if_any(r.cache_key);
        assert(key_bytes(p, m, r) =~= a + params_bytes(r) + z);
        assert(key_bytes(p, m, s) =~= a + params_bytes(s) + z);
        lemma_cancel(a, params_bytes(r), params_bytes(s), z);
        lemma_utf8_once(params_text(r.params->0), params_text(s.params->0));
    }
}

/// Answers to requests that ask different things besides are not kept under the same bytes.
pub proof fn further_wishes_tell(p: Seq<char>, m: Seq<char>, r: RequestModel, s: RequestModel)
    requires
        s == (RequestModel { extras: s.extras, ..r }),
        r.extras is Some && s.extras is Some,
        json_text(r.extras->0) != json_text(s.extras->0),
    ensures
        key_bytes(p, m, r) != key_bytes(p, m, s),
{
    if key_bytes(p, m, r) == key_bytes(p, m, s) {
        let a = utf8(p) + utf8(m) + utf8(r.prompt) + bytes_if_any(r.role_system) + params_bytes(r);
        let z = bytes_if_any(r.cache_key);
        assert(key_bytes(p, m, r) =~= a + extras_bytes(r) + z);
        assert(key_bytes(p, m, s) =~= a + extras_bytes(s) + z);
        lemma_cancel(a, extras_bytes(r), extras_bytes(s), z);
        lemma_utf8_once(json_text(r.extras->0), json_text(s.extras->0));
    }
}

/// Answers to requests with different keys of their own are not kept under the same bytes.
pub proof fn own_keys_tell(p: Seq<char>, m: Seq<char>, r: RequestModel, s: RequestModel)
    requires
        s == (RequestModel { cache_key: s.cache_key, ..r }),
        bytes_if_any(r.cache_key) != bytes_if_any(s.cache_key),
    ensures
        key_bytes(p, m, r) != key_bytes(p, m, s),
{
    if key_bytes(p, m, r) == key_bytes(p, m, s) {
        let a = utf8(p) + utf8(m) + utf8(r.prompt) + bytes_if_any(r.role_system) + params_bytes(r) + extras_bytes(r);
        let z = Seq::<u8>::empty();
        assert(key_bytes(p, m, r) =~= a + bytes_if_any(r.cache_key) + z);
        assert(key_bytes(p, m, s) =~= a + bytes_if_any(s.cache_key) + z);
        lemma_cancel(a, bytes_if_any(r.cache_key), bytes_if_any(s.cache_key), z);
    }
}

/// An answer is what the provider wrote, under the names of the provider and the model, with the
/// provider's own count of tokens where there is one. It is refused only for its cost.
pub proof fn answers_are_what_was_written(
    b: BrokerModel,
    r: RequestModel,
    p: PlanModel,
    c: CompletionModel,
    latency_ms: u128,
    now_ns: u64,
)
    ensures
        match ended(b, r, p, OutcomeModel::Done(c), latency_ms, now_ns).1 {
            Ok(a) => {
                &&& a.text == c.text
                &&& !a.cached
                &&& a.provider == p.provider
                &&& c.provider_model.len() > 0 ==> a.provider_model == c.provider_model
                &&& c.provider_model.len() == 0 ==> a.provider_model == p.model
                &&& a.finish_reason == c.finish_reason
                &&& latency_ms <= u32::MAX ==> a.latency_ms == latency_ms
                &&& latency_ms > u32::MAX ==> a.latency_ms == u32::MAX
                &&& c.tokens_in is Some ==> a.tokens_in == c.tokens_in
                &&& c.tokens_out is Some ==> a.tokens_out == c.tokens_out
                &&& a.tokens_in is Some && a.tokens_out is Some
            },
            Err(f) => f is BudgetExceeded,
        },
{
}

/// A call that took too long is answered with its limit, and one that failed with its fault. Neither
/// is kept or counted.
pub proof fn failed_calls_leave_nothing(
    b: BrokerModel,
    r: RequestModel,
    p: PlanModel,
    f: BrokerFault,
    latency_ms: u128,
    now_ns: u64,
)
    ensures
        ended(b, r, p, OutcomeModel::Failed(f), latency_ms, now_ns) == (
            b,
            Err::<OutputModel, BrokerFault>(f),
        ),
        ended(b, r, p, OutcomeModel::TimedOut, latency_ms, now_ns).0 == b,
        p.timeout_ms matches Some(n) ==> ended(b, r, p, OutcomeModel::TimedOut, latency_ms, now_ns).1
            == Err::<OutputModel, BrokerFault>(BrokerFault::Timeout(n)),
{
}

/// What an answer cost is added to the counters, and an answer that is refused adds nothing.
pub proof fn answers_are_counted(b: BrokerModel, r: RequestModel, o: OutputModel)
    ensures
        match charged(b, r, o).1 {
            Ok(a) => {
                let after = charged(b, r, o).0;
                &&& a == (OutputModel { tokens_in: a.tokens_in, tokens_out: a.tokens_out, ..o })
                &&& b.stats.tokens_prompt + a.tokens_in->0 <= u64::MAX ==> after.stats.tokens_prompt
                    == b.stats.tokens_prompt + a.tokens_in->0
                &&& b.stats.tokens_completion + a.tokens_out->0 <= u64::MAX
                    ==> after.stats.tokens_completion == b.stats.tokens_completion + a.tokens_out->0
                &&& after.stats.calls == b.stats.calls && after.stats.cache_hits == b.stats.cache_hits
                &&& after.cache == b.cache && after.routes == b.routes && after.providers == b.providers
                    && after.budgets == b.budgets
            },
            Err(_) => charged(b, r, o).0 == b,
        },
{
}

/// A request's own limit goes before the default, no limit is above the cap, and zero is none.
pub proof fn limits_are_the_tightest(b: BudgetLimits, asked: Option<u32>)
    ensures
        asked == Some(0u32) && b.per_request_cap is None ==> limit_of(b, asked) is None,
        (asked matches Some(n) && n > 0 && b.per_request_cap is None) ==> limit_of(b, asked) == asked,
        (asked matches Some(n) && n > 0 && (b.per_request_cap matches Some(cap) && cap > 0))
            ==> limit_of(b, asked) == Some(
            if asked->0 < b.per_request_cap->0 {
                asked->0
            } else {
                b.per_request_cap->0
            },
        ),
        asked is None ==> limit_of(b, asked) == limit_of(b, b.default_tokens) || b.default_tokens
            is None,
        asked is None && b.default_tokens is None ==> limit_of(b, asked) is None,
        limit_of(b, asked) matches Some(n) ==> n > 0 && (b.per_request_cap matches Some(cap) ==> n
            <= cap),
{
}

/// A cost is refused if and only if it is above the limit, and the complaint tells both.
pub proof fn costs_above_the_limit_are_refused(b: BudgetLimits, asked: Option<u32>, used: u32)
    ensures
        budget_fault(b, asked, used) is Some <==> (limit_of(b, asked) matches Some(n) && used > n),
        budget_fault(b, asked, used) is Some ==> budget_fault(b, asked, used) == Some(
            BrokerFault::BudgetExceeded(limit_of(b, asked)->0, used),
        ),
{
}

/// Four bytes are about one token, and a rest counts as one.
pub proof fn tokens_are_four_bytes(bytes: nat)
    requires
        bytes <= 0xffff_ffff,
    ensures
        bytes <= 4 * tokens_for(bytes) < bytes + 4,
{
}

/// A broker that was set up has each provider once, a provider for each of its routes, and always
/// those that give every prompt back.
pub proof fn brokers_know_their_providers(c: BrokerConfig)
    requires
        initial(c) is Ok,
    ensures
        ({
            let b = initial(c)->Ok_0;
            &&& forall|k: int|
                0 <= k < b.routes.len() ==> provider_named(
                    b.providers,
                    (#[trigger] b.routes[k]).provider,
                ) is Some
            &&& provider_named(b.providers, "null"@) is Some
            &&& provider_named(b.providers, "local"@) is Some
            &&& route_models(c.route@).len() > 0 ==> b.routes == route_models(c.route@)
            &&& route_models(c.route@).len() == 0 ==> forall|m: Seq<char>|
                (#[trigger] first_route(b.routes, m)) is Some && first_route(b.routes, m)->0.provider
                    == "null"@ && first_route(b.routes, m)->0.target_model is None
            &&& b.stats.calls == 0 && b.stats.cache_hits == 0 && b.stats.tokens_prompt == 0
                && b.stats.tokens_completion == 0
            &&& b.cache is Some <==> c.cache.capacity > 0 && c.cache.ttl_ms > 0
        }),
        forall|i: int, j: int|
            0 <= i < j < c.providers@.len() ==> (#[trigger] c.providers@[i]).id@ != (
            #[trigger] c.providers@[j]).id@,
{
    let b = initial(c)->Ok_0;
    let s = providers_upto(c.providers@, c.providers@.len())->Ok_0;
    lemma_provider_ids(c, c.providers@.len());
    let one = with_echo(s, "null"@);
    let two = with_echo(one, "local"@);
    assert(b.providers == two);
    lemma_echo(s, "null"@, "null"@);
    lemma_echo(one, "local"@, "null"@);
    lemma_echo(one, "local"@, "local"@);
    let routes = route_models(c.route@);
    lemma_routes_known(routes, two);
    if routes.len() == 0 {
        assert(b.routes.len() == 1);
        assert forall|m: Seq<char>|
            (#[trigger] first_route(b.routes, m)) is Some && first_route(b.routes, m)->0.provider
                == "null"@ && first_route(b.routes, m)->0.target_model is None by {
            assert(covers(b.routes[0].pattern, m));
        }
    }
}

proof fn lemma_echo(s: Seq<ProviderModel>, id: Seq<char>, other: Seq<char>)
    ensures
        provider_named(with_echo(s, id), id) is Some,
        provider_named(s, other) is Some ==> provider_named(
            with_echo(s, id),
            other,
        ) is Some,
{
    let t = with_echo(s, id);
    providers_are_found_by_name(s, id);
    providers_are_found_by_name(t, id);
    providers_are_found_by_name(s, other);
    providers_are_found_by_name(t, other);
    if provider_named(s, id) is None {
        assert(t.last().id == id);
    }
    if provider_named(s, other) is Some {
        let i = choose|i: int| 0 <= i < s.len() && (#[trigger] s[i]).id == other;
        assert(t[i].id == other);
    }
}

proof fn lemma_routes_known(routes: Seq<RouteModel>, s: Seq<ProviderModel>)
    requires
        route_fault(routes, s) is None,
    ensures
        forall|k: int|
            0 <= k < routes.len() ==> provider_named(s, (#[trigger] routes[k]).provider) is Some,
    decreases routes.len(),
{
    if routes.len() > 0 {
        lemma_routes_known(routes.skip(1), s);
        assert forall|k: int| 0 <= k < routes.len() implies provider_named(
            s,
            (#[trigger] routes[k]).provider,
        ) is Some by {
            if k > 0 {
                assert(routes.skip(1)[k - 1] == routes[k]);
            }
        }
    }
}

proof fn lemma_provider_ids(c: BrokerConfig, n: nat)
    requires
        n <= c.providers@.len(),
        providers_upto(c.providers@, n) is Ok,
    ensures
        providers_upto(c.providers@, n)->Ok_0.len() == n,
        forall|i: int|
            0 <= i < n ==> (#[trigger] providers_upto(c.providers@, n)->Ok_0[i]).id
                == c.providers@[i].id@,
        forall|i: int, j: int|
            0 <= i < j < n ==> (#[trigger] c.providers@[i]).id@ != (#[trigger] c.providers@[j]).id@,
    decreases n,
{
    if n > 0 {
        let m = (n - 1) as nat;
        lemma_provider_ids(c, m);
        let s = providers_upto(c.providers@, m)->Ok_0;
        let t = providers_upto(c.providers@, n)->Ok_0;
        providers_are_found_by_name(s, c.providers@[n - 1].id@);
        assert forall|i: int| 0 <= i < n implies (#[trigger] t[i]).id == c.providers@[i].id@ by {
            if i < m {
                assert(t[i] == s[i]);
            }
        }
        assert forall|i: int, j: int| 0 <= i < j < n implies (#[trigger] c.providers@[i]).id@ != (
        #[trigger] c.providers@[j]).id@ by {
            if j == n - 1 {
                assert(s[i].id == c.providers@[i].id@);
            }
        }
    }
}

/// A broker that has been set up can serve every request that one of its routes covers: it calls,
/// or answers from what it kept.
pub proof fn known_models_are_served(c: BrokerConfig, r: RequestModel, now_ns: u64, k: int)
    requires
        initial(c) is Ok,
        !r.stream,
        leads(initial(c)->Ok_0.routes, k, r.model),
    ensures
        started(initial(c)->Ok_0, r, now_ns).1 is Call,
{
    brokers_know_their_providers(c);
    let b = initial(c)->Ok_0;
    providers_are_found_by_name(b.providers, b.routes[k].provider);
    let i = choose|i: int| 0 <= i < b.providers.len() && (#[trigger] b.providers[i]).id
        == b.routes[k].provider;
    covered_requests_are_called_for(b, r, now_ns, k, i);
}

} // verus!
