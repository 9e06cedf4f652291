//! What the providers answer.

use crate::broker::calls::{gemini_model_path, model_path};
use crate::broker::types::{BrokerError, BrokerFault, CompletionModel, ProviderCompletion};
use crate::text::{
    concat, concat3, copy_opt, decimal, decimal_text, is_blank, lower, lowered, opt_text, same,
    same_ignoring_case, trim, upper, uppered,
};
use vstd::prelude::*;

verus! {

/// The error for an answer that is no success.
pub open spec fn status_fault(status: u16, body: Option<Seq<char>>) -> BrokerFault {
    BrokerFault::ProviderFault(
        "http_"@ + decimal(status as nat),
        match body {
            Some(b) => b,
            None => "no body"@,
        },
    )
}

pub fn http_status_error(status: u16, body: Option<String>) -> (r: BrokerError)
    ensures
        r@ == status_fault(status, opt_text(body)),
{
    BrokerError::ProviderFault {
        code: concat("http_", decimal_text(status as u64).as_str()),
        message: match body {
            Some(b) => b,
            None => "no body".to_owned(),
        },
    }
}

pub open spec fn fault(code: Seq<char>, message: Seq<char>) -> BrokerFault {
    BrokerFault::ProviderFault(code, message)
}

fn provider_error(code: &str, message: &str) -> (r: BrokerError)
    ensures
        r@ == fault(code@, message@),
{
    BrokerError::ProviderFault { code: code.to_owned(), message: message.to_owned() }
}

#[derive(Clone, Copy, Debug)]
pub struct OpenAiUsage {
    pub prompt_tokens: Option<u32>,
    pub completion_tokens: Option<u32>,
}

#[derive(Debug)]
pub struct OpenAiChoice {
    pub text: String,
    pub finish_reason: Option<String>,
}

#[derive(Debug)]
pub struct OpenAiCompletionResponse {
    pub choices: Vec<OpenAiChoice>,
    pub usage: Option<OpenAiUsage>,
    pub finish_reason: Option<String>,
    pub model: Option<String>,
}

pub open spec fn either(a: Option<Seq<char>>, b: Option<Seq<char>>) -> Option<Seq<char>> {
    if a is Some {
        a
    } else {
        b
    }
}

pub open spec fn or_else(a: Option<Seq<char>>, b: Seq<char>) -> Seq<char> {
    match a {
        Some(t) => t,
        None => b,
    }
}

pub open spec fn prompt_count(u: Option<OpenAiUsage>) -> Option<u32> {
    match u {
        Some(x) => x.prompt_tokens,
        None => None,
    }
}

pub open spec fn completion_count(u: Option<OpenAiUsage>) -> Option<u32> {
    match u {
        Some(x) => x.completion_tokens,
        None => None,
    }
}

/// The first choice of an answer.
pub open spec fn completions_answer(r: OpenAiCompletionResponse, model: Seq<char>) -> Result<
    CompletionModel,
    BrokerFault,
> {
    if r.choices@.len() == 0 {
        Err(fault("empty_response"@, "no completion choices returned"@))
    } else {
        let c = r.choices@[0];
        Ok(
            CompletionModel {
                text: c.text@,
                tokens_in: prompt_count(r.usage),
                tokens_out: completion_count(r.usage),
                finish_reason: either(opt_text(c.finish_reason), opt_text(r.finish_reason)),
                provider_model: or_else(opt_text(r.model), model),
            },
        )
    }
}

fn either_of(a: &Option<String>, b: &Option<String>) -> (r: Option<String>)
    ensures
        opt_text(r) == either(opt_text(*a), opt_text(*b)),
{
    match a {
        Some(t) => Some(t.clone()),
        None => copy_opt(b),
    }
}

fn text_or(a: &Option<String>, b: &str) -> (r: String)
    ensures
        r@ == or_else(opt_text(*a), b@),
{
    match a {
        Some(t) => t.clone(),
        None => b.to_owned(),
    }
}

pub fn read_completions(r: &OpenAiCompletionResponse, model: &str) -> (out: Result<
    ProviderCompletion,
    BrokerError,
>)
    ensures
        match (out, completions_answer(*r, model@)) {
            (Ok(c), Ok(m)) => c@ == m,
            (Err(e), Err(f)) => e@ == f,
            _ => false,
        },
{
    if r.choices.len() == 0 {
        return Err(provider_error("empty_response", "no completion choices returned"));
    }
    let c = &r.choices[0];
    Ok(
        ProviderCompletion {
            text: c.text.clone(),
            tokens_in: match r.usage {
                Some(u) => u.prompt_tokens,
                None => None,
            },
            tokens_out: match r.usage {
                Some(u) => u.completion_tokens,
                None => None,
            },
            finish_reason: either_of(&c.finish_reason, &r.finish_reason),
            provider_model: text_or(&r.model, model),
        },
    )
}

#[derive(Debug)]
pub struct OpenAiChatMessage {
    pub role: String,
    pub content: String,
}

#[derive(Debug)]
pub struct OpenAiChatChoice {
    pub message: Option<OpenAiChatMessage>,
    pub finish_reason: Option<String>,
}

#[derive(Debug)]
pub struct OpenAiChatResponse {
    pub choices: Vec<OpenAiChatChoice>,
    pub usage: Option<OpenAiUsage>,
    pub finish_reason: Option<String>,
    pub model: Option<String>,
}

pub open spec fn lower_opt(t: Option<Seq<char>>) -> Option<Seq<char>> {
    match t {
        Some(s) => Some(lower(s)),
        None => None,
    }
}

fn lowered_opt(t: &Option<String>) -> (r: Option<String>)
    ensures
        opt_text(r) == lower_opt(opt_text(*t)),
{
    match t {
        Some(s) => Some(lowered(s.as_str())),
        None => None,
    }
}

/// The first choice of a conversation's answer; it must say something.
pub open spec fn chat_answer(r: OpenAiChatResponse, model: Seq<char>) -> Result<
    CompletionModel,
    BrokerFault,
> {
    if r.choices@.len() == 0 {
        Err(fault("empty_response"@, "no completion choices returned"@))
    } else {
        let c = r.choices@[0];
        let text = match c.message {
            Some(m) => m.content@,
            None => seq![],
        };
        if text.len() == 0 {
            Err(fault("empty_response"@, "chat completion returned empty content"@))
        } else {
            Ok(
                CompletionModel {
                    text,
                    tokens_in: prompt_count(r.usage),
                    tokens_out: completion_count(r.usage),
                    finish_reason: lower_opt(
                        either(opt_text(c.finish_reason), opt_text(r.finish_reason)),
                    ),
                    provider_model: or_else(opt_text(r.model), model),
                },
            )
        }
    }
}

pub fn read_chat(r: &OpenAiChatResponse, model: &str) -> (out: Result<
    ProviderCompletion,
    BrokerError,
>)
    ensures
        match (out, chat_answer(*r, model@)) {
            (Ok(c), Ok(m)) => c@ == m,
            (Err(e), Err(f)) => e@ == f,
            _ => false,
        },
{
    if r.choices.len() == 0 {
        return Err(provider_error("empty_response", "no completion choices returned"));
    }
    let c = &r.choices[0];
    let text = match &c.message {
        Some(m) => m.content.clone(),
        None => String::new(),
    };
    if text.as_str().is_empty() {
        return Err(provider_error("empty_response", "chat completion returned empty content"));
    }
    let reason = either_of(&c.finish_reason, &r.finish_reason);
    Ok(
        ProviderCompletion {
            text,
            tokens_in: match r.usage {
                Some(u) => u.prompt_tokens,
                None => None,
            },
            tokens_out: match r.usage {
                Some(u) => u.completion_tokens,
                None => None,
            },
            finish_reason: lowered_opt(&reason),
            provider_model: text_or(&r.model, model),
        },
    )
}

/// The texts that are there, put together.
pub open spec fn gathered(parts: Seq<Option<String>>) -> Seq<char>
    decreases parts.len(),
{
    if parts.len() == 0 {
        seq![]
    } else {
        gathered(parts.drop_last()) + or_else(opt_text(parts.last()), seq![])
    }
}

fn gather(parts: &Vec<Option<String>>) -> (r: String)
    ensures
        r@ == gathered(parts@),
{
    let mut out = String::new();
    let mut i: usize = 0;
    while i < parts.len()
        invariant
            i <= parts.len(),
            out@ == gathered(parts@.take(i as int)),
        decreases parts.len() - i,
    {
        assert(parts@.take(i + 1).drop_last() =~= parts@.take(i as int));
        match &parts[i] {
            Some(t) => out.append(t.as_str()),
            None => {},
        }
        i += 1;
        assert(out@ =~= gathered(parts@.take(i as int)));
    }
    assert(parts@.take(parts@.len() as int) =~= parts@);
    out
}

#[derive(Clone, Copy, Debug)]
pub struct AnthropicUsage {
    pub input_tokens: Option<u32>,
    pub output_tokens: Option<u32>,
}

/// An answer in blocks, of which some are text.
#[derive(Debug)]
pub struct AnthropicResponse {
    pub content: Vec<Option<String>>,
    pub stop_reason: Option<String>,
    pub usage: Option<AnthropicUsage>,
}

pub open spec fn anthropic_answer(r: AnthropicResponse, model: Seq<char>) -> Result<
    CompletionModel,
    BrokerFault,
> {
    let text = gathered(r.content@);
    if text.len() == 0 {
        Err(fault("empty_response"@, "anthropic response contained no text"@))
    } else {
        Ok(
            CompletionModel {
                text,
                tokens_in: match r.usage {
                    Some(u) => u.input_tokens,
                    None => None,
                },
                tokens_out: match r.usage {
                    Some(u) => u.output_tokens,
                    None => None,
                },
                finish_reason: lower_opt(opt_text(r.stop_reason)),
                provider_model: model,
            },
        )
    }
}

pub fn read_anthropic(r: &AnthropicResponse, model: &str) -> (out: Result<
    ProviderCompletion,
    BrokerError,
>)
    ensures
        match (out, anthropic_answer(*r, model@)) {
            (Ok(c), Ok(m)) => c@ == m,
            (Err(e), Err(f)) => e@ == f,
            _ => false,
        },
{
    let text = gather(&r.content);
    if text.as_str().is_empty() {
        return Err(provider_error("empty_response", "anthropic response contained no text"));
    }
    Ok(
        ProviderCompletion {
            text,
            tokens_in: match r.usage {
                Some(u) => u.input_tokens,
                None => None,
            },
            tokens_out: match r.usage {
                Some(u) => u.output_tokens,
                None => None,
            },
            finish_reason: lowered_opt(&r.stop_reason),
            provider_model: model.to_owned(),
        },
    )
}

#[derive(Debug)]
pub struct OllamaResponse {
    pub response: String,
    pub prompt_eval_count: Option<u32>,
    pub eval_count: Option<u32>,
}

pub open spec fn ollama_answer(r: OllamaResponse, model: Seq<char>) -> Result<
    CompletionModel,
    BrokerFault,
> {
    if trim(r.response@).len() == 0 {
        Err(fault("empty_response"@, "ollama returned empty response"@))
    } else {
        Ok(
            CompletionModel {
                text: r.response@,
                tokens_in: r.prompt_eval_count,
                tokens_out: r.eval_count,
                finish_reason: None,
                provider_model: model,
            },
        )
    }
}

pub fn read_ollama(r: &OllamaResponse, model: &str) -> (out: Result<
    ProviderCompletion,
    BrokerError,
>)
    ensures
        match (out, ollama_answer(*r, model@)) {
            (Ok(c), Ok(m)) => c@ == m,
            (Err(e), Err(f)) => e@ == f,
            _ => false,
        },
{
    if is_blank(r.response.as_str()) {
        return Err(provider_error("empty_response", "ollama returned empty response"));
    }
    Ok(
        ProviderCompletion {
            text: r.response.clone(),
            tokens_in: r.prompt_eval_count,
            tokens_out: r.eval_count,
            finish_reason: None,
            provider_model: model.to_owned(),
        },
    )
}

#[derive(Clone, Copy, Debug)]
pub struct GeminiUsageMetadata {
    pub prompt_token_count: Option<u32>,
    pub candidates_token_count: Option<u32>,
}

/// A candidate: the texts of its parts, if it has any content, and why it ended.
#[derive(Debug)]
pub struct GeminiCandidate {
    pub parts: Option<Vec<Option<String>>>,
    pub finish_reason: Option<String>,
}

#[derive(Debug)]
pub struct GeminiResponse {
    pub candidates: Vec<GeminiCandidate>,
    pub usage_metadata: Option<GeminiUsageMetadata>,
    pub model_version: Option<String>,
    pub block_reason: Option<String>,
}

/// Whether an answer ended for the sake of safety.
pub open spec fn is_safety_reason(reason: Seq<char>) -> bool {
    upper(reason) == "SAFETY"@ || upper(reason) == "BLOCKLIST"@ || upper(reason)
        == "PROHIBITED_CONTENT"@
}

pub fn is_safety_finish_reason(reason: &str) -> (r: bool)
    ensures
        r == is_safety_reason(reason@),
{
    let u = uppered(reason);
    same(u.as_str(), "SAFETY") || same(u.as_str(), "BLOCKLIST") || same(
        u.as_str(),
        "PROHIBITED_CONTENT",
    )
}

/// Why the prompt was blocked, if it was.
pub open spec fn block_reason_of(reason: Option<Seq<char>>) -> Option<Seq<char>> {
    match reason {
        Some(r) => if lower(r) == lower("BLOCK_REASON_UNSPECIFIED"@) {
            None
        } else {
            Some(r)
        },
        None => None,
    }
}

pub fn prompt_block_reason(reason: &Option<String>) -> (r: Option<String>)
    ensures
        opt_text(r) == block_reason_of(opt_text(*reason)),
{
    match reason {
        Some(t) => if same_ignoring_case(t.as_str(), "BLOCK_REASON_UNSPECIFIED") {
            None
        } else {
            Some(t.clone())
        },
        None => None,
    }
}

/// The text of a candidate, if it has any.
pub open spec fn candidate_text(c: GeminiCandidate) -> Option<Seq<char>> {
    match c.parts {
        Some(p) => if gathered(p@).len() == 0 {
            None
        } else {
            Some(gathered(p@))
        },
        None => None,
    }
}

pub fn collect_text_parts(parts: &Vec<Option<String>>) -> (r: Option<String>)
    ensures
        opt_text(r) == if gathered(parts@).len() == 0 {
            None
        } else {
            Some(gathered(parts@))
        },
{
    let t = gather(parts);
    if t.as_str().is_empty() {
        None
    } else {
        Some(t)
    }
}

/// The first candidate with a text; their number if none has one.
pub open spec fn first_with_text(s: Seq<GeminiCandidate>) -> int
    decreases s.len(),
{
    if s.len() == 0 || candidate_text(s[0]) is Some {
        0
    } else {
        1 + first_with_text(s.skip(1))
    }
}

/// The first reason of safety.
pub open spec fn first_safety(s: Seq<GeminiCandidate>) -> Option<Seq<char>>
    decreases s.len(),
{
    if s.len() == 0 {
        None
    } else {
        match s[0].finish_reason {
            Some(r) => if is_safety_reason(r@) {
                Some(r@)
            } else {
                first_safety(s.skip(1))
            },
            None => first_safety(s.skip(1)),
        }
    }
}

/// The first candidate that says something, unless the prompt was blocked.
pub open spec fn gemini_answer(r: GeminiResponse, model: Seq<char>) -> Result<
    CompletionModel,
    BrokerFault,
> {
    match block_reason_of(opt_text(r.block_reason)) {
        Some(reason) => Err(
            fault("safety_blocked"@, "Gemini blocked the prompt ("@ + reason + ")"@),
        ),
        None => {
            let i = first_with_text(r.candidates@);
            if 0 <= i < r.candidates@.len() {
                let c = r.candidates@[i];
                Ok(
                    CompletionModel {
                        text: candidate_text(c)->0,
                        tokens_in: match r.usage_metadata {
                            Some(u) => u.prompt_token_count,
                            None => None,
                        },
                        tokens_out: match r.usage_metadata {
                            Some(u) => u.candidates_token_count,
                            None => None,
                        },
                        finish_reason: lower_opt(opt_text(c.finish_reason)),
                        provider_model: or_else(opt_text(r.model_version), model_path(model)),
                    },
                )
            } else {
                match first_safety(r.candidates@) {
                    Some(reason) => Err(
                        fault(
                            "safety_blocked"@,
                            "Gemini blocked the completion (finish_reason="@ + reason + ")"@,
                        ),
                    ),
                    None => Err(fault("empty_response"@, "no completion candidates returned"@)),
                }
            }
        },
    }
}

pub fn read_gemini(r: &GeminiResponse, model: &str) -> (out: Result<
    ProviderCompletion,
    BrokerError,
>)
    ensures
        match (out, gemini_answer(*r, model@)) {
            (Ok(c), Ok(m)) => c@ == m,
            (Err(e), Err(f)) => e@ == f,
            _ => false,
        },
{
    match prompt_block_reason(&r.block_reason) {
        Some(reason) => {
            let m = concat3("Gemini blocked the prompt (", reason.as_str(), ")");
            return Err(provider_error("safety_blocked", m.as_str()));
        },
        None => {},
    }
    let ghost all = r.candidates@;
    let mut safety: Option<String> = None;
    let mut i: usize = 0;
    assert(all.skip(0) =~= all);
    while i < r.candidates.len()
        invariant
            i <= r.candidates.len(),
            all == r.candidates@,
            block_reason_of(opt_text(r.block_reason)) is None,
            first_with_text(all) == i + first_with_text(all.skip(i as int)),
            first_safety(all) == either(opt_text(safety), first_safety(all.skip(i as int))),
        decreases r.candidates.len() - i,
    {
        let c = &r.candidates[i];
        assert(all.skip(i as int)[0] == all[i as int]);
        assert(all.skip(i as int).skip(1) =~= all.skip(i + 1));
        let text = match &c.parts {
            Some(p) => collect_text_parts(p),
            None => None,
        };
        match text {
            Some(t) => {
                let path = gemini_model_path(model);
                return Ok(
                    ProviderCompletion {
                        text: t,
                        tokens_in: match r.usage_metadata {
                            Some(u) => u.prompt_token_count,
                            None => None,
                        },
                        tokens_out: match r.usage_metadata {
                            Some(u) => u.candidates_token_count,
                            None => None,
                        },
                        finish_reason: lowered_opt(&c.finish_reason),
                        provider_model: text_or(&r.model_version, path.as_str()),
                    },
                );
            },
            None => {},
        }
        if safety.is_none() {
            match &c.finish_reason {
                Some(f) => {
                    if is_safety_finish_reason(f.as_str()) {
                        safety = Some(f.clone());
                    }
                },
                None => {},
            }
        }
        i += 1;
    }
    match safety {
        Some(reason) => {
            let m = concat3(
                "Gemini blocked the completion (finish_reason=",
                reason.as_str(),
                ")",
            );
            Err(provider_error("safety_blocked", m.as_str()))
        },
        None => Err(provider_error("empty_response", "no completion candidates returned")),
    }
}

} // verus!
