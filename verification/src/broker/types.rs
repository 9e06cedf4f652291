//! What is asked of a model, and what comes back.

use crate::ids::TraceId;
use crate::json::{quoted, Json, JsonModel};
use crate::text::{concat3, copy_opt, decimal, decimal_text, join, opt_text, texts};
use vstd::prelude::*;

verus! {

/// A finite 32-bit fraction by its numerals: the shortest that tells it apart from the other
/// 32-bit numbers, and the one of the 64-bit number that it equals.
#[derive(Debug)]
pub struct Fraction {
    pub short: String,
    pub wide: String,
}

pub ghost struct FractionModel {
    pub short: Seq<char>,
    pub wide: Seq<char>,
}

impl Fraction {
    pub open spec fn view(self) -> FractionModel {
        FractionModel { short: self.short@, wide: self.wide@ }
    }
}

impl Clone for Fraction {
    fn clone(&self) -> (r: Self)
        ensures
            r@ == self@,
    {
        Fraction { short: self.short.clone(), wide: self.wide.clone() }
    }
}

pub open spec fn opt_fraction(f: Option<Fraction>) -> Option<FractionModel> {
    match f {
        Some(x) => Some(x@),
        None => None,
    }
}

#[derive(Debug)]
pub struct ModelParams {
    pub temperature: Option<Fraction>,
    pub top_p: Option<Fraction>,
    pub max_tokens: Option<u32>,
    pub stop: Option<Vec<String>>,
}

pub ghost struct ParamsModel {
    pub temperature: Option<FractionModel>,
    pub top_p: Option<FractionModel>,
    pub max_tokens: Option<u32>,
    pub stop: Option<Seq<Seq<char>>>,
}

impl ModelParams {
    pub open spec fn view(self) -> ParamsModel {
        ParamsModel {
            temperature: opt_fraction(self.temperature),
            top_p: opt_fraction(self.top_p),
            max_tokens: self.max_tokens,
            stop: match self.stop {
                Some(v) => Some(texts(v@)),
                None => None,
            },
        }
    }
}

/// What is asked of a model.
#[derive(Debug)]
pub struct ModelRequest {
    pub trace_id: TraceId,
    pub model: String,
    pub prompt: String,
    pub role_system: Option<String>,
    pub params: Option<ModelParams>,
    pub budget_tokens: Option<u32>,
    pub timeout_ms: Option<u32>,
    pub cache_ttl_ms: Option<u32>,
    pub cache_key: Option<String>,
    pub stream: bool,
    pub extras: Option<Json>,
}

pub ghost struct RequestModel {
    pub trace_id: u128,
    pub model: Seq<char>,
    pub prompt: Seq<char>,
    pub role_system: Option<Seq<char>>,
    pub params: Option<ParamsModel>,
    pub budget_tokens: Option<u32>,
    pub timeout_ms: Option<u32>,
    pub cache_ttl_ms: Option<u32>,
    pub cache_key: Option<Seq<char>>,
    pub stream: bool,
    pub extras: Option<JsonModel>,
}

impl ModelRequest {
    pub open spec fn view(self) -> RequestModel {
        RequestModel {
            trace_id: self.trace_id.0,
            model: self.model@,
            prompt: self.prompt@,
            role_system: opt_text(self.role_system),
            params: match self.params {
                Some(p) => Some(p@),
                None => None,
            },
            budget_tokens: self.budget_tokens,
            timeout_ms: self.timeout_ms,
            cache_ttl_ms: self.cache_ttl_ms,
            cache_key: opt_text(self.cache_key),
            stream: self.stream,
            extras: match self.extras {
                Some(j) => Some(j@),
                None => None,
            },
        }
    }
}

/// What came back from a model.
#[derive(Debug)]
pub struct ModelOutput {
    pub text: String,
    pub tokens_in: Option<u32>,
    pub tokens_out: Option<u32>,
    pub cached: bool,
    pub provider: String,
    pub provider_model: String,
    pub latency_ms: u32,
    pub finish_reason: Option<String>,
}

pub ghost struct OutputModel {
    pub text: Seq<char>,
    pub tokens_in: Option<u32>,
    pub tokens_out: Option<u32>,
    pub cached: bool,
    pub provider: Seq<char>,
    pub provider_model: Seq<char>,
    pub latency_ms: u32,
    pub finish_reason: Option<Seq<char>>,
}

impl ModelOutput {
    pub open spec fn view(self) -> OutputModel {
        OutputModel {
            text: self.text@,
            tokens_in: self.tokens_in,
            tokens_out: self.tokens_out,
            cached: self.cached,
            provider: self.provider@,
            provider_model: self.provider_model@,
            latency_ms: self.latency_ms,
            finish_reason: opt_text(self.finish_reason),
        }
    }

    /// All but the text.
    pub fn meta(&self) -> (r: ModelOutputMeta)
        ensures
            r.tokens_in == self.tokens_in,
            r.tokens_out == self.tokens_out,
            r.cached == self.cached,
            r.provider@ == self.provider@,
            r.provider_model@ == self.provider_model@,
            r.latency_ms == self.latency_ms,
            opt_text(r.finish_reason) == opt_text(self.finish_reason),
    {
        ModelOutputMeta {
            tokens_in: self.tokens_in,
            tokens_out: self.tokens_out,
            cached: self.cached,
            provider: self.provider.clone(),
            provider_model: self.provider_model.clone(),
            latency_ms: self.latency_ms,
            finish_reason: copy_opt(&self.finish_reason),
        }
    }
}

impl Clone for ModelOutput {
    fn clone(&self) -> (r: Self)
        ensures
            r@ == self@,
    {
        ModelOutput {
            text: self.text.clone(),
            tokens_in: self.tokens_in,
            tokens_out: self.tokens_out,
            cached: self.cached,
            provider: self.provider.clone(),
            provider_model: self.provider_model.clone(),
            latency_ms: self.latency_ms,
            finish_reason: copy_opt(&self.finish_reason),
        }
    }
}

#[derive(Debug)]
pub struct ModelOutputMeta {
    pub tokens_in: Option<u32>,
    pub tokens_out: Option<u32>,
    pub cached: bool,
    pub provider: String,
    pub provider_model: String,
    pub latency_ms: u32,
    pub finish_reason: Option<String>,
}

#[allow(inconsistent_fields)]
#[derive(Debug)]
pub enum BrokerError {
    StreamingUnsupported,
    BudgetExceeded { limit: u32, used: u32 },
    Timeout { timeout_ms: u32 },
    ProviderFault { code: String, message: String },
    InvalidRequest { reason: String },
    Cancelled,
    OutputTooLarge { cap: usize },
}

pub ghost enum BrokerFault {
    StreamingUnsupported,
    BudgetExceeded(u32, u32),
    Timeout(u32),
    ProviderFault(Seq<char>, Seq<char>),
    InvalidRequest(Seq<char>),
    Cancelled,
    OutputTooLarge(usize),
}

pub open spec fn fault_text(f: BrokerFault) -> Seq<char> {
    match f {
        BrokerFault::StreamingUnsupported => "streaming unsupported"@,
        BrokerFault::BudgetExceeded(limit, used) => "budget exceeded (limit="@ + decimal(
            limit as nat,
        ) + ", used="@ + decimal(used as nat) + ")"@,
        BrokerFault::Timeout(ms) => "timeout after "@ + decimal(ms as nat) + "ms"@,
        BrokerFault::ProviderFault(code, message) => "provider fault: "@ + code + " "@ + message,
        BrokerFault::InvalidRequest(reason) => "invalid request: "@ + reason,
        BrokerFault::Cancelled => "cancelled"@,
        BrokerFault::OutputTooLarge(cap) => "output too large (cap="@ + decimal(cap as nat) + ")"@,
    }
}

pub open spec fn fault_label(f: BrokerFault) -> Seq<char> {
    match f {
        BrokerFault::StreamingUnsupported => "streaming_unsupported"@,
        BrokerFault::BudgetExceeded(_, _) => "budget_exceeded"@,
        BrokerFault::Timeout(_) => "timeout"@,
        BrokerFault::ProviderFault(_, _) => "provider_fault"@,
        BrokerFault::InvalidRequest(_) => "invalid_request"@,
        BrokerFault::Cancelled => "cancelled"@,
        BrokerFault::OutputTooLarge(_) => "output_too_large"@,
    }
}

impl BrokerError {
    pub open spec fn view(self) -> BrokerFault {
        match self {
            BrokerError::StreamingUnsupported => BrokerFault::StreamingUnsupported,
            BrokerError::BudgetExceeded { limit, used } => BrokerFault::BudgetExceeded(limit, used),
            BrokerError::Timeout { timeout_ms } => BrokerFault::Timeout(timeout_ms),
            BrokerError::ProviderFault { code, message } => BrokerFault::ProviderFault(
                code@,
                message@,
            ),
            BrokerError::InvalidRequest { reason } => BrokerFault::InvalidRequest(reason@),
            BrokerError::Cancelled => BrokerFault::Cancelled,
            BrokerError::OutputTooLarge { cap } => BrokerFault::OutputTooLarge(cap),
        }
    }

    pub fn message(&self) -> (r: String)
        ensures
            r@ == fault_text(self@),
    {
        match self {
            BrokerError::StreamingUnsupported => "streaming unsupported".to_owned(),
            BrokerError::BudgetExceeded { limit, used } => {
                let mut m = concat3(
                    "budget exceeded (limit=",
                    decimal_text(*limit as u64).as_str(),
                    ", used=",
                );
                m.append(decimal_text(*used as u64).as_str());
                m.append(")");
                m
            },
            BrokerError::Timeout { timeout_ms } => concat3(
                "timeout after ",
                decimal_text(*timeout_ms as u64).as_str(),
                "ms",
            ),
            BrokerError::ProviderFault { code, message } => {
                let mut m = concat3("provider fault: ", code.as_str(), " ");
                m.append(message.as_str());
                m
            },
            BrokerError::InvalidRequest { reason } => crate::text::concat(
                "invalid request: ",
                reason.as_str(),
            ),
            BrokerError::Cancelled => "cancelled".to_owned(),
            BrokerError::OutputTooLarge { cap } => concat3(
                "output too large (cap=",
                decimal_text(*cap as u64).as_str(),
                ")",
            ),
        }
    }

    /// The name under which the error is counted.
    pub fn metric_label(&self) -> (r: &'static str)
        ensures
            r@ == fault_label(self@),
    {
        match self {
            BrokerError::StreamingUnsupported => "streaming_unsupported",
            BrokerError::BudgetExceeded { .. } => "budget_exceeded",
            BrokerError::Timeout { .. } => "timeout",
            BrokerError::ProviderFault { .. } => "provider_fault",
            BrokerError::InvalidRequest { .. } => "invalid_request",
            BrokerError::Cancelled => "cancelled",
            BrokerError::OutputTooLarge { .. } => "output_too_large",
        }
    }
}

/// What a provider made of a request.
#[derive(Debug)]
pub struct ProviderCompletion {
    pub text: String,
    pub tokens_in: Option<u32>,
    pub tokens_out: Option<u32>,
    pub finish_reason: Option<String>,
    pub provider_model: String,
}

pub ghost struct CompletionModel {
    pub text: Seq<char>,
    pub tokens_in: Option<u32>,
    pub tokens_out: Option<u32>,
    pub finish_reason: Option<Seq<char>>,
    pub provider_model: Seq<char>,
}

impl ProviderCompletion {
    pub open spec fn view(self) -> CompletionModel {
        CompletionModel {
            text: self.text@,
            tokens_in: self.tokens_in,
            tokens_out: self.tokens_out,
            finish_reason: opt_text(self.finish_reason),
            provider_model: self.provider_model@,
        }
    }
}

pub open spec fn fraction_text(f: Option<FractionModel>) -> Seq<char> {
    match f {
        Some(x) => x.short,
        None => "null"@,
    }
}

pub open spec fn quoted_all(v: Seq<Seq<char>>) -> Seq<Seq<char>> {
    v.map_values(|t: Seq<char>| quoted(t))
}

/// The parameters as JSON text, field by field.
pub open spec fn params_text(p: ParamsModel) -> Seq<char> {
    "{\"temperature\":"@ + fraction_text(p.temperature) + ",\"top_p\":"@ + fraction_text(p.top_p)
        + ",\"max_tokens\":"@ + match p.max_tokens {
        Some(n) => decimal(n as nat),
        None => "null"@,
    } + ",\"stop\":"@ + match p.stop {
        Some(v) => "["@ + join(quoted_all(v), ","@) + "]"@,
        None => "null"@,
    } + "}"@
}

fn push_fraction(out: &mut String, f: &Option<Fraction>)
    ensures
        final(out)@ == old(out)@ + fraction_text(opt_fraction(*f)),
{
    match f {
        Some(x) => out.append(x.short.as_str()),
        None => out.append("null"),
    }
}

impl ModelParams {
    pub fn json_text(&self) -> (r: String)
        ensures
            r@ == params_text(self@),
    {
        let mut out = "{\"temperature\":".to_owned();
        push_fraction(&mut out, &self.temperature);
        out.append(",\"top_p\":");
        push_fraction(&mut out, &self.top_p);
        out.append(",\"max_tokens\":");
        match self.max_tokens {
            Some(n) => out.append(decimal_text(n as u64).as_str()),
            None => out.append("null"),
        }
        out.append(",\"stop\":");
        match &self.stop {
            Some(v) => {
                let mut parts: Vec<String> = Vec::new();
                let mut i: usize = 0;
                while i < v.len()
                    invariant
                        i <= v.len(),
                        parts@.len() == i,
                        forall|k: int| 0 <= k < i ==> (#[trigger] parts@[k])@ == quoted(v@[k]@),
                    decreases v.len() - i,
                {
                    parts.push(crate::json::quote(v[i].as_str()));
                    i += 1;
                }
                assert(texts(parts@) =~= quoted_all(texts(v@)));
                let list = concat3("[", crate::text::joined(&parts, ",").as_str(), "]");
                out.append(list.as_str());
            },
            None => out.append("null"),
        }
        out.append("}");
        assert(out@ =~= params_text(self@));
        out
    }
}

} // verus!
