//! What a guest makes of the host's answers.

use crate::prose::{read_text, text_in_bytes};
use crate::text::{concat, opt_text, signed_decimal, signed_text};
use vstd::prelude::*;

verus! {

/// All but the text of what a model answered.
#[derive(Debug)]
pub struct ModelOutputMeta {
    pub tokens_in: Option<u32>,
    pub tokens_out: Option<u32>,
    pub cached: bool,
    pub provider: String,
    pub provider_model: String,
    pub latency_ms: u32,
    pub finish_reason: Option<String>,
}

#[derive(Debug)]
pub struct ModelOutput {
    pub text: String,
    pub meta: Option<ModelOutputMeta>,
}

#[derive(Debug)]
pub enum ModelError {
    StreamUnsupported,
    BudgetExceeded,
    Timeout,
    ProviderFault,
    InvalidRequest,
    NoSpace,
    Cancelled,
    Serialize(String),
    Utf8(String),
    Meta(String),
    Host(String),
}

pub ghost enum ModelFault {
    StreamUnsupported,
    BudgetExceeded,
    Timeout,
    ProviderFault,
    InvalidRequest,
    NoSpace,
    Cancelled,
    Serialize(Seq<char>),
    Utf8(Seq<char>),
    Meta(Seq<char>),
    Host(Seq<char>),
}

pub open spec fn model_fault_text(f: ModelFault) -> Seq<char> {
    match f {
        ModelFault::StreamUnsupported => "streaming unsupported"@,
        ModelFault::BudgetExceeded => "budget exceeded"@,
        ModelFault::Timeout => "request timed out"@,
        ModelFault::ProviderFault => "provider failed"@,
        ModelFault::InvalidRequest => "invalid request"@,
        ModelFault::NoSpace => "output truncated"@,
        ModelFault::Cancelled => "request cancelled"@,
        ModelFault::Serialize(m) => "failed to serialize request: "@ + m,
        ModelFault::Utf8(m) => "invalid utf8 output: "@ + m,
        ModelFault::Meta(m) => "failed to decode metadata: "@ + m,
        ModelFault::Host(m) => "hostcall failed: "@ + m,
    }
}

impl ModelError {
    pub open spec fn view(self) -> ModelFault {
        match self {
            ModelError::StreamUnsupported => ModelFault::StreamUnsupported,
            ModelError::BudgetExceeded => ModelFault::BudgetExceeded,
            ModelError::Timeout => ModelFault::Timeout,
            ModelError::ProviderFault => ModelFault::ProviderFault,
            ModelError::InvalidRequest => ModelFault::InvalidRequest,
            ModelError::NoSpace => ModelFault::NoSpace,
            ModelError::Cancelled => ModelFault::Cancelled,
            ModelError::Serialize(m) => ModelFault::Serialize(m@),
            ModelError::Utf8(m) => ModelFault::Utf8(m@),
            ModelError::Meta(m) => ModelFault::Meta(m@),
            ModelError::Host(m) => ModelFault::Host(m@),
        }
    }

    pub fn message(&self) -> (r: String)
        ensures
            r@ == model_fault_text(self@),
    {
        match self {
            ModelError::StreamUnsupported => "streaming unsupported".to_owned(),
            ModelError::BudgetExceeded => "budget exceeded".to_owned(),
            ModelError::Timeout => "request timed out".to_owned(),
            ModelError::ProviderFault => "provider failed".to_owned(),
            ModelError::InvalidRequest => "invalid request".to_owned(),
            ModelError::NoSpace => "output truncated".to_owned(),
            ModelError::Cancelled => "request cancelled".to_owned(),
            ModelError::Serialize(m) => concat("failed to serialize request: ", m.as_str()),
            ModelError::Utf8(m) => concat("invalid utf8 output: ", m.as_str()),
            ModelError::Meta(m) => concat("failed to decode metadata: ", m.as_str()),
            ModelError::Host(m) => concat("hostcall failed: ", m.as_str()),
        }
    }
}

#[derive(Debug)]
pub enum ExecError {
    Invalid,
    SpawnFailed,
    Signal,
    NoSpace,
    Utf8(String),
    Host(String),
}

pub ghost enum ExecFault {
    Invalid,
    SpawnFailed,
    Signal,
    NoSpace,
    Utf8(Seq<char>),
    Host(Seq<char>),
}

pub open spec fn exec_fault_text(f: ExecFault) -> Seq<char> {
    match f {
        ExecFault::Invalid => "invalid arguments"@,
        ExecFault::SpawnFailed => "spawn failed"@,
        ExecFault::Signal => "process terminated by signal"@,
        ExecFault::NoSpace => "insufficient buffer for output"@,
        ExecFault::Utf8(m) => "invalid utf8 output: "@ + m,
        ExecFault::Host(m) => "hostcall failed: "@ + m,
    }
}

impl ExecError {
    pub open spec fn view(self) -> ExecFault {
        match self {
            ExecError::Invalid => ExecFault::Invalid,
            ExecError::SpawnFailed => ExecFault::SpawnFailed,
            ExecError::Signal => ExecFault::Signal,
            ExecError::NoSpace => ExecFault::NoSpace,
            ExecError::Utf8(m) => ExecFault::Utf8(m@),
            ExecError::Host(m) => ExecFault::Host(m@),
        }
    }

    pub fn message(&self) -> (r: String)
        ensures
            r@ == exec_fault_text(self@),
    {
        match self {
            ExecError::Invalid => "invalid arguments".to_owned(),
            ExecError::SpawnFailed => "spawn failed".to_owned(),
            ExecError::Signal => "process terminated by signal".to_owned(),
            ExecError::NoSpace => "insufficient buffer for output".to_owned(),
            ExecError::Utf8(m) => concat("invalid utf8 output: ", m.as_str()),
            ExecError::Host(m) => concat("hostcall failed: ", m.as_str()),
        }
    }
}

#[derive(Debug)]
pub struct ExecResult {
    pub exit_code: i32,
    pub stdout: String,
    pub stderr: String,
}

/// What a negative answer of the model call says.
pub open spec fn model_fault(code: i32) -> ModelFault {
    if code == -1 {
        ModelFault::StreamUnsupported
    } else if code == -2 {
        ModelFault::BudgetExceeded
    } else if code == -3 {
        ModelFault::Timeout
    } else if code == -4 {
        ModelFault::ProviderFault
    } else if code == -5 {
        ModelFault::InvalidRequest
    } else if code == -6 {
        ModelFault::NoSpace
    } else if code == -7 {
        ModelFault::Cancelled
    } else {
        ModelFault::Host("unexpected code "@ + signed_decimal(code as int))
    }
}

pub fn map_model_error(code: i32) -> (r: ModelError)
    ensures
        r@ == model_fault(code),
{
    if code == -1 {
        ModelError::StreamUnsupported
    } else if code == -2 {
        ModelError::BudgetExceeded
    } else if code == -3 {
        ModelError::Timeout
    } else if code == -4 {
        ModelError::ProviderFault
    } else if code == -5 {
        ModelError::InvalidRequest
    } else if code == -6 {
        ModelError::NoSpace
    } else if code == -7 {
        ModelError::Cancelled
    } else {
        ModelError::Host(concat("unexpected code ", signed_text(code as i64).as_str()))
    }
}

/// The number in the first four bytes, least byte first.
pub open spec fn le_number(b: Seq<u8>) -> nat {
    (b[0] as nat) + 256 * (b[1] as nat) + 65536 * (b[2] as nat) + 16777216 * (b[3] as nat)
}

/// The bytes that follow a length of four bytes, unless the length is nothing or the bytes are
/// not all there.
pub open spec fn prefixed(buf: Seq<u8>) -> Option<Seq<u8>> {
    if buf.len() < 4 || le_number(buf) == 0 || le_number(buf) + 4 > buf.len() {
        None
    } else {
        Some(buf.subrange(4, 4int + le_number(buf)))
    }
}

pub fn copy_bytes(buf: &Vec<u8>, lo: usize, hi: usize) -> (r: Vec<u8>)
    requires
        lo <= hi <= buf.len(),
    ensures
        r@ == buf@.subrange(lo as int, hi as int),
{
    let mut out: Vec<u8> = Vec::new();
    let mut i: usize = lo;
    while i < hi
        invariant
            lo <= i <= hi <= buf.len(),
            out@ == buf@.subrange(lo as int, i as int),
        decreases hi - i,
    {
        out.push(buf[i]);
        i += 1;
        assert(buf@.subrange(lo as int, i as int) =~= buf@.subrange(lo as int, i - 1).push(
            buf@[i - 1],
        ));
    }
    out
}

/// The bytes behind a length.
pub fn prefixed_bytes(buf: &Vec<u8>) -> (r: Option<Vec<u8>>)
    ensures
        match r {
            Some(b) => prefixed(buf@) == Some(b@),
            None => prefixed(buf@) is None,
        },
{
    if buf.len() < 4 {
        return None;
    }
    let len: u64 = buf[0] as u64 + 256 * (buf[1] as u64) + 65536 * (buf[2] as u64) + 16777216 * (
    buf[3] as u64);
    assert(len == le_number(buf@));
    if len == 0 || len + 4 > buf.len() as u64 {
        return None;
    }
    Some(copy_bytes(buf, 4, len as usize + 4))
}

/// The text behind a length.
pub open spec fn prefixed_text(buf: Seq<u8>) -> Result<Option<Seq<char>>, Seq<char>> {
    match prefixed(buf) {
        None => Ok(None),
        Some(b) => match text_in_bytes(b) {
            Ok(t) => Ok(Some(t)),
            Err(m) => Err(m),
        },
    }
}

pub fn decode_prefixed(buf: &Vec<u8>) -> (r: Result<Option<String>, String>)
    ensures
        match (r, prefixed_text(buf@)) {
            (Ok(t), Ok(u)) => opt_text(t) == u,
            (Err(m), Err(n)) => m@ == n,
            _ => false,
        },
{
    match prefixed_bytes(buf) {
        None => Ok(None),
        Some(b) => match read_text(b) {
            Ok(t) => Ok(Some(t)),
            Err(m) => Err(m),
        },
    }
}

/// The text of a model's answer and the bytes of what is said about it.
#[derive(Debug)]
pub struct ModelReply {
    pub text: String,
    pub meta: Option<Vec<u8>>,
}

/// What the model call answered: a negative number is a failure, any other the length of the text.
/// The host never writes more than there is room for.
pub fn complete_model(status: i32, out: &Vec<u8>, meta: &Vec<u8>) -> (r: Result<
    ModelReply,
    ModelError,
>)
    requires
        status <= out@.len(),
    ensures
        match r {
            Ok(a) => {
                &&& status >= 0
                &&& text_in_bytes(out@.take(status as int)) == Ok::<_, Seq<char>>(a.text@)
                &&& match a.meta {
                    Some(b) => prefixed(meta@) == Some(b@),
                    None => prefixed(meta@) is None,
                }
            },
            Err(e) => if status < 0 {
                e@ == model_fault(status)
            } else {
                match text_in_bytes(out@.take(status as int)) {
                    Ok(_) => false,
                    Err(m) => e@ == ModelFault::Utf8(m),
                }
            },
        },
{
    if status < 0 {
        return Err(map_model_error(status));
    }
    assert(out@.subrange(0, status as int) =~= out@.take(status as int));
    match read_text(copy_bytes(out, 0, status as usize)) {
        Err(m) => Err(ModelError::Utf8(m)),
        Ok(text) => Ok(ModelReply { text, meta: prefixed_bytes(meta) }),
    }
}

/// What a negative answer of the exec call says.
pub open spec fn exec_fault(code: i32) -> ExecFault {
    if code == -1 {
        ExecFault::Invalid
    } else if code == -2 {
        ExecFault::SpawnFailed
    } else if code == -3 {
        ExecFault::Signal
    } else if code == -4 {
        ExecFault::NoSpace
    } else {
        ExecFault::Host("unexpected code "@ + signed_decimal(code as int))
    }
}

pub open spec fn or_empty(t: Option<Seq<char>>) -> Seq<char> {
    match t {
        Some(s) => s,
        None => ""@,
    }
}

/// What the exec call answered: a negative number is a failure, any other the command's exit code.
pub fn exec_capture(status: i32, stdout: &Vec<u8>, stderr: &Vec<u8>) -> (r: Result<
    ExecResult,
    ExecError,
>)
    ensures
        match (r, prefixed_text(stdout@), prefixed_text(stderr@)) {
            (Ok(x), Ok(a), Ok(b)) => status >= 0 && x.exit_code == status && x.stdout@ == or_empty(a)
                && x.stderr@ == or_empty(b),
            (Ok(_), _, _) => false,
            (Err(e), a, b) => if status < 0 {
                e@ == exec_fault(status)
            } else {
                match (a, b) {
                    (Err(m), _) => e@ == ExecFault::Utf8(m),
                    (Ok(_), Err(m)) => e@ == ExecFault::Utf8(m),
                    _ => false,
                }
            },
        },
{
    if status == -1 {
        return Err(ExecError::Invalid);
    }
    if status == -2 {
        return Err(ExecError::SpawnFailed);
    }
    if status == -3 {
        return Err(ExecError::Signal);
    }
    if status == -4 {
        return Err(ExecError::NoSpace);
    }
    if status < 0 {
        return Err(
            ExecError::Host(concat("unexpected code ", signed_text(status as i64).as_str())),
        );
    }
    let said = match decode_prefixed(stdout) {
        Ok(t) => t,
        Err(m) => {
            return Err(ExecError::Utf8(m));
        },
    };
    let complained = match decode_prefixed(stderr) {
        Ok(t) => t,
        Err(m) => {
            return Err(ExecError::Utf8(m));
        },
    };
    Ok(
        ExecResult {
            exit_code: status,
            stdout: match said {
                Some(t) => t,
                None => "".to_owned(),
            },
            stderr: match complained {
                Some(t) => t,
                None => "".to_owned(),
            },
        },
    )
}

/// The bytes behind their length.
pub open spec fn with_length(b: Seq<u8>) -> Seq<u8> {
    seq![
        (b.len() % 256) as u8,
        ((b.len() / 256) % 256) as u8,
        ((b.len() / 65536) % 256) as u8,
        ((b.len() / 16777216) % 256) as u8,
    ] + b
}

/// Bytes that the host puts behind their length, if there are any, come out again, whatever
/// stands after them.
pub proof fn prefixed_bytes_come_out(b: Seq<u8>, rest: Seq<u8>)
    requires
        0 < b.len() < 0x1_0000_0000,
    ensures
        prefixed(with_length(b) + rest) == Some(b),
{
    let buf = with_length(b) + rest;
    let n = b.len();
    assert(n % 256 + 256 * ((n / 256) % 256) + 65536 * ((n / 65536) % 256) + 16777216 * ((n
        / 16777216) % 256) == n) by (nonlinear_arith)
        requires
            n < 0x1_0000_0000,
    ;
    assert(le_number(buf) == n);
    assert(buf.subrange(4, 4int + n) =~= b);
}

} // verus!
