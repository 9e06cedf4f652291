//! Messages and the errors of the bus.

use crate::digest::hex_digit;
use crate::text::{concat, concat3, decimal, decimal_text};
use vstd::prelude::*;

verus! {

/// How long a message lives where nothing else is said.
pub const DEFAULT_TTL_MS: u64 = 30_000;

/// The length of a header on the wire.
pub const HEADER_LEN: u64 = 64;

/// The largest body, in bytes.
pub const MAX_BODY_LEN: u64 = 8_388_608;

/// What the bus reads of a message's header.
#[derive(Clone, Copy, Debug, PartialEq, Eq, Structural)]
pub struct Header {
    pub schema_id: u16,
    pub body_len: u32,
    pub created_at_ms: u64,
    pub ttl_ms: u64,
    pub trace_id: u128,
    pub msg_id: u64,
}

impl Default for Header {
    fn default() -> (r: Self)
        ensures
            r == blank_header(),
    {
        Header {
            schema_id: 0,
            body_len: 0,
            created_at_ms: 0,
            ttl_ms: DEFAULT_TTL_MS,
            trace_id: 0,
            msg_id: 0,
        }
    }
}

pub open spec fn blank_header() -> Header {
    Header {
        schema_id: 0,
        body_len: 0,
        created_at_ms: 0,
        ttl_ms: DEFAULT_TTL_MS,
        trace_id: 0,
        msg_id: 0,
    }
}

#[allow(inconsistent_fields)]
#[derive(Debug)]
pub enum BusError {
    AlreadyBound(String),
    NotFound(String),
    Closed,
    MessageExpired,
    InvalidTtl(u64),
    BodyLengthMismatch { expected: u32, actual: usize },
    BackpressureTimeout { topic: String },
    Forbidden(String),
    BodyTypeMismatch { expected: u16, actual: String },
    InvalidExpiry { created_at_ms: u64, ttl_ms: u64 },
    UnknownSchema(u16),
}

pub ghost enum BusFault {
    AlreadyBound(Seq<char>),
    NotFound(Seq<char>),
    Closed,
    MessageExpired,
    InvalidTtl(u64),
    BodyLengthMismatch(u32, usize),
    BackpressureTimeout(Seq<char>),
    Forbidden(Seq<char>),
    BodyTypeMismatch(u16, Seq<char>),
    InvalidExpiry(u64, u64),
    UnknownSchema(u16),
}

impl BusError {
    pub open spec fn view(self) -> BusFault {
        match self {
            BusError::AlreadyBound(p) => BusFault::AlreadyBound(p@),
            BusError::NotFound(p) => BusFault::NotFound(p@),
            BusError::Closed => BusFault::Closed,
            BusError::MessageExpired => BusFault::MessageExpired,
            BusError::InvalidTtl(t) => BusFault::InvalidTtl(t),
            BusError::BodyLengthMismatch { expected, actual } => BusFault::BodyLengthMismatch(
                expected,
                actual,
            ),
            BusError::BackpressureTimeout { topic } => BusFault::BackpressureTimeout(topic@),
            BusError::Forbidden(m) => BusFault::Forbidden(m@),
            BusError::BodyTypeMismatch { expected, actual } => BusFault::BodyTypeMismatch(
                expected,
                actual@,
            ),
            BusError::InvalidExpiry { created_at_ms, ttl_ms } => BusFault::InvalidExpiry(
                created_at_ms,
                ttl_ms,
            ),
            BusError::UnknownSchema(s) => BusFault::UnknownSchema(s),
        }
    }
}

/// Four hexadecimal digits behind `0x`.
pub open spec fn hex4(n: u16) -> Seq<char> {
    "0x"@ + seq![
        hex_digit((n / 4096) as u8),
        hex_digit(((n / 256) % 16) as u8),
        hex_digit(((n / 16) % 16) as u8),
        hex_digit((n % 16) as u8),
    ]
}

fn digit_of(n: u16) -> (r: char)
    requires
        n < 16,
    ensures
        r == hex_digit(n as u8),
{
    if n < 10 {
        (48 + n as u8) as char
    } else {
        (87 + n as u8) as char
    }
}

fn hex4_text(n: u16) -> (r: String)
    ensures
        r@ == hex4(n),
{
    let mut out = "0x".to_owned();
    out.push(digit_of(n / 4096));
    out.push(digit_of((n / 256) % 16));
    out.push(digit_of((n / 16) % 16));
    out.push(digit_of(n % 16));
    assert(out@ =~= hex4(n));
    out
}

pub open spec fn bus_text(f: BusFault) -> Seq<char> {
    match f {
        BusFault::AlreadyBound(p) => "bus already bound at "@ + p,
        BusFault::NotFound(p) => "bus not found at "@ + p,
        BusFault::Closed => "bus closed"@,
        BusFault::MessageExpired => "message expired prior to publish"@,
        BusFault::InvalidTtl(t) => "invalid ttl "@ + decimal(t as nat) + " ms"@,
        BusFault::BodyLengthMismatch(e, a) => "body length mismatch (header "@ + decimal(e as nat)
            + ", body "@ + decimal(a as nat) + ")"@,
        BusFault::BackpressureTimeout(t) => "backpressure timeout for topic "@ + t,
        BusFault::Forbidden(m) => "forbidden: "@ + m,
        BusFault::BodyTypeMismatch(e, a) => "body type mismatch: expected schema "@ + hex4(e)
            + ", got '"@ + a + "'"@,
        BusFault::InvalidExpiry(c, t) => "invalid expiry (created_at_ms="@ + decimal(c as nat)
            + ", ttl_ms="@ + decimal(t as nat) + ")"@,
        BusFault::UnknownSchema(s) => "unknown schema id "@ + hex4(s),
    }
}

impl BusError {
    pub fn message(&self) -> (r: String)
        ensures
            r@ == bus_text(self@),
    {
        match self {
            BusError::AlreadyBound(p) => concat("bus already bound at ", p.as_str()),
            BusError::NotFound(p) => concat("bus not found at ", p.as_str()),
            BusError::Closed => "bus closed".to_owned(),
            BusError::MessageExpired => "message expired prior to publish".to_owned(),
            BusError::InvalidTtl(t) => concat3("invalid ttl ", decimal_text(*t).as_str(), " ms"),
            BusError::BodyLengthMismatch { expected, actual } => {
                let mut out = concat3(
                    "body length mismatch (header ",
                    decimal_text(*expected as u64).as_str(),
                    ", body ",
                );
                out.append(decimal_text(*actual as u64).as_str());
                out.append(")");
                out
            },
            BusError::BackpressureTimeout { topic } => concat(
                "backpressure timeout for topic ",
                topic.as_str(),
            ),
            BusError::Forbidden(m) => concat("forbidden: ", m.as_str()),
            BusError::BodyTypeMismatch { expected, actual } => {
                let mut out = concat3(
                    "body type mismatch: expected schema ",
                    hex4_text(*expected).as_str(),
                    ", got '",
                );
                out.append(actual.as_str());
                out.append("'");
                out
            },
            BusError::InvalidExpiry { created_at_ms, ttl_ms } => {
                let mut out = concat3(
                    "invalid expiry (created_at_ms=",
                    decimal_text(*created_at_ms).as_str(),
                    ", ttl_ms=",
                );
                out.append(decimal_text(*ttl_ms).as_str());
                out.append(")");
                out
            },
            BusError::UnknownSchema(s) => concat(
                "unknown schema id ",
                hex4_text(*s).as_str(),
            ),
        }
    }
}

/// The errors of the message protocol.
#[derive(Debug)]
pub enum RmpError {
    InvalidTtl(u64),
    InvalidExpiry { created_at_ms: u64, ttl_ms: u64 },
    BodyTypeMismatch { expected: u16, actual: String },
    UnknownSchema(u16),
    Other,
}

pub open spec fn mapped(e: RmpError) -> BusFault {
    match e {
        RmpError::InvalidTtl(t) => BusFault::InvalidTtl(t),
        RmpError::InvalidExpiry { created_at_ms, ttl_ms } => BusFault::InvalidExpiry(
            created_at_ms,
            ttl_ms,
        ),
        RmpError::BodyTypeMismatch { expected, actual } => BusFault::BodyTypeMismatch(
            expected,
            actual@,
        ),
        RmpError::UnknownSchema(s) => BusFault::UnknownSchema(s),
        RmpError::Other => BusFault::Closed,
    }
}

pub fn map_rmp_error(e: RmpError) -> (r: BusError)
    ensures
        r@ == mapped(e),
{
    match e {
        RmpError::InvalidTtl(t) => BusError::InvalidTtl(t),
        RmpError::InvalidExpiry { created_at_ms, ttl_ms } => BusError::InvalidExpiry {
            created_at_ms,
            ttl_ms,
        },
        RmpError::BodyTypeMismatch { expected, actual } => BusError::BodyTypeMismatch {
            expected,
            actual,
        },
        RmpError::UnknownSchema(s) => BusError::UnknownSchema(s),
        RmpError::Other => BusError::Closed,
    }
}

/// When a message expires: it must live for some time, and its end must be a time.
pub open spec fn expiry(h: Header) -> Result<u64, BusFault> {
    if h.ttl_ms == 0 {
        Err(BusFault::InvalidTtl(0))
    } else if h.created_at_ms + h.ttl_ms > u64::MAX {
        Err(BusFault::InvalidExpiry(h.created_at_ms, h.ttl_ms))
    } else {
        Ok((h.created_at_ms + h.ttl_ms) as u64)
    }
}

impl Header {
    pub fn expires_at_ms(&self) -> (r: Result<u64, BusError>)
        ensures
            match (r, expiry(*self)) {
                (Ok(t), Ok(u)) => t == u,
                (Err(e), Err(f)) => e@ == f,
                _ => false,
            },
    {
        if self.ttl_ms == 0 {
            return Err(BusError::InvalidTtl(0));
        }
        match self.created_at_ms.checked_add(self.ttl_ms) {
            Some(t) => Ok(t),
            None => Err(
                BusError::InvalidExpiry { created_at_ms: self.created_at_ms, ttl_ms: self.ttl_ms },
            ),
        }
    }

    /// Whether the message has reached its end at `now_ms`.
    pub fn is_expired(&self, now_ms: u64) -> (r: Result<bool, BusError>)
        ensures
            match (r, expiry(*self)) {
                (Ok(b), Ok(end)) => b == (now_ms >= end),
                (Err(e), Err(f)) => e@ == f,
                _ => false,
            },
    {
        match self.expires_at_ms() {
            Ok(end) => Ok(now_ms >= end),
            Err(e) => Err(e),
        }
    }

    pub fn dedupe_key(&self) -> (r: (u128, u64))
        ensures
            r == (self.trace_id, self.msg_id),
    {
        (self.trace_id, self.msg_id)
    }
}

/// A header and the bytes of the body behind it.
#[derive(Debug)]
pub struct Message {
    pub header: Header,
    pub body: Vec<u8>,
}

/// The length of a body as a header holds it, in 32 bits.
pub open spec fn short_len(n: nat) -> u32 {
    (n % 0x1_0000_0000) as u32
}

/// Whether a body fits a header, and the header with the body's length.
pub open spec fn message_header(h: Header, len: usize) -> Result<Header, BusFault> {
    let actual = short_len(len as nat);
    let full = Header { body_len: actual, ..h };
    if h.body_len != 0 && h.body_len != actual {
        Err(BusFault::BodyLengthMismatch(h.body_len, len))
    } else {
        match expiry(full) {
            Ok(_) => Ok(full),
            Err(f) => Err(f),
        }
    }
}

impl Message {
    pub fn new(header: Header, body: Vec<u8>) -> (r: Result<Self, BusError>)
        ensures
            match (r, message_header(header, body@.len() as usize)) {
                (Ok(m), Ok(h)) => m.header == h && m.body == body,
                (Err(e), Err(f)) => e@ == f,
                _ => false,
            },
    {
        let actual: u32 = (body.len() as u64 % 0x1_0000_0000) as u32;
        if header.body_len != 0 && header.body_len != actual {
            return Err(
                BusError::BodyLengthMismatch { expected: header.body_len, actual: body.len() },
            );
        }
        let full = Header { body_len: actual, ..header };
        match full.expires_at_ms() {
            Ok(_) => Ok(Message { header: full, body }),
            Err(e) => Err(e),
        }
    }
}

} // verus!
