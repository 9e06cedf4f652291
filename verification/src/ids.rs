//! Identifiers of agents, openings, traces and events.

use crate::digest::hex_digit;
use crate::text::{concat, has_prefix, is_white_space, signed_decimal, signed_text, strip_prefix};
use crate::text::{trim, trimmed};
use vstd::prelude::*;

verus! {

/// The `count` lowest hexadecimal digits of `value`, the highest of them first.
pub open spec fn hex_figures(value: u128, count: nat) -> Seq<char>
    decreases count,
{
    if count == 0 {
        seq![]
    } else {
        hex_figures(value / 16, (count - 1) as nat).push(hex_digit((value % 16) as u8))
    }
}

/// The text of an identifier: its 32 digits, in groups of 8, 4, 4, 4 and 12 with a hyphen
/// between them.
pub open spec fn uuid_text(value: u128) -> Seq<char> {
    let figures = hex_figures(value, 32);
    figures.subrange(0, 8).push('-') + figures.subrange(8, 12).push('-') + figures.subrange(
        12,
        16,
    ).push('-') + figures.subrange(16, 20).push('-') + figures.subrange(20, 32)
}

/// The identifier that `uuid` reads in a text, if it is one.
pub uninterp spec fn uuid_value(text: Seq<char>) -> Option<u128>;

/// Whether `c` occurs in the text of an identifier.
pub open spec fn is_uuid_char(c: char) -> bool {
    '0' <= c <= '9' || 'a' <= c <= 'f' || c == '-'
}

proof fn lemma_hex_figures(value: u128, count: nat)
    ensures
        hex_figures(value, count).len() == count,
        forall|i: int| 0 <= i < count ==> is_uuid_char(#[trigger] hex_figures(value, count)[i]),
    decreases count,
{
    if count > 0 {
        lemma_hex_figures(value / 16, (count - 1) as nat);
    }
}

/// The text of an identifier has 36 characters, each of them a digit or a hyphen.
pub proof fn lemma_uuid_text(value: u128)
    ensures
        uuid_text(value).len() == 36,
        forall|i: int| 0 <= i < 36 ==> is_uuid_char(#[trigger] uuid_text(value)[i]),
{
    lemma_hex_figures(value, 32);
}

/// `uuid::Uuid::to_string` writes the 32 small hexadecimal digits of the identifier with four
/// hyphens among them, and `uuid::Uuid::parse_str` reads that text back as the same identifier.
#[verifier::external_body]
pub(crate) fn write_uuid(value: u128) -> (r: String)
    ensures
        r@ == uuid_text(value),
        uuid_value(r@) == Some(value),
{
    uuid::Uuid::from_u128(value).to_string()
}

/// `uuid::Uuid::parse_str`. The claim is that the text alone settles the outcome.
#[verifier::external_body]
fn read_uuid(text: &str) -> (r: Option<u128>)
    ensures
        r == uuid_value(text@),
{
    uuid::Uuid::parse_str(text).ok().map(|u| u.as_u128())
}

/// `uuid::Uuid::new_v4` draws a random identifier of version 4 and of the RFC 4122 variant.
#[verifier::external_body]
pub(crate) fn random_uuid() -> (r: u128)
    ensures
        is_random_uuid(r),
{
    uuid::Uuid::new_v4().as_u128()
}

/// Whether the version and variant bits mark a random identifier.
pub open spec fn is_random_uuid(value: u128) -> bool {
    (value >> 76) & 0xf == 4 && (value >> 62) & 0x3 == 2
}

/// Identifier of an agent instance.
#[derive(Clone, Copy, Debug, PartialEq, Eq, Hash, Structural)]
pub struct AgentId(pub u128);

/// Identifier of an opening's run.
#[derive(Clone, Copy, Debug, PartialEq, Eq, Hash, Structural)]
pub struct OpeningId(pub u128);

/// Identifier of a distributed trace.
#[derive(Clone, Copy, Debug, PartialEq, Eq, Hash, Structural)]
pub struct TraceId(pub u128);

/// Identifier of a stored event.
#[derive(Clone, Copy, Debug, PartialEq, Eq, Hash, Structural)]
pub struct EventId(pub i64);

impl AgentId {
    /// Draws a new identifier.
    pub fn new() -> (r: Self)
        ensures
            is_random_uuid(r.0),
    {
        AgentId(random_uuid())
    }

    pub fn text(&self) -> (r: String)
        ensures
            r@ == "agent:"@ + uuid_text(self.0),
    {
        concat("agent:", write_uuid(self.0).as_str())
    }
}

impl OpeningId {
    /// Draws a new identifier.
    pub fn new() -> (r: Self)
        ensures
            is_random_uuid(r.0),
    {
        OpeningId(random_uuid())
    }

    pub fn text(&self) -> (r: String)
        ensures
            r@ == "opening:"@ + uuid_text(self.0),
    {
        concat("opening:", write_uuid(self.0).as_str())
    }
}

/// The trace that `s` names, with the word `trace:` before it or without.
pub open spec fn trace_of(s: Seq<char>) -> Option<u128> {
    let t = trim(s);
    uuid_value(
        if has_prefix(t, "trace:"@) {
            t.skip("trace:"@.len() as int)
        } else {
            t
        },
    )
}

impl TraceId {
    /// Draws a new identifier.
    pub fn new() -> (r: Self)
        ensures
            is_random_uuid(r.0),
    {
        TraceId(random_uuid())
    }

    pub fn text(&self) -> (r: String)
        ensures
            r@ == "trace:"@ + uuid_text(self.0),
            trace_of(r@) == Some(self.0),
            trace_of(uuid_text(self.0)) == Some(self.0),
    {
        let bare = write_uuid(self.0);
        let r = concat("trace:", bare.as_str());
        proof {
            reveal_strlit("trace:");
            lemma_uuid_text(self.0);
            lemma_visible_ends(bare@);
            assert(r@[0] == 't');
            assert(r@.last() == bare@.last());
            assert(r@.take(6) =~= "trace:"@);
            assert(r@.skip(6) =~= bare@);
            assert(bare@.take(6)[0] == bare@[0]);
        }
        r
    }

    pub fn parse(s: &str) -> (r: Option<TraceId>)
        ensures
            match r {
                Some(t) => trace_of(s@) == Some(t.0),
                None => trace_of(s@) is None,
            },
    {
        let t = trimmed(s);
        let value = match strip_prefix(t.as_str(), "trace:") {
            Some(rest) => read_uuid(rest.as_str()),
            None => read_uuid(t.as_str()),
        };
        match value {
            Some(v) => Some(TraceId(v)),
            None => None,
        }
    }
}

proof fn lemma_visible_ends(s: Seq<char>)
    requires
        s.len() > 0,
        forall|i: int| 0 <= i < s.len() ==> is_uuid_char(#[trigger] s[i]),
    ensures
        !is_white_space(s[0]),
        !is_white_space(s.last()),
        trim(s) == s,
        s[0] != 't',
{
}

impl EventId {
    pub fn text(&self) -> (r: String)
        ensures
            r@ == "event:"@ + signed_decimal(self.0 as int),
    {
        concat("event:", signed_text(self.0).as_str())
    }
}

impl Default for AgentId {
    fn default() -> (r: Self)
        ensures
            r.0 == 0,
    {
        AgentId(0)
    }
}

impl Default for OpeningId {
    fn default() -> (r: Self)
        ensures
            r.0 == 0,
    {
        OpeningId(0)
    }
}

impl Default for TraceId {
    fn default() -> (r: Self)
        ensures
            r.0 == 0,
    {
        TraceId(0)
    }
}

} // verus!
