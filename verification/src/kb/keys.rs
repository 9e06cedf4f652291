//! The keys of contacts and artifacts.

use crate::digest::{is_small_hex, blake3_hex, blake3_hex_of, push_text, utf8};
use crate::text::{concat, contains_char, has_char, is_blank, lower, lowered, opt_text, texts, trim, trimmed};
use vstd::prelude::*;

verus! {

/// An address in its usual form: without white space around it, in small letters.
pub open spec fn plain_email(email: Seq<char>) -> Seq<char> {
    lower(trim(email))
}

pub fn normalize_email(email: &str) -> (r: String)
    ensures
        r@ == plain_email(email@),
{
    lowered(trimmed(email).as_str())
}

fn text_bytes(s: &str) -> (r: Vec<u8>)
    ensures
        r@ == utf8(s@),
{
    let mut v: Vec<u8> = Vec::new();
    push_text(&mut v, s);
    assert(v@ =~= utf8(s@));
    v
}

/// The key of a contact: from its address, or else from its name and organisation.
pub open spec fn contact_key(
    email: Option<Seq<char>>,
    name: Option<Seq<char>>,
    org: Option<Seq<char>>,
) -> Option<Seq<char>> {
    if email is Some && trim(email->0).len() > 0 {
        Some(blake3_hex(utf8(plain_email(email->0))))
    } else {
        match name {
            Some(n) => Some(
                blake3_hex(
                    match org {
                        Some(o) => utf8(trim(n)) + utf8("|"@) + utf8(trim(o)),
                        None => utf8(trim(n)),
                    },
                ),
            ),
            None => None,
        }
    }
}

pub fn derive_contact_key(email: &Option<String>, name: &Option<String>, org: &Option<String>) -> (r:
    Option<String>)
    ensures
        opt_text(r) == contact_key(opt_text(*email), opt_text(*name), opt_text(*org)),
        r matches Some(k) ==> k@.len() == 64 && forall|i: int|
            0 <= i < k@.len() ==> is_small_hex(#[trigger] k@[i]),
{
    match email {
        Some(e) => {
            if !is_blank(e.as_str()) {
                let bytes = text_bytes(normalize_email(e.as_str()).as_str());
                return Some(blake3_hex_of(&bytes));
            }
        },
        None => {},
    }
    match name {
        Some(n) => {
            let mut bytes = text_bytes(trimmed(n.as_str()).as_str());
            match org {
                Some(o) => {
                    push_text(&mut bytes, "|");
                    push_text(&mut bytes, trimmed(o.as_str()).as_str());
                },
                None => {},
            }
            Some(blake3_hex_of(&bytes))
        },
        None => None,
    }
}

/// The key of an artifact: its digest, or else one of its path.
pub open spec fn artifact_key(sha256: Option<Seq<char>>, path: Option<Seq<char>>) -> Option<Seq<char>> {
    if sha256 is Some && trim(sha256->0).len() > 0 {
        Some(lower(sha256->0))
    } else {
        match path {
            Some(p) => Some(blake3_hex(utf8(trim(p)))),
            None => None,
        }
    }
}

pub fn derive_artifact_key(sha256: &Option<String>, path: &Option<String>) -> (r: Option<String>)
    ensures
        opt_text(r) == artifact_key(opt_text(*sha256), opt_text(*path)),
{
    match sha256 {
        Some(h) => {
            if !is_blank(h.as_str()) {
                return Some(lowered(h.as_str()));
            }
        },
        None => {},
    }
    match path {
        Some(p) => {
            let bytes = text_bytes(trimmed(p.as_str()).as_str());
            Some(blake3_hex_of(&bytes))
        },
        None => None,
    }
}

/// The keys under which the history of something may stand.
pub open spec fn history_keys(key: Seq<char>) -> Seq<Seq<char>> {
    if has_char(key, ':') {
        seq![key]
    } else {
        seq![key, "contact:"@ + key, "artifact:"@ + key, "run:"@ + key]
    }
}

pub fn entity_key_candidates(key: &str) -> (r: Vec<String>)
    ensures
        texts(r@) == history_keys(key@),
{
    let mut out: Vec<String> = Vec::new();
    out.push(key.to_owned());
    if !contains_char(key, ':') {
        out.push(concat("contact:", key));
        out.push(concat("artifact:", key));
        out.push(concat("run:", key));
    }
    assert(texts(out@) =~= history_keys(key@));
    out
}

/// Two addresses that differ in case or in the white space around them belong to one contact,
/// whatever its name.
pub proof fn contacts_are_known_by_address(
    a: Seq<char>,
    b: Seq<char>,
    name: Option<Seq<char>>,
    other: Option<Seq<char>>,
    org: Option<Seq<char>>,
)
    requires
        plain_email(a) == plain_email(b),
        trim(a).len() > 0,
    ensures
        contact_key(Some(a), name, org) == contact_key(Some(b), other, org),
{
    assert(trim(b).len() == plain_email(b).len());
    assert(trim(a).len() == plain_email(a).len());
}

/// Bringing an address into its usual form once is enough.
pub proof fn plain_emails_stay(email: Seq<char>)
    ensures
        plain_email(plain_email(email)) == plain_email(email),
{
    let t = trim(email);
    crate::text::trim_is_idempotent(email);
    lemma_lower_trim(t);
    assert(lower(lower(t)) =~= lower(t)) by {
        assert forall|i: int| 0 <= i < t.len() implies lower(lower(t))[i] == lower(t)[i] by {
            lemma_lower_char(t[i]);
        }
    }
}

proof fn lemma_lower_char(c: char)
    ensures
        crate::text::lower_char(crate::text::lower_char(c)) == crate::text::lower_char(c),
        crate::text::is_white_space(crate::text::lower_char(c)) == crate::text::is_white_space(c),
{
}

proof fn lemma_lower_start(t: Seq<char>)
    ensures
        lower(crate::text::trim_start(t)) == crate::text::trim_start(lower(t)),
    decreases t.len(),
{
    if t.len() > 0 {
        lemma_lower_char(t[0]);
        assert(lower(t)[0] == crate::text::lower_char(t[0]));
        if crate::text::is_white_space(t[0]) {
            lemma_lower_start(t.skip(1));
            assert(lower(t).skip(1) =~= lower(t.skip(1)));
        }
    } else {
        assert(lower(t) =~= t);
    }
}

proof fn lemma_lower_end(t: Seq<char>)
    ensures
        lower(crate::text::trim_end(t)) == crate::text::trim_end(lower(t)),
    decreases t.len(),
{
    if t.len() > 0 {
        lemma_lower_char(t.last());
        assert(lower(t).last() == crate::text::lower_char(t.last()));
        if crate::text::is_white_space(t.last()) {
            lemma_lower_end(t.drop_last());
            assert(lower(t).drop_last() =~= lower(t.drop_last()));
        }
    } else {
        assert(lower(t) =~= t);
    }
}

proof fn lemma_lower_trim(t: Seq<char>)
    ensures
        trim(lower(t)) == lower(trim(t)),
{
    lemma_lower_start(t);
    lemma_lower_end(crate::text::trim_start(t));
    lemma_lower_end(t);
    lemma_lower_start(crate::text::trim_end(t));
}

} // verus!
