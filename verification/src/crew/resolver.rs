//! Finds the contact that a query is about.

use crate::broker::types::{Fraction, FractionModel};
use crate::crew::common::{
    contact_payload, contact_record, proposed, ContactModel, Errand, ResolvedContact,
};
use crate::ids::EventId;
use crate::json::{signed_in, text_in, tree_get, tree_signed, tree_text, Json, JsonModel, Numeral};
use crate::kb::ledger::StateDelta;
use crate::kb::keys::{contact_key, derive_contact_key, normalize_email, plain_email};
use crate::prose::{capitalize_words, capitalized, trim_start_of, trimmed_start_of};
use crate::text::{ascii_lower_char, chars_of, concat, concat3, contains, contains_char, has_char, has_text, lower, lower_char, lowered, replace_char, replaced, same_ignoring_case, trim, trim_end_of, trimmed, trimmed_end_of};
use vstd::prelude::*;

verus! {

#[derive(Debug)]
pub struct ContactIntent {
    pub recipient_query: String,
}

pub open spec fn contacts_pattern(query: Seq<char>) -> Seq<char> {
    "%"@ + replace_char(lower(query), '\'', "''"@) + "%"@
}

/// The query for the contacts that may be meant.
pub open spec fn contacts_query(query: Seq<char>) -> Seq<char> {
    "SELECT contact_key, name, email, org, trust, source_event FROM contacts WHERE lower(name) LIKE '"@
        + contacts_pattern(query) + "' OR lower(email) LIKE '"@ + contacts_pattern(query)
        + "' ORDER BY trust DESC, source_event DESC LIMIT 5"@
}

/// What the views are to be asked, unless the query is empty.
pub fn lookup_query(query: &str) -> (r: Option<String>)
    ensures
        match r {
            Some(s) => query@.len() > 0 && s@ == contacts_query(query@),
            None => query@.len() == 0,
        },
{
    if query.is_empty() {
        return None;
    }
    let small = lowered(query);
    let quoted = replaced(small.as_str(), '\'', "''");
    let pattern = concat3("%", quoted.as_str(), "%");
    let mut out = concat(
        "SELECT contact_key, name, email, org, trust, source_event FROM contacts WHERE lower(name) LIKE '",
        pattern.as_str(),
    );
    out.append("' OR lower(email) LIKE '");
    out.append(pattern.as_str());
    out.append("' ORDER BY trust DESC, source_event DESC LIMIT 5");
    Some(out)
}

/// How far the contact in a row is trusted: halfway where nothing is said.
pub fn row_trust(row: &Json) -> (r: Numeral)
    ensures
        r@ == crate::kb::views::trust_in(row@),
{
    match row.get("trust") {
        Some(Json::Number(n)) => n.clone(),
        _ => Numeral::Float("0.5".to_owned()),
    }
}

/// The contact in a row, with the given confidence; a row without a key or an address gives none.
pub open spec fn contact_in(row: JsonModel, confidence: FractionModel) -> Option<ContactModel> {
    match (tree_text(tree_get(row, "contact_key"@)), tree_text(tree_get(row, "email"@))) {
        (Some(key), Some(email)) => if email.len() == 0 {
            None
        } else {
            Some(
                ContactModel {
                    contact_id: "contact:"@ + key,
                    name: match tree_text(tree_get(row, "name"@)) {
                        Some(n) => n,
                        None => "unknown"@,
                    },
                    email,
                    org: tree_text(tree_get(row, "org"@)),
                    confidence,
                    last_event_id: match tree_signed(tree_get(row, "source_event"@)) {
                        Some(n) => Some(EventId(n)),
                        None => None,
                    },
                },
            )
        },
        _ => None,
    }
}

pub fn row_to_contact(row: &Json, confidence: Fraction) -> (r: Option<ResolvedContact>)
    ensures
        match (r, contact_in(row@, confidence@)) {
            (Some(c), Some(m)) => c@ == m,
            (None, None) => true,
            _ => false,
        },
{
    let key = match text_in(row.get("contact_key")) {
        Some(k) => k,
        None => {
            return None;
        },
    };
    let email = match text_in(row.get("email")) {
        Some(e) => e,
        None => {
            return None;
        },
    };
    if email.as_str().is_empty() {
        return None;
    }
    let name = match text_in(row.get("name")) {
        Some(n) => n.clone(),
        None => "unknown".to_owned(),
    };
    let org = match text_in(row.get("org")) {
        Some(o) => Some(o.clone()),
        None => None,
    };
    let last_event_id = match signed_in(row.get("source_event")) {
        Some(n) => Some(EventId(n)),
        None => None,
    };
    Some(
        ResolvedContact {
            contact_id: concat("contact:", key.as_str()),
            name,
            email: email.clone(),
            org,
            confidence,
            last_event_id,
        },
    )
}

/// In what a contact is like a query. Likeness of the address counts for three tenths, likeness of
/// the name for one.
#[derive(Clone, Copy, Debug, PartialEq, Eq, Structural)]
pub enum Likeness {
    Address,
    Name,
    Nothing,
}

pub open spec fn likeness_of(name: Seq<char>, email: Seq<char>, query: Seq<char>) -> Likeness {
    if lower(email) == lower(trim(query)) {
        Likeness::Address
    } else if has_text(lower(name), lower(query)) {
        Likeness::Name
    } else {
        Likeness::Nothing
    }
}

pub fn likeness(contact: &ResolvedContact, query: &str) -> (r: Likeness)
    ensures
        r == likeness_of(contact.name@, contact.email@, query@),
{
    if same_ignoring_case(contact.email.as_str(), trimmed(query).as_str()) {
        Likeness::Address
    } else if contains(lowered(contact.name.as_str()).as_str(), lowered(query).as_str()) {
        Likeness::Name
    } else {
        Likeness::Nothing
    }
}

/// The first of the greatest scores, if any is more than nothing.
pub fn best_score(scores: &Vec<u32>) -> (r: Option<usize>)
    ensures
        match r {
            Some(i) => {
                &&& i < scores@.len()
                &&& scores@[i as int] > 0
                &&& forall|j: int| 0 <= j < scores@.len() ==> scores@[j] <= scores@[i as int]
                &&& forall|j: int| 0 <= j < i ==> scores@[j] < scores@[i as int]
            },
            None => forall|j: int| 0 <= j < scores@.len() ==> scores@[j] == 0,
        },
{
    let mut best: Option<usize> = None;
    let mut most: u32 = 0;
    let mut k: usize = 0;
    while k < scores.len()
        invariant
            k <= scores.len(),
            match best {
                Some(i) => {
                    &&& i < k
                    &&& scores@[i as int] == most
                    &&& most > 0
                    &&& forall|j: int| 0 <= j < k ==> scores@[j] <= most
                    &&& forall|j: int| 0 <= j < i ==> scores@[j] < most
                },
                None => most == 0 && forall|j: int| 0 <= j < k ==> scores@[j] == 0,
            },
        decreases scores.len() - k,
    {
        if scores[k] > most {
            most = scores[k];
            best = Some(k);
        }
        k += 1;
    }
    best
}

/// The letters, digits and hyphens of a text, in small letters.
pub open spec fn kept_chars(s: Seq<char>) -> Seq<char>
    decreases s.len(),
{
    if s.len() == 0 {
        seq![]
    } else if is_letter_or_digit(s.last()) || s.last() == '-' {
        kept_chars(s.drop_last()).push(lower_char(s.last()))
    } else {
        kept_chars(s.drop_last())
    }
}

pub open spec fn is_letter_or_digit(c: char) -> bool {
    ('a' <= c && c <= 'z') || ('A' <= c && c <= 'Z') || ('0' <= c && c <= '9')
}

pub fn letter_or_digit(c: char) -> (r: bool)
    ensures
        r == is_letter_or_digit(c),
{
    ('a' <= c && c <= 'z') || ('A' <= c && c <= 'Z') || ('0' <= c && c <= '9')
}

pub open spec fn slug_of(s: Seq<char>) -> Seq<char> {
    trim_end_of(trim_start_of(kept_chars(s), '-'), '-')
}

pub fn slug(input: &str) -> (r: String)
    ensures
        r@ == slug_of(input@),
{
    let v = chars_of(input);
    let mut out = String::new();
    let mut i: usize = 0;
    while i < v.len()
        invariant
            i <= v.len(),
            v@ == input@,
            out@ == kept_chars(input@.take(i as int)),
        decreases v.len() - i,
    {
        assert(input@.take(i + 1).drop_last() =~= input@.take(i as int));
        if letter_or_digit(v[i]) || v[i] == '-' {
            out.push(ascii_lower_char(v[i]));
        }
        i += 1;
    }
    assert(input@.take(input@.len() as int) =~= input@);
    trimmed_end_of(trimmed_start_of(out.as_str(), '-').as_str(), '-')
}

/// The name and the address that a contact gets that is not known yet.
pub open spec fn stub_identity(query: Seq<char>) -> (Seq<char>, Seq<char>) {
    if has_char(query, '@') {
        ("Unknown"@, plain_email(query))
    } else {
        (capitalized(query), slug_of(query) + "@unknown.local"@)
    }
}

/// A contact that is not known yet: little trusted, with a key from its address.
pub open spec fn stub_of(query: Seq<char>) -> ContactModel {
    let (name, email) = stub_identity(query);
    ContactModel {
        contact_id: "contact:"@ + contact_key(Some(email), Some(name), None)->0,
        name,
        email,
        org: None,
        confidence: FractionModel { short: "0.4"@, wide: "0.4000000059604645"@ },
        last_event_id: None,
    }
}

/// A contact that is not known yet, and what is recorded of it.
#[derive(Debug)]
pub struct Stub {
    pub contact: ResolvedContact,
    pub event: StateDelta,
}

pub fn create_stub_contact(query: &str, errand: &Errand) -> (r: Stub)
    ensures
        r.contact@ == stub_of(query@),
        r.event@ == proposed(
            *errand,
            "contact.upserted"@,
            contact_record(
                stub_of(query@),
                FractionModel { short: "0.2"@, wide: "0.20000000298023224"@ },
            ),
            Some("stub created for query '"@ + query@ + "'"@),
        ),
{
    let (name, email) = if contains_char(query, '@') {
        ("Unknown".to_owned(), normalize_email(query))
    } else {
        (capitalize_words(query), concat(slug(query).as_str(), "@unknown.local"))
    };
    let some_name = Some(name);
    let some_email = Some(email);
    let none: Option<String> = None;
    let key = derive_contact_key(&some_email, &some_name, &none);
    let contact_id = match key {
        Some(k) => concat("contact:", k.as_str()),
        None => "contact:".to_owned(),
    };
    let contact = ResolvedContact {
        contact_id,
        name: match some_name {
            Some(n) => n,
            None => "".to_owned(),
        },
        email: match some_email {
            Some(e) => e,
            None => "".to_owned(),
        },
        org: None,
        confidence: Fraction { short: "0.4".to_owned(), wide: "0.4000000059604645".to_owned() },
        last_event_id: None,
    };
    let trust = Fraction { short: "0.2".to_owned(), wide: "0.20000000298023224".to_owned() };
    let payload = contact_payload(&contact, &trust);
    let rationale = concat3("stub created for query '", query, "'");
    Stub { contact, event: errand.propose_event("contact.upserted", payload, Some(rationale)) }
}

/// Queries for one address, whatever its case, give the contact the same name in the ledger.
pub proof fn one_address_one_stub(a: Seq<char>, b: Seq<char>)
    requires
        has_char(a, '@'),
        has_char(b, '@'),
        plain_email(a) == plain_email(b),
    ensures
        stub_of(a) == stub_of(b),
{
}

} // verus!
