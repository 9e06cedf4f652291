//! Finds a contact among those that are known by heart.

use crate::broker::types::{Fraction, FractionModel};
use crate::crew::resolver::{is_letter_or_digit, letter_or_digit};
use crate::ids::{is_random_uuid, random_uuid, uuid_text, write_uuid};
use crate::prose::{capitalize_words, capitalized, trim_start_of, trimmed_start_of};
use crate::text::{ascii_lower_char, chars_of, concat, contains, has_text, lower, lower_char, lowered, opt_text, split_at_first, split_once, trim, trim_end_of, trimmed, trimmed_end_of};
use vstd::prelude::*;

verus! {

#[derive(Debug)]
pub struct ContactEntry {
    pub contact_id: String,
    pub name: String,
    pub email: String,
    pub org: Option<String>,
    pub confidence: Fraction,
    pub notes: Option<String>,
}

pub ghost struct EntryModel {
    pub contact_id: Seq<char>,
    pub name: Seq<char>,
    pub email: Seq<char>,
    pub org: Option<Seq<char>>,
    pub confidence: FractionModel,
    pub notes: Option<Seq<char>>,
}

impl ContactEntry {
    pub open spec fn view(self) -> EntryModel {
        EntryModel {
            contact_id: self.contact_id@,
            name: self.name@,
            email: self.email@,
            org: opt_text(self.org),
            confidence: self.confidence@,
            notes: opt_text(self.notes),
        }
    }
}

pub open spec fn entry_models(s: Seq<ContactEntry>) -> Seq<EntryModel> {
    s.map_values(|e: ContactEntry| e@)
}

/// The contacts that are known by heart.
pub open spec fn known_contacts() -> Seq<EntryModel> {
    seq![
        EntryModel {
            contact_id: "contact:john-smith"@,
            name: "John Smith"@,
            email: "john@acme.com"@,
            org: Some("Acme Corp"@),
            confidence: FractionModel { short: "0.93"@, wide: "0.9300000071525574"@ },
            notes: Some("Primary stakeholder for Q4 planning."@),
        },
        EntryModel {
            contact_id: "contact:maria-lee"@,
            name: "Maria Lee"@,
            email: "maria@acme.com"@,
            org: Some("Acme Corp"@),
            confidence: FractionModel { short: "0.88"@, wide: "0.8799999952316284"@ },
            notes: Some("Finance lead for Acme."@),
        },
        EntryModel {
            contact_id: "contact:dev-rel"@,
            name: "Dev Rel Alias"@,
            email: "devrel@runloop.local"@,
            org: Some("Runloop"@),
            confidence: FractionModel { short: "0.65"@, wide: "0.6499999761581421"@ },
            notes: Some("Fallback auto-generated contact."@),
        },
    ]
}

fn entry(id: &str, name: &str, email: &str, org: &str, short: &str, wide: &str, notes: &str) -> (r:
    ContactEntry)
    ensures
        r@ == (EntryModel {
            contact_id: id@,
            name: name@,
            email: email@,
            org: Some(org@),
            confidence: FractionModel { short: short@, wide: wide@ },
            notes: Some(notes@),
        }),
{
    ContactEntry {
        contact_id: id.to_owned(),
        name: name.to_owned(),
        email: email.to_owned(),
        org: Some(org.to_owned()),
        confidence: Fraction { short: short.to_owned(), wide: wide.to_owned() },
        notes: Some(notes.to_owned()),
    }
}

pub fn contacts() -> (r: Vec<ContactEntry>)
    ensures
        entry_models(r@) == known_contacts(),
{
    let mut v: Vec<ContactEntry> = Vec::new();
    v.push(
        entry(
            "contact:john-smith",
            "John Smith",
            "john@acme.com",
            "Acme Corp",
            "0.93",
            "0.9300000071525574",
            "Primary stakeholder for Q4 planning.",
        ),
    );
    v.push(
        entry(
            "contact:maria-lee",
            "Maria Lee",
            "maria@acme.com",
            "Acme Corp",
            "0.88",
            "0.8799999952316284",
            "Finance lead for Acme.",
        ),
    );
    v.push(
        entry(
            "contact:dev-rel",
            "Dev Rel Alias",
            "devrel@runloop.local",
            "Runloop",
            "0.65",
            "0.6499999761581421",
            "Fallback auto-generated contact.",
        ),
    );
    assert(entry_models(v@) =~= known_contacts());
    v
}

/// Whether the name or the address of a contact holds a text, case aside.
pub open spec fn mentions(e: EntryModel, query: Seq<char>) -> bool {
    has_text(lower(e.name), lower(query)) || has_text(lower(e.email), lower(query))
}

/// The first contact that a query fits.
pub open spec fn first_match(s: Seq<EntryModel>, query: Seq<char>) -> Option<EntryModel>
    decreases s.len(),
{
    if s.len() == 0 {
        None
    } else if mentions(s[0], query) {
        Some(s[0])
    } else {
        first_match(s.skip(1), query)
    }
}

fn find_contact(query: &str) -> (r: Option<ContactEntry>)
    ensures
        match (r, first_match(known_contacts(), query@)) {
            (Some(e), Some(m)) => e@ == m,
            (None, None) => true,
            _ => false,
        },
{
    let needle = lowered(query);
    let mut all = contacts();
    let ghost known = known_contacts();
    let mut i: usize = 0;
    assert(known.skip(0) =~= known);
    assert(entry_models(all@).len() == all@.len());
    while i < all.len()
        invariant
            i <= all.len(),
            needle@ == lower(query@),
            entry_models(all@) == known,
            known.len() == all@.len(),
            known == known_contacts(),
            first_match(known, query@) == first_match(known.skip(i as int), query@),
        decreases all.len() - i,
    {
        assert(known[i as int] == all@[i as int]@);
        assert(known.skip(i as int)[0] == known[i as int]);
        assert(known.skip(i as int).skip(1) =~= known.skip(i + 1));
        if contains(lowered(all[i].name.as_str()).as_str(), needle.as_str()) || contains(
            lowered(all[i].email.as_str()).as_str(),
            needle.as_str(),
        ) {
            return Some(all.swap_remove(i));
        }
        i += 1;
    }
    assert(known.skip(known.len() as int).len() == 0);
    None
}

/// Letters and digits in small letters; white space, hyphens and underscores as hyphens, but never
/// two in a row.
pub open spec fn hyphenated(s: Seq<char>) -> Seq<char>
    decreases s.len(),
{
    if s.len() == 0 {
        seq![]
    } else {
        let p = hyphenated(s.drop_last());
        let c = s.last();
        if is_letter_or_digit(c) {
            p.push(lower_char(c))
        } else if is_separator(c) && !(p.len() > 0 && p.last() == '-') {
            p.push('-')
        } else {
            p
        }
    }
}

/// ASCII white space, a hyphen or an underscore.
pub open spec fn is_separator(c: char) -> bool {
    c == ' ' || c == '\t' || c == '\n' || c == '\r' || c as u32 == 0xc || c == '-' || c == '_'
}

pub open spec fn slug_in(s: Seq<char>) -> Option<Seq<char>> {
    let t = trim_end_of(trim_start_of(hyphenated(s), '-'), '-');
    if t.len() == 0 {
        None
    } else {
        Some(t)
    }
}

pub fn slug(value: &str) -> (r: Option<String>)
    ensures
        opt_text(r) == slug_in(value@),
{
    let v = chars_of(value);
    let mut out = String::new();
    let mut ends = false;
    let mut i: usize = 0;
    while i < v.len()
        invariant
            i <= v.len(),
            v@ == value@,
            out@ == hyphenated(value@.take(i as int)),
            ends == (out@.len() > 0 && out@.last() == '-'),
        decreases v.len() - i,
    {
        assert(value@.take(i + 1).drop_last() =~= value@.take(i as int));
        let c = v[i];
        if letter_or_digit(c) {
            let d = ascii_lower_char(c);
            out.push(d);
            ends = false;
        } else if c == ' ' || c == '\t' || c == '\n' || c == '\r' || c as u32 == 0xc || c == '-'
            || c == '_' {
            if !ends {
                out.push('-');
                ends = true;
            }
        }
        i += 1;
    }
    assert(value@.take(value@.len() as int) =~= value@);
    let t = trimmed_end_of(trimmed_start_of(out.as_str(), '-').as_str(), '-');
    if t.as_str().is_empty() {
        None
    } else {
        Some(t)
    }
}

/// A contact that is not known, under an identifier.
pub open spec fn stub_entry(query: Seq<char>, identifier: Seq<char>) -> EntryModel {
    let (name, email) = match split_once(query, '@') {
        Some((before, _)) => (trim(before), lower(trim(query))),
        None => (trim(query), identifier + "@unknown.local"@),
    };
    EntryModel {
        contact_id: "contact:"@ + identifier,
        name: capitalized(name),
        email,
        org: None,
        confidence: FractionModel { short: "0.4"@, wide: "0.4000000059604645"@ },
        notes: Some("Auto-generated stub contact"@),
    }
}

/// A contact that is not known, under the identifier.
pub fn stub_under(query: &str, identifier: &str) -> (r: ContactEntry)
    ensures
        r@ == stub_entry(query@, identifier@),
{
    let (name, email) = match split_at_first(query, '@') {
        Some((before, _)) => (
            trimmed(before.as_str()),
            lowered(trimmed(query).as_str()),
        ),
        None => (trimmed(query), concat(identifier, "@unknown.local")),
    };
    ContactEntry {
        contact_id: concat("contact:", identifier),
        name: capitalize_words(name.as_str()),
        email,
        org: None,
        confidence: Fraction { short: "0.4".to_owned(), wide: "0.4000000059604645".to_owned() },
        notes: Some("Auto-generated stub contact".to_owned()),
    }
}

/// A contact that is not known. Its identifier comes from the query, or is drawn where the query
/// gives none.
pub fn build_stub(query: &str) -> (r: ContactEntry)
    ensures
        match slug_in(query@) {
            Some(id) => r@ == stub_entry(query@, id),
            None => exists|value: u128|
                is_random_uuid(value) && r@ == stub_entry(query@, #[trigger] uuid_text(value)),
        },
{
    match slug(query) {
        Some(id) => stub_under(query, id.as_str()),
        None => {
            let value = random_uuid();
            let id = write_uuid(value);
            stub_under(query, id.as_str())
        },
    }
}

/// The contact that a query is about: one that is known, or a new one.
pub fn resolve(query: &str) -> (r: Result<ContactEntry, String>)
    ensures
        match r {
            Err(m) => trim(query@).len() == 0 && m@ == "--query must not be empty"@,
            Ok(e) => trim(query@).len() > 0 && match (
                first_match(known_contacts(), trim(query@)),
                slug_in(trim(query@)),
            ) {
                (Some(k), _) => e@ == k,
                (None, Some(id)) => e@ == stub_entry(trim(query@), id),
                (None, None) => exists|value: u128|
                    is_random_uuid(value) && e@ == stub_entry(
                        trim(query@),
                        #[trigger] uuid_text(value),
                    ),
            },
        },
{
    let t = trimmed(query);
    if t.as_str().is_empty() {
        return Err("--query must not be empty".to_owned());
    }
    match find_contact(t.as_str()) {
        Some(e) => Ok(e),
        None => Ok(build_stub(t.as_str())),
    }
}

} // verus!
