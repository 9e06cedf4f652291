//! Looks at a draft before it is sent.

use crate::crew::common::{DraftArtifact, Review, ReviewNotes};
use crate::text::{
    concat3, contains, decimal, decimal_text, has_text, lower, lowered, texts, word_count, words,
};
use vstd::prelude::*;

verus! {

pub const MIN_WORDS: usize = 10;

pub const MAX_WORDS: usize = 180;

#[derive(Debug)]
pub struct ReviewRequest {
    pub draft: DraftArtifact,
}

/// How many words a draft has: what it says of itself, unless that is nothing.
pub open spec fn counted(body: Seq<char>, reported: usize) -> nat {
    if reported > 0 {
        reported as nat
    } else {
        words(body).len()
    }
}

pub open spec fn thanks(body: Seq<char>) -> bool {
    let b = lower(body);
    has_text(b, "thanks"@) || has_text(b, "thank you"@) || has_text(b, "thank-you"@)
}

/// A draft is good as it is, or is to be mended first.
pub open spec fn passes(words: nat) -> bool {
    MIN_WORDS <= words <= MAX_WORDS
}

pub open spec fn advice(words: nat, thanks: bool) -> Seq<Seq<char>> {
    let short = if words < MIN_WORDS {
        seq![
            "Add more detail so the draft reaches at least 10 words (currently "@ + decimal(words)
                + ")."@,
        ]
    } else {
        seq![]
    };
    let long = if words > MAX_WORDS {
        seq!["Trim the draft to at most 180 words (currently "@ + decimal(words) + ")."@]
    } else {
        seq![]
    };
    let cold = if thanks {
        seq![]
    } else {
        seq!["Consider closing with a courteous thank-you."@]
    };
    short + long + cold
}

pub open spec fn verdict(ok: bool, advised: bool) -> Seq<char> {
    if !ok {
        "Draft needs attention."@
    } else if advised {
        "Draft looks good with minor polish."@
    } else {
        "Draft looks good."@
    }
}

fn effective_word_count(body: &str, reported: usize) -> (n: usize)
    ensures
        n == counted(body@, reported),
{
    if reported > 0 {
        reported
    } else {
        word_count(body)
    }
}

fn has_thank_you(body: &str) -> (r: bool)
    ensures
        r == thanks(body@),
{
    let b = lowered(body);
    contains(b.as_str(), "thanks") || contains(b.as_str(), "thank you") || contains(
        b.as_str(),
        "thank-you",
    )
}

/// The review of a body of which `reported` words are reported.
pub fn review_of(body: &str, reported: usize) -> (r: Review)
    ensures
        r.ok == passes(counted(body@, reported)),
        texts(r.notes.suggestions@) == advice(counted(body@, reported), thanks(body@)),
        r.notes.summary@ == verdict(r.ok, r.notes.suggestions@.len() > 0),
{
    let n = effective_word_count(body, reported);
    let polite = has_thank_you(body);
    let mut suggestions: Vec<String> = Vec::new();
    let mut blocking = false;
    if n < MIN_WORDS {
        blocking = true;
        suggestions.push(
            concat3(
                "Add more detail so the draft reaches at least 10 words (currently ",
                decimal_text(n as u64).as_str(),
                ").",
            ),
        );
    }
    if n > MAX_WORDS {
        blocking = true;
        suggestions.push(
            concat3(
                "Trim the draft to at most 180 words (currently ",
                decimal_text(n as u64).as_str(),
                ").",
            ),
        );
    }
    if !polite {
        suggestions.push("Consider closing with a courteous thank-you.".to_owned());
    }
    assert(texts(suggestions@) =~= advice(n as nat, polite));
    let ok = !blocking;
    let summary = if !ok {
        "Draft needs attention."
    } else if suggestions.len() > 0 {
        "Draft looks good with minor polish."
    } else {
        "Draft looks good."
    };
    Review { ok, notes: ReviewNotes { summary: summary.to_owned(), suggestions } }
}

pub fn critique(req: &ReviewRequest) -> (r: Review)
    ensures
        r.ok == passes(counted(req.draft.body_md@, req.draft.word_count)),
        texts(r.notes.suggestions@) == advice(
            counted(req.draft.body_md@, req.draft.word_count),
            thanks(req.draft.body_md@),
        ),
        r.notes.summary@ == verdict(r.ok, r.notes.suggestions@.len() > 0),
{
    review_of(req.draft.body_md.as_str(), req.draft.word_count)
}

/// Only the length of a draft holds it back: missing thanks are advice.
pub proof fn missing_thanks_do_not_block(body: Seq<char>, other: Seq<char>, reported: usize)
    requires
        counted(body, reported) == counted(other, reported),
        thanks(body),
        !thanks(other),
    ensures
        passes(counted(body, reported)) == passes(counted(other, reported)),
        advice(counted(other, reported), false) == advice(counted(body, reported), true).push(
            "Consider closing with a courteous thank-you."@,
        ),
{
    let n = counted(body, reported);
    assert(advice(n, false) =~= advice(n, true).push(
        "Consider closing with a courteous thank-you."@,
    ));
}

/// A draft that is held back always comes with advice.
pub proof fn what_is_held_back_is_explained(words: nat, thanks: bool)
    requires
        !passes(words),
    ensures
        advice(words, thanks).len() > 0,
{
}

} // verus!
