//! Looks at a draft that another agent handed over.

use crate::crew::common::Review;
use crate::crew::critic::{advice, counted, passes, review_of, thanks, verdict};
use crate::text::texts;
use vstd::prelude::*;

verus! {

/// What is read of a draft.
#[derive(Debug)]
pub struct DraftText {
    pub body_md: String,
    pub word_count: usize,
}

pub fn critique(draft: &DraftText) -> (r: Review)
    ensures
        r.ok == passes(counted(draft.body_md@, draft.word_count)),
        texts(r.notes.suggestions@) == advice(
            counted(draft.body_md@, draft.word_count),
            thanks(draft.body_md@),
        ),
        r.notes.summary@ == verdict(r.ok, r.notes.suggestions@.len() > 0),
{
    review_of(draft.body_md.as_str(), draft.word_count)
}

} // verus!
