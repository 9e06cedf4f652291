//! Sends a draft that another agent handed over.

use crate::text::{
    concat, join, joined, lines, signed_decimal, signed_text, split_lines, texts,
};
use vstd::prelude::*;

verus! {

#[derive(Debug)]
pub struct DraftInput {
    pub artifact_id: i64,
    pub body_md: String,
}

#[derive(Debug)]
pub struct ContactInput {
    pub email: String,
}

#[derive(Debug)]
pub struct MailerOutput {
    pub status: String,
    pub recipients: Vec<String>,
    pub message_id: String,
    pub delivered_at_ms: u64,
    pub body_preview: Option<String>,
}

pub open spec fn message_name(artifact_id: i64) -> Seq<char> {
    if artifact_id != 0 {
        "dryrun-"@ + signed_decimal(artifact_id as int)
    } else {
        "dryrun"@
    }
}

/// The first eight lines.
pub open spec fn preview(body: Seq<char>) -> Seq<char> {
    let all = lines(body);
    join(
        if all.len() <= 8 {
            all
        } else {
            all.take(8)
        },
        "\n"@,
    )
}

fn preview_of(body: &str) -> (r: String)
    ensures
        r@ == preview(body@),
{
    let all = split_lines(body);
    let mut kept: Vec<String> = Vec::new();
    let mut i: usize = 0;
    assert(texts(all@).len() == all@.len());
    assert(texts(kept@) =~= lines(body@).take(0));
    while i < all.len() && i < 8
        invariant
            i <= 8,
            i <= all.len(),
            texts(all@) == lines(body@),
            lines(body@).len() == all@.len(),
            texts(kept@) == lines(body@).take(i as int),
        decreases all.len() - i,
    {
        let ghost o = kept@;
        assert(texts(all@)[i as int] == all@[i as int]@);
        kept.push(all[i].clone());
        assert(texts(kept@) =~= texts(o).push(all@[i as int]@));
        assert(lines(body@).take(i + 1) =~= lines(body@).take(i as int).push(
            lines(body@)[i as int],
        ));
        i += 1;
    }
    proof {
        if all@.len() <= 8 {
            assert(lines(body@).take(i as int) =~= lines(body@));
        }
    }
    joined(&kept, "\n")
}

/// Whether a draft may be sent: only where the review says so.
pub fn check_review(ok: bool) -> (r: Result<(), String>)
    ensures
        match r {
            Ok(_) => ok,
            Err(m) => !ok && m@ == "review rejected draft"@,
        },
{
    if ok {
        Ok(())
    } else {
        Err("review rejected draft".to_owned())
    }
}

pub fn send(draft: &DraftInput, contact: &ContactInput) -> (r: MailerOutput)
    ensures
        r.status@ == "dry-run"@,
        texts(r.recipients@) == seq![contact.email@],
        r.message_id@ == message_name(draft.artifact_id),
        r.delivered_at_ms == 0,
        r.body_preview is Some && r.body_preview->0@ == preview(draft.body_md@),
{
    let mut recipients: Vec<String> = Vec::new();
    recipients.push(contact.email.clone());
    assert(texts(recipients@) =~= seq![contact.email@]);
    let message_id = if draft.artifact_id != 0 {
        concat("dryrun-", signed_text(draft.artifact_id).as_str())
    } else {
        "dryrun".to_owned()
    };
    MailerOutput {
        status: "dry-run".to_owned(),
        recipients,
        message_id,
        delivered_at_ms: 0,
        body_preview: Some(preview_of(draft.body_md.as_str())),
    }
}

} // verus!
