//! Says what is known of a topic, and reads what is handed over in base64.

use crate::armor::{base64_bytes, read_base64};
use crate::crew::common::{snippet_models, ContextSnippet, SnippetModel};
use crate::ids::EventId;
use crate::text::{concat, concat3, opt_text};
use vstd::prelude::*;

verus! {

/// The bytes of something that was handed over under a label.
pub fn decode_payload(encoded: &str, label: &str) -> (r: Result<Vec<u8>, String>)
    ensures
        match (r, base64_bytes(encoded@)) {
            (Ok(b), Some(c)) => b@ == c,
            (Err(m), None) => m@ == "failed to decode "@ + label@ + " payload"@,
            _ => false,
        },
{
    match read_base64(encoded) {
        Some(b) => Ok(b),
        None => Err(concat3("failed to decode ", label, " payload")),
    }
}

/// The bytes of a contact that was handed over; nothing where none was, or an empty one.
pub open spec fn contact_bytes_in(encoded: Option<Seq<char>>) -> Result<
    Option<Seq<u8>>,
    Seq<char>,
> {
    match encoded {
        None => Ok(None),
        Some(t) => match base64_bytes(t) {
            None => Err("failed to decode contact payload"@),
            Some(b) => if b.len() == 0 {
                Ok(None)
            } else {
                Ok(Some(b))
            },
        },
    }
}

pub fn contact_bytes(encoded: &Option<String>) -> (r: Result<Option<Vec<u8>>, String>)
    ensures
        match (r, contact_bytes_in(opt_text(*encoded))) {
            (Ok(None), Ok(None)) => true,
            (Ok(Some(b)), Ok(Some(c))) => b@ == c,
            (Err(m), Err(n)) => m@ == n,
            _ => false,
        },
{
    match encoded {
        None => Ok(None),
        Some(t) => match read_base64(t.as_str()) {
            None => Err("failed to decode contact payload".to_owned()),
            Some(b) => if b.len() == 0 {
                Ok(None)
            } else {
                Ok(Some(b))
            },
        },
    }
}

/// What is known of a topic, and of the contact if they have a name.
pub open spec fn known_snippets(topic: Seq<char>, name: Option<Seq<char>>) -> Seq<SnippetModel> {
    let base = seq![
        SnippetModel {
            title: topic + " planning sync"@,
            excerpt: "Team aligned on "@ + topic + " milestones during the weekly sync."@,
            event_id: 1,
        },
        SnippetModel {
            title: "Action items"@,
            excerpt: "Finalize roadmap draft and confirm headcount adjustments."@,
            event_id: 2,
        },
    ];
    match name {
        Some(n) => base.push(
            SnippetModel {
                title: "Relationship note"@,
                excerpt: n + " prefers concise status updates."@,
                event_id: 3,
            },
        ),
        None => base,
    }
}

#[derive(Debug)]
pub struct GuestBundle {
    pub topic: String,
    pub snippets: Vec<ContextSnippet>,
    pub generated_at_ms: Option<u64>,
}

pub fn build_context(topic: &str, contact_name: &Option<String>, now_ms: Option<u64>) -> (r:
    GuestBundle)
    ensures
        r.topic@ == topic@,
        snippet_models(r.snippets@) == known_snippets(topic@, opt_text(*contact_name)),
        r.generated_at_ms == now_ms,
{
    let mut out: Vec<ContextSnippet> = Vec::new();
    out.push(
        ContextSnippet {
            title: concat(topic, " planning sync"),
            excerpt: concat3(
                "Team aligned on ",
                topic,
                " milestones during the weekly sync.",
            ),
            event_id: EventId(1),
        },
    );
    out.push(
        ContextSnippet {
            title: "Action items".to_owned(),
            excerpt: "Finalize roadmap draft and confirm headcount adjustments.".to_owned(),
            event_id: EventId(2),
        },
    );
    match contact_name {
        Some(n) => {
            out.push(
                ContextSnippet {
                    title: "Relationship note".to_owned(),
                    excerpt: concat(n.as_str(), " prefers concise status updates."),
                    event_id: EventId(3),
                },
            );
        },
        None => {},
    }
    assert(snippet_models(out@) =~= known_snippets(topic@, opt_text(*contact_name)));
    GuestBundle { topic: topic.to_owned(), snippets: out, generated_at_ms: now_ms }
}

} // verus!
