//! Writes a draft from what other agents handed over.

use crate::text::{
    concat, concat3, join, joined, opt_text, same, texts, word_count, words,
};
use vstd::prelude::*;

verus! {

#[derive(Debug)]
pub struct Recipient {
    pub name: Option<String>,
}

#[derive(Debug)]
pub struct SnippetInput {
    pub excerpt: Option<String>,
    pub event_id: Option<i64>,
}

#[derive(Debug)]
pub struct ContextInput {
    pub snippets: Vec<SnippetInput>,
}

#[derive(Debug)]
pub struct WriterOutput {
    pub body_md: String,
    pub rationale: String,
    pub citations: Vec<i64>,
    pub word_count: usize,
}

pub ghost struct NoteModel {
    pub excerpt: Option<Seq<char>>,
    pub event_id: Option<i64>,
}

impl SnippetInput {
    pub open spec fn view(self) -> NoteModel {
        NoteModel { excerpt: opt_text(self.excerpt), event_id: self.event_id }
    }
}

pub open spec fn notes(c: Option<ContextInput>) -> Seq<NoteModel> {
    match c {
        Some(b) => b.snippets@.map_values(|s: SnippetInput| s@),
        None => seq![],
    }
}

pub open spec fn greeting(tone: Seq<char>) -> Seq<char> {
    if tone == "formal"@ {
        "Hello"@
    } else if tone == "enthusiastic"@ {
        "Hey"@
    } else {
        "Hi"@
    }
}

pub open spec fn called(name: Option<Seq<char>>) -> Seq<char> {
    match name {
        Some(n) => if n.len() > 0 {
            n
        } else {
            "there"@
        },
        None => "there"@,
    }
}

/// The snippets that say something, as items of a list.
pub open spec fn update_lines(s: Seq<NoteModel>) -> Seq<Seq<char>>
    decreases s.len(),
{
    if s.len() == 0 {
        seq![]
    } else {
        match s.last().excerpt {
            Some(t) => if t.len() > 0 {
                update_lines(s.drop_last()).push("- "@ + t)
            } else {
                update_lines(s.drop_last())
            },
            None => update_lines(s.drop_last()),
        }
    }
}

pub open spec fn draft_lines(
    name: Option<Seq<char>>,
    s: Seq<NoteModel>,
    topic: Seq<char>,
    tone: Seq<char>,
) -> Seq<Seq<char>> {
    let head = seq![
        greeting(tone) + " "@ + called(name) + ","@,
        ""@,
        "I wanted to follow up about "@ + topic + "."@,
    ];
    let updates = if update_lines(s).len() > 0 {
        seq![""@, "Key updates:"@] + update_lines(s)
    } else {
        seq![]
    };
    let tail = seq![
        ""@,
        "Let me know if you have any questions or if you'd like to chat more."@,
        ""@,
        "Best,"@,
        "Runloop Agent"@,
    ];
    head + updates + tail
}

/// The events behind the snippets, also of those that say nothing.
pub open spec fn cited_events(s: Seq<NoteModel>) -> Seq<i64>
    decreases s.len(),
{
    if s.len() == 0 {
        seq![]
    } else {
        match s.last().event_id {
            Some(n) => cited_events(s.drop_last()).push(n),
            None => cited_events(s.drop_last()),
        }
    }
}

fn updates_in(v: &Vec<SnippetInput>) -> (r: (Vec<String>, Vec<i64>))
    ensures
        texts(r.0@) == update_lines(v@.map_values(|s: SnippetInput| s@)),
        r.1@ == cited_events(v@.map_values(|s: SnippetInput| s@)),
{
    let ghost all = v@.map_values(|s: SnippetInput| s@);
    let mut out: Vec<String> = Vec::new();
    let mut ids: Vec<i64> = Vec::new();
    let mut i: usize = 0;
    assert(texts(out@) =~= update_lines(all.take(0)));
    assert(ids@ =~= cited_events(all.take(0)));
    while i < v.len()
        invariant
            i <= v.len(),
            all == v@.map_values(|s: SnippetInput| s@),
            texts(out@) == update_lines(all.take(i as int)),
            ids@ == cited_events(all.take(i as int)),
        decreases v.len() - i,
    {
        assert(all.take(i + 1).drop_last() =~= all.take(i as int));
        assert(all.take(i + 1).last() == v@[i as int]@);
        let ghost o = out@;
        match &v[i].excerpt {
            Some(t) => {
                if !t.as_str().is_empty() {
                    let line = concat("- ", t.as_str());
                    out.push(line);
                    assert(texts(out@) =~= texts(o).push(line@));
                }
            },
            None => {},
        }
        match v[i].event_id {
            Some(n) => ids.push(n),
            None => {},
        }
        i += 1;
    }
    assert(all.take(all.len() as int) =~= all);
    (out, ids)
}

pub fn render(recipient: &Recipient, context: &Option<ContextInput>, topic: &str, tone: &str) -> (r:
    WriterOutput)
    ensures
        r.body_md@ == join(
            draft_lines(opt_text(recipient.name), notes(*context), topic@, tone@),
            "\n"@,
        ),
        r.rationale@ == "Draft generated for "@ + called(opt_text(recipient.name)) + " about "@
            + topic@,
        r.citations@ == cited_events(notes(*context)),
        r.word_count == words(r.body_md@).len(),
{
    let hail = if same(tone, "formal") {
        "Hello"
    } else if same(tone, "enthusiastic") {
        "Hey"
    } else {
        "Hi"
    };
    let name = match &recipient.name {
        Some(n) => if n.as_str().is_empty() {
            "there"
        } else {
            n.as_str()
        },
        None => "there",
    };
    let mut lines: Vec<String> = Vec::new();
    let mut first = concat3(hail, " ", name);
    first.append(",");
    lines.push(first);
    lines.push("".to_owned());
    lines.push(concat3("I wanted to follow up about ", topic, "."));
    let (mut updates, citations) = match context {
        Some(b) => updates_in(&b.snippets),
        None => {
            let none: Vec<String> = Vec::new();
            let ids: Vec<i64> = Vec::new();
            assert(texts(none@) =~= update_lines(seq![]));
            assert(ids@ =~= cited_events(seq![]));
            (none, ids)
        },
    };
    assert(texts(updates@) == update_lines(notes(*context)));
    assert(texts(updates@).len() == updates@.len());
    let ghost head = lines@;
    let ghost u = updates@;
    if updates.len() > 0 {
        lines.push("".to_owned());
        lines.push("Key updates:".to_owned());
        lines.append(&mut updates);
    }
    lines.push("".to_owned());
    lines.push("Let me know if you have any questions or if you'd like to chat more.".to_owned());
    lines.push("".to_owned());
    lines.push("Best,".to_owned());
    lines.push("Runloop Agent".to_owned());
    assert(texts(lines@) =~= draft_lines(
        opt_text(recipient.name),
        notes(*context),
        topic@,
        tone@,
    )) by {
        let want = draft_lines(opt_text(recipient.name), notes(*context), topic@, tone@);
        assert forall|k: int| 0 <= k < u.len() implies texts(u)[k] == u[k]@ by {}
    }
    let body = joined(&lines, "\n");
    let mut rationale = concat3("Draft generated for ", name, " about ");
    rationale.append(topic);
    let count = word_count(body.as_str());
    WriterOutput { body_md: body, rationale, citations, word_count: count }
}

} // verus!
