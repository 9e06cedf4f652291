//! Sets the history limits of tmux and of the shell.

use crate::guests::blocks::{
    at_home, expand_home, is_block, joined_lines_are_a_block, lemma_sign_missing, upsert, upserted,
};
use crate::text::{
    concat, copy_texts, decimal, decimal_text, has_prefix, has_text, is_blank, join, joined,
    lemma_decimal_digits, lines, opt_text,
    same, split_lines, starts_with, texts, trim, trim_start, trimmed_start,
};
use vstd::prelude::*;

verus! {

pub const TMUX_MARKER_START: &'static str = "# >>> runloop:system_tra";

pub const TMUX_MARKER_END: &'static str = "# <<< runloop:system_tra";

/// What is asked for.
#[derive(Debug)]
pub struct Input {
    pub tmux_conf: Option<String>,
    pub history_limit: Option<u32>,
    pub extra_tmux_lines: Option<Vec<String>>,
    pub bashrc: Option<String>,
    pub hist_size: Option<u32>,
    pub hist_file_size: Option<u32>,
}

impl Default for Input {
    fn default() -> (r: Self)
        ensures
            r == (Input {
                tmux_conf: None,
                history_limit: None,
                extra_tmux_lines: None,
                bashrc: None,
                hist_size: None,
                hist_file_size: None,
            }),
    {
        Input {
            tmux_conf: None,
            history_limit: None,
            extra_tmux_lines: None,
            bashrc: None,
            hist_size: None,
            hist_file_size: None,
        }
    }
}

/// What is asked for: what was read in the text, or nothing special where the text says nothing.
/// `read` holds what was read, if the text is JSON of the right shape.
pub fn parse_input(raw: Option<&str>, read: Option<Input>) -> (r: Result<Input, String>)
    ensures
        match (r, raw) {
            (Ok(i), None) => i.tmux_conf is None && i.history_limit is None
                && i.extra_tmux_lines is None && i.bashrc is None && i.hist_size is None
                && i.hist_file_size is None,
            (Ok(i), Some(t)) => if trim(t@).len() > 0 {
                read == Some(i)
            } else {
                i.tmux_conf is None && i.history_limit is None && i.extra_tmux_lines is None
                    && i.bashrc is None && i.hist_size is None && i.hist_file_size is None
            },
            (Err(m), Some(t)) => trim(t@).len() > 0 && read is None && m@
                == "input must be JSON (see agents/system_tra/README.md for shape)"@,
            (Err(_), None) => false,
        },
{
    match raw {
        Some(t) => if is_blank(t) {
            Ok(Input::default())
        } else {
            match read {
                Some(i) => Ok(i),
                None => Err(
                    "input must be JSON (see agents/system_tra/README.md for shape)".to_owned(),
                ),
            }
        },
        None => Ok(Input::default()),
    }
}

pub open spec fn tmux_lines(limit: u32, extra: Seq<Seq<char>>) -> Seq<Seq<char>> {
    let head = seq![
        TMUX_MARKER_START@ + " history_limit="@ + decimal(limit as nat),
        "# managed by the system_tra agent"@,
        "set -g history-limit "@ + decimal(limit as nat),
    ];
    let more = if extra.len() > 0 {
        seq!["# extra tmux lines from params:"@] + extra
    } else {
        seq![]
    };
    head + more + seq![TMUX_MARKER_END@]
}

/// The block for tmux.
pub open spec fn tmux_block(limit: u32, extra: Seq<Seq<char>>) -> Seq<char> {
    join(tmux_lines(limit, extra), "\n"@) + "\n"@
}

/// What is written for tmux is a block, unless a line that is asked for holds the mark of its end.
pub proof fn tmux_blocks_are_blocks(limit: u32, extra: Seq<Seq<char>>)
    requires
        forall|k: int| 0 <= k < extra.len() ==> !has_text(#[trigger] extra[k], TMUX_MARKER_END@),
    ensures
        is_block(tmux_block(limit, extra), TMUX_MARKER_START@, TMUX_MARKER_END@),
{
    reveal_strlit("# >>> runloop:system_tra");
    reveal_strlit("# <<< runloop:system_tra");
    reveal_strlit(" history_limit=");
    reveal_strlit("# managed by the system_tra agent");
    reveal_strlit("set -g history-limit ");
    reveal_strlit("# extra tmux lines from params:");
    let mark = TMUX_MARKER_START@;
    let stop = TMUX_MARKER_END@;
    let lines = tmux_lines(limit, extra);
    assert(stop[2] == '<');
    lemma_decimal_digits(limit as nat);
    assert(lines.last() == stop);
    assert(lines[0].take(mark.len() as int) =~= mark);
    assert forall|k: int| 0 <= k < lines.len() - 1 implies !has_text(#[trigger] lines[k], stop) by {
        if k < 3 || k == 3 {
            if k < 3 || extra.len() > 0 {
                lemma_sign_missing(lines[k], stop, 2);
            }
        } else {
            assert(lines[k] == extra[k - 4]);
        }
    }
    joined_lines_are_a_block(lines, mark, stop);
}

pub fn render_tmux_block(history_limit: u32, extra_lines: &Vec<String>) -> (r: String)
    ensures
        r@ == tmux_block(history_limit, texts(extra_lines@)),
{
    let limit = decimal_text(history_limit as u64);
    let mut v: Vec<String> = Vec::new();
    let mut first = concat(TMUX_MARKER_START, " history_limit=");
    first.append(limit.as_str());
    v.push(first);
    v.push("# managed by the system_tra agent".to_owned());
    v.push(concat("set -g history-limit ", limit.as_str()));
    assert(texts(extra_lines@).len() == extra_lines@.len());
    if extra_lines.len() > 0 {
        v.push("# extra tmux lines from params:".to_owned());
        let mut extra = copy_texts(extra_lines);
        assert(texts(extra@).len() == extra@.len());
        assert forall|k: int| 0 <= k < extra@.len() implies (#[trigger] extra@[k])@ == texts(
            extra_lines@,
        )[k] by {
            assert(texts(extra@)[k] == extra@[k]@);
        }
        v.append(&mut extra);
    }
    v.push(TMUX_MARKER_END.to_owned());
    assert(texts(v@) =~= tmux_lines(history_limit, texts(extra_lines@)));
    let mut out = joined(&v, "\n");
    out.append("\n");
    out
}

pub fn upsert_tmux_block(existing: &str, block: &str) -> (r: String)
    ensures
        r@ == upserted(existing@, block@, TMUX_MARKER_START@, TMUX_MARKER_END@),
{
    proof {
        reveal_strlit("# >>> runloop:system_tra");
        reveal_strlit("# <<< runloop:system_tra");
    }
    upsert(existing, block, TMUX_MARKER_START, TMUX_MARKER_END)
}

/// Whether a line sets a limit of the shell's history.
pub open spec fn sets_limit(line: Seq<char>) -> bool {
    has_prefix(trim_start(line), "HISTSIZE="@) || has_prefix(trim_start(line), "HISTFILESIZE="@)
}

/// The lines that set no limit.
pub open spec fn other_lines(s: Seq<Seq<char>>) -> Seq<Seq<char>>
    decreases s.len(),
{
    if s.len() == 0 {
        seq![]
    } else if sets_limit(s.last()) {
        other_lines(s.drop_last())
    } else {
        other_lines(s.drop_last()).push(s.last())
    }
}

pub open spec fn limit_lines(
    existing: Seq<char>,
    size: u32,
    file_size: u32,
    tag: Seq<char>,
) -> Seq<Seq<char>> {
    let kept = other_lines(lines(existing));
    (if kept.len() > 0 && kept.last().len() > 0 {
        kept.push(""@)
    } else {
        kept
    }) + seq![
        tag,
        "HISTSIZE="@ + decimal(size as nat),
        "HISTFILESIZE="@ + decimal(file_size as nat),
    ]
}

pub fn upsert_history_limits(existing: &str, hist_size: u32, hist_file_size: u32, tag: &str) -> (r:
    String)
    ensures
        r@ == join(limit_lines(existing@, hist_size, hist_file_size, tag@), "\n"@) + "\n"@,
{
    let all = split_lines(existing);
    let ghost want = lines(existing@);
    let mut kept: Vec<String> = Vec::new();
    let mut i: usize = 0;
    assert(texts(all@).len() == all@.len());
    assert(texts(kept@) =~= other_lines(want.take(0)));
    while i < all.len()
        invariant
            i <= all.len(),
            texts(all@) == want,
            want.len() == all@.len(),
            texts(kept@) == other_lines(want.take(i as int)),
        decreases all.len() - i,
    {
        assert(want.take(i + 1).drop_last() =~= want.take(i as int));
        assert(texts(all@)[i as int] == all@[i as int]@);
        let t = trimmed_start(all[i].as_str());
        if !(starts_with(t.as_str(), "HISTSIZE=") || starts_with(t.as_str(), "HISTFILESIZE=")) {
            let ghost o = kept@;
            kept.push(all[i].clone());
            assert(texts(kept@) =~= texts(o).push(all@[i as int]@));
        }
        i += 1;
    }
    assert(want.take(want.len() as int) =~= want);
    let ghost k0 = kept@;
    assert(texts(k0).len() == k0.len());
    if kept.len() > 0 {
        assert(texts(k0).last() == k0.last()@);
        if !kept[kept.len() - 1].as_str().is_empty() {
            kept.push("".to_owned());
        }
    }
    kept.push(tag.to_owned());
    kept.push(concat("HISTSIZE=", decimal_text(hist_size as u64).as_str()));
    kept.push(concat("HISTFILESIZE=", decimal_text(hist_file_size as u64).as_str()));
    assert(texts(kept@) =~= limit_lines(existing@, hist_size, hist_file_size, tag@));
    let mut out = joined(&kept, "\n");
    out.append("\n");
    out
}

/// None of the lines that are kept sets a limit, and all that set none are kept in their order.
pub proof fn old_limits_are_gone(s: Seq<Seq<char>>)
    ensures
        forall|i: int| 0 <= i < other_lines(s).len() ==> !sets_limit(#[trigger] other_lines(s)[i]),
        (forall|i: int| 0 <= i < s.len() ==> !sets_limit(#[trigger] s[i])) ==> other_lines(s) == s,
    decreases s.len(),
{
    if s.len() > 0 {
        let t = s.drop_last();
        old_limits_are_gone(t);
        assert forall|i: int| 0 <= i < other_lines(s).len() implies !sets_limit(
            #[trigger] other_lines(s)[i],
        ) by {
            if i < other_lines(t).len() {
                assert(other_lines(s)[i] == other_lines(t)[i]);
            }
        }
        if forall|i: int| 0 <= i < s.len() ==> !sets_limit(#[trigger] s[i]) {
            assert forall|i: int| 0 <= i < t.len() implies !sets_limit(#[trigger] t[i]) by {
                assert(t[i] == s[i]);
            }
            assert(!sets_limit(s[s.len() - 1]));
            assert(other_lines(s) =~= s);
        }
    } else {
        assert(other_lines(s) =~= s);
    }
}

/// Where the two files stand.
pub fn tmux_path(input: &Input, home: &Option<String>) -> (r: Result<String, String>)
    ensures
        match (
            r,
            at_home(
                match input.tmux_conf {
                    Some(p) => p@,
                    None => "~/.tmux.conf"@,
                },
                opt_text(*home),
            ),
        ) {
            (Ok(p), Ok(q)) => p@ == q,
            (Err(m), Err(n)) => m@ == n,
            _ => false,
        },
{
    let path = match &input.tmux_conf {
        Some(p) => p.as_str(),
        None => "~/.tmux.conf",
    };
    expand_home(path, home)
}

pub fn bashrc_path(input: &Input, home: &Option<String>) -> (r: Result<String, String>)
    ensures
        match (
            r,
            at_home(
                match input.bashrc {
                    Some(p) => p@,
                    None => "~/.bashrc"@,
                },
                opt_text(*home),
            ),
        ) {
            (Ok(p), Ok(q)) => p@ == q,
            (Err(m), Err(n)) => m@ == n,
            _ => false,
        },
{
    let path = match &input.bashrc {
        Some(p) => p.as_str(),
        None => "~/.bashrc",
    };
    expand_home(path, home)
}

/// A file as it is to be, and whether that is a change.
#[derive(Debug)]
pub struct FileText {
    pub text: String,
    pub updated: bool,
}

pub open spec fn or_number(n: Option<u32>, usual: u32) -> u32 {
    match n {
        Some(x) => x,
        None => usual,
    }
}

pub open spec fn or_lines(v: Option<Vec<String>>) -> Seq<Seq<char>> {
    match v {
        Some(x) => texts(x@),
        None => seq![],
    }
}

pub fn tmux_change(input: &Input, existing: &str) -> (r: FileText)
    ensures
        r.text@ == upserted(
            existing@,
            tmux_block(or_number(input.history_limit, 50000), or_lines(input.extra_tmux_lines)),
            TMUX_MARKER_START@,
            TMUX_MARKER_END@,
        ),
        r.updated == (r.text@ != existing@),
{
    let limit: u32 = match input.history_limit {
        Some(n) => n,
        None => 50000,
    };
    let block = match &input.extra_tmux_lines {
        Some(v) => render_tmux_block(limit, v),
        None => {
            let none: Vec<String> = Vec::new();
            assert(texts(none@) =~= seq![]);
            render_tmux_block(limit, &none)
        },
    };
    let text = upsert_tmux_block(existing, block.as_str());
    let updated = !same(text.as_str(), existing);
    FileText { text, updated }
}

pub fn history_change(input: &Input, existing: &str) -> (r: FileText)
    ensures
        r.text@ == join(
            limit_lines(
                existing@,
                or_number(input.hist_size, 50000),
                or_number(input.hist_file_size, 100000),
                "# runloop:system_tra"@,
            ),
            "\n"@,
        ) + "\n"@,
        r.updated == (r.text@ != existing@),
{
    let size: u32 = match input.hist_size {
        Some(n) => n,
        None => 50000,
    };
    let file_size: u32 = match input.hist_file_size {
        Some(n) => n,
        None => 100000,
    };
    let text = upsert_history_limits(existing, size, file_size, "# runloop:system_tra");
    let updated = !same(text.as_str(), existing);
    FileText { text, updated }
}

/// What was done.
#[derive(Debug)]
pub struct Output {
    pub tmux_path: String,
    pub tmux_updated: bool,
    pub history_path: String,
    pub history_updated: bool,
    pub history_limit: u32,
    pub hist_size: u32,
    pub hist_file_size: u32,
    pub extra_tmux_lines: usize,
}

pub fn report(
    input: &Input,
    tmux_path: String,
    tmux_updated: bool,
    history_path: String,
    history_updated: bool,
) -> (r: Output)
    ensures
        r.tmux_path == tmux_path,
        r.tmux_updated == tmux_updated,
        r.history_path == history_path,
        r.history_updated == history_updated,
        r.history_limit == or_number(input.history_limit, 50000),
        r.hist_size == or_number(input.hist_size, 50000),
        r.hist_file_size == or_number(input.hist_file_size, 100000),
        r.extra_tmux_lines == or_lines(input.extra_tmux_lines).len(),
{
    Output {
        tmux_path,
        tmux_updated,
        history_path,
        history_updated,
        history_limit: match input.history_limit {
            Some(n) => n,
            None => 50000,
        },
        hist_size: match input.hist_size {
            Some(n) => n,
            None => 50000,
        },
        hist_file_size: match input.hist_file_size {
            Some(n) => n,
            None => 100000,
        },
        extra_tmux_lines: match &input.extra_tmux_lines {
            Some(v) => v.len(),
            None => 0,
        },
    }
}

} // verus!
