//! Applies a layout preset to tmux.

use crate::guests::blocks::{
    is_block, joined_lines_are_a_block, lemma_sign_missing, upsert, upserted,
};
use crate::guests::host::{exec_fault_text, ExecError, ExecResult};
use crate::text::{
    chars_of, concat, copy_texts, has_text, join, joined, lines, opt_text, split_lines, texts,
};
use vstd::prelude::*;

verus! {

pub const MARKER_START: &'static str = "# >>> runloop:tmux_layout";

pub const MARKER_END: &'static str = "# <<< runloop:tmux_layout";

#[derive(Clone, Copy, Debug, PartialEq, Eq, Structural)]
pub enum Preset {
    /// General defaults and layout bindings.
    Sensible,
    /// The first index and layout bindings only.
    Minimal,
    /// A stacked layout with a large main pane.
    Stacked,
}

pub open spec fn preset_name(p: Preset) -> Seq<char> {
    match p {
        Preset::Sensible => "sensible"@,
        Preset::Minimal => "minimal"@,
        Preset::Stacked => "stacked"@,
    }
}

pub open spec fn preset_lines(p: Preset) -> Seq<Seq<char>> {
    match p {
        Preset::Sensible => seq![
            "set -g base-index 1"@,
            "setw -g pane-base-index 1"@,
            "set -g renumber-windows on"@,
            "set -g mouse on"@,
            "set -g history-limit 20000"@,
            "setw -g aggressive-resize on"@,
            "bind r source-file ~/.tmux.conf \\; display-message \"reloaded ~/.tmux.conf\""@,
            "bind | split-window -h -c '#{pane_current_path}'"@,
            "bind - split-window -v -c '#{pane_current_path}'"@,
            "bind -n M-h select-pane -L"@,
            "bind -n M-j select-pane -D"@,
            "bind -n M-k select-pane -U"@,
            "bind -n M-l select-pane -R"@,
            "bind T select-layout tiled"@,
            "bind E select-layout even-horizontal"@,
            "bind V select-layout even-vertical"@,
            "bind M select-layout main-vertical"@,
            "bind m select-layout main-horizontal"@,
            "set -g status-position top"@,
            "set -g status-style \"bg=colour236 fg=colour250\""@,
            "setw -g window-status-current-format \"#[fg=colour50]#I:#W#[default]\""@,
            "setw -g window-status-format \"#[fg=colour244]#I:#W#[default]\""@,
        ],
        Preset::Minimal => seq![
            "set -g base-index 1"@,
            "setw -g pane-base-index 1"@,
            "bind T select-layout tiled"@,
            "bind E select-layout even-horizontal"@,
            "bind V select-layout even-vertical"@,
            "bind M select-layout main-vertical"@,
            "bind m select-layout main-horizontal"@,
            "bind -n M-h select-pane -L"@,
            "bind -n M-j select-pane -D"@,
            "bind -n M-k select-pane -U"@,
            "bind -n M-l select-pane -R"@,
        ],
        Preset::Stacked => seq![
            "set -g base-index 1"@,
            "setw -g pane-base-index 1"@,
            "set -g renumber-windows on"@,
            "set -g mouse on"@,
            "set -g main-pane-height 30"@,
            "set -g main-pane-width 120"@,
            "setw -g aggressive-resize on"@,
            "bind r source-file ~/.tmux.conf \\; display-message \"reloaded ~/.tmux.conf\""@,
            "bind m select-layout main-horizontal"@,
            "bind M select-layout main-vertical"@,
            "bind T select-layout tiled"@,
            "bind -n M-h select-pane -L"@,
            "bind -n M-j select-pane -D"@,
            "bind -n M-k select-pane -U"@,
            "bind -n M-l select-pane -R"@,
            "set -g status-style \"bg=colour234 fg=colour250\""@,
            "set -g status-left-length 30"@,
            "set -g status-right-length 80"@,
        ],
    }
}

fn owned(v: Vec<&'static str>) -> (r: Vec<String>)
    ensures
        r@.len() == v@.len(),
        forall|i: int| 0 <= i < r@.len() ==> (#[trigger] r@[i])@ == v@[i]@,
{
    let mut out: Vec<String> = Vec::new();
    let mut i: usize = 0;
    while i < v.len()
        invariant
            i <= v.len(),
            out@.len() == i,
            forall|k: int| 0 <= k < i ==> (#[trigger] out@[k])@ == v@[k]@,
        decreases v.len() - i,
    {
        out.push(v[i].to_owned());
        i += 1;
    }
    out
}

impl Preset {
    pub fn as_str(&self) -> (r: &'static str)
        ensures
            r@ == preset_name(*self),
    {
        match self {
            Preset::Sensible => "sensible",
            Preset::Minimal => "minimal",
            Preset::Stacked => "stacked",
        }
    }

    pub fn snippet(&self) -> (r: Vec<String>)
        ensures
            texts(r@) == preset_lines(*self),
    {
        let v = owned(
            match self {
                Preset::Sensible => vec![
                    "set -g base-index 1",
                    "setw -g pane-base-index 1",
                    "set -g renumber-windows on",
                    "set -g mouse on",
                    "set -g history-limit 20000",
                    "setw -g aggressive-resize on",
                    "bind r source-file ~/.tmux.conf \\; display-message \"reloaded ~/.tmux.conf\"",
                    "bind | split-window -h -c '#{pane_current_path}'",
                    "bind - split-window -v -c '#{pane_current_path}'",
                    "bind -n M-h select-pane -L",
                    "bind -n M-j select-pane -D",
                    "bind -n M-k select-pane -U",
                    "bind -n M-l select-pane -R",
                    "bind T select-layout tiled",
                    "bind E select-layout even-horizontal",
                    "bind V select-layout even-vertical",
                    "bind M select-layout main-vertical",
                    "bind m select-layout main-horizontal",
                    "set -g status-position top",
                    "set -g status-style \"bg=colour236 fg=colour250\"",
                    "setw -g window-status-current-format \"#[fg=colour50]#I:#W#[default]\"",
                    "setw -g window-status-format \"#[fg=colour244]#I:#W#[default]\"",
                ],
                Preset::Minimal => vec![
                    "set -g base-index 1",
                    "setw -g pane-base-index 1",
                    "bind T select-layout tiled",
                    "bind E select-layout even-horizontal",
                    "bind V select-layout even-vertical",
                    "bind M select-layout main-vertical",
                    "bind m select-layout main-horizontal",
                    "bind -n M-h select-pane -L",
                    "bind -n M-j select-pane -D",
                    "bind -n M-k select-pane -U",
                    "bind -n M-l select-pane -R",
                ],
                Preset::Stacked => vec![
                    "set -g base-index 1",
                    "setw -g pane-base-index 1",
                    "set -g renumber-windows on",
                    "set -g mouse on",
                    "set -g main-pane-height 30",
                    "set -g main-pane-width 120",
                    "setw -g aggressive-resize on",
                    "bind r source-file ~/.tmux.conf \\; display-message \"reloaded ~/.tmux.conf\"",
                    "bind m select-layout main-horizontal",
                    "bind M select-layout main-vertical",
                    "bind T select-layout tiled",
                    "bind -n M-h select-pane -L",
                    "bind -n M-j select-pane -D",
                    "bind -n M-k select-pane -U",
                    "bind -n M-l select-pane -R",
                    "set -g status-style \"bg=colour234 fg=colour250\"",
                    "set -g status-left-length 30",
                    "set -g status-right-length 80",
                ],
            },
        );
        assert(texts(v@) =~= preset_lines(*self));
        v
    }
}

pub open spec fn block_lines(preset: Preset, extra: Seq<Seq<char>>) -> Seq<Seq<char>> {
    let head = seq![
        MARKER_START@ + " preset="@ + preset_name(preset),
        "# managed by the tmux_layout agent"@,
    ];
    let more = if extra.len() > 0 {
        seq!["# extra_lines from params:"@] + extra
    } else {
        seq![]
    };
    head + preset_lines(preset) + more + seq![MARKER_END@]
}

pub open spec fn layout_block(preset: Preset, extra: Seq<Seq<char>>) -> Seq<char> {
    join(block_lines(preset, extra), "\n"@) + "\n"@
}

spec fn lacks_angle(line: Seq<char>) -> bool {
    forall|i: int| 0 <= i < line.len() ==> #[trigger] line[i] != '<'
}

proof fn lemma_sensible_lines()
    ensures
        forall|k: int|
            0 <= k < preset_lines(Preset::Sensible).len() ==> lacks_angle(
                #[trigger] preset_lines(Preset::Sensible)[k],
            ),
{
    reveal_strlit("set -g base-index 1");
    assert(lacks_angle("set -g base-index 1"@));
    reveal_strlit("setw -g pane-base-index 1");
    assert(lacks_angle("setw -g pane-base-index 1"@));
    reveal_strlit("set -g renumber-windows on");
    assert(lacks_angle("set -g renumber-windows on"@));
    reveal_strlit("set -g mouse on");
    assert(lacks_angle("set -g mouse on"@));
    reveal_strlit("set -g history-limit 20000");
    assert(lacks_angle("set -g history-limit 20000"@));
    reveal_strlit("setw -g aggressive-resize on");
    assert(lacks_angle("setw -g aggressive-resize on"@));
    reveal_strlit("bind r source-file ~/.tmux.conf \\; display-message \"reloaded ~/.tmux.conf\"");
    assert(lacks_angle("bind r source-file ~/.tmux.conf \\; display-message \"reloaded ~/.tmux.conf\""@));
    reveal_strlit("bind | split-window -h -c '#{pane_current_path}'");
    assert(lacks_angle("bind | split-window -h -c '#{pane_current_path}'"@));
    reveal_strlit("bind - split-window -v -c '#{pane_current_path}'");
    assert(lacks_angle("bind - split-window -v -c '#{pane_current_path}'"@));
    reveal_strlit("bind -n M-h select-pane -L");
    assert(lacks_angle("bind -n M-h select-pane -L"@));
    reveal_strlit("bind -n M-j select-pane -D");
    assert(lacks_angle("bind -n M-j select-pane -D"@));
    reveal_strlit("bind -n M-k select-pane -U");
    assert(lacks_angle("bind -n M-k select-pane -U"@));
    reveal_strlit("bind -n M-l select-pane -R");
    assert(lacks_angle("bind -n M-l select-pane -R"@));
    reveal_strlit("bind T select-layout tiled");
    assert(lacks_angle("bind T select-layout tiled"@));
    reveal_strlit("bind E select-layout even-horizontal");
    assert(lacks_angle("bind E select-layout even-horizontal"@));
    reveal_strlit("bind V select-layout even-vertical");
    assert(lacks_angle("bind V select-layout even-vertical"@));
    reveal_strlit("bind M select-layout main-vertical");
    assert(lacks_angle("bind M select-layout main-vertical"@));
    reveal_strlit("bind m select-layout main-horizontal");
    assert(lacks_angle("bind m select-layout main-horizontal"@));
    reveal_strlit("set -g status-position top");
    assert(lacks_angle("set -g status-position top"@));
    reveal_strlit("set -g status-style \"bg=colour236 fg=colour250\"");
    assert(lacks_angle("set -g status-style \"bg=colour236 fg=colour250\""@));
    reveal_strlit("setw -g window-status-current-format \"#[fg=colour50]#I:#W#[default]\"");
    assert(lacks_angle("setw -g window-status-current-format \"#[fg=colour50]#I:#W#[default]\""@));
    reveal_strlit("setw -g window-status-format \"#[fg=colour244]#I:#W#[default]\"");
    assert(lacks_angle("setw -g window-status-format \"#[fg=colour244]#I:#W#[default]\""@));
}

proof fn lemma_minimal_lines()
    ensures
        forall|k: int|
            0 <= k < preset_lines(Preset::Minimal).len() ==> lacks_angle(
                #[trigger] preset_lines(Preset::Minimal)[k],
            ),
{
    reveal_strlit("set -g base-index 1");
    assert(lacks_angle("set -g base-index 1"@));
    reveal_strlit("setw -g pane-base-index 1");
    assert(lacks_angle("setw -g pane-base-index 1"@));
    reveal_strlit("bind T select-layout tiled");
    assert(lacks_angle("bind T select-layout tiled"@));
    reveal_strlit("bind E select-layout even-horizontal");
    assert(lacks_angle("bind E select-layout even-horizontal"@));
    reveal_strlit("bind V select-layout even-vertical");
    assert(lacks_angle("bind V select-layout even-vertical"@));
    reveal_strlit("bind M select-layout main-vertical");
    assert(lacks_angle("bind M select-layout main-vertical"@));
    reveal_strlit("bind m select-layout main-horizontal");
    assert(lacks_angle("bind m select-layout main-horizontal"@));
    reveal_strlit("bind -n M-h select-pane -L");
    assert(lacks_angle("bind -n M-h select-pane -L"@));
    reveal_strlit("bind -n M-j select-pane -D");
    assert(lacks_angle("bind -n M-j select-pane -D"@));
    reveal_strlit("bind -n M-k select-pane -U");
    assert(lacks_angle("bind -n M-k select-pane -U"@));
    reveal_strlit("bind -n M-l select-pane -R");
    assert(lacks_angle("bind -n M-l select-pane -R"@));
}

proof fn lemma_stacked_lines()
    ensures
        forall|k: int|
            0 <= k < preset_lines(Preset::Stacked).len() ==> lacks_angle(
                #[trigger] preset_lines(Preset::Stacked)[k],
            ),
{
    reveal_strlit("set -g base-index 1");
    assert(lacks_angle("set -g base-index 1"@));
    reveal_strlit("setw -g pane-base-index 1");
    assert(lacks_angle("setw -g pane-base-index 1"@));
    reveal_strlit("set -g renumber-windows on");
    assert(lacks_angle("set -g renumber-windows on"@));
    reveal_strlit("set -g mouse on");
    assert(lacks_angle("set -g mouse on"@));
    reveal_strlit("set -g main-pane-height 30");
    assert(lacks_angle("set -g main-pane-height 30"@));
    reveal_strlit("set -g main-pane-width 120");
    assert(lacks_angle("set -g main-pane-width 120"@));
    reveal_strlit("setw -g aggressive-resize on");
    assert(lacks_angle("setw -g aggressive-resize on"@));
    reveal_strlit("bind r source-file ~/.tmux.conf \\; display-message \"reloaded ~/.tmux.conf\"");
    assert(lacks_angle("bind r source-file ~/.tmux.conf \\; display-message \"reloaded ~/.tmux.conf\""@));
    reveal_strlit("bind m select-layout main-horizontal");
    assert(lacks_angle("bind m select-layout main-horizontal"@));
    reveal_strlit("bind M select-layout main-vertical");
    assert(lacks_angle("bind M select-layout main-vertical"@));
    reveal_strlit("bind T select-layout tiled");
    assert(lacks_angle("bind T select-layout tiled"@));
    reveal_strlit("bind -n M-h select-pane -L");
    assert(lacks_angle("bind -n M-h select-pane -L"@));
    reveal_strlit("bind -n M-j select-pane -D");
    assert(lacks_angle("bind -n M-j select-pane -D"@));
    reveal_strlit("bind -n M-k select-pane -U");
    assert(lacks_angle("bind -n M-k select-pane -U"@));
    reveal_strlit("bind -n M-l select-pane -R");
    assert(lacks_angle("bind -n M-l select-pane -R"@));
    reveal_strlit("set -g status-style \"bg=colour234 fg=colour250\"");
    assert(lacks_angle("set -g status-style \"bg=colour234 fg=colour250\""@));
    reveal_strlit("set -g status-left-length 30");
    assert(lacks_angle("set -g status-left-length 30"@));
    reveal_strlit("set -g status-right-length 80");
    assert(lacks_angle("set -g status-right-length 80"@));
}

/// What is written for a layout is a block, unless a line that is asked for holds the mark of its
/// end.
pub proof fn layout_blocks_are_blocks(preset: Preset, extra: Seq<Seq<char>>)
    requires
        forall|k: int| 0 <= k < extra.len() ==> !has_text(#[trigger] extra[k], MARKER_END@),
    ensures
        is_block(layout_block(preset, extra), MARKER_START@, MARKER_END@),
{
    reveal_strlit("# >>> runloop:tmux_layout");
    reveal_strlit("# <<< runloop:tmux_layout");
    reveal_strlit(" preset=");
    reveal_strlit("sensible");
    reveal_strlit("minimal");
    reveal_strlit("stacked");
    reveal_strlit("# managed by the tmux_layout agent");
    reveal_strlit("# extra_lines from params:");
    lemma_sensible_lines();
    lemma_minimal_lines();
    lemma_stacked_lines();
    let mark = MARKER_START@;
    let stop = MARKER_END@;
    let own = preset_lines(preset);
    let lines = block_lines(preset, extra);
    let n = own.len() as int;
    assert(stop[2] == '<');
    assert(lines.last() == stop);
    assert(lines[0].take(mark.len() as int) =~= mark);
    assert(lacks_angle(lines[0]));
    assert(lacks_angle(lines[1]));
    assert forall|k: int| 0 <= k < lines.len() - 1 implies !has_text(#[trigger] lines[k], stop) by {
        if k < 2 {
            lemma_sign_missing(lines[k], stop, 2);
        } else if k < 2 + n {
            assert(lines[k] == own[k - 2]);
            assert(lacks_angle(own[k - 2]));
            lemma_sign_missing(lines[k], stop, 2);
        } else if k == 2 + n {
            assert(lines[k] == "# extra_lines from params:"@);
            lemma_sign_missing(lines[k], stop, 2);
        } else {
            assert(lines[k] == extra[k - 3 - n]);
        }
    }
    joined_lines_are_a_block(lines, mark, stop);
}

fn add_all(v: &mut Vec<String>, more: &Vec<String>)
    ensures
        texts(final(v)@) == texts(old(v)@) + texts(more@),
{
    let ghost o = v@;
    let mut extra = copy_texts(more);
    let ghost e = extra@;
    v.append(&mut extra);
    assert(texts(v@) =~= texts(o) + texts(e));
}

pub fn render_block(preset: Preset, extra_lines: &Vec<String>) -> (r: String)
    ensures
        r@ == layout_block(preset, texts(extra_lines@)),
{
    let mut v: Vec<String> = Vec::new();
    let mut first = concat(MARKER_START, " preset=");
    first.append(preset.as_str());
    v.push(first);
    v.push("# managed by the tmux_layout agent".to_owned());
    let ghost head = texts(v@);
    let snippet = preset.snippet();
    add_all(&mut v, &snippet);
    assert(texts(extra_lines@).len() == extra_lines@.len());
    let ghost mid = texts(v@);
    if extra_lines.len() > 0 {
        let ghost o = v@;
        v.push("# extra_lines from params:".to_owned());
        assert(texts(v@) =~= texts(o).push("# extra_lines from params:"@));
        add_all(&mut v, extra_lines);
    }
    let ghost o = v@;
    v.push(MARKER_END.to_owned());
    assert(texts(v@) =~= texts(o).push(MARKER_END@));
    assert(texts(v@) =~= block_lines(preset, texts(extra_lines@)));
    let mut out = joined(&v, "\n");
    out.append("\n");
    out
}

pub fn upsert_block(existing: &str, block: &str) -> (r: String)
    ensures
        r@ == upserted(existing@, block@, MARKER_START@, MARKER_END@),
{
    proof {
        reveal_strlit("# >>> runloop:tmux_layout");
        reveal_strlit("# <<< runloop:tmux_layout");
    }
    upsert(existing, block, MARKER_START, MARKER_END)
}

/// A text between single quotes: each quote in it is written outside of them.
pub open spec fn quote_free(s: Seq<char>) -> Seq<char>
    decreases s.len(),
{
    if s.len() == 0 {
        seq![]
    } else if s[0] == '\'' {
        seq!['\'', '\\', '\'', '\''] + quote_free(s.skip(1))
    } else {
        seq![s[0]] + quote_free(s.skip(1))
    }
}

pub open spec fn shell_word(s: Seq<char>) -> Seq<char> {
    seq!['\''] + quote_free(s) + seq!['\'']
}

pub fn sh_escape(input: &str) -> (r: String)
    ensures
        r@ == shell_word(input@),
{
    let v = chars_of(input);
    let mut out = String::new();
    out.push('\'');
    let mut i: usize = 0;
    assert(input@.skip(0) =~= input@);
    assert(out@ + quote_free(input@) =~= seq!['\''] + quote_free(input@));
    while i < v.len()
        invariant
            i <= v.len(),
            v@ == input@,
            out@ + quote_free(input@.skip(i as int)) == seq!['\''] + quote_free(input@),
        decreases v.len() - i,
    {
        let ghost o = out@;
        let ghost rest = input@.skip(i as int);
        assert(rest[0] == v@[i as int]);
        assert(rest.skip(1) =~= input@.skip(i + 1));
        if v[i] == '\'' {
            out.push('\'');
            out.push('\\');
            out.push('\'');
            out.push('\'');
            assert(out@ + quote_free(rest.skip(1)) =~= o + (seq!['\'', '\\', '\'', '\'']
                + quote_free(rest.skip(1))));
        } else {
            out.push(v[i]);
            assert(out@ + quote_free(rest.skip(1)) =~= o + (seq![rest[0]] + quote_free(
                rest.skip(1),
            )));
        }
        i += 1;
    }
    assert(quote_free(input@.skip(input@.len() as int)) =~= seq![]);
    assert(out@ =~= seq!['\''] + quote_free(input@));
    out.push('\'');
    assert(out@ =~= shell_word(input@));
    out
}

/// What a shell makes of quoted text: between single quotes each character stands for itself, and
/// outside of them a backslash keeps the character after it.
pub open spec fn shell_reads(s: Seq<char>, quoted: bool) -> Option<Seq<char>>
    decreases s.len(),
{
    if s.len() == 0 {
        if quoted {
            None
        } else {
            Some(seq![])
        }
    } else if s[0] == '\'' {
        shell_reads(s.skip(1), !quoted)
    } else if quoted {
        match shell_reads(s.skip(1), true) {
            Some(t) => Some(seq![s[0]] + t),
            None => None,
        }
    } else if s[0] == '\\' && s.len() > 1 {
        match shell_reads(s.skip(2), false) {
            Some(t) => Some(seq![s[1]] + t),
            None => None,
        }
    } else {
        None
    }
}

proof fn lemma_reads(s: Seq<char>)
    ensures
        shell_reads(quote_free(s) + seq!['\''], true) == Some(s),
    decreases s.len(),
{
    let q = quote_free(s) + seq!['\''];
    if s.len() == 0 {
        assert(q =~= seq!['\'']);
        assert(q.skip(1) =~= seq![]);
        reveal_with_fuel(shell_reads, 2);
        assert(shell_reads(q, true)->0 =~= s);
    } else {
        let t = s.skip(1);
        lemma_reads(t);
        let rest = quote_free(t) + seq!['\''];
        if s[0] == '\'' {
            assert(q =~= seq!['\'', '\\', '\'', '\''] + rest);
            let a = q.skip(1);
            assert(a =~= seq!['\\', '\'', '\''] + rest);
            let b = a.skip(2);
            assert(b =~= seq!['\''] + rest);
            assert(b.skip(1) =~= rest);
            assert(shell_reads(b, false) == shell_reads(rest, true));
            assert(shell_reads(a, false) == Some(seq!['\''] + t));
        } else {
            assert(q =~= seq![s[0]] + rest);
            assert(q.skip(1) =~= rest);
        }
        assert(seq![s[0]] + t =~= s);
    }
}

/// A shell reads an escaped text as the text itself.
pub proof fn escaped_words_reach_the_command(s: Seq<char>)
    ensures
        shell_reads(shell_word(s), false) == Some(s),
{
    let w = shell_word(s);
    assert(w.skip(1) =~= quote_free(s) + seq!['\'']);
    lemma_reads(s);
}

/// The commands that are run after the file has been written.
pub open spec fn tmux_commands(
    path: Seq<char>,
    reload: bool,
    layout: Option<Seq<char>>,
) -> Seq<Seq<char>> {
    (if reload {
        seq!["tmux source-file "@ + shell_word(path)]
    } else {
        seq![]
    }) + (match layout {
        Some(l) => seq!["tmux select-layout "@ + shell_word(l)],
        None => seq![],
    })
}

pub fn commands(path: &str, reload: bool, apply_layout: &Option<String>) -> (r: Vec<String>)
    ensures
        texts(r@) == tmux_commands(path@, reload, opt_text(*apply_layout)),
{
    let mut v: Vec<String> = Vec::new();
    if reload {
        v.push(concat("tmux source-file ", sh_escape(path).as_str()));
    }
    match apply_layout {
        Some(l) => v.push(concat("tmux select-layout ", sh_escape(l.as_str()).as_str())),
        None => {},
    }
    assert(texts(v@) =~= tmux_commands(path@, reload, opt_text(*apply_layout)));
    v
}

#[derive(Debug)]
pub struct ExecOutcome {
    pub command: String,
    pub exit_code: Option<i32>,
    pub stdout: String,
    pub stderr: String,
    pub error: Option<String>,
}

/// What came of a command.
pub fn outcome(command: &str, result: Result<ExecResult, ExecError>) -> (r: ExecOutcome)
    ensures
        r.command@ == command@,
        match result {
            Ok(x) => r.exit_code == Some(x.exit_code) && r.stdout == x.stdout && r.stderr
                == x.stderr && r.error is None,
            Err(e) => r.exit_code is None && r.stdout@ == ""@ && r.stderr@ == ""@ && opt_text(
                r.error,
            ) == Some(exec_fault_text(e@)),
        },
{
    match result {
        Ok(x) => ExecOutcome {
            command: command.to_owned(),
            exit_code: Some(x.exit_code),
            stdout: x.stdout,
            stderr: x.stderr,
            error: None,
        },
        Err(e) => ExecOutcome {
            command: command.to_owned(),
            exit_code: None,
            stdout: "".to_owned(),
            stderr: "".to_owned(),
            error: Some(e.message()),
        },
    }
}

/// How many lines a block has.
pub fn line_count(block: &str) -> (n: usize)
    ensures
        n == lines(block@).len(),
{
    let v = split_lines(block);
    assert(texts(v@).len() == v@.len());
    v.len()
}

} // verus!
