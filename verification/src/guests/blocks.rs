//! Blocks in configuration files that an agent manages, between two marks.

use crate::text::{
    chars_of, concat, find_from, first_at, has_prefix, has_text, is_blank, is_white_space, join,
    lemma_first_at, lemma_trim_end_last, occurs_at, string_range, trim, trim_end, trimmed_end,
};
use vstd::prelude::*;

verus! {

/// A text without the line breaks at its start.
pub open spec fn skip_breaks(s: Seq<char>) -> Seq<char>
    decreases s.len(),
{
    if s.len() > 0 && (s[0] == '\n' || s[0] == '\r') {
        skip_breaks(s.skip(1))
    } else {
        s
    }
}

/// A text with the block put at its end, after an empty line.
pub open spec fn with_block(existing: Seq<char>, block: Seq<char>) -> Seq<char> {
    if trim(existing).len() == 0 {
        block
    } else {
        trim_end(existing) + "\n\n"@ + trim_end(block) + "\n"@
    }
}

/// A block between what stands before and after it, with empty lines between them.
pub open spec fn between(before: Seq<char>, block: Seq<char>, after: Seq<char>) -> Seq<char> {
    (if before.len() > 0 {
        before + "\n\n"@
    } else {
        seq![]
    }) + trim_end(block) + (if after.len() > 0 {
        "\n\n"@ + after + "\n"@
    } else {
        "\n"@
    })
}

/// Whether a text holds a block: the first mark, and somewhere after it the second.
pub open spec fn has_block(s: Seq<char>, mark: Seq<char>, stop: Seq<char>) -> bool {
    first_at(s, mark) < s.len() && first_at(s.skip(first_at(s, mark)), stop) < s.len() - first_at(
        s,
        mark,
    )
}

/// What follows the block in a text.
pub open spec fn after_block(s: Seq<char>, mark: Seq<char>, stop: Seq<char>) -> Seq<char> {
    let tail = s.skip(first_at(s, mark));
    skip_breaks(tail.skip(first_at(tail, stop) + stop.len()))
}

/// A text with the block in place of the one that it holds, or at its end.
pub open spec fn upserted(
    existing: Seq<char>,
    block: Seq<char>,
    mark: Seq<char>,
    stop: Seq<char>,
) -> Seq<char> {
    if has_block(existing, mark, stop) {
        between(
            trim_end(existing.take(first_at(existing, mark))),
            block,
            after_block(existing, mark, stop),
        )
    } else {
        with_block(existing, block)
    }
}

fn start_of_rest(v: &Vec<char>, from: usize) -> (r: usize)
    requires
        from <= v.len(),
    ensures
        from <= r <= v.len(),
        v@.skip(r as int) == skip_breaks(v@.skip(from as int)),
{
    let mut i: usize = from;
    while i < v.len() && (v[i] == '\n' || v[i] == '\r')
        invariant
            from <= i <= v.len(),
            skip_breaks(v@.skip(from as int)) == skip_breaks(v@.skip(i as int)),
        decreases v.len() - i,
    {
        assert(v@.skip(i as int).skip(1) =~= v@.skip(i + 1));
        i += 1;
    }
    i
}

/// Puts the block into a text, in place of the one that is there or at the end.
pub fn upsert(existing: &str, block: &str, mark: &str, stop: &str) -> (r: String)
    requires
        mark@.len() > 0,
        stop@.len() > 0,
    ensures
        r@ == upserted(existing@, block@, mark@, stop@),
{
    let v = chars_of(existing);
    let m = chars_of(mark);
    let e = chars_of(stop);
    match find_from(&v, &m, 0) {
        Some(i) => {
            proof {
                lemma_first_at(v@, m@, i as int);
            }
            let ghost tail = v@.skip(i as int);
            match find_from(&v, &e, i) {
                Some(j) => {
                    proof {
                        assert(tail.subrange(j - i, j - i + e@.len()) =~= v@.subrange(
                            j as int,
                            j + e@.len(),
                        ));
                        assert forall|k: int| 0 <= k < j - i implies !occurs_at(tail, e@, k) by {
                            assert(!occurs_at(v@, e@, i + k));
                            if occurs_at(tail, e@, k) {
                                assert(tail.subrange(k, k + e@.len()) =~= v@.subrange(
                                    i + k,
                                    i + k + e@.len(),
                                ));
                            }
                        }
                        lemma_first_at(tail, e@, j - i);
                        assert(tail.skip(j - i + e@.len()) =~= v@.skip(j + e@.len()));
                    }
                    assert(j + e.len() <= v.len());
                    let rest = start_of_rest(&v, j + e.len());
                    let before = trimmed_end(string_range(&v, 0, i).as_str());
                    let after = string_range(&v, rest, v.len());
                    assert(v@.subrange(0, i as int) =~= existing@.take(i as int));
                    assert(v@.subrange(rest as int, v@.len() as int) =~= v@.skip(rest as int));
                    let mut out = if before.as_str().is_empty() {
                        "".to_owned()
                    } else {
                        concat(before.as_str(), "\n\n")
                    };
                    assert(before@.len() == 0 ==> out@ =~= seq![]) by {
                        reveal_strlit("");
                    }
                    out.append(trimmed_end(block).as_str());
                    let ghost o = out@;
                    if !after.as_str().is_empty() {
                        let mut t = concat("\n\n", after.as_str());
                        t.append("\n");
                        out.append(t.as_str());
                    } else {
                        out.append("\n");
                    }
                    return out;
                },
                None => {
                    proof {
                        assert forall|k: int| 0 <= k < tail.len() implies !occurs_at(
                            tail,
                            e@,
                            k,
                        ) by {
                            assert(!occurs_at(v@, e@, i + k));
                            if occurs_at(tail, e@, k) {
                                assert(tail.subrange(k, k + e@.len()) =~= v@.subrange(
                                    i + k,
                                    i + k + e@.len(),
                                ));
                            }
                        }
                        lemma_first_at(tail, e@, tail.len() as int);
                    }
                },
            }
        },
        None => {
            proof {
                lemma_first_at(v@, m@, v@.len() as int);
            }
        },
    }
    if is_blank(existing) {
        return block.to_owned();
    }
    let mut out = concat(trimmed_end(existing).as_str(), "\n\n");
    out.append(trimmed_end(block).as_str());
    out.append("\n");
    out
}

/// A block as it is written: from the one mark to the other, which stands only at its end, and a
/// line feed.
pub open spec fn is_block(block: Seq<char>, mark: Seq<char>, stop: Seq<char>) -> bool {
    let body = block.drop_last();
    &&& mark.len() > 0
    &&& forall|i: int| 0 <= i < mark.len() ==> #[trigger] mark[i] != '\n'
    &&& stop.len() > 0
    &&& !is_white_space(stop.last())
    &&& block.len() > 0
    &&& block.last() == '\n'
    &&& has_prefix(body, mark)
    &&& body.len() >= stop.len()
    &&& first_at(body, stop) == body.len() - stop.len()
    &&& occurs_at(body, stop, body.len() - stop.len())
}

proof fn lemma_none_before(s: Seq<char>, n: Seq<char>)
    ensures
        forall|j: int| 0 <= j < first_at(s, n) ==> !occurs_at(s, n, j),
        0 <= first_at(s, n) <= s.len(),
        first_at(s, n) < s.len() ==> occurs_at(s, n, first_at(s, n)),
    decreases s.len(),
{
    if s.len() > 0 && !occurs_at(s, n, 0) {
        let t = s.skip(1);
        lemma_none_before(t, n);
        let f = first_at(t, n);
        assert forall|j: int| 0 <= j < 1 + f implies !occurs_at(s, n, j) by {
            if j > 0 && occurs_at(s, n, j) {
                assert(s.subrange(j, j + n.len()) =~= t.subrange(j - 1, j - 1 + n.len()));
                assert(occurs_at(t, n, j - 1));
            }
        }
        if 1 + f < s.len() {
            assert(s.subrange(1 + f, 1 + f + n.len()) =~= t.subrange(f, f + n.len()));
        }
    }
}

proof fn lemma_trim_breaks(s: Seq<char>)
    requires
        s.len() == 0 || !is_white_space(s.last()),
    ensures
        trim_end(s) == s,
        trim_end(s + "\n"@) == s,
        trim_end(s + "\n\n"@) == s,
{
    reveal_strlit("\n");
    reveal_strlit("\n\n");
    let a = s + "\n"@;
    let b = s + "\n\n"@;
    assert(a.drop_last() =~= s);
    assert(b.drop_last() =~= a);
    assert(is_white_space('\n'));
    assert(trim_end(s) == s);
}

proof fn lemma_span(before: Seq<char>, after: Seq<char>, n: Seq<char>, j: int)
    requires
        forall|i: int| 0 <= i < n.len() ==> #[trigger] n[i] != '\n',
        n.len() > 0,
        occurs_at(before + "\n"@ + after, n, j),
    ensures
        occurs_at(before, n, j) || occurs_at(after, n, j - before.len() - 1),
{
    reveal_strlit("\n");
    let whole = before + "\n"@ + after;
    let at = before.len() as int;
    assert(whole[at] == '\n');
    if j + n.len() <= at {
        assert(before.subrange(j, j + n.len()) =~= whole.subrange(j, j + n.len()));
    } else if j > at {
        assert(after.subrange(j - at - 1, j - at - 1 + n.len()) =~= whole.subrange(j, j + n.len()));
    } else {
        assert(whole.subrange(j, j + n.len())[at - j] == whole[at]);
        assert(n[at - j] == '\n');
    }
}

/// Lines that do not hold a text do not hold it when they are joined.
proof fn lemma_joined_lacks(lines: Seq<Seq<char>>, n: Seq<char>)
    requires
        forall|i: int| 0 <= i < n.len() ==> #[trigger] n[i] != '\n',
        n.len() > 0,
        forall|k: int| 0 <= k < lines.len() ==> !has_text(#[trigger] lines[k], n),
    ensures
        !has_text(join(lines, "\n"@), n),
    decreases lines.len(),
{
    let whole = join(lines, "\n"@);
    if has_text(whole, n) {
        let j = choose|j: int| occurs_at(whole, n, j);
        if lines.len() == 1 {
            assert(has_text(lines[0], n));
        } else if lines.len() > 1 {
            let init = lines.drop_last();
            assert forall|k: int| 0 <= k < init.len() implies !has_text(#[trigger] init[k], n) by {
                assert(init[k] == lines[k]);
            }
            lemma_joined_lacks(init, n);
            lemma_span(join(init, "\n"@), lines.last(), n, j);
            assert(!has_text(lines[lines.len() - 1], n));
        }
    }
}

proof fn lemma_join_starts(lines: Seq<Seq<char>>, mark: Seq<char>)
    requires
        lines.len() > 0,
        has_prefix(lines[0], mark),
    ensures
        has_prefix(join(lines, "\n"@), mark),
    decreases lines.len(),
{
    if lines.len() > 1 {
        let init = lines.drop_last();
        lemma_join_starts(init, mark);
        assert(join(lines, "\n"@).take(mark.len() as int) =~= join(init, "\n"@).take(
            mark.len() as int,
        ));
    }
}

/// Lines are a block when they are joined: the first starts with the one mark, the last is the
/// other, and no line before it holds that one.
pub proof fn joined_lines_are_a_block(lines: Seq<Seq<char>>, mark: Seq<char>, stop: Seq<char>)
    requires
        lines.len() > 1,
        has_prefix(lines[0], mark),
        lines.last() == stop,
        mark.len() > 0,
        stop.len() > 0,
        !is_white_space(stop.last()),
        forall|i: int| 0 <= i < mark.len() ==> #[trigger] mark[i] != '\n',
        forall|i: int| 0 <= i < stop.len() ==> #[trigger] stop[i] != '\n',
        forall|k: int| 0 <= k < lines.len() - 1 ==> !has_text(#[trigger] lines[k], stop),
    ensures
        is_block(join(lines, "\n"@) + "\n"@, mark, stop),
{
    reveal_strlit("\n");
    let init = lines.drop_last();
    let head = join(init, "\n"@);
    let body = join(lines, "\n"@);
    let block = body + "\n"@;
    assert(block.drop_last() =~= body);
    assert(body == head + "\n"@ + stop);
    assert forall|k: int| 0 <= k < init.len() implies !has_text(#[trigger] init[k], stop) by {
        assert(init[k] == lines[k]);
    }
    lemma_joined_lacks(init, stop);
    lemma_join_starts(lines, mark);
    let at = body.len() - stop.len();
    assert(body.subrange(at, at + stop.len()) =~= stop);
    assert forall|j: int| 0 <= j < at implies !occurs_at(body, stop, j) by {
        if occurs_at(body, stop, j) {
            lemma_span(head, stop, stop, j);
            assert(has_text(head, stop));
        }
    }
    lemma_first_at(body, stop, at);
}

/// A line without a sign does not hold a text that has it.
pub proof fn lemma_sign_missing(line: Seq<char>, n: Seq<char>, i: int)
    requires
        0 <= i < n.len(),
        forall|k: int| 0 <= k < line.len() ==> #[trigger] line[k] != n[i],
    ensures
        !has_text(line, n),
{
    if has_text(line, n) {
        let j = choose|j: int| occurs_at(line, n, j);
        assert(line.subrange(j, j + n.len())[i] == line[j + i]);
    }
}

/// What upserting another block gives once a block stands at the end of a text.
proof fn lemma_settled(
    before: Seq<char>,
    block: Seq<char>,
    other: Seq<char>,
    mark: Seq<char>,
    stop: Seq<char>,
)
    requires
        is_block(block, mark, stop),
        before.len() == 0 || !is_white_space(before.last()),
        forall|j: int| 0 <= j ==> !occurs_at(before, mark, j),
    ensures
        upserted(between(before, block, seq![]), other, mark, stop) == between(
            before,
            other,
            seq![],
        ),
{
    reveal_strlit("\n");
    reveal_strlit("\n\n");
    let body = block.drop_last();
    assert(block =~= body + "\n"@);
    assert(body.last() == stop.last()) by {
        let at = body.len() - stop.len();
        assert(body.subrange(at, at + stop.len()).last() == stop.last());
    }
    lemma_trim_breaks(body);
    let p = if before.len() > 0 {
        before + "\n\n"@
    } else {
        Seq::<char>::empty()
    };
    let whole = between(before, block, seq![]);
    assert(whole =~= p + body + "\n"@);
    let n = p.len() as int;
    let tail = whole.skip(n);
    assert(tail =~= body + "\n"@);
    assert(occurs_at(whole, mark, n)) by {
        assert(whole.subrange(n, n + mark.len()) =~= body.subrange(0, mark.len() as int));
        assert(body.subrange(0, mark.len() as int) =~= mark);
    }
    assert forall|j: int| 0 <= j < n implies !occurs_at(whole, mark, j) by {
        if occurs_at(whole, mark, j) {
            if j + mark.len() <= before.len() {
                assert(whole.subrange(j, j + mark.len()) =~= before.subrange(j, j + mark.len()));
                assert(occurs_at(before, mark, j));
            } else {
                let k = if j <= n - 2 {
                    n - 2
                } else {
                    n - 1
                };
                assert(whole[k] == '\n');
                assert(whole.subrange(j, j + mark.len())[k - j] == whole[k]);
                assert(mark[k - j] == '\n');
            }
        }
    }
    lemma_first_at(whole, mark, n);
    let at = body.len() - stop.len();
    assert(occurs_at(tail, stop, at)) by {
        assert(tail.subrange(at, at + stop.len()) =~= body.subrange(at, at + stop.len()));
    }
    lemma_none_before(body, stop);
    assert forall|j: int| 0 <= j < at implies !occurs_at(tail, stop, j) by {
        if occurs_at(tail, stop, j) {
            assert(tail.subrange(j, j + stop.len()) =~= body.subrange(j, j + stop.len()));
            assert(occurs_at(body, stop, j));
        }
    }
    lemma_first_at(tail, stop, at);
    assert(has_block(whole, mark, stop));
    assert(whole.take(n) =~= p);
    lemma_trim_breaks(before);
    assert(trim_end(p) == before);
    let rest = tail.skip(at + stop.len());
    assert(rest =~= "\n"@);
    assert(rest.skip(1) =~= seq![]);
    assert(skip_breaks(rest) =~= seq![]) by {
        reveal_with_fuel(skip_breaks, 2);
    }
    assert(after_block(whole, mark, stop) =~= seq![]);
}

/// What a block at the end of a text stands behind.
spec fn stands_behind(existing: Seq<char>, mark: Seq<char>, stop: Seq<char>) -> Seq<char> {
    if has_block(existing, mark, stop) {
        trim_end(existing.take(first_at(existing, mark)))
    } else if trim(existing).len() > 0 {
        trim_end(existing)
    } else {
        seq![]
    }
}

proof fn lemma_put_at_end(existing: Seq<char>, block: Seq<char>, mark: Seq<char>, stop: Seq<char>)
    requires
        is_block(block, mark, stop),
        first_at(existing, mark) == existing.len() || (has_block(existing, mark, stop)
            && after_block(existing, mark, stop).len() == 0),
    ensures
        upserted(existing, block, mark, stop) == between(
            stands_behind(existing, mark, stop),
            block,
            seq![],
        ),
        stands_behind(existing, mark, stop).len() == 0 || !is_white_space(
            stands_behind(existing, mark, stop).last(),
        ),
        forall|j: int| 0 <= j ==> !occurs_at(stands_behind(existing, mark, stop), mark, j),
{
    reveal_strlit("\n");
    let body = block.drop_last();
    assert(block =~= body + "\n"@);
    assert(body.last() == stop.last()) by {
        let at = body.len() - stop.len();
        assert(body.subrange(at, at + stop.len()).last() == stop.last());
    }
    lemma_trim_breaks(body);
    lemma_none_before(existing, mark);
    let held = has_block(existing, mark, stop);
    let part = if held {
        existing.take(first_at(existing, mark))
    } else {
        existing
    };
    let before = stands_behind(existing, mark, stop);
    lemma_trim_end_last(part);
    lemma_trim_is_prefix(part);
    assert forall|j: int| 0 <= j implies !occurs_at(before, mark, j) by {
        if occurs_at(before, mark, j) {
            assert(before.subrange(j, j + mark.len()) =~= existing.subrange(j, j + mark.len()));
            assert(occurs_at(existing, mark, j));
        }
    }
    if held {
        assert(after_block(existing, mark, stop) =~= seq![]);
    } else if trim(existing).len() == 0 {
        assert(between(before, block, seq![]) =~= block);
    } else {
        lemma_trim_nonempty(existing);
        assert(between(before, block, seq![]) =~= with_block(existing, block));
    }
}

/// A block that is put into a text after another stands in its place: the text is as if the other
/// had never been there, unless it held a first mark without a second after it, or something
/// follows the block.
pub proof fn later_blocks_take_the_place(
    existing: Seq<char>,
    one: Seq<char>,
    other: Seq<char>,
    mark: Seq<char>,
    stop: Seq<char>,
)
    requires
        is_block(one, mark, stop),
        is_block(other, mark, stop),
        first_at(existing, mark) == existing.len() || (has_block(existing, mark, stop)
            && after_block(existing, mark, stop).len() == 0),
    ensures
        upserted(upserted(existing, one, mark, stop), other, mark, stop) == upserted(
            existing,
            other,
            mark,
            stop,
        ),
{
    lemma_put_at_end(existing, one, mark, stop);
    lemma_put_at_end(existing, other, mark, stop);
    lemma_settled(stands_behind(existing, mark, stop), one, other, mark, stop);
}

/// Putting the same block into a text again changes nothing, unless the text holds a first mark
/// without a second after it, or something follows the block.
pub proof fn blocks_settle(
    existing: Seq<char>,
    block: Seq<char>,
    mark: Seq<char>,
    stop: Seq<char>,
)
    requires
        is_block(block, mark, stop),
        first_at(existing, mark) == existing.len() || (has_block(existing, mark, stop)
            && after_block(existing, mark, stop).len() == 0),
    ensures
        upserted(upserted(existing, block, mark, stop), block, mark, stop) == upserted(
            existing,
            block,
            mark,
            stop,
        ),
{
    later_blocks_take_the_place(existing, block, block, mark, stop);
}

proof fn lemma_trim_is_prefix(s: Seq<char>)
    ensures
        trim_end(s).len() <= s.len(),
        trim_end(s) == s.take(trim_end(s).len() as int),
    decreases s.len(),
{
    if s.len() > 0 && is_white_space(s.last()) {
        lemma_trim_is_prefix(s.drop_last());
        assert(s.drop_last().take(trim_end(s).len() as int) =~= s.take(trim_end(s).len() as int));
    } else {
        assert(s.take(s.len() as int) =~= s);
    }
}

proof fn lemma_trim_nonempty(s: Seq<char>)
    requires
        trim(s).len() > 0,
    ensures
        trim_end(s).len() > 0,
{
    if trim_end(s).len() == 0 {
        lemma_all_white(s);
    }
}

proof fn lemma_all_white(s: Seq<char>)
    requires
        trim_end(s).len() == 0,
    ensures
        crate::text::trim_start(s).len() == 0,
        trim(s).len() == 0,
    decreases s.len(),
{
    lemma_white_everywhere(s);
    lemma_start_of_white(s);
}

proof fn lemma_white_everywhere(s: Seq<char>)
    requires
        trim_end(s).len() == 0,
    ensures
        forall|i: int| 0 <= i < s.len() ==> is_white_space(#[trigger] s[i]),
    decreases s.len(),
{
    if s.len() > 0 {
        assert(is_white_space(s.last()));
        lemma_white_everywhere(s.drop_last());
        assert forall|i: int| 0 <= i < s.len() implies is_white_space(#[trigger] s[i]) by {
            if i < s.len() - 1 {
                assert(s.drop_last()[i] == s[i]);
            }
        }
    }
}

proof fn lemma_start_of_white(s: Seq<char>)
    requires
        forall|i: int| 0 <= i < s.len() ==> is_white_space(#[trigger] s[i]),
    ensures
        crate::text::trim_start(s).len() == 0,
    decreases s.len(),
{
    if s.len() > 0 {
        assert(is_white_space(s[0]));
        let t = s.skip(1);
        assert forall|i: int| 0 <= i < t.len() implies is_white_space(#[trigger] t[i]) by {
            assert(t[i] == s[i + 1]);
        }
        lemma_start_of_white(t);
    }
}

/// A path with the home directory in place of a tilde at its start.
pub open spec fn at_home(path: Seq<char>, home: Option<Seq<char>>) -> Result<Seq<char>, Seq<char>> {
    if has_prefix(path, "~/"@) {
        match home {
            Some(h) => Ok(
                crate::paths::joined_path(h, path.skip("~/"@.len() as int)),
            ),
            None => Err("HOME not set in environment"@),
        }
    } else {
        Ok(path)
    }
}

pub fn expand_home(path: &str, home: &Option<String>) -> (r: Result<String, String>)
    ensures
        match (r, at_home(path@, crate::text::opt_text(*home))) {
            (Ok(p), Ok(q)) => p@ == q,
            (Err(m), Err(n)) => m@ == n,
            _ => false,
        },
{
    match crate::text::strip_prefix(path, "~/") {
        Some(rest) => match home {
            Some(h) => Ok(crate::paths::join_path(h.as_str(), rest.as_str())),
            None => Err("HOME not set in environment".to_owned()),
        },
        None => Ok(path.to_owned()),
    }
}

} // verus!
