//! Places in the source text of an opening.

use crate::text::{chars_of, find_from, occurs_at};
use vstd::prelude::*;

verus! {

#[derive(Clone, Copy, Debug, PartialEq, Eq, Structural)]
pub struct SourceLocation {
    pub line: usize,
    pub column: usize,
}

impl SourceLocation {
    pub fn new(line: usize, column: usize) -> (r: Self)
        ensures
            r.line == line,
            r.column == column,
    {
        SourceLocation { line, column }
    }
}

/// How many bytes UTF-8 takes for `c`.
pub open spec fn char_width(c: char) -> nat {
    let n = c as u32;
    if n < 0x80 {
        1
    } else if n < 0x800 {
        2
    } else if n < 0x10000 {
        3
    } else {
        4
    }
}

/// How many bytes UTF-8 takes for `s`.
pub open spec fn byte_width(s: Seq<char>) -> nat
    decreases s.len(),
{
    if s.len() == 0 {
        0
    } else {
        byte_width(s.drop_last()) + char_width(s.last())
    }
}

/// Where `needle` first stands in `hay` from position `from` on.
pub open spec fn first_at(hay: Seq<char>, needle: Seq<char>, from: int) -> Option<int>
    decreases hay.len() - from + 1,
{
    if from < 0 || from + needle.len() > hay.len() {
        None
    } else if occurs_at(hay, needle, from) {
        Some(from)
    } else {
        first_at(hay, needle, from + 1)
    }
}

pub proof fn lemma_first_at(hay: Seq<char>, needle: Seq<char>, from: int, found: Option<int>)
    requires
        0 <= from,
        match found {
            Some(i) => from <= i && occurs_at(hay, needle, i) && forall|j: int|
                from <= j < i ==> !occurs_at(hay, needle, j),
            None => forall|j: int| from <= j ==> !occurs_at(hay, needle, j),
        },
    ensures
        first_at(hay, needle, from) == found,
    decreases hay.len() - from + 1,
{
    if from + needle.len() <= hay.len() && !occurs_at(hay, needle, from) {
        lemma_first_at(hay, needle, from + 1, found);
    }
}

/// The count after `n`; counts stop at the largest word.
pub open spec fn bump(n: int) -> int {
    if n < usize::MAX {
        n + 1
    } else {
        n
    }
}

/// The line and the column, counted from one, that follow `read`.
pub open spec fn place_after(read: Seq<char>) -> (int, int)
    decreases read.len(),
{
    if read.len() == 0 {
        (1, 1)
    } else {
        let (line, column) = place_after(read.drop_last());
        if read.last() == '\n' {
            (bump(line), 1)
        } else {
            (line, bump(column))
        }
    }
}

/// The place of `pattern` in `source`: as many characters on as bytes precede the first
/// occurrence; the start where there is none.
pub open spec fn place_of(source: Seq<char>, pattern: Seq<char>) -> (int, int) {
    match first_at(source, pattern, 0) {
        Some(i) => {
            let n = byte_width(source.take(i));
            place_after(
                if n < source.len() {
                    source.take(n as int)
                } else {
                    source
                },
            )
        },
        None => (1, 1),
    }
}

pub open spec fn place_of_key(source: Seq<char>, key: Seq<char>) -> (int, int) {
    place_of(source, key + ":"@)
}

impl SourceLocation {
    pub open spec fn at(self) -> (int, int) {
        (self.line as int, self.column as int)
    }
}

fn width(c: char) -> (n: u128)
    ensures
        n == char_width(c),
{
    let k: u32 = c as u32;
    if k < 0x80 {
        1
    } else if k < 0x800 {
        2
    } else if k < 0x10000 {
        3
    } else {
        4
    }
}

pub fn locate_pattern(source: &str, pattern: &str) -> (r: SourceLocation)
    ensures
        r.at() == place_of(source@, pattern@),
{
    let text = chars_of(source);
    let wanted = chars_of(pattern);
    let found = find_from(&text, &wanted, 0);
    let index = match found {
        Some(i) => {
            proof {
                lemma_first_at(source@, pattern@, 0, Some(i as int));
            }
            i
        },
        None => {
            proof {
                lemma_first_at(source@, pattern@, 0, None);
            }
            return SourceLocation::new(1, 1);
        },
    };
    let mut bytes: u128 = 0;
    let mut k: usize = 0;
    while k < index
        invariant
            k <= index <= text.len(),
            text@ == source@,
            bytes == byte_width(source@.take(k as int)),
            bytes <= 4 * k,
        decreases index - k,
    {
        assert(source@.take(k + 1).drop_last() =~= source@.take(k as int));
        bytes = bytes + width(text[k]);
        k += 1;
    }
    let end: usize = if bytes < text.len() as u128 {
        bytes as usize
    } else {
        text.len()
    };
    let mut line: usize = 1;
    let mut column: usize = 1;
    let mut j: usize = 0;
    while j < end
        invariant
            j <= end <= text.len(),
            text@ == source@,
            (line as int, column as int) == place_after(source@.take(j as int)),
        decreases end - j,
    {
        assert(source@.take(j + 1).drop_last() =~= source@.take(j as int));
        if text[j] == '\n' {
            if line < usize::MAX {
                line += 1;
            }
            column = 1;
        } else if column < usize::MAX {
            column += 1;
        }
        j += 1;
    }
    assert(source@.take(source@.len() as int) =~= source@);
    SourceLocation::new(line, column)
}

pub fn locate_key(source: &str, key: &str) -> (r: SourceLocation)
    ensures
        r.at() == place_of_key(source@, key@),
{
    let mut pattern = key.to_owned();
    pattern.append(":");
    locate_pattern(source, pattern.as_str())
}

/// A place counts from one.
pub proof fn lemma_place_positive(read: Seq<char>)
    ensures
        place_after(read).0 >= 1,
        place_after(read).1 >= 1,
    decreases read.len(),
{
    if read.len() > 0 {
        lemma_place_positive(read.drop_last());
    }
}

} // verus!
