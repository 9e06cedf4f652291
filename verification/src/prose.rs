//! Text as words and as bytes.

use crate::text::{chars_of, is_white_space, join, joined, split_words, string_range, texts, words};
use vstd::prelude::*;

verus! {

/// A word: something, and no white space in it.
pub open spec fn is_word(w: Seq<char>) -> bool {
    w.len() > 0 && forall|i: int| 0 <= i < w.len() ==> !is_white_space(#[trigger] w[i])
}

pub open spec fn all_words(s: Seq<Seq<char>>) -> bool {
    forall|i: int| 0 <= i < s.len() ==> is_word(#[trigger] s[i])
}

proof fn lemma_words_are_words(s: Seq<char>)
    ensures
        all_words(words(s)),
        s.len() > 0 && !is_white_space(s.last()) ==> words(s).len() > 0,
    decreases s.len(),
{
    if s.len() > 0 {
        let p = s.drop_last();
        lemma_words_are_words(p);
        let c = s.last();
        if !is_white_space(c) {
            if p.len() == 0 || is_white_space(p.last()) {
                assert(is_word(seq![c]));
            } else {
                let w = words(p).last();
                assert(is_word(w));
                assert(is_word(w.push(c)));
                assert forall|i: int| 0 <= i < words(s).len() implies is_word(
                    #[trigger] words(s)[i],
                ) by {
                    if i < words(s).len() - 1 {
                        assert(words(s)[i] == words(p)[i]);
                    }
                }
            }
        }
    }
}

proof fn lemma_words_add(s: Seq<char>, w: Seq<char>)
    requires
        s.len() == 0 || is_white_space(s.last()),
        is_word(w),
    ensures
        words(s + w) == words(s).push(w),
    decreases w.len(),
{
    let t = s + w;
    let v = w.drop_last();
    let c = w.last();
    assert(t.drop_last() =~= s + v);
    assert(t.last() == c);
    assert(!is_white_space(c));
    if v.len() == 0 {
        assert(s + v =~= s);
        assert(seq![c] =~= w);
    } else {
        assert(is_word(v)) by {
            assert forall|i: int| 0 <= i < v.len() implies !is_white_space(#[trigger] v[i]) by {
                assert(v[i] == w[i]);
            }
        }
        lemma_words_add(s, v);
        assert((s + v).last() == v.last());
        assert(v.last() == w[w.len() - 2]);
        assert(words(s + v).drop_last() =~= words(s));
        assert(v.push(c) =~= w);
    }
}

proof fn lemma_words_join(ws: Seq<Seq<char>>)
    requires
        all_words(ws),
    ensures
        words(join(ws, " "@)) == ws,
    decreases ws.len(),
{
    reveal_strlit(" ");
    if ws.len() == 0 {
        assert(words(join(ws, " "@)) =~= ws);
    } else if ws.len() == 1 {
        lemma_words_add(seq![], ws[0]);
        assert(Seq::<char>::empty() + ws[0] =~= ws[0]);
        assert(words(ws[0]) =~= ws);
    } else {
        let p = ws.drop_last();
        assert forall|i: int| 0 <= i < p.len() implies is_word(#[trigger] p[i]) by {
            assert(p[i] == ws[i]);
        }
        lemma_words_join(p);
        let a = join(p, " "@);
        let b = a + " "@;
        assert(b.drop_last() =~= a);
        assert(is_white_space(b.last()));
        assert(words(b) == words(a));
        lemma_words_add(b, ws.last());
        assert(words(join(ws, " "@)) =~= ws);
    }
}

/// The first words of a text, a space between each two.
pub open spec fn first_words(s: Seq<char>, limit: nat) -> Seq<char> {
    if words(s).len() <= limit {
        join(words(s), " "@)
    } else {
        join(words(s).take(limit as int), " "@)
    }
}

pub fn trim_to_words(body: &str, limit: usize) -> (r: String)
    ensures
        r@ == first_words(body@, limit as nat),
        words(r@).len() <= limit,
{
    let all = split_words(body);
    proof {
        first_words_are_kept(body@, limit as nat);
    }
    if all.len() <= limit {
        assert(texts(all@).len() == all@.len());
        return joined(&all, " ");
    }
    let mut kept: Vec<String> = Vec::new();
    let mut i: usize = 0;
    assert(texts(kept@) =~= words(body@).take(0));
    while i < limit
        invariant
            i <= limit < all.len(),
            texts(all@) == words(body@),
            texts(kept@) == words(body@).take(i as int),
        decreases limit - i,
    {
        let ghost o = kept@;
        assert(texts(all@).len() == all@.len());
        assert(texts(all@)[i as int] == all@[i as int]@);
        kept.push(all[i].clone());
        assert(texts(kept@) =~= texts(o).push(all@[i as int]@));
        assert(words(body@).take(i + 1) =~= words(body@).take(i as int).push(words(body@)[i as int]));
        i += 1;
    }
    assert(texts(all@).len() == all@.len());
    joined(&kept, " ")
}

/// Cutting a text down to its first words leaves just those words, and no more than allowed.
pub proof fn first_words_are_kept(s: Seq<char>, limit: nat)
    ensures
        words(s).len() <= limit ==> words(first_words(s, limit)) == words(s),
        words(s).len() > limit ==> words(first_words(s, limit)) == words(s).take(limit as int),
{
    lemma_words_are_words(s);
    if words(s).len() <= limit {
        lemma_words_join(words(s));
    } else {
        let t = words(s).take(limit as int);
        assert forall|i: int| 0 <= i < t.len() implies is_word(#[trigger] t[i]) by {
            assert(t[i] == words(s)[i]);
        }
        lemma_words_join(t);
    }
}

/// How many bytes a character takes in UTF-8.
pub open spec fn width(c: char) -> nat {
    let n = c as u32;
    if n < 0x80 {
        1
    } else if n < 0x800 {
        2
    } else if n < 0x10000 {
        3
    } else {
        4
    }
}

fn char_width(c: char) -> (r: usize)
    ensures
        r == width(c),
        1 <= r <= 4,
{
    let n: u32 = c as u32;
    if n < 0x80 {
        1
    } else if n < 0x800 {
        2
    } else if n < 0x10000 {
        3
    } else {
        4
    }
}

/// How many bytes a text takes in UTF-8.
pub open spec fn byte_len(s: Seq<char>) -> nat
    decreases s.len(),
{
    if s.len() == 0 {
        0
    } else {
        byte_len(s.drop_last()) + width(s.last())
    }
}

/// How many characters fill the first `b` bytes, if a character ends there.
pub open spec fn char_at_byte(s: Seq<char>, b: int) -> Option<int>
    decreases s.len(),
{
    if b == byte_len(s) {
        Some(s.len() as int)
    } else if s.len() == 0 || b > byte_len(s) {
        None
    } else {
        char_at_byte(s.drop_last(), b)
    }
}

pub proof fn lemma_byte_len_bound(s: Seq<char>)
    ensures
        byte_len(s) <= 4 * s.len(),
        s.len() <= byte_len(s),
    decreases s.len(),
{
    if s.len() > 0 {
        lemma_byte_len_bound(s.drop_last());
    }
}

pub proof fn lemma_char_at_byte(s: Seq<char>, b: int)
    ensures
        match char_at_byte(s, b) {
            Some(k) => 0 <= k <= s.len() && byte_len(s.take(k)) == b,
            None => true,
        },
    decreases s.len(),
{
    if b == byte_len(s) {
        assert(s.take(s.len() as int) =~= s);
    } else if s.len() > 0 && b <= byte_len(s) {
        lemma_char_at_byte(s.drop_last(), b);
        match char_at_byte(s, b) {
            Some(k) => {
                assert(s.drop_last().take(k) =~= s.take(k));
            },
            None => {},
        }
    }
}

proof fn lemma_byte_len_grows(s: Seq<char>, i: int, j: int)
    requires
        0 <= i <= j <= s.len(),
    ensures
        byte_len(s.take(i)) + (j - i) <= byte_len(s.take(j)),
    decreases j - i,
{
    if i < j {
        lemma_byte_len_grows(s, i, j - 1);
        assert(s.take(j).drop_last() =~= s.take(j - 1));
        assert(width(s.take(j).last()) >= 1);
    }
}

pub proof fn lemma_char_at_byte_order(s: Seq<char>, b: int, d: int)
    requires
        b <= d,
        char_at_byte(s, b) is Some,
        char_at_byte(s, d) is Some,
    ensures
        char_at_byte(s, b)->0 <= char_at_byte(s, d)->0,
{
    lemma_char_at_byte(s, b);
    lemma_char_at_byte(s, d);
    let i = char_at_byte(s, b)->0;
    let j = char_at_byte(s, d)->0;
    if j < i {
        lemma_byte_len_grows(s, j, i);
    }
}

/// How many bytes the first `n` characters take.
pub fn bytes_before(v: &Vec<char>, n: usize) -> (r: u128)
    requires
        n <= v.len(),
    ensures
        r == byte_len(v@.take(n as int)),
        r <= 4 * n,
{
    let mut total: u128 = 0;
    let mut i: usize = 0;
    assert(byte_len(v@.take(0)) == 0);
    while i < n
        invariant
            i <= n <= v.len(),
            total == byte_len(v@.take(i as int)),
            total <= 4 * i,
        decreases n - i,
    {
        assert(v@.take(i + 1).drop_last() =~= v@.take(i as int));
        total = total + char_width(v[i]) as u128;
        i += 1;
    }
    total
}

/// How many characters fill the first `b` bytes, if a character ends there.
pub fn chars_before(v: &Vec<char>, b: u128) -> (r: Option<usize>)
    ensures
        match r {
            Some(k) => char_at_byte(v@, b as int) == Some(k as int) && k <= v.len(),
            None => char_at_byte(v@, b as int) is None,
        },
{
    let mut n: usize = v.len();
    let mut total: u128 = bytes_before(v, n);
    assert(v@.take(n as int) =~= v@);
    loop
        invariant
            n <= v.len(),
            total == byte_len(v@.take(n as int)),
            char_at_byte(v@, b as int) == char_at_byte(v@.take(n as int), b as int),
        decreases n,
    {
        if b == total {
            return Some(n);
        }
        if n == 0 || b > total {
            return None;
        }
        assert(v@.take(n as int).drop_last() =~= v@.take(n - 1));
        total = total - char_width(v[n - 1]) as u128;
        n -= 1;
    }
}

/// The text in bytes that are UTF-8.
pub open spec fn text_in_bytes(bytes: Seq<u8>) -> Result<Seq<char>, Seq<char>> {
    if vstd::utf8::valid_utf8(bytes) {
        Ok(vstd::utf8::decode_utf8(bytes))
    } else {
        Err(utf8_complaint(bytes))
    }
}

/// What `String::from_utf8` says of bytes that are not UTF-8.
pub uninterp spec fn utf8_complaint(bytes: Seq<u8>) -> Seq<char>;

/// `String::from_utf8`. The claim is that it succeeds just on UTF-8, with the text that the bytes
/// encode, and that its complaint is settled by the bytes.
#[verifier::external_body]
pub(crate) fn read_text(bytes: Vec<u8>) -> (r: Result<String, String>)
    ensures
        match r {
            Ok(s) => vstd::utf8::valid_utf8(bytes@) && s@ == vstd::utf8::decode_utf8(bytes@),
            Err(m) => !vstd::utf8::valid_utf8(bytes@) && m@ == utf8_complaint(bytes@),
        },
{
    String::from_utf8(bytes).map_err(|e| e.to_string())
}

/// The text that `String::from_utf8_lossy` makes of bytes.
pub uninterp spec fn lossy_text(bytes: Seq<u8>) -> Seq<char>;

/// `String::from_utf8_lossy`. The claim is that the result is settled by the bytes.
#[verifier::external_body]
pub(crate) fn read_lossy(bytes: &Vec<u8>) -> (r: String)
    ensures
        r@ == lossy_text(bytes@),
{
    String::from_utf8_lossy(bytes).into_owned()
}

/// The text that `str::to_lowercase` makes of a text.
pub uninterp spec fn small_letters(text: Seq<char>) -> Seq<char>;

/// `str::to_lowercase`. The claim is that the result is settled by the text.
#[verifier::external_body]
pub(crate) fn to_small_letters(text: &str) -> (r: String)
    ensures
        r@ == small_letters(text@),
{
    text.to_lowercase()
}

/// The first `n` characters.
pub open spec fn first_chars(s: Seq<char>, n: nat) -> Seq<char> {
    if s.len() <= n {
        s
    } else {
        s.take(n as int)
    }
}

pub fn chars_upto(s: &str, n: usize) -> (r: String)
    ensures
        r@ == first_chars(s@, n as nat),
{
    let v = chars_of(s);
    let hi: usize = if v.len() < n {
        v.len()
    } else {
        n
    };
    assert(v@.subrange(0, hi as int) =~= first_chars(s@, n as nat));
    string_range(&v, 0, hi)
}

/// `s` without the `c`s at its start.
pub open spec fn trim_start_of(s: Seq<char>, c: char) -> Seq<char>
    decreases s.len(),
{
    if s.len() > 0 && s[0] == c {
        trim_start_of(s.skip(1), c)
    } else {
        s
    }
}

pub fn trimmed_start_of(s: &str, c: char) -> (r: String)
    ensures
        r@ == trim_start_of(s@, c),
{
    let v = chars_of(s);
    let mut i: usize = 0;
    assert(s@.skip(0) =~= s@);
    while i < v.len() && v[i] == c
        invariant
            i <= v.len(),
            v@ == s@,
            trim_start_of(s@, c) == trim_start_of(s@.skip(i as int), c),
        decreases v.len() - i,
    {
        assert(s@.skip(i as int).skip(1) =~= s@.skip(i + 1));
        i += 1;
    }
    assert(s@.skip(i as int) =~= v@.subrange(i as int, v@.len() as int));
    string_range(&v, i, v.len())
}

/// Each word with a capital first letter, a space between each two.
pub open spec fn capitalized(s: Seq<char>) -> Seq<char> {
    join(words(s).map_values(|w: Seq<char>| capital_word(w)), " "@)
}

pub open spec fn capital_word(w: Seq<char>) -> Seq<char> {
    if w.len() == 0 {
        w
    } else {
        seq![crate::text::upper_char(w[0])] + w.skip(1)
    }
}

fn capitalize(w: &str) -> (r: String)
    ensures
        r@ == capital_word(w@),
{
    let v = chars_of(w);
    let mut out = String::new();
    if v.len() == 0 {
        return out;
    }
    out.push(crate::text::ascii_upper_char(v[0]));
    let rest = string_range(&v, 1, v.len());
    out.append(rest.as_str());
    assert(out@ =~= capital_word(w@));
    out
}

pub fn capitalize_words(input: &str) -> (r: String)
    ensures
        r@ == capitalized(input@),
{
    let all = split_words(input);
    let ghost want = words(input@).map_values(|w: Seq<char>| capital_word(w));
    let mut out: Vec<String> = Vec::new();
    let mut i: usize = 0;
    assert(texts(all@).len() == all@.len());
    assert(texts(out@) =~= want.take(0));
    while i < all.len()
        invariant
            i <= all.len(),
            texts(all@) == words(input@),
            words(input@).len() == all@.len(),
            want == words(input@).map_values(|w: Seq<char>| capital_word(w)),
            texts(out@) == want.take(i as int),
        decreases all.len() - i,
    {
        let ghost o = out@;
        assert(texts(all@)[i as int] == all@[i as int]@);
        let w = capitalize(all[i].as_str());
        out.push(w);
        assert(texts(out@) =~= texts(o).push(w@));
        assert(want.take(i + 1) =~= want.take(i as int).push(want[i as int]));
        i += 1;
    }
    assert(want.take(want.len() as int) =~= want);
    joined(&out, " ")
}

} // verus!
