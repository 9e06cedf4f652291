//! What texts, paths and numbers promise.

use crate::digest::{hex_digit, hex_text};
use crate::json::{tree_bool, tree_signed, tree_unsigned, JsonModel, NumeralModel};
use crate::paths::{file_name, joined_path, last_start, parent, tail_trimmed};
use crate::prose::{first_chars, width};
use crate::text::{
    decimal, first_at, has_prefix, has_text, index_of, is_white_space, join, lemma_index_of,
    lemma_trim_end_last, lemma_trim_start_first, lower_char, occurs_at, replace_char, signed_decimal,
    split_on, split_once, text_lt, trim, trim_end, trim_start, upper_char,
};
use crate::ids::{trace_of, uuid_value};
use vstd::prelude::*;

verus! {

/// A path below a directory goes on where the directory ends, and one that begins at the root stands
/// for itself.
pub proof fn paths_go_on(base: Seq<char>, child: Seq<char>)
    ensures
        child.len() > 0 && child[0] == '/' ==> joined_path(base, child) == child,
        base.len() > 0 && base.last() != '/' && !(child.len() > 0 && child[0] == '/') ==> joined_path(base, child)
            == base.push('/') + child,
        base.len() > 0 && base.last() == '/' && !(child.len() > 0 && child[0] == '/') ==> joined_path(base, child)
            == base + child,
        base.len() == 0 ==> joined_path(base, child) == child,
{
    reveal_strlit("/");
    assert(base + "/"@ =~= base.push('/'));
    assert(Seq::<char>::empty() + child =~= child);
    if base.len() == 0 {
        assert(base + child =~= child);
    }
}

/// A name in a directory is the last part of its path, and the directory is what lies above it.
pub proof fn names_are_the_last_part(base: Seq<char>, name: Seq<char>)
    requires
        base.len() > 0,
        base.last() != '/',
        name.len() > 0,
        forall|i: int| 0 <= i < name.len() ==> #[trigger] name[i] != '/',
        name != seq!['.'],
        name != seq!['.', '.'],
    ensures
        file_name(joined_path(base, name)) == Some(name),
        parent(joined_path(base, name)) == Some(tail_trimmed(base.push('/'))),
{
    paths_go_on(base, name);
    let p = base.push('/');
    let t = p + name;
    assert(t.last() == name.last());
    assert(t.last() != '/');
    if name.len() == 1 {
        if name[0] == '.' {
            assert(name =~= seq!['.']);
        }
    } else {
        assert(t[t.len() - 2] == name[name.len() - 2]);
    }
    assert(tail_trimmed(t) == t);
    lemma_last_start(p, name);
    assert(last_start(p) == p.len());
    assert(t.skip(p.len() as int) =~= name);
    assert(t.take(p.len() as int) =~= p);
    assert(t.len() >= 3);
    assert(t != seq!['/']);
}

proof fn lemma_last_start(p: Seq<char>, name: Seq<char>)
    requires
        forall|i: int| 0 <= i < name.len() ==> #[trigger] name[i] != '/',
    ensures
        last_start(p + name) == last_start(p),
    decreases name.len(),
{
    if name.len() == 0 {
        assert(p + name =~= p);
    } else {
        let t = p + name;
        assert(t.last() == name[name.len() - 1]);
        assert(t.drop_last() =~= p + name.drop_last());
        assert forall|i: int| 0 <= i < name.drop_last().len() implies #[trigger] name.drop_last()[i] != '/' by {
            assert(name.drop_last()[i] == name[i]);
        }
        lemma_last_start(p, name.drop_last());
    }
}

proof fn lemma_join_front(a: Seq<char>, rest: Seq<Seq<char>>, sep: Seq<char>)
    requires
        rest.len() > 0,
    ensures
        join(seq![a] + rest, sep) == a + sep + join(rest, sep),
    decreases rest.len(),
{
    let all = seq![a] + rest;
    assert(all.last() == rest.last());
    assert(all.drop_last() =~= seq![a] + rest.drop_last());
    if rest.len() == 1 {
        assert(all.drop_last() =~= seq![a]);
        assert(join(seq![a], sep) == a);
    } else {
        lemma_join_front(a, rest.drop_last(), sep);
        assert(a + sep + join(rest.drop_last(), sep) + sep + rest.last() =~= a + sep + (join(
            rest.drop_last(),
            sep,
        ) + sep + rest.last()));
    }
}

proof fn lemma_first_at_is(s: Seq<char>, sep: Seq<char>)
    requires
        sep.len() > 0,
    ensures
        0 <= first_at(s, sep) <= s.len(),
        first_at(s, sep) + sep.len() <= s.len() ==> occurs_at(s, sep, first_at(s, sep)),
        forall|j: int| 0 <= j < first_at(s, sep) ==> !#[trigger] occurs_at(s, sep, j),
    decreases s.len(),
{
    if s.len() > 0 && !occurs_at(s, sep, 0) {
        let t = s.skip(1);
        lemma_first_at_is(t, sep);
        let i = first_at(t, sep);
        if i + sep.len() <= t.len() {
            assert(t.subrange(i, i + sep.len()) =~= s.subrange(i + 1, i + 1 + sep.len()));
        }
        assert forall|j: int| 0 <= j < first_at(s, sep) implies !#[trigger] occurs_at(s, sep, j) by {
            if j > 0 && occurs_at(s, sep, j) {
                assert(t.subrange(j - 1, j - 1 + sep.len()) =~= s.subrange(j, j + sep.len()));
                assert(occurs_at(t, sep, j - 1));
            }
        }
    }
}

/// The parts of a text, put together again with what parted them, are the text; a text without it is
/// its own only part.
pub proof fn parts_make_the_whole(s: Seq<char>, sep: Seq<char>)
    requires
        sep.len() > 0,
    ensures
        split_on(s, sep).len() > 0,
        join(split_on(s, sep), sep) == s,
        !has_text(s, sep) ==> split_on(s, sep) == seq![s],
    decreases s.len(),
{
    let i = first_at(s, sep);
    lemma_first_at_is(s, sep);
    if i + sep.len() <= s.len() {
        let rest = s.skip(i + sep.len());
        parts_make_the_whole(rest, sep);
        lemma_join_front(s.take(i), split_on(rest, sep), sep);
        assert(s.subrange(i, i + sep.len()) == sep);
        assert(s.take(i) + s.subrange(i, i + sep.len()) + rest =~= s);
        assert(occurs_at(s, sep, i));
    }
}

/// A text is parted at the first such character, which neither part holds before it.
pub proof fn texts_are_parted_once(s: Seq<char>, c: char)
    ensures
        split_once(s, c) matches Some((a, b)) ==> s == a.push(c) + b && forall|i: int|
            0 <= i < a.len() ==> #[trigger] a[i] != c,
        split_once(s, c) is None <==> forall|i: int| 0 <= i < s.len() ==> #[trigger] s[i] != c,
{
    lemma_index_of(s, c);
    let i = index_of(s, c);
    if i < s.len() {
        assert(s =~= s.take(i).push(c) + s.skip(i + 1));
        assert(s[i] == c);
    }
}

/// Only white space is trimmed, and all of it at both ends.
pub proof fn only_space_is_trimmed(s: Seq<char>)
    ensures
        exists|i: int, j: int|
            0 <= i <= j <= s.len() && #[trigger] s.subrange(i, j) == trim(s) && (forall|k: int|
                0 <= k < i ==> is_white_space(#[trigger] s[k])) && (forall|k: int|
                j <= k < s.len() ==> is_white_space(#[trigger] s[k])),
        trim(s).len() > 0 ==> !is_white_space(trim(s)[0]) && !is_white_space(trim(s).last()),
{
    let t = trim_start(s);
    lemma_trim_start_first(s);
    lemma_start_is_space(s);
    lemma_trim_end_last(t);
    lemma_end_is_space(t);
    let i = s.len() - t.len();
    let j = i + trim(s).len();
    assert(s.subrange(i, j) =~= t.take(trim(s).len() as int));
    assert forall|k: int| j <= k < s.len() implies is_white_space(#[trigger] s[k]) by {
        assert(t[k - i] == s[k]);
    }
    if trim(s).len() > 0 {
        assert(trim(s)[0] == t[0]);
    }
}

proof fn lemma_start_is_space(s: Seq<char>)
    ensures
        trim_start(s).len() <= s.len(),
        forall|k: int| 0 <= k < s.len() - trim_start(s).len() ==> is_white_space(#[trigger] s[k]),
    decreases s.len(),
{
    if s.len() > 0 && is_white_space(s[0]) {
        let t = s.skip(1);
        lemma_start_is_space(t);
        assert forall|k: int| 0 <= k < s.len() - trim_start(s).len() implies is_white_space(#[trigger] s[k]) by {
            if k > 0 {
                assert(t[k - 1] == s[k]);
            }
        }
    }
}

proof fn lemma_end_is_space(s: Seq<char>)
    ensures
        trim_end(s).len() <= s.len(),
        forall|k: int| trim_end(s).len() <= k < s.len() ==> is_white_space(#[trigger] s[k]),
    decreases s.len(),
{
    if s.len() > 0 && is_white_space(s.last()) {
        let t = s.drop_last();
        lemma_end_is_space(t);
        assert forall|k: int| trim_end(s).len() <= k < s.len() implies is_white_space(#[trigger] s[k]) by {
            if k < s.len() - 1 {
                assert(t[k] == s[k]);
            }
        }
    }
}

/// The number that digits write.
pub open spec fn written(s: Seq<char>) -> int
    decreases s.len(),
{
    if s.len() == 0 {
        0
    } else {
        10 * written(s.drop_last()) + (s.last() as int - '0' as int)
    }
}

/// A number's digits write that number, without a zero before them.
pub proof fn digits_write_their_number(n: nat)
    ensures
        written(decimal(n)) == n,
        decimal(n).len() > 0,
        n > 0 ==> decimal(n)[0] != '0',
        signed_decimal(n as int) == decimal(n),
        n > 0 ==> signed_decimal(-(n as int)) == seq!['-'] + decimal(n),
    decreases n,
{
    let s = decimal(n);
    if n < 10 {
        assert(s.drop_last() =~= Seq::<char>::empty());
        assert(written(s.drop_last()) == 0);
    } else {
        digits_write_their_number(n / 10);
        assert(s.drop_last() =~= decimal(n / 10));
    }
}

/// A byte is written as two digits, the higher one first.
pub proof fn bytes_are_two_digits(b: Seq<u8>, x: u8)
    ensures
        hex_text(b.push(x)) == hex_text(b).push(hex_digit((x / 16) as u8)).push(hex_digit((x % 16) as u8)),
        hex_text(b).len() == 2 * b.len(),
        forall|n: u8| n < 10 ==> (#[trigger] hex_digit(n)) as int == '0' as int + n,
        forall|n: u8| 10 <= n < 16 ==> (#[trigger] hex_digit(n)) as int == 'a' as int + n - 10,
    decreases b.len(),
{
    assert(b.push(x).drop_last() =~= b);
    if b.len() > 0 {
        bytes_are_two_digits(b.drop_last(), b.last());
        assert(b.drop_last().push(b.last()) =~= b);
    }
}

/// Texts are ordered by their first difference; one that the other goes on from comes first.
pub proof fn texts_are_ordered_by_their_first_difference(p: Seq<char>, a: Seq<char>, b: Seq<char>)
    ensures
        text_lt(p + a, p + b) == text_lt(a, b),
        a.len() > 0 && b.len() > 0 && a[0] < b[0] ==> text_lt(a, b) && !text_lt(b, a),
        a.len() == 0 ==> text_lt(a, b) == (b.len() > 0),
        b.len() == 0 ==> !text_lt(a, b),
    decreases p.len(),
{
    if p.len() == 0 {
        assert(p + a =~= a);
        assert(p + b =~= b);
    } else {
        assert((p + a).skip(1) =~= p.skip(1) + a);
        assert((p + b).skip(1) =~= p.skip(1) + b);
        texts_are_ordered_by_their_first_difference(p.skip(1), a, b);
    }
}

/// Letters have two cases, and nothing else is changed by either.
pub proof fn letters_have_two_cases(c: char)
    ensures
        'A' <= c <= 'Z' ==> lower_char(c) as int == c as int + 32 && upper_char(c) == c,
        'a' <= c <= 'z' ==> upper_char(c) as int == c as int - 32 && lower_char(c) == c,
        !('A' <= c <= 'Z') && !('a' <= c <= 'z') ==> lower_char(c) == c && upper_char(c) == c,
        lower_char(upper_char(c)) == lower_char(c),
{
}

/// Each such character is replaced, and no other.
pub proof fn characters_are_replaced(s: Seq<char>, c: char, d: char, by: Seq<char>)
    ensures
        replace_char(s.push(c), c, by) == replace_char(s, c, by) + by,
        d != c ==> replace_char(s.push(d), c, by) == replace_char(s, c, by).push(d),
        replace_char(Seq::<char>::empty(), c, by).len() == 0,
{
    assert(s.push(c).drop_last() =~= s);
    assert(s.push(d).drop_last() =~= s);
}

/// A text is cut after so many characters, and only where it has more.
pub proof fn texts_are_cut(s: Seq<char>, n: nat)
    ensures
        s.len() <= n ==> first_chars(s, n) == s,
        s.len() > n ==> first_chars(s, n).len() == n && first_chars(s, n) == s.take(n as int),
        width('a') == 1,
{
}

/// A value is read as what it is, and as nothing else; a number is signed where it has room.
pub proof fn values_are_read_by_kind(b: bool, n: u64, m: i64, t: Seq<char>)
    ensures
        tree_bool(Some(JsonModel::Bool(b))) == Some(b),
        tree_bool(Some(JsonModel::Text(t))) is None && tree_bool(None) is None,
        tree_unsigned(Some(JsonModel::Number(NumeralModel::Unsigned(n)))) == Some(n),
        tree_unsigned(Some(JsonModel::Number(NumeralModel::Negative(m)))) is None,
        tree_unsigned(Some(JsonModel::Text(t))) is None && tree_unsigned(None) is None,
        tree_signed(Some(JsonModel::Number(NumeralModel::Negative(m)))) == Some(m),
        n <= i64::MAX ==> tree_signed(Some(JsonModel::Number(NumeralModel::Unsigned(n)))) == Some(n as i64),
        n > i64::MAX ==> tree_signed(Some(JsonModel::Number(NumeralModel::Unsigned(n)))) is None,
{
}

/// A trace is read with its prefix and without, and with space around it.
pub proof fn traces_are_read_with_or_without_prefix(t: Seq<char>)
    ensures
        trim("trace:"@ + t) == "trace:"@ + t ==> trace_of("trace:"@ + t) == uuid_value(t),
        trim(t) == t && !has_prefix(t, "trace:"@) ==> trace_of(t) == uuid_value(t),
        trace_of(trim(t)) == trace_of(t),
{
    let p = "trace:"@ + t;
    assert(p.take("trace:"@.len() as int) =~= "trace:"@);
    assert(p.skip("trace:"@.len() as int) =~= t);
    crate::text::trim_is_idempotent(t);
}

} // verus!
