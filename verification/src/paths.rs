//! Paths as text, their parts parted by `/`.

use crate::text::{
    chars_of, concat, concat3, contains_char, has_char, same, split_on, split_text, string_range, texts,
};
use vstd::prelude::*;

verus! {

/// A path without the slashes and dots at its end that change nothing.
pub open spec fn tail_trimmed(p: Seq<char>) -> Seq<char>
    decreases p.len(),
{
    if p.len() >= 2 && (p.last() == '/' || (p.last() == '.' && p[p.len() - 2] == '/')) {
        tail_trimmed(p.drop_last())
    } else {
        p
    }
}

/// Where the last part of a path starts.
pub open spec fn last_start(p: Seq<char>) -> int
    decreases p.len(),
{
    if p.len() == 0 {
        0
    } else if p.last() == '/' {
        p.len() as int
    } else {
        last_start(p.drop_last())
    }
}

/// The last part of a path, if it names something.
pub open spec fn file_name(p: Seq<char>) -> Option<Seq<char>> {
    let t = tail_trimmed(p);
    let name = t.skip(last_start(t));
    if name.len() == 0 || name == seq!['.'] || name == seq!['.', '.'] {
        None
    } else {
        Some(name)
    }
}

/// A path without its last part; a root has none before it.
pub open spec fn parent(p: Seq<char>) -> Option<Seq<char>> {
    let t = tail_trimmed(p);
    if t.len() == 0 || t == seq!['/'] {
        None
    } else {
        Some(tail_trimmed(t.take(last_start(t))))
    }
}

/// A path below another; one that starts at the root stands for itself.
pub open spec fn joined_path(base: Seq<char>, child: Seq<char>) -> Seq<char> {
    if child.len() > 0 && child[0] == '/' {
        child
    } else if base.len() == 0 || base.last() == '/' {
        base + child
    } else {
        base + "/"@ + child
    }
}

fn trimmed_len(v: &Vec<char>, to: usize) -> (n: usize)
    requires
        to <= v.len(),
    ensures
        n <= to,
        tail_trimmed(v@.take(to as int)) == v@.take(n as int),
{
    let mut n: usize = to;
    while n >= 2 && (v[n - 1] == '/' || (v[n - 1] == '.' && v[n - 2] == '/'))
        invariant
            n <= to <= v.len(),
            tail_trimmed(v@.take(to as int)) == tail_trimmed(v@.take(n as int)),
        decreases n,
    {
        assert(v@.take(n as int).drop_last() =~= v@.take(n - 1));
        n -= 1;
    }
    n
}

fn start_of_last(v: &Vec<char>, to: usize) -> (n: usize)
    requires
        to <= v.len(),
    ensures
        n <= to,
        last_start(v@.take(to as int)) == n,
{
    let mut n: usize = to;
    while n > 0 && v[n - 1] != '/'
        invariant
            n <= to <= v.len(),
            last_start(v@.take(to as int)) == last_start(v@.take(n as int)),
        decreases n,
    {
        assert(v@.take(n as int).drop_last() =~= v@.take(n - 1));
        n -= 1;
    }
    n
}

pub fn file_name_of(p: &str) -> (r: Option<String>)
    ensures
        match r {
            Some(s) => file_name(p@) == Some(s@),
            None => file_name(p@) is None,
        },
{
    let v = chars_of(p);
    assert(v@.take(v@.len() as int) =~= p@);
    let n = trimmed_len(&v, v.len());
    let k = start_of_last(&v, n);
    let ghost t = v@.take(n as int);
    let ghost name = t.skip(k as int);
    assert(name =~= v@.subrange(k as int, n as int));
    if k == n {
        return None;
    }
    if n - k == 1 && v[k] == '.' {
        assert(name =~= seq!['.']);
        return None;
    }
    if n - k == 2 && v[k] == '.' && v[k + 1] == '.' {
        assert(name =~= seq!['.', '.']);
        return None;
    }
    assert(name != seq!['.']) by {
        if name == seq!['.'] {
            assert(name[0] == v@[k as int]);
        }
    }
    assert(name != seq!['.', '.']) by {
        if name == seq!['.', '.'] {
            assert(name[0] == v@[k as int] && name[1] == v@[k + 1]);
        }
    }
    Some(string_range(&v, k, n))
}

pub fn parent_of(p: &str) -> (r: Option<String>)
    ensures
        match r {
            Some(s) => parent(p@) == Some(s@),
            None => parent(p@) is None,
        },
{
    let v = chars_of(p);
    assert(v@.take(v@.len() as int) =~= p@);
    let n = trimmed_len(&v, v.len());
    let ghost t = v@.take(n as int);
    if n == 0 {
        return None;
    }
    if n == 1 && v[0] == '/' {
        assert(t =~= seq!['/']);
        return None;
    }
    assert(t != seq!['/']) by {
        if t == seq!['/'] {
            assert(t.len() == 1 && t[0] == '/');
            assert(t[0] == v@[0]);
        }
    }
    let k = start_of_last(&v, n);
    assert(t.take(k as int) =~= v@.take(k as int));
    let m = trimmed_len(&v, k);
    assert(v@.take(m as int) =~= v@.subrange(0, m as int));
    Some(string_range(&v, 0, m))
}

pub fn join_path(base: &str, child: &str) -> (r: String)
    ensures
        r@ == joined_path(base@, child@),
{
    let c = chars_of(child);
    if c.len() > 0 && c[0] == '/' {
        return child.to_owned();
    }
    let b = chars_of(base);
    if b.len() == 0 || b[b.len() - 1] == '/' {
        concat(base, child)
    } else {
        concat3(base, "/", child)
    }
}

/// The parts of a path that say something: no empty part, and a dot only at the start.
pub open spec fn parts_upto(segs: Seq<Seq<char>>, n: int) -> Seq<Seq<char>>
    decreases n,
{
    if n <= 0 || n > segs.len() {
        seq![]
    } else {
        let rest = parts_upto(segs, n - 1);
        let s = segs[n - 1];
        if s.len() == 0 || (s == seq!['.'] && n > 1) {
            rest
        } else {
            rest.push(s)
        }
    }
}

pub open spec fn parts(p: Seq<char>) -> Seq<Seq<char>> {
    let segs = split_on(p, "/"@);
    parts_upto(segs, segs.len() as int)
}

pub open spec fn is_rooted(p: Seq<char>) -> bool {
    p.len() > 0 && p[0] == '/'
}

/// Whether two texts name the same path.
pub open spec fn same_place(a: Seq<char>, b: Seq<char>) -> bool {
    is_rooted(a) == is_rooted(b) && parts(a) == parts(b)
}

fn path_parts(p: &str) -> (r: Vec<String>)
    ensures
        texts(r@) == parts(p@),
{
    proof {
        reveal_strlit("/");
        reveal_strlit(".");
        assert("."@ =~= seq!['.']);
    }
    let segs = split_text(p, "/");
    let ghost all = texts(segs@);
    let mut out: Vec<String> = Vec::new();
    let mut i: usize = 0;
    assert(texts(out@) =~= parts_upto(all, 0));
    while i < segs.len()
        invariant
            i <= segs.len(),
            all == texts(segs@),
            "."@ == seq!['.'],
            texts(out@) == parts_upto(all, i as int),
        decreases segs.len() - i,
    {
        assert(all[i as int] == segs@[i as int]@);
        let ghost o = out@;
        let skip = segs[i].as_str().is_empty() || (i > 0 && same(segs[i].as_str(), "."));
        if !skip {
            out.push(segs[i].clone());
            assert(texts(out@) =~= texts(o).push(all[i as int]));
        }
        i += 1;
    }
    out
}

pub fn same_path(a: &str, b: &str) -> (r: bool)
    ensures
        r == same_place(a@, b@),
{
    let x = chars_of(a);
    let y = chars_of(b);
    let rooted_a = x.len() > 0 && x[0] == '/';
    let rooted_b = y.len() > 0 && y[0] == '/';
    if rooted_a != rooted_b {
        return false;
    }
    let p = path_parts(a);
    let q = path_parts(b);
    same_texts(&p, &q)
}

fn same_texts(a: &Vec<String>, b: &Vec<String>) -> (r: bool)
    ensures
        r == (texts(a@) == texts(b@)),
{
    let ghost x = texts(a@);
    let ghost y = texts(b@);
    if a.len() != b.len() {
        assert(x.len() != y.len());
        return false;
    }
    let mut i: usize = 0;
    while i < a.len()
        invariant
            i <= a.len(),
            a.len() == b.len(),
            x == texts(a@),
            y == texts(b@),
            forall|k: int| 0 <= k < i ==> (#[trigger] x[k]) == y[k],
        decreases a.len() - i,
    {
        if !same(a[i].as_str(), b[i].as_str()) {
            assert(x[i as int] != y[i as int]);
            return false;
        }
        i += 1;
    }
    assert(x =~= y);
    true
}

/// Whether the last part of a path has an extension: a dot in it that is not its first character.
pub open spec fn has_extension(p: Seq<char>) -> bool {
    match file_name(p) {
        Some(n) => has_char(n.skip(1), '.'),
        None => false,
    }
}

pub fn extended(p: &str) -> (r: bool)
    ensures
        r == has_extension(p@),
{
    match file_name_of(p) {
        Some(n) => {
            let v = chars_of(n.as_str());
            let rest = string_range(&v, 1, v.len());
            assert(rest@ =~= n@.skip(1));
            contains_char(rest.as_str(), '.')
        },
        None => false,
    }
}

/// A path without an extension, with one; a path that names nothing stays as it is.
pub open spec fn with_extension(p: Seq<char>, ext: Seq<char>) -> Seq<char> {
    if file_name(p) is Some {
        tail_trimmed(p) + "."@ + ext
    } else {
        p
    }
}

pub fn extend(p: &str, ext: &str) -> (r: String)
    ensures
        r@ == with_extension(p@, ext@),
{
    if file_name_of(p).is_none() {
        return p.to_owned();
    }
    let v = chars_of(p);
    assert(v@.take(v@.len() as int) =~= p@);
    let n = trimmed_len(&v, v.len());
    assert(v@.take(n as int) =~= v@.subrange(0, n as int));
    let base = string_range(&v, 0, n);
    concat3(base.as_str(), ".", ext)
}

/// A path and those above it, up to the root.
pub open spec fn ancestors(p: Seq<char>) -> Seq<Seq<char>>
    decreases p.len(),
{
    match parent(p) {
        Some(q) => if q.len() < p.len() {
            seq![p] + ancestors(q)
        } else {
            seq![p]
        },
        None => seq![p],
    }
}

pub fn path_ancestors(p: &str) -> (r: Vec<String>)
    ensures
        texts(r@) == ancestors(p@),
{
    let mut out: Vec<String> = Vec::new();
    let mut here = p.to_owned();
    assert(texts(out@) + ancestors(here@) =~= ancestors(p@));
    loop
        invariant
            texts(out@) + ancestors(here@) == ancestors(p@),
        decreases here@.len(),
    {
        let ghost o = out@;
        let above = parent_of(here.as_str());
        let ghost h = here@;
        out.push(here.clone());
        assert(texts(out@) =~= texts(o).push(h));
        match above {
            Some(q) => {
                if q.as_str().unicode_len() < here.as_str().unicode_len() {
                    assert(texts(out@) + ancestors(q@) =~= texts(o) + ancestors(h));
                    here = q;
                } else {
                    assert(texts(out@) =~= texts(o) + ancestors(h));
                    return out;
                }
            },
            None => {
                assert(texts(out@) =~= texts(o) + ancestors(h));
                return out;
            },
        }
    }
}

} // verus!
