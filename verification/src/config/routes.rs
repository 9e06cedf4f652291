//! Routes from models to providers, and the order in which they are tried.

use crate::text::{before, chars_of, copy_opt, has_char, opt_text, same, text_lt};
use crate::text::{lemma_text_lt_irreflexive, lemma_text_lt_total, lemma_text_lt_transitive};
use vstd::prelude::*;

verus! {

#[derive(Debug)]
pub struct ModelRoute {
    pub pattern: String,
    pub provider: String,
    pub target_model: Option<String>,
}

pub ghost struct RouteModel {
    pub pattern: Seq<char>,
    pub provider: Seq<char>,
    pub target_model: Option<Seq<char>>,
}

impl ModelRoute {
    pub open spec fn view(self) -> RouteModel {
        RouteModel {
            pattern: self.pattern@,
            provider: self.provider@,
            target_model: opt_text(self.target_model),
        }
    }
}

impl Clone for ModelRoute {
    fn clone(&self) -> (r: Self)
        ensures
            r@ == self@,
    {
        ModelRoute {
            pattern: self.pattern.clone(),
            provider: self.provider.clone(),
            target_model: copy_opt(&self.target_model),
        }
    }
}

pub open spec fn route_models(s: Seq<ModelRoute>) -> Seq<RouteModel> {
    s.map_values(|r: ModelRoute| r@)
}

/// Routes as they are written: a list, an object from patterns to providers, or not at all.
#[derive(Debug)]
pub enum RouteRepr {
    List(Vec<ModelRoute>),
    Pairs(Vec<(String, String)>),
    Missing,
}

/// How many characters of a pattern are no stars.
pub open spec fn specificity(s: Seq<char>) -> nat
    decreases s.len(),
{
    if s.len() == 0 {
        0
    } else {
        specificity(s.drop_last()) + if s.last() != '*' {
            1nat
        } else {
            0nat
        }
    }
}

/// Whether a pattern is tried before another: one for all models last, one with a star behind
/// those without, the more specific first, and then in the order of the texts.
pub open spec fn tried_before(a: Seq<char>, b: Seq<char>) -> bool {
    let (x, y) = (a == "*"@, b == "*"@);
    let (p, q) = (has_char(a, '*'), has_char(b, '*'));
    let (m, n) = (specificity(a), specificity(b));
    if x != y {
        y
    } else if p != q {
        q
    } else if m != n {
        m > n
    } else {
        text_lt(a, b)
    }
}

fn count_specific(s: &str) -> (n: usize)
    ensures
        n == specificity(s@),
{
    let v = chars_of(s);
    let mut n: usize = 0;
    let mut i: usize = 0;
    while i < v.len()
        invariant
            i <= v.len(),
            n <= i,
            n == specificity(v@.take(i as int)),
        decreases v.len() - i,
    {
        assert(v@.take(i + 1).drop_last() =~= v@.take(i as int));
        if v[i] != '*' {
            n += 1;
        }
        i += 1;
    }
    assert(v@.take(v@.len() as int) =~= s@);
    n
}

pub fn precedes(a: &str, b: &str) -> (r: bool)
    ensures
        r == tried_before(a@, b@),
{
    let x = same(a, "*");
    let y = same(b, "*");
    if x != y {
        return y;
    }
    let p = crate::text::contains_char(a, '*');
    let q = crate::text::contains_char(b, '*');
    if p != q {
        return q;
    }
    let m = count_specific(a);
    let n = count_specific(b);
    if m != n {
        return m > n;
    }
    before(a, b)
}

/// Two patterns are tried one before the other, or are the same; never both.
pub proof fn trial_order_is_total(a: Seq<char>, b: Seq<char>)
    ensures
        tried_before(a, b) || tried_before(b, a) || a == b,
        !(tried_before(a, b) && tried_before(b, a)),
        !tried_before(a, a),
{
    lemma_text_lt_total(a, b);
    lemma_text_lt_irreflexive(a);
    if text_lt(a, b) && text_lt(b, a) {
        lemma_text_lt_transitive(a, b, a);
    }
}

/// Trying goes on: what is tried before something is tried before all that follows it.
pub proof fn trial_order_is_transitive(a: Seq<char>, b: Seq<char>, c: Seq<char>)
    requires
        tried_before(a, b),
        tried_before(b, c),
    ensures
        tried_before(a, c),
{
    if text_lt(a, b) && text_lt(b, c) {
        lemma_text_lt_transitive(a, b, c);
    }
}

pub type PairModel = (Seq<char>, Seq<char>);

pub open spec fn pair_models(s: Seq<(String, String)>) -> Seq<PairModel> {
    s.map_values(|p: (String, String)| (p.0@, p.1@))
}

/// A pair put behind all that are tried no later.
pub open spec fn placed(s: Seq<PairModel>, p: PairModel) -> Seq<PairModel>
    decreases s.len(),
{
    if s.len() > 0 && tried_before(p.0, s.last().0) {
        placed(s.drop_last(), p).push(s.last())
    } else {
        s.push(p)
    }
}

/// Pairs in the order in which they are tried; what is equal keeps its order.
pub open spec fn in_trial_order(s: Seq<PairModel>) -> Seq<PairModel>
    decreases s.len(),
{
    if s.len() == 0 {
        s
    } else {
        placed(in_trial_order(s.drop_last()), s.last())
    }
}

pub open spec fn trial_ordered(s: Seq<PairModel>) -> bool {
    forall|i: int, j: int|
        0 <= i < j < s.len() ==> !tried_before(#[trigger] s[j].0, #[trigger] s[i].0)
}

proof fn lemma_placed(s: Seq<PairModel>, p: PairModel)
    requires
        trial_ordered(s),
    ensures
        trial_ordered(placed(s, p)),
        placed(s, p).to_multiset() == s.to_multiset().insert(p),
        forall|k: int| 0 <= k < placed(s, p).len() ==> #[trigger] placed(s, p)[k] == p || s.contains(
            placed(s, p)[k],
        ),
    decreases s.len(),
{
    broadcast use vstd::seq_lib::group_to_multiset_ensures;

    let r = placed(s, p);
    if s.len() > 0 && tried_before(p.0, s.last().0) {
        let t = s.drop_last();
        assert(trial_ordered(t)) by {
            assert forall|i: int, j: int| 0 <= i < j < t.len() implies !tried_before(
                #[trigger] t[j].0,
                #[trigger] t[i].0,
            ) by {
                assert(t[i] == s[i] && t[j] == s[j]);
            }
        }
        lemma_placed(t, p);
        let q = placed(t, p);
        assert(r =~= q.push(s.last()));
        assert(s =~= t.push(s.last()));
        assert(r.to_multiset() =~= s.to_multiset().insert(p));
        assert forall|i: int, j: int| 0 <= i < j < r.len() implies !tried_before(
            #[trigger] r[j].0,
            #[trigger] r[i].0,
        ) by {
            assert(r[i] == q[i]);
            if j < q.len() {
                assert(r[j] == q[j]);
            } else {
                if q[i] == p {
                    trial_order_is_total(p.0, s.last().0);
                } else {
                    let w = choose|w: int| 0 <= w < t.len() && t[w] == q[i];
                    assert(t[w] == s[w]);
                    assert(!tried_before(s[s.len() - 1].0, s[w].0));
                }
            }
        }
        assert forall|k: int| 0 <= k < r.len() implies #[trigger] r[k] == p || s.contains(r[k]) by {
            if k < q.len() {
                assert(r[k] == q[k]);
                if q[k] != p {
                    let w = choose|w: int| 0 <= w < t.len() && t[w] == q[k];
                    assert(s[w] == q[k]);
                }
            } else {
                assert(s[s.len() - 1] == r[k]);
            }
        }
    } else {
        assert(r =~= s.push(p));
        assert forall|i: int, j: int| 0 <= i < j < r.len() implies !tried_before(
            #[trigger] r[j].0,
            #[trigger] r[i].0,
        ) by {
            assert(r[i] == s[i]);
            if j < s.len() {
                assert(r[j] == s[j]);
            } else if i < s.len() - 1 {
                if tried_before(p.0, s[i].0) {
                    // the last of `s` is not tried after `p`, nor before an earlier one
                    let l = s.last().0;
                    assert(!tried_before(s[s.len() - 1].0, s[i].0));
                    trial_order_is_total(p.0, l);
                    trial_order_is_total(l, s[i].0);
                    if tried_before(l, p.0) {
                        trial_order_is_transitive(l, p.0, s[i].0);
                    }
                }
            }
        }
        assert forall|k: int| 0 <= k < r.len() implies #[trigger] r[k] == p || s.contains(r[k]) by {
            if k < s.len() {
                assert(s[k] == r[k]);
            }
        }
    }
}

/// Routes are tried in their order, and none is lost or made up.
pub proof fn trial_order_keeps_the_routes(s: Seq<PairModel>)
    ensures
        trial_ordered(in_trial_order(s)),
        in_trial_order(s).to_multiset() == s.to_multiset(),
        in_trial_order(s).len() == s.len(),
    decreases s.len(),
{
    broadcast use vstd::seq_lib::group_to_multiset_ensures;

    if s.len() > 0 {
        let t = s.drop_last();
        trial_order_keeps_the_routes(t);
        lemma_placed(in_trial_order(t), s.last());
        assert(s =~= t.push(s.last()));
        assert(in_trial_order(s).to_multiset().len() == s.to_multiset().len());
    }
}

/// The routes of pairs: no model takes the place of the one that was asked for.
pub open spec fn routes_of_pairs(s: Seq<PairModel>) -> Seq<RouteModel> {
    s.map_values(
        |p: PairModel| RouteModel { pattern: p.0, provider: p.1, target_model: None },
    )
}

pub open spec fn default_routes() -> Seq<RouteModel> {
    seq![RouteModel { pattern: "*"@, provider: "local"@, target_model: None }]
}

pub open spec fn routes_of(repr: RouteRepr) -> Seq<RouteModel> {
    let found = match repr {
        RouteRepr::List(l) => route_models(l@),
        RouteRepr::Pairs(p) => routes_of_pairs(in_trial_order(pair_models(p@))),
        RouteRepr::Missing => default_routes(),
    };
    if found.len() == 0 {
        default_routes()
    } else {
        found
    }
}

pub fn default_route_vec() -> (r: Vec<ModelRoute>)
    ensures
        route_models(r@) == default_routes(),
{
    let mut r: Vec<ModelRoute> = Vec::new();
    r.push(
        ModelRoute { pattern: "*".to_owned(), provider: "local".to_owned(), target_model: None },
    );
    assert(route_models(r@) =~= default_routes());
    r
}

fn place_pair(s: &mut Vec<(String, String)>, p: (String, String))
    ensures
        pair_models(final(s)@) == placed(pair_models(old(s)@), (p.0@, p.1@)),
{
    let ghost m = pair_models(s@);
    let ghost q = (p.0@, p.1@);
    let mut k: usize = s.len();
    assert(m.take(k as int) =~= m);
    assert(placed(m.take(k as int), q) + m.skip(k as int) =~= placed(m, q));
    while k > 0 && precedes(p.0.as_str(), s[k - 1].0.as_str())
        invariant
            k <= s.len(),
            *s == *old(s),
            m == pair_models(s@),
            q == (p.0@, p.1@),
            placed(m, q) == placed(m.take(k as int), q) + m.skip(k as int),
        decreases k,
    {
        assert(m.take(k as int).drop_last() =~= m.take(k - 1));
        assert(m.take(k as int).last() == m[k - 1]);
        assert(m[k - 1] == (s@[k - 1].0@, s@[k - 1].1@));
        assert(placed(m.take(k - 1), q).push(m[k - 1]) + m.skip(k as int) =~= placed(
            m.take(k - 1),
            q,
        ) + m.skip(k - 1));
        k -= 1;
    }
    proof {
        if k > 0 {
            assert(m.take(k as int).last() == m[k - 1]);
            assert(m[k - 1] == (s@[k - 1].0@, s@[k - 1].1@));
        }
    }
    s.insert(k, p);
    assert(pair_models(s@) =~= m.take(k as int).push(q) + m.skip(k as int));
}

/// Puts the routes into their order, and the default where there is none.
pub fn route_list(repr: RouteRepr) -> (r: Vec<ModelRoute>)
    ensures
        route_models(r@) == routes_of(repr),
{
    let ghost whole = repr;
    let found = match repr {
        RouteRepr::List(l) => l,
        RouteRepr::Pairs(p) => {
            let ghost all = pair_models(p@);
            let mut rest = p;
            let mut done: Vec<(String, String)> = Vec::new();
            let ghost mut n: int = 0;
            assert(pair_models(done@) =~= in_trial_order(all.take(0)));
            assert(pair_models(rest@) =~= all.skip(0));
            while rest.len() > 0
                invariant
                    0 <= n <= all.len(),
                    rest@.len() == all.len() - n,
                    pair_models(rest@) == all.skip(n),
                    pair_models(done@) == in_trial_order(all.take(n)),
                decreases rest@.len(),
            {
                let ghost r0 = rest@;
                let x = rest.remove(0);
                proof {
                    assert(pair_models(r0)[0] == all.skip(n)[0]);
                    assert(all[n] == (x.0@, x.1@));
                    assert forall|k: int| 0 <= k < rest@.len() implies #[trigger] pair_models(
                        rest@,
                    )[k] == all.skip(n + 1)[k] by {
                        assert(pair_models(r0)[k + 1] == all.skip(n)[k + 1]);
                    }
                    assert(pair_models(rest@) =~= all.skip(n + 1));
                    assert(all.take(n + 1).drop_last() =~= all.take(n));
                }
                place_pair(&mut done, x);
                proof {
                    n = n + 1;
                }
            }
            assert(all.take(all.len() as int) =~= all);
            let mut out: Vec<ModelRoute> = Vec::new();
            let mut i: usize = 0;
            while i < done.len()
                invariant
                    i <= done.len(),
                    out@.len() == i,
                    forall|k: int|
                        0 <= k < i ==> (#[trigger] out@[k])@ == (RouteModel {
                            pattern: done@[k].0@,
                            provider: done@[k].1@,
                            target_model: None,
                        }),
                decreases done.len() - i,
            {
                out.push(
                    ModelRoute {
                        pattern: done[i].0.clone(),
                        provider: done[i].1.clone(),
                        target_model: None,
                    },
                );
                i += 1;
            }
            assert(route_models(out@) =~= routes_of_pairs(pair_models(done@)));
            out
        },
        RouteRepr::Missing => default_route_vec(),
    };
    if found.len() == 0 {
        default_route_vec()
    } else {
        found
    }
}

} // verus!
