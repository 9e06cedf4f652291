//! Directed graphs over numbered nodes.

use vstd::prelude::*;

verus! {

pub type Arcs = Seq<(int, int)>;

/// Whether every arc joins two of the nodes `0..n`.
pub open spec fn arcs_within(n: int, arcs: Arcs) -> bool {
    forall|k: int|
        0 <= k < arcs.len() ==> 0 <= (#[trigger] arcs[k]).0 < n && 0 <= arcs[k].1 < n
}

/// Whether `rank` grows along every arc.
pub open spec fn ranks(rank: spec_fn(int) -> int, arcs: Arcs) -> bool {
    forall|k: int|
        0 <= k < arcs.len() ==> rank((#[trigger] arcs[k]).0) < rank(arcs[k].1)
}

/// Whether the nodes can be laid out so that every arc points forward.
pub open spec fn acyclic(arcs: Arcs) -> bool {
    exists|rank: spec_fn(int) -> int| ranks(rank, arcs)
}

/// Whether `walk` goes along arcs and its last node leads back to its first.
pub open spec fn closed_walk(walk: Seq<int>, arcs: Arcs) -> bool {
    &&& walk.len() > 0
    &&& forall|i: int|
        0 <= i < walk.len() - 1 ==> arcs.contains((#[trigger] walk[i], walk[i + 1]))
    &&& arcs.contains((walk.last(), walk[0]))
}

proof fn lemma_walk_climbs(walk: Seq<int>, arcs: Arcs, rank: spec_fn(int) -> int, i: int)
    requires
        closed_walk(walk, arcs),
        ranks(rank, arcs),
        0 <= i < walk.len(),
    ensures
        rank(walk[0]) <= rank(walk[i]),
    decreases i,
{
    if i > 0 {
        lemma_walk_climbs(walk, arcs, rank, i - 1);
        assert(arcs.contains((walk[i - 1], walk[i - 1 + 1])));
        let k = choose|k: int| 0 <= k < arcs.len() && arcs[k] == (walk[i - 1], walk[i]);
        assert(rank(arcs[k].0) < rank(arcs[k].1));
    }
}

/// No closed walk goes along the arcs of an acyclic graph.
pub proof fn acyclic_has_no_closed_walk(walk: Seq<int>, arcs: Arcs)
    requires
        acyclic(arcs),
    ensures
        !closed_walk(walk, arcs),
{
    if closed_walk(walk, arcs) {
        let rank = choose|rank: spec_fn(int) -> int| ranks(rank, arcs);
        lemma_walk_climbs(walk, arcs, rank, walk.len() - 1);
        let k = choose|k: int| 0 <= k < arcs.len() && arcs[k] == (walk.last(), walk[0]);
        assert(rank(arcs[k].0) < rank(arcs[k].1));
    }
}

/// How many arcs lead to `v` from nodes that `order` does not hold.
pub open spec fn waiting(arcs: Arcs, v: int, order: Seq<int>) -> nat
    decreases arcs.len(),
{
    if arcs.len() == 0 {
        0
    } else {
        waiting(arcs.drop_last(), v, order) + if arcs.last().1 == v && !order.contains(
            arcs.last().0,
        ) {
            1nat
        } else {
            0nat
        }
    }
}

pub proof fn lemma_waiting_split(arcs: Arcs, k: int, v: int, order: Seq<int>)
    requires
        0 <= k < arcs.len(),
    ensures
        waiting(arcs.take(k + 1), v, order) == waiting(arcs.take(k), v, order) + (if arcs[k].1 == v
            && !order.contains(arcs[k].0) {
            1int
        } else {
            0int
        }),
{
    assert(arcs.take(k + 1).drop_last() =~= arcs.take(k));
    assert(arcs.take(k + 1).last() == arcs[k]);
}

pub proof fn lemma_waiting_none(arcs: Arcs, v: int, order: Seq<int>, k: int)
    requires
        waiting(arcs, v, order) == 0,
        0 <= k < arcs.len(),
        arcs[k].1 == v,
    ensures
        order.contains(arcs[k].0),
    decreases arcs.len(),
{
    if k < arcs.len() - 1 {
        lemma_waiting_none(arcs.drop_last(), v, order, k);
    }
}

pub proof fn lemma_waiting_some(arcs: Arcs, v: int, order: Seq<int>) -> (k: int)
    requires
        waiting(arcs, v, order) > 0,
    ensures
        0 <= k < arcs.len(),
        arcs[k].1 == v,
        !order.contains(arcs[k].0),
    decreases arcs.len(),
{
    if arcs.last().1 == v && !order.contains(arcs.last().0) {
        arcs.len() - 1
    } else {
        lemma_waiting_some(arcs.drop_last(), v, order)
    }
}

pub proof fn lemma_waiting_bound(arcs: Arcs, v: int, order: Seq<int>)
    ensures
        waiting(arcs, v, order) <= arcs.len(),
    decreases arcs.len(),
{
    if arcs.len() > 0 {
        lemma_waiting_bound(arcs.drop_last(), v, order);
    }
}

/// Putting `u` behind `order` frees the arcs that leave `u`.
pub proof fn lemma_waiting_push(arcs: Arcs, v: int, order: Seq<int>, u: int)
    requires
        !order.contains(u),
    ensures
        waiting(arcs, v, order.push(u)) == waiting(arcs, v, order) - leaving(arcs, u, v),
    decreases arcs.len(),
{
    if arcs.len() > 0 {
        lemma_waiting_push(arcs.drop_last(), v, order, u);
        let a = arcs.last().0;
        assert(order.push(u).contains(a) == (order.contains(a) || a == u)) by {
            assert(order.push(u).last() == u);
            if order.contains(a) {
                let i = choose|i: int| 0 <= i < order.len() && order[i] == a;
                assert(order.push(u)[i] == a);
            }
            if a == u {
                assert(order.push(u)[order.len() as int] == a);
            }
        }
    }
}

/// How many arcs lead from `u` to `v`.
pub open spec fn leaving(arcs: Arcs, u: int, v: int) -> nat
    decreases arcs.len(),
{
    if arcs.len() == 0 {
        0
    } else {
        leaving(arcs.drop_last(), u, v) + if arcs.last() == (u, v) {
            1nat
        } else {
            0nat
        }
    }
}

pub proof fn lemma_leaving_take(arcs: Arcs, k: int, u: int, v: int)
    requires
        0 <= k < arcs.len(),
    ensures
        leaving(arcs.take(k + 1), u, v) == leaving(arcs.take(k), u, v) + (if arcs[k] == (u, v) {
            1int
        } else {
            0int
        }),
{
    assert(arcs.take(k + 1).drop_last() =~= arcs.take(k));
}

pub proof fn lemma_leaving_mono(arcs: Arcs, k: int, u: int, v: int)
    requires
        0 <= k <= arcs.len(),
    ensures
        leaving(arcs.take(k), u, v) <= leaving(arcs, u, v),
    decreases arcs.len() - k,
{
    if k < arcs.len() {
        lemma_leaving_take(arcs, k, u, v);
        lemma_leaving_mono(arcs, k + 1, u, v);
    } else {
        assert(arcs.take(k) =~= arcs);
    }
}

/// The arcs as pairs of mathematical integers.
pub open spec fn arcs_model(arcs: Seq<(usize, usize)>) -> Arcs {
    arcs.map_values(|a: (usize, usize)| (a.0 as int, a.1 as int))
}

pub open spec fn ints(s: Seq<usize>) -> Seq<int> {
    s.map_values(|x: usize| x as int)
}

/// Whether an order of visited nodes puts the source of every arc before its target.
pub open spec fn laid_out(order: Seq<int>, arcs: Arcs) -> bool {
    forall|k: int, j: int|
        #![trigger arcs[k], order[j]]
        0 <= k < arcs.len() && 0 <= j < order.len() && order[j] == arcs[k].1 ==> exists|i: int|
            0 <= i < j && order[i] == arcs[k].0
}

proof fn lemma_full_order_ranks(n: int, arcs: Arcs, order: Seq<int>)
    requires
        arcs_within(n, arcs),
        order.no_duplicates(),
        forall|i: int| 0 <= i < order.len() ==> 0 <= #[trigger] order[i] < n,
        order.len() == n,
        laid_out(order, arcs),
    ensures
        acyclic(arcs),
{
    lemma_full_order_holds_all(n, order);
    let rank = |v: int| choose|i: int| 0 <= i < order.len() && order[i] == v;
    assert forall|k: int| 0 <= k < arcs.len() implies rank((#[trigger] arcs[k]).0) < rank(
        arcs[k].1,
    ) by {
        assert(order.contains(arcs[k].0) && order.contains(arcs[k].1));
        let b = rank(arcs[k].1);
        assert(order[b] == arcs[k].1);
        let a = choose|i: int| 0 <= i < b && order[i] == arcs[k].0;
        assert(rank(arcs[k].0) == a);
    }
    assert(ranks(rank, arcs));
}

proof fn lemma_full_order_holds_all(n: int, order: Seq<int>)
    requires
        order.no_duplicates(),
        forall|i: int| 0 <= i < order.len() ==> 0 <= #[trigger] order[i] < n,
        order.len() == n,
    ensures
        forall|v: int| 0 <= v < n ==> order.contains(v),
{
    let all = vstd::set_lib::set_int_range(0, n);
    vstd::set_lib::lemma_int_range(0, n);
    order.unique_seq_to_set();
    assert(order.to_set().subset_of(all));
    vstd::set_lib::lemma_subset_equality(order.to_set(), all);
    assert forall|v: int| 0 <= v < n implies order.contains(v) by {
        assert(all.contains(v));
        assert(order.to_set().contains(v));
    }
}

proof fn lemma_short_order(n: int, order: Seq<int>) -> (v: int)
    requires
        0 <= n,
        order.no_duplicates(),
        forall|i: int| 0 <= i < order.len() ==> 0 <= #[trigger] order[i] < n,
        order.len() != n,
    ensures
        0 <= v < n,
        !order.contains(v),
{
    let all = vstd::set_lib::set_int_range(0, n);
    vstd::set_lib::lemma_int_range(0, n);
    order.unique_seq_to_set();
    if forall|v: int| 0 <= v < n ==> order.contains(v) {
        assert(order.to_set() =~= all);
    }
    choose|v: int| 0 <= v < n && !order.contains(v)
}

/// Nodes that all wait for one another cannot be laid out.
proof fn lemma_stuck(
    n: int,
    arcs: Arcs,
    order: Seq<int>,
    v: int,
    rank: spec_fn(int) -> int,
    fuel: nat,
)
    requires
        arcs_within(n, arcs),
        0 <= v < n,
        !order.contains(v),
        forall|w: int|
            0 <= w < n && !#[trigger] order.contains(w) ==> waiting(arcs, w, order) > 0,
        forall|w: int| 0 <= w < n && !#[trigger] order.contains(w) ==> rank(w) >= rank(v) - fuel,
    ensures
        !ranks(rank, arcs),
    decreases fuel,
{
    let k = lemma_waiting_some(arcs, v, order);
    let u = arcs[k].0;
    if ranks(rank, arcs) {
        assert(rank(arcs[k].0) < rank(arcs[k].1));
        if fuel == 0 {
            assert(rank(u) >= rank(v));
        } else {
            lemma_stuck(n, arcs, order, u, rank, (fuel - 1) as nat);
        }
    }
}

/// The least rank of the nodes that `order` does not hold, seen from `v`.
proof fn lemma_rank_floor(n: int, order: Seq<int>, v: int, rank: spec_fn(int) -> int, m: int) -> (
    fuel: nat)
    requires
        0 <= m <= n,
    ensures
        forall|w: int| 0 <= w < m && !#[trigger] order.contains(w) ==> rank(w) >= rank(v) - fuel,
    decreases m,
{
    if m == 0 {
        0
    } else {
        let f = lemma_rank_floor(n, order, v, rank, m - 1);
        let d = rank(v) - rank(m - 1);
        let r: nat = if d > f {
            d as nat
        } else {
            f
        };
        assert forall|w: int| 0 <= w < m && !#[trigger] order.contains(w) implies rank(w) >= rank(v)
            - r by {
            if w < m - 1 {
                assert(rank(w) >= rank(v) - f);
            }
        }
        r
    }
}

proof fn lemma_leftover_is_cyclic(n: int, arcs: Arcs, order: Seq<int>)
    requires
        0 <= n,
        arcs_within(n, arcs),
        order.no_duplicates(),
        forall|i: int| 0 <= i < order.len() ==> 0 <= #[trigger] order[i] < n,
        order.len() != n,
        forall|w: int|
            0 <= w < n && !#[trigger] order.contains(w) ==> waiting(arcs, w, order) > 0,
    ensures
        !acyclic(arcs),
{
    if acyclic(arcs) {
        let rank = choose|rank: spec_fn(int) -> int| ranks(rank, arcs);
        let v = lemma_short_order(n, order);
        let fuel = lemma_rank_floor(n, order, v, rank, n);
        lemma_stuck(n, arcs, order, v, rank, fuel);
    }
}

/// What holds of the queue of nodes that wait for nothing.
spec fn queue_sound(n: int, arcs: Arcs, order: Seq<int>, queue: Seq<int>) -> bool {
    let all = order + queue;
    &&& all.no_duplicates()
    &&& forall|i: int| 0 <= i < all.len() ==> 0 <= #[trigger] all[i] < n
    &&& laid_out(order, arcs)
}

proof fn lemma_take_next(n: int, arcs: Arcs, order: Seq<int>, queue: Seq<int>)
    requires
        queue_sound(n, arcs, order, queue),
        queue.len() > 0,
        waiting(arcs, queue[0], order) == 0,
    ensures
        queue_sound(n, arcs, order.push(queue[0]), queue.skip(1)),
        !order.contains(queue[0]),
{
    let u = queue[0];
    let all = order + queue;
    let next = order.push(u);
    assert(next + queue.skip(1) =~= all);
    if order.contains(u) {
        let i = choose|i: int| 0 <= i < order.len() && order[i] == u;
        assert(all[i] == u && all[order.len() as int] == u);
    }
    assert forall|k: int, j: int|
        #![trigger arcs[k], next[j]]
        0 <= k < arcs.len() && 0 <= j < next.len() && next[j] == arcs[k].1 implies exists|i: int|
        0 <= i < j && next[i] == arcs[k].0 by {
        if j < order.len() {
            assert(order[j] == next[j]);
            let i = choose|i: int| 0 <= i < j && order[i] == arcs[k].0;
            assert(next[i] == arcs[k].0);
        } else {
            lemma_waiting_none(arcs, u, order, k);
            let i = choose|i: int| 0 <= i < order.len() && order[i] == arcs[k].0;
            assert(next[i] == arcs[k].0);
        }
    }
}

/// Whether the arcs over the nodes `0..n` can be laid out: nodes that wait for nothing are
/// visited, and each visit frees the nodes behind it.
pub fn is_acyclic(n: usize, arcs: &Vec<(usize, usize)>) -> (r: bool)
    requires
        arcs_within(n as int, arcs_model(arcs@)),
    ensures
        r == acyclic(arcs_model(arcs@)),
{
    let ghost model = arcs_model(arcs@);
    let ghost none: Seq<int> = seq![];
    let mut indegree: Vec<usize> = Vec::new();
    let mut i: usize = 0;
    while i < n
        invariant
            i <= n,
            indegree@.len() == i,
            forall|v: int| 0 <= v < i ==> indegree@[v] == 0,
        decreases n - i,
    {
        indegree.push(0);
        i += 1;
    }
    let mut k: usize = 0;
    while k < arcs.len()
        invariant
            k <= arcs.len(),
            model == arcs_model(arcs@),
            none == Seq::<int>::empty(),
            arcs_within(n as int, model),
            indegree@.len() == n,
            forall|v: int| 0 <= v < n ==> #[trigger] indegree@[v] == waiting(model.take(k as int), v, none),
        decreases arcs.len() - k,
    {
        let to = arcs[k].1;
        assert(model[k as int] == (arcs@[k as int].0 as int, to as int));
        proof {
            assert forall|v: int| 0 <= v < n implies #[trigger] waiting(model.take(k + 1), v, none)
                == waiting(model.take(k as int), v, none) + (if v == to {
                1int
            } else {
                0int
            }) by {
                lemma_waiting_split(model, k as int, v, none);
            }
            lemma_waiting_bound(model.take(k as int), to as int, none);
        }
        indegree.set(to, indegree[to] + 1);
        k += 1;
    }
    assert(model.take(model.len() as int) =~= model);
    let mut queue: Vec<usize> = Vec::new();
    let mut idx: usize = 0;
    while idx < n
        invariant
            idx <= n,
            indegree@.len() == n,
            forall|j: int| 0 <= j < queue@.len() ==> #[trigger] queue@[j] < idx,
            forall|a: int, b: int| 0 <= a < b < queue@.len() ==> queue@[a] < queue@[b],
            forall|v: int|
                0 <= v < idx ==> (ints(queue@).contains(v) <==> #[trigger] indegree@[v] == 0),
        decreases n - idx,
    {
        let ghost q = queue@;
        if indegree[idx] == 0 {
            queue.push(idx);
        }
        proof {
            assert forall|v: int| 0 <= v < idx + 1 implies (ints(queue@).contains(v)
                <==> #[trigger] indegree@[v] == 0) by {
                if v < idx {
                    if ints(q).contains(v) {
                        let j = choose|j: int| 0 <= j < ints(q).len() && ints(q)[j] == v;
                        assert(ints(queue@)[j] == v);
                    }
                    if ints(queue@).contains(v) {
                        let j = choose|j: int| 0 <= j < ints(queue@).len() && ints(queue@)[j] == v;
                        assert(queue@[j] == v);
                        assert(j < q.len());
                        assert(ints(q)[j] == v);
                    }
                } else {
                    if indegree@[v] == 0 {
                        assert(ints(queue@)[q.len() as int] == v);
                    } else if ints(queue@).contains(v) {
                        let j = choose|j: int| 0 <= j < ints(queue@).len() && ints(queue@)[j] == v;
                        assert(queue@[j] < idx);
                    }
                }
            }
        }
        idx += 1;
    }
    let mut head: usize = 0;
    proof {
        let q = ints(queue@);
        assert(ints(queue@).take(0) =~= none);
        assert(none + q.skip(0) =~= q);
    }
    while head < queue.len()
        invariant
            head <= queue.len(),
            indegree@.len() == n,
            model == arcs_model(arcs@),
            arcs_within(n as int, model),
            queue_sound(
                n as int,
                model,
                ints(queue@).take(head as int),
                ints(queue@).skip(head as int),
            ),
            forall|v: int|
                0 <= v < n ==> #[trigger] indegree@[v] == waiting(
                    model,
                    v,
                    ints(queue@).take(head as int),
                ),
            forall|v: int|
                0 <= v < n ==> (ints(queue@).contains(v) <==> #[trigger] indegree@[v] == 0),
        decreases n - head,
    {
        let ghost order = ints(queue@).take(head as int);
        let ghost rest = ints(queue@).skip(head as int);
        let u = queue[head];
        proof {
            assert(ints(queue@)[head as int] == u);
            assert(rest[0] == u);
            assert(0 <= (order + rest)[head as int] < n);
            assert(indegree@[u as int] == 0);
            lemma_take_next(n as int, model, order, rest);
            lemma_order_fits(n as int, order.push(u as int), rest.skip(1));
        }
        let ghost next = order.push(u as int);
        let ghost q0 = queue@;
        proof {
            assert(ints(queue@).take(head + 1) =~= next);
            assert(ints(queue@).skip(head + 1) =~= rest.skip(1));
        }
        head += 1;
        let mut k: usize = 0;
        while k < arcs.len()
            invariant
                k <= arcs.len(),
                0 < head <= queue.len(),
                u < n,
                indegree@.len() == n,
                model == arcs_model(arcs@),
                arcs_within(n as int, model),
                !order.contains(u as int),
                next == order.push(u as int),
                ints(queue@).take(head as int) == next,
                queue_sound(n as int, model, next, ints(queue@).skip(head as int)),
                forall|v: int|
                    0 <= v < n ==> #[trigger] indegree@[v] == waiting(model, v, order) - leaving(
                        model.take(k as int),
                        u as int,
                        v,
                    ),
                forall|v: int|
                    0 <= v < n ==> (ints(queue@).contains(v) <==> #[trigger] indegree@[v] == 0),
            decreases arcs.len() - k,
        {
            let from = arcs[k].0;
            let to = arcs[k].1;
            assert(model[k as int] == (from as int, to as int));
            let ghost before = queue@;
            let ghost deg = indegree@;
            proof {
                assert forall|v: int| 0 <= v < n implies #[trigger] leaving(
                    model.take(k + 1),
                    u as int,
                    v,
                ) == leaving(model.take(k as int), u as int, v) + (if from == u && to == v {
                    1int
                } else {
                    0int
                }) by {
                    lemma_leaving_take(model, k as int, u as int, v);
                }
            }
            if from == u {
                proof {
                    lemma_waiting_push(model, to as int, order, u as int);
                    lemma_leaving_mono(model, k + 1, u as int, to as int);
                    lemma_leaving_take(model, k as int, u as int, to as int);
                }
                assert(deg[to as int] > 0);
                assert(!ints(before).contains(to as int));
                indegree.set(to, indegree[to] - 1);
                if indegree[to] == 0 {
                    queue.push(to);
                    proof {
                        assert(ints(before) =~= next + ints(before).skip(head as int));
                        lemma_enqueue(
                            n as int,
                            model,
                            next,
                            ints(before).skip(head as int),
                            to as int,
                            ints(before),
                        );
                        assert(ints(queue@) =~= ints(before).push(to as int));
                        assert(ints(queue@).take(head as int) =~= ints(before).take(head as int));
                        assert(ints(queue@).skip(head as int) =~= ints(before).skip(
                            head as int,
                        ).push(to as int));
                    }
                }
                proof {
                    assert forall|v: int| 0 <= v < n implies (ints(queue@).contains(v)
                        <==> #[trigger] indegree@[v] == 0) by {
                        if v != to {
                            assert(indegree@[v] == deg[v]);
                        }
                        lemma_contains_push(ints(before), to as int, v);
                    }
                }
            }
            k += 1;
        }
        proof {
            assert(model.take(model.len() as int) =~= model);
            assert forall|v: int| 0 <= v < n implies #[trigger] indegree@[v] == waiting(
                model,
                v,
                next,
            ) by {
                lemma_waiting_push(model, v, order, u as int);
            }
            lemma_order_fits(n as int, next, ints(queue@).skip(head as int));
        }
    }
    proof {
        let order = ints(queue@);
        assert(order.take(head as int) =~= order);
        assert(order + order.skip(head as int) =~= order);
        if head == n {
            lemma_full_order_ranks(n as int, model, order);
        } else {
            assert forall|w: int| 0 <= w < n && !#[trigger] order.contains(w) implies waiting(
                model,
                w,
                order,
            ) > 0 by {
                assert(indegree@[w] != 0);
            }
            lemma_leftover_is_cyclic(n as int, model, order);
        }
    }
    head == n
}

proof fn lemma_order_fits(n: int, order: Seq<int>, rest: Seq<int>)
    requires
        0 <= n,
        (order + rest).no_duplicates(),
        forall|i: int| 0 <= i < (order + rest).len() ==> 0 <= #[trigger] (order + rest)[i] < n,
    ensures
        order.len() <= n,
{
    let all = vstd::set_lib::set_int_range(0, n);
    vstd::set_lib::lemma_int_range(0, n);
    assert(order.no_duplicates()) by {
        assert forall|i: int, j: int| 0 <= i < order.len() && 0 <= j < order.len() && i != j implies order[i]
            != order[j] by {
            assert((order + rest)[i] != (order + rest)[j]);
        }
    }
    order.unique_seq_to_set();
    assert forall|v: int| order.to_set().contains(v) implies all.contains(v) by {
        let i = choose|i: int| 0 <= i < order.len() && order[i] == v;
        assert((order + rest)[i] == v);
    }
    vstd::set_lib::lemma_len_subset(order.to_set(), all);
}

pub proof fn lemma_contains_push<A>(s: Seq<A>, x: A, v: A)
    ensures
        s.push(x).contains(v) == (s.contains(v) || v == x),
{
    assert(s.push(x)[s.len() as int] == x);
    if s.contains(v) {
        let i = choose|i: int| 0 <= i < s.len() && s[i] == v;
        assert(s.push(x)[i] == v);
    }
}

proof fn lemma_enqueue(n: int, arcs: Arcs, order: Seq<int>, queue: Seq<int>, v: int, all: Seq<int>)
    requires
        queue_sound(n, arcs, order, queue),
        0 <= v < n,
        all == order + queue,
        !all.contains(v),
    ensures
        queue_sound(n, arcs, order, queue.push(v)),
{
    assert(order + queue.push(v) =~= all.push(v));
    assert forall|i: int, j: int|
        0 <= i < all.push(v).len() && 0 <= j < all.push(v).len() && i != j implies all.push(v)[i]
        != all.push(v)[j] by {
        if i == all.len() {
            assert(all.contains(all[j]));
        } else if j == all.len() {
            assert(all.contains(all[i]));
        }
    }
}

} // verus!
