use vstd::prelude::*;

verus! {

broadcast use vstd::seq_lib::group_seq_properties;

/// The number of edges into `v` whose source is not yet `done`.
pub open spec fn pending_in(edges: Seq<(usize, usize)>, done: Seq<bool>, v: int) -> nat
    decreases edges.len(),
{
    if edges.len() == 0 {
        0
    } else {
        let e = edges.last();
        pending_in(edges.drop_last(), done, v) + if e.1 == v && !done[e.0 as int] { 1nat } else { 0nat }
    }
}

/// The number of edges from `u` to `v`.
pub open spec fn pair_count(edges: Seq<(usize, usize)>, u: int, v: int) -> nat
    decreases edges.len(),
{
    if edges.len() == 0 {
        0
    } else {
        let e = edges.last();
        pair_count(edges.drop_last(), u, v) + if e.0 == u && e.1 == v { 1nat } else { 0nat }
    }
}

/// A ranking of the nodes under which every edge goes from a lower to a higher rank;
/// one exists exactly when the graph has no cycle.
pub open spec fn respects(edges: Seq<(usize, usize)>, rank: spec_fn(int) -> int) -> bool {
    forall|k: int| 0 <= k < edges.len() ==> rank((#[trigger] edges[k]).0 as int) < rank(edges[k].1 as int)
}

pub open spec fn has_ranking(edges: Seq<(usize, usize)>) -> bool {
    exists|rank: spec_fn(int) -> int| #[trigger] respects(edges, rank)
}

/// `order` lists every edge's source before its target.
pub open spec fn orders_edges(order: Seq<usize>, edges: Seq<(usize, usize)>) -> bool {
    forall|k: int, j: int| 0 <= k < edges.len() && 0 <= j < order.len() && (#[trigger] edges[k]).1 == #[trigger] order[j]
        ==> exists|i: int| 0 <= i < j && order[i] == edges[k].0
}

proof fn lemma_pending_mark(edges: Seq<(usize, usize)>, done: Seq<bool>, u: int, v: int)
    requires
        0 <= u < done.len(),
        !done[u],
        forall|k: int| 0 <= k < edges.len() ==> ((#[trigger] edges[k]).0 as int) < done.len(),
    ensures
        pending_in(edges, done, v) == pending_in(edges, done.update(u, true), v) + pair_count(edges, u, v),
    decreases edges.len(),
{
    if edges.len() > 0 {
        assert forall|k: int| 0 <= k < edges.drop_last().len() implies ((#[trigger] edges.drop_last()[k]).0 as int) < done.len() by {
            assert(edges.drop_last()[k] == edges[k]);
        }
        lemma_pending_mark(edges.drop_last(), done, u, v);
        assert(edges.last() == edges[edges.len() - 1]);
    }
}

proof fn lemma_pending_zero(edges: Seq<(usize, usize)>, done: Seq<bool>, v: int)
    requires
        pending_in(edges, done, v) == 0,
    ensures
        forall|k: int| 0 <= k < edges.len() && (#[trigger] edges[k]).1 == v ==> done[edges[k].0 as int],
    decreases edges.len(),
{
    if edges.len() > 0 {
        lemma_pending_zero(edges.drop_last(), done, v);
        assert forall|k: int| 0 <= k < edges.len() && (#[trigger] edges[k]).1 == v implies done[edges[k].0 as int] by {
            if k < edges.len() - 1 {
                assert(edges.drop_last()[k] == edges[k]);
            }
        }
    }
}

proof fn lemma_pending_positive(edges: Seq<(usize, usize)>, done: Seq<bool>, v: int) -> (k: int)
    requires
        pending_in(edges, done, v) > 0,
    ensures
        0 <= k < edges.len(),
        edges[k].1 == v,
        !done[edges[k].0 as int],
    decreases edges.len(),
{
    if edges.len() > 0 && edges.last().1 == v && !done[edges.last().0 as int] {
        edges.len() - 1
    } else {
        let k = lemma_pending_positive(edges.drop_last(), done, v);
        assert(edges.drop_last()[k] == edges[k]);
        k
    }
}

proof fn lemma_pending_le(edges: Seq<(usize, usize)>, done: Seq<bool>, v: int)
    ensures
        pending_in(edges, done, v) <= edges.len(),
    decreases edges.len(),
{
    if edges.len() > 0 {
        lemma_pending_le(edges.drop_last(), done, v);
    }
}

proof fn lemma_pair_count_le(edges: Seq<(usize, usize)>, u: int, v: int)
    ensures
        pair_count(edges, u, v) <= edges.len(),
    decreases edges.len(),
{
    if edges.len() > 0 {
        lemma_pair_count_le(edges.drop_last(), u, v);
    }
}

pub open spec fn as_ints(q: Seq<usize>) -> Seq<int> {
    q.map_values(|x: usize| x as int)
}

/// A duplicate-free sequence of values below `m` has at most `m` entries, and
/// if it has fewer, some value below `m` is missing from it.
pub proof fn lemma_distinct_below(q: Seq<usize>, m: int)
    requires
        q.no_duplicates(),
        forall|i: int| 0 <= i < q.len() ==> (#[trigger] q[i] as int) < m,
        0 <= m <= usize::MAX,
    ensures
        q.len() <= m,
        q.len() < m ==> exists|v: usize| v < m && !q.contains(v),
        q.len() == m ==> forall|v: usize| v < m ==> q.contains(v),
{
    let qi = as_ints(q);
    assert(qi.no_duplicates()) by {
        assert forall|i: int, j: int| 0 <= i < qi.len() && 0 <= j < qi.len() && i != j implies qi[i] != qi[j] by {
            assert(q[i] != q[j]);
        }
    }
    qi.unique_seq_to_set();
    vstd::set_lib::lemma_int_range(0, m);
    let r = vstd::set_lib::set_int_range(0, m);
    assert(qi.to_set().subset_of(r)) by {
        assert forall|x: int| qi.to_set().contains(x) implies r.contains(x) by {
            let i = choose|i: int| 0 <= i < qi.len() && qi[i] == x;
            assert(q[i] as int == x);
        }
    }
    vstd::set_lib::lemma_len_subset(qi.to_set(), r);
    if q.len() < m {
        if forall|v: usize| v < m ==> q.contains(v) {
            assert(r.subset_of(qi.to_set())) by {
                assert forall|x: int| r.contains(x) implies qi.to_set().contains(x) by {
                    assert(q.contains(x as usize));
                    let i = choose|i: int| 0 <= i < q.len() && q[i] == x as usize;
                    assert(qi[i] == q[i] as int);
                    assert(qi[i] == x);
                }
            }
            vstd::set_lib::lemma_len_subset(r, qi.to_set());
        }
    }
    if q.len() == m {
        assert forall|v: usize| v < m implies q.contains(v) by {
            if !q.contains(v) {
                assert(qi.to_set().subset_of(r.remove(v as int))) by {
                    assert forall|x: int| qi.to_set().contains(x) implies r.remove(v as int).contains(x) by {
                        let i = choose|i: int| 0 <= i < qi.len() && qi[i] == x;
                        assert(q[i] as int == x);
                        if x == v as int {
                            assert(q[i] == v);
                        }
                    }
                }
                vstd::set_lib::lemma_len_subset(qi.to_set(), r.remove(v as int));
            }
        }
    }
}

/// Among the nodes below `m` that are not done, one of least rank (given one exists).
proof fn lemma_min_rank(done: Seq<bool>, rank: spec_fn(int) -> int, m: int, w: int) -> (r: int)
    requires
        0 <= w < m <= done.len(),
        !done[w],
    ensures
        0 <= r < m,
        !done[r],
        forall|v: int| 0 <= v < m && !done[v] ==> rank(r) <= rank(v),
    decreases m,
{
    if m == 1 {
        w
    } else if w == m - 1 {
        if exists|v: int| 0 <= v < m - 1 && !done[v] {
            let v0 = choose|v: int| 0 <= v < m - 1 && !done[v];
            let r0 = lemma_min_rank(done, rank, m - 1, v0);
            if rank(r0) <= rank(m - 1) { r0 } else { m - 1 }
        } else {
            m - 1
        }
    } else {
        let r0 = lemma_min_rank(done, rank, m - 1, w);
        if !done[m - 1] && rank(m - 1) < rank(r0) { m - 1 } else { r0 }
    }
}

/// Kahn's algorithm on nodes `0..m`: the order in which nodes become free of pending
/// incoming edges, starting from the free nodes in increasing order and, after each
/// node, freeing its successors in increasing order. The order lists each node at most
/// once and every edge's source before its target; it lists all `m` nodes exactly when
/// the edges admit a ranking, that is, when the graph has no cycle.
pub fn kahn_order(m: usize, edges: &Vec<(usize, usize)>) -> (order: Vec<usize>)
    requires
        forall|k: int| 0 <= k < edges.len() ==> (#[trigger] edges@[k]).0 < m && edges@[k].1 < m,
    ensures
        order@.no_duplicates(),
        forall|i: int| 0 <= i < order.len() ==> (#[trigger] order@[i]) < m,
        orders_edges(order@, edges@),
        order.len() <= m,
        order.len() == m <==> has_ranking(edges@),
{
    let mut done: Vec<bool> = Vec::new();
    let mut indeg: Vec<usize> = Vec::new();
    let mut v: usize = 0;
    while v < m
        invariant
            v <= m,
            done.len() == v,
            indeg.len() == v,
            forall|i: int| 0 <= i < v ==> !(#[trigger] done@[i]),
            forall|i: int| 0 <= i < v ==> (#[trigger] indeg@[i]) == 0,
        decreases m - v,
    {
        done.push(false);
        indeg.push(0);
        v += 1;
    }
    let ghost done0 = done@;
    let mut k: usize = 0;
    while k < edges.len()
        invariant
            k <= edges.len(),
            done@ == done0,
            done.len() == m,
            indeg.len() == m,
            forall|i: int| 0 <= i < m ==> !(#[trigger] done@[i]),
            forall|i: int| 0 <= i < m ==> (#[trigger] indeg@[i]) == pending_in(edges@.take(k as int), done@, i),
            forall|k2: int| 0 <= k2 < edges.len() ==> (#[trigger] edges@[k2]).0 < m && edges@[k2].1 < m,
        decreases edges.len() - k,
    {
        let b = edges[k].1;
        proof {
            assert(edges@.take(k + 1).drop_last() =~= edges@.take(k as int));
            lemma_pending_le(edges@.take(k as int), done@, b as int);
        }
        indeg.set(b, indeg[b] + 1);
        proof {
            assert forall|i: int| 0 <= i < m implies (#[trigger] indeg@[i]) == pending_in(edges@.take(k + 1), done@, i) by {
                assert(edges@.take(k + 1).last() == edges@[k as int]);
            }
        }
        k += 1;
    }
    assert(edges@.take(edges.len() as int) =~= edges@);
    let mut queue: Vec<usize> = Vec::new();
    let mut v: usize = 0;
    while v < m
        invariant
            v <= m,
            done.len() == m,
            indeg.len() == m,
            forall|i: int| 0 <= i < m ==> !(#[trigger] done@[i]),
            forall|i: int| 0 <= i < m ==> (#[trigger] indeg@[i]) == pending_in(edges@, done@, i),
            queue@.no_duplicates(),
            forall|i: int| 0 <= i < queue.len() ==> (#[trigger] queue@[i]) < v,
            forall|x: usize| x < v ==> (queue@.contains(x) <==> indeg@[x as int] == 0),
            forall|x: usize| v <= x < m ==> !queue@.contains(x),
            orders_edges(queue@, edges@),
            forall|k2: int| 0 <= k2 < edges.len() ==> (#[trigger] edges@[k2]).0 < m && edges@[k2].1 < m,
        decreases m - v,
    {
        if indeg[v] == 0 {
            proof {
                lemma_pending_zero(edges@, done@, v as int);
                assert forall|k2: int| 0 <= k2 < edges.len() implies (#[trigger] edges@[k2]).1 != v by {
                    if edges@[k2].1 == v {
                        assert(done@[edges@[k2].0 as int]);
                    }
                }
            }
            let ghost old_q = queue@;
            queue.push(v);
            proof {
                assert forall|k2: int, j: int| 0 <= k2 < edges.len() && 0 <= j < queue.len() && (#[trigger] edges@[k2]).1 == #[trigger] queue@[j]
                    implies exists|i: int| 0 <= i < j && queue@[i] == edges@[k2].0 by {
                    assert(j < old_q.len());
                    assert(old_q[j] == queue@[j]);
                    let i = choose|i: int| 0 <= i < j && old_q[i] == edges@[k2].0;
                    assert(queue@[i] == old_q[i]);
                }
            }
        }
        v += 1;
    }
    proof {
        lemma_distinct_below(queue@, m as int);
    }
    let mut head: usize = 0;
    while head < queue.len()
        invariant
            head <= queue.len(),
            queue.len() <= m,
            done.len() == m,
            indeg.len() == m,
            queue@.no_duplicates(),
            forall|i: int| 0 <= i < queue.len() ==> (#[trigger] queue@[i]) < m,
            forall|x: usize| x < m ==> (done@[x as int] <==> queue@.take(head as int).contains(x)),
            forall|i: int| 0 <= i < m ==> (#[trigger] indeg@[i]) == pending_in(edges@, done@, i),
            forall|x: usize| x < m ==> (queue@.contains(x) <==> indeg@[x as int] == 0),
            orders_edges(queue@, edges@),
            forall|k2: int| 0 <= k2 < edges.len() ==> (#[trigger] edges@[k2]).0 < m && edges@[k2].1 < m,
        decreases m - head,
    {
        let u = queue[head];
        proof {
            assert(!queue@.take(head as int).contains(u)) by {
                if queue@.take(head as int).contains(u) {
                    let qt = queue@.take(head as int);
                    let i = choose|i: int| 0 <= i < qt.len() && qt[i] == u;
                    assert(queue@[i] == queue@[head as int]);
                }
            }
            assert forall|x: usize| x < m implies (done@.update(u as int, true)[x as int] <==> queue@.take(head + 1).contains(x)) by {
                assert(queue@.take(head + 1) =~= queue@.take(head as int).push(u));
            }
        }
        let ghost old_done = done@;
        done.set(u, true);
        let mut t: usize = 0;
        while t < m
            invariant
                t <= m,
                head < queue.len(),
                queue.len() <= m,
                u == queue@[head as int],
                done.len() == m,
                indeg.len() == m,
                done@ == old_done.update(u as int, true),
                old_done.len() == m,
                u < m,
                !old_done[u as int],
                queue@.no_duplicates(),
                forall|i: int| 0 <= i < queue.len() ==> (#[trigger] queue@[i]) < m,
                forall|x: usize| x < m ==> (done@[x as int] <==> queue@.take(head + 1).contains(x)),
                forall|i: int| 0 <= i < t ==> (#[trigger] indeg@[i]) == pending_in(edges@, done@, i),
                forall|i: int| t <= i < m ==> (#[trigger] indeg@[i]) == pending_in(edges@, old_done, i),
                forall|x: usize| x < m ==> (queue@.contains(x) <==> indeg@[x as int] == 0),
                orders_edges(queue@, edges@),
                forall|k2: int| 0 <= k2 < edges.len() ==> (#[trigger] edges@[k2]).0 < m && edges@[k2].1 < m,
            decreases m - t,
        {
            let mut c: usize = 0;
            let mut k: usize = 0;
            while k < edges.len()
                invariant
                    k <= edges.len(),
                    c == pair_count(edges@.take(k as int), u as int, t as int),
                decreases edges.len() - k,
            {
                proof {
                    assert(edges@.take(k + 1).drop_last() =~= edges@.take(k as int));
                    assert(edges@.take(k + 1).last() == edges@[k as int]);
                    lemma_pair_count_le(edges@.take(k as int), u as int, t as int);
                }
                if edges[k].0 == u && edges[k].1 == t {
                    c += 1;
                }
                k += 1;
            }
            proof {
                assert(edges@.take(edges.len() as int) =~= edges@);
                lemma_pending_mark(edges@, old_done, u as int, t as int);
            }
            if c > 0 {
                let d = indeg[t] - c;
                indeg.set(t, d);
                if d == 0 {
                    proof {
                        lemma_pending_zero(edges@, done@, t as int);
                        lemma_distinct_below(queue@, m as int);
                    }
                    let ghost old_q = queue@;
                    queue.push(t);
                    proof {
                        assert(queue@.take(head + 1) =~= old_q.take(head + 1));
                        assert forall|k2: int, j: int| 0 <= k2 < edges.len() && 0 <= j < queue.len() && (#[trigger] edges@[k2]).1 == #[trigger] queue@[j]
                            implies exists|i: int| 0 <= i < j && queue@[i] == edges@[k2].0 by {
                            if j < old_q.len() {
                                assert(old_q[j] == queue@[j]);
                                let i = choose|i: int| 0 <= i < j && old_q[i] == edges@[k2].0;
                                assert(queue@[i] == old_q[i]);
                            } else {
                                let a = edges@[k2].0;
                                assert(done@[a as int]);
                                assert(queue@.take(head + 1).contains(a));
                                let qt = queue@.take(head + 1);
                                let i = choose|i: int| 0 <= i < qt.len() && qt[i] == a;
                                assert(queue@[i] == a);
                            }
                        }
                        lemma_distinct_below(queue@, m as int);
                    }
                }
            }
            t += 1;
        }
        head += 1;
    }
    proof {
        lemma_distinct_below(queue@, m as int);
        assert(queue@.take(head as int) =~= queue@);
        if queue.len() == m {
            let rank = |x: int| choose|i: int| 0 <= i < queue.len() && queue@[i] as int == x;
            assert forall|k2: int| 0 <= k2 < edges.len() implies rank((#[trigger] edges@[k2]).0 as int) < rank(edges@[k2].1 as int) by {
                let b = edges@[k2].1;
                let a = edges@[k2].0;
                assert(queue@.contains(b));
                let j = choose|j: int| 0 <= j < queue.len() && queue@[j] == b;
                let i = choose|i: int| 0 <= i < j && queue@[i] == a;
                let ri = rank(a as int);
                let rj = rank(b as int);
                assert(0 <= ri < queue.len() && queue@[ri] as int == a as int);
                assert(0 <= rj < queue.len() && queue@[rj] as int == b as int);
                assert(ri == i);
                assert(rj == j);
            }
            assert(respects(edges@, rank));
        } else {
            if has_ranking(edges@) {
                let rank = choose|rank: spec_fn(int) -> int| #[trigger] respects(edges@, rank);
                let w = choose|w: usize| w < m && !queue@.contains(w);
                assert(!done@[w as int]);
                let r = lemma_min_rank(done@, rank, m as int, w as int);
                assert(!queue@.contains(r as usize));
                let k2 = lemma_pending_positive(edges@, done@, r);
                let a = edges@[k2].0 as int;
                assert(rank(a) < rank(r));
            }
        }
    }
    queue
}

} // verus!
