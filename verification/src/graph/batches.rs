use vstd::prelude::*;
use crate::graph::model::GraphEdge;
use crate::order::{sort_strings, sorted_views};

verus! {

broadcast use vstd::seq_lib::group_seq_properties;

/// The last position before `k` that holds `name`, or -1.
pub open spec fn last_pos(order: Seq<String>, name: Seq<char>, k: int) -> int
    decreases k,
{
    if k <= 0 {
        -1
    } else if order[k - 1]@ == name {
        k - 1
    } else {
        last_pos(order, name, k - 1)
    }
}

/// The execution level of position `k`: one more than the highest level among the
/// earlier positions that feed it, or 0 where none does.
pub open spec fn level_at(order: Seq<String>, edges: Seq<GraphEdge>, k: int) -> nat
    decreases k, edges.len() + 1,
{
    match incoming_max(order, edges, k, edges.len() as int) {
        None => 0,
        Some(l) => if l + 1 > u32::MAX { u32::MAX as nat } else { (l + 1) as nat },
    }
}

/// The highest level among earlier positions that feed position `k` through the
/// first `m` edges.
pub open spec fn incoming_max(order: Seq<String>, edges: Seq<GraphEdge>, k: int, m: int) -> Option<nat>
    decreases k, m,
{
    if m <= 0 || k < 0 {
        None
    } else {
        let rest = incoming_max(order, edges, k, m - 1);
        let e = edges[m - 1];
        let p = last_pos(order, e.from_node@, k);
        if e.to_node@ == order[k]@ && 0 <= p < k {
            let l = level_at(order, edges, p);
            match rest {
                None => Some(l),
                Some(r) => Some(if l > r { l } else { r }),
            }
        } else {
            rest
        }
    }
}

/// The names at the first `n` positions whose level is `level`, in position order.
pub open spec fn at_level(order: Seq<String>, edges: Seq<GraphEdge>, level: nat, n: int) -> Seq<String>
    decreases n,
{
    if n <= 0 {
        seq![]
    } else {
        at_level(order, edges, level, n - 1) + if level_at(order, edges, n - 1) == level { seq![order[n - 1]] } else { seq![] }
    }
}

proof fn lemma_last_pos(order: Seq<String>, name: Seq<char>, k: int)
    requires
        0 <= k <= order.len(),
    ensures
        -1 <= last_pos(order, name, k) < k,
        last_pos(order, name, k) >= 0 ==> order[last_pos(order, name, k)]@ == name,
        forall|q: int| last_pos(order, name, k) < q < k ==> (#[trigger] order[q])@ != name,
    decreases k,
{
    if k > 0 {
        lemma_last_pos(order, name, k - 1);
    }
}

proof fn lemma_level_bound(order: Seq<String>, edges: Seq<GraphEdge>, k: int)
    requires
        0 <= k,
    ensures
        level_at(order, edges, k) <= k,
    decreases k, edges.len() + 1,
{
    lemma_incoming_bound(order, edges, k, edges.len() as int);
}

proof fn lemma_incoming_bound(order: Seq<String>, edges: Seq<GraphEdge>, k: int, m: int)
    requires
        0 <= k,
    ensures
        incoming_max(order, edges, k, m) matches Some(l) ==> l < k,
    decreases k, m,
{
    if m > 0 {
        lemma_incoming_bound(order, edges, k, m - 1);
        let e = edges[m - 1];
        let p = last_pos(order, e.from_node@, k);
        if e.to_node@ == order[k]@ && 0 <= p < k {
            lemma_level_bound(order, edges, p);
        }
    }
}

/// Every position's level has a batch.
pub open spec fn covers_levels(out: Seq<(u32, Vec<String>)>, order: Seq<String>, edges: Seq<GraphEdge>) -> bool {
    forall|k: int| 0 <= k < order.len() ==> #[trigger] has_batch(out, level_at(order, edges, k))
}

/// Some batch has level `l`.
pub open spec fn has_batch(out: Seq<(u32, Vec<String>)>, l: nat) -> bool {
    exists|b: int| 0 <= b < out.len() && (#[trigger] out[b]).0 == l
}

/// Groups a topological order into execution batches: the nodes of each level, from
/// level 0 upward, each batch sorted by name, and only the levels that occur.
pub fn execution_batches(topological_order: &Vec<String>, edges: &Vec<GraphEdge>) -> (out: Vec<(u32, Vec<String>)>)
    ensures
        forall|b: int| 0 <= b < out.len() ==> (#[trigger] out@[b]).1@.len() > 0
            && sorted_views(out@[b].1@)
            && out@[b].1@.to_multiset() == at_level(topological_order@, edges@, out@[b].0 as nat, topological_order.len() as int).to_multiset(),
        forall|b1: int, b2: int| 0 <= b1 < b2 < out.len() ==> (#[trigger] out@[b1]).0 < (#[trigger] out@[b2]).0,
        covers_levels(out@, topological_order@, edges@),
{
    let ghost order = topological_order@;
    let n = topological_order.len();
    let mut levels: Vec<u32> = Vec::new();
    let mut k: usize = 0;
    while k < n
        invariant
            k <= n,
            n == order.len(),
            order == topological_order@,
            levels.len() == k,
            forall|q: int| 0 <= q < k ==> (#[trigger] levels@[q]) as nat == level_at(order, edges@, q),
        decreases n - k,
    {
        let mut best: Option<u32> = None;
        let mut m: usize = 0;
        while m < edges.len()
            invariant
                k < n,
                n == order.len(),
                order == topological_order@,
                m <= edges.len(),
                levels.len() == k,
                forall|q: int| 0 <= q < k ==> (#[trigger] levels@[q]) as nat == level_at(order, edges@, q),
                match incoming_max(order, edges@, k as int, m as int) {
                    None => best is None,
                    Some(l) => best is Some && best->0 as nat == l,
                },
            decreases edges.len() - m,
        {
            let e = &edges[m];
            if e.to_node == topological_order[k] {
                let mut p: usize = k;
                let mut found: bool = false;
                while p > 0 && !found
                    invariant
                        p <= k,
                        k < order.len(),
                        order == topological_order@,
                        found ==> p > 0 && last_pos(order, e.from_node@, k as int) == p - 1,
                        !found ==> last_pos(order, e.from_node@, k as int) == last_pos(order, e.from_node@, p as int),
                    decreases p + if found { 0int } else { 1int },
                {
                    if topological_order[p - 1] == e.from_node {
                        found = true;
                    } else {
                        p -= 1;
                    }
                }
                proof {
                    lemma_last_pos(order, e.from_node@, k as int);
                }
                if found {
                    let l = levels[p - 1];
                    best = match best {
                        None => Some(l),
                        Some(r) => Some(if l > r { l } else { r }),
                    };
                }
            }
            m += 1;
        }
        let level: u32 = match best {
            None => 0,
            Some(l) => if l == u32::MAX { u32::MAX } else { l + 1 },
        };
        levels.push(level);
        k += 1;
    }
    let mut max_level: u32 = 0;
    let mut q: usize = 0;
    while q < n
        invariant
            q <= n,
            levels.len() == n,
            forall|j: int| 0 <= j < q ==> (#[trigger] levels@[j]) <= max_level,
        decreases n - q,
    {
        if levels[q] > max_level {
            max_level = levels[q];
        }
        q += 1;
    }
    let mut out: Vec<(u32, Vec<String>)> = Vec::new();
    let mut lvl: u64 = 0;
    while lvl <= max_level as u64
        invariant
            n == order.len(),
            order == topological_order@,
            levels.len() == n,
            forall|j: int| 0 <= j < n ==> (#[trigger] levels@[j]) as nat == level_at(order, edges@, j),
            forall|j: int| 0 <= j < n ==> (#[trigger] levels@[j]) <= max_level,
            lvl <= max_level as u64 + 1,
            forall|b: int| 0 <= b < out.len() ==> (#[trigger] out@[b]).1@.len() > 0
                && sorted_views(out@[b].1@)
                && out@[b].1@.to_multiset() == at_level(order, edges@, out@[b].0 as nat, n as int).to_multiset(),
            forall|b1: int, b2: int| 0 <= b1 < b2 < out.len() ==> (#[trigger] out@[b1]).0 < (#[trigger] out@[b2]).0,
            forall|b: int| 0 <= b < out.len() ==> ((#[trigger] out@[b]).0 as u64) < lvl,
            forall|j: int| #![trigger level_at(order, edges@, j)] 0 <= j < n && level_at(order, edges@, j) < lvl ==> exists|b: int| 0 <= b < out.len() && (#[trigger] out@[b]).0 == level_at(order, edges@, j),
        decreases max_level as u64 + 1 - lvl,
    {
        let mut batch: Vec<String> = Vec::new();
        let mut q: usize = 0;
        while q < n
            invariant
                q <= n,
                n == order.len(),
                order == topological_order@,
                levels.len() == n,
                forall|j: int| 0 <= j < n ==> (#[trigger] levels@[j]) as nat == level_at(order, edges@, j),
                batch@ == at_level(order, edges@, lvl as nat, q as int),
            decreases n - q,
        {
            if levels[q] as u64 == lvl {
                batch.push(topological_order[q].clone());
            }
            q += 1;
        }
        proof {
            assert forall|j: int| 0 <= j < n && level_at(order, edges@, j) == lvl implies batch@.len() > 0 by {
                lemma_at_level_nonempty(order, edges@, lvl as nat, n as int, j);
            }
        }
        if batch.len() > 0 {
            let sorted = sort_strings(batch);
            let ghost old_out = out@;
            out.push((lvl as u32, sorted));
            proof {
                assert forall|b: int| 0 <= b < out.len() implies (#[trigger] out@[b]).1@.len() > 0
                    && sorted_views(out@[b].1@)
                    && out@[b].1@.to_multiset() == at_level(order, edges@, out@[b].0 as nat, n as int).to_multiset() by {
                    if b < old_out.len() {
                        assert(out@[b] == old_out[b]);
                    } else {
                        sorted@.to_multiset_ensures();
                    }
                }
                assert forall|b1: int, b2: int| 0 <= b1 < b2 < out.len() implies (#[trigger] out@[b1]).0 < (#[trigger] out@[b2]).0 by {
                    assert(out@[b1] == old_out[b1]);
                    if b2 < old_out.len() {
                        assert(out@[b2] == old_out[b2]);
                    }
                }
                assert forall|j: int| #![trigger level_at(order, edges@, j)] 0 <= j < n && level_at(order, edges@, j) < lvl + 1 implies exists|b: int| 0 <= b < out.len() && (#[trigger] out@[b]).0 == level_at(order, edges@, j) by {
                    if level_at(order, edges@, j) == lvl {
                        assert(out@[out.len() - 1].0 == lvl as u32);
                    } else {
                        let b = choose|b: int| 0 <= b < old_out.len() && (#[trigger] old_out[b]).0 == level_at(order, edges@, j);
                        assert(out@[b] == old_out[b]);
                    }
                }
            }
        }
        proof {
            if batch.len() == 0 {
                assert forall|j: int| 0 <= j < n implies level_at(order, edges@, j) != lvl by {
                    if level_at(order, edges@, j) == lvl {
                        lemma_at_level_nonempty(order, edges@, lvl as nat, n as int, j);
                    }
                }
            }
        }
        lvl += 1;
    }
    proof {
        assert forall|j: int| #![trigger level_at(order, edges@, j)] 0 <= j < n implies exists|b: int| 0 <= b < out.len() && (#[trigger] out@[b]).0 == level_at(order, edges@, j) by {
            assert(levels@[j] <= max_level);
            assert(level_at(order, edges@, j) == levels@[j] as nat);
            assert(level_at(order, edges@, j) < lvl);
        }
        assert forall|k: int| 0 <= k < topological_order.len() implies #[trigger] has_batch(out@, level_at(topological_order@, edges@, k)) by {
            assert(level_at(order, edges@, k) == level_at(topological_order@, edges@, k));
            let b = choose|b: int| 0 <= b < out.len() && (#[trigger] out@[b]).0 == level_at(order, edges@, k);
        }
        assert(covers_levels(out@, topological_order@, edges@));
    }
    out
}

proof fn lemma_at_level_nonempty(order: Seq<String>, edges: Seq<GraphEdge>, level: nat, n: int, j: int)
    requires
        0 <= j < n,
        level_at(order, edges, j) == level,
    ensures
        at_level(order, edges, level, n).len() > 0,
    decreases n,
{
    if j < n - 1 {
        lemma_at_level_nonempty(order, edges, level, n - 1, j);
    }
}


} // verus!
