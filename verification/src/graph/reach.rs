use vstd::prelude::*;
use crate::error::{invalid, invalid_with, McpError};
use crate::graph::model::GraphEdge;
use crate::text::{contains_str, has_view, distinct_views};

verus! {

/// Some edge leads from node `a` to node `b`.
pub open spec fn has_edge(edges: Seq<GraphEdge>, a: Seq<char>, b: Seq<char>) -> bool {
    exists|k: int| 0 <= k < edges.len() && (#[trigger] edges[k]).from_node@ == a && edges[k].to_node@ == b
}

/// `p` is a nonempty walk along edges.
pub open spec fn is_walk(edges: Seq<GraphEdge>, p: Seq<Seq<char>>) -> bool {
    &&& p.len() >= 1
    &&& forall|i: int| 0 <= i < p.len() - 1 ==> has_edge(edges, #[trigger] p[i], p[i + 1])
}

/// `x` can be reached from one of the `starts` by following edges (zero or more).
pub open spec fn reachable(edges: Seq<GraphEdge>, starts: Seq<String>, x: Seq<char>) -> bool {
    exists|p: Seq<Seq<char>>| #[trigger] is_walk(edges, p) && has_view(starts, p[0]) && p.last() == x
}

proof fn lemma_start_reachable(edges: Seq<GraphEdge>, starts: Seq<String>, i: int)
    requires
        0 <= i < starts.len(),
    ensures
        reachable(edges, starts, starts[i]@),
{
    let p = seq![starts[i]@];
    assert(is_walk(edges, p));
    assert(has_view(starts, p[0]));
}

proof fn lemma_step_reachable(edges: Seq<GraphEdge>, starts: Seq<String>, a: Seq<char>, k: int)
    requires
        reachable(edges, starts, a),
        0 <= k < edges.len(),
        edges[k].from_node@ == a,
    ensures
        reachable(edges, starts, edges[k].to_node@),
{
    let p = choose|p: Seq<Seq<char>>| #[trigger] is_walk(edges, p) && has_view(starts, p[0]) && p.last() == a;
    let q = p.push(edges[k].to_node@);
    assert forall|i: int| 0 <= i < q.len() - 1 implies has_edge(edges, #[trigger] q[i], q[i + 1]) by {
        if i < p.len() - 1 {
            assert(q[i] == p[i] && q[i + 1] == p[i + 1]);
        } else {
            assert(q[i] == a);
            assert(edges[k].from_node@ == a && edges[k].to_node@ == q[i + 1]);
        }
    }
    assert(is_walk(edges, q));
    assert(q[0] == p[0]);
}

/// A set of views, given as strings, that holds every start and is closed under edges
/// holds every node that a walk from a start reaches.
proof fn lemma_closed_holds_walk(edges: Seq<GraphEdge>, starts: Seq<String>, s: Seq<String>, p: Seq<Seq<char>>, n: int)
    requires
        is_walk(edges, p),
        has_view(starts, p[0]),
        forall|x: Seq<char>| has_view(starts, x) ==> has_view(s, x),
        forall|k: int, x: Seq<char>| 0 <= k < edges.len() && #[trigger] has_view(s, x) && edges[k].from_node@ == x
            ==> has_view(s, (#[trigger] edges[k]).to_node@),
        0 <= n < p.len(),
    ensures
        has_view(s, p[n]),
    decreases n,
{
    if n > 0 {
        lemma_closed_holds_walk(edges, starts, s, p, n - 1);
        assert(has_edge(edges, p[n - 1], p[n]));
        let k = choose|k: int| 0 <= k < edges.len() && (#[trigger] edges[k]).from_node@ == p[n - 1] && edges[k].to_node@ == p[n];
        assert(has_view(s, edges[k].to_node@));
    }
}

/// A view that names a changed node or the target of an edge.
pub open spec fn is_candidate(changed: Seq<String>, edges: Seq<GraphEdge>, x: Seq<char>) -> bool {
    has_view(changed, x) || exists|k: int| 0 <= k < edges.len() && (#[trigger] edges[k]).to_node@ == x
}

pub open spec fn candidate_views(changed: Seq<String>, edges: Seq<GraphEdge>) -> Seq<Seq<char>> {
    changed.map_values(|s: String| s@) + edges.map_values(|e: GraphEdge| e.to_node@)
}

proof fn lemma_push_keeps_views(old: Seq<String>, s: String)
    requires
        distinct_views(old),
        !has_view(old, s@),
    ensures
        distinct_views(old.push(s)),
        forall|x: Seq<char>| has_view(old.push(s), x) <==> (has_view(old, x) || x == s@),
{
    let n = old.push(s);
    assert forall|x: Seq<char>| has_view(n, x) implies (has_view(old, x) || x == s@) by {
        let j = choose|j: int| 0 <= j < n.len() && (#[trigger] n[j])@ == x;
        if j < old.len() {
            assert(n[j] == old[j]);
        }
    }
    assert forall|x: Seq<char>| (has_view(old, x) || x == s@) implies has_view(n, x) by {
        if has_view(old, x) {
            let j = choose|j: int| 0 <= j < old.len() && (#[trigger] old[j])@ == x;
            assert(n[j] == old[j]);
        } else {
            assert(n[old.len() as int] == s);
        }
    }
    assert forall|i: int, j: int| 0 <= i < n.len() && 0 <= j < n.len() && i != j implies (#[trigger] n[i])@ != (#[trigger] n[j])@ by {
        if i < old.len() && j < old.len() {
            assert(n[i] == old[i] && n[j] == old[j]);
        } else if i < old.len() {
            assert(n[i] == old[i]);
        } else if j < old.len() {
            assert(n[j] == old[j]);
        }
    }
}

/// Distinct candidate views are at most as many as the candidates.
proof fn lemma_dirty_bounded(dirty: Seq<String>, changed: Seq<String>, edges: Seq<GraphEdge>)
    requires
        distinct_views(dirty),
        forall|x: Seq<char>| has_view(dirty, x) ==> is_candidate(changed, edges, x),
    ensures
        dirty.len() <= changed.len() + edges.len(),
{
    let dv = dirty.map_values(|s: String| s@);
    let cv = candidate_views(changed, edges);
    assert(dv.no_duplicates()) by {
        assert forall|i: int, j: int| 0 <= i < dv.len() && 0 <= j < dv.len() && i != j implies dv[i] != dv[j] by {
            assert(dv[i] == dirty[i]@ && dv[j] == dirty[j]@);
        }
    }
    dv.unique_seq_to_set();
    cv.lemma_cardinality_of_set();
    assert(dv.to_set().subset_of(cv.to_set())) by {
        assert forall|x: Seq<char>| dv.to_set().contains(x) implies cv.to_set().contains(x) by {
            let i = choose|i: int| 0 <= i < dv.len() && dv[i] == x;
            assert(dirty[i]@ == x);
            assert(has_view(dirty, x));
            if has_view(changed, x) {
                let j = choose|j: int| 0 <= j < changed.len() && (#[trigger] changed[j])@ == x;
                assert(cv[j] == x);
            } else {
                let k = choose|k: int| 0 <= k < edges.len() && (#[trigger] edges[k]).to_node@ == x;
                assert(cv[changed.len() + k] == x);
            }
        }
    }
    vstd::set_lib::lemma_len_subset(dv.to_set(), cv.to_set());
}

/// The nodes that must run again after `changed_node_ids` changed: the changed nodes and
/// every node reachable from them along edges. Each appears once. Fails on an empty
/// change list or a changed node that the graph does not hold.
pub fn dirty_descendants(node_ids: &Vec<String>, edges: &Vec<GraphEdge>, changed_node_ids: &Vec<String>) -> (r: Result<Vec<String>, McpError>)
    ensures
        r is Err <==> (changed_node_ids.len() == 0 || exists|i: int| 0 <= i < changed_node_ids.len() && !has_view(node_ids@, (#[trigger] changed_node_ids@[i])@)),
        r matches Err(e) ==> invalid_with(e, if changed_node_ids.len() == 0 {
            "creative partial rerun requires at least one changed node"@
        } else {
            "creative partial rerun references an unknown changed node"@
        }),
        r matches Ok(dirty) ==> distinct_views(dirty@) && forall|x: Seq<char>| has_view(dirty@, x) <==> reachable(edges@, changed_node_ids@, x),
{
    if changed_node_ids.len() == 0 {
        return Err(invalid("creative partial rerun requires at least one changed node"));
    }
    let mut dirty: Vec<String> = Vec::new();
    let mut i: usize = 0;
    while i < changed_node_ids.len()
        invariant
            i <= changed_node_ids.len(),
            distinct_views(dirty@),
            forall|x: Seq<char>| has_view(dirty@, x) ==> reachable(edges@, changed_node_ids@, x),
            forall|k: int| 0 <= k < i ==> has_view(dirty@, (#[trigger] changed_node_ids@[k])@),
            forall|k: int| 0 <= k < i ==> has_view(node_ids@, (#[trigger] changed_node_ids@[k])@),
            forall|x: Seq<char>| has_view(dirty@, x) ==> is_candidate(changed_node_ids@, edges@, x),
        decreases changed_node_ids.len() - i,
    {
        let id = &changed_node_ids[i];
        if !contains_str(node_ids, id.as_str()) {
            return Err(invalid("creative partial rerun references an unknown changed node"));
        }
        if !contains_str(&dirty, id.as_str()) {
            proof {
                lemma_start_reachable(edges@, changed_node_ids@, i as int);
            }
            let ghost old_dirty = dirty@;
            dirty.push(id.clone());
            proof {
                lemma_push_keeps_views(old_dirty, *id);
                assert(has_view(changed_node_ids@, id@)) by {
                    assert(changed_node_ids@[i as int] == *id);
                }
                assert forall|x: Seq<char>| has_view(dirty@, x) implies is_candidate(changed_node_ids@, edges@, x)
                    && reachable(edges@, changed_node_ids@, x) by {
                    assert(has_view(old_dirty, x) || x == id@);
                }
                assert forall|k: int| 0 <= k < i + 1 implies has_view(dirty@, (#[trigger] changed_node_ids@[k])@) by {
                    if k < i {
                        let j = choose|j: int| 0 <= j < old_dirty.len() && (#[trigger] old_dirty[j])@ == changed_node_ids@[k]@;
                        assert(dirty@[j] == old_dirty[j]);
                    } else {
                        assert(dirty@[old_dirty.len() as int] == *id);
                    }
                }
            }
        }
        i += 1;
    }
    proof {
        lemma_dirty_bounded(dirty@, changed_node_ids@, edges@);
    }
    let mut head: usize = 0;
    while head < dirty.len()
        invariant
            head <= dirty.len(),
            dirty.len() <= changed_node_ids.len() + edges.len(),
            distinct_views(dirty@),
            forall|x: Seq<char>| has_view(dirty@, x) ==> is_candidate(changed_node_ids@, edges@, x),
            forall|x: Seq<char>| has_view(dirty@, x) ==> reachable(edges@, changed_node_ids@, x),
            forall|k: int| 0 <= k < changed_node_ids.len() ==> has_view(dirty@, (#[trigger] changed_node_ids@[k])@),
            forall|h: int, k: int| 0 <= h < head && 0 <= k < edges.len() && (#[trigger] edges@[k]).from_node@ == (#[trigger] dirty@[h])@
                ==> has_view(dirty@, edges@[k].to_node@),
        decreases changed_node_ids.len() + edges.len() - head,
    {
        let current = dirty[head].clone();
        let mut k: usize = 0;
        while k < edges.len()
            invariant
                head < dirty.len(),
                current@ == dirty@[head as int]@,
                k <= edges.len(),
                distinct_views(dirty@),
                forall|x: Seq<char>| has_view(dirty@, x) ==> is_candidate(changed_node_ids@, edges@, x),
                forall|x: Seq<char>| has_view(dirty@, x) ==> reachable(edges@, changed_node_ids@, x),
                forall|k2: int| 0 <= k2 < changed_node_ids.len() ==> has_view(dirty@, (#[trigger] changed_node_ids@[k2])@),
                forall|h: int, k2: int| 0 <= h < head && 0 <= k2 < edges.len() && (#[trigger] edges@[k2]).from_node@ == (#[trigger] dirty@[h])@
                    ==> has_view(dirty@, edges@[k2].to_node@),
                forall|k2: int| 0 <= k2 < k && (#[trigger] edges@[k2]).from_node@ == current@
                    ==> has_view(dirty@, edges@[k2].to_node@),
            decreases edges.len() - k,
        {
            let edge = &edges[k];
            if edge.from_node == current && !contains_str(&dirty, edge.to_node.as_str()) {
                proof {
                    assert(has_view(dirty@, current@)) by {
                        assert(dirty@[head as int]@ == current@);
                    }
                    lemma_step_reachable(edges@, changed_node_ids@, current@, k as int);
                    assert(is_candidate(changed_node_ids@, edges@, edge.to_node@)) by {
                        assert(edges@[k as int] == *edge);
                    }
                }
                let ghost old_dirty = dirty@;
                dirty.push(edge.to_node.clone());
                proof {
                    lemma_push_keeps_views(old_dirty, edge.to_node);
                    assert forall|x: Seq<char>| has_view(dirty@, x) implies is_candidate(changed_node_ids@, edges@, x)
                        && reachable(edges@, changed_node_ids@, x) by {
                        assert(has_view(old_dirty, x) || x == edge.to_node@);
                    }
                    assert forall|k2: int| 0 <= k2 < changed_node_ids.len() implies has_view(dirty@, (#[trigger] changed_node_ids@[k2])@) by {
                        assert(has_view(old_dirty, changed_node_ids@[k2]@));
                    }
                }
            }
            k += 1;
        }
        proof {
            lemma_dirty_bounded(dirty@, changed_node_ids@, edges@);
        }
        head += 1;
    }
    proof {
        assert forall|x: Seq<char>| reachable(edges@, changed_node_ids@, x) implies has_view(dirty@, x) by {
            let p = choose|p: Seq<Seq<char>>| #[trigger] is_walk(edges@, p) && has_view(changed_node_ids@, p[0]) && p.last() == x;
            assert forall|y: Seq<char>| has_view(changed_node_ids@, y) implies has_view(dirty@, y) by {
                let j = choose|j: int| 0 <= j < changed_node_ids@.len() && (#[trigger] changed_node_ids@[j])@ == y;
            }
            assert forall|k: int, y: Seq<char>| 0 <= k < edges@.len() && #[trigger] has_view(dirty@, y) && edges@[k].from_node@ == y
                implies has_view(dirty@, (#[trigger] edges@[k]).to_node@) by {
                let h = choose|h: int| 0 <= h < dirty@.len() && (#[trigger] dirty@[h])@ == y;
                assert(edges@[k].from_node@ == dirty@[h]@);
            }
            lemma_closed_holds_walk(edges@, changed_node_ids@, dirty@, p, p.len() - 1);
        }
    }
    Ok(dirty)
}

} // verus!
