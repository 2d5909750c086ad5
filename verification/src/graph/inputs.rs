use vstd::prelude::*;
use crate::graph::model::GraphEdge;
use crate::text::{contains_str, has_view, str_eq};

verus! {

/// The texts among `s`, in order.
pub open spec fn present_texts(s: Seq<Option<String>>) -> Seq<String>
    decreases s.len(),
{
    if s.len() == 0 {
        seq![]
    } else {
        let r = present_texts(s.drop_last());
        match s.last() {
            Some(t) => r.push(t),
            None => r,
        }
    }
}

/// The assets a node output names: its `asset_id`, then the texts of its
/// `output_asset_ids` list, in order.
pub open spec fn output_assets_of(asset_id: Option<String>, listed: Option<Seq<Option<String>>>) -> Seq<String> {
    let head: Seq<String> = match asset_id { Some(a) => seq![a], None => seq![] };
    match listed {
        Some(l) => head + present_texts(l),
        None => head,
    }
}

/// The assets a node output names, from what the output holds: the text of its
/// `asset_id` field and, where `output_asset_ids` is a list, each entry's text if it is one.
pub fn node_output_assets(asset_id: Option<String>, listed: Option<Vec<Option<String>>>) -> (r: Vec<String>)
    ensures
        r@ == output_assets_of(asset_id, match listed { Some(l) => Some(l@), None => None }),
{
    let mut r: Vec<String> = Vec::new();
    match asset_id {
        Some(a) => { r.push(a); },
        None => {},
    }
    let ghost head = r@;
    match listed {
        None => {},
        Some(l) => {
            let mut i: usize = 0;
            while i < l.len()
                invariant
                    i <= l.len(),
                    r@ == head + present_texts(l@.take(i as int)),
                decreases l.len() - i,
            {
                assert(l@.take(i + 1).drop_last() =~= l@.take(i as int));
                match &l[i] {
                    Some(t) => { r.push(t.clone()); },
                    None => {},
                }
                assert(r@ =~= head + present_texts(l@.take(i + 1)));
                i += 1;
            }
            assert(l@.take(i as int) =~= l@);
        },
    }
    r
}

/// The edges of `edges` that end at node `id`, in order.
pub open spec fn incoming_edges(edges: Seq<GraphEdge>, id: Seq<char>) -> Seq<GraphEdge>
    decreases edges.len(),
{
    if edges.len() == 0 {
        seq![]
    } else {
        let r = incoming_edges(edges.drop_last(), id);
        if edges.last().to_node@ == id { r.push(edges.last()) } else { r }
    }
}

/// The edges of `edges` that end at node `id` and start at a node among `produced`, in order.
pub open spec fn bound_edges(edges: Seq<GraphEdge>, id: Seq<char>, produced: Seq<String>) -> Seq<GraphEdge>
    decreases edges.len(),
{
    if edges.len() == 0 {
        seq![]
    } else {
        let r = bound_edges(edges.drop_last(), id, produced);
        let e = edges.last();
        if e.to_node@ == id && has_view(produced, e.from_node@) { r.push(e) } else { r }
    }
}

/// The same edge, field by field.
pub open spec fn same_edge(a: GraphEdge, b: GraphEdge) -> bool {
    a.from_node@ == b.from_node@ && a.from_port@ == b.from_port@ && a.to_node@ == b.to_node@ && a.to_port@ == b.to_port@
}

pub open spec fn same_edges(a: Seq<GraphEdge>, b: Seq<GraphEdge>) -> bool {
    a.len() == b.len() && forall|i: int| 0 <= i < a.len() ==> same_edge(#[trigger] a[i], b[i])
}

fn copy_edge(e: &GraphEdge) -> (c: GraphEdge)
    ensures
        same_edge(c, *e),
{
    GraphEdge {
        from_node: e.from_node.clone(),
        from_port: e.from_port.clone(),
        to_node: e.to_node.clone(),
        to_port: e.to_port.clone(),
    }
}

/// How a node's inputs are joined from upstream outputs: `None` where no edge ends at
/// the node (its inputs stay as they are); otherwise the edges that end at it and start
/// at a node in `produced` (one that has an output), in edge order. Each such edge feeds
/// its source's output into the node, at the edge's target port.
pub fn node_input_edges(edges: &Vec<GraphEdge>, node_id: &str, produced: &Vec<String>) -> (r: Option<Vec<GraphEdge>>)
    ensures
        match r {
            None => incoming_edges(edges@, node_id@).len() == 0,
            Some(b) => incoming_edges(edges@, node_id@).len() > 0
                && same_edges(b@, bound_edges(edges@, node_id@, produced@)),
        },
{
    let mut any = false;
    let mut b: Vec<GraphEdge> = Vec::new();
    let mut i: usize = 0;
    while i < edges.len()
        invariant
            i <= edges.len(),
            any == (incoming_edges(edges@.take(i as int), node_id@).len() > 0),
            same_edges(b@, bound_edges(edges@.take(i as int), node_id@, produced@)),
        decreases edges.len() - i,
    {
        assert(edges@.take(i + 1).drop_last() =~= edges@.take(i as int));
        assert(edges@.take(i + 1).last() == edges@[i as int]);
        let e = &edges[i];
        if str_eq(e.to_node.as_str(), node_id) {
            any = true;
            if contains_str(produced, e.from_node.as_str()) {
                b.push(copy_edge(e));
            }
        }
        i += 1;
    }
    assert(edges@.take(i as int) =~= edges@);
    if any { Some(b) } else { None }
}

} // verus!
