use vstd::prelude::*;
use crate::error::{invalid, invalid_with, McpError};
use crate::graph::model::{GraphNodeKind, GraphEdge, GraphDiagnostic, GraphValidation, node_capability, capability_for_node, is_valid_port, validate_port, diagnostic};
use crate::graph::topology::{kahn_order, has_ranking, respects, orders_edges, lemma_distinct_below};
use crate::order::sort_strings;
use crate::text::{id_rule, has_view, distinct_views, is_valid_id, validate_id, str_eq, contains_str, position_of};

verus! {

broadcast use vstd::string::group_string_axioms, vstd::seq_lib::group_seq_properties;

pub const CREATIVE_SCHEMA_VERSION: u32 = 1;
pub const MAX_GRAPH_NODES: usize = 256;
pub const MAX_GRAPH_EDGES: usize = 1024;

/// A graph node as the validator reads it: identity, kind and selected binding.
#[derive(Clone, Debug)]
pub struct GraphNode {
    pub node_id: String,
    pub kind: GraphNodeKind,
    pub execution_binding_id: Option<String>,
}

/// A creative graph: nodes joined by port-to-port edges.
#[derive(Clone, Debug)]
pub struct CreativeGraph {
    pub schema_version: u32,
    pub graph_id: String,
    pub project_id: String,
    pub revision: u32,
    pub nodes: Vec<GraphNode>,
    pub edges: Vec<GraphEdge>,
}

/// What the registry says of a node's selected execution binding.
#[derive(Clone, Copy, Debug, PartialEq, Eq, Structural)]
pub enum BindingCheck {
    NotFound,
    Unavailable,
    Incompatible,
    Compatible,
}

/// What the validator learns of one node from its inputs, the project and the registry.
#[derive(Clone, Copy, Debug)]
pub struct NodeFacts {
    /// The inputs are a bounded object without endpoints, credentials or code.
    pub inputs_within_bounds: bool,
    /// `inputs.text` is a string.
    pub text_present: bool,
    /// `inputs.asset_id` names an asset of the project.
    pub asset_found: bool,
    /// `inputs.element_id` names an element of the project.
    pub element_found: bool,
    /// `inputs.element_id` and `inputs.revision_id` name an existing element revision.
    pub revision_found: bool,
    /// The node's capability is in the registry.
    pub capability_registered: bool,
    /// The node's capability is run through a caller-selected execution binding.
    pub binding_required: bool,
    /// The registry's answer on the selected binding.
    pub binding_check: BindingCheck,
}

/// A diagnostic as its code and the node it names.
pub type DiagView = (Seq<char>, Option<Seq<char>>);

pub open spec fn diag_view(d: GraphDiagnostic) -> DiagView {
    (d.code@, match d.node_id { Some(n) => Some(n@), None => None })
}

pub open spec fn diag_views(ds: Seq<GraphDiagnostic>) -> Seq<DiagView> {
    ds.map_values(|d: GraphDiagnostic| diag_view(d))
}

/// The codes that checking one node's references and capability produces.
pub open spec fn node_check_codes(kind: GraphNodeKind, f: NodeFacts, has_binding: bool) -> Seq<Seq<char>> {
    let refs = match kind {
        GraphNodeKind::InputText => if f.text_present { seq![] } else { seq!["input_text_required"@] },
        GraphNodeKind::InputAsset => if f.asset_found { seq![] } else { seq!["asset_reference_invalid"@] },
        GraphNodeKind::ElementRef => if f.element_found { seq![] } else { seq!["element_reference_invalid"@] },
        GraphNodeKind::SelectRevision => if f.revision_found { seq![] } else { seq!["revision_reference_invalid"@] },
        _ => seq![],
    };
    let capability = if node_capability(kind) is None {
        seq![]
    } else if !f.capability_registered {
        seq!["capability_unavailable"@]
    } else if !f.binding_required {
        seq![]
    } else if !has_binding {
        seq!["execution_binding_required"@]
    } else {
        match f.binding_check {
            BindingCheck::NotFound | BindingCheck::Unavailable => seq!["execution_binding_unavailable"@],
            BindingCheck::Incompatible => seq!["execution_binding_incompatible"@],
            BindingCheck::Compatible => seq![],
        }
    };
    refs + capability
}

/// Node `i`'s identity already occurred among the earlier nodes.
pub open spec fn repeats_earlier(nodes: Seq<GraphNode>, i: int) -> bool {
    exists|j: int| 0 <= j < i && (#[trigger] nodes[j]).node_id@ == nodes[i].node_id@
}

pub open spec fn node_ids(nodes: Seq<GraphNode>) -> Seq<String> {
    nodes.map_values(|n: GraphNode| n.node_id)
}

pub open spec fn has_duplicate_node(nodes: Seq<GraphNode>) -> bool {
    exists|i: int| 0 <= i < nodes.len() && #[trigger] repeats_earlier(nodes, i)
}

/// The diagnostics of the first `n` nodes, in node order.
pub open spec fn node_diags(nodes: Seq<GraphNode>, facts: Seq<NodeFacts>, n: int) -> Seq<DiagView>
    decreases n,
{
    if n <= 0 {
        seq![]
    } else {
        let i = n - 1;
        let id = nodes[i].node_id@;
        let dup: Seq<DiagView> = if repeats_earlier(nodes, i) { seq![("duplicate_node_id"@, Some(id))] } else { seq![] };
        node_diags(nodes, facts, i) + dup + node_check_codes(nodes[i].kind, facts[i], nodes[i].execution_binding_id is Some).map_values(
            |c: Seq<char>| (c, Some(id)),
        )
    }
}

/// The diagnostic an edge gives, if any; an edge with none is live.
pub open spec fn edge_diag(e: GraphEdge, ids: Seq<String>) -> Option<DiagView> {
    if !(e.from_port@ == "output"@ && e.to_port@ == "input"@) {
        Some(("unsupported_edge_port"@, None))
    } else if e.from_node@ == e.to_node@ {
        Some(("self_edge"@, Some(e.from_node@)))
    } else if !has_view(ids, e.from_node@) || !has_view(ids, e.to_node@) {
        Some(("unknown_edge_node"@, None))
    } else {
        None
    }
}

pub open spec fn is_live(e: GraphEdge, ids: Seq<String>) -> bool {
    edge_diag(e, ids) is None
}

/// The diagnostics of the first `n` edges, in edge order.
pub open spec fn edge_diags(edges: Seq<GraphEdge>, ids: Seq<String>, n: int) -> Seq<DiagView>
    decreases n,
{
    if n <= 0 {
        seq![]
    } else {
        edge_diags(edges, ids, n - 1) + match edge_diag(edges[n - 1], ids) {
            Some(d) => seq![d],
            None => seq![],
        }
    }
}

/// Some ranking of node identities puts every live edge's source below its target.
pub open spec fn live_edges_ranked(edges: Seq<GraphEdge>, ids: Seq<String>) -> bool {
    exists|rank: spec_fn(Seq<char>) -> int| #[trigger] ranks_live(edges, ids, rank)
}

pub open spec fn ranks_live(edges: Seq<GraphEdge>, ids: Seq<String>, rank: spec_fn(Seq<char>) -> int) -> bool {
    forall|k: int| 0 <= k < edges.len() && is_live(#[trigger] edges[k], ids) ==> rank(edges[k].from_node@) < rank(edges[k].to_node@)
}

/// The graph has an order: identities are unique and the live edges have no cycle.
pub open spec fn has_topological_order(g: CreativeGraph) -> bool {
    !has_duplicate_node(g.nodes@) && live_edges_ranked(g.edges@, node_ids(g.nodes@))
}

/// `order` holds each node identity once and lists every live edge's source first.
pub open spec fn is_topological_order(order: Seq<String>, g: CreativeGraph) -> bool {
    let ids = node_ids(g.nodes@);
    &&& order.len() == g.nodes@.len()
    &&& distinct_views(order)
    &&& forall|x: Seq<char>| has_view(order, x) <==> has_view(ids, x)
    &&& forall|k: int| 0 <= k < g.edges@.len() && is_live(#[trigger] g.edges@[k], ids) ==>
        exists|i: int, j: int| 0 <= i < j < order.len() && order[i]@ == g.edges@[k].from_node@ && order[j]@ == g.edges@[k].to_node@
}

/// The checks that make `validate_graph` fail outright.
pub open spec fn graph_rejected(g: CreativeGraph, project_id: Seq<char>, facts: Seq<NodeFacts>) -> bool {
    ||| g.schema_version != CREATIVE_SCHEMA_VERSION
    ||| !is_valid_id(g.graph_id@)
    ||| !is_valid_id(g.project_id@)
    ||| g.project_id@ != project_id
    ||| g.revision == 0
    ||| g.nodes.len() == 0
    ||| g.nodes.len() > MAX_GRAPH_NODES
    ||| g.edges.len() > MAX_GRAPH_EDGES
    ||| exists|i: int| 0 <= i < g.nodes.len() && (!is_valid_id((#[trigger] g.nodes@[i]).node_id@) || !facts[i].inputs_within_bounds)
    ||| exists|k: int| 0 <= k < g.edges.len() && (!is_valid_port((#[trigger] g.edges@[k]).from_port@) || !is_valid_port(g.edges@[k].to_port@))
}

/// Node `i` of the graph is refused outright: its identity is invalid or its inputs are
/// out of bounds.
pub open spec fn node_refused(g: CreativeGraph, facts: Seq<NodeFacts>, i: int) -> bool {
    !is_valid_id(g.nodes@[i].node_id@) || !facts[i].inputs_within_bounds
}

/// Node `i` is the first node refused outright.
pub open spec fn first_refused_node(g: CreativeGraph, facts: Seq<NodeFacts>, i: int) -> bool {
    0 <= i < g.nodes@.len() && node_refused(g, facts, i)
        && forall|j: int| 0 <= j < i ==> !#[trigger] node_refused(g, facts, j)
}

/// Why node `i` is refused.
pub open spec fn node_refusal(g: CreativeGraph, facts: Seq<NodeFacts>, i: int) -> Seq<char> {
    if !is_valid_id(g.nodes@[i].node_id@) {
        "node_id must be 1-64 ASCII letters, digits, '-' or '_'"@
    } else {
        "creative graph inputs exceed allowed bounds or encode endpoints, credentials, or executable payloads"@
    }
}

/// Why `validate_graph` refuses a graph, in the order it checks.
pub open spec fn graph_refusal(g: CreativeGraph, project_id: Seq<char>, facts: Seq<NodeFacts>) -> Seq<char> {
    if g.schema_version != CREATIVE_SCHEMA_VERSION {
        "creative graph schema version is unsupported"@
    } else if !is_valid_id(g.graph_id@) {
        "graph_id"@ + id_rule()
    } else if !is_valid_id(g.project_id@) {
        "project_id"@ + id_rule()
    } else if g.project_id@ != project_id {
        "creative graph belongs to a different project"@
    } else if g.revision == 0 || g.nodes.len() == 0 || g.nodes.len() > MAX_GRAPH_NODES || g.edges.len() > MAX_GRAPH_EDGES {
        "creative graph size or revision exceeds allowed bounds"@
    } else if exists|i: int| #[trigger] first_refused_node(g, facts, i) {
        node_refusal(g, facts, choose|i: int| #[trigger] first_refused_node(g, facts, i))
    } else {
        "graph port identity exceeds allowed bounds"@
    }
}

/// The diagnostics that `validate_graph` reports for an accepted graph.
pub open spec fn expected_diagnostics(g: CreativeGraph, facts: Seq<NodeFacts>) -> Seq<DiagView> {
    let ids = node_ids(g.nodes@);
    node_diags(g.nodes@, facts, g.nodes@.len() as int) + edge_diags(g.edges@, ids, g.edges@.len() as int)
        + if has_topological_order(g) { seq![] } else { seq![("graph_cycle"@, None::<Seq<char>>)] }
}

} // verus!

verus! {

proof fn lemma_diag_views_push(ds: Seq<GraphDiagnostic>, d: GraphDiagnostic)
    ensures
        diag_views(ds.push(d)) == diag_views(ds).push(diag_view(d)),
{
    assert(diag_views(ds.push(d)) =~= diag_views(ds).push(diag_view(d)));
}

fn push_diag(diags: &mut Vec<GraphDiagnostic>, code: &str, message: &str, node_id: Option<&str>)
    ensures
        diag_views(final(diags)@) == diag_views(old(diags)@).push((code@, match node_id { Some(n) => Some(n@), None => None })),
{
    let d = diagnostic(code, message, node_id);
    proof {
        lemma_diag_views_push(diags@, d);
    }
    diags.push(d);
}

/// Appends the diagnostics of one node's references and capability.
fn check_node(node: &GraphNode, facts: &NodeFacts, diags: &mut Vec<GraphDiagnostic>)
    ensures
        diag_views(final(diags)@) == diag_views(old(diags)@) + node_check_codes(node.kind, *facts, node.execution_binding_id is Some).map_values(
            |c: Seq<char>| (c, Some(node.node_id@)),
        ),
{
    let ghost start = diag_views(diags@);
    let id = node.node_id.as_str();
    match node.kind {
        GraphNodeKind::InputText => {
            if !facts.text_present {
                push_diag(diags, "input_text_required", "InputText requires inputs.text", Some(id));
            }
        },
        GraphNodeKind::InputAsset => {
            if !facts.asset_found {
                push_diag(diags, "asset_reference_invalid", "InputAsset requires a project asset_id", Some(id));
            }
        },
        GraphNodeKind::ElementRef => {
            if !facts.element_found {
                push_diag(diags, "element_reference_invalid", "ElementRef requires a project element_id", Some(id));
            }
        },
        GraphNodeKind::SelectRevision => {
            if !facts.revision_found {
                push_diag(diags, "revision_reference_invalid", "SelectRevision requires an existing element revision", Some(id));
            }
        },
        _ => {},
    }
    let ghost mid = diag_views(diags@);
    if capability_for_node(&node.kind).is_some() {
        if !facts.capability_registered {
            push_diag(diags, "capability_unavailable", "graph node references an unavailable capability", Some(id));
        } else if facts.binding_required {
            match &node.execution_binding_id {
                None => push_diag(
                    diags,
                    "execution_binding_required",
                    "pluggable graph node requires caller-selected execution_binding_id",
                    Some(id),
                ),
                Some(_) => match facts.binding_check {
                    BindingCheck::NotFound | BindingCheck::Unavailable => push_diag(
                        diags,
                        "execution_binding_unavailable",
                        "selected execution binding is unavailable",
                        Some(id),
                    ),
                    BindingCheck::Incompatible => push_diag(
                        diags,
                        "execution_binding_incompatible",
                        "selected execution binding does not support this capability",
                        Some(id),
                    ),
                    BindingCheck::Compatible => {},
                },
            }
        }
    }
    proof {
        let codes = node_check_codes(node.kind, *facts, node.execution_binding_id is Some);
        assert(diag_views(diags@) =~= start + codes.map_values(|c: Seq<char>| (c, Some(node.node_id@))));
    }
}

/// The diagnostic that an edge gives, or `None` for a live edge.
fn classify_edge(e: &GraphEdge, ids: &Vec<String>) -> (r: Option<GraphDiagnostic>)
    ensures
        match edge_diag(*e, ids@) {
            Some(d) => r is Some && diag_view(r->0) == d,
            None => r is None,
        },
{
    if !(str_eq(e.from_port.as_str(), "output") && str_eq(e.to_port.as_str(), "input")) {
        return Some(diagnostic(
            "unsupported_edge_port",
            "minimal creative graph runtime currently supports output -> input edges only",
            None,
        ));
    }
    if e.from_node == e.to_node {
        return Some(diagnostic("self_edge", "graph edge cannot target the same node", Some(e.from_node.as_str())));
    }
    if !contains_str(ids, e.from_node.as_str()) || !contains_str(ids, e.to_node.as_str()) {
        return Some(diagnostic("unknown_edge_node", "graph edge references an unknown node", None));
    }
    None
}

/// The node identities with repeats dropped, in order of first occurrence.
fn unique_ids(nodes: &Vec<GraphNode>) -> (u: Vec<String>)
    ensures
        distinct_views(u@),
        forall|x: Seq<char>| has_view(u@, x) <==> has_view(node_ids(nodes@), x),
        u.len() <= nodes.len(),
        u.len() == nodes.len() <==> !has_duplicate_node(nodes@),
{
    let mut u: Vec<String> = Vec::new();
    let ghost mut dup = false;
    let mut i: usize = 0;
    while i < nodes.len()
        invariant
            i <= nodes.len(),
            distinct_views(u@),
            forall|x: Seq<char>| has_view(u@, x) <==> has_view(node_ids(nodes@).take(i as int), x),
            u.len() <= i,
            u.len() == i <==> !(exists|j: int| 0 <= j < i && #[trigger] repeats_earlier(nodes@, j)),
        decreases nodes.len() - i,
    {
        let ghost ids = node_ids(nodes@);
        let id = &nodes[i].node_id;
        proof {
            assert(ids.take(i + 1) =~= ids.take(i as int).push(*id));
            assert(ids[i as int] == *id);
            assert(has_view(u@, id@) <==> repeats_earlier(nodes@, i as int)) by {
                if has_view(u@, id@) {
                    assert(has_view(ids.take(i as int), id@));
                    let j = choose|j: int| 0 <= j < ids.take(i as int).len() && (#[trigger] ids.take(i as int)[j])@ == id@;
                    assert(nodes@[j].node_id == ids[j]);
                }
                if repeats_earlier(nodes@, i as int) {
                    let j = choose|j: int| 0 <= j < i && (#[trigger] nodes@[j]).node_id@ == nodes@[i as int].node_id@;
                    assert(ids.take(i as int)[j] == nodes@[j].node_id);
                    assert(has_view(ids.take(i as int), id@));
                }
            }
        }
        if !contains_str(&u, id.as_str()) {
            let ghost old_u = u@;
            u.push(id.clone());
            proof {
                assert forall|x: Seq<char>| has_view(u@, x) <==> has_view(ids.take(i + 1), x) by {
                    if has_view(u@, x) {
                        let j = choose|j: int| 0 <= j < u@.len() && (#[trigger] u@[j])@ == x;
                        if j < old_u.len() {
                            assert(u@[j] == old_u[j]);
                            assert(has_view(old_u, x));
                            let q = choose|q: int| 0 <= q < ids.take(i as int).len() && (#[trigger] ids.take(i as int)[q])@ == x;
                            assert(ids.take(i + 1)[q] == ids.take(i as int)[q]);
                        } else {
                            assert(ids.take(i + 1)[i as int] == *id);
                        }
                    }
                    if has_view(ids.take(i + 1), x) {
                        let q = choose|q: int| 0 <= q < ids.take(i + 1).len() && (#[trigger] ids.take(i + 1)[q])@ == x;
                        if q < i {
                            assert(ids.take(i as int)[q] == ids.take(i + 1)[q]);
                            assert(has_view(ids.take(i as int), x));
                            assert(has_view(old_u, x));
                            let j = choose|j: int| 0 <= j < old_u.len() && (#[trigger] old_u[j])@ == x;
                            assert(u@[j] == old_u[j]);
                        } else {
                            assert(u@[old_u.len() as int] == *id);
                        }
                    }
                }
                assert forall|a: int, b: int| 0 <= a < u@.len() && 0 <= b < u@.len() && a != b implies (#[trigger] u@[a])@ != (#[trigger] u@[b])@ by {
                    if a < old_u.len() && b < old_u.len() {
                        assert(u@[a] == old_u[a] && u@[b] == old_u[b]);
                    } else if a < old_u.len() {
                        assert(u@[a] == old_u[a]);
                        assert(!has_view(old_u, id@));
                    } else if b < old_u.len() {
                        assert(u@[b] == old_u[b]);
                        assert(!has_view(old_u, id@));
                    }
                }
                assert(!(exists|j: int| 0 <= j < i + 1 && #[trigger] repeats_earlier(nodes@, j)) <==> !(exists|j: int| 0 <= j < i && #[trigger] repeats_earlier(nodes@, j)));
            }
        } else {
            proof {
                assert forall|x: Seq<char>| has_view(u@, x) <==> has_view(ids.take(i + 1), x) by {
                    if has_view(ids.take(i + 1), x) {
                        let q = choose|q: int| 0 <= q < ids.take(i + 1).len() && (#[trigger] ids.take(i + 1)[q])@ == x;
                        if q < i {
                            assert(ids.take(i as int)[q] == ids.take(i + 1)[q]);
                            assert(has_view(ids.take(i as int), x));
                        }
                    }
                    if has_view(u@, x) {
                        assert(has_view(ids.take(i as int), x));
                        let q = choose|q: int| 0 <= q < ids.take(i as int).len() && (#[trigger] ids.take(i as int)[q])@ == x;
                        assert(ids.take(i + 1)[q] == ids.take(i as int)[q]);
                    }
                }
            }
        }
        i += 1;
    }
    proof {
        assert(node_ids(nodes@).take(nodes.len() as int) =~= node_ids(nodes@));
    }
    u
}

} // verus!

verus! {

/// Pair `p` stands for a live edge: its indices name the edge's endpoints in `sorted`.
pub open spec fn pair_is_edge(pair: (usize, usize), sorted: Seq<String>, e: GraphEdge) -> bool {
    &&& (pair.0 as int) < sorted.len()
    &&& (pair.1 as int) < sorted.len()
    &&& sorted[pair.0 as int]@ == e.from_node@
    &&& sorted[pair.1 as int]@ == e.to_node@
}

pub open spec fn pair_from_live(pair: (usize, usize), sorted: Seq<String>, edges: Seq<GraphEdge>, ids: Seq<String>) -> bool {
    exists|k: int| 0 <= k < edges.len() && is_live(edges[k], ids) && #[trigger] pair_is_edge(pair, sorted, edges[k])
}

pub open spec fn pairs_from_live(pairs: Seq<(usize, usize)>, sorted: Seq<String>, edges: Seq<GraphEdge>, ids: Seq<String>) -> bool {
    forall|p: int| 0 <= p < pairs.len() ==> #[trigger] pair_from_live(pairs[p], sorted, edges, ids)
}

pub open spec fn live_have_pairs(pairs: Seq<(usize, usize)>, sorted: Seq<String>, edges: Seq<GraphEdge>, ids: Seq<String>, n: int) -> bool {
    forall|k: int| 0 <= k < n && is_live(#[trigger] edges[k], ids) ==> exists|p: int|
        #![trigger pair_is_edge(pairs[p], sorted, edges[k])]
        0 <= p < pairs.len() && pair_is_edge(pairs[p], sorted, edges[k])
}

proof fn lemma_unique_index(sorted: Seq<String>, i: int, j: int)
    requires
        distinct_views(sorted),
        0 <= i < sorted.len(),
        0 <= j < sorted.len(),
        sorted[i]@ == sorted[j]@,
    ensures
        i == j,
{
}

proof fn lemma_ranking_transfer(pairs: Seq<(usize, usize)>, sorted: Seq<String>, edges: Seq<GraphEdge>, ids: Seq<String>)
    requires
        distinct_views(sorted),
        pairs_from_live(pairs, sorted, edges, ids),
        live_have_pairs(pairs, sorted, edges, ids, edges.len() as int),
    ensures
        has_ranking(pairs) <==> live_edges_ranked(edges, ids),
{
    if has_ranking(pairs) {
        let ri = choose|rank: spec_fn(int) -> int| #[trigger] respects(pairs, rank);
        let rs = |s: Seq<char>| ri(choose|i: int| 0 <= i < sorted.len() && sorted[i]@ == s);
        assert forall|k: int| 0 <= k < edges.len() && is_live(#[trigger] edges[k], ids) implies rs(edges[k].from_node@) < rs(edges[k].to_node@) by {
            let p = choose|p: int| #![trigger pair_is_edge(pairs[p], sorted, edges[k])] 0 <= p < pairs.len() && pair_is_edge(pairs[p], sorted, edges[k]);
            let a = pairs[p].0 as int;
            let b = pairs[p].1 as int;
            let ia = choose|i: int| 0 <= i < sorted.len() && sorted[i]@ == edges[k].from_node@;
            let ib = choose|i: int| 0 <= i < sorted.len() && sorted[i]@ == edges[k].to_node@;
            lemma_unique_index(sorted, ia, a);
            lemma_unique_index(sorted, ib, b);
            assert(ri(pairs[p].0 as int) < ri(pairs[p].1 as int));
        }
        assert(ranks_live(edges, ids, rs));
    }
    if live_edges_ranked(edges, ids) {
        let rs = choose|rank: spec_fn(Seq<char>) -> int| #[trigger] ranks_live(edges, ids, rank);
        let ri = |i: int| rs(sorted[i]@);
        assert forall|p: int| 0 <= p < pairs.len() implies ri((#[trigger] pairs[p]).0 as int) < ri(pairs[p].1 as int) by {
            assert(pair_from_live(pairs[p], sorted, edges, ids));
            let k = choose|k: int| 0 <= k < edges.len() && is_live(edges[k], ids) && #[trigger] pair_is_edge(pairs[p], sorted, edges[k]);
            assert(rs(edges[k].from_node@) < rs(edges[k].to_node@));
        }
        assert(respects(pairs, ri));
    }
}

/// A permutation of distinct-view strings keeps them distinct and keeps their views.
proof fn lemma_permutation_views(v: Seq<String>, out: Seq<String>)
    requires
        distinct_views(v),
        out.to_multiset() == v.to_multiset(),
    ensures
        distinct_views(out),
        out.len() == v.len(),
        forall|x: Seq<char>| has_view(out, x) <==> has_view(v, x),
{
    v.to_multiset_ensures();
    out.to_multiset_ensures();
    assert(v.no_duplicates());
    v.lemma_multiset_has_no_duplicates();
    out.lemma_multiset_has_no_duplicates_conv();
    assert forall|x: Seq<char>| has_view(out, x) <==> has_view(v, x) by {
        if has_view(out, x) {
            let i = choose|i: int| 0 <= i < out.len() && (#[trigger] out[i])@ == x;
            assert(out.contains(out[i]));
            assert(out.to_multiset().count(out[i]) > 0);
            assert(v.contains(out[i]));
        }
        if has_view(v, x) {
            let i = choose|i: int| 0 <= i < v.len() && (#[trigger] v[i])@ == x;
            assert(v.contains(v[i]));
            assert(v.to_multiset().count(v[i]) > 0);
            assert(out.contains(v[i]));
        }
    }
    assert forall|i: int, j: int| 0 <= i < out.len() && 0 <= j < out.len() && i != j implies (#[trigger] out[i])@ != (#[trigger] out[j])@ by {
        assert(out[i] != out[j]);
        assert(out.contains(out[i]) && out.contains(out[j]));
        assert(out.to_multiset().count(out[i]) > 0 && out.to_multiset().count(out[j]) > 0);
        assert(v.contains(out[i]) && v.contains(out[j]));
        let p = choose|p: int| 0 <= p < v.len() && v[p] == out[i];
        let q = choose|q: int| 0 <= q < v.len() && v[q] == out[j];
    }
}

} // verus!

verus! {

proof fn lemma_edge_diag_same(e: GraphEdge, s1: Seq<String>, s2: Seq<String>)
    requires
        forall|x: Seq<char>| has_view(s1, x) <==> has_view(s2, x),
    ensures
        edge_diag(e, s1) == edge_diag(e, s2),
{
    assert(has_view(s1, e.from_node@) == has_view(s2, e.from_node@));
    assert(has_view(s1, e.to_node@) == has_view(s2, e.to_node@));
}

/// Checks every node and collects the node diagnostics, in node order.
fn node_phase(graph: &CreativeGraph, facts: &Vec<NodeFacts>) -> (r: Result<Vec<GraphDiagnostic>, McpError>)
    requires
        facts.len() == graph.nodes.len(),
    ensures
        r is Err <==> exists|i: int| 0 <= i < graph.nodes.len() && (!is_valid_id((#[trigger] graph.nodes@[i]).node_id@) || !facts@[i].inputs_within_bounds),
        r matches Err(e) ==> e is InvalidRequest,
        r matches Err(e) ==> exists|i: int| #[trigger] first_refused_node(*graph, facts@, i)
            && invalid_with(e, node_refusal(*graph, facts@, i)),
        r matches Ok(d) ==> diag_views(d@) == node_diags(graph.nodes@, facts@, graph.nodes@.len() as int),
{
    let mut diags: Vec<GraphDiagnostic> = Vec::new();
    let mut seen: Vec<String> = Vec::new();
    let mut i: usize = 0;
    while i < graph.nodes.len()
        invariant
            i <= graph.nodes.len(),
            facts.len() == graph.nodes.len(),
            seen@ == node_ids(graph.nodes@).take(i as int),
            diag_views(diags@) == node_diags(graph.nodes@, facts@, i as int),
            forall|j: int| 0 <= j < i ==> is_valid_id((#[trigger] graph.nodes@[j]).node_id@) && facts@[j].inputs_within_bounds,
        decreases graph.nodes.len() - i,
    {
        let node = &graph.nodes[i];
        let r = validate_id(node.node_id.as_str(), "node_id");
        if r.is_err() {
            assert(first_refused_node(*graph, facts@, i as int));
            return Err(invalid("node_id must be 1-64 ASCII letters, digits, '-' or '_'"));
        }
        if !facts[i].inputs_within_bounds {
            assert(first_refused_node(*graph, facts@, i as int));
            return Err(invalid("creative graph inputs exceed allowed bounds or encode endpoints, credentials, or executable payloads"));
        }
        let ghost before = diag_views(diags@);
        let dup = contains_str(&seen, node.node_id.as_str());
        proof {
            assert(dup == repeats_earlier(graph.nodes@, i as int)) by {
                if dup {
                    let j = choose|j: int| 0 <= j < seen@.len() && (#[trigger] seen@[j])@ == node.node_id@;
                    assert(seen@[j] == graph.nodes@[j].node_id);
                }
                if repeats_earlier(graph.nodes@, i as int) {
                    let j = choose|j: int| 0 <= j < i && (#[trigger] graph.nodes@[j]).node_id@ == graph.nodes@[i as int].node_id@;
                    assert(seen@[j] == graph.nodes@[j].node_id);
                }
            }
        }
        if dup {
            push_diag(&mut diags, "duplicate_node_id", "graph contains duplicate node identity", Some(node.node_id.as_str()));
        }
        let ghost mid = diag_views(diags@);
        check_node(node, &facts[i], &mut diags);
        seen.push(node.node_id.clone());
        proof {
            assert(seen@ =~= node_ids(graph.nodes@).take(i + 1));
            let id = node.node_id@;
            let d: Seq<DiagView> = if repeats_earlier(graph.nodes@, i as int) { seq![("duplicate_node_id"@, Some(id))] } else { seq![] };
            assert(mid =~= before + d);
        }
        i += 1;
    }
    Ok(diags)
}

/// Checks every edge's ports, collects the edge diagnostics in edge order, and returns
/// each live edge as a pair of positions in `sorted`.
fn edge_phase(graph: &CreativeGraph, sorted: &Vec<String>, diags: &mut Vec<GraphDiagnostic>) -> (r: Result<Vec<(usize, usize)>, McpError>)
    requires
        distinct_views(sorted@),
        forall|x: Seq<char>| has_view(sorted@, x) <==> has_view(node_ids(graph.nodes@), x),
    ensures
        r is Err <==> exists|k: int| 0 <= k < graph.edges.len() && (!is_valid_port((#[trigger] graph.edges@[k]).from_port@) || !is_valid_port(graph.edges@[k].to_port@)),
        r matches Err(e) ==> invalid_with(e, "graph port identity exceeds allowed bounds"@),
        r matches Ok(pairs) ==> {
            &&& diag_views(final(diags)@) == diag_views(old(diags)@) + edge_diags(graph.edges@, node_ids(graph.nodes@), graph.edges@.len() as int)
            &&& pairs_from_live(pairs@, sorted@, graph.edges@, node_ids(graph.nodes@))
            &&& live_have_pairs(pairs@, sorted@, graph.edges@, node_ids(graph.nodes@), graph.edges@.len() as int)
        },
{
    let ghost ids = node_ids(graph.nodes@);
    let ghost start = diag_views(diags@);
    let mut pairs: Vec<(usize, usize)> = Vec::new();
    let mut k: usize = 0;
    while k < graph.edges.len()
        invariant
            k <= graph.edges.len(),
            ids == node_ids(graph.nodes@),
            distinct_views(sorted@),
            forall|x: Seq<char>| has_view(sorted@, x) <==> has_view(ids, x),
            diag_views(diags@) == start + edge_diags(graph.edges@, ids, k as int),
            pairs_from_live(pairs@, sorted@, graph.edges@, ids),
            live_have_pairs(pairs@, sorted@, graph.edges@, ids, k as int),
            forall|j: int| 0 <= j < k ==> is_valid_port((#[trigger] graph.edges@[j]).from_port@) && is_valid_port(graph.edges@[j].to_port@),
        decreases graph.edges.len() - k,
    {
        let e = &graph.edges[k];
        if validate_port(e.from_port.as_str()).is_err() || validate_port(e.to_port.as_str()).is_err() {
            return Err(invalid("graph port identity exceeds allowed bounds"));
        }
        proof {
            lemma_edge_diag_same(*e, sorted@, ids);
        }
        let ghost before_pairs = pairs@;
        match classify_edge(e, sorted) {
            Some(d) => {
                proof {
                    lemma_diag_views_push(diags@, d);
                }
                diags.push(d);
                assert(pairs_from_live(pairs@, sorted@, graph.edges@, ids));
            },
            None => {
                let a = position_of(sorted, e.from_node.as_str());
                let b = position_of(sorted, e.to_node.as_str());
                match (a, b) {
                    (Some(a), Some(b)) => {
                        pairs.push((a, b));
                        proof {
                            assert(pair_is_edge(pairs@[pairs@.len() - 1], sorted@, graph.edges@[k as int]));
                            assert forall|p: int| 0 <= p < pairs@.len() implies #[trigger] pair_from_live(pairs@[p], sorted@, graph.edges@, ids) by {
                                if p < before_pairs.len() {
                                    assert(pairs@[p] == before_pairs[p]);
                                    assert(pair_from_live(before_pairs[p], sorted@, graph.edges@, ids));
                                } else {
                                    assert(p == pairs@.len() - 1);
                                    assert(is_live(graph.edges@[k as int], ids));
                                    assert(pair_is_edge(pairs@[p], sorted@, graph.edges@[k as int]));
                                }
                            }
                            assert forall|k2: int| 0 <= k2 < k + 1 && is_live(#[trigger] graph.edges@[k2], ids) implies exists|p: int|
                                #![trigger pair_is_edge(pairs@[p], sorted@, graph.edges@[k2])]
                                0 <= p < pairs@.len() && pair_is_edge(pairs@[p], sorted@, graph.edges@[k2]) by {
                                if k2 < k {
                                    let p = choose|p: int| #![trigger pair_is_edge(before_pairs[p], sorted@, graph.edges@[k2])]
                                        0 <= p < before_pairs.len() && pair_is_edge(before_pairs[p], sorted@, graph.edges@[k2]);
                                    assert(pairs@[p] == before_pairs[p]);
                                } else {
                                    assert(pair_is_edge(pairs@[pairs@.len() - 1], sorted@, graph.edges@[k2]));
                                }
                            }
                            assert(pairs_from_live(pairs@, sorted@, graph.edges@, ids));
                        }
                    },
                    _ => {
                        proof {
                            assert(false);
                        }
                    },
                }
            },
        }
        proof {
            assert(edge_diags(graph.edges@, ids, k + 1) == edge_diags(graph.edges@, ids, k as int) + match edge_diag(graph.edges@[k as int], ids) {
                Some(d) => seq![d],
                None => seq![],
            });
            assert(diag_views(diags@) =~= start + edge_diags(graph.edges@, ids, k + 1));
        }
        k += 1;
    }
    Ok(pairs)
}

} // verus!

verus! {

proof fn lemma_topological_strings(
    g: CreativeGraph,
    sorted: Seq<String>,
    pairs: Seq<(usize, usize)>,
    order: Seq<usize>,
    topo: Seq<String>,
)
    requires
        distinct_views(sorted),
        forall|x: Seq<char>| has_view(sorted, x) <==> has_view(node_ids(g.nodes@), x),
        sorted.len() == g.nodes@.len(),
        sorted.len() <= usize::MAX,
        live_have_pairs(pairs, sorted, g.edges@, node_ids(g.nodes@), g.edges@.len() as int),
        order.no_duplicates(),
        order.len() == sorted.len(),
        forall|i: int| 0 <= i < order.len() ==> (#[trigger] order[i] as int) < sorted.len(),
        orders_edges(order, pairs),
        topo.len() == order.len(),
        forall|i: int| 0 <= i < topo.len() ==> (#[trigger] topo[i]) == sorted[order[i] as int],
    ensures
        is_topological_order(topo, g),
{
    let ids = node_ids(g.nodes@);
    lemma_distinct_below(order, sorted.len() as int);
    assert forall|i: int, j: int| 0 <= i < topo.len() && 0 <= j < topo.len() && i != j implies (#[trigger] topo[i])@ != (#[trigger] topo[j])@ by {
        assert(order[i] != order[j]);
    }
    assert forall|x: Seq<char>| has_view(topo, x) <==> has_view(ids, x) by {
        if has_view(topo, x) {
            let i = choose|i: int| 0 <= i < topo.len() && (#[trigger] topo[i])@ == x;
            assert(sorted[order[i] as int]@ == x);
            assert(has_view(sorted, x));
        }
        if has_view(ids, x) {
            assert(has_view(sorted, x));
            let v = choose|v: int| 0 <= v < sorted.len() && (#[trigger] sorted[v])@ == x;
            assert(order.contains(v as usize));
            let i = choose|i: int| 0 <= i < order.len() && order[i] == v as usize;
            assert(topo[i] == sorted[v]);
        }
    }
    assert forall|k: int| 0 <= k < g.edges@.len() && is_live(#[trigger] g.edges@[k], ids) implies
        exists|i: int, j: int| 0 <= i < j < topo.len() && topo[i]@ == g.edges@[k].from_node@ && topo[j]@ == g.edges@[k].to_node@ by {
        let p = choose|p: int| #![trigger pair_is_edge(pairs[p], sorted, g.edges@[k])] 0 <= p < pairs.len() && pair_is_edge(pairs[p], sorted, g.edges@[k]);
        let b = pairs[p].1;
        assert(order.contains(b));
        let j = choose|j: int| 0 <= j < order.len() && order[j] == b;
        assert(pairs[p].1 == order[j]);
        let i = choose|i: int| 0 <= i < j && order[i] == pairs[p].0;
        assert(topo[i] == sorted[order[i] as int]);
        assert(topo[j] == sorted[order[j] as int]);
    }
}

/// Validates a creative graph's structure: identities, sizes, ports, references and
/// capabilities (through `facts`, one per node), and acyclicity. An accepted graph gets
/// a topological order of its nodes, or an empty order and a `graph_cycle` diagnostic
/// where its identities repeat or its live edges form a cycle.
pub fn validate_graph(graph: &CreativeGraph, project_id: &str, facts: &Vec<NodeFacts>) -> (r: Result<GraphValidation, McpError>)
    requires
        facts.len() == graph.nodes.len(),
    ensures
        r is Err <==> graph_rejected(*graph, project_id@, facts@),
        r matches Err(e) ==> e is InvalidRequest,
        r matches Err(e) ==> invalid_with(e, graph_refusal(*graph, project_id@, facts@)),
        r matches Ok(v) ==> {
            &&& diag_views(v.diagnostics@) == expected_diagnostics(*graph, facts@)
            &&& v.valid == (v.diagnostics.len() == 0)
            &&& (v.topological_order.len() == 0 <==> !has_topological_order(*graph))
            &&& (has_topological_order(*graph) ==> is_topological_order(v.topological_order@, *graph))
        },
{
    if graph.schema_version != CREATIVE_SCHEMA_VERSION {
        return Err(invalid("creative graph schema version is unsupported"));
    }
    match validate_id(graph.graph_id.as_str(), "graph_id") {
        Err(e) => { return Err(e); },
        Ok(()) => {},
    }
    match validate_id(graph.project_id.as_str(), "project_id") {
        Err(e) => { return Err(e); },
        Ok(()) => {},
    }
    if !str_eq(graph.project_id.as_str(), project_id) {
        return Err(invalid("creative graph belongs to a different project"));
    }
    if graph.revision == 0 || graph.nodes.len() == 0 || graph.nodes.len() > MAX_GRAPH_NODES || graph.edges.len() > MAX_GRAPH_EDGES {
        return Err(invalid("creative graph size or revision exceeds allowed bounds"));
    }
    let mut diags = match node_phase(graph, facts) {
        Ok(d) => d,
        Err(e) => {
            proof {
                let i = choose|i: int| #[trigger] first_refused_node(*graph, facts@, i)
                    && invalid_with(e, node_refusal(*graph, facts@, i));
                let c = choose|c: int| #[trigger] first_refused_node(*graph, facts@, c);
                if c < i {
                    assert(!node_refused(*graph, facts@, c));
                } else if i < c {
                    assert(!node_refused(*graph, facts@, i));
                }
            }
            return Err(e);
        },
    };
    let ghost node_part = diag_views(diags@);
    let unique = unique_ids(&graph.nodes);
    let ghost unique_view = unique@;
    let sorted = sort_strings(unique);
    proof {
        lemma_permutation_views(unique_view, sorted@);
    }
    let pairs = match edge_phase(graph, &sorted, &mut diags) {
        Ok(pairs) => pairs,
        Err(e) => {
            proof {
                if exists|i: int| #[trigger] first_refused_node(*graph, facts@, i) {
                    let i = choose|i: int| #[trigger] first_refused_node(*graph, facts@, i);
                    assert(node_refused(*graph, facts@, i));
                }
            }
            return Err(e);
        },
    };
    proof {
        assert forall|k: int| 0 <= k < pairs.len() implies (#[trigger] pairs@[k]).0 < sorted.len() && pairs@[k].1 < sorted.len() by {
            assert(pair_from_live(pairs@[k], sorted@, graph.edges@, node_ids(graph.nodes@)));
        }
        lemma_ranking_transfer(pairs@, sorted@, graph.edges@, node_ids(graph.nodes@));
    }
    let order = kahn_order(sorted.len(), &pairs);
    let ghost ids = node_ids(graph.nodes@);
    let mut topo: Vec<String> = Vec::new();
    if order.len() != graph.nodes.len() {
        proof {
            if has_topological_order(*graph) {
                assert(sorted.len() == graph.nodes.len());
            }
        }
        let ghost before = diags@;
        push_diag(&mut diags, "graph_cycle", "creative graph must be acyclic", None);
    } else {
        let mut i: usize = 0;
        while i < order.len()
            invariant
                i <= order.len(),
                topo.len() == i,
                forall|q: int| 0 <= q < order.len() ==> (#[trigger] order@[q]) < sorted.len(),
                forall|q: int| 0 <= q < i ==> (#[trigger] topo@[q]) == sorted@[order@[q] as int],
            decreases order.len() - i,
        {
            topo.push(sorted[order[i]].clone());
            i += 1;
        }
        proof {
            assert(!has_duplicate_node(graph.nodes@));
            lemma_topological_strings(*graph, sorted@, pairs@, order@, topo@);
        }
    }
    proof {
        assert(diag_views(diags@) =~= expected_diagnostics(*graph, facts@));
    }
    let valid = diags.len() == 0;
    Ok(GraphValidation { valid, topological_order: topo, diagnostics: diags })
}

} // verus!
