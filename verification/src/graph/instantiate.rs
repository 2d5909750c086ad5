use vstd::prelude::*;
use crate::error::{invalid, invalid_with, McpError};
use crate::graph::model::GraphEdge;
use crate::graph::validate::{CreativeGraph, GraphNode};
use crate::text::{id_rule, is_valid_id, str_eq, validate_id};

verus! {

/// A node's input value: objects and arrays of values, strings, and any other scalar,
/// kept as its JSON text.
#[derive(Debug)]
pub enum InputValue {
    Object(Vec<(String, InputValue)>),
    Array(Vec<InputValue>),
    Text(String),
    Other(String),
}

/// What a template's replacements map `s` to: nothing, a string (`Some(Some(..))`), or
/// a value of another JSON type (`Some(None)`); the first entry for `s` counts.
pub open spec fn replacement_of(reps: Seq<(String, Option<String>)>, s: Seq<char>) -> Option<Option<String>>
    decreases reps.len(),
{
    if reps.len() == 0 {
        None
    } else if reps[0].0@ == s {
        Some(reps[0].1)
    } else {
        replacement_of(reps.drop_first(), s)
    }
}

/// Some string in `v` is mapped to a value that is not a string.
pub open spec fn substitution_fails(v: InputValue, reps: Seq<(String, Option<String>)>) -> bool
    decreases v,
{
    match v {
        InputValue::Text(s) => replacement_of(reps, s@) == Some(None::<String>),
        InputValue::Array(items) => exists|i: int| 0 <= i < items@.len() && substitution_fails(#[trigger] items@[i], reps),
        InputValue::Object(entries) => exists|i: int| 0 <= i < entries@.len() && substitution_fails((#[trigger] entries@[i]).1, reps),
        InputValue::Other(_) => false,
    }
}

/// `out` is `v` with every string that the replacements map to a string replaced by it.
pub open spec fn substituted(v: InputValue, reps: Seq<(String, Option<String>)>, out: InputValue) -> bool
    decreases v,
{
    match v {
        InputValue::Text(s) => match replacement_of(reps, s@) {
            Some(Some(r)) => out matches InputValue::Text(t) && t@ == r@,
            _ => out matches InputValue::Text(t) && t@ == s@,
        },
        InputValue::Array(items) => match out {
            InputValue::Array(o) => o@.len() == items@.len()
                && forall|i: int| 0 <= i < items@.len() ==> substituted(#[trigger] items@[i], reps, o@[i]),
            _ => false,
        },
        InputValue::Object(entries) => match out {
            InputValue::Object(o) => o@.len() == entries@.len()
                && forall|i: int| 0 <= i < entries@.len() ==> o@[i].0@ == (#[trigger] entries@[i]).0@
                    && substituted(entries@[i].1, reps, o@[i].1),
            _ => false,
        },
        InputValue::Other(x) => out matches InputValue::Other(y) && y@ == x@,
    }
}

fn find_replacement(reps: &Vec<(String, Option<String>)>, s: &str) -> (r: Option<usize>)
    ensures
        match r {
            Some(i) => i < reps.len() && replacement_of(reps@, s@) == Some(reps@[i as int].1),
            None => replacement_of(reps@, s@) is None,
        },
{
    let mut i: usize = 0;
    assert(reps@.skip(0) =~= reps@);
    while i < reps.len()
        invariant
            i <= reps.len(),
            replacement_of(reps@, s@) == replacement_of(reps@.skip(i as int), s@),
        decreases reps.len() - i,
    {
        assert(reps@.skip(i as int).drop_first() =~= reps@.skip(i + 1));
        assert(reps@.skip(i as int)[0] == reps@[i as int]);
        if str_eq(reps[i].0.as_str(), s) {
            return Some(i);
        }
        i += 1;
    }
    assert(reps@.skip(i as int).len() == 0);
    None
}

/// Replaces, through a node's input value, each string that the template's replacements
/// name; a replacement that is not a string is refused.
pub fn substitute_value(v: &InputValue, reps: &Vec<(String, Option<String>)>) -> (r: Result<InputValue, McpError>)
    ensures
        r is Err <==> substitution_fails(*v, reps@),
        r matches Ok(out) ==> substituted(*v, reps@, out),
        r matches Err(e) ==> invalid_with(e, "graph template replacements must map string identities to strings"@),
    decreases v,
{
    match v {
        InputValue::Text(s) => {
            match find_replacement(reps, s.as_str()) {
                Some(i) => match &reps[i].1 {
                    Some(r) => Ok(InputValue::Text(r.clone())),
                    None => Err(invalid("graph template replacements must map string identities to strings")),
                },
                None => Ok(InputValue::Text(s.clone())),
            }
        },
        InputValue::Other(x) => Ok(InputValue::Other(x.clone())),
        InputValue::Array(items) => {
            let mut out: Vec<InputValue> = Vec::new();
            let mut i: usize = 0;
            while i < items.len()
                invariant
                    i <= items@.len(),
                    *v == InputValue::Array(*items),
                    out@.len() == i,
                    forall|k: int| 0 <= k < i ==> substituted(#[trigger] items@[k], reps@, out@[k]),
                    forall|k: int| 0 <= k < i ==> !substitution_fails(#[trigger] items@[k], reps@),
                decreases items@.len() - i,
            {
                proof {
                    assert(decreases_to!(*v => (*v)->Array_0));
                    assert(decreases_to!(*items => items@));
                    assert(decreases_to!(items@ => items@[i as int]));
                }
                match substitute_value(&items[i], reps) {
                    Ok(o) => { out.push(o); },
                    Err(e) => {
                        proof { assert(substitution_fails(items@[i as int], reps@)); }
                        return Err(e);
                    },
                }
                i += 1;
            }
            Ok(InputValue::Array(out))
        },
        InputValue::Object(entries) => {
            let mut out: Vec<(String, InputValue)> = Vec::new();
            let mut i: usize = 0;
            while i < entries.len()
                invariant
                    i <= entries@.len(),
                    *v == InputValue::Object(*entries),
                    out@.len() == i,
                    forall|k: int| 0 <= k < i ==> out@[k].0@ == (#[trigger] entries@[k]).0@
                        && substituted(entries@[k].1, reps@, out@[k].1),
                    forall|k: int| 0 <= k < i ==> !substitution_fails((#[trigger] entries@[k]).1, reps@),
                decreases entries@.len() - i,
            {
                proof {
                    assert(decreases_to!(*v => (*v)->Object_0));
                    assert(decreases_to!(*entries => entries@));
                    assert(decreases_to!(entries@ => entries@[i as int]));
                    assert(decreases_to!(entries@[i as int] => entries@[i as int].1));
                }
                match substitute_value(&entries[i].1, reps) {
                    Ok(o) => { out.push((entries[i].0.clone(), o)); },
                    Err(e) => {
                        proof { assert(substitution_fails(entries@[i as int].1, reps@)); }
                        return Err(e);
                    },
                }
                i += 1;
            }
            Ok(InputValue::Object(out))
        },
    }
}

/// The binding a node of an instantiated graph selects: the override named for it, where
/// that is a string, else the template's own.
pub open spec fn instantiated_binding(overrides: Seq<(String, Option<String>)>, n: GraphNode) -> Option<String> {
    match replacement_of(overrides, n.node_id@) {
        Some(Some(b)) => Some(b),
        _ => n.execution_binding_id,
    }
}

/// Every string override names a valid binding identity.
pub open spec fn overrides_ok(overrides: Seq<(String, Option<String>)>, nodes: Seq<GraphNode>) -> bool {
    forall|i: int| 0 <= i < nodes.len() ==> match replacement_of(overrides, (#[trigger] nodes[i]).node_id@) {
        Some(Some(b)) => is_valid_id(b@),
        _ => true,
    }
}

/// When instantiating a template succeeds: a valid new graph identity, inputs whose
/// replacements are all strings, and overrides that name valid bindings.
pub open spec fn instantiation_ok(
    graph_id: Seq<char>,
    nodes: Seq<GraphNode>,
    inputs: Seq<InputValue>,
    reps: Seq<(String, Option<String>)>,
    overrides: Seq<(String, Option<String>)>,
) -> bool {
    &&& is_valid_id(graph_id)
    &&& forall|i: int| 0 <= i < inputs.len() ==> !substitution_fails(#[trigger] inputs[i], reps)
    &&& overrides_ok(overrides, nodes)
}

/// Node `i` cannot be instantiated: its input names a replacement that is not a string,
/// or its binding override is not an identifier.
pub open spec fn node_instantiation_refused(
    nodes: Seq<GraphNode>,
    inputs: Seq<InputValue>,
    reps: Seq<(String, Option<String>)>,
    overrides: Seq<(String, Option<String>)>,
    i: int,
) -> bool {
    ||| substitution_fails(inputs[i], reps)
    ||| (replacement_of(overrides, nodes[i].node_id@) matches Some(Some(b)) && !is_valid_id(b@))
}

/// Node `i` is the first node that cannot be instantiated.
pub open spec fn first_refused_instantiation(
    nodes: Seq<GraphNode>,
    inputs: Seq<InputValue>,
    reps: Seq<(String, Option<String>)>,
    overrides: Seq<(String, Option<String>)>,
    i: int,
) -> bool {
    &&& 0 <= i < nodes.len()
    &&& node_instantiation_refused(nodes, inputs, reps, overrides, i)
    &&& forall|j: int| 0 <= j < i ==> !#[trigger] node_instantiation_refused(nodes, inputs, reps, overrides, j)
}

/// Why instantiating a template is refused: an invalid graph identity, or the first node
/// whose input or binding override is refused.
pub open spec fn instantiation_refusal(
    graph_id: Seq<char>,
    nodes: Seq<GraphNode>,
    inputs: Seq<InputValue>,
    reps: Seq<(String, Option<String>)>,
    overrides: Seq<(String, Option<String>)>,
) -> Seq<char> {
    if !is_valid_id(graph_id) {
        "graph_id"@ + id_rule()
    } else {
        let i = choose|i: int| #[trigger] first_refused_instantiation(nodes, inputs, reps, overrides, i);
        if substitution_fails(inputs[i], reps) {
            "graph template replacements must map string identities to strings"@
        } else {
            "execution_binding_id"@ + id_rule()
        }
    }
}

proof fn lemma_first_refused_unique(
    nodes: Seq<GraphNode>,
    inputs: Seq<InputValue>,
    reps: Seq<(String, Option<String>)>,
    overrides: Seq<(String, Option<String>)>,
    i: int,
)
    requires
        first_refused_instantiation(nodes, inputs, reps, overrides, i),
    ensures
        (choose|c: int| #[trigger] first_refused_instantiation(nodes, inputs, reps, overrides, c)) == i,
{
    let c = choose|c: int| #[trigger] first_refused_instantiation(nodes, inputs, reps, overrides, c);
    assert(first_refused_instantiation(nodes, inputs, reps, overrides, c));
    if c < i {
        assert(!node_instantiation_refused(nodes, inputs, reps, overrides, c));
    } else if i < c {
        assert(!node_instantiation_refused(nodes, inputs, reps, overrides, i));
    }
}

fn copy_edges(edges: &Vec<GraphEdge>) -> (c: Vec<GraphEdge>)
    ensures
        c@ == edges@,
{
    let mut c: Vec<GraphEdge> = Vec::new();
    let mut i: usize = 0;
    while i < edges.len()
        invariant
            i <= edges.len(),
            c@ == edges@.take(i as int),
        decreases edges.len() - i,
    {
        let e = &edges[i];
        c.push(GraphEdge {
            from_node: e.from_node.clone(),
            from_port: e.from_port.clone(),
            to_node: e.to_node.clone(),
            to_port: e.to_port.clone(),
        });
        assert(c@ =~= edges@.take(i + 1));
        i += 1;
    }
    assert(edges@.take(edges.len() as int) =~= edges@);
    c
}

/// Makes a graph of a project from a template: the new identity and project, revision 1,
/// the template's nodes and edges, each node's input value with the replacements applied,
/// and each node's binding overridden where the overrides name one. The caller validates
/// the result before storing it.
pub fn instantiate_graph(
    template: &CreativeGraph,
    inputs: &Vec<InputValue>,
    graph_id: &str,
    project_id: &str,
    reps: &Vec<(String, Option<String>)>,
    overrides: &Vec<(String, Option<String>)>,
) -> (r: Result<(CreativeGraph, Vec<InputValue>), McpError>)
    requires
        inputs@.len() == template.nodes@.len(),
    ensures
        r is Ok <==> instantiation_ok(graph_id@, template.nodes@, inputs@, reps@, overrides@),
        r matches Err(e) ==> invalid_with(e, instantiation_refusal(graph_id@, template.nodes@, inputs@, reps@, overrides@)),
        r matches Ok((g, ins)) ==> {
            &&& g.schema_version == template.schema_version
            &&& g.graph_id@ == graph_id@ && g.project_id@ == project_id@ && g.revision == 1
            &&& g.edges@ == template.edges@
            &&& g.nodes@.len() == template.nodes@.len()
            &&& forall|i: int| 0 <= i < g.nodes@.len() ==> (#[trigger] g.nodes@[i]).node_id@ == template.nodes@[i].node_id@
                && g.nodes@[i].kind == template.nodes@[i].kind
                && g.nodes@[i].execution_binding_id == instantiated_binding(overrides@, template.nodes@[i])
            &&& ins@.len() == inputs@.len()
            &&& forall|i: int| 0 <= i < ins@.len() ==> substituted(inputs@[i], reps@, #[trigger] ins@[i])
        },
{
    match validate_id(graph_id, "graph_id") {
        Ok(()) => {},
        Err(e) => { return Err(e); },
    }
    let mut nodes: Vec<GraphNode> = Vec::new();
    let mut ins: Vec<InputValue> = Vec::new();
    let mut i: usize = 0;
    while i < template.nodes.len()
        invariant
            i <= template.nodes@.len(),
            inputs@.len() == template.nodes@.len(),
            is_valid_id(graph_id@),
            nodes@.len() == i && ins@.len() == i,
            forall|k: int| 0 <= k < i ==> (#[trigger] nodes@[k]).node_id@ == template.nodes@[k].node_id@
                && nodes@[k].kind == template.nodes@[k].kind
                && nodes@[k].execution_binding_id == instantiated_binding(overrides@, template.nodes@[k]),
            forall|k: int| 0 <= k < i ==> substituted(inputs@[k], reps@, #[trigger] ins@[k]),
            forall|k: int| 0 <= k < i ==> !substitution_fails(#[trigger] inputs@[k], reps@),
            forall|k: int| 0 <= k < i ==> match replacement_of(overrides@, (#[trigger] template.nodes@[k]).node_id@) {
                Some(Some(b)) => is_valid_id(b@),
                _ => true,
            },
        decreases template.nodes@.len() - i,
    {
        let node = &template.nodes[i];
        let value = match substitute_value(&inputs[i], reps) {
            Ok(v) => v,
            Err(e) => {
                proof {
                    assert(first_refused_instantiation(template.nodes@, inputs@, reps@, overrides@, i as int));
                    lemma_first_refused_unique(template.nodes@, inputs@, reps@, overrides@, i as int);
                }
                return Err(e);
            },
        };
        let binding = match find_replacement(overrides, node.node_id.as_str()) {
            Some(j) => match &overrides[j].1 {
                Some(b) => {
                    match validate_id(b.as_str(), "execution_binding_id") {
                        Ok(()) => {},
                        Err(e) => {
                            proof {
                                assert(!overrides_ok(overrides@, template.nodes@) || !is_valid_id(b@));
                                assert(first_refused_instantiation(template.nodes@, inputs@, reps@, overrides@, i as int));
                                lemma_first_refused_unique(template.nodes@, inputs@, reps@, overrides@, i as int);
                            }
                            return Err(e);
                        },
                    }
                    Some(b.clone())
                },
                None => node.execution_binding_id.clone(),
            },
            None => node.execution_binding_id.clone(),
        };
        nodes.push(GraphNode { node_id: node.node_id.clone(), kind: node.kind, execution_binding_id: binding });
        ins.push(value);
        i += 1;
    }
    let graph = CreativeGraph {
        schema_version: template.schema_version,
        graph_id: graph_id.to_owned(),
        project_id: project_id.to_owned(),
        revision: 1,
        nodes,
        edges: copy_edges(&template.edges),
    };
    Ok((graph, ins))
}

} // verus!
