use vstd::prelude::*;
use crate::error::{invalid, invalid_with, McpError};
use crate::jobs::{first_refusal, lemma_first_refusal_prefix, lemma_first_refusal_step};
use crate::graph::model::GraphNodeKind;
use crate::graph::validate::{
    graph_refusal, graph_rejected, expected_diagnostics, validate_graph, CreativeGraph, NodeFacts,
    CREATIVE_SCHEMA_VERSION, MAX_GRAPH_NODES,
};
use crate::production::text_ok;
use crate::text::{id_rule, has_view, is_valid_id, validate_id, validate_text, str_eq, contains_str};

verus! {

/// A reusable graph of a project, with the nodes that take its inputs and give its outputs.
#[derive(Clone, Debug)]
pub struct CreativeGraphTemplate {
    pub schema_version: u32,
    pub template_id: String,
    pub project_id: String,
    pub version: u32,
    pub description: String,
    pub graph: CreativeGraph,
    pub input_node_ids: Vec<String>,
    pub output_node_ids: Vec<String>,
    pub created_at_ms: u128,
}

/// A node kind that takes a template input.
pub open spec fn is_input_kind(kind: GraphNodeKind) -> bool {
    kind is InputText || kind is InputAsset || kind is ElementRef
}

/// Node `k` is the last node of `g` with identifier `id`: the one a lookup by
/// identifier finds.
pub open spec fn last_node_with(g: CreativeGraph, id: Seq<char>, k: int) -> bool {
    &&& 0 <= k < g.nodes.len()
    &&& g.nodes[k].node_id@ == id
    &&& forall|j: int| k < j < g.nodes.len() ==> (#[trigger] g.nodes[j]).node_id@ != id
}

/// Some node of `g` has identifier `id`.
pub open spec fn names_node(g: CreativeGraph, id: Seq<char>) -> bool {
    exists|k: int| 0 <= k < g.nodes.len() && (#[trigger] g.nodes[k]).node_id@ == id
}

/// The node that identifier `id` finds takes a template input.
pub open spec fn names_input_node(g: CreativeGraph, id: Seq<char>) -> bool {
    exists|k: int| #[trigger] last_node_with(g, id, k) && is_input_kind(g.nodes[k].kind)
}

/// No identifier occurs twice in `ids`.
pub open spec fn no_repeats(ids: Seq<String>) -> bool {
    forall|i: int, j: int| 0 <= i < j < ids.len() ==> (#[trigger] ids[i])@ != (#[trigger] ids[j])@
}

/// The declared inputs are distinct valid identifiers of input nodes.
pub open spec fn inputs_ok(t: CreativeGraphTemplate) -> bool {
    &&& no_repeats(t.input_node_ids@)
    &&& forall|i: int| 0 <= i < t.input_node_ids.len() ==> {
        &&& is_valid_id((#[trigger] t.input_node_ids@[i])@)
        &&& names_input_node(t.graph, t.input_node_ids@[i]@)
    }
}

/// The declared outputs are distinct valid identifiers of nodes.
pub open spec fn outputs_ok(t: CreativeGraphTemplate) -> bool {
    &&& no_repeats(t.output_node_ids@)
    &&& forall|i: int| 0 <= i < t.output_node_ids.len() ==> {
        &&& is_valid_id((#[trigger] t.output_node_ids@[i])@)
        &&& names_node(t.graph, t.output_node_ids@[i]@)
    }
}

/// The template's own fields are within bounds.
pub open spec fn template_header_ok(t: CreativeGraphTemplate, project_id: Seq<char>) -> bool {
    &&& t.schema_version == CREATIVE_SCHEMA_VERSION
    &&& is_valid_id(t.template_id@)
    &&& is_valid_id(t.project_id@)
    &&& t.project_id@ == project_id
    &&& t.graph.project_id@ == project_id
    &&& t.version != 0
    &&& text_ok(t.description@, 0, 1024)
    &&& t.input_node_ids.len() <= MAX_GRAPH_NODES
    &&& 1 <= t.output_node_ids.len() <= MAX_GRAPH_NODES
}

/// A template is accepted: its fields are within bounds, its graph validates without
/// diagnostics, and its inputs and outputs name the right nodes once each.
pub open spec fn template_ok(t: CreativeGraphTemplate, project_id: Seq<char>, facts: Seq<NodeFacts>) -> bool {
    &&& template_header_ok(t, project_id)
    &&& !graph_rejected(t.graph, project_id, facts)
    &&& expected_diagnostics(t.graph, facts).len() == 0
    &&& inputs_ok(t)
    &&& outputs_ok(t)
}

/// The position of the last node of `g` with identifier `id`.
pub fn last_node_index(g: &CreativeGraph, id: &str) -> (r: Option<usize>)
    ensures
        r matches Some(k) ==> last_node_with(*g, id@, k as int),
        r is None <==> !names_node(*g, id@),
{
    let mut found: Option<usize> = None;
    let mut k: usize = 0;
    while k < g.nodes.len()
        invariant
            k <= g.nodes.len(),
            found matches Some(f) ==> f < k && g.nodes@[f as int].node_id@ == id@
                && forall|j: int| f < j < k ==> (#[trigger] g.nodes@[j]).node_id@ != id@,
            found is None ==> forall|j: int| 0 <= j < k ==> (#[trigger] g.nodes@[j]).node_id@ != id@,
        decreases g.nodes.len() - k,
    {
        if str_eq(g.nodes[k].node_id.as_str(), id) {
            found = Some(k);
        }
        k += 1;
    }
    if let Some(f) = found {
        assert(last_node_with(*g, id@, f as int));
    }
    found
}

/// Whether the node that `id` finds takes a template input.
fn finds_input_node(g: &CreativeGraph, id: &str) -> (r: bool)
    ensures
        r == names_input_node(*g, id@),
{
    match last_node_index(g, id) {
        Some(k) => {
            let kind = &g.nodes[k].kind;
            let r = matches!(kind, GraphNodeKind::InputText | GraphNodeKind::InputAsset | GraphNodeKind::ElementRef);
            proof {
                assert forall|k2: int| #[trigger] last_node_with(*g, id@, k2) implies k2 == k by {
                    if k2 < k {
                        assert(g.nodes@[k as int].node_id@ == id@);
                    } else if k < k2 {
                        assert(g.nodes@[k2].node_id@ == id@);
                    }
                }
            }
            r
        },
        None => false,
    }
}

/// A declared template node, given those declared before it: a valid identifier, not
/// declared before, naming an input node (for inputs) or a node (for outputs).
pub open spec fn template_node_check(g: CreativeGraph, inputs: bool) -> spec_fn(Seq<String>, String) -> Option<Seq<char>> {
    |before: Seq<String>, id: String| if !is_valid_id(id@) {
        Some("template node id"@ + id_rule())
    } else if has_view(before, id@) {
        Some("creative graph template node id is duplicated"@)
    } else if inputs && !names_input_node(g, id@) {
        Some("creative graph template inputs must reference declared input nodes"@)
    } else if !inputs && !names_node(g, id@) {
        Some("creative graph template output node is invalid"@)
    } else {
        None
    }
}

/// Why `validate_graph_template` refuses a template, in the order it checks.
pub open spec fn template_refusal(t: CreativeGraphTemplate, project_id: Seq<char>, facts: Seq<NodeFacts>) -> Seq<char> {
    if t.schema_version != CREATIVE_SCHEMA_VERSION {
        "creative graph template schema version is unsupported"@
    } else if !is_valid_id(t.template_id@) {
        "template_id"@ + id_rule()
    } else if !is_valid_id(t.project_id@) {
        "project_id"@ + id_rule()
    } else if t.project_id@ != project_id || t.graph.project_id@ != project_id {
        "creative graph template belongs to a different project"@
    } else if !template_header_ok(t, project_id) {
        "creative graph template exceeds allowed bounds"@
    } else if graph_rejected(t.graph, project_id, facts) {
        graph_refusal(t.graph, project_id, facts)
    } else if expected_diagnostics(t.graph, facts).len() != 0 {
        "creative graph template contains an invalid graph"@
    } else if first_refusal(t.input_node_ids@, template_node_check(t.graph, true)) is Some {
        first_refusal(t.input_node_ids@, template_node_check(t.graph, true))->0
    } else {
        first_refusal(t.output_node_ids@, template_node_check(t.graph, false))->0
    }
}

/// Checks a list of template node identifiers in order: each a valid identifier,
/// none repeated, each naming a node, and an input node where `inputs` is set.
fn check_template_nodes(g: &CreativeGraph, ids: &Vec<String>, inputs: bool) -> (r: Result<(), McpError>)
    ensures
        r is Ok <==> {
            &&& no_repeats(ids@)
            &&& forall|i: int| 0 <= i < ids.len() ==> {
                &&& is_valid_id((#[trigger] ids@[i])@)
                &&& if inputs { names_input_node(*g, ids@[i]@) } else { names_node(*g, ids@[i]@) }
            }
        },
        r is Ok <==> first_refusal(ids@, template_node_check(*g, inputs)) is None,
        r matches Err(e) ==> (first_refusal(ids@, template_node_check(*g, inputs)) matches Some(m) && invalid_with(e, m)),
{
    let mut seen: Vec<String> = Vec::new();
    let mut i: usize = 0;
    while i < ids.len()
        invariant
            i <= ids.len(),
            seen@.len() == i,
            forall|k: int| 0 <= k < i ==> (#[trigger] seen@[k])@ == ids@[k]@,
            no_repeats(ids@.take(i as int)),
            forall|k: int| 0 <= k < i ==> {
                &&& is_valid_id((#[trigger] ids@[k])@)
                &&& if inputs { names_input_node(*g, ids@[k]@) } else { names_node(*g, ids@[k]@) }
            },
            first_refusal(ids@.take(i as int), template_node_check(*g, inputs)) is None,
        decreases ids.len() - i,
    {
        proof {
            lemma_first_refusal_step(ids@, i as int, template_node_check(*g, inputs));
        }
        let ghost before = ids@.take(i as int);
        let id = ids[i].as_str();
        match validate_id(id, "template node id") {
            Err(e) => {
                proof {
                    lemma_first_refusal_prefix(ids@, i + 1, template_node_check(*g, inputs));
                }
                return Err(e);
            },
            Ok(()) => {},
        }
        let repeated = contains_str(&seen, id);
        proof {
            if repeated {
                let k = choose|k: int| 0 <= k < seen@.len() && (#[trigger] seen@[k])@ == id@;
                assert(before[k] == ids@[k]);
                assert(has_view(before, id@));
            } else {
                assert forall|j: int| 0 <= j < before.len() implies (#[trigger] before[j])@ != id@ by {
                    assert(before[j] == ids@[j]);
                    assert(seen@[j]@ == ids@[j]@);
                }
            }
        }
        if repeated {
            proof {
                let k = choose|k: int| 0 <= k < seen@.len() && (#[trigger] seen@[k])@ == id@;
                assert(ids@[k]@ == ids@[i as int]@);
                lemma_first_refusal_prefix(ids@, i + 1, template_node_check(*g, inputs));
            }
            return Err(invalid("creative graph template node id is duplicated"));
        }
        if inputs {
            if !finds_input_node(g, id) {
                proof {
                    lemma_first_refusal_prefix(ids@, i + 1, template_node_check(*g, inputs));
                }
                return Err(invalid("creative graph template inputs must reference declared input nodes"));
            }
        } else if last_node_index(g, id).is_none() {
            proof {
                lemma_first_refusal_prefix(ids@, i + 1, template_node_check(*g, inputs));
            }
            return Err(invalid("creative graph template output node is invalid"));
        }
        proof {
            assert forall|a: int, b: int| 0 <= a < b < i + 1 implies
                (#[trigger] ids@.take(i + 1)[a])@ != (#[trigger] ids@.take(i + 1)[b])@ by {
                if b < i {
                    assert(ids@.take(i as int)[a] == ids@[a]);
                    assert(ids@.take(i as int)[b] == ids@[b]);
                } else {
                    assert(seen@[a]@ == ids@[a]@);
                    assert(!has_view(seen@, id@));
                }
            }
        }
        seen.push(ids[i].clone());
        i += 1;
    }
    assert(ids@.take(i as int) =~= ids@);
    Ok(())
}

/// Checks a graph template of a project: its fields, its graph (through `facts`, one
/// per node, as for `validate_graph`), and its declared input and output nodes.
pub fn validate_graph_template(template: &CreativeGraphTemplate, project_id: &str, facts: &Vec<NodeFacts>)
    -> (r: Result<(), McpError>)
    requires
        facts.len() == template.graph.nodes.len(),
    ensures
        r is Ok <==> template_ok(*template, project_id@, facts@),
        r matches Err(e) ==> invalid_with(e, template_refusal(*template, project_id@, facts@)),
{
    if template.schema_version != CREATIVE_SCHEMA_VERSION {
        return Err(invalid("creative graph template schema version is unsupported"));
    }
    match validate_id(template.template_id.as_str(), "template_id") {
        Err(e) => { return Err(e); },
        Ok(()) => {},
    }
    match validate_id(template.project_id.as_str(), "project_id") {
        Err(e) => { return Err(e); },
        Ok(()) => {},
    }
    if !str_eq(template.project_id.as_str(), project_id)
        || !str_eq(template.graph.project_id.as_str(), project_id)
    {
        return Err(invalid("creative graph template belongs to a different project"));
    }
    if template.version == 0 || validate_text(template.description.as_str(), 0, 1024, "description").is_err()
        || template.input_node_ids.len() > MAX_GRAPH_NODES || template.output_node_ids.len() == 0
        || template.output_node_ids.len() > MAX_GRAPH_NODES
    {
        return Err(invalid("creative graph template exceeds allowed bounds"));
    }
    let validation = match validate_graph(&template.graph, project_id, facts) {
        Ok(v) => v,
        Err(e) => { return Err(e); },
    };
    if !validation.valid {
        return Err(invalid("creative graph template contains an invalid graph"));
    }
    match check_template_nodes(&template.graph, &template.input_node_ids, true) {
        Err(e) => { return Err(e); },
        Ok(()) => {},
    }
    check_template_nodes(&template.graph, &template.output_node_ids, false)
}

} // verus!
