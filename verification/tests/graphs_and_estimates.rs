use rust_tools::bindings::{BindingAvailability, ExecutionBindingDescriptor};
use rust_tools::error::McpError;
use rust_tools::estimates::{
    estimate_from_binding_constraints, estimate_graph_totals, EstimateParameters, EstimateProfile, NumberField,
};
use rust_tools::graph::batches::execution_batches;
use rust_tools::graph::model::{GraphEdge, GraphNodeKind};
use rust_tools::graph::reach::dirty_descendants;
use rust_tools::graph::template::{validate_graph_template, CreativeGraphTemplate};
use rust_tools::graph::topology::kahn_order;
use rust_tools::graph::validate::{validate_graph, BindingCheck, CreativeGraph, GraphNode, NodeFacts};
use rust_tools::jobs::CreativeEstimate;
use rust_tools::registry::{
    estimate_capability, validate_capability_contract, validate_capability_parameters, validate_workflow_parameters,
    CapabilityParameterFacts,
};

fn s(v: &str) -> String {
    v.to_string()
}

fn edge(from: &str, to: &str) -> GraphEdge {
    GraphEdge { from_node: s(from), from_port: s("output"), to_node: s(to), to_port: s("input") }
}

fn node(id: &str, kind: GraphNodeKind) -> GraphNode {
    GraphNode { node_id: s(id), kind, execution_binding_id: None }
}

fn good_facts() -> NodeFacts {
    NodeFacts {
        inputs_within_bounds: true,
        text_present: true,
        asset_found: true,
        element_found: true,
        revision_found: true,
        capability_registered: true,
        binding_required: false,
        binding_check: BindingCheck::Compatible,
    }
}

fn graph(nodes: Vec<GraphNode>, edges: Vec<GraphEdge>) -> CreativeGraph {
    CreativeGraph { schema_version: 1, graph_id: s("g1"), project_id: s("p1"), revision: 1, nodes, edges }
}

#[test]
fn kahn_orders_acyclic_graphs_fully() {
    let order = kahn_order(3, &vec![(0, 1), (1, 2)]);
    assert_eq!(order, vec![0, 1, 2]);
    let cyclic = kahn_order(3, &vec![(0, 1), (1, 0)]);
    assert!(cyclic.len() < 3);
    assert_eq!(kahn_order(0, &Vec::new()), Vec::<usize>::new());
}

#[test]
fn valid_graph_gets_a_topological_order() {
    let g = graph(vec![node("b", GraphNodeKind::GenerateImage), node("a", GraphNodeKind::InputText)], vec![edge("a", "b")]);
    let facts = vec![good_facts(), good_facts()];
    let v = validate_graph(&g, "p1", &facts).unwrap();
    assert!(v.valid);
    assert!(v.diagnostics.is_empty());
    assert_eq!(v.topological_order, vec![s("a"), s("b")]);
}

#[test]
fn graph_diagnostics_are_reported() {
    let g = graph(vec![node("a", GraphNodeKind::InputText), node("b", GraphNodeKind::GenerateImage)], vec![edge("a", "b"), edge("b", "a")]);
    let mut facts = vec![good_facts(), good_facts()];
    facts[0].text_present = false;
    let v = validate_graph(&g, "p1", &facts).unwrap();
    assert!(!v.valid);
    let codes: Vec<&str> = v.diagnostics.iter().map(|d| d.code.as_str()).collect();
    assert_eq!(codes, vec!["input_text_required", "graph_cycle"]);
    assert!(v.topological_order.is_empty());
    let wrong_project = validate_graph(&g, "p2", &facts);
    assert!(matches!(wrong_project, Err(McpError::InvalidRequest(_))));
    let empty = graph(Vec::new(), Vec::new());
    assert!(validate_graph(&empty, "p1", &Vec::new()).is_err());
}

#[test]
fn duplicate_nodes_and_bad_edges_are_diagnosed() {
    let g = graph(
        vec![node("a", GraphNodeKind::InputText), node("a", GraphNodeKind::InputText)],
        vec![edge("a", "a"), edge("a", "zz")],
    );
    let v = validate_graph(&g, "p1", &vec![good_facts(), good_facts()]).unwrap();
    let codes: Vec<&str> = v.diagnostics.iter().map(|d| d.code.as_str()).collect();
    assert_eq!(codes, vec!["duplicate_node_id", "self_edge", "unknown_edge_node", "graph_cycle"]);
}

#[test]
fn batches_follow_levels() {
    let order = vec![s("a"), s("c"), s("b"), s("d")];
    let edges = vec![edge("a", "b"), edge("c", "b"), edge("b", "d")];
    let batches = execution_batches(&order, &edges);
    assert_eq!(batches, vec![(0, vec![s("a"), s("c")]), (1, vec![s("b")]), (2, vec![s("d")])]);
}

#[test]
fn dirty_descendants_follow_edges() {
    let ids = vec![s("a"), s("b"), s("c"), s("d")];
    let edges = vec![edge("a", "b"), edge("b", "c")];
    let mut dirty = dirty_descendants(&ids, &edges, &vec![s("b")]).unwrap();
    dirty.sort();
    assert_eq!(dirty, vec![s("b"), s("c")]);
    assert!(dirty_descendants(&ids, &edges, &Vec::new()).is_err());
    assert!(dirty_descendants(&ids, &edges, &vec![s("x")]).is_err());
}

fn template(inputs: Vec<String>, outputs: Vec<String>) -> CreativeGraphTemplate {
    CreativeGraphTemplate {
        schema_version: 1,
        template_id: s("t1"),
        project_id: s("p1"),
        version: 1,
        description: s("portrait pipeline"),
        graph: graph(vec![node("a", GraphNodeKind::InputText), node("b", GraphNodeKind::GenerateImage)], vec![edge("a", "b")]),
        input_node_ids: inputs,
        output_node_ids: outputs,
        created_at_ms: 0,
    }
}

#[test]
fn graph_templates_name_their_inputs_and_outputs() {
    let facts = vec![good_facts(), good_facts()];
    assert!(validate_graph_template(&template(vec![s("a")], vec![s("b")]), "p1", &facts).is_ok());
    assert!(validate_graph_template(&template(vec![s("b")], vec![s("b")]), "p1", &facts).is_err());
    assert!(validate_graph_template(&template(vec![s("a"), s("a")], vec![s("b")]), "p1", &facts).is_err());
    assert!(validate_graph_template(&template(vec![], vec![]), "p1", &facts).is_err());
    assert!(validate_graph_template(&template(vec![], vec![s("zz")]), "p1", &facts).is_err());
    assert!(validate_graph_template(&template(vec![], vec![s("b")]), "p2", &facts).is_err());
    let mut zero = template(vec![], vec![s("b")]);
    zero.version = 0;
    assert!(validate_graph_template(&zero, "p1", &facts).is_err());
}

fn profile() -> EstimateProfile {
    EstimateProfile {
        base_compute_units: NumberField::Value(100),
        base_output_bytes: NumberField::Value(1000),
        compute_units_per_megapixel: NumberField::Value(10),
        compute_units_per_second: NumberField::Missing,
        compute_units_per_item: NumberField::Value(5),
        output_bytes_per_megapixel: NumberField::Missing,
        output_bytes_per_second: NumberField::Missing,
        output_bytes_per_item: NumberField::Value(200),
        cost_micros_per_compute_unit: NumberField::Value(3),
    }
}

fn params() -> EstimateParameters {
    EstimateParameters {
        width: NumberField::Value(1000),
        height: NumberField::Value(1000),
        duration_ms: NumberField::Missing,
        batch_count: NumberField::Missing,
    }
}

#[test]
fn binding_estimates_scale_with_the_request() {
    let e = estimate_from_binding_constraints("b1", &Some(profile()), &params()).unwrap();
    assert_eq!((e.compute_units, e.output_bytes, e.estimated_cost_micros), (115, 1200, Some(345)));
    assert_eq!(e.source, "binding:b1");
    assert!(estimate_from_binding_constraints("b1", &None, &params()).is_err());
    let bad = EstimateParameters { width: NumberField::Value(20000), ..params() };
    assert!(estimate_from_binding_constraints("b1", &Some(profile()), &bad).is_err());
    let zero = EstimateProfile { base_compute_units: NumberField::Value(0), ..profile() };
    assert!(estimate_from_binding_constraints("b1", &Some(zero), &params()).is_err());
}

#[test]
fn graph_totals_add_nodes_and_control_steps() {
    let e = |c: u64, o: u64, cost: Option<u64>| CreativeEstimate { compute_units: c, output_bytes: o, estimated_cost_micros: cost, source: s("x") };
    let total = estimate_graph_totals(&vec![Some(e(10, 100, Some(7))), None]).unwrap();
    assert_eq!((total.compute_units, total.output_bytes, total.estimated_cost_micros), (12, 4196, Some(7)));
    assert_eq!(total.source, "creative_graph");
    let unknown_cost = estimate_graph_totals(&vec![Some(e(1, 1, None)), Some(e(1, 1, Some(5)))]).unwrap();
    assert_eq!(unknown_cost.estimated_cost_micros, None);
    assert!(estimate_graph_totals(&vec![Some(e(u64::MAX, 1, None)), None]).is_err());
}

fn no_facts() -> CapabilityParameterFacts {
    CapabilityParameterFacts {
        consent_asserted: None,
        reference_asset_count: None,
        asset_id: None,
        voice_element_id: None,
        video_asset_id: None,
        language: None,
        reference_asset_id: None,
        motion_asset_id: None,
        start_ms: None,
        end_ms: None,
    }
}

#[test]
fn capability_contracts() {
    let clone = CapabilityParameterFacts { consent_asserted: Some(true), reference_asset_count: Some(2), ..no_facts() };
    assert!(validate_capability_contract("audio.voice_clone", &clone).is_ok());
    let no_consent = CapabilityParameterFacts { consent_asserted: Some(false), ..clone.clone() };
    assert!(validate_capability_contract("audio.voice_clone", &no_consent).is_err());
    let too_many = CapabilityParameterFacts { reference_asset_count: Some(17), ..clone.clone() };
    assert!(validate_capability_contract("audio.voice_clone", &too_many).is_err());
    let clip = CapabilityParameterFacts { asset_id: Some(s("v1")), start_ms: Some(1000), end_ms: Some(1_801_000), ..no_facts() };
    assert!(validate_capability_contract("video.clip_extract", &clip).is_ok());
    let long_clip = CapabilityParameterFacts { end_ms: Some(1_801_001), ..clip.clone() };
    assert!(validate_capability_contract("video.clip_extract", &long_clip).is_err());
    let dub = CapabilityParameterFacts {
        video_asset_id: Some(s("v1")),
        voice_element_id: Some(s("e1")),
        language: Some(s("")),
        ..no_facts()
    };
    assert!(validate_capability_contract("audio.video_dub", &dub).is_err());
    assert!(validate_capability_contract("image.generate", &no_facts()).is_ok());
}

#[test]
fn parameters_are_checked_against_the_schema() {
    let schema = r#"{"type":"object","required":["prompt"]}"#;
    assert!(validate_capability_parameters("image.generate", r#"{"prompt":"cat"}"#, Some(schema), &no_facts()).is_ok());
    assert!(matches!(validate_capability_parameters("image.generate", "{}", Some(schema), &no_facts()), Err(McpError::InvalidRequest(_))));
    assert!(matches!(validate_capability_parameters("image.generate", "{}", Some("not json"), &no_facts()), Err(McpError::Internal(_))));
    assert!(matches!(validate_capability_parameters("image.generate", "{}", None, &no_facts()), Err(McpError::InvalidRequest(_))));
    assert!(validate_capability_parameters("image.generate", "[1]", Some(schema), &no_facts()).is_err());
    assert!(validate_workflow_parameters(r#"{"prompt":"x"}"#, Some(schema)).is_ok());
    assert!(validate_workflow_parameters("{}", Some(schema)).is_err());
}

fn binding(id: &str, estimate_available: bool) -> ExecutionBindingDescriptor {
    ExecutionBindingDescriptor {
        binding_id: s(id),
        binding_version: s("1"),
        capabilities: vec![s("image.generate")],
        media_roles: vec![],
        extension_schema: s("{}"),
        constraints: s("{}"),
        license_notes: None,
        estimate_available,
        availability: BindingAvailability::Available,
    }
}

#[test]
fn capability_estimates_use_the_selected_binding() {
    let schema = r#"{"type":"object"}"#;
    let local = estimate_capability(&vec![], &vec![], "image.invert", None, "{}", Some(schema), &no_facts(), false, &params()).unwrap();
    assert_eq!((local.compute_units, local.output_bytes, local.estimated_cost_micros), (10, 16384, None));
    assert_eq!(local.source, "reviewed_local_contract");
    let bindings = vec![binding("b1", true), binding("b2", false)];
    let profiles = vec![Some(profile()), Some(profile())];
    let e = estimate_capability(&bindings, &profiles, "image.generate", Some("b1"), "{}", Some(schema), &no_facts(), true, &params()).unwrap();
    assert_eq!((e.compute_units, e.source.as_str()), (115, "binding:b1"));
    assert!(estimate_capability(&bindings, &profiles, "image.generate", Some("b2"), "{}", Some(schema), &no_facts(), true, &params()).is_err());
    assert!(estimate_capability(&bindings, &profiles, "image.generate", None, "{}", Some(schema), &no_facts(), true, &params()).is_err());
    assert!(estimate_capability(&bindings, &profiles, "image.generate", Some("b9"), "{}", Some(schema), &no_facts(), true, &params()).is_err());
}

#[test]
fn capability_contract_refusals_name_the_parameter() {
    let msg = |r: Result<(), rust_tools::error::McpError>| match r {
        Err(rust_tools::error::McpError::InvalidRequest(m)) => m,
        other => panic!("unexpected {other:?}"),
    };
    assert_eq!(msg(validate_capability_contract("audio.voice_change", &no_facts())), "creative asset_id is required");
    let bad_voice = CapabilityParameterFacts { asset_id: Some("a1".to_string()), voice_element_id: Some("bad id".to_string()), ..no_facts() };
    assert_eq!(
        msg(validate_capability_contract("audio.voice_change", &bad_voice)),
        "voice_element_id must be 1-64 ASCII letters, digits, '-' or '_'"
    );
    let long_language = CapabilityParameterFacts {
        video_asset_id: Some("v1".to_string()),
        voice_element_id: Some("e1".to_string()),
        language: Some("x".repeat(40)),
        ..no_facts()
    };
    assert_eq!(msg(validate_capability_contract("audio.video_dub", &long_language)), "creative language is outside allowed bounds");
    let no_end = CapabilityParameterFacts { asset_id: Some("a1".to_string()), start_ms: Some(5), ..no_facts() };
    assert_eq!(msg(validate_capability_contract("video.clip_extract", &no_end)), "clip end_ms is required");
}

#[test]
fn graph_and_template_refusals_say_why() {
    let msg = |e: McpError| match e {
        McpError::InvalidRequest(m) => m,
        McpError::Internal(m) => panic!("internal {m}"),
    };
    let facts = vec![good_facts(), good_facts()];
    let bad_node = graph(vec![node("a", GraphNodeKind::InputText), node("bad id", GraphNodeKind::GenerateImage)], vec![]);
    assert_eq!(
        msg(validate_graph(&bad_node, "p1", &facts).unwrap_err()),
        "node_id must be 1-64 ASCII letters, digits, '-' or '_'"
    );
    let g = graph(vec![node("a", GraphNodeKind::InputText), node("b", GraphNodeKind::GenerateImage)], vec![edge("a", "b")]);
    assert_eq!(msg(validate_graph(&g, "p2", &facts).unwrap_err()), "creative graph belongs to a different project");
    assert_eq!(
        msg(validate_graph_template(&template(vec![s("a"), s("a")], vec![s("b")]), "p1", &facts).unwrap_err()),
        "creative graph template node id is duplicated"
    );
    assert_eq!(
        msg(validate_graph_template(&template(vec![s("b")], vec![s("b")]), "p1", &facts).unwrap_err()),
        "creative graph template inputs must reference declared input nodes"
    );
    assert_eq!(
        msg(validate_graph_template(&template(vec![], vec![s("zz")]), "p1", &facts).unwrap_err()),
        "creative graph template output node is invalid"
    );
}
