use rust_tools::error::McpError;
use rust_tools::graph::instantiate::{instantiate_graph, substitute_value, InputValue};
use rust_tools::graph::model::{GraphEdge, GraphNodeKind};
use rust_tools::graph::validate::{CreativeGraph, GraphNode};

fn s(v: &str) -> String {
    v.to_string()
}

fn template() -> CreativeGraph {
    CreativeGraph {
        schema_version: 1,
        graph_id: s("t_graph"),
        project_id: s("p0"),
        revision: 7,
        nodes: vec![
            GraphNode { node_id: s("in"), kind: GraphNodeKind::InputText, execution_binding_id: None },
            GraphNode { node_id: s("gen"), kind: GraphNodeKind::GenerateImage, execution_binding_id: Some(s("b1")) },
        ],
        edges: vec![GraphEdge { from_node: s("in"), from_port: s("text"), to_node: s("gen"), to_port: s("prompt") }],
    }
}

#[test]
fn replacements_reach_nested_strings_only() {
    let value = InputValue::Object(vec![
        (s("hero"), InputValue::Text(s("HERO"))),
        (s("list"), InputValue::Array(vec![InputValue::Text(s("HERO")), InputValue::Other(s("3"))])),
    ]);
    let reps = vec![(s("HERO"), Some(s("element_7")))];
    match substitute_value(&value, &reps).unwrap() {
        InputValue::Object(entries) => {
            assert!(matches!(&entries[0].1, InputValue::Text(t) if t == "element_7"));
            match &entries[1].1 {
                InputValue::Array(items) => {
                    assert!(matches!(&items[0], InputValue::Text(t) if t == "element_7"));
                    assert!(matches!(&items[1], InputValue::Other(t) if t == "3"));
                }
                _ => panic!("array expected"),
            }
        }
        _ => panic!("object expected"),
    }
    let bad = vec![(s("HERO"), None)];
    assert_eq!(
        substitute_value(&value, &bad).unwrap_err(),
        McpError::InvalidRequest(s("graph template replacements must map string identities to strings"))
    );
}

#[test]
fn instantiation_sets_identity_and_overrides() {
    let inputs = vec![InputValue::Text(s("HERO")), InputValue::Object(vec![])];
    let reps = vec![(s("HERO"), Some(s("element_7")))];
    let overrides = vec![(s("gen"), Some(s("b2"))), (s("in"), None)];
    let (graph, values) = instantiate_graph(&template(), &inputs, "g9", "p1", &reps, &overrides).unwrap();
    assert_eq!((graph.graph_id.as_str(), graph.project_id.as_str(), graph.revision), ("g9", "p1", 1));
    assert_eq!(graph.nodes[1].execution_binding_id.as_deref(), Some("b2"));
    assert_eq!(graph.nodes[0].execution_binding_id, None);
    assert_eq!(graph.edges.len(), 1);
    assert!(matches!(&values[0], InputValue::Text(t) if t == "element_7"));
    assert!(instantiate_graph(&template(), &inputs, "bad id", "p1", &reps, &overrides).is_err());
    let bad_override = vec![(s("gen"), Some(s("not valid!")))];
    assert!(instantiate_graph(&template(), &inputs, "g9", "p1", &reps, &bad_override).is_err());
}

#[test]
fn instantiation_refusals_name_the_first_failing_node() {
    let message = |r: Result<(rust_tools::graph::validate::CreativeGraph, Vec<InputValue>), rust_tools::error::McpError>| match r {
        Err(rust_tools::error::McpError::InvalidRequest(m)) => m,
        _ => panic!("expected a refusal"),
    };
    let inputs = vec![InputValue::Text(s("HERO")), InputValue::Object(vec![])];
    let reps = vec![(s("HERO"), Some(s("element_7")))];
    let bad_override = vec![(s("gen"), Some(s("not valid!")))];
    assert_eq!(
        message(instantiate_graph(&template(), &inputs, "g9", "p1", &reps, &bad_override)),
        "execution_binding_id must be 1-64 ASCII letters, digits, '-' or '_'"
    );
    let not_text = vec![(s("HERO"), None)];
    assert_eq!(
        message(instantiate_graph(&template(), &inputs, "g9", "p1", &not_text, &bad_override)),
        "graph template replacements must map string identities to strings"
    );
    assert_eq!(
        message(instantiate_graph(&template(), &inputs, "bad id", "p1", &reps, &bad_override)),
        "graph_id must be 1-64 ASCII letters, digits, '-' or '_'"
    );
}
