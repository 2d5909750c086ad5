use rust_tools::contracts::ElementKind;
use rust_tools::elements::ElementRecord;
use rust_tools::error::McpError;
use rust_tools::jobs::{CreativeJobKind, CreativeJobRecord, CreativeJobStatus, NodeRunRecord};
use rust_tools::media::{check_style_reference, complete_with_variants};

fn s(v: &str) -> String {
    v.to_string()
}

fn element(id: &str, kind: ElementKind) -> ElementRecord {
    ElementRecord { element_id: s(id), kind, name: s(id), selected_revision_id: None, revisions: vec![] }
}

fn job() -> CreativeJobRecord {
    CreativeJobRecord {
        schema_version: 1,
        job_id: s("job_7"),
        project_id: s("p1"),
        owner: s("alice"),
        kind: CreativeJobKind::Workflow,
        graph_id: None,
        capability_id: None,
        workflow_id: Some(s("character_turnaround")),
        execution_binding_id: Some(s("local_raster")),
        execution_parameters: s("{}"),
        compiler_version: None,
        execution_binding_version: None,
        changed_fields: vec![],
        status: CreativeJobStatus::Running,
        estimate: None,
        approved: true,
        retry_count: 0,
        max_retries: 1,
        timeout_ms: 1000,
        created_at_ms: 5,
        updated_at_ms: 5,
        node_runs: vec![],
        output_asset_ids: vec![],
        actual_output_bytes: None,
        failure_code: Some(s("earlier")),
    }
}

#[test]
fn style_reference_must_name_a_style_element() {
    let elements = vec![element("hero", ElementKind::Character), element("ink", ElementKind::Style)];
    assert_eq!(check_style_reference(&elements, None), Ok(()));
    assert_eq!(check_style_reference(&elements, Some("ink")), Ok(()));
    assert_eq!(
        check_style_reference(&elements, Some("hero")),
        Err(McpError::InvalidRequest(s("style_element_id must reference a Style Element")))
    );
    assert_eq!(
        check_style_reference(&elements, Some("missing")),
        Err(McpError::InvalidRequest(s("unknown style element")))
    );
    assert_eq!(
        check_style_reference(&elements, Some("bad id")),
        Err(McpError::InvalidRequest(s("style_element_id must be 1-64 ASCII letters, digits, '-' or '_'")))
    );
}

#[test]
fn completed_reference_workflow_lists_every_variant() {
    let mut j = job();
    let run = |node: &str| NodeRunRecord {
        node_id: s(node),
        status: CreativeJobStatus::Completed,
        output: Some(s("{}")),
        failure_code: None,
        reused: false,
        execution_batch: 0,
    };
    complete_with_variants(&mut j, vec![s("asset_a"), s("asset_b")], vec![run("variant_000"), run("variant_001")], 640, 99);
    assert_eq!(j.status, CreativeJobStatus::Completed);
    assert_eq!(j.output_asset_ids, vec![s("asset_a"), s("asset_b")]);
    assert_eq!(j.node_runs.len(), 2);
    assert_eq!(j.node_runs[1].node_id, "variant_001");
    assert_eq!(j.actual_output_bytes, Some(640));
    assert_eq!(j.updated_at_ms, 99);
    assert_eq!(j.failure_code, None);
    assert_eq!(j.created_at_ms, 5);
    assert_eq!(j.workflow_id.as_deref(), Some("character_turnaround"));
}

#[test]
fn variant_label_refusals_name_the_request_field() {
    use_variant_labels();
}

fn use_variant_labels() {
    let ok = vec![Some(s("front")), Some(s("back"))];
    assert_eq!(rust_tools::media::variant_labels(Some(&ok), "views"), Ok(vec![s("front"), s("back")]));
    assert_eq!(
        rust_tools::media::variant_labels(None, "views"),
        Err(McpError::InvalidRequest(s("creative views is required")))
    );
    let empty: Vec<Option<String>> = vec![];
    assert_eq!(
        rust_tools::media::variant_labels(Some(&empty), "expressions"),
        Err(McpError::InvalidRequest(s("creative expressions count exceeds allowed bounds")))
    );
    let not_text = vec![Some(s("front")), None];
    assert_eq!(
        rust_tools::media::variant_labels(Some(&not_text), "views"),
        Err(McpError::InvalidRequest(s("creative views is invalid")))
    );
    let repeated = vec![Some(s("front")), Some(s("front"))];
    assert_eq!(
        rust_tools::media::variant_labels(Some(&repeated), "views"),
        Err(McpError::InvalidRequest(s("creative views label is invalid or duplicated")))
    );
}
