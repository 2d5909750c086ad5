use rust_tools::bootstrap::{fail_mesh_generation, finish_bootstrap};
use rust_tools::jobs::{CreativeJobKind, CreativeJobRecord, CreativeJobStatus};

fn s(v: &str) -> String {
    v.to_string()
}

fn job() -> CreativeJobRecord {
    CreativeJobRecord {
        schema_version: 1,
        job_id: s("job_b"),
        project_id: s("p1"),
        owner: s("alice"),
        kind: CreativeJobKind::Workflow,
        graph_id: None,
        capability_id: None,
        workflow_id: Some(s("image_to_3d_bootstrap")),
        execution_binding_id: None,
        execution_parameters: s("{}"),
        compiler_version: None,
        execution_binding_version: None,
        changed_fields: vec![],
        status: CreativeJobStatus::Running,
        estimate: None,
        approved: true,
        retry_count: 0,
        max_retries: 1,
        timeout_ms: 1000,
        created_at_ms: 3,
        updated_at_ms: 3,
        node_runs: vec![],
        output_asset_ids: vec![],
        actual_output_bytes: None,
        failure_code: None,
    }
}

#[test]
fn failed_mesh_generation_fails_the_bootstrap() {
    let mut j = job();
    fail_mesh_generation(&mut j, None, 10);
    assert_eq!(j.status, CreativeJobStatus::Failed);
    assert_eq!(j.failure_code.as_deref(), Some("bootstrap_mesh_generation_failed"));
    assert_eq!(j.updated_at_ms, 10);
    let mut j = job();
    fail_mesh_generation(&mut j, Some(s("backend_timeout")), 11);
    assert_eq!(j.failure_code.as_deref(), Some("backend_timeout"));
}

#[test]
fn bootstrap_outputs_over_the_limit_fail_the_job() {
    let mut j = job();
    assert!(!finish_bootstrap(&mut j, Some(s("mesh")), s("scene"), 2000, 1000, s("{}"), 12));
    assert_eq!(j.status, CreativeJobStatus::Failed);
    assert_eq!(j.failure_code.as_deref(), Some("output_hard_limit_exceeded"));
    assert_eq!(j.actual_output_bytes, Some(2000));
    assert!(j.output_asset_ids.is_empty());
}

#[test]
fn finished_bootstrap_lists_mesh_then_scene() {
    let mut j = job();
    assert!(finish_bootstrap(&mut j, Some(s("mesh")), s("scene"), 500, 1000, s("{\"route\":\"binding\"}"), 13));
    assert_eq!(j.status, CreativeJobStatus::Completed);
    assert_eq!(j.output_asset_ids, vec![s("mesh"), s("scene")]);
    assert_eq!(j.node_runs.len(), 1);
    assert_eq!(j.node_runs[0].node_id, "blender_character_bootstrap");
    assert_eq!(j.node_runs[0].output.as_deref(), Some("{\"route\":\"binding\"}"));
    assert_eq!(j.actual_output_bytes, Some(500));
    let mut j = job();
    assert!(finish_bootstrap(&mut j, None, s("scene"), 1000, 1000, s("{}"), 14));
    assert_eq!(j.output_asset_ids, vec![s("scene")]);
}

#[test]
fn mesh_job_is_a_fresh_image_to_mesh_capability_job() {
    let mut j = job();
    j.failure_code = Some(s("earlier"));
    j.output_asset_ids = vec![s("x")];
    let m = rust_tools::bootstrap::mesh_job_of(j);
    assert_eq!(m.kind, CreativeJobKind::Capability);
    assert_eq!(m.capability_id.as_deref(), Some("3d.image_to_mesh"));
    assert_eq!(m.workflow_id, None);
    assert!(m.output_asset_ids.is_empty());
    assert!(m.node_runs.is_empty());
    assert_eq!(m.failure_code, None);
    assert_eq!(m.job_id, "job_b");
}
