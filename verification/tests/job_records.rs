use rust_tools::error::McpError;
use rust_tools::jobs::{validate_job_record, CreativeJobKind, CreativeJobRecord, CreativeJobStatus, NodeRunRecord};

fn s(v: &str) -> String {
    v.to_string()
}

fn workflow_job(workflow_id: &str) -> CreativeJobRecord {
    CreativeJobRecord {
        schema_version: 1,
        job_id: s("job_1"),
        project_id: s("p1"),
        owner: s("alice"),
        kind: CreativeJobKind::Workflow,
        graph_id: None,
        capability_id: None,
        workflow_id: Some(s(workflow_id)),
        execution_binding_id: None,
        execution_parameters: s("{}"),
        compiler_version: None,
        execution_binding_version: None,
        changed_fields: vec![],
        status: CreativeJobStatus::Queued,
        estimate: None,
        approved: false,
        retry_count: 0,
        max_retries: 1,
        timeout_ms: 1000,
        created_at_ms: 1,
        updated_at_ms: 1,
        node_runs: vec![],
        output_asset_ids: vec![],
        actual_output_bytes: None,
        failure_code: None,
    }
}

fn run(node_id: &str, output: Option<&str>) -> NodeRunRecord {
    NodeRunRecord {
        node_id: s(node_id),
        status: CreativeJobStatus::Completed,
        output: output.map(s),
        failure_code: None,
        reused: false,
        execution_batch: 0,
    }
}

fn refused(message: &str) -> Result<(), McpError> {
    Err(McpError::InvalidRequest(s(message)))
}

#[test]
fn workflow_jobs_must_name_a_catalog_workflow() {
    assert_eq!(validate_job_record(&workflow_job("character_turnaround"), false), Ok(()));
    assert_eq!(
        validate_job_record(&workflow_job("no_such_workflow"), true),
        refused("workflow creative job identity is invalid")
    );
    let mut j = workflow_job("hero_frame");
    j.workflow_id = None;
    assert_eq!(validate_job_record(&j, true), refused("workflow creative job requires workflow_id"));
}

#[test]
fn job_record_refusals_name_what_failed() {
    let mut j = workflow_job("hero_frame");
    j.compiler_version = Some(s(""));
    j.execution_binding_version = Some(s("v1"));
    assert_eq!(validate_job_record(&j, true), refused("creative job compiler_version is invalid"));

    let mut j = workflow_job("hero_frame");
    j.compiler_version = Some(s("c1"));
    j.execution_binding_version = Some(s("bad\u{7}"));
    assert_eq!(validate_job_record(&j, true), refused("creative job execution_binding_version is invalid"));

    let mut j = workflow_job("hero_frame");
    j.changed_fields = vec![s("width"), s("bad field")];
    assert_eq!(
        validate_job_record(&j, true),
        refused("changed_field must be 1-64 ASCII letters, digits, '-' or '_'")
    );

    let mut j = workflow_job("hero_frame");
    j.changed_fields = vec![s("width"), s("width")];
    assert_eq!(
        validate_job_record(&j, true),
        refused("creative compiler lineage contains duplicate changed fields")
    );

    let mut j = workflow_job("hero_frame");
    j.node_runs = vec![run("a", Some("{}")), run("a", None)];
    assert_eq!(validate_job_record(&j, true), refused("creative job contains duplicate node runs"));

    let mut j = workflow_job("hero_frame");
    j.node_runs = vec![run("a", Some("[1]"))];
    assert_eq!(validate_job_record(&j, true), refused("creative specification must be an object"));

    let mut j = workflow_job("hero_frame");
    j.output_asset_ids = vec![s("ok"), s("")];
    assert_eq!(validate_job_record(&j, true), refused("asset_id must be 1-64 ASCII letters, digits, '-' or '_'"));

    let mut j = workflow_job("hero_frame");
    j.failure_code = Some(s("bad code"));
    assert_eq!(
        validate_job_record(&j, true),
        refused("failure_code must be 1-64 ASCII letters, digits, '-' or '_'")
    );
}
