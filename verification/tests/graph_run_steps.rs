use rust_tools::error::McpError;
use rust_tools::graph::inputs::{node_input_edges, node_output_assets};
use rust_tools::graph::model::{GraphEdge, GraphNodeKind};
use rust_tools::graph::run::{dispatch_node, finish_batch, graph_job_start, partial_rerun_nodes, NodeDispatch, NodeOutcome};
use rust_tools::jobs::{CreativeJobStatus, NodeRunRecord};

fn s(v: &str) -> String {
    v.to_string()
}

fn run(id: &str, status: CreativeJobStatus, output: Option<&str>) -> NodeRunRecord {
    NodeRunRecord { node_id: s(id), status, output: output.map(s), failure_code: None, reused: false, execution_batch: 0 }
}

#[test]
fn nodes_are_reused_sent_out_or_run_in_place() {
    let previous = vec![run("a", CreativeJobStatus::Completed, Some("{\"x\":1}")), run("b", CreativeJobStatus::Completed, Some("{}"))];
    let dirty = vec![s("b")];
    assert!(matches!(dispatch_node(Some(&dirty), "a", &GraphNodeKind::GenerateImage, &previous), NodeDispatch::Reuse(o) if o == "{\"x\":1}"));
    assert!(matches!(dispatch_node(Some(&dirty), "b", &GraphNodeKind::GenerateImage, &previous), NodeDispatch::External));
    assert!(matches!(dispatch_node(None, "a", &GraphNodeKind::GenerateImage, &previous), NodeDispatch::External));
    assert!(matches!(dispatch_node(None, "a", &GraphNodeKind::InputText, &previous), NodeDispatch::InPlace));
}

#[test]
fn a_failed_batch_stops_the_run() {
    let mut job = graph_job_start("job_1", "p1", "alice", "g1", true, 5);
    let ok = vec![NodeOutcome { node_id: s("a"), result: Ok((s("{}"), vec![])) }];
    assert!(!finish_batch(&mut job, 0, ok, 6));
    assert_eq!(job.status, CreativeJobStatus::Running);
    let failed = vec![
        NodeOutcome { node_id: s("c"), result: Ok((s("{}"), vec![])) },
        NodeOutcome { node_id: s("b"), result: Err(s("binding_failed")) },
    ];
    assert!(finish_batch(&mut job, 1, failed, 7));
    assert_eq!(job.status, CreativeJobStatus::Failed);
    assert_eq!(job.failure_code.as_deref(), Some("binding_failed"));
    assert_eq!(job.updated_at_ms, 7);
}

#[test]
fn partial_reruns_start_from_a_completed_run_of_the_graph() {
    let mut previous = graph_job_start("job_1", "p1", "alice", "g1", true, 5);
    let nodes = vec![s("a"), s("b")];
    let edges = vec![GraphEdge { from_node: s("a"), from_port: s("out"), to_node: s("b"), to_port: s("in") }];
    let refusal = McpError::InvalidRequest(s("creative partial rerun requires a completed job for the same stored graph"));
    assert_eq!(partial_rerun_nodes(&previous, "g1", "p1", &nodes, &edges, &vec![s("a")]).unwrap_err(), refusal);
    previous.status = CreativeJobStatus::Completed;
    assert_eq!(partial_rerun_nodes(&previous, "g2", "p1", &nodes, &edges, &vec![s("a")]).unwrap_err(), refusal);
    assert_eq!(partial_rerun_nodes(&previous, "g1", "p2", &nodes, &edges, &vec![s("a")]).unwrap_err(), refusal);
    let mut dirty = partial_rerun_nodes(&previous, "g1", "p1", &nodes, &edges, &vec![s("a")]).unwrap();
    dirty.sort();
    assert_eq!(dirty, vec![s("a"), s("b")]);
}

use rust_tools::job_submit::{admit_submission, SubmitTargets};
use rust_tools::jobs::{AdmissionDecision, BudgetLimits, BudgetStatus, CompilationLineage, CreativeEstimate, CreativeJobKind};

fn limits() -> BudgetLimits {
    BudgetLimits {
        approval_compute_units: 100,
        job_hard_compute_units: 1000,
        project_hard_compute_units: 5000,
        max_job_output_bytes: 1 << 20,
        max_concurrent_jobs: 2,
        max_retries: 3,
    }
}

fn status() -> BudgetStatus {
    BudgetStatus {
        approval_compute_units: 100,
        job_hard_compute_units: 1000,
        project_hard_compute_units: 5000,
        project_admitted_compute_units: 0,
        project_remaining_compute_units: 5000,
        max_job_output_bytes: 1 << 20,
        max_concurrent_jobs: 2,
        running_jobs: 0,
        max_retries: 3,
        provider_quota: "binding_owned_not_reported",
        local_compute_quota: "bounded_by_operator_limits",
    }
}

fn estimate(units: u64) -> CreativeEstimate {
    CreativeEstimate { compute_units: units, output_bytes: 10, estimated_cost_micros: None, source: s("local") }
}

fn targets() -> SubmitTargets {
    SubmitTargets { graph_id: None, capability_id: Some(s("image.generate")), workflow_id: None, execution_binding_id: None }
}

fn lineage() -> CompilationLineage {
    CompilationLineage { compiler_version: None, execution_binding_version: None, changed_fields: vec![] }
}

#[test]
fn only_admitted_submissions_make_a_queued_job() {
    let refused = admit_submission(&limits(), &status(), estimate(500), s("p1"), s("alice"), targets(), s("{}"), lineage(), false, None, None).unwrap();
    assert_eq!(refused.decision, AdmissionDecision::ApprovalRequired);
    assert!(refused.job.is_none());
    let admitted = admit_submission(&limits(), &status(), estimate(50), s("p1"), s("alice"), targets(), s("{}"), lineage(), false, Some(2), None).unwrap();
    assert_eq!(admitted.decision, AdmissionDecision::Allowed);
    let job = admitted.job.unwrap();
    assert_eq!(job.status, CreativeJobStatus::Queued);
    assert_eq!(job.kind, CreativeJobKind::Capability);
    assert_eq!(job.max_retries, 2);
    assert!(job.job_id.starts_with("job_") && job.job_id.len() == 36);
    assert!(admit_submission(&limits(), &status(), estimate(50), s("p1"), s("alice"), targets(), s("{}"), lineage(), false, Some(9), None).is_err());
}

fn edge(from: &str, from_port: &str, to: &str, to_port: &str) -> GraphEdge {
    GraphEdge { from_node: s(from), from_port: s(from_port), to_node: s(to), to_port: s(to_port) }
}

#[test]
fn node_outputs_name_their_assets_in_order() {
    assert_eq!(
        node_output_assets(Some(s("a1")), Some(vec![Some(s("a2")), None, Some(s("a3"))])),
        vec![s("a1"), s("a2"), s("a3")]
    );
    assert_eq!(node_output_assets(None, None), Vec::<String>::new());
    assert_eq!(node_output_assets(None, Some(vec![None, Some(s("b"))])), vec![s("b")]);
}

#[test]
fn node_inputs_come_from_produced_upstream_nodes() {
    let edges = vec![
        edge("a", "image", "c", "source"),
        edge("b", "text", "c", "prompt"),
        edge("a", "image", "d", "source"),
    ];
    let produced = vec![s("a")];
    let bound = node_input_edges(&edges, "c", &produced).expect("c has incoming edges");
    assert_eq!(bound.len(), 1);
    assert_eq!(bound[0].from_node, "a");
    assert_eq!(bound[0].to_port, "source");
    let none_produced: Vec<String> = vec![];
    assert_eq!(node_input_edges(&edges, "c", &none_produced).map(|b| b.len()), Some(0));
    assert!(node_input_edges(&edges, "a", &produced).is_none());
}

#[test]
fn partial_rerun_reuses_the_last_completed_output_of_a_clean_node() {
    let previous = vec![
        run("n", CreativeJobStatus::Failed, None),
        run("n", CreativeJobStatus::Completed, Some("{\"v\":2}")),
    ];
    let dirty = vec![s("other")];
    assert!(matches!(
        dispatch_node(Some(&dirty), "n", &GraphNodeKind::ExportArtifact, &previous),
        NodeDispatch::Reuse(o) if o == "{\"v\":2}"
    ));
}
