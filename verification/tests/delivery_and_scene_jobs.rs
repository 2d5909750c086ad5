use rust_tools::assets::AssetEntry;
use rust_tools::contracts::{AssetSource, AssetState, AssetSurface, QaSeverity};
use rust_tools::delivery::{
    accepted_asset_positions, accepted_delivery_assets, delivery_asset_ids, delivery_manifest_path, delivery_route,
    export_leaf, export_output_path, fail_delivery_oversized, qa_summary, required_delivery_text,
    validate_export_file_name, DeliveryKind,
};
use rust_tools::jobs::{complete_local_job, CreativeJobKind, CreativeJobRecord, CreativeJobStatus};
use rust_tools::project::QaFindingEntry;
use rust_tools::scene_jobs::{
    check_scoped_revision, evidence_finding, receipt_labels, receipt_path, scene_workflow, semantic_inspection,
    SceneWorkflow,
};

fn s(v: &str) -> String {
    v.to_string()
}

fn asset(id: &str, path: &str, state: AssetState) -> AssetEntry {
    AssetEntry {
        asset_id: s(id),
        media_type: s("image/png"),
        role: s("frame"),
        relative_path: s(path),
        checksum_sha256: "0".repeat(64),
        bytes: 3,
        source: AssetSource::McpUpload,
        source_surface: AssetSurface::Scene,
        state,
        job_id: None,
        parent_asset_id: None,
        element_id: None,
        dependency_element_ids: vec![],
        artifact_kind: None,
        artifact_version: None,
        created_at_ms: 1,
    }
}

fn job() -> CreativeJobRecord {
    CreativeJobRecord {
        schema_version: 1,
        job_id: s("job_1"),
        project_id: s("p1"),
        owner: s("alice"),
        kind: CreativeJobKind::Workflow,
        graph_id: None,
        capability_id: None,
        workflow_id: Some(s("export_profile")),
        execution_binding_id: None,
        execution_parameters: s("{}"),
        compiler_version: None,
        execution_binding_version: None,
        changed_fields: vec![],
        status: CreativeJobStatus::Running,
        estimate: None,
        approved: true,
        retry_count: 0,
        max_retries: 1,
        timeout_ms: 1000,
        created_at_ms: 1,
        updated_at_ms: 1,
        node_runs: vec![],
        output_asset_ids: vec![],
        actual_output_bytes: None,
        failure_code: None,
    }
}

fn finding(severity: QaSeverity) -> QaFindingEntry {
    QaFindingEntry {
        finding_id: s("f"),
        domain: s("style"),
        severity,
        subject_id: s("a1"),
        message: s("m"),
        source_revision_id: None,
        asset_id: None,
        evaluator_binding_id: None,
        evidence: s("{}"),
        created_at_ms: 1,
    }
}

#[test]
fn delivery_workflows_route_to_their_manifests() {
    let export = delivery_route(Some("export_profile")).unwrap();
    assert_eq!(export.kind, DeliveryKind::ExportProfile);
    assert_eq!(export.role, "creative_export_manifest");
    assert_eq!(export.artifact_kind, "creative_export_profile");
    assert_eq!(export.template, None);
    let handoff = delivery_route(Some("project_handoff")).unwrap();
    assert_eq!(handoff.kind, DeliveryKind::ProjectHandoff);
    assert_eq!(handoff.role, "creative_project_handoff");
    let promo = delivery_route(Some("promo_pack")).unwrap();
    assert_eq!(promo.kind, DeliveryKind::PackagedDelivery);
    assert_eq!(promo.role, "creative_delivery_template");
    assert_eq!(promo.artifact_kind, "creative_packaged_delivery");
    assert_eq!(promo.template.as_deref(), Some("anime_game_promo_pack"));
    assert_eq!(delivery_route(Some("key_visual_bundle")).unwrap().template.as_deref(), Some("key_visual_cover_thumbnail_bundle"));
    assert_eq!(delivery_route(Some("portfolio_delivery")).unwrap().template.as_deref(), Some("editable_portfolio_delivery"));
    assert!(delivery_route(Some("publish")).is_err());
    assert!(delivery_route(None).is_err());
}

#[test]
fn delivery_parameters_are_checked() {
    assert!(required_delivery_text(Some("web")).is_ok());
    assert!(required_delivery_text(Some("")).is_err());
    assert!(required_delivery_text(Some("a\u{7}b")).is_err());
    assert!(required_delivery_text(Some(&"x".repeat(4097))).is_err());
    assert!(required_delivery_text(None).is_err());
    assert!(validate_export_file_name("final.zip").is_ok());
    assert!(validate_export_file_name("a.b.c").is_ok());
    assert!(validate_export_file_name("dir/final.zip").is_err());
    assert!(validate_export_file_name("dir\\final.zip").is_err());
    assert!(validate_export_file_name("..").is_err());
    assert!(validate_export_file_name("a..b").is_err());
}

#[test]
fn delivery_asset_ids_are_bounded_and_valid() {
    let ids = vec![Some(s("a1")), Some(s("a2"))];
    assert_eq!(delivery_asset_ids(Some(&ids), 1, 128).unwrap(), vec![s("a1"), s("a2")]);
    assert!(delivery_asset_ids(Some(&vec![]), 1, 128).is_err());
    assert!(delivery_asset_ids(Some(&ids), 1, 1).is_err());
    assert!(delivery_asset_ids(Some(&vec![Some(s("a1")), None]), 1, 128).is_err());
    assert!(delivery_asset_ids(Some(&vec![Some(s("bad id"))]), 1, 128).is_err());
    assert!(delivery_asset_ids(None, 1, 128).is_err());
}

#[test]
fn delivered_assets_must_be_known_and_accepted() {
    let assets = vec![
        asset("a1", "creative/p1/a1.png", AssetState::Accepted),
        asset("a2", "creative/p1/a2.png", AssetState::Candidate),
        asset("a3", "creative/p1/a3.png", AssetState::Accepted),
    ];
    assert_eq!(accepted_delivery_assets(&assets, &vec![s("a3"), s("a1")], true).unwrap(), vec![2, 0]);
    assert!(accepted_delivery_assets(&assets, &vec![s("a1"), s("a2")], true).is_err());
    assert!(accepted_delivery_assets(&assets, &vec![s("zz")], false).is_err());
    assert_eq!(accepted_asset_positions(&assets), vec![0, 2]);
}

#[test]
fn export_leaves_and_paths() {
    assert_eq!(export_leaf(0, 1, "final.png", "creative/p1/a1.png").unwrap(), "final.png");
    assert_eq!(export_leaf(0, 2, "final.png", "creative/p1/a1.png").unwrap(), "001_a1.png");
    assert_eq!(export_leaf(11, 12, "final.png", "creative/p1/b.png").unwrap(), "012_b.png");
    assert_eq!(export_leaf(999, 1200, "x", "c.png").unwrap(), "1000_c.png");
    assert!(export_leaf(1, 2, "x", "creative/..").is_err());
    assert_eq!(export_output_path("p1", "job_1", "001_a1.png"), "creative/p1/exports/job_1/files/001_a1.png");
    assert_eq!(delivery_manifest_path("p1", "promo_pack", "job_1"), "creative/p1/exports/promo_pack_job_1.json");
}

#[test]
fn delivery_jobs_finish_or_fail_on_size() {
    let mut j = job();
    fail_delivery_oversized(&mut j, 900, 7);
    assert_eq!(j.status, CreativeJobStatus::Failed);
    assert_eq!(j.failure_code.as_deref(), Some("output_hard_limit_exceeded"));
    assert_eq!(j.actual_output_bytes, Some(900));
    assert_eq!(j.updated_at_ms, 7);
    let mut k = job();
    complete_local_job(&mut k, "export_profile", vec![s("a9")], s("{\"asset_id\":\"a9\"}"), Some(40), 8);
    assert_eq!(k.status, CreativeJobStatus::Completed);
    assert_eq!(k.output_asset_ids, vec![s("a9")]);
    assert_eq!(k.actual_output_bytes, Some(40));
    assert_eq!(k.node_runs.len(), 1);
    assert_eq!(k.node_runs[0].node_id, "export_profile");
    assert_eq!(k.node_runs[0].status, CreativeJobStatus::Completed);
    assert_eq!(k.node_runs[0].execution_batch, 0);
    assert!(!k.node_runs[0].reused);
}

#[test]
fn handoff_counts_findings_by_severity() {
    let findings = vec![
        finding(QaSeverity::SoftFinding),
        finding(QaSeverity::NotInspected),
        finding(QaSeverity::SoftFinding),
    ];
    assert_eq!(qa_summary(&findings), vec![(s("notinspected"), 1), (s("softfinding"), 2)]);
    assert_eq!(qa_summary(&vec![]), vec![]);
    assert_eq!(qa_summary(&vec![finding(QaSeverity::HardFail)]), vec![(s("hardfail"), 1)]);
}

#[test]
fn scene_workflows_file_their_receipts() {
    assert_eq!(scene_workflow(Some("scene_continuity_review")).unwrap(), SceneWorkflow::ContinuityReview);
    assert_eq!(scene_workflow(Some("visual_qa_evidence")).unwrap(), SceneWorkflow::VisualQa);
    assert_eq!(scene_workflow(Some("temporal_qa_evidence")).unwrap(), SceneWorkflow::TemporalQa);
    assert_eq!(scene_workflow(Some("scoped_revision")).unwrap(), SceneWorkflow::ScopedRevision);
    assert!(scene_workflow(Some("render")).is_err());
    assert!(scene_workflow(None).is_err());
    let c = receipt_labels(SceneWorkflow::ContinuityReview);
    assert_eq!((c.folder.as_str(), c.role.as_str(), c.schema.as_str()), ("continuity", "scene_continuity_evidence", "scene-continuity-evidence-v1"));
    assert_eq!(c.finding_domain.as_deref(), Some("scene_continuity"));
    let t = receipt_labels(SceneWorkflow::TemporalQa);
    assert_eq!((t.folder.as_str(), t.schema.as_str()), ("temporal_qa", "temporal-qa-evidence-v1"));
    let r = receipt_labels(SceneWorkflow::ScopedRevision);
    assert_eq!((r.folder.as_str(), r.role.as_str()), ("revisions", "scoped_revision_receipt"));
    assert_eq!(r.finding_domain, None);
    assert_eq!(receipt_path("p1", "visual_qa", "job_1"), "creative/p1/qa/visual_qa/job_1.json");
    assert_eq!(semantic_inspection(true), "evaluator_requested");
    assert_eq!(semantic_inspection(false), "not_inspected");
}

#[test]
fn evidence_findings_are_not_inspected() {
    let f = evidence_finding(SceneWorkflow::VisualQa, s("visual_qa"), s("shot1"), None, s("a5"), None, s("{}"), 9);
    assert!(f.finding_id.starts_with("qa_"));
    assert_eq!(f.finding_id.len(), 35);
    assert_eq!(f.severity, QaSeverity::NotInspected);
    assert_eq!(f.asset_id.as_deref(), Some("a5"));
    assert!(f.message.starts_with("Deterministic QA evidence"));
    let g = evidence_finding(SceneWorkflow::ContinuityReview, s("scene_continuity"), s("s1"), None, s("a6"), None, s("{}"), 9);
    assert!(g.message.starts_with("Deterministic continuity evidence"));
    assert_ne!(f.finding_id, g.finding_id);
}

#[test]
fn scoped_revisions_need_a_known_parent() {
    let assets = vec![asset("a1", "creative/p1/a1.png", AssetState::Candidate)];
    assert_eq!(check_scoped_revision(&assets, Some("a1"), Some("colour")).unwrap(), 0);
    assert!(check_scoped_revision(&assets, Some("zz"), Some("colour")).is_err());
    assert!(check_scoped_revision(&assets, Some("a1"), None).is_err());
    assert!(check_scoped_revision(&assets, None, Some("colour")).is_err());
}
