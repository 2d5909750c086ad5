use rust_tools::assets::{
    find_asset, promote_asset, register_asset, register_asset_at, resolve_registered_asset_path, search_assets,
    validate_asset_lineage, AssetEntry, AssetRegistrationInput, AssetSearch,
};
use rust_tools::contracts::{AssetSource, AssetState, AssetSurface, CreativeTrack, QaSeverity};
use rust_tools::jobs::{
    admission_decision, admitted_compute_units, budget_status, AdmissionDecision, BudgetLimits, CreativeEstimate,
    CreativeJobStatus, JobLoad,
};
use rust_tools::production::{AudioCue, AudioPlan};
use rust_tools::project::{ProjectContents, QaFindingEntry, MAX_PROJECT_SCENES};
use rust_tools::project_updates::{add_qa_finding, upsert_audio_plan, upsert_scene};

fn s(v: &str) -> String {
    v.to_string()
}

fn asset(id: &str, created: u128, parent: Option<&str>) -> AssetEntry {
    AssetEntry {
        asset_id: s(id),
        media_type: s("image/png"),
        role: s("reference"),
        relative_path: format!("creative/p1/assets/{id}.png"),
        checksum_sha256: "0".repeat(64),
        bytes: 10,
        source: AssetSource::McpUpload,
        source_surface: AssetSurface::Mcp,
        state: AssetState::Candidate,
        job_id: None,
        parent_asset_id: parent.map(s),
        element_id: None,
        dependency_element_ids: vec![],
        artifact_kind: None,
        artifact_version: None,
        created_at_ms: created,
    }
}

fn empty_search() -> AssetSearch {
    AssetSearch {
        media_type: None,
        role: None,
        source: None,
        source_surface: None,
        state: None,
        job_id: None,
        element_id: None,
        parent_asset_id: None,
        created_after_ms: None,
        created_before_ms: None,
        limit: 50,
    }
}

#[test]
fn assets_are_found_and_promoted_by_identifier() {
    let mut assets = vec![asset("a1", 1, None), asset("a2", 2, None)];
    assert_eq!(find_asset(&assets, "a2"), Some(1));
    assert_eq!(find_asset(&assets, "zz"), None);
    assert_eq!(resolve_registered_asset_path(&assets, "a1").unwrap(), "creative/p1/assets/a1.png");
    assert!(resolve_registered_asset_path(&assets, "bad id").is_err());
    promote_asset(&mut assets, "a2").unwrap();
    assert_eq!(assets[1].state, AssetState::Accepted);
    assert_eq!(assets[0].state, AssetState::Candidate);
    assert_eq!(assets[1].asset_id, "a2");
    assert!(promote_asset(&mut assets, "a9").is_err());
}

#[test]
fn lineage_cycles_are_refused() {
    assert!(validate_asset_lineage(&vec![asset("a", 1, None), asset("b", 2, Some("a"))]).is_ok());
    assert!(validate_asset_lineage(&vec![asset("a", 1, Some("b")), asset("b", 2, Some("a"))]).is_err());
    assert!(validate_asset_lineage(&vec![asset("a", 1, Some("a"))]).is_err());
    assert!(validate_asset_lineage(&vec![asset("a", 1, Some("missing"))]).is_ok());
}

#[test]
fn search_returns_newest_matches_first() {
    let mut other = asset("v", 5, None);
    other.media_type = s("video/mp4");
    let assets = vec![asset("a", 1, None), asset("b", 3, None), other, asset("c", 2, None)];
    let found = search_assets(assets.clone(), &empty_search()).unwrap();
    let ids: Vec<&str> = found.iter().map(|a| a.asset_id.as_str()).collect();
    assert_eq!(ids, vec!["v", "b", "c", "a"]);
    let images = AssetSearch { media_type: Some(s("image/png")), limit: 2, ..empty_search() };
    let found = search_assets(assets.clone(), &images).unwrap();
    let ids: Vec<&str> = found.iter().map(|a| a.asset_id.as_str()).collect();
    assert_eq!(ids, vec!["b", "c"]);
    let window = AssetSearch { created_after_ms: Some(2), created_before_ms: Some(3), ..empty_search() };
    let ids: Vec<String> = search_assets(assets.clone(), &window).unwrap().into_iter().map(|a| a.asset_id).collect();
    assert_eq!(ids, vec![s("b"), s("c")]);
    let bad = AssetSearch { role: Some(s("")), ..empty_search() };
    assert!(search_assets(assets, &bad).is_err());
}

fn registration(path: &str) -> AssetRegistrationInput {
    AssetRegistrationInput {
        relative_path: s(path),
        file_bytes: 42,
        checksum_sha256: "a".repeat(64),
        media_type: s("image/png"),
        role: s("reference"),
        source: AssetSource::GeneratedAsset,
        source_surface: AssetSurface::Mcp,
        state: AssetState::Candidate,
        job_id: None,
        parent_asset_id: None,
        element_id: None,
        dependency_element_ids: vec![],
        artifact_kind: None,
        artifact_version: None,
    }
}

#[test]
fn registration_appends_one_record() {
    let mut assets = vec![asset("a1", 1, None)];
    let id = register_asset_at(&mut assets, &vec![], &vec![], registration("creative/p1/x.png"), "fixed", 99).unwrap();
    assert_eq!(id, "asset_fixed");
    assert_eq!(assets.len(), 2);
    assert_eq!(assets[1].asset_id, "asset_fixed");
    assert_eq!(assets[1].bytes, 42);
    assert_eq!(assets[1].created_at_ms, 99);
    let random = register_asset(&mut assets, &vec![], &vec![], registration("creative/p1/y.png")).unwrap();
    assert!(random.starts_with("asset_"));
    assert_eq!(random.len(), 38);
    assert_ne!(random, id);
    let state_path = register_asset_at(&mut assets, &vec![], &vec![], registration(".masihawam/creative/x.json"), "s", 1);
    assert!(state_path.is_err());
    let mut unknown_job = registration("creative/p1/z.png");
    unknown_job.job_id = Some(s("job_1"));
    assert!(register_asset_at(&mut assets, &vec![], &vec![], unknown_job, "j", 1).is_err());
    assert_eq!(assets.len(), 3);
}

fn project() -> ProjectContents {
    ProjectContents {
        schema_version: 1,
        project_id: s("p1"),
        title: s("Demo"),
        intent: s("A demo project"),
        tracks: vec![CreativeTrack::Scene],
        target: None,
        elements: vec![],
        assets: vec![],
        scene_ids: vec![],
        games: vec![],
        audio_plans: vec![],
        graph_ids: vec![],
        job_ids: vec![],
        qa_findings: vec![],
    }
}

fn plan(id: &str, language: &str) -> AudioPlan {
    AudioPlan {
        audio_plan_id: s(id),
        voice_element_id: None,
        language: Some(s(language)),
        cues: vec![AudioCue { cue_id: s("c1"), start_ms: 0, duration_ms: Some(10), asset_id: None, text: Some(s("hi")) }],
    }
}

#[test]
fn upsert_replaces_by_identifier_and_appends_new_ones() {
    let mut p = project();
    upsert_audio_plan(&mut p, plan("a1", "en")).unwrap();
    upsert_audio_plan(&mut p, plan("a2", "fr")).unwrap();
    upsert_audio_plan(&mut p, plan("a1", "de")).unwrap();
    let ids: Vec<&str> = p.audio_plans.iter().map(|a| a.audio_plan_id.as_str()).collect();
    assert_eq!(ids, vec!["a1", "a2"]);
    assert_eq!(p.audio_plans[0].language.as_deref(), Some("de"));
    assert_eq!(p.audio_plans[1].language.as_deref(), Some("fr"));
    upsert_audio_plan(&mut p, plan("a1", "de")).unwrap();
    assert_eq!(p.audio_plans.len(), 2);
    assert_eq!(p.title, "Demo");
}

#[test]
fn scene_capacity_refuses_only_new_identifiers() {
    let mut p = project();
    for i in 0..MAX_PROJECT_SCENES {
        upsert_scene(&mut p, format!("s{i}")).unwrap();
    }
    assert!(upsert_scene(&mut p, s("s0")).is_ok());
    assert!(upsert_scene(&mut p, s("new")).is_err());
    assert_eq!(p.scene_ids.len(), MAX_PROJECT_SCENES);
}

fn finding(id: &str) -> QaFindingEntry {
    QaFindingEntry {
        finding_id: s(id),
        domain: s("style"),
        severity: QaSeverity::SoftFinding,
        subject_id: s("a1"),
        message: s("check colours"),
        source_revision_id: None,
        asset_id: None,
        evaluator_binding_id: None,
        evidence: s("{}"),
        created_at_ms: 1,
    }
}

#[test]
fn findings_are_added_once() {
    let mut p = project();
    add_qa_finding(&mut p, finding("f1")).unwrap();
    assert!(add_qa_finding(&mut p, finding("f1")).is_err());
    add_qa_finding(&mut p, finding("f2")).unwrap();
    let ids: Vec<&str> = p.qa_findings.iter().map(|f| f.finding_id.as_str()).collect();
    assert_eq!(ids, vec!["f1", "f2"]);
}

fn limits() -> BudgetLimits {
    BudgetLimits {
        approval_compute_units: 50,
        job_hard_compute_units: 100,
        project_hard_compute_units: 150,
        max_job_output_bytes: 1000,
        max_concurrent_jobs: 2,
        max_retries: 3,
    }
}

#[test]
fn admission_checks_limits_in_order() {
    let jobs = vec![
        JobLoad { status: CreativeJobStatus::Completed, estimated_compute_units: Some(60) },
        JobLoad { status: CreativeJobStatus::Cancelled, estimated_compute_units: Some(500) },
        JobLoad { status: CreativeJobStatus::Running, estimated_compute_units: Some(20) },
        JobLoad { status: CreativeJobStatus::Queued, estimated_compute_units: None },
    ];
    assert_eq!(admitted_compute_units(&jobs), 80);
    let status = budget_status(&limits(), "alice", &jobs).unwrap();
    assert_eq!(status.project_remaining_compute_units, 70);
    assert_eq!(status.running_jobs, 1);
    assert!(budget_status(&limits(), "", &jobs).is_err());
    let e = |c: u64, o: u64| CreativeEstimate { compute_units: c, output_bytes: o, estimated_cost_micros: None, source: s("x") };
    assert_eq!(admission_decision(&limits(), &status, &e(101, 1), true), AdmissionDecision::JobHardLimitExceeded);
    assert_eq!(admission_decision(&limits(), &status, &e(10, 1001), true), AdmissionDecision::OutputHardLimitExceeded);
    assert_eq!(admission_decision(&limits(), &status, &e(71, 1), true), AdmissionDecision::ProjectHardLimitExceeded);
    assert_eq!(admission_decision(&limits(), &status, &e(60, 1), false), AdmissionDecision::ApprovalRequired);
    assert_eq!(admission_decision(&limits(), &status, &e(60, 1), true), AdmissionDecision::Allowed);
    assert_eq!(admission_decision(&limits(), &status, &e(50, 1), false), AdmissionDecision::Allowed);
}
