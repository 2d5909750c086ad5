use rust_tools::bindings::{check_node_binding, BindingAvailability, ExecutionBindingDescriptor};
use rust_tools::continuity::{continuity_findings, ContinuityCode, ContinuityShot};
use rust_tools::descriptor_values::{descriptor_values_public, is_forbidden_key, normalize_key, public_value, JsonShape};
use rust_tools::graph::validate::BindingCheck;
use rust_tools::ingest::{
    check_import_response, import_chunk_fits, import_file_name, import_relative_path, sha256_hex, url_import_max_bytes,
    UrlImportRequest,
};
use rust_tools::job_submit::{job_limits, queued_job, validate_submit_shape, SubmitTargets};
use rust_tools::jobs::{CompilationLineage, CreativeEstimate, CreativeJobKind, CreativeJobStatus};
use rust_tools::uploads::{check_upload_store, ProjectUploads, UploadStore};

fn s(v: &str) -> String {
    v.to_string()
}

fn targets(graph: Option<&str>, capability: Option<&str>, workflow: Option<&str>) -> SubmitTargets {
    SubmitTargets {
        graph_id: graph.map(s),
        capability_id: capability.map(s),
        workflow_id: workflow.map(s),
        execution_binding_id: None,
    }
}

#[test]
fn submissions_name_exactly_one_target() {
    assert!(validate_submit_shape(&targets(Some("g1"), None, None)).is_ok());
    assert!(validate_submit_shape(&targets(None, Some("image.generate"), None)).is_ok());
    assert!(validate_submit_shape(&targets(None, None, None)).is_err());
    assert!(validate_submit_shape(&targets(Some("g1"), Some("image.generate"), None)).is_err());
    assert!(validate_submit_shape(&targets(Some("bad id"), None, None)).is_err());
    let with_binding = SubmitTargets { execution_binding_id: Some(s("bad id")), ..targets(None, None, Some("pose_sheet")) };
    assert!(validate_submit_shape(&with_binding).is_err());
}

#[test]
fn job_limits_default_to_the_operator() {
    assert_eq!(job_limits(None, 3, None).unwrap(), (3, 0));
    assert_eq!(job_limits(Some(1), 3, Some(5_000)).unwrap(), (1, 5_000));
    assert!(job_limits(Some(4), 3, None).is_err());
    assert!(job_limits(None, 3, Some(86_400_001)).is_err());
}

#[test]
fn admitted_submissions_queue_a_job() {
    let lineage = CompilationLineage { compiler_version: None, execution_binding_version: None, changed_fields: vec![] };
    let estimate = CreativeEstimate { compute_units: 5, output_bytes: 10, estimated_cost_micros: None, source: s("x") };
    let job = queued_job(
        s("job_1"),
        s("p1"),
        s("alice"),
        targets(None, Some("image.generate"), None),
        s("{}"),
        lineage,
        estimate,
        true,
        2,
        0,
        42,
    );
    assert_eq!(job.kind, CreativeJobKind::Capability);
    assert_eq!(job.status, CreativeJobStatus::Queued);
    assert_eq!(job.capability_id.as_deref(), Some("image.generate"));
    assert!(job.graph_id.is_none() && job.workflow_id.is_none());
    assert_eq!((job.max_retries, job.created_at_ms, job.updated_at_ms), (2, 42, 42));
    assert_eq!(job.estimate.map(|e| e.compute_units), Some(5));
}

fn shot(id: &str, order: u32, state_in: &str, state_out: &str, variant: Option<&str>, direction: Option<&str>) -> ContinuityShot {
    ContinuityShot {
        shot_id: s(id),
        order,
        state_in: s(state_in),
        state_out: s(state_out),
        location_variant_id: variant.map(s),
        screen_direction: direction.map(s),
    }
}

#[test]
fn continuity_reviews_consecutive_shots() {
    let shots = vec![
        shot("b", 2, r#"{"door":"open"}"#, "null", Some("night"), Some("\"left\"")),
        shot("a", 1, "null", r#"{"door":"closed"}"#, Some("day"), Some("\"right\"")),
        shot("c", 3, "null", "null", Some("night"), None),
    ];
    let findings = continuity_findings(shots, true);
    let listed: Vec<(ContinuityCode, Option<&str>, Option<&str>)> =
        findings.iter().map(|f| (f.code, f.from_shot.as_deref(), f.to_shot.as_deref())).collect();
    assert_eq!(
        listed,
        vec![
            (ContinuityCode::StateHandoffMismatch, Some("a"), Some("b")),
            (ContinuityCode::LocationVariantChanged, Some("a"), Some("b")),
            (ContinuityCode::ScreenDirectionChanged, Some("a"), Some("b")),
        ]
    );
    let calm = vec![shot("a", 1, "null", "null", None, None), shot("b", 2, "null", "null", None, None)];
    let findings = continuity_findings(calm, false);
    assert_eq!(findings.len(), 1);
    assert_eq!(findings[0].code, ContinuityCode::NotVisuallyInspected);
    assert!(findings[0].from_shot.is_none());
    let no_location = vec![shot("a", 1, "null", "null", Some("day"), None), shot("b", 2, "null", "null", Some("night"), None)];
    assert_eq!(continuity_findings(no_location, false)[0].code, ContinuityCode::NotVisuallyInspected);
}

#[test]
fn descriptor_values_hide_private_keys() {
    assert_eq!(normalize_key("Api-Key.Value"), "api_key_value");
    assert!(is_forbidden_key("API-KEY"));
    assert!(is_forbidden_key("auth_token"));
    assert!(is_forbidden_key("endpoint_url"));
    assert!(!is_forbidden_key("tokens"));
    assert!(!is_forbidden_key("max_steps"));
    let ok = JsonShape::Object(vec![(s("steps"), JsonShape::Scalar), (s("styles"), JsonShape::Array(vec![JsonShape::Text(s("noir"))]))]);
    assert!(public_value(&ok, 0));
    let secret = JsonShape::Object(vec![(s("nested"), JsonShape::Object(vec![(s("password"), JsonShape::Scalar)]))]);
    assert!(!public_value(&secret, 0));
    let control = JsonShape::Text(s("a\u{1}b"));
    assert!(!public_value(&control, 0));
    let mut deep = JsonShape::Scalar;
    for _ in 0..9 {
        deep = JsonShape::Array(vec![deep]);
    }
    assert!(!public_value(&deep, 0));
    assert!(descriptor_values_public(&ok, &JsonShape::Scalar));
    assert!(!descriptor_values_public(&ok, &secret));
}

fn binding(id: &str, availability: BindingAvailability) -> ExecutionBindingDescriptor {
    ExecutionBindingDescriptor {
        binding_id: s(id),
        binding_version: s("1"),
        capabilities: vec![s("image.generate")],
        media_roles: vec![],
        extension_schema: s("{}"),
        constraints: s("{}"),
        license_notes: None,
        estimate_available: false,
        availability,
    }
}

#[test]
fn node_bindings_are_checked() {
    let bindings = vec![binding("b1", BindingAvailability::Available), binding("b2", BindingAvailability::Degraded)];
    assert_eq!(check_node_binding(&bindings, "b1", "image.generate"), BindingCheck::Compatible);
    assert_eq!(check_node_binding(&bindings, "b1", "video.generate"), BindingCheck::Incompatible);
    assert_eq!(check_node_binding(&bindings, "b2", "image.generate"), BindingCheck::Unavailable);
    assert_eq!(check_node_binding(&bindings, "b3", "image.generate"), BindingCheck::NotFound);
}

fn import_request(max_bytes: Option<u64>) -> UrlImportRequest {
    UrlImportRequest {
        url: s("https://example.com/a.png"),
        media_type: Some(s("image/png")),
        role: s("reference"),
        filename: None,
        max_bytes,
        parent_asset_id: None,
        element_id: None,
    }
}

#[test]
fn url_imports_are_bounded() {
    assert_eq!(url_import_max_bytes(&import_request(None)).unwrap(), 33_554_432);
    assert_eq!(url_import_max_bytes(&import_request(Some(10))).unwrap(), 10);
    assert!(url_import_max_bytes(&import_request(Some(0))).is_err());
    assert!(url_import_max_bytes(&import_request(Some(67_108_865))).is_err());
    assert_eq!(check_import_response(Some(5), Some("Image/PNG; charset=x"), Some("image/png"), 10).unwrap(), "image/png");
    assert!(check_import_response(Some(11), Some("image/png"), None, 10).is_err());
    assert!(check_import_response(None, None, None, 10).is_err());
    assert!(check_import_response(None, Some("image/png"), Some("image/jpeg"), 10).is_err());
    assert!(check_import_response(None, Some("text/html"), None, 10).is_err());
    assert!(import_chunk_fits(5, 5, 10));
    assert!(!import_chunk_fits(6, 5, 10));
    assert_eq!(import_file_name(Some("my pic.png"), "https://x/y.png", "image/png").unwrap(), "my_pic.png");
    assert_eq!(import_file_name(None, "https://x/y.png", "image/png").unwrap(), "y.png");
    assert!(import_file_name(Some("../x"), "https://x/y.png", "image/png").is_err());
    assert_eq!(import_relative_path("p1", "import_1", "y.png"), "creative/p1/assets/imports/import_1-y.png");
    assert_eq!(sha256_hex(b"abc"), "ba7816bf8f01cfea414140de5dae2223b00361a396177a9cb410ff61f20015ad");
}

#[test]
fn upload_stores_are_checked() {
    let empty = UploadStore { projects: vec![ProjectUploads { project_id: s("p1"), tickets: vec![] }], receipts: vec![] };
    assert!(check_upload_store(&empty));
    let twice = UploadStore {
        projects: vec![
            ProjectUploads { project_id: s("p1"), tickets: vec![] },
            ProjectUploads { project_id: s("p1"), tickets: vec![] },
        ],
        receipts: vec![],
    };
    assert!(!check_upload_store(&twice));
}
