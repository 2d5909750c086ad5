use rust_tools::error::{internal, invalid, McpError};
use rust_tools::estimates::estimate_overflow;

#[test]
fn errors_carry_their_messages() {
    assert_eq!(invalid("bad input"), McpError::InvalidRequest("bad input".to_string()));
    assert_eq!(internal("broken store"), McpError::Internal("broken store".to_string()));
    assert_eq!(estimate_overflow(), McpError::InvalidRequest("creative estimate exceeds numeric bounds".to_string()));
}

use rust_tools::bindings::{validate_binding_selection, BindingAvailability, ExecutionBindingDescriptor};
use rust_tools::blender_paths::{artifact_relative_path, validate_blender_relative_path, BlenderArtifactScope};
use rust_tools::contracts::AssetSource;
use rust_tools::graph::reach::dirty_descendants;
use rust_tools::ingest::UploadRequest;
use rust_tools::text::validate_id;
use rust_tools::upload_flow::{accept_upload_bytes_at, complete_upload_at, issue_upload_ticket};
use rust_tools::uploads::{load_upload_receipt_at, FiledReceipt, ProjectUploads, UploadStore};

fn s(v: &str) -> String {
    v.to_string()
}

fn refused(e: McpError) -> String {
    match e {
        McpError::InvalidRequest(m) => m,
        McpError::Internal(m) => panic!("internal error {m}"),
    }
}

fn request() -> UploadRequest {
    UploadRequest {
        source: AssetSource::McpUpload,
        media_type: s("image/png"),
        role: s("reference"),
        filename: s("cat.png"),
        max_bytes: Some(100),
        ttl_ms: None,
    }
}

fn store() -> UploadStore {
    UploadStore { projects: vec![ProjectUploads { project_id: s("p1"), tickets: vec![] }], receipts: vec![] }
}

#[test]
fn identifiers_are_refused_by_field() {
    assert_eq!(refused(validate_id("bad id", "asset_id").unwrap_err()), "asset_id must be 1-64 ASCII letters, digits, '-' or '_'");
}

#[test]
fn blender_paths_are_refused_with_their_reason() {
    assert_eq!(
        refused(artifact_relative_path(BlenderArtifactScope::Scene, ".hidden").unwrap_err()),
        "Blender artifact name must be one bounded project-local file name"
    );
    assert_eq!(
        refused(validate_blender_relative_path("blender/scenes_old/a.blend").unwrap_err()),
        "Blender production path is outside the canonical project layout"
    );
    assert_eq!(
        refused(validate_blender_relative_path("assets/a.blend").unwrap_err()),
        "Blender production path must remain beneath the project blender subtree"
    );
    assert_eq!(refused(validate_blender_relative_path("").unwrap_err()), "Blender project path exceeds allowed bounds");
}

#[test]
fn partial_reruns_are_refused_with_their_reason() {
    let nodes = vec![s("a"), s("b")];
    assert_eq!(
        refused(dirty_descendants(&nodes, &vec![], &vec![]).unwrap_err()),
        "creative partial rerun requires at least one changed node"
    );
    assert_eq!(
        refused(dirty_descendants(&nodes, &vec![], &vec![s("z")]).unwrap_err()),
        "creative partial rerun references an unknown changed node"
    );
}

#[test]
fn a_missing_binding_names_the_compatible_ones() {
    let binding = |id: &str| ExecutionBindingDescriptor {
        binding_id: s(id),
        binding_version: s("1"),
        capabilities: vec![s("image.generate")],
        media_roles: vec![],
        extension_schema: s("{}"),
        constraints: s("{}"),
        license_notes: None,
        estimate_available: true,
        availability: BindingAvailability::Available,
    };
    let bindings = vec![binding("b1"), binding("b2")];
    assert_eq!(
        refused(validate_binding_selection(&bindings, Some(true), "image.generate", None).unwrap_err()),
        "execution_binding_required:image.generate:b1,b2"
    );
    assert_eq!(refused(validate_binding_selection(&bindings, None, "x", None).unwrap_err()), "unknown creative capability");
    assert_eq!(
        refused(validate_binding_selection(&bindings, Some(true), "image.edit", Some("b1")).unwrap_err()),
        "execution binding is incompatible with capability"
    );
    assert_eq!(
        refused(validate_binding_selection(&bindings, Some(true), "image.generate", Some("b9")).unwrap_err()),
        "execution binding is unavailable"
    );
}

#[test]
fn uploads_are_refused_with_their_reason() {
    let mut st = store();
    issue_upload_ticket(&mut st, "alice", "p1", None, &request(), 1000, "abc", "secret").unwrap();
    assert_eq!(
        refused(complete_upload_at(&st, "alice", "p1", "upload_abc", 1500).unwrap_err()),
        "creative upload has not received bytes"
    );
    assert_eq!(
        refused(complete_upload_at(&st, "bob", "p1", "upload_abc", 1500).unwrap_err()),
        "creative upload ticket project/owner mismatch"
    );
    accept_upload_bytes_at(&mut st, "alice", "upload_abc", "secret", None, b"data", 2000).unwrap();
    assert_eq!(
        refused(accept_upload_bytes_at(&mut st, "alice", "upload_abc", "secret", None, b"data", 2001).unwrap_err()),
        "creative upload ticket was already used"
    );
    assert_eq!(
        refused(accept_upload_bytes_at(&mut st, "alice", "upload_zzz", "secret", None, b"data", 2001).unwrap_err()),
        "unknown creative upload ticket"
    );
    assert_eq!(
        refused(issue_upload_ticket(&mut st, "alice", "p9", None, &request(), 1000, "abd", "secret").unwrap_err()),
        "path does not exist or is inaccessible"
    );
}

#[test]
fn a_receipt_filed_for_another_ticket_is_refused() {
    let mut st = store();
    issue_upload_ticket(&mut st, "alice", "p1", None, &request(), 1000, "abc", "secret").unwrap();
    let mut receipt = accept_upload_bytes_at(&mut st, "alice", "upload_abc", "secret", None, b"data", 2000).unwrap();
    assert!(load_upload_receipt_at(&st, "upload_abc", 2001).is_ok());
    receipt.ticket_id = s("upload_other");
    st.receipts = vec![FiledReceipt { project_id: s("p1"), ticket_id: s("upload_abc"), receipt }];
    assert_eq!(
        refused(load_upload_receipt_at(&st, "upload_abc", 2001).unwrap_err()),
        "creative upload receipt identity mismatch"
    );
}

use rust_tools::asset_paths::check_resolved_asset_path;

#[test]
fn every_artifact_path_passes_the_layout_check() {
    for scope in [
        BlenderArtifactScope::Scene,
        BlenderArtifactScope::Asset,
        BlenderArtifactScope::Reference,
        BlenderArtifactScope::RenderPreview,
        BlenderArtifactScope::RenderFinal,
        BlenderArtifactScope::Animation,
        BlenderArtifactScope::Export,
        BlenderArtifactScope::Checkpoint,
        BlenderArtifactScope::Temp,
    ] {
        let p = artifact_relative_path(scope, "shot..v2.blend").unwrap();
        assert!(validate_blender_relative_path(&p).is_ok(), "{p}");
    }
}

#[test]
fn resolved_asset_paths_stay_inside() {
    let roots = vec![s("/work")];
    assert_eq!(check_resolved_asset_path("/work/proj", "/work/proj/creative/p1/a.png", &roots).unwrap(), "creative/p1/a.png");
    assert_eq!(
        refused(check_resolved_asset_path("/work/proj", "/work/other/a.png", &roots).unwrap_err()),
        "creative asset must remain beneath the selected project cwd"
    );
    assert_eq!(
        refused(check_resolved_asset_path("/elsewhere", "/elsewhere/a.png", &roots).unwrap_err()),
        "creative asset is outside authorized workspace roots"
    );
    assert_eq!(refused(check_resolved_asset_path("/work/proj", "/work/proj", &roots).unwrap_err()), "creative asset path is invalid");
}

fn stored_ticket(id: &str) -> rust_tools::ingest::UploadTicket {
    rust_tools::ingest::UploadTicket {
        schema_version: 1,
        source: AssetSource::McpUpload,
        ticket_id: s(id),
        project_id: s("p1"),
        owner: s("alice"),
        media_type: s("image/png"),
        role: s("reference"),
        filename: s("a.png"),
        max_bytes: 100,
        expires_at_ms: 5000,
        used_at_ms: None,
        token_sha256: "a".repeat(64),
        created_at_ms: 1000,
    }
}

#[test]
fn stored_tickets_load_back_and_keep_the_index_sorted() {
    let mut st = store();
    rust_tools::uploads::store_upload_ticket_at(&mut st, &stored_ticket("upload_b"), 1000).unwrap();
    rust_tools::uploads::store_upload_ticket_at(&mut st, &stored_ticket("upload_a"), 1000).unwrap();
    rust_tools::uploads::store_upload_ticket_at(&mut st, &stored_ticket("upload_b"), 1000).unwrap();
    let ids: Vec<String> = st.projects[0].tickets.iter().map(|t| t.ticket_id.clone()).collect();
    assert_eq!(ids, vec![s("upload_a"), s("upload_b")]);
    let loaded = rust_tools::uploads::load_upload_ticket_at(&st, "upload_a", 1000).unwrap();
    assert_eq!(loaded.ticket_id, "upload_a");
    assert_eq!(loaded.owner, "alice");
    assert_eq!(
        refused(rust_tools::uploads::load_upload_ticket_at(&st, "upload_z", 1000).unwrap_err()),
        "unknown creative upload ticket"
    );
}
