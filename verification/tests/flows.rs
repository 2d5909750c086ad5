use rust_tools::contracts::{AssetSource, ElementKind, ReferenceAuthority, RevisionState};
use rust_tools::elements::{promote_element_revision, reject_element_revision, ElementRecord, ElementRevision, PromotionOutcome};
use rust_tools::ingest::UploadRequest;
use rust_tools::jobs::{
    begin_retry, cancel, start_if_queued, validate_job_record, CreativeJobKind, CreativeJobRecord, CreativeJobStatus,
    WaitStep,
};
use rust_tools::upload_flow::{
    accept_upload_bytes_at, complete_upload_at, issue_upload_ticket, record_upload_asset, request_upload,
    UploadCompletion,
};
use rust_tools::uploads::{ProjectUploads, UploadStore};

fn s(v: &str) -> String {
    v.to_string()
}

fn store() -> UploadStore {
    UploadStore { projects: vec![ProjectUploads { project_id: s("p1"), tickets: vec![] }], receipts: vec![] }
}

fn upload_request() -> UploadRequest {
    UploadRequest {
        source: AssetSource::McpUpload,
        media_type: s("image/png"),
        role: s("reference"),
        filename: s("cat photo.png"),
        max_bytes: Some(100),
        ttl_ms: None,
    }
}

#[test]
fn upload_ticket_is_used_once() {
    let mut st = store();
    let issued = issue_upload_ticket(&mut st, "alice", "p1", None, &upload_request(), 1000, "abc", "secret").unwrap();
    assert_eq!(issued.ticket_id, "upload_abc");
    assert_eq!(issued.upload_token, "secret");
    assert_eq!(issued.expires_at_ms, 601000);
    assert_eq!(issued.max_bytes, 100);
    assert!(accept_upload_bytes_at(&mut st, "alice", "upload_abc", "wrong", Some("image/png"), b"data", 2000).is_err());
    assert!(accept_upload_bytes_at(&mut st, "bob", "upload_abc", "secret", Some("image/png"), b"data", 2000).is_err());
    assert!(accept_upload_bytes_at(&mut st, "alice", "upload_abc", "secret", Some("video/mp4"), b"data", 2000).is_err());
    assert!(accept_upload_bytes_at(&mut st, "alice", "upload_abc", "secret", None, &[0u8; 101], 2000).is_err());
    let receipt = accept_upload_bytes_at(&mut st, "alice", "upload_abc", "secret", Some("IMAGE/PNG"), b"data", 2000).unwrap();
    assert_eq!(receipt.ticket_id, "upload_abc");
    assert_eq!(receipt.project_id, "p1");
    assert!(accept_upload_bytes_at(&mut st, "alice", "upload_abc", "secret", None, b"data", 2001).is_err());
}

#[test]
fn expired_and_unknown_tickets_are_refused() {
    let mut st = store();
    issue_upload_ticket(&mut st, "alice", "p1", None, &upload_request(), 1000, "abc", "secret").unwrap();
    assert!(accept_upload_bytes_at(&mut st, "alice", "upload_abc", "secret", None, b"data", 601001).is_err());
    assert!(accept_upload_bytes_at(&mut st, "alice", "upload_zzz", "secret", None, b"data", 2000).is_err());
    assert!(issue_upload_ticket(&mut st, "alice", "p9", None, &upload_request(), 1000, "abd", "secret").is_err());
    let bad_source = UploadRequest { source: AssetSource::UrlImport, ..upload_request() };
    assert!(issue_upload_ticket(&mut st, "alice", "p1", None, &bad_source, 1000, "abe", "secret").is_err());
}

#[test]
fn completion_names_the_recorded_asset() {
    let mut st = store();
    issue_upload_ticket(&mut st, "alice", "p1", None, &upload_request(), 1000, "abc", "secret").unwrap();
    assert!(complete_upload_at(&st, "alice", "p1", "upload_abc", 1500).is_err());
    accept_upload_bytes_at(&mut st, "alice", "upload_abc", "secret", None, b"data", 2000).unwrap();
    match complete_upload_at(&st, "alice", "p1", "upload_abc", 3000).unwrap() {
        UploadCompletion::Register(reg) => {
            assert_eq!(reg.media_type, "image/png");
            assert_eq!(reg.role, "reference");
            assert_eq!(reg.source, AssetSource::McpUpload);
        },
        UploadCompletion::Registered(_) => panic!("nothing is registered yet"),
    }
    assert!(complete_upload_at(&st, "bob", "p1", "upload_abc", 3000).is_err());
    assert!(complete_upload_at(&st, "alice", "p2", "upload_abc", 3000).is_err());
    record_upload_asset(&mut st, "alice", "p1", "upload_abc", "asset_1", 3000).unwrap();
    match complete_upload_at(&st, "alice", "p1", "upload_abc", 3001).unwrap() {
        UploadCompletion::Registered(a) => assert_eq!(a, "asset_1"),
        UploadCompletion::Register(_) => panic!("the asset was recorded"),
    }
}

#[test]
fn random_upload_tickets_have_their_shape() {
    let mut st = store();
    let issued = request_upload(&mut st, "alice", "p1", None, &upload_request()).unwrap();
    assert!(issued.ticket_id.starts_with("upload_"));
    assert_eq!(issued.ticket_id.len(), 39);
    assert_eq!(issued.upload_token.len(), 64);
    assert!(issued.upload_token.chars().all(|c| c.is_ascii_hexdigit() && !c.is_ascii_uppercase()));
    assert_eq!(issued.method, "PUT");
}

fn revision(id: &str, state: RevisionState) -> ElementRevision {
    ElementRevision {
        revision_id: s(id),
        state,
        authority: ReferenceAuthority::Generated,
        reference_asset_ids: vec![],
        spec: s("{}"),
        created_at_ms: 1,
    }
}

fn element(kind: ElementKind) -> ElementRecord {
    ElementRecord {
        element_id: s("e1"),
        kind,
        name: s("Hero"),
        selected_revision_id: Some(s("r1")),
        revisions: vec![revision("r1", RevisionState::Accepted), revision("r2", RevisionState::Candidate)],
    }
}

#[test]
fn promotion_leaves_one_accepted_revision() {
    let mut elements = vec![element(ElementKind::Character)];
    assert_eq!(promote_element_revision(&mut elements, "e1", "r2").unwrap(), PromotionOutcome::Done);
    let e = &elements[0];
    assert_eq!(e.selected_revision_id.as_deref(), Some("r2"));
    assert_eq!(e.revisions[0].state, RevisionState::Candidate);
    assert_eq!(e.revisions[1].state, RevisionState::Accepted);
    assert!(promote_element_revision(&mut elements, "e1", "r9").is_err());
    assert!(promote_element_revision(&mut elements, "e9", "r1").is_err());
    let mut styles = vec![element(ElementKind::Style)];
    assert_eq!(promote_element_revision(&mut styles, "e1", "r2").unwrap(), PromotionOutcome::ReviewStyleDependents);
    assert_eq!(promote_element_revision(&mut styles, "e1", "r2").unwrap(), PromotionOutcome::Done);
}

#[test]
fn rejection_clears_the_selection_it_removes() {
    let mut elements = vec![element(ElementKind::Prop)];
    reject_element_revision(&mut elements, "e1", "r2").unwrap();
    assert_eq!(elements[0].selected_revision_id.as_deref(), Some("r1"));
    assert_eq!(elements[0].revisions[1].state, RevisionState::Rejected);
    reject_element_revision(&mut elements, "e1", "r1").unwrap();
    assert_eq!(elements[0].selected_revision_id, None);
    assert_eq!(elements[0].revisions[0].state, RevisionState::Rejected);
    assert!(reject_element_revision(&mut elements, "e1", "nope").is_err());
}

fn job(status: CreativeJobStatus) -> CreativeJobRecord {
    CreativeJobRecord {
        schema_version: 1,
        job_id: s("job_1"),
        project_id: s("p1"),
        owner: s("alice"),
        kind: CreativeJobKind::Capability,
        graph_id: None,
        capability_id: Some(s("image.generate")),
        workflow_id: None,
        execution_binding_id: None,
        execution_parameters: s("{}"),
        compiler_version: None,
        execution_binding_version: None,
        changed_fields: vec![],
        status,
        estimate: None,
        approved: false,
        retry_count: 0,
        max_retries: 1,
        timeout_ms: 1000,
        created_at_ms: 1,
        updated_at_ms: 1,
        node_runs: vec![],
        output_asset_ids: vec![],
        actual_output_bytes: None,
        failure_code: None,
    }
}

#[test]
fn cancelled_jobs_stay_cancelled() {
    let mut j = job(CreativeJobStatus::Running);
    assert!(validate_job_record(&j, true).is_ok());
    assert!(cancel(&mut j, "bob", 5).is_err());
    cancel(&mut j, "alice", 5).unwrap();
    assert_eq!(j.status, CreativeJobStatus::Cancelled);
    assert_eq!(j.updated_at_ms, 5);
    assert!(cancel(&mut j, "alice", 6).is_err());
    assert_eq!(j.updated_at_ms, 5);
    assert!(matches!(start_if_queued(&mut j, 0, 1, 7), Ok(WaitStep::Report)));
    assert_eq!(j.status, CreativeJobStatus::Cancelled);
}

#[test]
fn retries_are_bounded() {
    let mut j = job(CreativeJobStatus::Failed);
    j.failure_code = Some(s("timeout"));
    begin_retry(&mut j, 9).unwrap();
    assert_eq!((j.status, j.retry_count, j.updated_at_ms), (CreativeJobStatus::Queued, 1, 9));
    assert!(j.failure_code.is_none());
    assert!(start_if_queued(&mut j, 1, 1, 10).is_err());
    assert!(matches!(start_if_queued(&mut j, 0, 1, 10), Ok(WaitStep::Run)));
    assert_eq!(j.status, CreativeJobStatus::Running);
    j.status = CreativeJobStatus::Failed;
    assert!(begin_retry(&mut j, 11).is_err());
    let mut done = job(CreativeJobStatus::Completed);
    begin_retry(&mut done, 12).unwrap();
    assert_eq!(done.status, CreativeJobStatus::Completed);
}
