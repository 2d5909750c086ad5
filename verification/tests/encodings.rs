use rust_tools::blender_scripts::py_string;
use rust_tools::contracts::AssetSource;
use rust_tools::ingest::UploadRequest;
use rust_tools::upload_flow::issue_upload_ticket;
use rust_tools::uploads::{ProjectUploads, UploadStore};

fn s(v: &str) -> String {
    v.to_string()
}

#[test]
fn upload_paths_carry_the_cwd_in_url_safe_base64() {
    let mut st = UploadStore { projects: vec![ProjectUploads { project_id: s("p1"), tickets: vec![] }], receipts: vec![] };
    let request = UploadRequest {
        source: AssetSource::McpUpload,
        media_type: s("image/png"),
        role: s("reference"),
        filename: s("a.png"),
        max_bytes: Some(10),
        ttl_ms: None,
    };
    let issued = issue_upload_ticket(&mut st, "alice", "p1", Some("a?>b"), &request, 1, "abc", "t").unwrap();
    assert_eq!(issued.upload_path, "/creative-upload/upload_abc?cwd=YT8-Yg");
    let plain = issue_upload_ticket(&mut st, "alice", "p1", None, &request, 1, "abd", "t").unwrap();
    assert_eq!(plain.upload_path, "/creative-upload/upload_abd?cwd=");
}

#[test]
fn python_strings_are_json_quoted() {
    assert_eq!(py_string("say \"hi\" \\ now", 100).unwrap(), "\"say \\\"hi\\\" \\\\ now\"");
    assert_eq!(py_string("caf\u{e9}", 100).unwrap(), "\"caf\u{e9}\"");
}
