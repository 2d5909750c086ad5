use rust_tools::assets::AssetEntry;
use rust_tools::bootstrap::{
    bootstrap_generates_mesh, output_bytes_of, required_reference_ids, validate_character_references,
};
use rust_tools::contracts::{AssetSource, AssetState, AssetSurface, ElementKind, ReferenceAuthority, RevisionState};
use rust_tools::elements::{ElementRecord, ElementRevision};

fn s(v: &str) -> String {
    v.to_string()
}

fn strings(items: &[&str]) -> Vec<String> {
    items.iter().map(|x| s(x)).collect()
}

fn hero(state: RevisionState, refs: &[&str]) -> ElementRecord {
    ElementRecord {
        element_id: s("hero"),
        kind: ElementKind::Character,
        name: s("Hero"),
        selected_revision_id: Some(s("r1")),
        revisions: vec![ElementRevision {
            revision_id: s("r1"),
            state,
            authority: ReferenceAuthority::Authoritative,
            reference_asset_ids: strings(refs),
            spec: s("{}"),
            created_at_ms: 1,
        }],
    }
}

fn asset(id: &str, media_type: &str, bytes: u64) -> AssetEntry {
    AssetEntry {
        asset_id: s(id),
        media_type: s(media_type),
        role: s("reference"),
        relative_path: format!("creative/p1/{id}"),
        checksum_sha256: "0".repeat(64),
        bytes,
        source: AssetSource::McpUpload,
        source_surface: AssetSurface::Scene,
        state: AssetState::Accepted,
        job_id: None,
        parent_asset_id: None,
        element_id: None,
        dependency_element_ids: vec![],
        artifact_kind: None,
        artifact_version: None,
        created_at_ms: 1,
    }
}

fn images() -> Vec<AssetEntry> {
    vec![asset("f", "image/png", 10), asset("si", "image/png", 20), asset("b", "image/jpeg", 30), asset("clip", "video/mp4", 40)]
}

#[test]
fn accepted_character_references_pass() {
    let elements = vec![hero(RevisionState::Accepted, &["f", "si", "b"])];
    let refs = strings(&["f", "si", "b"]);
    assert!(validate_character_references(&elements, &images(), "hero", &refs, "f", "si", "b").is_ok());
}

#[test]
fn character_references_are_refused_when_wrong() {
    let assets = images();
    let refs = strings(&["f", "si", "b"]);
    let accepted = vec![hero(RevisionState::Accepted, &["f", "si", "b"])];
    // unknown element
    assert!(validate_character_references(&accepted, &assets, "villain", &refs, "f", "si", "b").is_err());
    // not accepted
    let candidate = vec![hero(RevisionState::Candidate, &["f", "si", "b"])];
    assert!(validate_character_references(&candidate, &assets, "hero", &refs, "f", "si", "b").is_err());
    // repeated view
    assert!(validate_character_references(&accepted, &assets, "hero", &refs, "f", "f", "b").is_err());
    // a reference outside the revision
    let more = strings(&["f", "si", "b", "clip"]);
    assert!(validate_character_references(&accepted, &assets, "hero", &more, "f", "si", "b").is_err());
    // a revision reference that is not an image
    let with_clip = vec![hero(RevisionState::Accepted, &["f", "si", "b", "clip"])];
    assert!(validate_character_references(&with_clip, &assets, "hero", &more, "f", "si", "b").is_err());
    // not a character
    let mut prop = hero(RevisionState::Accepted, &["f", "si", "b"]);
    prop.kind = ElementKind::Prop;
    assert!(validate_character_references(&vec![prop], &assets, "hero", &refs, "f", "si", "b").is_err());
}

#[test]
fn reference_ids_must_be_unique_strings() {
    let ok = vec![Some(s("a")), Some(s("b"))];
    assert_eq!(required_reference_ids(Some(&ok)).unwrap(), strings(&["a", "b"]));
    assert!(required_reference_ids(None).is_err());
    assert!(required_reference_ids(Some(&vec![Some(s("a")), None])).is_err());
    assert!(required_reference_ids(Some(&vec![Some(s("a")), Some(s("a"))])).is_err());
    assert_eq!(required_reference_ids(Some(&vec![])).unwrap(), Vec::<String>::new());
}

#[test]
fn bootstrap_routes_decide_mesh_generation() {
    assert_eq!(bootstrap_generates_mesh("manual", false).unwrap(), false);
    assert!(bootstrap_generates_mesh("manual", true).is_err());
    assert_eq!(bootstrap_generates_mesh("binding", true).unwrap(), true);
    assert_eq!(bootstrap_generates_mesh("hybrid", false).unwrap(), true);
    assert!(bootstrap_generates_mesh("sculpt", false).is_err());
}

#[test]
fn output_bytes_add_up_known_assets() {
    let assets = images();
    assert_eq!(output_bytes_of(&assets, &strings(&["f", "b", "missing"])), 40);
    assert_eq!(output_bytes_of(&assets, &vec![]), 0);
    let huge = vec![asset("x", "image/png", u64::MAX), asset("y", "image/png", 5)];
    assert_eq!(output_bytes_of(&huge, &strings(&["x", "y"])), u64::MAX);
}

use rust_tools::bootstrap::{
    bootstrap_collection_name, bootstrap_scene_name, bootstrap_source_extension, bootstrap_source_name,
    check_bootstrap_route, short_id,
};
use rust_tools::error::McpError;

#[test]
fn bootstrap_routes_need_a_mesh_exactly_when_bound() {
    assert!(check_bootstrap_route("manual", false).is_ok());
    assert!(check_bootstrap_route("binding", true).is_ok());
    assert!(check_bootstrap_route("hybrid", true).is_ok());
    assert_eq!(
        check_bootstrap_route("manual", true).unwrap_err(),
        McpError::InvalidRequest(s("manual character bootstrap cannot consume a generated mesh"))
    );
    assert_eq!(
        check_bootstrap_route("binding", false).unwrap_err(),
        McpError::InvalidRequest(s("binding-backed character bootstrap requires a generated mesh asset"))
    );
    assert_eq!(
        check_bootstrap_route("sculpt", true).unwrap_err(),
        McpError::InvalidRequest(s("character bootstrap route is unsupported"))
    );
}

#[test]
fn bootstrap_names_use_the_short_job_id() {
    assert_eq!(short_id("job_abc"), "abc");
    assert_eq!(short_id("a_b_c"), "c");
    assert_eq!(short_id("plain"), "plain");
    assert_eq!(short_id("ends_"), "");
    assert_eq!(bootstrap_collection_name("job_abc"), "MA_Bootstrap_abc");
    assert_eq!(bootstrap_source_name("job_abc", "front", "png"), "bootstrap_abc_front.png");
    assert_eq!(bootstrap_scene_name("job_abc"), "character_bootstrap_abc.blend");
    assert_eq!(bootstrap_source_extension("creative/p1/Ref.PNG").unwrap(), "png");
    assert!(bootstrap_source_extension("creative/p1/ref").is_err());
    assert!(bootstrap_source_extension("creative/p1/ref.p-g").is_err());
    assert!(bootstrap_source_extension("creative/p1/ref.abcdefghijklmnopq").is_err());
}
