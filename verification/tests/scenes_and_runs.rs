use rust_tools::assets::AssetEntry;
use rust_tools::contracts::{AssetSource, AssetState, AssetSurface, ElementKind, ReferenceAuthority, RevisionState};
use rust_tools::elements::{ElementRecord, ElementRevision};
use rust_tools::graph::run::{
    finalize_graph_job, graph_job_start, record_batch, record_reused, reusable_output, sort_by_run_key, NodeOutcome,
};
use rust_tools::jobs::{CreativeJobKind, CreativeJobStatus, NodeRunRecord};
use rust_tools::metadata::{check_asset_metadata, validate_asset_metadata, AssetMetadata};
use rust_tools::production::DirectorShotSpec;
use rust_tools::scenes::{
    check_location_packs, check_scenes, selected_location_spec, validate_location_pack_spec, validate_scene,
    validate_unique_texts, CameraSpec, LocationPackSpec, LocationVariant, SceneGlobalDirection, SceneManifest,
    ShotManifest,
};

fn s(v: &str) -> String {
    v.to_string()
}

fn strings(items: &[&str]) -> Vec<String> {
    items.iter().map(|x| s(x)).collect()
}

fn revision(id: &str, spec: &str) -> ElementRevision {
    ElementRevision {
        revision_id: s(id),
        state: RevisionState::Accepted,
        authority: ReferenceAuthority::Authoritative,
        reference_asset_ids: vec![],
        spec: s(spec),
        created_at_ms: 1,
    }
}

fn element(id: &str, kind: ElementKind, selected: Option<&str>) -> ElementRecord {
    ElementRecord {
        element_id: s(id),
        kind,
        name: s(id),
        selected_revision_id: selected.map(s),
        revisions: vec![revision("r1", r#"{"spec_type":"world_location_v1"}"#)],
    }
}

fn elements() -> Vec<ElementRecord> {
    vec![
        element("city", ElementKind::Location, Some("r1")),
        element("look", ElementKind::Style, None),
        element("hero", ElementKind::Character, None),
        element("tower3d", ElementKind::Asset3d, None),
    ]
}

fn asset(id: &str) -> AssetEntry {
    AssetEntry {
        asset_id: s(id),
        media_type: s("image/png"),
        role: s("frame"),
        relative_path: format!("creative/p1/{id}.png"),
        checksum_sha256: "0".repeat(64),
        bytes: 1,
        source: AssetSource::McpUpload,
        source_surface: AssetSurface::Scene,
        state: AssetState::Accepted,
        job_id: None,
        parent_asset_id: None,
        element_id: None,
        dependency_element_ids: vec![],
        artifact_kind: None,
        artifact_version: None,
        created_at_ms: 1,
    }
}

fn pack() -> LocationPackSpec {
    LocationPackSpec {
        spec_type: s("world_location_v1"),
        concept: s("a rain-soaked city"),
        scale: s("district"),
        architecture_language: s("brutalist towers"),
        set_dressing_language: s("neon signs"),
        continuity_notes: s(""),
        canonical_landmarks: strings(&["tower", "bridge"]),
        variants: vec![LocationVariant { variant_id: s("night"), time_of_day: Some(s("night")), weather: Some(s("rain")), lighting: None }],
        camera_landmarks: strings(&["rooftop"]),
        style_element_id: Some(s("look")),
        asset3d_element_ids: strings(&["tower3d"]),
    }
}

fn direction() -> SceneGlobalDirection {
    SceneGlobalDirection {
        genre_look: Some(s("noir")),
        lighting: None,
        color_palette: strings(&["teal", "amber"]),
        atmosphere: None,
        era_time: None,
        spatial_constraints: s("null"),
        hero_frame_first: false,
    }
}

fn director() -> DirectorShotSpec {
    DirectorShotSpec { camera_profile: None, depth_of_field_intent: None, movement_speed: None, stabilization: None, tempo_edit_intent: None }
}

fn shot(id: &str, order: u32, duration_ms: u64) -> ShotManifest {
    ShotManifest {
        shot_id: s(id),
        order,
        duration_ms,
        element_ids: strings(&["hero"]),
        location_variant_id: Some(s("night")),
        revision_id: None,
        camera: CameraSpec { shot_size: Some(s("wide")), movement: None, framing: None, optics_within_bounds: true },
        director: director(),
        reference_asset_ids: strings(&["a1"]),
        hero_frame_asset_id: None,
        carry_forward_anchor_asset_id: None,
        engine: Some(s("blender")),
        execution_binding_id: None,
        action: s("the hero looks up"),
        state_in: s("{}"),
        state_out: s("null"),
        continuity: s("{}"),
    }
}

fn scene(shots: Vec<ShotManifest>) -> SceneManifest {
    SceneManifest {
        scene_id: s("s1"),
        title: s("Arrival"),
        revision_id: None,
        global_direction: direction(),
        cast_element_ids: strings(&["hero"]),
        location_element_id: Some(s("city")),
        style_element_id: Some(s("look")),
        target_duration_ms: Some(10_000),
        selected_hero_frame_asset_id: Some(s("a1")),
        shots,
    }
}

#[test]
fn location_packs_are_checked() {
    let els = elements();
    assert!(validate_location_pack_spec(&Some(pack()), &els).is_ok());
    assert!(validate_location_pack_spec(&None, &els).is_err());
    let wrong_type = LocationPackSpec { spec_type: s("world_location_v2"), ..pack() };
    assert!(validate_location_pack_spec(&Some(wrong_type), &els).is_err());
    let repeated = LocationPackSpec { canonical_landmarks: strings(&["tower", "tower"]), ..pack() };
    assert!(validate_location_pack_spec(&Some(repeated), &els).is_err());
    let wrong_style = LocationPackSpec { style_element_id: Some(s("hero")), ..pack() };
    assert!(validate_location_pack_spec(&Some(wrong_style), &els).is_err());
    let wrong_3d = LocationPackSpec { asset3d_element_ids: strings(&["look"]), ..pack() };
    assert!(validate_location_pack_spec(&Some(wrong_3d), &els).is_err());
    assert!(validate_unique_texts(&strings(&["a", "b"]), 10).is_ok());
    assert!(validate_unique_texts(&strings(&["a", ""]), 10).is_err());
    assert_eq!(selected_location_spec(&els, "city").unwrap(), r#"{"spec_type":"world_location_v1"}"#);
    assert!(selected_location_spec(&els, "look").is_err());
    let packs = vec![vec![Some(pack())], vec![], vec![], vec![]];
    assert!(check_location_packs(&els, &packs));
    let broken = vec![vec![None], vec![], vec![], vec![]];
    assert!(!check_location_packs(&els, &broken));
}

#[test]
fn scenes_are_checked() {
    let els = elements();
    let assets = vec![asset("a1")];
    let good = scene(vec![shot("sh1", 1, 6_000), shot("sh2", 2, 6_000)]);
    assert!(validate_scene(&good, &els, &assets, &Some(pack())).is_ok());
    assert!(validate_scene(&good, &els, &assets, &None).is_err());
    let too_long = scene(vec![shot("sh1", 1, 15_000), shot("sh2", 2, 6_000)]);
    assert!(validate_scene(&too_long, &els, &assets, &Some(pack())).is_err());
    let same_order = scene(vec![shot("sh1", 1, 1_000), shot("sh2", 1, 1_000)]);
    assert!(validate_scene(&same_order, &els, &assets, &Some(pack())).is_err());
    let mut bad_variant = shot("sh1", 1, 1_000);
    bad_variant.location_variant_id = Some(s("dawn"));
    assert!(validate_scene(&scene(vec![bad_variant]), &els, &assets, &Some(pack())).is_err());
    let mut bad_optics = shot("sh1", 1, 1_000);
    bad_optics.camera.optics_within_bounds = false;
    assert!(validate_scene(&scene(vec![bad_optics]), &els, &assets, &Some(pack())).is_err());
    let mut bad_engine = shot("sh1", 1, 1_000);
    bad_engine.engine = Some(s("unreal"));
    assert!(validate_scene(&scene(vec![bad_engine]), &els, &assets, &Some(pack())).is_err());
    let mut no_location = scene(vec![]);
    no_location.location_element_id = None;
    assert!(validate_scene(&no_location, &els, &assets, &None).is_ok());
    let mut variant_without_location = scene(vec![shot("sh1", 1, 1_000)]);
    variant_without_location.location_element_id = None;
    assert!(validate_scene(&variant_without_location, &els, &assets, &Some(pack())).is_err());
    assert!(check_scenes(&vec![good.clone()], &els, &assets, &vec![Some(pack())]));
    assert!(!check_scenes(&vec![good, too_long], &els, &assets, &vec![Some(pack()), Some(pack())]));
}

fn metadata() -> AssetMetadata {
    AssetMetadata {
        width: Some(1920),
        height: Some(1080),
        duration_ms: None,
        frame_rate_within_bounds: true,
        language: Some(s("en")),
        sample_rate_hz: Some(48_000),
        channels: Some(2),
        artifact_kind: None,
        artifact_version: None,
        license_notes: None,
    }
}

#[test]
fn asset_metadata_is_bounded() {
    assert!(validate_asset_metadata(&metadata()).is_ok());
    assert!(validate_asset_metadata(&AssetMetadata { width: Some(0), ..metadata() }).is_err());
    assert!(validate_asset_metadata(&AssetMetadata { sample_rate_hz: Some(7_999), ..metadata() }).is_err());
    assert!(validate_asset_metadata(&AssetMetadata { channels: Some(33), ..metadata() }).is_err());
    assert!(validate_asset_metadata(&AssetMetadata { language: Some(s("")), ..metadata() }).is_err());
    assert!(validate_asset_metadata(&AssetMetadata { frame_rate_within_bounds: false, ..metadata() }).is_err());
    assert!(check_asset_metadata(&vec![metadata(), metadata()]));
    assert!(!check_asset_metadata(&vec![metadata(), AssetMetadata { height: Some(16_385), ..metadata() }]));
}

fn run(id: &str, batch: u32, status: CreativeJobStatus, output: Option<&str>) -> NodeRunRecord {
    NodeRunRecord { node_id: s(id), status, output: output.map(s), failure_code: None, reused: false, execution_batch: batch }
}

#[test]
fn graph_jobs_start_running_or_failed() {
    let job = graph_job_start("job_1", "p1", "alice", "g1", true, 5);
    assert_eq!(job.status, CreativeJobStatus::Running);
    assert_eq!(job.kind, CreativeJobKind::Graph);
    assert_eq!(job.graph_id.as_deref(), Some("g1"));
    assert_eq!(job.execution_parameters, "{}");
    assert!(job.approved);
    let failed = graph_job_start("job_2", "p1", "alice", "g1", false, 5);
    assert_eq!(failed.status, CreativeJobStatus::Failed);
    assert_eq!(failed.failure_code.as_deref(), Some("graph_validation_failed"));
}

#[test]
fn partial_reruns_reuse_clean_completed_nodes() {
    let previous = vec![
        run("a", 0, CreativeJobStatus::Completed, Some("{\"x\":1}")),
        run("b", 1, CreativeJobStatus::Failed, None),
        run("a", 0, CreativeJobStatus::Completed, Some("{\"x\":2}")),
    ];
    let dirty = strings(&["c"]);
    assert_eq!(reusable_output(Some(&dirty), "a", &previous), Some(s("{\"x\":2}")));
    assert_eq!(reusable_output(Some(&dirty), "b", &previous), None);
    assert_eq!(reusable_output(Some(&dirty), "z", &previous), None);
    assert_eq!(reusable_output(None, "a", &previous), None);
    assert_eq!(reusable_output(Some(&strings(&["a"])), "a", &previous), None);
}

#[test]
fn batches_record_outcomes_in_name_order_until_a_failure() {
    let mut job = graph_job_start("job_1", "p1", "alice", "g1", true, 5);
    record_reused(&mut job, s("in"), s("{}"), strings(&["asset_0"]), 0);
    let outcomes = vec![
        NodeOutcome { node_id: s("b"), result: Ok((s("{\"asset_id\":\"asset_2\"}"), strings(&["asset_2"]))) },
        NodeOutcome { node_id: s("a"), result: Ok((s("{}"), strings(&["asset_1", "asset_0"]))) },
    ];
    assert_eq!(record_batch(&mut job, 1, outcomes), None);
    let names: Vec<&str> = job.node_runs.iter().map(|r| r.node_id.as_str()).collect();
    assert_eq!(names, vec!["in", "a", "b"]);
    assert_eq!(job.output_asset_ids, strings(&["asset_0", "asset_1", "asset_0", "asset_2"]));
    let failing = vec![
        NodeOutcome { node_id: s("e"), result: Ok((s("{}"), strings(&["asset_9"]))) },
        NodeOutcome { node_id: s("d"), result: Err(s("render_failed")) },
        NodeOutcome { node_id: s("c"), result: Ok((s("{}"), vec![])) },
    ];
    let failure = record_batch(&mut job, 2, failing);
    assert_eq!(failure.as_deref(), Some("render_failed"));
    let names: Vec<&str> = job.node_runs.iter().map(|r| r.node_id.as_str()).collect();
    assert_eq!(names, vec!["in", "a", "b", "c", "d"]);
    assert_eq!(job.node_runs[4].status, CreativeJobStatus::Failed);
    finalize_graph_job(&mut job, failure, 9);
    assert_eq!(job.status, CreativeJobStatus::Failed);
    assert_eq!(job.failure_code.as_deref(), Some("render_failed"));
    assert_eq!(job.updated_at_ms, 9);
    assert_eq!(job.output_asset_ids, strings(&["asset_0", "asset_1", "asset_2"]));
    let order: Vec<(u32, &str)> = job.node_runs.iter().map(|r| (r.execution_batch, r.node_id.as_str())).collect();
    assert_eq!(order, vec![(0, "in"), (1, "a"), (1, "b"), (2, "c"), (2, "d")]);
}

#[test]
fn runs_sort_by_batch_then_name() {
    let runs = vec![
        run("b", 1, CreativeJobStatus::Completed, None),
        run("z", 0, CreativeJobStatus::Completed, None),
        run("a", 1, CreativeJobStatus::Completed, None),
    ];
    let sorted = sort_by_run_key(runs);
    let order: Vec<(u32, &str)> = sorted.iter().map(|r| (r.execution_batch, r.node_id.as_str())).collect();
    assert_eq!(order, vec![(0, "z"), (1, "a"), (1, "b")]);
    let mut done = graph_job_start("job_3", "p1", "alice", "g1", true, 1);
    finalize_graph_job(&mut done, None, 2);
    assert_eq!(done.status, CreativeJobStatus::Completed);
    assert!(done.failure_code.is_none());
}
