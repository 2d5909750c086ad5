use rust_tools::assets::AssetEntry;
use rust_tools::bindings::{BindingAvailability, ExecutionBindingDescriptor};
use rust_tools::blender_scripts::{export_operator, file_extension, import_extension, materialized_path, py_string};
use rust_tools::compiler::{compile, validate_changed_fields, validate_semantic_spec, BindingExtension, SemanticReference, SemanticRequestSpec};
use rust_tools::contracts::{AssetSource, AssetState, AssetSurface, QaSeverity};
use rust_tools::production::{validate_audio, validate_relative_path, AudioCue, AudioPlan};
use rust_tools::store_index::{
    add_project_to_index, add_template_to_index, graph_path, index_path, list_projects, new_project_id, project_path,
    recent_job_ids, track_graph, ProjectIndex, TemplateIndex, MAX_LISTED_JOBS,
};
use rust_tools::style_review::{mark_style_dependents_for_review, style_dependents, SceneShots, SubjectKind};

fn s(v: &str) -> String {
    v.to_string()
}

fn strings(items: &[&str]) -> Vec<String> {
    items.iter().map(|x| s(x)).collect()
}

fn spec() -> SemanticRequestSpec {
    SemanticRequestSpec {
        schema_version: 1,
        prompt: Some(s("a red fox")),
        references: vec![
            SemanticReference { asset_id: s("r2"), role: s("style"), order: 2 },
            SemanticReference { asset_id: s("r1"), role: s("subject"), order: 1 },
        ],
        asset_id: None,
        mask_asset_id: None,
        element_id: None,
        width: Some(512),
        height: Some(512),
        batch_count: None,
        duration_ms: None,
        binding_extensions: vec![BindingExtension { binding_id: s("b1"), value: s(r#"{"steps":20}"#) }],
    }
}

fn binding(schema: &str) -> ExecutionBindingDescriptor {
    ExecutionBindingDescriptor {
        binding_id: s("b1"),
        binding_version: s("2024.1"),
        capabilities: vec![s("image.generate")],
        media_roles: vec![],
        extension_schema: s(schema),
        constraints: s("{}"),
        license_notes: None,
        estimate_available: true,
        availability: BindingAvailability::Available,
    }
}

#[test]
fn semantic_specs_are_checked() {
    assert!(validate_semantic_spec(&spec()).is_ok());
    let mut bad = spec();
    bad.width = Some(0);
    assert!(validate_semantic_spec(&bad).is_err());
    let mut twice = spec();
    twice.references[1].order = 2;
    assert!(validate_semantic_spec(&twice).is_err());
    let mut version = spec();
    version.schema_version = 2;
    assert!(validate_semantic_spec(&version).is_err());
}

#[test]
fn changed_fields_are_sorted_and_known() {
    assert_eq!(validate_changed_fields(&strings(&["width", "prompt"])).unwrap(), strings(&["prompt", "width"]));
    assert!(validate_changed_fields(&strings(&["prompt", "prompt"])).is_err());
    assert!(validate_changed_fields(&strings(&["colour"])).is_err());
}

#[test]
fn compiling_orders_references_and_checks_the_extension() {
    let schema = r#"{"type":"object","properties":{"steps":{"type":"integer","maximum":50}}}"#;
    let compiled = compile(&vec![binding(schema)], Some(true), "image.generate", "b1", &spec(), &strings(&["width", "prompt"])).unwrap();
    assert_eq!(compiled.compiler_version, "creative.semantic.v1");
    assert_eq!(compiled.execution_binding_version, "2024.1");
    assert_eq!(compiled.changed_fields, strings(&["prompt", "width"]));
    let ids: Vec<&str> = compiled.parameters.references.iter().map(|r| r.asset_id.as_str()).collect();
    assert_eq!(ids, vec!["r1", "r2"]);
    assert_eq!(compiled.parameters.binding_extension.as_deref(), Some(r#"{"steps":20}"#));
    let strict = r#"{"type":"object","properties":{"steps":{"type":"integer","maximum":10}}}"#;
    assert!(compile(&vec![binding(strict)], Some(true), "image.generate", "b1", &spec(), &vec![]).is_err());
    assert!(compile(&vec![binding(schema)], Some(false), "image.generate", "b1", &spec(), &vec![]).is_err());
    assert!(compile(&vec![binding(schema)], Some(true), "image.generate", "b2", &spec(), &vec![]).is_err());
}

#[test]
fn python_literals_and_import_rules() {
    assert_eq!(py_string("a\"b\\c", 100).unwrap(), r#""a\"b\\c""#);
    assert!(py_string("", 100).is_err());
    assert!(py_string("abcdef", 5).is_err());
    assert_eq!(file_extension("blender/refs/Photo.JPG").unwrap(), "jpg");
    assert!(file_extension("noext").is_err());
    assert_eq!(import_extension("creative/p/ref.png", "reference", None).unwrap(), "png");
    assert!(import_extension("creative/p/ref.png", "asset", None).is_err());
    assert_eq!(import_extension("creative/p/m.glb", "asset", Some("hero.glb")).unwrap(), "glb");
    assert!(import_extension("creative/p/m.glb", "asset", Some("hero.fbx")).is_err());
    assert_eq!(materialized_path("asset", "hero.glb").unwrap(), "blender/assets/hero.glb");
    assert_eq!(materialized_path("reference", "r.png").unwrap(), "blender/references/r.png");
    assert!(materialized_path("scene", "r.png").is_err());
    assert_eq!(export_operator("fbx").unwrap(), "bpy.ops.export_scene.fbx(filepath=_path, use_selection=True)");
    assert!(export_operator("stl").is_err());
}

#[test]
fn store_indexes() {
    assert_eq!(index_path(), ".masihawam/creative/index.json");
    assert_eq!(project_path("p1"), ".masihawam/creative/projects/p1/project.json");
    assert_eq!(graph_path("p1", "g1"), ".masihawam/creative/projects/p1/graphs/g1.json");
    let mut index = ProjectIndex { schema_version: 1, project_ids: strings(&["b"]) };
    add_project_to_index(&mut index, "a").unwrap();
    add_project_to_index(&mut index, "c").unwrap();
    assert_eq!(index.project_ids, strings(&["a", "b", "c"]));
    assert!(add_project_to_index(&mut index, "b").is_err());
    assert_eq!(list_projects(&index).unwrap(), strings(&["a", "b", "c"]));
    assert!(list_projects(&ProjectIndex { schema_version: 2, project_ids: vec![] }).is_err());
    let mut templates = TemplateIndex { schema_version: 1, template_ids: vec![] };
    add_template_to_index(&mut templates, "t2", false).unwrap();
    add_template_to_index(&mut templates, "t1", false).unwrap();
    assert_eq!(templates.template_ids, strings(&["t1", "t2"]));
    assert!(add_template_to_index(&mut templates, "t3", true).is_err());
    assert_eq!(new_project_id(Some(s("mine"))).unwrap(), "mine");
    assert!(new_project_id(Some(s("not valid"))).is_err());
    let generated = new_project_id(None).unwrap();
    assert!(generated.starts_with("project_"));
    assert_eq!(generated.len(), 40);
}

#[test]
fn graphs_and_jobs_are_tracked() {
    let mut graphs = strings(&["g1"]);
    assert_eq!(track_graph(&mut graphs, "p1", "g2", true).unwrap(), true);
    assert_eq!(track_graph(&mut graphs, "p1", "g1", true).unwrap(), false);
    assert!(track_graph(&mut graphs, "p1", "g3", false).is_err());
    assert_eq!(graphs, strings(&["g1", "g2"]));
    let jobs: Vec<String> = (0..250).map(|i| format!("job_{i}")).collect();
    let recent = recent_job_ids(&jobs);
    assert_eq!(recent.len(), MAX_LISTED_JOBS);
    assert_eq!(recent[0], "job_249");
    assert_eq!(recent[199], "job_50");
    assert_eq!(recent_job_ids(&strings(&["a", "b"])), strings(&["b", "a"]));
}

#[test]
fn production_paths_and_audio() {
    assert!(validate_relative_path("scenes/a/shot.json", "path").is_ok());
    assert!(validate_relative_path("../shot.json", "path").is_err());
    assert!(validate_relative_path("", "path").is_err());
    let cue = |id: &str, asset: Option<&str>| AudioCue { cue_id: s(id), start_ms: 0, duration_ms: None, asset_id: asset.map(s), text: None };
    let plan = AudioPlan { audio_plan_id: s("a1"), voice_element_id: Some(s("voice")), language: None, cues: vec![cue("c1", Some("asset1")), cue("c2", None)] };
    assert!(validate_audio(&plan, &strings(&["voice"]), &strings(&["asset1"])).is_ok());
    assert!(validate_audio(&plan, &vec![], &strings(&["asset1"])).is_err());
    let repeated = AudioPlan { cues: vec![cue("c1", None), cue("c1", None)], ..plan };
    assert!(validate_audio(&repeated, &strings(&["voice"]), &vec![]).is_err());
}

fn styled_asset(id: &str, deps: &[&str]) -> AssetEntry {
    AssetEntry {
        asset_id: s(id),
        media_type: s("image/png"),
        role: s("frame"),
        relative_path: format!("creative/p1/{id}.png"),
        checksum_sha256: "0".repeat(64),
        bytes: 1,
        source: AssetSource::GeneratedAsset,
        source_surface: AssetSurface::Scene,
        state: AssetState::Accepted,
        job_id: None,
        parent_asset_id: None,
        element_id: None,
        dependency_element_ids: strings(deps),
        artifact_kind: None,
        artifact_version: None,
        created_at_ms: 1,
    }
}

#[test]
fn style_changes_mark_dependents_for_review() {
    let assets = vec![styled_asset("b", &["style1"]), styled_asset("a", &["style2"]), styled_asset("s1", &["style1"])];
    let scenes = vec![
        SceneShots { style_element_id: Some(s("style1")), shot_ids: strings(&["s1", "s0"]) },
        SceneShots { style_element_id: None, shot_ids: strings(&["x"]) },
    ];
    let subjects = style_dependents(&assets, &scenes, "style1");
    let listed: Vec<(&str, SubjectKind)> = subjects.iter().map(|x| (x.subject_id.as_str(), x.kind)).collect();
    assert_eq!(listed, vec![("b", SubjectKind::Asset), ("s0", SubjectKind::Shot), ("s1", SubjectKind::Asset), ("s1", SubjectKind::Shot)]);
    let mut findings = Vec::new();
    let count = mark_style_dependents_for_review(&mut findings, &assets, &scenes, "style1", "rev2", 77).unwrap();
    assert_eq!(count, 4);
    assert_eq!(findings.len(), 4);
    assert!(findings.iter().all(|f| f.severity == QaSeverity::SoftFinding && f.created_at_ms == 77 && f.finding_id.starts_with("qa_")));
    assert_eq!(findings[0].subject_id, "b");
    assert!(findings[0].evidence.contains("rev2"));
}

#[test]
fn binding_registries_refuse_with_the_first_problem() {
    use_binding_registry();
}

fn use_binding_registry() {
    let known = vec![s("image.generate")];
    let ok = rust_tools::bindings::execution_bindings(vec![binding("{}")], &known, &vec![true]).unwrap();
    assert_eq!(ok.len(), 1);
    let mut unknown = binding("{}");
    unknown.capabilities = vec![s("video.generate")];
    assert_eq!(
        rust_tools::bindings::execution_bindings(vec![unknown], &known, &vec![true]).map(|v| v.len()),
        Err(rust_tools::error::McpError::InvalidRequest(s("creative execution binding references an unknown capability")))
    );
    assert_eq!(
        rust_tools::bindings::execution_bindings(vec![binding("{}"), binding("{}")], &known, &vec![true, true]).map(|v| v.len()),
        Err(rust_tools::error::McpError::InvalidRequest(s("duplicate creative execution binding identity")))
    );
}
