use rust_tools::blender_ops::{
    animation_stem, extension, file_name, file_stem, int_to_padded6, int_to_text, last_requested_frame,
    plan_render, preview_frame_paths, preview_frames, require_png_name, sampled_frames, screenshot_name,
    uint_to_text, validate_dimensions, validate_module, validate_query, AnimationPreviewRequest, RenderPlan,
    RenderRequest,
};
use rust_tools::blender_paths::{artifact_relative_path, validate_blender_relative_path, validate_leaf_name, BlenderArtifactScope};
use rust_tools::deployment::{
    admit_deployed_file, backend_kind, check_deploy_revision, content_type, deployed_file_path, deployment_url,
    record_deployment, record_path, site_root, validate_request_path, CopyBudget, LocalDeploymentRecord,
    MAX_DEPLOYMENT_FILES,
};
use rust_tools::game::{record_build, record_iteration, record_scaffold};
use rust_tools::production::GameBuildState;

#[test]
fn decimal_text_of_integers() {
    assert_eq!(uint_to_text(0), "0");
    assert_eq!(uint_to_text(1234567890), "1234567890");
    assert_eq!(int_to_text(-42), "-42");
    assert_eq!(int_to_text(i64::MIN), "-9223372036854775808");
    assert_eq!(int_to_padded6(42), "000042");
    assert_eq!(int_to_padded6(-5), "-00005");
    assert_eq!(int_to_padded6(1234567), "1234567");
}

#[test]
fn frames_are_sampled_by_step_up_to_the_limit() {
    assert_eq!(sampled_frames(1, 10, 3, 100), vec![1, 4, 7, 10]);
    assert_eq!(sampled_frames(1, 10, 3, 2), vec![1, 4]);
    assert_eq!(sampled_frames(5, 4, 1, 10), Vec::<i32>::new());
    assert_eq!(sampled_frames(i32::MAX - 1, i32::MAX, 5, 10), vec![i32::MAX - 1]);
    assert_eq!(last_requested_frame(1, 10, 3, 2), Some(4));
    assert_eq!(last_requested_frame(3, 1, 1, 2), None);
}

#[test]
fn preview_requests_are_bounded() {
    let ok = AnimationPreviewRequest { start_frame: 1, end_frame: 5, step: 2, max_frames: 10, width: 64, height: 64, save_name: None };
    assert_eq!(preview_frames(&ok).unwrap(), vec![1, 3, 5]);
    let small = AnimationPreviewRequest { width: 63, ..ok };
    assert!(preview_frames(&small).is_err());
    let backwards = AnimationPreviewRequest { start_frame: 6, ..ok };
    assert!(preview_frames(&backwards).is_err());
    let no_step = AnimationPreviewRequest { step: 0, ..ok };
    assert!(preview_frames(&no_step).is_err());
    let paths = preview_frame_paths("walk", &vec![1, 3]).unwrap();
    assert_eq!(paths, vec!["blender/renders/preview/walk-1.png".to_string(), "blender/renders/preview/walk-3.png".to_string()]);
    assert!(validate_dimensions(4096, 64).is_ok());
    assert!(validate_dimensions(4097, 64).is_err());
}

#[test]
fn save_names_are_checked() {
    assert_eq!(animation_stem(Some("walk.png")).unwrap(), "walk");
    assert_eq!(animation_stem(Some("walk")).unwrap(), "walk");
    assert!(animation_stem(Some(".png")).is_err());
    assert!(animation_stem(Some("a/b")).is_err());
    let generated = animation_stem(None).unwrap();
    assert!(generated.starts_with("animation-preview-"));
    assert_eq!(generated.len(), 50);
    assert_eq!(screenshot_name(Some("Shot.PNG")).unwrap(), "Shot.PNG");
    assert!(screenshot_name(Some("shot.jpg")).is_err());
    assert!(screenshot_name(None).unwrap().starts_with("screenshot-"));
    assert!(require_png_name("x.Png").is_ok());
    assert!(require_png_name("x.pn").is_err());
}

#[test]
fn file_name_parts() {
    assert_eq!(file_name("a/b/c.tar.gz"), Some("c.tar.gz".to_string()));
    assert_eq!(extension("c.tar.gz"), Some("gz".to_string()));
    assert_eq!(extension("README"), None);
    assert_eq!(extension(".bashrc"), None);
    assert_eq!(file_stem("c.tar.gz"), "c.tar");
    assert_eq!(file_stem(".bashrc"), ".bashrc");
}

#[test]
fn artifact_paths_stay_in_their_scope() {
    assert_eq!(artifact_relative_path(BlenderArtifactScope::RenderFinal, "a.png").unwrap(), "blender/renders/final/a.png");
    assert_eq!(artifact_relative_path(BlenderArtifactScope::Export, "m.glb").unwrap(), "blender/exports/m.glb");
    assert!(artifact_relative_path(BlenderArtifactScope::Scene, "../x.blend").is_err());
    assert!(validate_leaf_name(".hidden").is_err());
    assert!(validate_leaf_name("ok.blend").is_ok());
    assert!(validate_blender_relative_path("blender/scenes/main.blend").is_ok());
    assert!(validate_blender_relative_path("creative/p/x.png").is_err());
}

#[test]
fn render_plans() {
    let still = RenderRequest { mode: "still", output_scope: "preview", file_name: "shot.png", start_frame: None, end_frame: None };
    match plan_render(&still).unwrap() {
        RenderPlan::Still { relative_path } => assert_eq!(relative_path, "blender/renders/preview/shot.png"),
        _ => panic!("expected a still plan"),
    }
    let anim = RenderRequest { mode: "animation", output_scope: "final", file_name: "run.png", start_frame: Some(-1), end_frame: Some(1) };
    match plan_render(&anim).unwrap() {
        RenderPlan::Animation { start_frame, end_frame, relative_paths } => {
            assert_eq!((start_frame, end_frame), (-1, 1));
            assert_eq!(relative_paths, vec![
                "blender/renders/final/run--00001.png".to_string(),
                "blender/renders/final/run-000000.png".to_string(),
                "blender/renders/final/run-000001.png".to_string(),
            ]);
        },
        _ => panic!("expected an animation plan"),
    }
    let too_long = RenderRequest { start_frame: Some(0), end_frame: Some(120), ..anim };
    assert!(plan_render(&too_long).is_err());
    let bad_scope = RenderRequest { output_scope: "tmp", ..still };
    assert!(plan_render(&bad_scope).is_err());
    let bad_mode = RenderRequest { mode: "video", ..still };
    assert!(plan_render(&bad_mode).is_err());
}

#[test]
fn docs_queries_and_modules() {
    assert!(validate_query("mesh modifiers").is_ok());
    assert!(validate_query("").is_err());
    assert!(validate_module("bpy").is_ok());
    assert!(validate_module("bpy.types.Object").is_ok());
    assert!(validate_module("bpy.a.b.c.d").is_ok());
    assert!(validate_module("bpy.a.b.c.d.e").is_err());
    assert!(validate_module("os.path").is_err());
    assert!(validate_module("bpy.1ops").is_err());
    assert!(validate_module("bpy..ops").is_err());
}

#[test]
fn deployment_backend_mappings() {
    let mappings = vec!["deploy-1=local_static_game".to_string(), "raster=local_raster".to_string()];
    assert_eq!(backend_kind(&mappings, "deploy-1").unwrap(), Some("local_static_game".to_string()));
    assert_eq!(backend_kind(&mappings, "other").unwrap(), None);
    let bad = vec!["deploy-1=cloud".to_string()];
    assert!(backend_kind(&bad, "deploy-1").is_err());
    let twice = vec!["a=local_raster".to_string(), "a=local_static_game".to_string()];
    assert!(backend_kind(&twice, "a").is_err());
}

#[test]
fn deployed_files() {
    assert_eq!(content_type("site/index.HTML"), "text/html; charset=utf-8");
    assert_eq!(content_type("game.mjs"), "text/javascript; charset=utf-8");
    assert_eq!(content_type("img/a.jpeg"), "image/jpeg");
    assert_eq!(content_type("data.bin"), "application/octet-stream");
    assert_eq!(content_type("noext"), "application/octet-stream");
    assert!(validate_request_path("assets/a.png").is_ok());
    assert!(validate_request_path("../a.png").is_err());
    assert!(validate_request_path("").is_err());
    assert_eq!(record_path("d1"), ".masihawam/creative/deployments/d1/record.json");
    assert_eq!(site_root("d1"), ".masihawam/creative/deployments/d1/site");
    assert_eq!(deployment_url("d1"), "/creative-deploy/d1/index.html");
    let record = LocalDeploymentRecord {
        schema_version: 1,
        deployment_id: "d1".to_string(),
        owner: "alice".to_string(),
        project_id: "p1".to_string(),
        game_id: "g1".to_string(),
        build_revision: "build_1".to_string(),
        site_root: site_root("d1"),
        created_at_ms: 0,
        published: false,
    };
    assert_eq!(deployed_file_path(&record, "alice", "d1", "index.html").unwrap(), ".masihawam/creative/deployments/d1/site/index.html");
    assert!(deployed_file_path(&record, "bob", "d1", "index.html").is_err());
    assert!(deployed_file_path(&record, "alice", "d1", "../record.json").is_err());
}

#[test]
fn copy_budget_counts_files_and_bytes() {
    let mut budget = CopyBudget { file_count: 0, total_bytes: 0 };
    assert!(admit_deployed_file(&mut budget, 10, "a.js").is_ok());
    assert_eq!((budget.file_count, budget.total_bytes), (1, 10));
    assert!(admit_deployed_file(&mut budget, 10, "../a.js").is_err());
    let mut full = CopyBudget { file_count: MAX_DEPLOYMENT_FILES, total_bytes: 0 };
    assert!(admit_deployed_file(&mut full, 1, "a.js").is_err());
    assert_eq!(full.total_bytes, 0);
}

#[test]
fn game_build_state_moves_through_its_revisions() {
    let mut state = GameBuildState {
        source_revision: None,
        build_revision: None,
        accepted_build_revision: None,
        deployment_id: None,
        deployment_url: None,
        published: false,
    };
    record_scaffold(&mut state, "source_1".to_string());
    assert_eq!(state.source_revision.as_deref(), Some("source_1"));
    record_build(&mut state, "build_1".to_string(), false);
    assert_eq!(state.accepted_build_revision.as_deref(), Some("build_1"));
    assert!(check_deploy_revision(&state, "build_1").is_ok());
    assert!(check_deploy_revision(&state, "build_0").is_err());
    record_deployment(&mut state, "dep1");
    assert_eq!(state.deployment_url.as_deref(), Some("/creative-deploy/dep1/index.html"));
    assert!(!state.published);
    let previous = record_iteration(&mut state, true);
    assert_eq!(previous.as_deref(), Some("build_1"));
    assert!(state.accepted_build_revision.is_none());
    record_build(&mut state, "build_2".to_string(), true);
    assert_eq!(state.build_revision.as_deref(), Some("build_2"));
    assert!(state.accepted_build_revision.is_none());
    assert!(check_deploy_revision(&state, "build_2").is_err());
}
