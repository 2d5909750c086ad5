use rust_tools::error::McpError;
use rust_tools::workflow_catalog::{validate_workflow_request, workflow, workflows, ASSET_OUTPUT};
use serde_json::Value;

fn parsed(text: &str) -> Value {
    serde_json::from_str(text).expect("catalog schemas are JSON")
}

#[test]
fn catalog_lists_every_workflow_in_order() {
    let ids: Vec<String> = workflows().into_iter().map(|w| w.workflow_id).collect();
    assert_eq!(
        ids,
        vec![
            "character_turnaround", "expression_sheet", "pose_sheet", "storyboard_auto", "storyboard_manual",
            "hero_frame", "image_to_3d_bootstrap", "character_rig_bootstrap", "image_to_video_preview",
            "lipsync_preview", "image_upscale", "video_upscale", "image_remove_background",
            "video_remove_background", "image_outpaint", "video_reframe", "video_motion_control",
            "video_clip_extract", "voice_clone", "voice_change", "video_dub", "shot_render_preview",
            "game_asset_batch", "game_build_playtest",
        ]
    );
    for w in workflows() {
        assert_eq!(w.version, 1);
        assert!(!w.required_capabilities.is_empty());
        assert_eq!(parsed(&w.input_schema)["type"], "object");
        assert_eq!(parsed(&w.input_schema)["additionalProperties"], false);
        assert_eq!(parsed(&w.output_schema)["type"], "object");
    }
}

#[test]
fn catalog_workflow_lookup() {
    let w = workflow("character_turnaround").expect("known workflow");
    assert_eq!(w.description, "Create a reusable multi-view character reference set.");
    assert_eq!(w.required_capabilities, vec!["image.reference_generate".to_string()]);
    assert_eq!(w.output_schema, ASSET_OUTPUT);
    let input = parsed(&w.input_schema);
    assert_eq!(input["required"], parsed(r#"["element_id","reference_asset_ids","views"]"#));
    assert_eq!(input["properties"]["views"]["minItems"], 2);
    assert_eq!(input["properties"]["views"]["maxItems"], 12);
    assert_eq!(input["properties"]["element_id"]["pattern"], "^[A-Za-z0-9_-]+$");

    let playtest = workflow("game_build_playtest").expect("known workflow");
    assert_eq!(playtest.required_capabilities, vec!["game.build".to_string(), "game.playtest".to_string()]);
    assert_eq!(parsed(&playtest.output_schema)["required"], parsed(r#"["build_id","playtest_evidence_id"]"#));

    let storyboard = workflow("storyboard_manual").expect("known workflow");
    assert_eq!(parsed(&storyboard.input_schema)["properties"]["planning_mode"]["const"], "manual");

    assert!(workflow("unknown_workflow").is_none());
    assert!(workflow("").is_none());
}

#[test]
fn workflow_requests_are_checked_against_the_catalog() {
    let ok = validate_workflow_request(
        "character_turnaround",
        r#"{"element_id":"hero","reference_asset_ids":["asset_1"],"views":["front","back"]}"#,
    )
    .expect("valid request");
    assert_eq!(ok.workflow_id, "character_turnaround");

    assert_eq!(
        validate_workflow_request("character_turnaround", r#"{"element_id":"hero","views":["front","back"]}"#)
            .map(|w| w.workflow_id),
        Err(McpError::InvalidRequest("creative workflow parameters do not match the workflow schema".to_string()))
    );
    assert_eq!(
        validate_workflow_request("character_turnaround", r#"{"element_id":"hero","reference_asset_ids":["a"],"views":["front"]}"#)
            .map(|w| w.workflow_id),
        Err(McpError::InvalidRequest("creative workflow parameters do not match the workflow schema".to_string()))
    );
    assert_eq!(
        validate_workflow_request("no_such_workflow", r#"{"a":1}"#).map(|w| w.workflow_id),
        Err(McpError::InvalidRequest("unknown creative workflow".to_string()))
    );
    assert!(matches!(
        validate_workflow_request("character_turnaround", "[1,2]"),
        Err(McpError::InvalidRequest(_))
    ));
}
