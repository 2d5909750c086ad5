use vstd::prelude::*;
use crate::error::{internal_with, invalid, invalid_with, McpError};
use crate::registry::validate_workflow_parameters;
use crate::jobs::{is_bounded_spec, spec_refusal};
use crate::outside::schema_verdict;
use crate::text::{str_eq, views};

verus! {

// The JSON Schemas of the catalog, as compact JSON text with the keys of each object in
// ascending order.
pub const CHARACTER_TURNAROUND_INPUT: &'static str = "{\"additionalProperties\":false,\"properties\":{\"element_id\":{\"maxLength\":64,\"minLength\":1,\"pattern\":\"^[A-Za-z0-9_-]+$\",\"type\":\"string\"},\"prompt\":{\"maxLength\":4096,\"minLength\":1,\"type\":\"string\"},\"reference_asset_ids\":{\"items\":{\"maxLength\":64,\"minLength\":1,\"pattern\":\"^[A-Za-z0-9_-]+$\",\"type\":\"string\"},\"maxItems\":16,\"minItems\":1,\"type\":\"array\",\"uniqueItems\":true},\"style_element_id\":{\"maxLength\":64,\"minLength\":1,\"pattern\":\"^[A-Za-z0-9_-]+$\",\"type\":\"string\"},\"views\":{\"items\":{\"maxLength\":64,\"minLength\":1,\"type\":\"string\"},\"maxItems\":12,\"minItems\":2,\"type\":\"array\",\"uniqueItems\":true}},\"required\":[\"element_id\",\"reference_asset_ids\",\"views\"],\"type\":\"object\"}";
pub const ASSET_OUTPUT: &'static str = "{\"additionalProperties\":false,\"properties\":{\"asset_ids\":{\"items\":{\"maxLength\":64,\"minLength\":1,\"pattern\":\"^[A-Za-z0-9_-]+$\",\"type\":\"string\"},\"maxItems\":128,\"minItems\":1,\"type\":\"array\",\"uniqueItems\":true}},\"required\":[\"asset_ids\"],\"type\":\"object\"}";
pub const EXPRESSION_SHEET_INPUT: &'static str = "{\"additionalProperties\":false,\"properties\":{\"element_id\":{\"maxLength\":64,\"minLength\":1,\"pattern\":\"^[A-Za-z0-9_-]+$\",\"type\":\"string\"},\"expressions\":{\"items\":{\"maxLength\":96,\"minLength\":1,\"type\":\"string\"},\"maxItems\":32,\"minItems\":1,\"type\":\"array\",\"uniqueItems\":true},\"reference_asset_ids\":{\"items\":{\"maxLength\":64,\"minLength\":1,\"pattern\":\"^[A-Za-z0-9_-]+$\",\"type\":\"string\"},\"maxItems\":16,\"minItems\":1,\"type\":\"array\",\"uniqueItems\":true},\"style_element_id\":{\"maxLength\":64,\"minLength\":1,\"pattern\":\"^[A-Za-z0-9_-]+$\",\"type\":\"string\"}},\"required\":[\"element_id\",\"reference_asset_ids\",\"expressions\"],\"type\":\"object\"}";
pub const POSE_SHEET_INPUT: &'static str = "{\"additionalProperties\":false,\"properties\":{\"element_id\":{\"maxLength\":64,\"minLength\":1,\"pattern\":\"^[A-Za-z0-9_-]+$\",\"type\":\"string\"},\"poses\":{\"items\":{\"maxLength\":256,\"minLength\":1,\"type\":\"string\"},\"maxItems\":32,\"minItems\":1,\"type\":\"array\",\"uniqueItems\":true},\"reference_asset_ids\":{\"items\":{\"maxLength\":64,\"minLength\":1,\"pattern\":\"^[A-Za-z0-9_-]+$\",\"type\":\"string\"},\"maxItems\":16,\"minItems\":1,\"type\":\"array\",\"uniqueItems\":true}},\"required\":[\"element_id\",\"reference_asset_ids\",\"poses\"],\"type\":\"object\"}";
pub const STORYBOARD_AUTO_INPUT: &'static str = "{\"additionalProperties\":false,\"properties\":{\"frames\":{\"items\":{\"additionalProperties\":false,\"properties\":{\"direction\":{\"maxLength\":2048,\"minLength\":1,\"type\":\"string\"},\"element_ids\":{\"items\":{\"maxLength\":64,\"minLength\":1,\"pattern\":\"^[A-Za-z0-9_-]+$\",\"type\":\"string\"},\"maxItems\":32,\"minItems\":0,\"type\":\"array\",\"uniqueItems\":true},\"frame_id\":{\"maxLength\":64,\"minLength\":1,\"pattern\":\"^[A-Za-z0-9_-]+$\",\"type\":\"string\"}},\"required\":[\"frame_id\",\"direction\"],\"type\":\"object\"},\"maxItems\":256,\"minItems\":1,\"type\":\"array\"},\"planning_mode\":{\"const\":\"auto\"},\"scene_id\":{\"maxLength\":64,\"minLength\":1,\"pattern\":\"^[A-Za-z0-9_-]+$\",\"type\":\"string\"}},\"required\":[\"scene_id\",\"planning_mode\",\"frames\"],\"type\":\"object\"}";
pub const STORYBOARD_OUTPUT: &'static str = "{\"additionalProperties\":false,\"properties\":{\"frame_asset_ids\":{\"items\":{\"maxLength\":64,\"minLength\":1,\"pattern\":\"^[A-Za-z0-9_-]+$\",\"type\":\"string\"},\"maxItems\":256,\"minItems\":1,\"type\":\"array\",\"uniqueItems\":true},\"scene_id\":{\"maxLength\":64,\"minLength\":1,\"pattern\":\"^[A-Za-z0-9_-]+$\",\"type\":\"string\"}},\"required\":[\"scene_id\",\"frame_asset_ids\"],\"type\":\"object\"}";
pub const STORYBOARD_MANUAL_INPUT: &'static str = "{\"additionalProperties\":false,\"properties\":{\"frames\":{\"items\":{\"additionalProperties\":false,\"properties\":{\"direction\":{\"maxLength\":2048,\"minLength\":1,\"type\":\"string\"},\"element_ids\":{\"items\":{\"maxLength\":64,\"minLength\":1,\"pattern\":\"^[A-Za-z0-9_-]+$\",\"type\":\"string\"},\"maxItems\":32,\"minItems\":0,\"type\":\"array\",\"uniqueItems\":true},\"frame_id\":{\"maxLength\":64,\"minLength\":1,\"pattern\":\"^[A-Za-z0-9_-]+$\",\"type\":\"string\"}},\"required\":[\"frame_id\",\"direction\"],\"type\":\"object\"},\"maxItems\":256,\"minItems\":1,\"type\":\"array\"},\"planning_mode\":{\"const\":\"manual\"},\"scene_id\":{\"maxLength\":64,\"minLength\":1,\"pattern\":\"^[A-Za-z0-9_-]+$\",\"type\":\"string\"}},\"required\":[\"scene_id\",\"planning_mode\",\"frames\"],\"type\":\"object\"}";
pub const HERO_FRAME_INPUT: &'static str = "{\"additionalProperties\":false,\"properties\":{\"element_ids\":{\"items\":{\"maxLength\":64,\"minLength\":1,\"pattern\":\"^[A-Za-z0-9_-]+$\",\"type\":\"string\"},\"maxItems\":32,\"minItems\":0,\"type\":\"array\",\"uniqueItems\":true},\"prompt\":{\"maxLength\":4096,\"minLength\":1,\"type\":\"string\"},\"reference_asset_ids\":{\"items\":{\"maxLength\":64,\"minLength\":1,\"pattern\":\"^[A-Za-z0-9_-]+$\",\"type\":\"string\"},\"maxItems\":32,\"minItems\":1,\"type\":\"array\",\"uniqueItems\":true},\"scene_id\":{\"maxLength\":64,\"minLength\":1,\"pattern\":\"^[A-Za-z0-9_-]+$\",\"type\":\"string\"},\"shot_id\":{\"maxLength\":64,\"minLength\":1,\"pattern\":\"^[A-Za-z0-9_-]+$\",\"type\":\"string\"}},\"required\":[\"scene_id\",\"shot_id\",\"reference_asset_ids\"],\"type\":\"object\"}";
pub const IMAGE_TO_3D_BOOTSTRAP_INPUT: &'static str = "{\"additionalProperties\":false,\"properties\":{\"element_id\":{\"maxLength\":64,\"minLength\":1,\"pattern\":\"^[A-Za-z0-9_-]+$\",\"type\":\"string\"},\"reference_asset_ids\":{\"items\":{\"maxLength\":64,\"minLength\":1,\"pattern\":\"^[A-Za-z0-9_-]+$\",\"type\":\"string\"},\"maxItems\":16,\"minItems\":1,\"type\":\"array\",\"uniqueItems\":true},\"target_role\":{\"maxLength\":64,\"minLength\":1,\"type\":\"string\"}},\"required\":[\"reference_asset_ids\"],\"type\":\"object\"}";
pub const CHARACTER_RIG_BOOTSTRAP_INPUT: &'static str = "{\"additionalProperties\":false,\"properties\":{\"asset_id\":{\"maxLength\":64,\"minLength\":1,\"pattern\":\"^[A-Za-z0-9_-]+$\",\"type\":\"string\"},\"element_id\":{\"maxLength\":64,\"minLength\":1,\"pattern\":\"^[A-Za-z0-9_-]+$\",\"type\":\"string\"}},\"required\":[\"asset_id\"],\"type\":\"object\"}";
pub const IMAGE_TO_VIDEO_PREVIEW_INPUT: &'static str = "{\"additionalProperties\":false,\"properties\":{\"asset_id\":{\"maxLength\":64,\"minLength\":1,\"pattern\":\"^[A-Za-z0-9_-]+$\",\"type\":\"string\"},\"duration_ms\":{\"maximum\":30000,\"minimum\":250,\"type\":\"integer\"},\"prompt\":{\"maxLength\":4096,\"minLength\":1,\"type\":\"string\"}},\"required\":[\"asset_id\",\"duration_ms\"],\"type\":\"object\"}";
pub const LIPSYNC_PREVIEW_INPUT: &'static str = "{\"additionalProperties\":false,\"properties\":{\"animation_element_id\":{\"maxLength\":64,\"minLength\":1,\"pattern\":\"^[A-Za-z0-9_-]+$\",\"type\":\"string\"},\"audio_asset_id\":{\"maxLength\":64,\"minLength\":1,\"pattern\":\"^[A-Za-z0-9_-]+$\",\"type\":\"string\"},\"language\":{\"maxLength\":32,\"minLength\":1,\"type\":\"string\"}},\"required\":[\"audio_asset_id\",\"animation_element_id\"],\"type\":\"object\"}";
pub const RESIZE_INPUT: &'static str = "{\"additionalProperties\":false,\"properties\":{\"asset_id\":{\"maxLength\":64,\"minLength\":1,\"pattern\":\"^[A-Za-z0-9_-]+$\",\"type\":\"string\"},\"height\":{\"maximum\":16384,\"minimum\":1,\"type\":\"integer\"},\"width\":{\"maximum\":16384,\"minimum\":1,\"type\":\"integer\"}},\"required\":[\"asset_id\",\"width\",\"height\"],\"type\":\"object\"}";
pub const SINGLE_ASSET_INPUT: &'static str = "{\"additionalProperties\":false,\"properties\":{\"asset_id\":{\"maxLength\":64,\"minLength\":1,\"pattern\":\"^[A-Za-z0-9_-]+$\",\"type\":\"string\"}},\"required\":[\"asset_id\"],\"type\":\"object\"}";
pub const VIDEO_REFRAME_INPUT: &'static str = "{\"additionalProperties\":false,\"properties\":{\"aspect_ratio\":{\"maxLength\":16,\"minLength\":3,\"pattern\":\"^[0-9]+:[0-9]+$\",\"type\":\"string\"},\"asset_id\":{\"maxLength\":64,\"minLength\":1,\"pattern\":\"^[A-Za-z0-9_-]+$\",\"type\":\"string\"}},\"required\":[\"asset_id\",\"aspect_ratio\"],\"type\":\"object\"}";
pub const VIDEO_MOTION_CONTROL_INPUT: &'static str = "{\"additionalProperties\":false,\"properties\":{\"duration_ms\":{\"maximum\":30000,\"minimum\":250,\"type\":\"integer\"},\"motion_asset_id\":{\"maxLength\":64,\"minLength\":1,\"pattern\":\"^[A-Za-z0-9_-]+$\",\"type\":\"string\"},\"reference_asset_id\":{\"maxLength\":64,\"minLength\":1,\"pattern\":\"^[A-Za-z0-9_-]+$\",\"type\":\"string\"}},\"required\":[\"reference_asset_id\",\"motion_asset_id\"],\"type\":\"object\"}";
pub const VIDEO_CLIP_EXTRACT_INPUT: &'static str = "{\"additionalProperties\":false,\"properties\":{\"asset_id\":{\"maxLength\":64,\"minLength\":1,\"pattern\":\"^[A-Za-z0-9_-]+$\",\"type\":\"string\"},\"end_ms\":{\"maximum\":86400000,\"minimum\":1,\"type\":\"integer\"},\"start_ms\":{\"maximum\":86400000,\"minimum\":0,\"type\":\"integer\"}},\"required\":[\"asset_id\",\"start_ms\",\"end_ms\"],\"type\":\"object\"}";
pub const VOICE_CLONE_INPUT: &'static str = "{\"additionalProperties\":false,\"properties\":{\"consent_asserted\":{\"const\":true},\"language\":{\"maxLength\":32,\"minLength\":1,\"type\":\"string\"},\"reference_asset_ids\":{\"items\":{\"maxLength\":64,\"minLength\":1,\"pattern\":\"^[A-Za-z0-9_-]+$\",\"type\":\"string\"},\"maxItems\":16,\"minItems\":1,\"type\":\"array\",\"uniqueItems\":true}},\"required\":[\"reference_asset_ids\",\"consent_asserted\"],\"type\":\"object\"}";
pub const VOICE_CHANGE_INPUT: &'static str = "{\"additionalProperties\":false,\"properties\":{\"asset_id\":{\"maxLength\":64,\"minLength\":1,\"pattern\":\"^[A-Za-z0-9_-]+$\",\"type\":\"string\"},\"voice_element_id\":{\"maxLength\":64,\"minLength\":1,\"pattern\":\"^[A-Za-z0-9_-]+$\",\"type\":\"string\"}},\"required\":[\"asset_id\",\"voice_element_id\"],\"type\":\"object\"}";
pub const VIDEO_DUB_INPUT: &'static str = "{\"additionalProperties\":false,\"properties\":{\"language\":{\"maxLength\":32,\"minLength\":1,\"type\":\"string\"},\"video_asset_id\":{\"maxLength\":64,\"minLength\":1,\"pattern\":\"^[A-Za-z0-9_-]+$\",\"type\":\"string\"},\"voice_element_id\":{\"maxLength\":64,\"minLength\":1,\"pattern\":\"^[A-Za-z0-9_-]+$\",\"type\":\"string\"}},\"required\":[\"video_asset_id\",\"voice_element_id\",\"language\"],\"type\":\"object\"}";
pub const SHOT_RENDER_PREVIEW_INPUT: &'static str = "{\"additionalProperties\":false,\"properties\":{\"scene_id\":{\"maxLength\":64,\"minLength\":1,\"pattern\":\"^[A-Za-z0-9_-]+$\",\"type\":\"string\"},\"shot_id\":{\"maxLength\":64,\"minLength\":1,\"pattern\":\"^[A-Za-z0-9_-]+$\",\"type\":\"string\"}},\"required\":[\"scene_id\",\"shot_id\"],\"type\":\"object\"}";
pub const GAME_ASSET_BATCH_INPUT: &'static str = "{\"additionalProperties\":false,\"properties\":{\"game_id\":{\"maxLength\":64,\"minLength\":1,\"pattern\":\"^[A-Za-z0-9_-]+$\",\"type\":\"string\"},\"roles\":{\"items\":{\"maxLength\":128,\"minLength\":1,\"type\":\"string\"},\"maxItems\":128,\"minItems\":1,\"type\":\"array\",\"uniqueItems\":true}},\"required\":[\"game_id\",\"roles\"],\"type\":\"object\"}";
pub const GAME_BUILD_PLAYTEST_INPUT: &'static str = "{\"additionalProperties\":false,\"properties\":{\"build_revision\":{\"maxLength\":64,\"minLength\":1,\"pattern\":\"^[A-Za-z0-9_-]+$\",\"type\":\"string\"},\"game_id\":{\"maxLength\":64,\"minLength\":1,\"pattern\":\"^[A-Za-z0-9_-]+$\",\"type\":\"string\"}},\"required\":[\"game_id\"],\"type\":\"object\"}";
pub const PLAYTEST_OUTPUT: &'static str = "{\"additionalProperties\":false,\"properties\":{\"build_id\":{\"maxLength\":64,\"minLength\":1,\"pattern\":\"^[A-Za-z0-9_-]+$\",\"type\":\"string\"},\"playtest_evidence_id\":{\"maxLength\":64,\"minLength\":1,\"pattern\":\"^[A-Za-z0-9_-]+$\",\"type\":\"string\"}},\"required\":[\"build_id\",\"playtest_evidence_id\"],\"type\":\"object\"}";

/// A workflow that the library offers: a named sequence of capabilities with the JSON
/// Schemas of what it takes and what it gives back.
#[derive(Clone, Debug)]
pub struct WorkflowDescriptor {
    pub workflow_id: String,
    pub version: u32,
    pub description: String,
    pub required_capabilities: Vec<String>,
    pub input_schema: String,
    pub output_schema: String,
}

/// A workflow as text: identifier, version, description, required capabilities, input
/// schema and output schema.
pub type WorkflowView = (Seq<char>, u32, Seq<char>, Seq<Seq<char>>, Seq<char>, Seq<char>);

/// A descriptor as text.
pub open spec fn workflow_view(d: WorkflowDescriptor) -> WorkflowView {
    (d.workflow_id@, d.version, d.description@, views(d.required_capabilities@), d.input_schema@, d.output_schema@)
}

/// The catalog of workflows, in the order it lists them.
pub open spec fn catalog() -> Seq<WorkflowView> {
    seq![
        ("character_turnaround"@, 1u32, "Create a reusable multi-view character reference set."@, seq!["image.reference_generate"@], CHARACTER_TURNAROUND_INPUT@, ASSET_OUTPUT@),
        ("expression_sheet"@, 1u32, "Create controlled expression references for one Character Element."@, seq!["image.reference_generate"@], EXPRESSION_SHEET_INPUT@, ASSET_OUTPUT@),
        ("pose_sheet"@, 1u32, "Create controlled pose references for one Character Element."@, seq!["image.reference_generate"@], POSE_SHEET_INPUT@, ASSET_OUTPUT@),
        ("storyboard_auto"@, 1u32, "Store an upper-layer-generated storyboard with auto planning provenance; MCP does not plan it."@, seq!["storyboard.store"@], STORYBOARD_AUTO_INPUT@, STORYBOARD_OUTPUT@),
        ("storyboard_manual"@, 1u32, "Store and revise a caller-authored connected storyboard."@, seq!["storyboard.store"@], STORYBOARD_MANUAL_INPUT@, STORYBOARD_OUTPUT@),
        ("hero_frame"@, 1u32, "Produce or register a selected hero frame for a shot."@, seq!["image.reference_generate"@], HERO_FRAME_INPUT@, ASSET_OUTPUT@),
        ("image_to_3d_bootstrap"@, 1u32, "Bootstrap a 3D asset from approved image references."@, seq!["3d.image_to_mesh"@], IMAGE_TO_3D_BOOTSTRAP_INPUT@, ASSET_OUTPUT@),
        ("character_rig_bootstrap"@, 1u32, "Bootstrap a riggable or rigged character asset."@, seq!["3d.rig_bootstrap"@], CHARACTER_RIG_BOOTSTRAP_INPUT@, ASSET_OUTPUT@),
        ("image_to_video_preview"@, 1u32, "Create a bounded motion preview from an approved image."@, seq!["video.image_to_video"@], IMAGE_TO_VIDEO_PREVIEW_INPUT@, ASSET_OUTPUT@),
        ("lipsync_preview"@, 1u32, "Create a bounded facial/lipsync preview from contained audio timing and an animation target."@, seq!["audio.voice"@], LIPSYNC_PREVIEW_INPUT@, ASSET_OUTPUT@),
        ("image_upscale"@, 1u32, "Create a lineaged upscaled image child asset."@, seq!["image.upscale"@], RESIZE_INPUT@, ASSET_OUTPUT@),
        ("video_upscale"@, 1u32, "Create a lineaged upscaled video child asset."@, seq!["video.upscale"@], RESIZE_INPUT@, ASSET_OUTPUT@),
        ("image_remove_background"@, 1u32, "Create a lineaged image with background removed."@, seq!["image.remove_background"@], SINGLE_ASSET_INPUT@, ASSET_OUTPUT@),
        ("video_remove_background"@, 1u32, "Create a lineaged video with background removed."@, seq!["video.remove_background"@], SINGLE_ASSET_INPUT@, ASSET_OUTPUT@),
        ("image_outpaint"@, 1u32, "Extend an image canvas while preserving parent lineage."@, seq!["image.outpaint"@], RESIZE_INPUT@, ASSET_OUTPUT@),
        ("video_reframe"@, 1u32, "Create a lineaged reframed video child asset."@, seq!["video.reframe"@], VIDEO_REFRAME_INPUT@, ASSET_OUTPUT@),
        ("video_motion_control"@, 1u32, "Apply a distinct motion-reference video to a character/reference image."@, seq!["video.motion_control"@], VIDEO_MOTION_CONTROL_INPUT@, ASSET_OUTPUT@),
        ("video_clip_extract"@, 1u32, "Extract timestamp-lineaged clips from a contained video asset."@, seq!["video.clip_extract"@], VIDEO_CLIP_EXTRACT_INPUT@, ASSET_OUTPUT@),
        ("voice_clone"@, 1u32, "Create an authorized reusable voice artifact from bounded voice references."@, seq!["audio.voice_clone"@], VOICE_CLONE_INPUT@, ASSET_OUTPUT@),
        ("voice_change"@, 1u32, "Create a lineaged voice-changed audio child asset."@, seq!["audio.voice_change"@], VOICE_CHANGE_INPUT@, ASSET_OUTPUT@),
        ("video_dub"@, 1u32, "Create synchronized dubbed media from a contained source video and voice plan."@, seq!["audio.video_dub"@], VIDEO_DUB_INPUT@, ASSET_OUTPUT@),
        ("shot_render_preview"@, 1u32, "Execute one caller-authored shot through a selected backend."@, seq!["video.reference_generate"@], SHOT_RENDER_PREVIEW_INPUT@, ASSET_OUTPUT@),
        ("game_asset_batch"@, 1u32, "Run caller-declared independent game asset jobs."@, seq!["image.generate"@, "audio.sfx"@], GAME_ASSET_BATCH_INPUT@, ASSET_OUTPUT@),
        ("game_build_playtest"@, 1u32, "Build then verify a browser game through reviewed runtime primitives."@, seq!["game.build"@, "game.playtest"@], GAME_BUILD_PLAYTEST_INPUT@, PLAYTEST_OUTPUT@),
    ]
}

/// The first workflow of `rows` with identifier `id`.
pub open spec fn first_with_id(rows: Seq<WorkflowView>, id: Seq<char>) -> Option<WorkflowView>
    decreases rows.len(),
{
    if rows.len() == 0 {
        None
    } else if rows[0].0 == id {
        Some(rows[0])
    } else {
        first_with_id(rows.drop_first(), id)
    }
}

/// The catalog's workflow `id`, where it has one.
pub open spec fn catalog_workflow(id: Seq<char>) -> Option<WorkflowView> {
    first_with_id(catalog(), id)
}

fn descriptor(id: &str, description: &str, required: Vec<String>, input: &str, output: &str) -> (d: WorkflowDescriptor)
    ensures
        workflow_view(d) == (id@, 1u32, description@, views(required@), input@, output@),
{
    WorkflowDescriptor {
        workflow_id: id.to_owned(),
        version: 1,
        description: description.to_owned(),
        required_capabilities: required,
        input_schema: input.to_owned(),
        output_schema: output.to_owned(),
    }
}

fn one_capability(c: &str) -> (v: Vec<String>)
    ensures
        views(v@) == seq![c@],
{
    let mut v: Vec<String> = Vec::new();
    v.push(c.to_owned());
    assert(views(v@) =~= seq![c@]);
    v
}

fn two_capabilities(c1: &str, c2: &str) -> (v: Vec<String>)
    ensures
        views(v@) == seq![c1@, c2@],
{
    let mut v: Vec<String> = Vec::new();
    v.push(c1.to_owned());
    v.push(c2.to_owned());
    assert(views(v@) =~= seq![c1@, c2@]);
    v
}

fn push_descriptor(v: &mut Vec<WorkflowDescriptor>, d: WorkflowDescriptor)
    ensures
        final(v)@.map_values(|x: WorkflowDescriptor| workflow_view(x))
            == old(v)@.map_values(|x: WorkflowDescriptor| workflow_view(x)).push(workflow_view(d)),
{
    let ghost before = v@;
    v.push(d);
    assert(v@.map_values(|x: WorkflowDescriptor| workflow_view(x))
        =~= before.map_values(|x: WorkflowDescriptor| workflow_view(x)).push(workflow_view(d)));
}

/// The catalog of workflows.
pub fn workflows() -> (r: Vec<WorkflowDescriptor>)
    ensures
        r@.map_values(|x: WorkflowDescriptor| workflow_view(x)) == catalog(),
{
    let mut r: Vec<WorkflowDescriptor> = Vec::new();
    assert(r@.map_values(|x: WorkflowDescriptor| workflow_view(x)) =~= Seq::<WorkflowView>::empty());
    push_descriptor(&mut r, descriptor("character_turnaround", "Create a reusable multi-view character reference set.", one_capability("image.reference_generate"), CHARACTER_TURNAROUND_INPUT, ASSET_OUTPUT));
    push_descriptor(&mut r, descriptor("expression_sheet", "Create controlled expression references for one Character Element.", one_capability("image.reference_generate"), EXPRESSION_SHEET_INPUT, ASSET_OUTPUT));
    push_descriptor(&mut r, descriptor("pose_sheet", "Create controlled pose references for one Character Element.", one_capability("image.reference_generate"), POSE_SHEET_INPUT, ASSET_OUTPUT));
    push_descriptor(&mut r, descriptor("storyboard_auto", "Store an upper-layer-generated storyboard with auto planning provenance; MCP does not plan it.", one_capability("storyboard.store"), STORYBOARD_AUTO_INPUT, STORYBOARD_OUTPUT));
    push_descriptor(&mut r, descriptor("storyboard_manual", "Store and revise a caller-authored connected storyboard.", one_capability("storyboard.store"), STORYBOARD_MANUAL_INPUT, STORYBOARD_OUTPUT));
    push_descriptor(&mut r, descriptor("hero_frame", "Produce or register a selected hero frame for a shot.", one_capability("image.reference_generate"), HERO_FRAME_INPUT, ASSET_OUTPUT));
    push_descriptor(&mut r, descriptor("image_to_3d_bootstrap", "Bootstrap a 3D asset from approved image references.", one_capability("3d.image_to_mesh"), IMAGE_TO_3D_BOOTSTRAP_INPUT, ASSET_OUTPUT));
    push_descriptor(&mut r, descriptor("character_rig_bootstrap", "Bootstrap a riggable or rigged character asset.", one_capability("3d.rig_bootstrap"), CHARACTER_RIG_BOOTSTRAP_INPUT, ASSET_OUTPUT));
    push_descriptor(&mut r, descriptor("image_to_video_preview", "Create a bounded motion preview from an approved image.", one_capability("video.image_to_video"), IMAGE_TO_VIDEO_PREVIEW_INPUT, ASSET_OUTPUT));
    push_descriptor(&mut r, descriptor("lipsync_preview", "Create a bounded facial/lipsync preview from contained audio timing and an animation target.", one_capability("audio.voice"), LIPSYNC_PREVIEW_INPUT, ASSET_OUTPUT));
    push_descriptor(&mut r, descriptor("image_upscale", "Create a lineaged upscaled image child asset.", one_capability("image.upscale"), RESIZE_INPUT, ASSET_OUTPUT));
    push_descriptor(&mut r, descriptor("video_upscale", "Create a lineaged upscaled video child asset.", one_capability("video.upscale"), RESIZE_INPUT, ASSET_OUTPUT));
    push_descriptor(&mut r, descriptor("image_remove_background", "Create a lineaged image with background removed.", one_capability("image.remove_background"), SINGLE_ASSET_INPUT, ASSET_OUTPUT));
    push_descriptor(&mut r, descriptor("video_remove_background", "Create a lineaged video with background removed.", one_capability("video.remove_background"), SINGLE_ASSET_INPUT, ASSET_OUTPUT));
    push_descriptor(&mut r, descriptor("image_outpaint", "Extend an image canvas while preserving parent lineage.", one_capability("image.outpaint"), RESIZE_INPUT, ASSET_OUTPUT));
    push_descriptor(&mut r, descriptor("video_reframe", "Create a lineaged reframed video child asset.", one_capability("video.reframe"), VIDEO_REFRAME_INPUT, ASSET_OUTPUT));
    push_descriptor(&mut r, descriptor("video_motion_control", "Apply a distinct motion-reference video to a character/reference image.", one_capability("video.motion_control"), VIDEO_MOTION_CONTROL_INPUT, ASSET_OUTPUT));
    push_descriptor(&mut r, descriptor("video_clip_extract", "Extract timestamp-lineaged clips from a contained video asset.", one_capability("video.clip_extract"), VIDEO_CLIP_EXTRACT_INPUT, ASSET_OUTPUT));
    push_descriptor(&mut r, descriptor("voice_clone", "Create an authorized reusable voice artifact from bounded voice references.", one_capability("audio.voice_clone"), VOICE_CLONE_INPUT, ASSET_OUTPUT));
    push_descriptor(&mut r, descriptor("voice_change", "Create a lineaged voice-changed audio child asset.", one_capability("audio.voice_change"), VOICE_CHANGE_INPUT, ASSET_OUTPUT));
    push_descriptor(&mut r, descriptor("video_dub", "Create synchronized dubbed media from a contained source video and voice plan.", one_capability("audio.video_dub"), VIDEO_DUB_INPUT, ASSET_OUTPUT));
    push_descriptor(&mut r, descriptor("shot_render_preview", "Execute one caller-authored shot through a selected backend.", one_capability("video.reference_generate"), SHOT_RENDER_PREVIEW_INPUT, ASSET_OUTPUT));
    push_descriptor(&mut r, descriptor("game_asset_batch", "Run caller-declared independent game asset jobs.", two_capabilities("image.generate", "audio.sfx"), GAME_ASSET_BATCH_INPUT, ASSET_OUTPUT));
    push_descriptor(&mut r, descriptor("game_build_playtest", "Build then verify a browser game through reviewed runtime primitives.", two_capabilities("game.build", "game.playtest"), GAME_BUILD_PLAYTEST_INPUT, PLAYTEST_OUTPUT));
    r
}

/// The catalog's workflow `id`, where it has one.
pub fn workflow(id: &str) -> (r: Option<WorkflowDescriptor>)
    ensures
        match r {
            None => catalog_workflow(id@) is None,
            Some(d) => catalog_workflow(id@) == Some(workflow_view(d)),
        },
{
    let mut all = workflows();
    let mut i: usize = 0;
    assert(catalog().subrange(0, catalog().len() as int) =~= catalog());
    while i < all.len()
        invariant
            all@.map_values(|x: WorkflowDescriptor| workflow_view(x)) == catalog(),
            i <= all.len(),
            catalog_workflow(id@) == first_with_id(catalog().subrange(i as int, catalog().len() as int), id@),
        decreases all.len() - i,
    {
        let ghost rest = catalog().subrange(i as int, catalog().len() as int);
        assert(rest[0] == workflow_view(all@[i as int]));
        if str_eq(all[i].workflow_id.as_str(), id) {
            let d = all.remove(i);
            return Some(d);
        }
        assert(rest.drop_first() =~= catalog().subrange(i + 1, catalog().len() as int));
        i = i + 1;
    }
    None
}

/// Checks a workflow request against the catalog: the parameters (compact JSON text)
/// must be a bounded specification, the workflow must be in the catalog, and the
/// parameters must match its input schema. Gives back the workflow.
pub fn validate_workflow_request(id: &str, parameters: &str) -> (r: Result<WorkflowDescriptor, McpError>)
    ensures
        r is Ok <==> (is_bounded_spec(parameters@) && (catalog_workflow(id@) matches Some(w)
            && schema_verdict(w.4, parameters@) == Some(true))),
        r matches Ok(d) ==> catalog_workflow(id@) == Some(workflow_view(d)),
        !is_bounded_spec(parameters@) ==> (r matches Err(e) && invalid_with(e, spec_refusal(parameters@))),
        is_bounded_spec(parameters@) ==> match catalog_workflow(id@) {
            None => r matches Err(e) && invalid_with(e, "unknown creative workflow"@),
            Some(w) => match schema_verdict(w.4, parameters@) {
                None => r matches Err(e) && internal_with(e, "creative workflow schema is invalid"@),
                Some(false) => r matches Err(e)
                    && invalid_with(e, "creative workflow parameters do not match the workflow schema"@),
                Some(true) => r is Ok,
            },
        },
{
    let found = workflow(id);
    match found {
        None => {
            match validate_workflow_parameters(parameters, None) {
                Err(e) => Err(e),
                Ok(()) => Err(invalid("unknown creative workflow")),
            }
        },
        Some(d) => {
            match validate_workflow_parameters(parameters, Some(d.input_schema.as_str())) {
                Err(e) => Err(e),
                Ok(()) => Ok(d),
            }
        },
    }
}

} // verus!
