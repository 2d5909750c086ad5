use vstd::prelude::*;
use crate::error::{invalid_with, McpError};
use crate::text::{id_rule, is_valid_id, validate_id};

verus! {

/// Where a creative project keeps its files: its state (graphs, templates, QA) under the
/// creative state directory, its production files (assets, scene boards, games, exports)
/// under `creative/`.
#[derive(Clone, Debug)]
pub struct CreativeProjectLayout {
    pub state_root: String,
    pub production_root: String,
    pub assets_root: String,
    pub scene_boards_root: String,
    pub graphs_root: String,
    pub templates_root: String,
    pub games_root: String,
    pub qa_root: String,
    pub exports_root: String,
}

pub open spec fn state_root_of(project_id: Seq<char>) -> Seq<char> {
    ".masihawam/creative/projects/"@ + project_id
}

pub open spec fn production_root_of(project_id: Seq<char>) -> Seq<char> {
    "creative/"@ + project_id
}

/// The layout of project `project_id`, each root as text.
pub open spec fn layout_of(l: CreativeProjectLayout, project_id: Seq<char>) -> bool {
    let state = state_root_of(project_id);
    let production = production_root_of(project_id);
    &&& l.state_root@ == state
    &&& l.production_root@ == production
    &&& l.assets_root@ == production + "/assets"@
    &&& l.scene_boards_root@ == production + "/scene-boards"@
    &&& l.graphs_root@ == state + "/graphs"@
    &&& l.templates_root@ == state + "/templates"@
    &&& l.games_root@ == production + "/games"@
    &&& l.qa_root@ == state + "/qa"@
    &&& l.exports_root@ == production + "/exports"@
}

fn joined(base: &str, tail: &str) -> (r: String)
    ensures
        r@ == base@ + tail@,
{
    let mut r = String::from_str(base);
    r.append(tail);
    r
}

/// The layout of a project whose identity is valid.
pub fn project_layout(project_id: &str) -> (r: Result<CreativeProjectLayout, McpError>)
    ensures
        r is Ok <==> is_valid_id(project_id@),
        r matches Err(e) ==> invalid_with(e, "project_id"@ + id_rule()),
        r matches Ok(l) ==> layout_of(l, project_id@),
{
    match validate_id(project_id, "project_id") {
        Err(e) => { return Err(e); },
        Ok(()) => {},
    }
    let state_root = joined(".masihawam/creative/projects/", project_id);
    let production_root = joined("creative/", project_id);
    Ok(CreativeProjectLayout {
        assets_root: joined(production_root.as_str(), "/assets"),
        scene_boards_root: joined(production_root.as_str(), "/scene-boards"),
        graphs_root: joined(state_root.as_str(), "/graphs"),
        templates_root: joined(state_root.as_str(), "/templates"),
        games_root: joined(production_root.as_str(), "/games"),
        qa_root: joined(state_root.as_str(), "/qa"),
        exports_root: joined(production_root.as_str(), "/exports"),
        state_root,
        production_root,
    })
}

} // verus!
