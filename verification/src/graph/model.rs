use vstd::prelude::*;
use crate::error::{invalid, McpError, invalid_with};
use crate::text::is_bounded_identifier;
use crate::text::is_bounded_id;

verus! {

broadcast use vstd::string::group_string_axioms;

/// The kinds of node a creative graph may hold.
#[derive(Clone, Copy, Debug, PartialEq, Eq, Structural)]
pub enum GraphNodeKind {
    InputText,
    InputAsset,
    ElementRef,
    SelectRevision,
    ExternalReviewGate,
    GenerateImage,
    GenerateVideo,
    GenerateAudio,
    Generate3d,
    StoryboardStore,
    SceneManifestValidate,
    DccExecute,
    DccRender,
    GameBuild,
    GamePlaytest,
    GameDeploy,
    VisualEvidence,
    TemporalEvidence,
    GameQa,
    AssembleSequence,
    ExportArtifact,
}

/// A directed edge from one node's port to another node's port.
#[derive(Clone, Debug)]
pub struct GraphEdge {
    pub from_node: String,
    pub from_port: String,
    pub to_node: String,
    pub to_port: String,
}

/// A finding about a graph, with a machine-readable code.
#[derive(Clone, Debug)]
pub struct GraphDiagnostic {
    pub code: String,
    pub message: String,
    pub node_id: Option<String>,
}

/// The outcome of validating a graph: whether it is valid, a topological order
/// of its nodes (empty where none was found), and the diagnostics.
#[derive(Clone, Debug)]
pub struct GraphValidation {
    pub valid: bool,
    pub topological_order: Vec<String>,
    pub diagnostics: Vec<GraphDiagnostic>,
}

/// The capability that a node of the given kind is executed through, if any.
pub open spec fn node_capability(kind: GraphNodeKind) -> Option<Seq<char>> {
    match kind {
        GraphNodeKind::GenerateImage => Some("image.generate"@),
        GraphNodeKind::GenerateVideo => Some("video.generate"@),
        GraphNodeKind::GenerateAudio => Some("audio.voice"@),
        GraphNodeKind::Generate3d => Some("3d.image_to_mesh"@),
        GraphNodeKind::StoryboardStore => Some("storyboard.store"@),
        GraphNodeKind::SceneManifestValidate => Some("scene.manifest_validate"@),
        GraphNodeKind::DccExecute => Some("dcc.execute"@),
        GraphNodeKind::DccRender => Some("dcc.render"@),
        GraphNodeKind::GameBuild => Some("game.build"@),
        GraphNodeKind::GamePlaytest => Some("game.playtest"@),
        GraphNodeKind::GameDeploy => Some("game.deploy"@),
        _ => None,
    }
}

/// The capability identifier that executes nodes of `kind`.
pub fn capability_for_node(kind: &GraphNodeKind) -> (r: Option<&'static str>)
    ensures
        match node_capability(*kind) {
            Some(name) => r is Some && r->0@ == name,
            None => r is None,
        },
{
    match kind {
        GraphNodeKind::GenerateImage => Some("image.generate"),
        GraphNodeKind::GenerateVideo => Some("video.generate"),
        GraphNodeKind::GenerateAudio => Some("audio.voice"),
        GraphNodeKind::Generate3d => Some("3d.image_to_mesh"),
        GraphNodeKind::StoryboardStore => Some("storyboard.store"),
        GraphNodeKind::SceneManifestValidate => Some("scene.manifest_validate"),
        GraphNodeKind::DccExecute => Some("dcc.execute"),
        GraphNodeKind::DccRender => Some("dcc.render"),
        GraphNodeKind::GameBuild => Some("game.build"),
        GraphNodeKind::GamePlaytest => Some("game.playtest"),
        GraphNodeKind::GameDeploy => Some("game.deploy"),
        _ => None,
    }
}

/// Node kinds that are run by an external executor rather than in-process.
pub open spec fn is_external_kind(kind: GraphNodeKind) -> bool {
    match kind {
        GraphNodeKind::GenerateImage | GraphNodeKind::GenerateVideo | GraphNodeKind::Generate3d
        | GraphNodeKind::StoryboardStore | GraphNodeKind::SceneManifestValidate
        | GraphNodeKind::DccExecute | GraphNodeKind::DccRender | GraphNodeKind::GameBuild
        | GraphNodeKind::GamePlaytest | GraphNodeKind::GameDeploy
        | GraphNodeKind::AssembleSequence | GraphNodeKind::ExportArtifact => true,
        _ => false,
    }
}

/// Whether nodes of `kind` need the external executor.
pub fn requires_external_execution(kind: &GraphNodeKind) -> (r: bool)
    ensures
        r == is_external_kind(*kind),
{
    match kind {
        GraphNodeKind::GenerateImage | GraphNodeKind::GenerateVideo | GraphNodeKind::Generate3d
        | GraphNodeKind::StoryboardStore | GraphNodeKind::SceneManifestValidate
        | GraphNodeKind::DccExecute | GraphNodeKind::DccRender | GraphNodeKind::GameBuild
        | GraphNodeKind::GamePlaytest | GraphNodeKind::GameDeploy
        | GraphNodeKind::AssembleSequence | GraphNodeKind::ExportArtifact => true,
        _ => false,
    }
}

/// A port name: 1 to 64 ASCII letters, digits, `-` or `_`.
pub open spec fn is_valid_port(s: Seq<char>) -> bool {
    is_bounded_id(s, 64)
}

/// Checks a port name.
pub fn validate_port(value: &str) -> (r: Result<(), McpError>)
    ensures
        r is Ok <==> is_valid_port(value@),
        r matches Err(e) ==> invalid_with(e, "graph port identity exceeds allowed bounds"@),
{
    if is_bounded_identifier(value, 64) {
        Ok(())
    } else {
        Err(invalid("graph port identity exceeds allowed bounds"))
    }
}

/// Builds a diagnostic from its code, message and optional node.
pub fn diagnostic(code: &str, message: &str, node_id: Option<&str>) -> (d: GraphDiagnostic)
    ensures
        d.code@ == code@,
        d.message@ == message@,
        match node_id {
            Some(n) => d.node_id is Some && d.node_id->0@ == n@,
            None => d.node_id is None,
        },
{
    GraphDiagnostic {
        code: code.to_owned(),
        message: message.to_owned(),
        node_id: match node_id {
            Some(n) => Some(n.to_owned()),
            None => None,
        },
    }
}

} // verus!
