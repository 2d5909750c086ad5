use vstd::prelude::*;

verus! {

/// The version of the creative state schema that this library reads and writes.
pub const CREATIVE_SCHEMA_VERSION: u32 = 1;

#[derive(Clone, Copy, Debug, PartialEq, Eq, Structural)]
pub enum CreativeTrack {
    Scene,
    Anime,
    Game,
}

#[derive(Clone, Copy, Debug, PartialEq, Eq, Structural)]
pub enum ElementKind {
    Character,
    Location,
    Prop,
    Style,
    AudioVoice,
    Media,
    Asset3d,
    AnimationClip,
}

#[derive(Clone, Copy, Debug, PartialEq, Eq, Structural)]
pub enum RevisionState {
    Candidate,
    Accepted,
    Rejected,
}

#[derive(Clone, Copy, Debug, PartialEq, Eq, Structural)]
pub enum ReferenceAuthority {
    Authoritative,
    Interpreted,
    Generated,
    Imported,
}

#[derive(Clone, Copy, Debug, PartialEq, Eq, Structural)]
pub enum AssetState {
    Candidate,
    Accepted,
    Rejected,
}

/// Where an asset came from.
#[derive(Clone, Copy, Debug, PartialEq, Eq, Structural)]
pub enum AssetSource {
    ConversationUpload,
    McpUpload,
    UrlImport,
    GeneratedAsset,
    ManualImport,
    BlenderMaterialized,
}

/// The surface through which an asset entered the project.
#[derive(Clone, Copy, Debug, PartialEq, Eq, Structural)]
pub enum AssetSurface {
    Mcp,
    Canvas,
    Scene,
    Anime,
    Game,
    Blender,
    ManualImport,
}

#[derive(Clone, Copy, Debug, PartialEq, Eq, Structural)]
pub enum PlayerMode {
    Solo,
    LocalMultiplayer,
    OnlineMultiplayer,
}

#[derive(Clone, Copy, Debug, PartialEq, Eq, Structural)]
pub enum QaSeverity {
    HardFail,
    SoftFinding,
    NotInspected,
}

} // verus!
