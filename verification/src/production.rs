use vstd::prelude::*;
use crate::error::{invalid, McpError, invalid_with};
use crate::text::{
    id_rule, byte_len, has_control, has_disallowed_control, is_valid_id, has_view, distinct_views,
    validate_id, validate_text, validate_freeform_text, contains_str, distinct_strings,
};
use crate::jobs::{first_refusal, is_bounded_spec, lemma_first_refusal_prefix, lemma_first_refusal_step, spec_refusal, validate_spec};
use crate::contracts::PlayerMode;
use crate::paths::{only_normal_components, has_only_normal_components};

verus! {

pub const MAX_GAME_LIST_ITEMS: usize = 128;
pub const MAX_GAME_ASSET_ROLES: usize = 512;
pub const MAX_AUDIO_CUES: usize = 512;
pub const MAX_GAME_ASSET_BYTES: u64 = 4294967296;

/// How the shots of a scene are planned.
#[derive(Clone, Copy, Debug, PartialEq, Eq, Structural)]
pub enum ScenePlanningMode {
    Auto,
    Manual,
}

/// How far a game project is meant to go.
#[derive(Clone, Copy, Debug, PartialEq, Eq, Structural)]
pub enum GameProductionIntent {
    DesignOnly,
    AssetsOnly,
    Build,
    Deploy,
}

/// A director's intent for one shot.
#[derive(Clone, Debug)]
pub struct DirectorShotSpec {
    pub camera_profile: Option<String>,
    pub depth_of_field_intent: Option<String>,
    pub movement_speed: Option<String>,
    pub stabilization: Option<String>,
    pub tempo_edit_intent: Option<String>,
}

/// An asset slot of a game, with the path the runtime loads it from.
#[derive(Clone, Debug)]
pub struct GameAssetRole {
    pub role: String,
    pub runtime_path: String,
    pub asset_id: Option<String>,
}

/// The runtime limits a game declares.
#[derive(Clone, Copy, Debug)]
pub struct GameRuntimeBudget {
    pub target_fps: Option<u32>,
    pub max_asset_bytes: Option<u64>,
    pub max_initial_load_ms: Option<u64>,
}

/// Where a game stands between source, build and deployment.
#[derive(Clone, Debug)]
pub struct GameBuildState {
    pub source_revision: Option<String>,
    pub build_revision: Option<String>,
    pub accepted_build_revision: Option<String>,
    pub deployment_id: Option<String>,
    pub deployment_url: Option<String>,
    pub published: bool,
}

/// A game design. `physics_timing` and `style_formula` are compact JSON text.
#[derive(Clone, Debug)]
pub struct GameManifest {
    pub game_id: String,
    pub title: String,
    pub revision_id: Option<String>,
    pub production_intent: Option<GameProductionIntent>,
    pub genre: String,
    pub perspective: String,
    pub core_loop: String,
    pub win_condition: String,
    pub lose_condition: String,
    pub restart_behavior: String,
    pub progression: Option<String>,
    pub camera: Option<String>,
    pub language: Option<String>,
    pub physics_timing: String,
    pub style_formula: String,
    pub placeholder_policy: Option<String>,
    pub runtime_budget: GameRuntimeBudget,
    pub build_state: GameBuildState,
    pub player_mode: PlayerMode,
    pub target_devices: Vec<String>,
    pub verbs: Vec<String>,
    pub inputs: Vec<String>,
    pub style_element_id: Option<String>,
    pub asset_roles: Vec<GameAssetRole>,
}

/// One cue of an audio plan.
#[derive(Clone, Debug)]
pub struct AudioCue {
    pub cue_id: String,
    pub start_ms: u64,
    pub duration_ms: Option<u64>,
    pub asset_id: Option<String>,
    pub text: Option<String>,
}

/// The voice and cues of a project's audio.
#[derive(Clone, Debug)]
pub struct AudioPlan {
    pub audio_plan_id: String,
    pub voice_element_id: Option<String>,
    pub language: Option<String>,
    pub cues: Vec<AudioCue>,
}

/// Text of `min..=max` bytes without control characters.
pub open spec fn text_ok(s: Seq<char>, min: int, max: int) -> bool {
    min <= byte_len(s) && byte_len(s) <= max && !has_control(s)
}

/// Text of `min..=max` bytes without control characters other than line breaks and tabs.
pub open spec fn freeform_ok(s: Seq<char>, min: int, max: int) -> bool {
    min <= byte_len(s) && byte_len(s) <= max && !has_disallowed_control(s)
}

pub open spec fn opt_freeform_ok(v: Option<String>, min: int, max: int) -> bool {
    match v { Some(s) => freeform_ok(s@, min, max), None => true }
}

pub open spec fn opt_id_ok(v: Option<String>) -> bool {
    match v { Some(s) => is_valid_id(s@), None => true }
}

/// An optional reference that, when present, names one of `ids`.
pub open spec fn opt_known(v: Option<String>, ids: Seq<String>) -> bool {
    match v { Some(s) => has_view(ids, s@), None => true }
}

/// A relative path of 1 to 4096 bytes made only of normal components.
pub open spec fn relative_path_ok(s: Seq<char>) -> bool {
    text_ok(s, 1, 4096) && only_normal_components(s)
}

/// The text fields of a director's shot spec are each 1 to 512 bytes.
pub open spec fn director_ok(d: DirectorShotSpec) -> bool {
    &&& opt_freeform_ok(d.camera_profile, 1, 512)
    &&& opt_freeform_ok(d.depth_of_field_intent, 1, 512)
    &&& opt_freeform_ok(d.movement_speed, 1, 512)
    &&& opt_freeform_ok(d.stabilization, 1, 512)
    &&& opt_freeform_ok(d.tempo_edit_intent, 1, 512)
}

pub open spec fn budget_ok(b: GameRuntimeBudget) -> bool {
    &&& (b.target_fps matches Some(f) ==> 0 < f && f <= 240)
    &&& (b.max_asset_bytes matches Some(n) ==> 0 < n && n <= MAX_GAME_ASSET_BYTES)
    &&& (b.max_initial_load_ms matches Some(n) ==> 0 < n && n <= 300000)
}

pub open spec fn build_state_ok(s: GameBuildState) -> bool {
    &&& opt_id_ok(s.source_revision)
    &&& opt_id_ok(s.build_revision)
    &&& opt_id_ok(s.accepted_build_revision)
    &&& opt_id_ok(s.deployment_id)
    &&& (s.deployment_url matches Some(u) ==> text_ok(u@, 1, 2048))
    &&& !s.published
}

pub open spec fn role_ok(r: GameAssetRole, asset_ids: Seq<String>) -> bool {
    &&& text_ok(r.role@, 1, 128)
    &&& relative_path_ok(r.runtime_path@)
    &&& (r.asset_id matches Some(a) ==> is_valid_id(a@) && has_view(asset_ids, a@))
}

pub open spec fn role_names(roles: Seq<GameAssetRole>) -> Seq<String> {
    roles.map_values(|r: GameAssetRole| r.role)
}

pub open spec fn role_paths(roles: Seq<GameAssetRole>) -> Seq<String> {
    roles.map_values(|r: GameAssetRole| r.runtime_path)
}

pub open spec fn items_ok(v: Seq<String>) -> bool {
    forall|i: int| 0 <= i < v.len() ==> text_ok((#[trigger] v[i])@, 1, 128)
}

/// A game manifest that a project accepts; `element_ids` and `asset_ids` are the
/// project's elements and assets.
pub open spec fn game_ok(g: GameManifest, element_ids: Seq<String>, asset_ids: Seq<String>) -> bool {
    &&& is_valid_id(g.game_id@)
    &&& opt_id_ok(g.revision_id)
    &&& text_ok(g.title@, 1, 4096)
    &&& text_ok(g.genre@, 1, 4096)
    &&& text_ok(g.perspective@, 1, 4096)
    &&& freeform_ok(g.core_loop@, 1, 4096)
    &&& freeform_ok(g.win_condition@, 1, 4096)
    &&& freeform_ok(g.lose_condition@, 1, 4096)
    &&& freeform_ok(g.restart_behavior@, 1, 4096)
    &&& opt_freeform_ok(g.progression, 1, 2048)
    &&& opt_freeform_ok(g.camera, 1, 2048)
    &&& opt_freeform_ok(g.language, 1, 2048)
    &&& opt_freeform_ok(g.placeholder_policy, 1, 2048)
    &&& is_bounded_spec(g.physics_timing@)
    &&& is_bounded_spec(g.style_formula@)
    &&& opt_known(g.style_element_id, element_ids)
    &&& g.target_devices@.len() <= MAX_GAME_LIST_ITEMS
    &&& g.verbs@.len() <= MAX_GAME_LIST_ITEMS
    &&& g.inputs@.len() <= MAX_GAME_LIST_ITEMS
    &&& g.asset_roles@.len() <= MAX_GAME_ASSET_ROLES
    &&& budget_ok(g.runtime_budget)
    &&& items_ok(g.target_devices@)
    &&& items_ok(g.verbs@)
    &&& items_ok(g.inputs@)
    &&& (forall|i: int| 0 <= i < g.asset_roles@.len() ==> role_ok(#[trigger] g.asset_roles@[i], asset_ids))
    &&& distinct_views(role_names(g.asset_roles@))
    &&& distinct_views(role_paths(g.asset_roles@))
    &&& build_state_ok(g.build_state)
}

pub open spec fn cue_ok(c: AudioCue, asset_ids: Seq<String>) -> bool {
    &&& is_valid_id(c.cue_id@)
    &&& opt_known(c.asset_id, asset_ids)
    &&& opt_freeform_ok(c.text, 1, 4096)
}

pub open spec fn cue_ids(cues: Seq<AudioCue>) -> Seq<String> {
    cues.map_values(|c: AudioCue| c.cue_id)
}

/// An audio plan that a project accepts.
pub open spec fn audio_ok(a: AudioPlan, element_ids: Seq<String>, asset_ids: Seq<String>) -> bool {
    &&& is_valid_id(a.audio_plan_id@)
    &&& opt_known(a.voice_element_id, element_ids)
    &&& a.cues@.len() <= MAX_AUDIO_CUES
    &&& (forall|i: int| 0 <= i < a.cues@.len() ==> cue_ok(#[trigger] a.cues@[i], asset_ids))
    &&& distinct_views(cue_ids(a.cues@))
}

pub(crate) fn check_opt_freeform(v: &Option<String>, min: usize, max: usize) -> (r: bool)
    ensures
        r == opt_freeform_ok(*v, min as int, max as int),
{
    match v {
        Some(s) => validate_freeform_text(s.as_str(), min, max, "text").is_ok(),
        None => true,
    }
}

pub(crate) fn check_opt_id(v: &Option<String>) -> (r: bool)
    ensures
        r == opt_id_ok(*v),
{
    match v {
        Some(s) => validate_id(s.as_str(), "identifier").is_ok(),
        None => true,
    }
}

fn check_opt_known(v: &Option<String>, ids: &Vec<String>) -> (r: bool)
    ensures
        r == opt_known(*v, ids@),
{
    match v {
        Some(s) => contains_str(ids, s.as_str()),
        None => true,
    }
}

fn check_items(v: &Vec<String>) -> (r: bool)
    ensures
        r == items_ok(v@),
{
    let mut i: usize = 0;
    while i < v.len()
        invariant
            i <= v.len(),
            forall|k: int| 0 <= k < i ==> text_ok((#[trigger] v@[k])@, 1, 128),
        decreases v.len() - i,
    {
        if validate_text(v[i].as_str(), 1, 128, "list item").is_err() {
            return false;
        }
        i += 1;
    }
    true
}

/// Checks a relative path: 1 to 4096 bytes, no control characters, and only normal
/// components.
pub fn validate_relative_path(value: &str, field: &str) -> (r: Result<(), McpError>)
    ensures
        r is Ok <==> relative_path_ok(value@),
        r matches Err(e) ==> invalid_with(e, if !text_ok(value@, 1, 4096) {
            field@ + " exceeds allowed bounds"@
        } else {
            "path must contain only normal relative components"@
        }),
{
    match validate_text(value, 1, 4096, field) {
        Err(e) => { return Err(e); },
        Ok(()) => {},
    }
    if !has_only_normal_components(value) {
        return Err(invalid("path must contain only normal relative components"));
    }
    Ok(())
}

/// Checks the text fields of a director's shot spec.
pub fn validate_director_shot_spec(director: &DirectorShotSpec) -> (r: Result<(), McpError>)
    ensures
        r is Ok <==> director_ok(*director),
        r matches Err(e) ==> invalid_with(e, "director shot text exceeds allowed bounds"@),
{
    if check_opt_freeform(&director.camera_profile, 1, 512)
        && check_opt_freeform(&director.depth_of_field_intent, 1, 512)
        && check_opt_freeform(&director.movement_speed, 1, 512)
        && check_opt_freeform(&director.stabilization, 1, 512)
        && check_opt_freeform(&director.tempo_edit_intent, 1, 512)
    {
        Ok(())
    } else {
        Err(invalid("director shot text exceeds allowed bounds"))
    }
}

fn check_budget(b: &GameRuntimeBudget) -> (r: bool)
    ensures
        r == budget_ok(*b),
{
    let fps_ok = match b.target_fps { Some(f) => 0 < f && f <= 240, None => true };
    let bytes_ok = match b.max_asset_bytes { Some(n) => 0 < n && n <= MAX_GAME_ASSET_BYTES, None => true };
    let load_ok = match b.max_initial_load_ms { Some(n) => 0 < n && n <= 300000, None => true };
    fps_ok && bytes_ok && load_ok
}

fn check_build_state(s: &GameBuildState) -> (r: bool)
    ensures
        r == build_state_ok(*s),
{
    let url_ok = match &s.deployment_url {
        Some(u) => validate_text(u.as_str(), 1, 2048, "deployment URL").is_ok(),
        None => true,
    };
    check_opt_id(&s.source_revision)
        && check_opt_id(&s.build_revision)
        && check_opt_id(&s.accepted_build_revision)
        && check_opt_id(&s.deployment_id)
        && url_ok
        && !s.published
}

fn check_roles(roles: &Vec<GameAssetRole>, asset_ids: &Vec<String>) -> (r: bool)
    ensures
        r == ((forall|i: int| 0 <= i < roles@.len() ==> role_ok(#[trigger] roles@[i], asset_ids@))
            && distinct_views(role_names(roles@)) && distinct_views(role_paths(roles@))),
{
    let mut names: Vec<String> = Vec::new();
    let mut paths: Vec<String> = Vec::new();
    let mut i: usize = 0;
    while i < roles.len()
        invariant
            i <= roles.len(),
            names@ == role_names(roles@).take(i as int),
            paths@ == role_paths(roles@).take(i as int),
            forall|k: int| 0 <= k < i ==> role_ok(#[trigger] roles@[k], asset_ids@),
        decreases roles.len() - i,
    {
        let role = &roles[i];
        let asset_ok = match &role.asset_id {
            Some(a) => validate_id(a.as_str(), "asset id").is_ok() && contains_str(asset_ids, a.as_str()),
            None => true,
        };
        if validate_text(role.role.as_str(), 1, 128, "role").is_err()
            || validate_relative_path(role.runtime_path.as_str(), "runtime path").is_err()
            || !asset_ok
        {
            return false;
        }
        names.push(role.role.clone());
        paths.push(role.runtime_path.clone());
        proof {
            assert(names@ =~= role_names(roles@).take(i + 1));
            assert(paths@ =~= role_paths(roles@).take(i + 1));
        }
        i += 1;
    }
    proof {
        assert(role_names(roles@).take(roles.len() as int) =~= role_names(roles@));
        assert(role_paths(roles@).take(roles.len() as int) =~= role_paths(roles@));
    }
    distinct_strings(&names) && distinct_strings(&paths)
}

/// Why a game manifest is refused, in the order it is checked.
pub open spec fn game_refusal(g: GameManifest, element_ids: Seq<String>, asset_ids: Seq<String>) -> Seq<char> {
    let bounds = " exceeds allowed bounds"@;
    if !is_valid_id(g.game_id@) {
        "game_id"@ + id_rule()
    } else if !opt_id_ok(g.revision_id) {
        "game revision id is invalid"@
    } else if !text_ok(g.title@, 1, 4096) {
        "game title"@ + bounds
    } else if !text_ok(g.genre@, 1, 4096) {
        "game genre"@ + bounds
    } else if !text_ok(g.perspective@, 1, 4096) {
        "game perspective"@ + bounds
    } else if !freeform_ok(g.core_loop@, 1, 4096) {
        "game core loop"@ + bounds
    } else if !freeform_ok(g.win_condition@, 1, 4096) {
        "game win condition"@ + bounds
    } else if !freeform_ok(g.lose_condition@, 1, 4096) {
        "game lose condition"@ + bounds
    } else if !freeform_ok(g.restart_behavior@, 1, 4096) {
        "game restart behavior"@ + bounds
    } else if !(opt_freeform_ok(g.progression, 1, 2048) && opt_freeform_ok(g.camera, 1, 2048)
        && opt_freeform_ok(g.language, 1, 2048) && opt_freeform_ok(g.placeholder_policy, 1, 2048)) {
        "game text exceeds allowed bounds"@
    } else if !is_bounded_spec(g.physics_timing@) {
        spec_refusal(g.physics_timing@)
    } else if !is_bounded_spec(g.style_formula@) {
        spec_refusal(g.style_formula@)
    } else if !opt_known(g.style_element_id, element_ids) {
        "game style references an unknown element"@
    } else if g.target_devices@.len() > MAX_GAME_LIST_ITEMS || g.verbs@.len() > MAX_GAME_LIST_ITEMS
        || g.inputs@.len() > MAX_GAME_LIST_ITEMS || g.asset_roles@.len() > MAX_GAME_ASSET_ROLES {
        "game manifest collection exceeds allowed bounds"@
    } else if !budget_ok(g.runtime_budget) {
        "game runtime budget is outside allowed bounds"@
    } else if !(items_ok(g.target_devices@) && items_ok(g.verbs@) && items_ok(g.inputs@)) {
        "game manifest list item exceeds allowed bounds"@
    } else if !((forall|i: int| 0 <= i < g.asset_roles@.len() ==> role_ok(#[trigger] g.asset_roles@[i], asset_ids))
        && distinct_views(role_names(g.asset_roles@)) && distinct_views(role_paths(g.asset_roles@))) {
        "game asset roles and runtime paths must be valid and unique"@
    } else {
        "game build state is invalid"@
    }
}

/// Checks a game manifest against its project's elements and assets.
pub fn validate_game(game: &GameManifest, element_ids: &Vec<String>, asset_ids: &Vec<String>) -> (r: Result<(), McpError>)
    ensures
        r is Ok <==> game_ok(*game, element_ids@, asset_ids@),
        r matches Err(e) ==> invalid_with(e, game_refusal(*game, element_ids@, asset_ids@)),
{
    match validate_id(game.game_id.as_str(), "game_id") {
        Err(e) => { return Err(e); },
        Ok(()) => {},
    }
    if !check_opt_id(&game.revision_id) {
        return Err(invalid("game revision id is invalid"));
    }
    match validate_text(game.title.as_str(), 1, 4096, "game title") {
        Err(e) => { return Err(e); },
        Ok(()) => {},
    }
    match validate_text(game.genre.as_str(), 1, 4096, "game genre") {
        Err(e) => { return Err(e); },
        Ok(()) => {},
    }
    match validate_text(game.perspective.as_str(), 1, 4096, "game perspective") {
        Err(e) => { return Err(e); },
        Ok(()) => {},
    }
    match validate_freeform_text(game.core_loop.as_str(), 1, 4096, "game core loop") {
        Err(e) => { return Err(e); },
        Ok(()) => {},
    }
    match validate_freeform_text(game.win_condition.as_str(), 1, 4096, "game win condition") {
        Err(e) => { return Err(e); },
        Ok(()) => {},
    }
    match validate_freeform_text(game.lose_condition.as_str(), 1, 4096, "game lose condition") {
        Err(e) => { return Err(e); },
        Ok(()) => {},
    }
    match validate_freeform_text(game.restart_behavior.as_str(), 1, 4096, "game restart behavior") {
        Err(e) => { return Err(e); },
        Ok(()) => {},
    }
    if !(check_opt_freeform(&game.progression, 1, 2048)
        && check_opt_freeform(&game.camera, 1, 2048)
        && check_opt_freeform(&game.language, 1, 2048)
        && check_opt_freeform(&game.placeholder_policy, 1, 2048))
    {
        return Err(invalid("game text exceeds allowed bounds"));
    }
    match validate_spec(game.physics_timing.as_str()) {
        Err(e) => { return Err(e); },
        Ok(()) => {},
    }
    match validate_spec(game.style_formula.as_str()) {
        Err(e) => { return Err(e); },
        Ok(()) => {},
    }
    if !check_opt_known(&game.style_element_id, element_ids) {
        return Err(invalid("game style references an unknown element"));
    }
    if game.target_devices.len() > MAX_GAME_LIST_ITEMS
        || game.verbs.len() > MAX_GAME_LIST_ITEMS
        || game.inputs.len() > MAX_GAME_LIST_ITEMS
        || game.asset_roles.len() > MAX_GAME_ASSET_ROLES
    {
        return Err(invalid("game manifest collection exceeds allowed bounds"));
    }
    if !check_budget(&game.runtime_budget) {
        return Err(invalid("game runtime budget is outside allowed bounds"));
    }
    if !(check_items(&game.target_devices) && check_items(&game.verbs) && check_items(&game.inputs)) {
        return Err(invalid("game manifest list item exceeds allowed bounds"));
    }
    if !check_roles(&game.asset_roles, asset_ids) {
        return Err(invalid("game asset roles and runtime paths must be valid and unique"));
    }
    if !check_build_state(&game.build_state) {
        return Err(invalid("game build state is invalid"));
    }
    Ok(())
}

/// The first cue of `cues` that is refused, with why.
pub open spec fn cue_refusal(c: AudioCue, asset_ids: Seq<String>) -> Option<Seq<char>> {
    if !is_valid_id(c.cue_id@) {
        Some("audio cue id"@ + id_rule())
    } else if !opt_known(c.asset_id, asset_ids) {
        Some("audio cue references an unknown asset"@)
    } else if !opt_freeform_ok(c.text, 1, 4096) {
        Some("audio cue text exceeds allowed bounds"@)
    } else {
        None
    }
}

pub open spec fn cue_check(asset_ids: Seq<String>) -> spec_fn(Seq<AudioCue>, AudioCue) -> Option<Seq<char>> {
    |before: Seq<AudioCue>, c: AudioCue| cue_refusal(c, asset_ids)
}

/// Why an audio plan is refused, in the order it is checked.
pub open spec fn audio_refusal(a: AudioPlan, element_ids: Seq<String>, asset_ids: Seq<String>) -> Seq<char> {
    if !is_valid_id(a.audio_plan_id@) {
        "audio_plan_id"@ + id_rule()
    } else if !opt_known(a.voice_element_id, element_ids) {
        "audio plan voice references an unknown element"@
    } else if a.cues@.len() > MAX_AUDIO_CUES {
        "audio cue count exceeds maximum"@
    } else if first_refusal(a.cues@, cue_check(asset_ids)) is Some {
        first_refusal(a.cues@, cue_check(asset_ids))->0
    } else {
        "duplicate audio cue identity"@
    }
}

/// Checks an audio plan against its project's elements and assets.
pub fn validate_audio(audio: &AudioPlan, element_ids: &Vec<String>, asset_ids: &Vec<String>) -> (r: Result<(), McpError>)
    ensures
        r is Ok <==> audio_ok(*audio, element_ids@, asset_ids@),
        r matches Err(e) ==> invalid_with(e, audio_refusal(*audio, element_ids@, asset_ids@)),
{
    match validate_id(audio.audio_plan_id.as_str(), "audio_plan_id") {
        Err(e) => { return Err(e); },
        Ok(()) => {},
    }
    if !check_opt_known(&audio.voice_element_id, element_ids) {
        return Err(invalid("audio plan voice references an unknown element"));
    }
    if audio.cues.len() > MAX_AUDIO_CUES {
        return Err(invalid("audio cue count exceeds maximum"));
    }
    let mut ids: Vec<String> = Vec::new();
    let mut i: usize = 0;
    while i < audio.cues.len()
        invariant
            i <= audio.cues.len(),
            ids@ == cue_ids(audio.cues@).take(i as int),
            forall|k: int| 0 <= k < i ==> cue_ok(#[trigger] audio.cues@[k], asset_ids@),
            first_refusal(audio.cues@.take(i as int), cue_check(asset_ids@)) is None,
            is_valid_id(audio.audio_plan_id@),
            opt_known(audio.voice_element_id, element_ids@),
            audio.cues@.len() <= MAX_AUDIO_CUES,
        decreases audio.cues.len() - i,
    {
        proof {
            lemma_first_refusal_step(audio.cues@, i as int, cue_check(asset_ids@));
        }
        let cue = &audio.cues[i];
        match validate_id(cue.cue_id.as_str(), "audio cue id") {
            Err(e) => {
                proof {
                    lemma_first_refusal_prefix(audio.cues@, i + 1, cue_check(asset_ids@));
                }
                return Err(e);
            },
            Ok(()) => {},
        }
        if !check_opt_known(&cue.asset_id, asset_ids) {
            proof {
                lemma_first_refusal_prefix(audio.cues@, i + 1, cue_check(asset_ids@));
            }
            return Err(invalid("audio cue references an unknown asset"));
        }
        if !check_opt_freeform(&cue.text, 1, 4096) {
            proof {
                lemma_first_refusal_prefix(audio.cues@, i + 1, cue_check(asset_ids@));
            }
            return Err(invalid("audio cue text exceeds allowed bounds"));
        }
        ids.push(cue.cue_id.clone());
        proof {
            assert(ids@ =~= cue_ids(audio.cues@).take(i + 1));
        }
        i += 1;
    }
    proof {
        assert(cue_ids(audio.cues@).take(audio.cues.len() as int) =~= cue_ids(audio.cues@));
        assert(audio.cues@.take(i as int) =~= audio.cues@);
    }
    if !distinct_strings(&ids) {
        return Err(invalid("duplicate audio cue identity"));
    }
    Ok(())
}

} // verus!
