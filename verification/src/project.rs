use vstd::prelude::*;
use crate::error::{invalid, invalid_with, McpError};
use crate::contracts::{AssetSource, AssetSurface, CreativeTrack, QaSeverity, ReferenceAuthority, RevisionState, CREATIVE_SCHEMA_VERSION};
use crate::text::{
    id_rule, is_valid_id, validate_id, validate_text, validate_freeform_text, has_view, distinct_views, contains_str,
    distinct_strings, seq_starts_with, starts_with, str_eq, byte_len, has_control, contains_control, char_vec,
};
use crate::jobs::{first_refusal, is_bounded_spec, lemma_first_refusal_prefix, lemma_first_refusal_step, validate_spec};
use crate::elements::{ElementRecord, ElementRevision};
use crate::assets::{AssetEntry, asset_index, find_asset, lineage_acyclic, validate_asset_lineage, opt_view};
use crate::element_revisions::{generated_provenance, MAX_REFERENCES_PER_REVISION, MAX_REVISIONS_PER_ELEMENT, MAX_PROJECT_ELEMENTS};
use crate::production::{
    GameManifest, AudioPlan, game_ok, audio_ok, game_refusal, audio_refusal, validate_game, validate_audio, text_ok, freeform_ok,
    relative_path_ok, validate_relative_path,
};

verus! {

pub const MAX_PROJECT_TITLE_BYTES: usize = 200;
pub const MAX_PROJECT_INTENT_BYTES: usize = 4096;
pub const MAX_PROJECT_ASSETS: usize = 2048;
pub const MAX_PROJECT_SCENES: usize = 128;
pub const MAX_PROJECT_GAMES: usize = 32;
pub const MAX_PROJECT_AUDIO_PLANS: usize = 128;
pub const MAX_QA_FINDINGS: usize = 2048;
pub const MAX_PROJECT_GRAPHS: usize = 1024;
pub const MAX_PROJECT_JOBS: usize = 4096;

/// A quality finding about a project's subject. `evidence` is compact JSON text.
#[derive(Debug)]
pub struct QaFindingEntry {
    pub finding_id: String,
    pub domain: String,
    pub severity: QaSeverity,
    pub subject_id: String,
    pub message: String,
    pub source_revision_id: Option<String>,
    pub asset_id: Option<String>,
    pub evaluator_binding_id: Option<String>,
    pub evidence: String,
    pub created_at_ms: u128,
}

/// The integer limits of a production target; its frame rate is checked by the caller.
#[derive(Debug)]
pub struct TargetLimits {
    pub aspect_ratio: Option<String>,
    pub width: Option<u32>,
    pub height: Option<u32>,
    pub duration_ms: Option<u64>,
}

/// What the project holds, as the store checks it.
#[derive(Debug)]
pub struct ProjectContents {
    pub schema_version: u32,
    pub project_id: String,
    pub title: String,
    pub intent: String,
    pub tracks: Vec<CreativeTrack>,
    pub target: Option<TargetLimits>,
    pub elements: Vec<ElementRecord>,
    pub assets: Vec<AssetEntry>,
    pub scene_ids: Vec<String>,
    pub games: Vec<GameManifest>,
    pub audio_plans: Vec<AudioPlan>,
    pub graph_ids: Vec<String>,
    pub job_ids: Vec<String>,
    pub qa_findings: Vec<QaFindingEntry>,
}

/// What is checked of the project beyond these contents: that the target's frame rate
/// (a decimal number) is finite and from 1 to 240, what `check_location_packs` reports of
/// the Location elements' packs, what `check_asset_metadata` reports of the assets'
/// metadata, and what `check_scenes` reports of the scenes.
#[derive(Clone, Copy, Debug)]
pub struct ProjectFacts {
    pub target_fps_ok: bool,
    pub location_packs_ok: bool,
    pub asset_metadata_ok: bool,
    pub scenes_ok: bool,
}

pub open spec fn element_ids(es: Seq<ElementRecord>) -> Seq<String> {
    es.map_values(|e: ElementRecord| e.element_id)
}

pub open spec fn asset_ids(assets: Seq<AssetEntry>) -> Seq<String> {
    assets.map_values(|a: AssetEntry| a.asset_id)
}

pub open spec fn revision_ids(rs: Seq<ElementRevision>) -> Seq<String> {
    rs.map_values(|r: ElementRevision| r.revision_id)
}

pub open spec fn finding_ids(fs: Seq<QaFindingEntry>) -> Seq<String> {
    fs.map_values(|f: QaFindingEntry| f.finding_id)
}

pub open spec fn game_ids(gs: Seq<GameManifest>) -> Seq<String> {
    gs.map_values(|g: GameManifest| g.game_id)
}

pub open spec fn audio_ids(a: Seq<AudioPlan>) -> Seq<String> {
    a.map_values(|p: AudioPlan| p.audio_plan_id)
}

pub open spec fn all_ids_valid(ids: Seq<String>) -> bool {
    forall|i: int| 0 <= i < ids.len() ==> is_valid_id((#[trigger] ids[i])@)
}

/// A revision of an element of a project holding `assets`.
pub open spec fn revision_ok(r: ElementRevision, assets: Seq<AssetEntry>) -> bool {
    &&& is_valid_id(r.revision_id@)
    &&& is_bounded_spec(r.spec@)
    &&& r.reference_asset_ids@.len() <= MAX_REFERENCES_PER_REVISION
    &&& (forall|i: int| 0 <= i < r.reference_asset_ids@.len() ==> is_valid_id((#[trigger] r.reference_asset_ids@[i])@)
        && asset_index(assets, r.reference_asset_ids@[i]@) is Some)
    &&& (r.authority == ReferenceAuthority::Generated ==> generated_provenance(r.reference_asset_ids@, assets))
}

/// The first revision with identity `id` is accepted.
pub open spec fn selected_ok(rs: Seq<ElementRevision>, id: Seq<char>) -> bool {
    exists|i: int| 0 <= i < rs.len() && (#[trigger] rs[i]).revision_id@ == id
        && rs[i].state == RevisionState::Accepted
        && forall|j: int| 0 <= j < i ==> (#[trigger] rs[j]).revision_id@ != id
}

/// An element of a project holding `assets`.
pub open spec fn element_ok(e: ElementRecord, assets: Seq<AssetEntry>) -> bool {
    &&& is_valid_id(e.element_id@)
    &&& text_ok(e.name@, 1, 200)
    &&& e.revisions@.len() <= MAX_REVISIONS_PER_ELEMENT
    &&& distinct_views(revision_ids(e.revisions@))
    &&& (forall|i: int| 0 <= i < e.revisions@.len() ==> revision_ok(#[trigger] e.revisions@[i], assets))
    &&& (e.selected_revision_id matches Some(s) ==> selected_ok(e.revisions@, s@))
    &&& (forall|i: int, j: int| 0 <= i < e.revisions@.len() && 0 <= j < e.revisions@.len()
        && (#[trigger] e.revisions@[i]).state == RevisionState::Accepted
        && (#[trigger] e.revisions@[j]).state == RevisionState::Accepted ==> i == j)
}

/// A media type that a project's asset may have.
pub open spec fn stored_media_type_ok(v: Seq<char>) -> bool {
    &&& v.len() > 0
    &&& byte_len(v) <= 128
    &&& !has_control(v)
    &&& (seq_starts_with(v, "image/"@) || seq_starts_with(v, "video/"@) || seq_starts_with(v, "audio/"@)
        || seq_starts_with(v, "model/"@) || v == "application/octet-stream"@ || v == "application/x-blender"@)
}

pub open spec fn is_hex_char(c: char) -> bool {
    ('0' <= c && c <= '9') || ('a' <= c && c <= 'f') || ('A' <= c && c <= 'F')
}

/// A SHA-256 digest in hexadecimal, in either letter case.
pub open spec fn checksum_ok(s: Seq<char>) -> bool {
    s.len() == 64 && forall|i: int| 0 <= i < s.len() ==> is_hex_char(#[trigger] s[i])
}

/// An asset of a project holding the elements `elements`, `assets` and the jobs
/// `job_ids`.
pub open spec fn asset_ok(a: AssetEntry, elements: Seq<String>, assets: Seq<AssetEntry>, job_ids: Seq<String>) -> bool {
    &&& is_valid_id(a.asset_id@)
    &&& stored_media_type_ok(a.media_type@)
    &&& text_ok(a.role@, 1, 128)
    &&& relative_path_ok(a.relative_path@)
    &&& checksum_ok(a.checksum_sha256@)
    &&& (a.source == AssetSource::ManualImport ==> a.source_surface == AssetSurface::ManualImport)
    &&& (a.job_id matches Some(j) ==> is_valid_id(j@) && has_view(job_ids, j@))
    &&& (a.parent_asset_id matches Some(p) ==> p@ != a.asset_id@ && asset_index(assets, p@) is Some)
    &&& (a.element_id matches Some(e) ==> has_view(elements, e@))
    &&& (forall|i: int| 0 <= i < a.dependency_element_ids@.len() ==> is_valid_id((#[trigger] a.dependency_element_ids@[i])@)
        && has_view(elements, a.dependency_element_ids@[i]@))
    &&& distinct_views(a.dependency_element_ids@)
}

/// A quality finding that a project accepts.
pub open spec fn finding_ok(f: QaFindingEntry) -> bool {
    is_valid_id(f.finding_id@) && is_valid_id(f.subject_id@) && text_ok(f.domain@, 1, 128) && freeform_ok(f.message@, 1, 4096)
}

/// The integer limits of a production target.
pub open spec fn target_ok(t: TargetLimits) -> bool {
    &&& (t.aspect_ratio matches Some(a) ==> text_ok(a@, 1, 32))
    &&& (t.width matches Some(w) ==> 0 < w && w <= 16384)
    &&& (t.height matches Some(h) ==> 0 < h && h <= 16384)
    &&& (t.duration_ms matches Some(d) ==> 0 < d && d <= 86400000)
}

pub open spec fn tracks_distinct(t: Seq<CreativeTrack>) -> bool {
    forall|i: int, j: int| 0 <= i < t.len() && 0 <= j < t.len() && i != j ==> t[i] != t[j]
}

/// A project that the store saves.
pub open spec fn project_ok(p: ProjectContents, facts: ProjectFacts) -> bool {
    &&& p.schema_version == CREATIVE_SCHEMA_VERSION
    &&& is_valid_id(p.project_id@)
    &&& text_ok(p.title@, 1, MAX_PROJECT_TITLE_BYTES as int)
    &&& freeform_ok(p.intent@, 1, MAX_PROJECT_INTENT_BYTES as int)
    &&& 1 <= p.tracks@.len() <= 3
    &&& tracks_distinct(p.tracks@)
    &&& (p.target matches Some(t) ==> target_ok(t) && facts.target_fps_ok)
    &&& p.elements@.len() <= MAX_PROJECT_ELEMENTS
    &&& p.assets@.len() <= MAX_PROJECT_ASSETS
    &&& p.scene_ids@.len() <= MAX_PROJECT_SCENES
    &&& p.games@.len() <= MAX_PROJECT_GAMES
    &&& p.audio_plans@.len() <= MAX_PROJECT_AUDIO_PLANS
    &&& p.graph_ids@.len() <= MAX_PROJECT_GRAPHS
    &&& p.job_ids@.len() <= MAX_PROJECT_JOBS
    &&& p.qa_findings@.len() <= MAX_QA_FINDINGS
    &&& distinct_views(element_ids(p.elements@))
    &&& distinct_views(asset_ids(p.assets@))
    &&& distinct_views(p.scene_ids@)
    &&& distinct_views(game_ids(p.games@))
    &&& distinct_views(audio_ids(p.audio_plans@))
    &&& distinct_views(p.graph_ids@)
    &&& distinct_views(p.job_ids@)
    &&& distinct_views(finding_ids(p.qa_findings@))
    &&& all_ids_valid(p.graph_ids@)
    &&& all_ids_valid(p.job_ids@)
    &&& (forall|i: int| 0 <= i < p.elements@.len() ==> element_ok(#[trigger] p.elements@[i], p.assets@))
    &&& facts.location_packs_ok
    &&& (forall|i: int| 0 <= i < p.assets@.len() ==> asset_ok(#[trigger] p.assets@[i], element_ids(p.elements@), p.assets@, p.job_ids@))
    &&& facts.asset_metadata_ok
    &&& lineage_acyclic(p.assets@)
    &&& facts.scenes_ok
    &&& (forall|i: int| 0 <= i < p.games@.len() ==> game_ok(#[trigger] p.games@[i], element_ids(p.elements@), asset_ids(p.assets@)))
    &&& (forall|i: int| 0 <= i < p.audio_plans@.len() ==> audio_ok(#[trigger] p.audio_plans@[i], element_ids(p.elements@), asset_ids(p.assets@)))
    &&& (forall|i: int| 0 <= i < p.qa_findings@.len() ==> finding_ok(#[trigger] p.qa_findings@[i]))
}

/// Why a QA finding is refused, in the order it is checked.
pub open spec fn finding_refusal(f: QaFindingEntry) -> Seq<char> {
    if !is_valid_id(f.finding_id@) {
        "QA finding id"@ + id_rule()
    } else if !is_valid_id(f.subject_id@) {
        "QA subject id"@ + id_rule()
    } else if !text_ok(f.domain@, 1, 128) {
        "QA domain"@ + " exceeds allowed bounds"@
    } else {
        "QA message"@ + " exceeds allowed bounds"@
    }
}

pub open spec fn game_check(element_ids: Seq<String>, asset_ids: Seq<String>) -> spec_fn(Seq<GameManifest>, GameManifest) -> Option<Seq<char>> {
    |before: Seq<GameManifest>, g: GameManifest| if game_ok(g, element_ids, asset_ids) { None } else { Some(game_refusal(g, element_ids, asset_ids)) }
}

pub open spec fn audio_check(element_ids: Seq<String>, asset_ids: Seq<String>) -> spec_fn(Seq<AudioPlan>, AudioPlan) -> Option<Seq<char>> {
    |before: Seq<AudioPlan>, a: AudioPlan| if audio_ok(a, element_ids, asset_ids) { None } else { Some(audio_refusal(a, element_ids, asset_ids)) }
}

pub open spec fn finding_check() -> spec_fn(Seq<QaFindingEntry>, QaFindingEntry) -> Option<Seq<char>> {
    |before: Seq<QaFindingEntry>, f: QaFindingEntry| if finding_ok(f) { None } else { Some(finding_refusal(f)) }
}

/// Why a project is refused, in the order `validate_project` checks.
pub open spec fn project_refusal(p: ProjectContents, facts: ProjectFacts) -> Seq<char> {
    let els = element_ids(p.elements@);
    let ass = asset_ids(p.assets@);
    if p.schema_version != CREATIVE_SCHEMA_VERSION {
        "creative project schema version is unsupported"@
    } else if !is_valid_id(p.project_id@) {
        "project_id"@ + id_rule()
    } else if !text_ok(p.title@, 1, MAX_PROJECT_TITLE_BYTES as int) {
        "project title"@ + " exceeds allowed bounds"@
    } else if !freeform_ok(p.intent@, 1, MAX_PROJECT_INTENT_BYTES as int) {
        "project intent"@ + " exceeds allowed bounds"@
    } else if !(1 <= p.tracks@.len() <= 3) {
        "creative project tracks must contain one to three entries"@
    } else if !tracks_distinct(p.tracks@) {
        "creative project tracks must be unique"@
    } else if !(p.target matches Some(t) ==> target_ok(t) && facts.target_fps_ok) {
        "production target is outside allowed bounds"@
    } else if !(p.elements@.len() <= MAX_PROJECT_ELEMENTS && p.assets@.len() <= MAX_PROJECT_ASSETS
        && p.scene_ids@.len() <= MAX_PROJECT_SCENES && p.games@.len() <= MAX_PROJECT_GAMES
        && p.audio_plans@.len() <= MAX_PROJECT_AUDIO_PLANS && p.graph_ids@.len() <= MAX_PROJECT_GRAPHS
        && p.job_ids@.len() <= MAX_PROJECT_JOBS && p.qa_findings@.len() <= MAX_QA_FINDINGS) {
        "creative project collection exceeds allowed bounds"@
    } else if !(distinct_views(els) && distinct_views(ass) && distinct_views(p.scene_ids@)
        && distinct_views(game_ids(p.games@)) && distinct_views(audio_ids(p.audio_plans@)) && distinct_views(p.graph_ids@)
        && distinct_views(p.job_ids@) && distinct_views(finding_ids(p.qa_findings@))) {
        "duplicate creative project identity"@
    } else if !(all_ids_valid(p.graph_ids@) && all_ids_valid(p.job_ids@)) {
        "creative project identifier is invalid"@
    } else if !(forall|i: int| 0 <= i < p.elements@.len() ==> element_ok(#[trigger] p.elements@[i], p.assets@)) {
        "creative element is invalid"@
    } else if !facts.location_packs_ok {
        "location pack is invalid"@
    } else if !(forall|i: int| 0 <= i < p.assets@.len() ==> asset_ok(#[trigger] p.assets@[i], els, p.assets@, p.job_ids@)) {
        "creative asset is invalid"@
    } else if !facts.asset_metadata_ok {
        "creative asset metadata is outside allowed bounds"@
    } else if !lineage_acyclic(p.assets@) {
        "asset parent lineage must be acyclic"@
    } else if !facts.scenes_ok {
        "creative scene is invalid"@
    } else if first_refusal(p.games@, game_check(els, ass)) is Some {
        first_refusal(p.games@, game_check(els, ass))->0
    } else if first_refusal(p.audio_plans@, audio_check(els, ass)) is Some {
        first_refusal(p.audio_plans@, audio_check(els, ass))->0
    } else {
        first_refusal(p.qa_findings@, finding_check())->0
    }
}

// ---------------------------------------------------------------------------
// Checks

fn collect_element_ids(es: &Vec<ElementRecord>) -> (ids: Vec<String>)
    ensures
        ids@ == element_ids(es@),
{
    let mut ids: Vec<String> = Vec::new();
    let mut i: usize = 0;
    while i < es.len()
        invariant
            i <= es.len(),
            ids@ == element_ids(es@).take(i as int),
        decreases es.len() - i,
    {
        ids.push(es[i].element_id.clone());
        proof { assert(ids@ =~= element_ids(es@).take(i + 1)); }
        i += 1;
    }
    proof { assert(element_ids(es@).take(es.len() as int) =~= element_ids(es@)); }
    ids
}

fn collect_asset_ids(assets: &Vec<AssetEntry>) -> (ids: Vec<String>)
    ensures
        ids@ == asset_ids(assets@),
{
    let mut ids: Vec<String> = Vec::new();
    let mut i: usize = 0;
    while i < assets.len()
        invariant
            i <= assets.len(),
            ids@ == asset_ids(assets@).take(i as int),
        decreases assets.len() - i,
    {
        ids.push(assets[i].asset_id.clone());
        proof { assert(ids@ =~= asset_ids(assets@).take(i + 1)); }
        i += 1;
    }
    proof { assert(asset_ids(assets@).take(assets.len() as int) =~= asset_ids(assets@)); }
    ids
}

fn collect_revision_ids(rs: &Vec<ElementRevision>) -> (ids: Vec<String>)
    ensures
        ids@ == revision_ids(rs@),
{
    let mut ids: Vec<String> = Vec::new();
    let mut i: usize = 0;
    while i < rs.len()
        invariant
            i <= rs.len(),
            ids@ == revision_ids(rs@).take(i as int),
        decreases rs.len() - i,
    {
        ids.push(rs[i].revision_id.clone());
        proof { assert(ids@ =~= revision_ids(rs@).take(i + 1)); }
        i += 1;
    }
    proof { assert(revision_ids(rs@).take(rs.len() as int) =~= revision_ids(rs@)); }
    ids
}

fn collect_finding_ids(fs: &Vec<QaFindingEntry>) -> (ids: Vec<String>)
    ensures
        ids@ == finding_ids(fs@),
{
    let mut ids: Vec<String> = Vec::new();
    let mut i: usize = 0;
    while i < fs.len()
        invariant
            i <= fs.len(),
            ids@ == finding_ids(fs@).take(i as int),
        decreases fs.len() - i,
    {
        ids.push(fs[i].finding_id.clone());
        proof { assert(ids@ =~= finding_ids(fs@).take(i + 1)); }
        i += 1;
    }
    proof { assert(finding_ids(fs@).take(fs.len() as int) =~= finding_ids(fs@)); }
    ids
}

fn collect_game_ids(gs: &Vec<GameManifest>) -> (ids: Vec<String>)
    ensures
        ids@ == game_ids(gs@),
{
    let mut ids: Vec<String> = Vec::new();
    let mut i: usize = 0;
    while i < gs.len()
        invariant
            i <= gs.len(),
            ids@ == game_ids(gs@).take(i as int),
        decreases gs.len() - i,
    {
        ids.push(gs[i].game_id.clone());
        proof { assert(ids@ =~= game_ids(gs@).take(i + 1)); }
        i += 1;
    }
    proof { assert(game_ids(gs@).take(gs.len() as int) =~= game_ids(gs@)); }
    ids
}

fn collect_audio_ids(a: &Vec<AudioPlan>) -> (ids: Vec<String>)
    ensures
        ids@ == audio_ids(a@),
{
    let mut ids: Vec<String> = Vec::new();
    let mut i: usize = 0;
    while i < a.len()
        invariant
            i <= a.len(),
            ids@ == audio_ids(a@).take(i as int),
        decreases a.len() - i,
    {
        ids.push(a[i].audio_plan_id.clone());
        proof { assert(ids@ =~= audio_ids(a@).take(i + 1)); }
        i += 1;
    }
    proof { assert(audio_ids(a@).take(a.len() as int) =~= audio_ids(a@)); }
    ids
}

fn check_all_ids(ids: &Vec<String>) -> (r: bool)
    ensures
        r == all_ids_valid(ids@),
{
    let mut i: usize = 0;
    while i < ids.len()
        invariant
            i <= ids.len(),
            forall|k: int| 0 <= k < i ==> is_valid_id((#[trigger] ids@[k])@),
        decreases ids.len() - i,
    {
        if validate_id(ids[i].as_str(), "identifier").is_err() {
            return false;
        }
        i += 1;
    }
    true
}

fn check_revision(r: &ElementRevision, assets: &Vec<AssetEntry>) -> (ok: bool)
    ensures
        ok == revision_ok(*r, assets@),
{
    if validate_id(r.revision_id.as_str(), "revision_id").is_err() || validate_spec(r.spec.as_str()).is_err()
        || r.reference_asset_ids.len() > MAX_REFERENCES_PER_REVISION
    {
        return false;
    }
    let mut generated = false;
    let mut i: usize = 0;
    while i < r.reference_asset_ids.len()
        invariant
            i <= r.reference_asset_ids.len(),
            forall|k: int| 0 <= k < i ==> is_valid_id((#[trigger] r.reference_asset_ids@[k])@)
                && asset_index(assets@, r.reference_asset_ids@[k]@) is Some,
            generated == exists|k: int| 0 <= k < i && (asset_index(assets@, (#[trigger] r.reference_asset_ids@[k])@) matches Some(a)
                && assets@[a].source == AssetSource::GeneratedAsset),
        decreases r.reference_asset_ids.len() - i,
    {
        if validate_id(r.reference_asset_ids[i].as_str(), "reference asset id").is_err() {
            return false;
        }
        match find_asset(assets, r.reference_asset_ids[i].as_str()) {
            None => { return false; },
            Some(a) => {
                if assets[a].source == AssetSource::GeneratedAsset {
                    generated = true;
                }
            },
        }
        i += 1;
    }
    !(r.authority == ReferenceAuthority::Generated && !generated)
}

#[verifier::loop_isolation(false)]
fn check_element(e: &ElementRecord, assets: &Vec<AssetEntry>) -> (ok: bool)
    ensures
        ok == element_ok(*e, assets@),
{
    if validate_id(e.element_id.as_str(), "element_id").is_err() || validate_text(e.name.as_str(), 1, 200, "element name").is_err()
        || e.revisions.len() > MAX_REVISIONS_PER_ELEMENT
    {
        return false;
    }
    let ids = collect_revision_ids(&e.revisions);
    if !distinct_strings(&ids) {
        return false;
    }
    let mut i: usize = 0;
    let mut accepted: Option<usize> = None;
    while i < e.revisions.len()
        invariant
            i <= e.revisions.len(),
            forall|k: int| 0 <= k < i ==> revision_ok(#[trigger] e.revisions@[k], assets@),
            match accepted {
                Some(a) => a < i && e.revisions@[a as int].state == RevisionState::Accepted
                    && forall|k: int| 0 <= k < i && k != a ==> (#[trigger] e.revisions@[k]).state != RevisionState::Accepted,
                None => forall|k: int| 0 <= k < i ==> (#[trigger] e.revisions@[k]).state != RevisionState::Accepted,
            },
        decreases e.revisions.len() - i,
    {
        if !check_revision(&e.revisions[i], assets) {
            return false;
        }
        if e.revisions[i].state == RevisionState::Accepted {
            if accepted.is_some() {
                return false;
            }
            accepted = Some(i);
        }
        i += 1;
    }
    match &e.selected_revision_id {
        None => true,
        Some(s) => {
            let mut k: usize = 0;
            while k < e.revisions.len()
                invariant
                    k <= e.revisions.len(),
                    forall|j: int| 0 <= j < k ==> (#[trigger] e.revisions@[j]).revision_id@ != s@,
                decreases e.revisions.len() - k,
            {
                if str_eq(e.revisions[k].revision_id.as_str(), s.as_str()) {
                    return e.revisions[k].state == RevisionState::Accepted;
                }
                k += 1;
            }
            false
        },
    }
}

fn check_media_type(v: &str) -> (r: bool)
    ensures
        r == stored_media_type_ok(v@),
{
    let allowed = starts_with(v, "image/") || starts_with(v, "video/") || starts_with(v, "audio/") || starts_with(v, "model/")
        || str_eq(v, "application/octet-stream") || str_eq(v, "application/x-blender");
    !v.is_empty() && v.len() <= 128 && !contains_control(v) && allowed
}

fn check_checksum(s: &str) -> (r: bool)
    ensures
        r == checksum_ok(s@),
{
    let v = char_vec(s);
    if v.len() != 64 {
        return false;
    }
    let mut i: usize = 0;
    while i < v.len()
        invariant
            i <= v.len(),
            v@ == s@,
            forall|k: int| 0 <= k < i ==> is_hex_char(#[trigger] v@[k]),
        decreases v.len() - i,
    {
        let c = v[i];
        if !(('0' <= c && c <= '9') || ('a' <= c && c <= 'f') || ('A' <= c && c <= 'F')) {
            return false;
        }
        i += 1;
    }
    true
}

fn check_asset(a: &AssetEntry, element_ids_v: &Vec<String>, assets: &Vec<AssetEntry>, job_ids: &Vec<String>) -> (ok: bool)
    ensures
        ok == asset_ok(*a, element_ids_v@, assets@, job_ids@),
{
    if validate_id(a.asset_id.as_str(), "asset_id").is_err() || !check_media_type(a.media_type.as_str())
        || validate_text(a.role.as_str(), 1, 128, "asset role").is_err()
        || validate_relative_path(a.relative_path.as_str(), "asset relative path").is_err()
        || !check_checksum(a.checksum_sha256.as_str())
    {
        return false;
    }
    if a.source == AssetSource::ManualImport && a.source_surface != AssetSurface::ManualImport {
        return false;
    }
    if let Some(j) = &a.job_id {
        if validate_id(j.as_str(), "asset job id").is_err() || !contains_str(job_ids, j.as_str()) {
            return false;
        }
    }
    if let Some(p) = &a.parent_asset_id {
        if str_eq(p.as_str(), a.asset_id.as_str()) || find_asset(assets, p.as_str()).is_none() {
            return false;
        }
    }
    if let Some(e) = &a.element_id {
        if !contains_str(element_ids_v, e.as_str()) {
            return false;
        }
    }
    let mut i: usize = 0;
    while i < a.dependency_element_ids.len()
        invariant
            i <= a.dependency_element_ids.len(),
            forall|k: int| 0 <= k < i ==> is_valid_id((#[trigger] a.dependency_element_ids@[k])@)
                && has_view(element_ids_v@, a.dependency_element_ids@[k]@),
        decreases a.dependency_element_ids.len() - i,
    {
        if validate_id(a.dependency_element_ids[i].as_str(), "asset dependency element id").is_err()
            || !contains_str(element_ids_v, a.dependency_element_ids[i].as_str())
        {
            return false;
        }
        i += 1;
    }
    distinct_strings(&a.dependency_element_ids)
}

} // verus!

verus! {

fn check_target(t: &TargetLimits) -> (r: bool)
    ensures
        r == target_ok(*t),
{
    let aspect = match &t.aspect_ratio {
        Some(a) => validate_text(a.as_str(), 1, 32, "production aspect ratio").is_ok(),
        None => true,
    };
    let width = match t.width { Some(w) => 0 < w && w <= 16384, None => true };
    let height = match t.height { Some(h) => 0 < h && h <= 16384, None => true };
    let duration = match t.duration_ms { Some(d) => 0 < d && d <= 86400000, None => true };
    aspect && width && height && duration
}

fn check_tracks(t: &Vec<CreativeTrack>) -> (r: bool)
    ensures
        r == tracks_distinct(t@),
{
    let mut i: usize = 0;
    while i < t.len()
        invariant
            i <= t.len(),
            forall|a: int, b: int| 0 <= a < i && 0 <= b < i && a != b ==> t@[a] != t@[b],
        decreases t.len() - i,
    {
        let mut j: usize = 0;
        while j < i
            invariant
                i < t.len(),
                j <= i,
                forall|k: int| 0 <= k < j ==> t@[k] != t@[i as int],
            decreases i - j,
        {
            if t[j] == t[i] {
                return false;
            }
            j += 1;
        }
        i += 1;
    }
    true
}

/// Checks a finding.
pub fn validate_qa_finding(finding: &QaFindingEntry) -> (r: Result<(), McpError>)
    ensures
        r is Ok <==> finding_ok(*finding),
        r matches Err(e) ==> invalid_with(e, finding_refusal(*finding)),
{
    match validate_id(finding.finding_id.as_str(), "QA finding id") {
        Err(e) => { return Err(e); },
        Ok(()) => {},
    }
    match validate_id(finding.subject_id.as_str(), "QA subject id") {
        Err(e) => { return Err(e); },
        Ok(()) => {},
    }
    match validate_text(finding.domain.as_str(), 1, 128, "QA domain") {
        Err(e) => { return Err(e); },
        Ok(()) => {},
    }
    validate_freeform_text(finding.message.as_str(), 1, 4096, "QA message")
}

/// Checks a project's contents, given what the caller checked beyond them.
#[verifier::loop_isolation(false)]
#[verifier::loop_isolation(false)]
pub fn validate_project(p: &ProjectContents, facts: ProjectFacts) -> (r: Result<(), McpError>)
    ensures
        r is Ok <==> project_ok(*p, facts),
        r matches Err(e) ==> invalid_with(e, project_refusal(*p, facts)),
{
    if p.schema_version != CREATIVE_SCHEMA_VERSION {
        return Err(invalid("creative project schema version is unsupported"));
    }
    match validate_id(p.project_id.as_str(), "project_id") {
        Err(e) => { return Err(e); },
        Ok(()) => {},
    }
    match validate_text(p.title.as_str(), 1, MAX_PROJECT_TITLE_BYTES, "project title") {
        Err(e) => { return Err(e); },
        Ok(()) => {},
    }
    match validate_freeform_text(p.intent.as_str(), 1, MAX_PROJECT_INTENT_BYTES, "project intent") {
        Err(e) => { return Err(e); },
        Ok(()) => {},
    }
    if p.tracks.len() == 0 || p.tracks.len() > 3 {
        return Err(invalid("creative project tracks must contain one to three entries"));
    }
    if !check_tracks(&p.tracks) {
        return Err(invalid("creative project tracks must be unique"));
    }
    if let Some(t) = &p.target {
        if !check_target(t) || !facts.target_fps_ok {
            return Err(invalid("production target is outside allowed bounds"));
        }
    }
    if p.elements.len() > MAX_PROJECT_ELEMENTS || p.assets.len() > MAX_PROJECT_ASSETS
        || p.scene_ids.len() > MAX_PROJECT_SCENES || p.games.len() > MAX_PROJECT_GAMES
        || p.audio_plans.len() > MAX_PROJECT_AUDIO_PLANS || p.graph_ids.len() > MAX_PROJECT_GRAPHS
        || p.job_ids.len() > MAX_PROJECT_JOBS || p.qa_findings.len() > MAX_QA_FINDINGS
    {
        return Err(invalid("creative project collection exceeds allowed bounds"));
    }
    let element_id_list = collect_element_ids(&p.elements);
    let asset_id_list = collect_asset_ids(&p.assets);
    let game_id_list = collect_game_ids(&p.games);
    let audio_id_list = collect_audio_ids(&p.audio_plans);
    let finding_id_list = collect_finding_ids(&p.qa_findings);
    if !distinct_strings(&element_id_list) || !distinct_strings(&asset_id_list) || !distinct_strings(&p.scene_ids)
        || !distinct_strings(&game_id_list) || !distinct_strings(&audio_id_list) || !distinct_strings(&p.graph_ids)
        || !distinct_strings(&p.job_ids) || !distinct_strings(&finding_id_list)
    {
        return Err(invalid("duplicate creative project identity"));
    }
    if !check_all_ids(&p.graph_ids) || !check_all_ids(&p.job_ids) {
        return Err(invalid("creative project identifier is invalid"));
    }
    let mut i: usize = 0;
    while i < p.elements.len()
        invariant
            i <= p.elements.len(),
            forall|k: int| 0 <= k < i ==> element_ok(#[trigger] p.elements@[k], p.assets@),
        decreases p.elements.len() - i,
    {
        if !check_element(&p.elements[i], &p.assets) {
            assert(!element_ok(p.elements@[i as int], p.assets@));
            return Err(invalid("creative element is invalid"));
        }
        i += 1;
    }
    if !facts.location_packs_ok {
        return Err(invalid("location pack is invalid"));
    }
    let mut i: usize = 0;
    while i < p.assets.len()
        invariant
            i <= p.assets.len(),
            forall|k: int| 0 <= k < i ==> asset_ok(#[trigger] p.assets@[k], element_ids(p.elements@), p.assets@, p.job_ids@),
        decreases p.assets.len() - i,
    {
        if !check_asset(&p.assets[i], &element_id_list, &p.assets, &p.job_ids) {
            assert(!asset_ok(p.assets@[i as int], element_ids(p.elements@), p.assets@, p.job_ids@));
            return Err(invalid("creative asset is invalid"));
        }
        i += 1;
    }
    if !facts.asset_metadata_ok {
        return Err(invalid("creative asset metadata is outside allowed bounds"));
    }
    match validate_asset_lineage(&p.assets) {
        Err(e) => { return Err(e); },
        Ok(()) => {},
    }
    if !facts.scenes_ok {
        return Err(invalid("creative scene is invalid"));
    }
    let mut i: usize = 0;
    while i < p.games.len()
        invariant
            i <= p.games.len(),
            forall|k: int| 0 <= k < i ==> game_ok(#[trigger] p.games@[k], element_ids(p.elements@), asset_ids(p.assets@)),
            first_refusal(p.games@.take(i as int), game_check(element_ids(p.elements@), asset_ids(p.assets@))) is None,
        decreases p.games.len() - i,
    {
        proof {
            lemma_first_refusal_step(p.games@, i as int, game_check(element_ids(p.elements@), asset_ids(p.assets@)));
        }
        match validate_game(&p.games[i], &element_id_list, &asset_id_list) {
            Err(e) => {
                proof {
                    lemma_first_refusal_prefix(p.games@, i + 1, game_check(element_ids(p.elements@), asset_ids(p.assets@)));
                }
                return Err(e);
            },
            Ok(()) => {},
        }
        i += 1;
    }
    assert(p.games@.take(i as int) =~= p.games@);
    let mut i: usize = 0;
    while i < p.audio_plans.len()
        invariant
            i <= p.audio_plans.len(),
            forall|k: int| 0 <= k < i ==> audio_ok(#[trigger] p.audio_plans@[k], element_ids(p.elements@), asset_ids(p.assets@)),
            first_refusal(p.audio_plans@.take(i as int), audio_check(element_ids(p.elements@), asset_ids(p.assets@))) is None,
        decreases p.audio_plans.len() - i,
    {
        proof {
            lemma_first_refusal_step(p.audio_plans@, i as int, audio_check(element_ids(p.elements@), asset_ids(p.assets@)));
        }
        match validate_audio(&p.audio_plans[i], &element_id_list, &asset_id_list) {
            Err(e) => {
                proof {
                    lemma_first_refusal_prefix(p.audio_plans@, i + 1, audio_check(element_ids(p.elements@), asset_ids(p.assets@)));
                }
                return Err(e);
            },
            Ok(()) => {},
        }
        i += 1;
    }
    assert(p.audio_plans@.take(i as int) =~= p.audio_plans@);
    let mut i: usize = 0;
    while i < p.qa_findings.len()
        invariant
            i <= p.qa_findings.len(),
            forall|k: int| 0 <= k < i ==> finding_ok(#[trigger] p.qa_findings@[k]),
            first_refusal(p.qa_findings@.take(i as int), finding_check()) is None,
        decreases p.qa_findings.len() - i,
    {
        proof {
            lemma_first_refusal_step(p.qa_findings@, i as int, finding_check());
        }
        match validate_qa_finding(&p.qa_findings[i]) {
            Err(e) => {
                proof {
                    lemma_first_refusal_prefix(p.qa_findings@, i + 1, finding_check());
                }
                return Err(e);
            },
            Ok(()) => {},
        }
        i += 1;
    }
    Ok(())
}

} // verus!
