use vstd::prelude::*;
use crate::assets::{asset_index, find_asset, AssetEntry};
use crate::contracts::ElementKind;
use crate::elements::{element_index, find_element, find_revision, revision_index, ElementRecord};
use crate::error::{invalid, invalid_with, McpError};
use crate::jobs::{first_refusal, is_bounded_spec, lemma_first_refusal_prefix, lemma_first_refusal_step, spec_refusal, validate_spec};
use crate::production::{
    check_opt_freeform, check_opt_id, director_ok, freeform_ok, opt_freeform_ok, opt_id_ok, text_ok,
    validate_director_shot_spec, DirectorShotSpec,
};
use crate::text::{id_rule, contains_str, distinct_views, has_view, is_valid_id, str_eq, validate_freeform_text, validate_id, validate_text};

verus! {

pub const MAX_SCENE_SHOTS: usize = 256;
pub const MAX_LOCATION_LANDMARKS: usize = 64;
pub const MAX_LOCATION_VARIANTS: usize = 32;
pub const MAX_LOCATION_CAMERA_LANDMARKS: usize = 64;
pub const MAX_LOCATION_3D_BINDINGS: usize = 32;
pub const MAX_SHOT_REFERENCES: usize = 32;

/// One variant of a location: its identity and its conditions.
#[derive(Clone, Debug)]
pub struct LocationVariant {
    pub variant_id: String,
    pub time_of_day: Option<String>,
    pub weather: Option<String>,
    pub lighting: Option<String>,
}

/// The `world_location_v1` specification of a Location element's revision.
#[derive(Clone, Debug)]
pub struct LocationPackSpec {
    pub spec_type: String,
    pub concept: String,
    pub scale: String,
    pub architecture_language: String,
    pub set_dressing_language: String,
    pub continuity_notes: String,
    pub canonical_landmarks: Vec<String>,
    pub variants: Vec<LocationVariant>,
    pub camera_landmarks: Vec<String>,
    pub style_element_id: Option<String>,
    pub asset3d_element_ids: Vec<String>,
}

pub open spec fn opt_text_ok(v: Option<String>, min: int, max: int) -> bool {
    match v { Some(s) => text_ok(s@, min, max), None => true }
}

/// Texts of 1 to `max` bytes, none repeated.
/// A text of a list, given those before it: 1 to `max` bytes, not repeating an earlier one.
pub open spec fn unique_text_check(max: int) -> spec_fn(Seq<String>, String) -> Option<Seq<char>> {
    |before: Seq<String>, t: String| if !text_ok(t@, 1, max) {
        Some("text"@ + " exceeds allowed bounds"@)
    } else if has_view(before, t@) {
        Some("text values must be unique"@)
    } else {
        None
    }
}

pub open spec fn unique_texts_ok(v: Seq<String>, max: int) -> bool {
    &&& forall|i: int| 0 <= i < v.len() ==> text_ok((#[trigger] v[i])@, 1, max)
    &&& distinct_views(v)
}

/// The element that identity `id` finds has kind `kind`.
pub open spec fn element_of_kind(elements: Seq<ElementRecord>, id: Seq<char>, kind: ElementKind) -> bool {
    element_index(elements, id) matches Some(k) && elements[k].kind == kind
}

pub open spec fn variant_ids(vs: Seq<LocationVariant>) -> Seq<String> {
    vs.map_values(|v: LocationVariant| v.variant_id)
}

pub open spec fn variant_ok(v: LocationVariant) -> bool {
    &&& is_valid_id(v.variant_id@)
    &&& opt_text_ok(v.time_of_day, 1, 256)
    &&& opt_text_ok(v.weather, 1, 256)
    &&& opt_text_ok(v.lighting, 1, 256)
}

/// A location pack that a project accepts: bounded texts and collections, unique
/// landmarks and variants, and style and 3D bindings to elements of the right kinds.
pub open spec fn location_pack_ok(p: LocationPackSpec, elements: Seq<ElementRecord>) -> bool {
    &&& p.spec_type@ == "world_location_v1"@
    &&& freeform_ok(p.concept@, 1, 4096)
    &&& text_ok(p.scale@, 1, 256)
    &&& freeform_ok(p.architecture_language@, 1, 4096)
    &&& freeform_ok(p.set_dressing_language@, 1, 4096)
    &&& freeform_ok(p.continuity_notes@, 0, 4096)
    &&& p.canonical_landmarks.len() <= MAX_LOCATION_LANDMARKS
    &&& p.variants.len() <= MAX_LOCATION_VARIANTS
    &&& p.camera_landmarks.len() <= MAX_LOCATION_CAMERA_LANDMARKS
    &&& p.asset3d_element_ids.len() <= MAX_LOCATION_3D_BINDINGS
    &&& unique_texts_ok(p.canonical_landmarks@, 256)
    &&& unique_texts_ok(p.camera_landmarks@, 256)
    &&& (forall|i: int| 0 <= i < p.variants.len() ==> variant_ok(#[trigger] p.variants@[i]))
    &&& distinct_views(variant_ids(p.variants@))
    &&& (p.style_element_id matches Some(s) ==> is_valid_id(s@) && element_of_kind(elements, s@, ElementKind::Style))
    &&& (forall|i: int| 0 <= i < p.asset3d_element_ids.len() ==> {
        &&& is_valid_id((#[trigger] p.asset3d_element_ids@[i])@)
        &&& element_of_kind(elements, p.asset3d_element_ids@[i]@, ElementKind::Asset3d)
    })
    &&& distinct_views(p.asset3d_element_ids@)
}

/// Why a location pack spec is refused, in the order it is checked.
pub open spec fn location_pack_refusal(spec: Option<LocationPackSpec>, elements: Seq<ElementRecord>) -> Seq<char> {
    let bounds = " exceeds allowed bounds"@;
    match spec {
        None => "location element requires a valid world_location_v1 spec"@,
        Some(p) => if p.spec_type@ != "world_location_v1"@ {
            "location element spec_type must be world_location_v1"@
        } else if !freeform_ok(p.concept@, 1, 4096) {
            "location concept"@ + bounds
        } else if !text_ok(p.scale@, 1, 256) {
            "location scale"@ + bounds
        } else if !freeform_ok(p.architecture_language@, 1, 4096) {
            "location architecture language"@ + bounds
        } else if !freeform_ok(p.set_dressing_language@, 1, 4096) {
            "location set dressing language"@ + bounds
        } else if !freeform_ok(p.continuity_notes@, 0, 4096) {
            "location continuity notes"@ + bounds
        } else if !(p.canonical_landmarks.len() <= MAX_LOCATION_LANDMARKS && p.variants.len() <= MAX_LOCATION_VARIANTS
            && p.camera_landmarks.len() <= MAX_LOCATION_CAMERA_LANDMARKS && p.asset3d_element_ids.len() <= MAX_LOCATION_3D_BINDINGS) {
            "location pack collection exceeds allowed bounds"@
        } else if first_refusal(p.canonical_landmarks@, unique_text_check(256)) is Some {
            first_refusal(p.canonical_landmarks@, unique_text_check(256))->0
        } else if first_refusal(p.camera_landmarks@, unique_text_check(256)) is Some {
            first_refusal(p.camera_landmarks@, unique_text_check(256))->0
        } else if !((forall|i: int| 0 <= i < p.variants.len() ==> variant_ok(#[trigger] p.variants@[i]))
            && distinct_views(variant_ids(p.variants@))) {
            "location variant is invalid or repeated"@
        } else if p.style_element_id matches Some(s) && !is_valid_id(s@) {
            "location style element id"@ + id_rule()
        } else if p.style_element_id matches Some(s) && !element_of_kind(elements, s@, ElementKind::Style) {
            "location style dependency must reference a Style Element"@
        } else {
            "location 3D binding must reference distinct Asset3d Elements"@
        },
    }
}

/// Checks a list of texts: each 1 to `max` bytes, none repeated.
pub fn validate_unique_texts(values: &Vec<String>, max: usize) -> (r: Result<(), McpError>)
    ensures
        r is Ok <==> unique_texts_ok(values@, max as int),
        r is Ok <==> first_refusal(values@, unique_text_check(max as int)) is None,
        r matches Err(e) ==> (first_refusal(values@, unique_text_check(max as int)) matches Some(m) && invalid_with(e, m)),
{
    let mut i: usize = 0;
    while i < values.len()
        invariant
            i <= values.len(),
            forall|k: int| 0 <= k < i ==> text_ok((#[trigger] values@[k])@, 1, max as int),
            forall|a: int, b: int| 0 <= a < i && 0 <= b < i && a != b ==> (#[trigger] values@[a])@ != (#[trigger] values@[b])@,
            first_refusal(values@.take(i as int), unique_text_check(max as int)) is None,
        decreases values.len() - i,
    {
        proof {
            lemma_first_refusal_step(values@, i as int, unique_text_check(max as int));
        }
        match validate_text(values[i].as_str(), 1, max, "text") {
            Err(e) => {
                proof {
                    lemma_first_refusal_prefix(values@, i + 1, unique_text_check(max as int));
                }
                return Err(e);
            },
            Ok(()) => {},
        }
        let mut j: usize = 0;
        while j < i
            invariant
                i < values.len(),
                j <= i,
                forall|k: int| 0 <= k < j ==> (#[trigger] values@[k])@ != values@[i as int]@,
                first_refusal(values@.take(i as int), unique_text_check(max as int)) is None,
                text_ok(values@[i as int]@, 1, max as int),
            decreases i - j,
        {
            if str_eq(values[j].as_str(), values[i].as_str()) {
                proof {
                    lemma_first_refusal_step(values@, i as int, unique_text_check(max as int));
                    assert(values@.take(i as int)[j as int] == values@[j as int]);
                    assert(has_view(values@.take(i as int), values@[i as int]@));
                    lemma_first_refusal_prefix(values@, i + 1, unique_text_check(max as int));
                }
                return Err(invalid("text values must be unique"));
            }
            j += 1;
        }
        proof {
            assert forall|k: int| 0 <= k < values@.take(i as int).len() implies (#[trigger] values@.take(i as int)[k])@ != values@[i as int]@ by {
                assert(values@.take(i as int)[k] == values@[k]);
            }
        }
        i += 1;
    }
    proof {
        assert(values@.take(i as int) =~= values@);
    }
    Ok(())
}

fn check_opt_text(v: &Option<String>, min: usize, max: usize) -> (r: bool)
    ensures
        r == opt_text_ok(*v, min as int, max as int),
{
    match v {
        Some(s) => validate_text(s.as_str(), min, max, "text").is_ok(),
        None => true,
    }
}

/// Whether the element that `id` finds has kind `kind`.
fn is_element_of_kind(elements: &Vec<ElementRecord>, id: &str, kind: ElementKind) -> (r: bool)
    ensures
        r == element_of_kind(elements@, id@, kind),
{
    match find_element(elements, id) {
        Some(k) => elements[k].kind == kind,
        None => false,
    }
}

fn check_variants(vs: &Vec<LocationVariant>) -> (r: bool)
    ensures
        r == ((forall|i: int| 0 <= i < vs.len() ==> variant_ok(#[trigger] vs@[i])) && distinct_views(variant_ids(vs@))),
{
    let mut ids: Vec<String> = Vec::new();
    let mut i: usize = 0;
    while i < vs.len()
        invariant
            i <= vs.len(),
            ids@ == variant_ids(vs@.take(i as int)),
            forall|k: int| 0 <= k < i ==> variant_ok(#[trigger] vs@[k]),
            distinct_views(ids@),
        decreases vs.len() - i,
    {
        let v = &vs[i];
        if !(validate_id(v.variant_id.as_str(), "variant").is_ok() && check_opt_text(&v.time_of_day, 1, 256)
            && check_opt_text(&v.weather, 1, 256) && check_opt_text(&v.lighting, 1, 256)) {
            return false;
        }
        if contains_str(&ids, v.variant_id.as_str()) {
            proof {
                let k = choose|k: int| 0 <= k < ids@.len() && (#[trigger] ids@[k])@ == v.variant_id@;
                assert(variant_ids(vs@)[k] == ids@[k]);
                assert(variant_ids(vs@)[i as int] == vs@[i as int].variant_id);
            }
            return false;
        }
        ids.push(v.variant_id.clone());
        proof {
            assert(variant_ids(vs@.take(i + 1)) =~= variant_ids(vs@.take(i as int)).push(vs@[i as int].variant_id));
        }
        i += 1;
    }
    proof {
        assert(vs@.take(i as int) =~= vs@);
    }
    true
}

fn check_asset3d(ids: &Vec<String>, elements: &Vec<ElementRecord>) -> (r: bool)
    ensures
        r == ((forall|i: int| 0 <= i < ids.len() ==> {
            &&& is_valid_id((#[trigger] ids@[i])@)
            &&& element_of_kind(elements@, ids@[i]@, ElementKind::Asset3d)
        }) && distinct_views(ids@)),
{
    let mut i: usize = 0;
    while i < ids.len()
        invariant
            i <= ids.len(),
            forall|k: int| 0 <= k < i ==> {
                &&& is_valid_id((#[trigger] ids@[k])@)
                &&& element_of_kind(elements@, ids@[k]@, ElementKind::Asset3d)
            },
            forall|a: int, b: int| 0 <= a < i && 0 <= b < i && a != b ==> (#[trigger] ids@[a])@ != (#[trigger] ids@[b])@,
        decreases ids.len() - i,
    {
        if validate_id(ids[i].as_str(), "location 3D element id").is_err() {
            return false;
        }
        let mut j: usize = 0;
        while j < i
            invariant
                i < ids.len(),
                j <= i,
                forall|k: int| 0 <= k < j ==> (#[trigger] ids@[k])@ != ids@[i as int]@,
            decreases i - j,
        {
            if str_eq(ids[j].as_str(), ids[i].as_str()) {
                return false;
            }
            j += 1;
        }
        if !is_element_of_kind(elements, ids[i].as_str(), ElementKind::Asset3d) {
            return false;
        }
        i += 1;
    }
    true
}

/// Checks the location pack of a Location element's revision; `None` stands for a
/// specification that is not a `world_location_v1` object.
pub fn validate_location_pack_spec(spec: &Option<LocationPackSpec>, elements: &Vec<ElementRecord>) -> (r: Result<(), McpError>)
    ensures
        r is Ok <==> (*spec matches Some(p) && location_pack_ok(p, elements@)),
        r matches Err(e) ==> invalid_with(e, location_pack_refusal(*spec, elements@)),
{
    let p = match spec {
        Some(p) => p,
        None => { return Err(invalid("location element requires a valid world_location_v1 spec")); },
    };
    if !str_eq(p.spec_type.as_str(), "world_location_v1") {
        return Err(invalid("location element spec_type must be world_location_v1"));
    }
    match validate_freeform_text(p.concept.as_str(), 1, 4096, "location concept") {
        Err(e) => { return Err(e); },
        Ok(()) => {},
    }
    match validate_text(p.scale.as_str(), 1, 256, "location scale") {
        Err(e) => { return Err(e); },
        Ok(()) => {},
    }
    match validate_freeform_text(p.architecture_language.as_str(), 1, 4096, "location architecture language") {
        Err(e) => { return Err(e); },
        Ok(()) => {},
    }
    match validate_freeform_text(p.set_dressing_language.as_str(), 1, 4096, "location set dressing language") {
        Err(e) => { return Err(e); },
        Ok(()) => {},
    }
    match validate_freeform_text(p.continuity_notes.as_str(), 0, 4096, "location continuity notes") {
        Err(e) => { return Err(e); },
        Ok(()) => {},
    }
    if p.canonical_landmarks.len() > MAX_LOCATION_LANDMARKS || p.variants.len() > MAX_LOCATION_VARIANTS
        || p.camera_landmarks.len() > MAX_LOCATION_CAMERA_LANDMARKS
        || p.asset3d_element_ids.len() > MAX_LOCATION_3D_BINDINGS
    {
        return Err(invalid("location pack collection exceeds allowed bounds"));
    }
    match validate_unique_texts(&p.canonical_landmarks, 256) {
        Err(e) => { return Err(e); },
        Ok(()) => {},
    }
    match validate_unique_texts(&p.camera_landmarks, 256) {
        Err(e) => { return Err(e); },
        Ok(()) => {},
    }
    if !check_variants(&p.variants) {
        return Err(invalid("location variant is invalid or repeated"));
    }
    if let Some(s) = &p.style_element_id {
        match validate_id(s.as_str(), "location style element id") {
            Err(e) => { return Err(e); },
            Ok(()) => {},
        }
        if !is_element_of_kind(elements, s.as_str(), ElementKind::Style) {
            return Err(invalid("location style dependency must reference a Style Element"));
        }
    }
    if !check_asset3d(&p.asset3d_element_ids, elements) {
        return Err(invalid("location 3D binding must reference distinct Asset3d Elements"));
    }
    Ok(())
}

/// A scene's location: a Location element with a selected revision that exists.
pub open spec fn selected_location_ok(elements: Seq<ElementRecord>, id: Seq<char>) -> bool {
    &&& is_valid_id(id)
    &&& element_index(elements, id) matches Some(k)
    &&& elements[k].kind == ElementKind::Location
    &&& elements[k].selected_revision_id matches Some(s)
    &&& revision_index(elements[k].revisions@, s@) is Some
}

/// Why the selected Location revision of `id` cannot be had, in the order checked.
pub open spec fn selected_location_refusal(elements: Seq<ElementRecord>, id: Seq<char>) -> Seq<char> {
    if !is_valid_id(id) {
        "location element id"@ + id_rule()
    } else if element_index(elements, id) is None {
        "scene location references an unknown element"@
    } else if elements[element_index(elements, id)->0].kind != ElementKind::Location {
        "scene location must reference a Location Element"@
    } else if elements[element_index(elements, id)->0].selected_revision_id is None {
        "scene location requires a selected Location revision"@
    } else {
        "selected Location revision is missing"@
    }
}

/// The specification (compact JSON text) of the selected revision of the Location
/// element `element_id`.
pub fn selected_location_spec(elements: &Vec<ElementRecord>, element_id: &str) -> (r: Result<String, McpError>)
    ensures
        r is Ok <==> selected_location_ok(elements@, element_id@),
        r matches Err(e) ==> invalid_with(e, selected_location_refusal(elements@, element_id@)),
        r matches Ok(spec) ==> {
            let k = element_index(elements@, element_id@)->0;
            let s = elements@[k].selected_revision_id->0;
            spec == elements@[k].revisions@[revision_index(elements@[k].revisions@, s@)->0].spec
        },
{
    match validate_id(element_id, "location element id") {
        Err(e) => { return Err(e); },
        Ok(()) => {},
    }
    let k = match find_element(elements, element_id) {
        Some(k) => k,
        None => { return Err(invalid("scene location references an unknown element")); },
    };
    if elements[k].kind != ElementKind::Location {
        return Err(invalid("scene location must reference a Location Element"));
    }
    let selected = match &elements[k].selected_revision_id {
        Some(s) => s,
        None => { return Err(invalid("scene location requires a selected Location revision")); },
    };
    match find_revision(&elements[k].revisions, selected.as_str()) {
        Some(q) => Ok(elements[k].revisions[q].spec.clone()),
        None => Err(invalid("selected Location revision is missing")),
    }
}

} // verus!

verus! {

/// The look that holds for a whole scene. `spatial_constraints` is compact JSON text.
#[derive(Clone, Debug)]
pub struct SceneGlobalDirection {
    pub genre_look: Option<String>,
    pub lighting: Option<String>,
    pub color_palette: Vec<String>,
    pub atmosphere: Option<String>,
    pub era_time: Option<String>,
    pub spatial_constraints: String,
    pub hero_frame_first: bool,
}

/// A shot's camera. Its optics (focal length and aperture) are decimal numbers; what
/// the scene rules ask of them, that each is finite and within range, comes as
/// `optics_within_bounds`.
#[derive(Clone, Debug)]
pub struct CameraSpec {
    pub shot_size: Option<String>,
    pub movement: Option<String>,
    pub framing: Option<String>,
    pub optics_within_bounds: bool,
}

/// One shot of a scene. `state_in`, `state_out` and `continuity` are compact JSON text.
#[derive(Clone, Debug)]
pub struct ShotManifest {
    pub shot_id: String,
    pub order: u32,
    pub duration_ms: u64,
    pub element_ids: Vec<String>,
    pub location_variant_id: Option<String>,
    pub revision_id: Option<String>,
    pub camera: CameraSpec,
    pub director: DirectorShotSpec,
    pub reference_asset_ids: Vec<String>,
    pub hero_frame_asset_id: Option<String>,
    pub carry_forward_anchor_asset_id: Option<String>,
    pub engine: Option<String>,
    pub execution_binding_id: Option<String>,
    pub action: String,
    pub state_in: String,
    pub state_out: String,
    pub continuity: String,
}

/// A scene: its direction, cast, location and shots.
#[derive(Clone, Debug)]
pub struct SceneManifest {
    pub scene_id: String,
    pub title: String,
    pub revision_id: Option<String>,
    pub global_direction: SceneGlobalDirection,
    pub cast_element_ids: Vec<String>,
    pub location_element_id: Option<String>,
    pub style_element_id: Option<String>,
    pub target_duration_ms: Option<u64>,
    pub selected_hero_frame_asset_id: Option<String>,
    pub shots: Vec<ShotManifest>,
}

pub open spec fn direction_ok(d: SceneGlobalDirection) -> bool {
    &&& opt_freeform_ok(d.genre_look, 1, 2048)
    &&& opt_freeform_ok(d.lighting, 1, 2048)
    &&& opt_freeform_ok(d.atmosphere, 1, 2048)
    &&& opt_freeform_ok(d.era_time, 1, 2048)
    &&& d.color_palette.len() <= 32
    &&& (forall|i: int| 0 <= i < d.color_palette.len() ==> text_ok((#[trigger] d.color_palette@[i])@, 1, 128))
    &&& is_bounded_spec(d.spatial_constraints@)
}

pub open spec fn camera_ok(c: CameraSpec) -> bool {
    &&& opt_freeform_ok(c.shot_size, 1, 512)
    &&& opt_freeform_ok(c.movement, 1, 512)
    &&& opt_freeform_ok(c.framing, 1, 512)
    &&& c.optics_within_bounds
}

pub open spec fn engine_ok(e: Seq<char>) -> bool {
    e == "generated_video"@ || e == "blender"@ || e == "mixed"@
}

/// An asset reference of a shot: a valid identity of an asset of the project.
pub open spec fn known_asset(assets: Seq<AssetEntry>, id: Seq<char>) -> bool {
    is_valid_id(id) && asset_index(assets, id) is Some
}

pub open spec fn opt_known_asset(assets: Seq<AssetEntry>, v: Option<String>) -> bool {
    match v { Some(a) => known_asset(assets, a@), None => true }
}

pub open spec fn pack_has_variant(pack: Option<LocationPackSpec>, id: Seq<char>) -> bool {
    pack matches Some(p) && has_view(variant_ids(p.variants@), id)
}

/// A shot that its scene accepts, given the location pack the scene selected.
pub open spec fn shot_ok(sh: ShotManifest, elements: Seq<ElementRecord>, assets: Seq<AssetEntry>, pack: Option<LocationPackSpec>) -> bool {
    &&& is_valid_id(sh.shot_id@)
    &&& opt_id_ok(sh.revision_id)
    &&& 0 < sh.duration_ms <= 3600000
    &&& freeform_ok(sh.action@, 0, 4096)
    &&& is_bounded_spec(sh.state_in@)
    &&& is_bounded_spec(sh.state_out@)
    &&& is_bounded_spec(sh.continuity@)
    &&& camera_ok(sh.camera)
    &&& director_ok(sh.director)
    &&& (sh.engine matches Some(e) ==> engine_ok(e@))
    &&& opt_id_ok(sh.execution_binding_id)
    &&& sh.reference_asset_ids.len() <= MAX_SHOT_REFERENCES
    &&& (forall|i: int| 0 <= i < sh.reference_asset_ids.len() ==> known_asset(assets, (#[trigger] sh.reference_asset_ids@[i])@))
    &&& opt_known_asset(assets, sh.hero_frame_asset_id)
    &&& opt_known_asset(assets, sh.carry_forward_anchor_asset_id)
    &&& (sh.location_variant_id matches Some(v) ==> is_valid_id(v@) && pack_has_variant(pack, v@))
    &&& (forall|i: int| 0 <= i < sh.element_ids.len() ==> element_index(elements, (#[trigger] sh.element_ids@[i])@) is Some)
}

/// Why a shot is refused, in the order it is checked.
pub open spec fn shot_refusal(sh: ShotManifest, elements: Seq<ElementRecord>, assets: Seq<AssetEntry>, pack: Option<LocationPackSpec>) -> Seq<char> {
    if !is_valid_id(sh.shot_id@) {
        "shot_id"@ + id_rule()
    } else if !(opt_id_ok(sh.revision_id) && 0 < sh.duration_ms <= 3600000) {
        "scene shot identity or duration is invalid"@
    } else if !freeform_ok(sh.action@, 0, 4096) {
        "shot action"@ + " exceeds allowed bounds"@
    } else if !is_bounded_spec(sh.state_in@) {
        spec_refusal(sh.state_in@)
    } else if !is_bounded_spec(sh.state_out@) {
        spec_refusal(sh.state_out@)
    } else if !is_bounded_spec(sh.continuity@) {
        spec_refusal(sh.continuity@)
    } else if !camera_ok(sh.camera) {
        "shot camera is outside allowed bounds"@
    } else if !director_ok(sh.director) {
        "director shot text exceeds allowed bounds"@
    } else if !(sh.engine matches Some(e) ==> engine_ok(e@)) {
        "shot engine is unsupported"@
    } else if !opt_id_ok(sh.execution_binding_id) {
        "shot execution binding id is invalid"@
    } else if sh.reference_asset_ids.len() > MAX_SHOT_REFERENCES {
        "shot reference asset count exceeds maximum"@
    } else if !((forall|i: int| 0 <= i < sh.reference_asset_ids.len() ==> known_asset(assets, (#[trigger] sh.reference_asset_ids@[i])@))
        && opt_known_asset(assets, sh.hero_frame_asset_id) && opt_known_asset(assets, sh.carry_forward_anchor_asset_id)) {
        "shot references an unknown asset"@
    } else if sh.location_variant_id matches Some(v) && !is_valid_id(v@) {
        "shot location variant id"@ + id_rule()
    } else if sh.location_variant_id matches Some(v) && !pack_has_variant(pack, v@) {
        "shot location variant is not declared by the selected Location Pack"@
    } else {
        "shot references an unknown element"@
    }
}

fn check_opt_known_asset(assets: &Vec<AssetEntry>, v: &Option<String>) -> (r: bool)
    ensures
        r == opt_known_asset(assets@, *v),
{
    match v {
        Some(a) => validate_id(a.as_str(), "asset id").is_ok() && find_asset(assets, a.as_str()).is_some(),
        None => true,
    }
}

fn all_elements_known(elements: &Vec<ElementRecord>, ids: &Vec<String>) -> (r: bool)
    ensures
        r == forall|i: int| 0 <= i < ids.len() ==> element_index(elements@, (#[trigger] ids@[i])@) is Some,
{
    let mut i: usize = 0;
    while i < ids.len()
        invariant
            i <= ids.len(),
            forall|k: int| 0 <= k < i ==> element_index(elements@, (#[trigger] ids@[k])@) is Some,
        decreases ids.len() - i,
    {
        if find_element(elements, ids[i].as_str()).is_none() {
            return false;
        }
        i += 1;
    }
    true
}

fn all_assets_known(assets: &Vec<AssetEntry>, ids: &Vec<String>) -> (r: bool)
    ensures
        r == forall|i: int| 0 <= i < ids.len() ==> known_asset(assets@, (#[trigger] ids@[i])@),
{
    let mut i: usize = 0;
    while i < ids.len()
        invariant
            i <= ids.len(),
            forall|k: int| 0 <= k < i ==> known_asset(assets@, (#[trigger] ids@[k])@),
        decreases ids.len() - i,
    {
        if validate_id(ids[i].as_str(), "shot asset id").is_err() || find_asset(assets, ids[i].as_str()).is_none() {
            return false;
        }
        i += 1;
    }
    true
}

fn check_direction(d: &SceneGlobalDirection) -> (r: bool)
    ensures
        r == direction_ok(*d),
{
    if !(check_opt_freeform(&d.genre_look, 1, 2048) && check_opt_freeform(&d.lighting, 1, 2048)
        && check_opt_freeform(&d.atmosphere, 1, 2048) && check_opt_freeform(&d.era_time, 1, 2048)) {
        return false;
    }
    if d.color_palette.len() > 32 {
        return false;
    }
    let mut i: usize = 0;
    while i < d.color_palette.len()
        invariant
            i <= d.color_palette.len(),
            forall|k: int| 0 <= k < i ==> text_ok((#[trigger] d.color_palette@[k])@, 1, 128),
        decreases d.color_palette.len() - i,
    {
        if validate_text(d.color_palette[i].as_str(), 1, 128, "scene palette entry").is_err() {
            return false;
        }
        i += 1;
    }
    validate_spec(d.spatial_constraints.as_str()).is_ok()
}

fn check_engine(e: &Option<String>) -> (r: bool)
    ensures
        r == (*e matches Some(x) ==> engine_ok(x@)),
{
    match e {
        Some(x) => str_eq(x.as_str(), "generated_video") || str_eq(x.as_str(), "blender") || str_eq(x.as_str(), "mixed"),
        None => true,
    }
}

#[verifier::loop_isolation(false)]
fn pack_variant(pack: &Option<LocationPackSpec>, id: &str) -> (r: bool)
    ensures
        r == pack_has_variant(*pack, id@),
{
    match pack {
        Some(p) => {
            let mut i: usize = 0;
            while i < p.variants.len()
                invariant
                    i <= p.variants.len(),
                    forall|k: int| 0 <= k < i ==> (#[trigger] variant_ids(p.variants@)[k])@ != id@,
                decreases p.variants.len() - i,
            {
                if str_eq(p.variants[i].variant_id.as_str(), id) {
                    assert(variant_ids(p.variants@)[i as int] == p.variants@[i as int].variant_id);
                    assert(variant_ids(p.variants@)[i as int]@ == id@);
                    assert(has_view(variant_ids(p.variants@), id@));
                    return true;
                }
                i += 1;
            }
            false
        },
        None => false,
    }
}

/// Checks one shot of a scene, given the location pack the scene selected.
pub fn validate_shot(sh: &ShotManifest, elements: &Vec<ElementRecord>, assets: &Vec<AssetEntry>, pack: &Option<LocationPackSpec>)
    -> (r: Result<(), McpError>)
    ensures
        r is Ok <==> shot_ok(*sh, elements@, assets@, *pack),
        r matches Err(e) ==> invalid_with(e, shot_refusal(*sh, elements@, assets@, *pack)),
{
    match validate_id(sh.shot_id.as_str(), "shot_id") {
        Err(e) => { return Err(e); },
        Ok(()) => {},
    }
    if !check_opt_id(&sh.revision_id) || sh.duration_ms == 0 || sh.duration_ms > 3600000 {
        return Err(invalid("scene shot identity or duration is invalid"));
    }
    match validate_freeform_text(sh.action.as_str(), 0, 4096, "shot action") {
        Err(e) => { return Err(e); },
        Ok(()) => {},
    }
    match validate_spec(sh.state_in.as_str()) {
        Err(e) => { return Err(e); },
        Ok(()) => {},
    }
    match validate_spec(sh.state_out.as_str()) {
        Err(e) => { return Err(e); },
        Ok(()) => {},
    }
    match validate_spec(sh.continuity.as_str()) {
        Err(e) => { return Err(e); },
        Ok(()) => {},
    }
    if !(check_opt_freeform(&sh.camera.shot_size, 1, 512) && check_opt_freeform(&sh.camera.movement, 1, 512)
        && check_opt_freeform(&sh.camera.framing, 1, 512)) || !sh.camera.optics_within_bounds {
        return Err(invalid("shot camera is outside allowed bounds"));
    }
    match validate_director_shot_spec(&sh.director) {
        Err(e) => { return Err(e); },
        Ok(()) => {},
    }
    if !check_engine(&sh.engine) {
        return Err(invalid("shot engine is unsupported"));
    }
    if !check_opt_id(&sh.execution_binding_id) {
        return Err(invalid("shot execution binding id is invalid"));
    }
    if sh.reference_asset_ids.len() > MAX_SHOT_REFERENCES {
        return Err(invalid("shot reference asset count exceeds maximum"));
    }
    if !all_assets_known(assets, &sh.reference_asset_ids) || !check_opt_known_asset(assets, &sh.hero_frame_asset_id)
        || !check_opt_known_asset(assets, &sh.carry_forward_anchor_asset_id) {
        return Err(invalid("shot references an unknown asset"));
    }
    if let Some(v) = &sh.location_variant_id {
        match validate_id(v.as_str(), "shot location variant id") {
            Err(e) => { return Err(e); },
            Ok(()) => {},
        }
        if !pack_variant(pack, v.as_str()) {
            return Err(invalid("shot location variant is not declared by the selected Location Pack"));
        }
    }
    if !all_elements_known(elements, &sh.element_ids) {
        return Err(invalid("shot references an unknown element"));
    }
    Ok(())
}

} // verus!

verus! {

pub open spec fn sat_add_u64(a: u64, b: u64) -> u64 {
    if a + b > u64::MAX { u64::MAX } else { (a + b) as u64 }
}

/// The saturating sum of the first `n` shot durations.
pub open spec fn total_duration(shots: Seq<ShotManifest>, n: int) -> u64
    decreases n,
{
    if n <= 0 { 0 } else { sat_add_u64(total_duration(shots, n - 1), shots[n - 1].duration_ms) }
}

/// No two shots share an identity or a place in the order.
pub open spec fn shots_distinct(shots: Seq<ShotManifest>) -> bool {
    forall|a: int, b: int| 0 <= a < shots.len() && 0 <= b < shots.len() && a != b
        ==> (#[trigger] shots[a]).shot_id@ != (#[trigger] shots[b]).shot_id@ && shots[a].order != shots[b].order
}

/// The location pack that the scene's shots see: the selected one where the scene has
/// a location, and none otherwise.
pub open spec fn scene_pack(sc: SceneManifest, pack: Option<LocationPackSpec>) -> Option<LocationPackSpec> {
    if sc.location_element_id is Some { pack } else { None }
}

/// A scene that its project accepts. `pack` is the location pack read from the
/// selected revision of the scene's location, `None` where it could not be read.
pub open spec fn scene_ok(sc: SceneManifest, elements: Seq<ElementRecord>, assets: Seq<AssetEntry>, pack: Option<LocationPackSpec>) -> bool {
    &&& is_valid_id(sc.scene_id@)
    &&& text_ok(sc.title@, 1, 200)
    &&& opt_id_ok(sc.revision_id)
    &&& (sc.target_duration_ms matches Some(d) ==> 0 < d <= 86400000)
    &&& direction_ok(sc.global_direction)
    &&& sc.shots.len() <= MAX_SCENE_SHOTS
    &&& (forall|i: int| 0 <= i < sc.cast_element_ids.len() ==> element_index(elements, (#[trigger] sc.cast_element_ids@[i])@) is Some)
    &&& (sc.style_element_id matches Some(s) ==> element_index(elements, s@) is Some)
    &&& opt_known_asset(assets, sc.selected_hero_frame_asset_id)
    &&& (sc.location_element_id matches Some(l) ==> selected_location_ok(elements, l@)
        && (pack matches Some(p) && location_pack_ok(p, elements)))
    &&& (forall|i: int| 0 <= i < sc.shots.len() ==> shot_ok(#[trigger] sc.shots@[i], elements, assets, scene_pack(sc, pack)))
    &&& shots_distinct(sc.shots@)
    &&& (sc.target_duration_ms matches Some(t) ==> total_duration(sc.shots@, sc.shots.len() as int) <= sat_add_u64(t, t))
}

/// A shot of a scene, given the shots before it: an accepted shot whose identity and
/// order no earlier shot shares.
pub open spec fn scene_shot_check(elements: Seq<ElementRecord>, assets: Seq<AssetEntry>, pack: Option<LocationPackSpec>)
    -> spec_fn(Seq<ShotManifest>, ShotManifest) -> Option<Seq<char>> {
    |before: Seq<ShotManifest>, sh: ShotManifest| if !shot_ok(sh, elements, assets, pack) {
        Some(shot_refusal(sh, elements, assets, pack))
    } else if exists|j: int| 0 <= j < before.len()
        && ((#[trigger] before[j]).shot_id@ == sh.shot_id@ || before[j].order == sh.order) {
        Some("scene shot identity or duration is invalid"@)
    } else {
        None
    }
}

/// Why a scene is refused, in the order it is checked.
pub open spec fn scene_refusal(sc: SceneManifest, elements: Seq<ElementRecord>, assets: Seq<AssetEntry>, pack: Option<LocationPackSpec>) -> Seq<char> {
    if !is_valid_id(sc.scene_id@) {
        "scene_id"@ + id_rule()
    } else if !text_ok(sc.title@, 1, 200) {
        "scene title"@ + " exceeds allowed bounds"@
    } else if !opt_id_ok(sc.revision_id) {
        "scene revision id is invalid"@
    } else if !(sc.target_duration_ms matches Some(d) ==> 0 < d <= 86400000) {
        "scene target duration is outside allowed bounds"@
    } else if !direction_ok(sc.global_direction) {
        "scene direction is outside allowed bounds"@
    } else if sc.shots.len() > MAX_SCENE_SHOTS {
        "scene shot count exceeds maximum"@
    } else if !((forall|i: int| 0 <= i < sc.cast_element_ids.len() ==> element_index(elements, (#[trigger] sc.cast_element_ids@[i])@) is Some)
        && (sc.style_element_id matches Some(s) ==> element_index(elements, s@) is Some)) {
        "scene references an unknown element"@
    } else if !opt_known_asset(assets, sc.selected_hero_frame_asset_id) {
        "scene hero frame references an unknown asset"@
    } else if sc.location_element_id matches Some(l) && !selected_location_ok(elements, l@) {
        selected_location_refusal(elements, sc.location_element_id->0@)
    } else if sc.location_element_id is Some && !(pack matches Some(p) && location_pack_ok(p, elements)) {
        location_pack_refusal(pack, elements)
    } else if first_refusal(sc.shots@, scene_shot_check(elements, assets, scene_pack(sc, pack))) is Some {
        first_refusal(sc.shots@, scene_shot_check(elements, assets, scene_pack(sc, pack)))->0
    } else {
        "scene shot durations materially exceed the declared target"@
    }
}

/// Checks a scene of a project; `pack` is the location pack read from the selected
/// revision of the scene's location (see `selected_location_spec`), `None` where the
/// scene has no location or the specification could not be read.
#[verifier::loop_isolation(false)]
pub fn validate_scene(
    scene: &SceneManifest,
    elements: &Vec<ElementRecord>,
    assets: &Vec<AssetEntry>,
    pack: &Option<LocationPackSpec>,
) -> (r: Result<(), McpError>)
    ensures
        r is Ok <==> scene_ok(*scene, elements@, assets@, *pack),
        r matches Err(e) ==> invalid_with(e, scene_refusal(*scene, elements@, assets@, *pack)),
{
    match validate_id(scene.scene_id.as_str(), "scene_id") {
        Err(e) => { return Err(e); },
        Ok(()) => {},
    }
    match validate_text(scene.title.as_str(), 1, 200, "scene title") {
        Err(e) => { return Err(e); },
        Ok(()) => {},
    }
    if !check_opt_id(&scene.revision_id) {
        return Err(invalid("scene revision id is invalid"));
    }
    if let Some(d) = scene.target_duration_ms {
        if d == 0 || d > 86400000 {
            return Err(invalid("scene target duration is outside allowed bounds"));
        }
    }
    if !check_direction(&scene.global_direction) {
        return Err(invalid("scene direction is outside allowed bounds"));
    }
    if scene.shots.len() > MAX_SCENE_SHOTS {
        return Err(invalid("scene shot count exceeds maximum"));
    }
    if !all_elements_known(elements, &scene.cast_element_ids) {
        return Err(invalid("scene references an unknown element"));
    }
    if let Some(s) = &scene.style_element_id {
        if find_element(elements, s.as_str()).is_none() {
            return Err(invalid("scene references an unknown element"));
        }
    }
    if !check_opt_known_asset(assets, &scene.selected_hero_frame_asset_id) {
        return Err(invalid("scene hero frame references an unknown asset"));
    }
    let no_pack: Option<LocationPackSpec> = None;
    let shot_pack = match &scene.location_element_id {
        Some(l) => {
            match selected_location_spec(elements, l.as_str()) {
                Err(e) => { return Err(e); },
                Ok(_) => {},
            }
            match validate_location_pack_spec(pack, elements) {
                Err(e) => { return Err(e); },
                Ok(()) => {},
            }
            pack
        },
        None => &no_pack,
    };
    assert(*shot_pack == scene_pack(*scene, *pack));
    let shots = &scene.shots;
    let mut total: u64 = 0;
    let mut i: usize = 0;
    while i < shots.len()
        invariant
            i <= shots.len(),
            total == total_duration(shots@, i as int),
            forall|k: int| 0 <= k < i ==> shot_ok(#[trigger] shots@[k], elements@, assets@, *shot_pack),
            forall|a: int, b: int| 0 <= a < i && 0 <= b < i && a != b
                ==> (#[trigger] shots@[a]).shot_id@ != (#[trigger] shots@[b]).shot_id@ && shots@[a].order != shots@[b].order,
            first_refusal(shots@.take(i as int), scene_shot_check(elements@, assets@, *shot_pack)) is None,
        decreases shots.len() - i,
    {
        proof {
            lemma_first_refusal_step(shots@, i as int, scene_shot_check(elements@, assets@, *shot_pack));
        }
        match validate_shot(&shots[i], elements, assets, shot_pack) {
            Err(e) => {
                proof {
                    lemma_first_refusal_prefix(shots@, i + 1, scene_shot_check(elements@, assets@, *shot_pack));
                }
                return Err(e);
            },
            Ok(()) => {},
        }
        let mut j: usize = 0;
        while j < i
            invariant
                i < shots.len(),
                j <= i,
                forall|k: int| 0 <= k < j ==> (#[trigger] shots@[k]).shot_id@ != shots@[i as int].shot_id@
                    && shots@[k].order != shots@[i as int].order,
            decreases i - j,
        {
            if str_eq(shots[j].shot_id.as_str(), shots[i].shot_id.as_str()) || shots[j].order == shots[i].order {
                proof {
                    let before = shots@.take(i as int);
                    assert(before[j as int] == shots@[j as int]);
                    assert(before[j as int].shot_id@ == shots@[i as int].shot_id@ || before[j as int].order == shots@[i as int].order);
                    lemma_first_refusal_prefix(shots@, i + 1, scene_shot_check(elements@, assets@, *shot_pack));
                }
                return Err(invalid("scene shot identity or duration is invalid"));
            }
            j += 1;
        }
        proof {
            let before = shots@.take(i as int);
            assert forall|k: int| 0 <= k < before.len() implies !((#[trigger] before[k]).shot_id@ == shots@[i as int].shot_id@
                || before[k].order == shots@[i as int].order) by {
                assert(before[k] == shots@[k]);
            }
        }
        let d = shots[i].duration_ms;
        total = if total > u64::MAX - d { u64::MAX } else { total + d };
        i += 1;
    }
    proof {
        assert(shots@.take(i as int) =~= shots@);
    }
    if let Some(t) = scene.target_duration_ms {
        let limit = if t > u64::MAX - t { u64::MAX } else { t + t };
        if total > limit {
            return Err(invalid("scene shot durations materially exceed the declared target"));
        }
    }
    Ok(())
}

} // verus!

verus! {

/// A location pack that was read and is accepted.
pub open spec fn pack_ok(x: Option<LocationPackSpec>, elements: Seq<ElementRecord>) -> bool {
    x matches Some(p) && location_pack_ok(p, elements)
}

/// Every revision of every Location element holds an accepted location pack;
/// `packs[i][j]` is the pack read from revision `j` of element `i`.
pub open spec fn location_packs_ok(elements: Seq<ElementRecord>, packs: Seq<Vec<Option<LocationPackSpec>>>) -> bool {
    forall|i: int, j: int| 0 <= i < elements.len() && (#[trigger] elements[i]).kind == ElementKind::Location
        && 0 <= j < elements[i].revisions.len()
        ==> pack_ok(#[trigger] packs[i]@[j], elements)
}

/// Whether every revision of every Location element holds an accepted location pack.
pub fn check_location_packs(elements: &Vec<ElementRecord>, packs: &Vec<Vec<Option<LocationPackSpec>>>) -> (r: bool)
    requires
        packs.len() == elements.len(),
        forall|i: int| 0 <= i < elements.len() && (#[trigger] elements@[i]).kind == ElementKind::Location
            ==> packs@[i].len() == elements@[i].revisions.len(),
    ensures
        r == location_packs_ok(elements@, packs@),
{
    let mut i: usize = 0;
    while i < elements.len()
        invariant
            i <= elements.len(),
            packs.len() == elements.len(),
            forall|a: int| 0 <= a < elements.len() && (#[trigger] elements@[a]).kind == ElementKind::Location
                ==> packs@[a].len() == elements@[a].revisions.len(),
            forall|a: int, j: int| 0 <= a < i && (#[trigger] elements@[a]).kind == ElementKind::Location
                && 0 <= j < elements@[a].revisions.len()
                ==> pack_ok(#[trigger] packs@[a]@[j], elements@),
        decreases elements.len() - i,
    {
        if elements[i].kind == ElementKind::Location {
            let mut j: usize = 0;
            while j < packs[i].len()
                invariant
                    i < elements.len(),
                    packs.len() == elements.len(),
                    elements@[i as int].kind == ElementKind::Location,
                    packs@[i as int].len() == elements@[i as int].revisions.len(),
                    j <= packs@[i as int].len(),
                    forall|q: int| 0 <= q < j ==> pack_ok(#[trigger] packs@[i as int]@[q], elements@),
                decreases packs@[i as int].len() - j,
            {
                if validate_location_pack_spec(&packs[i][j], elements).is_err() {
                    assert(!pack_ok(packs@[i as int]@[j as int], elements@));
                    return false;
                }
                j += 1;
            }
        }
        i += 1;
    }
    true
}

/// Every scene is accepted; `packs[i]` is the location pack of scene `i`.
pub open spec fn scenes_ok(scenes: Seq<SceneManifest>, elements: Seq<ElementRecord>, assets: Seq<AssetEntry>, packs: Seq<Option<LocationPackSpec>>) -> bool {
    forall|i: int| 0 <= i < scenes.len() ==> scene_ok(#[trigger] scenes[i], elements, assets, packs[i])
}

/// Whether every scene is accepted; `packs[i]` is the location pack of scene `i`.
pub fn check_scenes(
    scenes: &Vec<SceneManifest>,
    elements: &Vec<ElementRecord>,
    assets: &Vec<AssetEntry>,
    packs: &Vec<Option<LocationPackSpec>>,
) -> (r: bool)
    requires
        packs.len() == scenes.len(),
    ensures
        r == scenes_ok(scenes@, elements@, assets@, packs@),
{
    let mut i: usize = 0;
    while i < scenes.len()
        invariant
            i <= scenes.len(),
            packs.len() == scenes.len(),
            forall|k: int| 0 <= k < i ==> scene_ok(#[trigger] scenes@[k], elements@, assets@, packs@[k]),
        decreases scenes.len() - i,
    {
        if validate_scene(&scenes[i], elements, assets, &packs[i]).is_err() {
            return false;
        }
        i += 1;
    }
    true
}

} // verus!
