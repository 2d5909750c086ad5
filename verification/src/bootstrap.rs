use vstd::prelude::*;
use crate::assets::{asset_index, find_asset, AssetEntry};
use crate::contracts::{ElementKind, RevisionState};
use crate::elements::{element_index, find_element, find_revision, revision_index, ElementRecord};
use crate::error::{invalid, invalid_with, McpError};
use crate::jobs::{first_refusal, lemma_first_refusal_prefix, lemma_first_refusal_step, CreativeJobKind, CreativeJobRecord, CreativeJobStatus, NodeRunRecord};
use crate::blender_scripts::{file_extension, lower_extension};
use crate::text::{char_vec, is_ascii_alnum, is_ascii_alnum_char, string_from_chars};
use crate::text::{contains_str, distinct_views, has_view, seq_starts_with, starts_with, str_eq};

verus! {

/// The references of a character bootstrap are a valid choice: the element is a
/// Character with an accepted selected revision; front, side and back are distinct,
/// declared and among that revision's references; and every declared reference is
/// among them and names an image asset of the project.
pub open spec fn character_refs_ok(
    elements: Seq<ElementRecord>,
    assets: Seq<AssetEntry>,
    element_id: Seq<char>,
    references: Seq<String>,
    front: Seq<char>,
    side: Seq<char>,
    back: Seq<char>,
) -> bool {
    &&& element_index(elements, element_id) matches Some(k)
    &&& elements[k].kind == ElementKind::Character
    &&& elements[k].selected_revision_id matches Some(sel)
    &&& revision_index(elements[k].revisions@, sel@) matches Some(q)
    &&& ({
        let rev = elements[k].revisions@[q];
        &&& rev.state == RevisionState::Accepted
        &&& front != side && side != back && front != back
        &&& has_view(references, front) && has_view(references, side) && has_view(references, back)
        &&& has_view(rev.reference_asset_ids@, front) && has_view(rev.reference_asset_ids@, side)
            && has_view(rev.reference_asset_ids@, back)
        &&& forall|i: int| 0 <= i < references.len() ==> {
            &&& has_view(rev.reference_asset_ids@, (#[trigger] references[i])@)
            &&& asset_index(assets, references[i]@) matches Some(a)
            &&& seq_starts_with(assets[a].media_type@, "image/"@)
        }
    })
}

/// A declared reference of a character bootstrap: among the revision's references, an
/// asset of the project, and an image.
pub open spec fn declared_reference_check(rev_refs: Seq<String>, assets: Seq<AssetEntry>) -> spec_fn(Seq<String>, String) -> Option<Seq<char>> {
    |before: Seq<String>, r: String| if !has_view(rev_refs, r@) {
        Some("bootstrap references must come from the accepted Character revision"@)
    } else if asset_index(assets, r@) is None {
        Some("bootstrap references contain an unknown Asset"@)
    } else if !seq_starts_with(assets[asset_index(assets, r@)->0].media_type@, "image/"@) {
        Some("bootstrap references must be image Assets"@)
    } else {
        None
    }
}

/// Why the references of a character bootstrap are refused, in the order they are checked.
pub open spec fn character_refs_refusal(
    elements: Seq<ElementRecord>,
    assets: Seq<AssetEntry>,
    element_id: Seq<char>,
    references: Seq<String>,
    front: Seq<char>,
    side: Seq<char>,
    back: Seq<char>,
) -> Option<Seq<char>> {
    match element_index(elements, element_id) {
        None => Some("bootstrap Character Element is unknown"@),
        Some(k) => if elements[k].kind != ElementKind::Character {
            Some("image_to_3d_bootstrap element_id must reference a Character Element"@)
        } else {
            match elements[k].selected_revision_id {
                None => Some("bootstrap Character Element has no accepted revision"@),
                Some(sel) => match revision_index(elements[k].revisions@, sel@) {
                    None => Some("selected Character revision is unavailable"@),
                    Some(q) => {
                        let rev = elements[k].revisions@[q];
                        if rev.state != RevisionState::Accepted {
                            Some("bootstrap Character revision must be accepted"@)
                        } else if !(front != side && side != back && front != back
                            && has_view(references, front) && has_view(references, side) && has_view(references, back)
                            && has_view(rev.reference_asset_ids@, front) && has_view(rev.reference_asset_ids@, side)
                            && has_view(rev.reference_asset_ids@, back)) {
                            Some("front/side/back bootstrap references must be distinct, declared, and belong to the accepted Character revision"@)
                        } else {
                            first_refusal(references, declared_reference_check(rev.reference_asset_ids@, assets))
                        }
                    },
                },
            }
        },
    }
}

/// Checks the references of a character bootstrap.
#[verifier::loop_isolation(false)]
pub fn validate_character_references(
    elements: &Vec<ElementRecord>,
    assets: &Vec<AssetEntry>,
    element_id: &str,
    references: &Vec<String>,
    front: &str,
    side: &str,
    back: &str,
) -> (r: Result<(), McpError>)
    ensures
        r is Ok <==> character_refs_ok(elements@, assets@, element_id@, references@, front@, side@, back@),
        r matches Err(e) ==> e is InvalidRequest,
        r matches Err(e) ==> (character_refs_refusal(elements@, assets@, element_id@, references@, front@, side@, back@) matches Some(m)
            && invalid_with(e, m)),
{
    let k = match find_element(elements, element_id) {
        Some(k) => k,
        None => { return Err(invalid("bootstrap Character Element is unknown")); },
    };
    if elements[k].kind != ElementKind::Character {
        return Err(invalid("image_to_3d_bootstrap element_id must reference a Character Element"));
    }
    let selected = match &elements[k].selected_revision_id {
        Some(s) => s,
        None => { return Err(invalid("bootstrap Character Element has no accepted revision")); },
    };
    let q = match find_revision(&elements[k].revisions, selected.as_str()) {
        Some(q) => q,
        None => { return Err(invalid("selected Character revision is unavailable")); },
    };
    let rev = &elements[k].revisions[q];
    if rev.state != RevisionState::Accepted {
        return Err(invalid("bootstrap Character revision must be accepted"));
    }
    let refs = &rev.reference_asset_ids;
    if str_eq(front, side) || str_eq(side, back) || str_eq(front, back)
        || !contains_str(references, front) || !contains_str(references, side) || !contains_str(references, back)
        || !contains_str(refs, front) || !contains_str(refs, side) || !contains_str(refs, back)
    {
        return Err(invalid("front/side/back bootstrap references must be distinct, declared, and belong to the accepted Character revision"));
    }
    let mut i: usize = 0;
    while i < references.len()
        invariant
            i <= references.len(),
            k < elements.len(),
            q < elements@[k as int].revisions@.len(),
            *rev == elements@[k as int].revisions@[q as int],
            forall|j: int| 0 <= j < i ==> {
                &&& has_view(rev.reference_asset_ids@, (#[trigger] references@[j])@)
                &&& asset_index(assets@, references@[j]@) matches Some(a)
                &&& seq_starts_with(assets@[a].media_type@, "image/"@)
            },
            first_refusal(references@.take(i as int), declared_reference_check(rev.reference_asset_ids@, assets@)) is None,
        decreases references.len() - i,
    {
        proof {
            lemma_first_refusal_step(references@, i as int, declared_reference_check(rev.reference_asset_ids@, assets@));
        }
        if !contains_str(&rev.reference_asset_ids, references[i].as_str()) {
            proof {
                assert(!has_view(rev.reference_asset_ids@, references@[i as int]@));
                lemma_first_refusal_prefix(references@, i + 1, declared_reference_check(rev.reference_asset_ids@, assets@));
            }
            return Err(invalid("bootstrap references must come from the accepted Character revision"));
        }
        let a = match find_asset(assets, references[i].as_str()) {
            Some(a) => a,
            None => {
                proof {
                    assert(asset_index(assets@, references@[i as int]@) is None);
                    lemma_first_refusal_prefix(references@, i + 1, declared_reference_check(rev.reference_asset_ids@, assets@));
                }
                return Err(invalid("bootstrap references contain an unknown Asset"));
            },
        };
        if !starts_with(assets[a].media_type.as_str(), "image/") {
            proof {
                assert(asset_index(assets@, references@[i as int]@) == Some(a as int));
                lemma_first_refusal_prefix(references@, i + 1, declared_reference_check(rev.reference_asset_ids@, assets@));
            }
            return Err(invalid("bootstrap references must be image Assets"));
        }
        i += 1;
    }
    Ok(())
}

/// The reference identities of a bootstrap request, each a string (`None` stands for an
/// item of another JSON type), none repeated; `None` for a list that is absent.
pub open spec fn reference_ids_ok(values: Option<Seq<Option<String>>>) -> bool {
    &&& values matches Some(v)
    &&& forall|i: int| 0 <= i < v.len() ==> (#[trigger] v[i]) is Some
    &&& forall|i: int, j: int| 0 <= i < v.len() && 0 <= j < v.len() && i != j
        ==> (#[trigger] v[i])->0@ != (#[trigger] v[j])->0@
}

/// A reference, given the references before it: text that no earlier one repeats.
pub open spec fn reference_check() -> spec_fn(Seq<Option<String>>, Option<String>) -> Option<Seq<char>> {
    |before: Seq<Option<String>>, item: Option<String>| match item {
        None => Some("bootstrap reference Asset ID is invalid"@),
        Some(s) => if exists|j: int| 0 <= j < before.len() && ((#[trigger] before[j]) matches Some(t) && t@ == s@) {
            Some("bootstrap reference Asset IDs must be unique"@)
        } else {
            None
        },
    }
}

/// Why the references of a bootstrap request are refused: absent, or the first that is
/// not text or repeats an earlier one.
pub open spec fn references_refusal(values: Option<Seq<Option<String>>>) -> Option<Seq<char>> {
    match values {
        None => Some("bootstrap references are required"@),
        Some(v) => first_refusal(v, reference_check()),
    }
}

/// The reference identities of a bootstrap request.
pub fn required_reference_ids(values: Option<&Vec<Option<String>>>) -> (r: Result<Vec<String>, McpError>)
    ensures
        match r {
            Ok(ids) => reference_ids_ok(match values { Some(v) => Some(v@), None => None })
                && ids@.len() == values->0@.len()
                && forall|i: int| 0 <= i < ids@.len() ==> Some(#[trigger] ids@[i]) == values->0@[i],
            Err(e) => e is InvalidRequest && !reference_ids_ok(match values { Some(v) => Some(v@), None => None }),
        },
        r matches Err(e) ==> (references_refusal(match values { Some(v) => Some(v@), None => None }) matches Some(m)
            && invalid_with(e, m)),
{
    let v = match values {
        Some(v) => v,
        None => { return Err(invalid("bootstrap references are required")); },
    };
    let mut ids: Vec<String> = Vec::new();
    let mut i: usize = 0;
    while i < v.len()
        invariant
            i <= v.len(),
            values == Some(v),
            ids@.len() == i,
            forall|k: int| 0 <= k < i ==> Some(#[trigger] ids@[k]) == v@[k],
            forall|a: int, b: int| 0 <= a < i && 0 <= b < i && a != b ==> (#[trigger] ids@[a])@ != (#[trigger] ids@[b])@,
            first_refusal(v@.take(i as int), reference_check()) is None,
        decreases v.len() - i,
    {
        proof {
            lemma_first_refusal_step(v@, i as int, reference_check());
        }
        let ghost before = v@.take(i as int);
        let id = match &v[i] {
            Some(s) => s,
            None => {
                proof {
                    lemma_first_refusal_prefix(v@, i + 1, reference_check());
                }
                return Err(invalid("bootstrap reference Asset ID is invalid"));
            },
        };
        let repeated = contains_str(&ids, id.as_str());
        proof {
            if repeated {
                let k = choose|k: int| 0 <= k < ids@.len() && (#[trigger] ids@[k])@ == id@;
                assert(before[k] == v@[k]);
                assert(before[k] matches Some(t) && t@ == id@);
            } else {
                assert forall|j: int| 0 <= j < before.len() implies !((#[trigger] before[j]) matches Some(t) && t@ == id@) by {
                    assert(before[j] == v@[j]);
                    assert(Some(ids@[j]) == v@[j]);
                }
            }
        }
        if repeated {
            proof {
                let k = choose|k: int| 0 <= k < ids@.len() && (#[trigger] ids@[k])@ == id@;
                assert(v@[k]->0@ == v@[i as int]->0@);
                lemma_first_refusal_prefix(v@, i + 1, reference_check());
            }
            return Err(invalid("bootstrap reference Asset IDs must be unique"));
        }
        ids.push(id.clone());
        i += 1;
    }
    proof {
        assert forall|a: int, b: int| 0 <= a < v@.len() && 0 <= b < v@.len() && a != b
            implies (#[trigger] v@[a])->0@ != (#[trigger] v@[b])->0@ by {
            assert(Some(ids@[a]) == v@[a]);
            assert(Some(ids@[b]) == v@[b]);
        }
        assert forall|a: int| 0 <= a < v@.len() implies (#[trigger] v@[a]) is Some by {
            assert(Some(ids@[a]) == v@[a]);
        }
    }
    Ok(ids)
}

/// Whether a bootstrap route generates its mesh through an execution binding: the
/// `manual` route does not, and selects none; `binding` and `hybrid` do.
pub fn bootstrap_generates_mesh(route: &str, binding_selected: bool) -> (r: Result<bool, McpError>)
    ensures
        route@ == "manual"@ ==> (if binding_selected { r matches Err(e) && e is InvalidRequest } else { r == Ok::<bool, McpError>(false) }),
        route@ != "manual"@ && (route@ == "binding"@ || route@ == "hybrid"@) ==> r == Ok::<bool, McpError>(true),
        route@ != "manual"@ && route@ != "binding"@ && route@ != "hybrid"@ ==> (r matches Err(e) && e is InvalidRequest),
{
    if str_eq(route, "manual") {
        if binding_selected {
            return Err(invalid("manual Blender bootstrap must not select an execution binding"));
        }
        Ok(false)
    } else if str_eq(route, "binding") || str_eq(route, "hybrid") {
        Ok(true)
    } else {
        Err(invalid("bootstrap route is unsupported"))
    }
}

pub open spec fn sat_add(a: u64, b: u64) -> u64 {
    if a + b > u64::MAX { u64::MAX } else { (a + b) as u64 }
}

pub open spec fn asset_bytes(assets: Seq<AssetEntry>, id: Seq<char>) -> u64 {
    match asset_index(assets, id) { Some(a) => assets[a].bytes, None => 0 }
}

/// The saturating total of the sizes of the first `n` named assets; unknown ones count
/// nothing.
pub open spec fn named_bytes(assets: Seq<AssetEntry>, ids: Seq<String>, n: int) -> u64
    decreases n,
{
    if n <= 0 { 0 } else { sat_add(named_bytes(assets, ids, n - 1), asset_bytes(assets, ids[n - 1]@)) }
}

/// The total size of the named assets that a job produced.
pub fn output_bytes_of(assets: &Vec<AssetEntry>, ids: &Vec<String>) -> (total: u64)
    ensures
        total == named_bytes(assets@, ids@, ids@.len() as int),
{
    let mut total: u64 = 0;
    let mut i: usize = 0;
    while i < ids.len()
        invariant
            i <= ids.len(),
            total == named_bytes(assets@, ids@, i as int),
        decreases ids.len() - i,
    {
        let b = match find_asset(assets, ids[i].as_str()) {
            Some(a) => assets[a].bytes,
            None => 0,
        };
        total = if total > u64::MAX - b { u64::MAX } else { total + b };
        i += 1;
    }
    total
}

/// Why a character bootstrap's route is refused: a route other than `manual`, `binding`
/// or `hybrid`; a manual route given a generated mesh; or a binding-backed route without
/// one.
pub open spec fn bootstrap_route_refusal(route: Seq<char>, has_mesh: bool) -> Option<Seq<char>> {
    if !(route == "manual"@ || route == "binding"@ || route == "hybrid"@) {
        Some("character bootstrap route is unsupported"@)
    } else if route == "manual"@ && has_mesh {
        Some("manual character bootstrap cannot consume a generated mesh"@)
    } else if route != "manual"@ && !has_mesh {
        Some("binding-backed character bootstrap requires a generated mesh asset"@)
    } else {
        None
    }
}

/// Checks a character bootstrap's route against whether it brings a generated mesh.
pub fn check_bootstrap_route(route: &str, has_mesh: bool) -> (r: Result<(), McpError>)
    ensures
        r is Ok <==> bootstrap_route_refusal(route@, has_mesh) is None,
        r matches Err(e) ==> bootstrap_route_refusal(route@, has_mesh) matches Some(m) && invalid_with(e, m),
{
    let manual = str_eq(route, "manual");
    if !(manual || str_eq(route, "binding") || str_eq(route, "hybrid")) {
        return Err(invalid("character bootstrap route is unsupported"));
    }
    if manual && has_mesh {
        return Err(invalid("manual character bootstrap cannot consume a generated mesh"));
    }
    if !manual && !has_mesh {
        return Err(invalid("binding-backed character bootstrap requires a generated mesh asset"));
    }
    Ok(())
}

/// What follows the last `_` of `s`, or all of `s` where it has none.
pub open spec fn after_last_underscore(s: Seq<char>) -> Seq<char>
    decreases s.len(),
{
    if s.len() == 0 {
        s
    } else if s.last() == '_' {
        seq![]
    } else {
        after_last_underscore(s.drop_last()).push(s.last())
    }
}

/// The short form of a job identity that bootstrap names carry.
pub fn short_id(job_id: &str) -> (r: String)
    ensures
        r@ == after_last_underscore(job_id@),
{
    let v = char_vec(job_id);
    let mut start: usize = 0;
    let mut i: usize = 0;
    while i < v.len()
        invariant
            i <= v.len(),
            start <= i,
            v@ == job_id@,
            after_last_underscore(v@.take(i as int)) == v@.subrange(start as int, i as int),
        decreases v.len() - i,
    {
        proof {
            assert(v@.take(i + 1).drop_last() =~= v@.take(i as int));
            assert(v@.take(i + 1).last() == v@[i as int]);
        }
        if v[i] == '_' {
            start = i + 1;
            proof {
                assert(v@.subrange(start as int, i + 1) =~= Seq::<char>::empty());
            }
        } else {
            proof {
                assert(v@.subrange(start as int, i + 1) =~= v@.subrange(start as int, i as int).push(v@[i as int]));
            }
        }
        i += 1;
    }
    let mut out: Vec<char> = Vec::new();
    let mut k: usize = start;
    while k < v.len()
        invariant
            start <= k <= v.len(),
            out@ == v@.subrange(start as int, k as int),
        decreases v.len() - k,
    {
        out.push(v[k]);
        assert(out@ =~= v@.subrange(start as int, k + 1));
        k += 1;
    }
    proof {
        assert(v@.take(v.len() as int) =~= v@);
    }
    string_from_chars(&out)
}

/// An extension a bootstrap source may carry: 1 to 16 ASCII letters or digits.
pub open spec fn bootstrap_extension_ok(e: Seq<char>) -> bool {
    0 < e.len() <= 16 && forall|i: int| 0 <= i < e.len() ==> is_ascii_alnum_char(#[trigger] e[i])
}

/// The lowercase extension of a bootstrap source's path.
pub fn bootstrap_source_extension(relative_path: &str) -> (r: Result<String, McpError>)
    ensures
        match r {
            Ok(e) => lower_extension(relative_path@) == Some(e@) && bootstrap_extension_ok(e@),
            Err(err) => invalid_with(err, "creative asset extension is invalid"@)
                && !(lower_extension(relative_path@) matches Some(e) && bootstrap_extension_ok(e)),
        },
{
    let e = match file_extension(relative_path) {
        Ok(e) => e,
        Err(_) => { return Err(invalid("creative asset extension is invalid")); },
    };
    let v = char_vec(e.as_str());
    if v.len() == 0 || v.len() > 16 {
        return Err(invalid("creative asset extension is invalid"));
    }
    let mut i: usize = 0;
    while i < v.len()
        invariant
            i <= v.len(),
            v@ == e@,
            lower_extension(relative_path@) == Some(e@),
            forall|k: int| 0 <= k < i ==> is_ascii_alnum_char(#[trigger] v@[k]),
        decreases v.len() - i,
    {
        if !is_ascii_alnum(v[i]) {
            proof {
                assert(!is_ascii_alnum_char(e@[i as int]));
            }
            return Err(invalid("creative asset extension is invalid"));
        }
        i += 1;
    }
    Ok(e)
}

/// The names a bootstrap gives to what it makes for job `job_id`: its collection, the
/// reference file of a view (`front`, `side`, `back` or `mesh`), and its scene file.
pub fn bootstrap_collection_name(job_id: &str) -> (r: String)
    ensures
        r@ == "MA_Bootstrap_"@ + after_last_underscore(job_id@),
{
    let mut r = String::from_str("MA_Bootstrap_");
    let short = short_id(job_id);
    r.append(short.as_str());
    r
}

pub fn bootstrap_source_name(job_id: &str, view: &str, extension: &str) -> (r: String)
    ensures
        r@ == "bootstrap_"@ + after_last_underscore(job_id@) + "_"@ + view@ + "."@ + extension@,
{
    let mut r = String::from_str("bootstrap_");
    let short = short_id(job_id);
    r.append(short.as_str());
    r.append("_");
    r.append(view);
    r.append(".");
    r.append(extension);
    r
}

pub fn bootstrap_scene_name(job_id: &str) -> (r: String)
    ensures
        r@ == "character_bootstrap_"@ + after_last_underscore(job_id@) + ".blend"@,
{
    let mut r = String::from_str("character_bootstrap_");
    let short = short_id(job_id);
    r.append(short.as_str());
    r.append(".blend");
    r
}


/// The capability job that generates a bootstrap's mesh: the bootstrap job turned into a
/// `3d.image_to_mesh` capability job, with no runs, outputs or failure yet.
pub fn mesh_job_of(job: CreativeJobRecord) -> (m: CreativeJobRecord)
    ensures
        m == (CreativeJobRecord {
            kind: CreativeJobKind::Capability,
            capability_id: m.capability_id,
            workflow_id: None,
            node_runs: m.node_runs,
            output_asset_ids: m.output_asset_ids,
            failure_code: None,
            ..job
        }),
        m.capability_id matches Some(c) && c@ == "3d.image_to_mesh"@,
        m.node_runs@.len() == 0,
        m.output_asset_ids@.len() == 0,
{
    CreativeJobRecord {
        kind: CreativeJobKind::Capability,
        capability_id: Some(String::from_str("3d.image_to_mesh")),
        workflow_id: None,
        node_runs: Vec::new(),
        output_asset_ids: Vec::new(),
        failure_code: None,
        ..job
    }
}

/// A bootstrap whose mesh job did not complete fails with the mesh job's failure code,
/// or with `bootstrap_mesh_generation_failed` where it gave none.
pub fn fail_mesh_generation(job: &mut CreativeJobRecord, mesh_failure: Option<String>, now: u128)
    ensures
        *final(job) == (CreativeJobRecord {
            status: CreativeJobStatus::Failed,
            failure_code: final(job).failure_code,
            updated_at_ms: now,
            ..*old(job)
        }),
        mesh_failure is Some ==> final(job).failure_code == mesh_failure,
        mesh_failure is None ==> (final(job).failure_code matches Some(c) && c@ == "bootstrap_mesh_generation_failed"@),
{
    job.status = CreativeJobStatus::Failed;
    job.failure_code = match mesh_failure {
        Some(c) => Some(c),
        None => Some(String::from_str("bootstrap_mesh_generation_failed")),
    };
    job.updated_at_ms = now;
}

/// The outputs of a finished bootstrap: the generated mesh, where there is one, then the scene.
pub open spec fn bootstrap_outputs(mesh_asset_id: Option<String>, scene_asset_id: String) -> Seq<String> {
    match mesh_asset_id {
        Some(m) => seq![m, scene_asset_id],
        None => seq![scene_asset_id],
    }
}

/// The one run a completed bootstrap records.
pub open spec fn bootstrap_run(r: NodeRunRecord, output: String) -> bool {
    &&& r.node_id@ == "blender_character_bootstrap"@
    &&& r.status == CreativeJobStatus::Completed
    &&& r.output == Some(output)
    &&& r.failure_code is None
    &&& !r.reused
    &&& r.execution_batch == 0
}

/// Closes a bootstrap whose Blender setup returned: where its outputs together exceed
/// `max_output_bytes` the job fails with `output_hard_limit_exceeded`; otherwise it
/// completes with the mesh (where generated) and the scene, and one run whose output is
/// `run_output`. Returns whether the job completed.
pub fn finish_bootstrap(
    job: &mut CreativeJobRecord,
    mesh_asset_id: Option<String>,
    scene_asset_id: String,
    total_bytes: u64,
    max_output_bytes: u64,
    run_output: String,
    now: u128,
) -> (completed: bool)
    ensures
        completed == (total_bytes <= max_output_bytes),
        !completed ==> *final(job) == (CreativeJobRecord {
            status: CreativeJobStatus::Failed,
            failure_code: final(job).failure_code,
            actual_output_bytes: Some(total_bytes),
            updated_at_ms: now,
            ..*old(job)
        }),
        !completed ==> (final(job).failure_code matches Some(c) && c@ == "output_hard_limit_exceeded"@),
        completed ==> *final(job) == (CreativeJobRecord {
            status: CreativeJobStatus::Completed,
            failure_code: None,
            actual_output_bytes: Some(total_bytes),
            output_asset_ids: final(job).output_asset_ids,
            node_runs: final(job).node_runs,
            updated_at_ms: now,
            ..*old(job)
        }),
        completed ==> final(job).output_asset_ids@ == bootstrap_outputs(mesh_asset_id, scene_asset_id),
        completed ==> final(job).node_runs@.len() == 1 && bootstrap_run(final(job).node_runs@[0], run_output),
{
    if total_bytes > max_output_bytes {
        job.status = CreativeJobStatus::Failed;
        job.failure_code = Some(String::from_str("output_hard_limit_exceeded"));
        job.actual_output_bytes = Some(total_bytes);
        job.updated_at_ms = now;
        return false;
    }
    let mut outputs: Vec<String> = Vec::new();
    match mesh_asset_id {
        Some(m) => { outputs.push(m); },
        None => {},
    }
    outputs.push(scene_asset_id);
    let mut runs: Vec<NodeRunRecord> = Vec::new();
    runs.push(NodeRunRecord {
        node_id: String::from_str("blender_character_bootstrap"),
        status: CreativeJobStatus::Completed,
        output: Some(run_output),
        failure_code: None,
        reused: false,
        execution_batch: 0,
    });
    job.status = CreativeJobStatus::Completed;
    job.failure_code = None;
    job.actual_output_bytes = Some(total_bytes);
    job.output_asset_ids = outputs;
    job.node_runs = runs;
    job.updated_at_ms = now;
    proof {
        assert(job.output_asset_ids@ =~= bootstrap_outputs(mesh_asset_id, scene_asset_id));
    }
    true
}

} // verus!
