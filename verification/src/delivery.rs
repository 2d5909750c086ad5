use vstd::prelude::*;
use crate::assets::{asset_index, find_asset, AssetEntry};
use crate::blender_ops::{decimal, file_name, file_name_of, lemma_zeros_len, uint_to_text, zeros};
use crate::contracts::{AssetState, QaSeverity};
use crate::jobs::{CreativeJobRecord, CreativeJobStatus};
use crate::outside::push_char;
use crate::project::QaFindingEntry;
use crate::error::{invalid, McpError, invalid_with};
use crate::text::{char_vec, has_control, is_valid_id, str_eq, validate_id, validate_text};

verus! {

/// The three kinds of local delivery workflow.
#[derive(Clone, Copy, Debug, PartialEq, Eq, Structural)]
pub enum DeliveryKind {
    ExportProfile,
    ProjectHandoff,
    PackagedDelivery,
}

/// What a delivery workflow registers: the role and artifact kind of its manifest and,
/// for a packaged delivery, the template it fills.
pub struct DeliveryRoute {
    pub kind: DeliveryKind,
    pub role: String,
    pub artifact_kind: String,
    pub template: Option<String>,
}

pub open spec fn delivery_kind_of(w: Seq<char>) -> Option<DeliveryKind> {
    if w == "export_profile"@ {
        Some(DeliveryKind::ExportProfile)
    } else if w == "project_handoff"@ {
        Some(DeliveryKind::ProjectHandoff)
    } else if w == "promo_pack"@ || w == "key_visual_bundle"@ || w == "portfolio_delivery"@ {
        Some(DeliveryKind::PackagedDelivery)
    } else {
        None
    }
}

pub open spec fn delivery_role_of(kind: DeliveryKind) -> Seq<char> {
    match kind {
        DeliveryKind::ExportProfile => "creative_export_manifest"@,
        DeliveryKind::ProjectHandoff => "creative_project_handoff"@,
        DeliveryKind::PackagedDelivery => "creative_delivery_template"@,
    }
}

pub open spec fn delivery_artifact_of(kind: DeliveryKind) -> Seq<char> {
    match kind {
        DeliveryKind::ExportProfile => "creative_export_profile"@,
        DeliveryKind::ProjectHandoff => "creative_project_handoff"@,
        DeliveryKind::PackagedDelivery => "creative_packaged_delivery"@,
    }
}

/// The template a packaged delivery workflow fills.
pub open spec fn delivery_template_of(w: Seq<char>) -> Option<Seq<char>> {
    if w == "promo_pack"@ {
        Some("anime_game_promo_pack"@)
    } else if w == "key_visual_bundle"@ {
        Some("key_visual_cover_thumbnail_bundle"@)
    } else if w == "portfolio_delivery"@ {
        Some("editable_portfolio_delivery"@)
    } else {
        None
    }
}

/// The route of a delivery job's workflow; a job without a workflow, or with one that
/// is not a local delivery, is refused.
pub fn delivery_route(workflow_id: Option<&str>) -> (r: Result<DeliveryRoute, McpError>)
    ensures
        match r {
            Ok(route) => workflow_id matches Some(w) && delivery_kind_of(w@) == Some(route.kind)
                && route.role@ == delivery_role_of(route.kind)
                && route.artifact_kind@ == delivery_artifact_of(route.kind)
                && (match route.template {
                    Some(t) => delivery_template_of(w@) == Some(t@),
                    None => delivery_template_of(w@) is None,
                }),
            Err(e) => e is InvalidRequest && (workflow_id matches Some(w) ==> delivery_kind_of(w@) is None),
        },
{
    let w = match workflow_id {
        Some(w) => w,
        None => { return Err(invalid("delivery workflow id is required")); },
    };
    let kind = if str_eq(w, "export_profile") {
        DeliveryKind::ExportProfile
    } else if str_eq(w, "project_handoff") {
        DeliveryKind::ProjectHandoff
    } else if str_eq(w, "promo_pack") || str_eq(w, "key_visual_bundle") || str_eq(w, "portfolio_delivery") {
        DeliveryKind::PackagedDelivery
    } else {
        return Err(invalid("unsupported local delivery workflow"));
    };
    let template = if str_eq(w, "promo_pack") {
        Some(String::from_str("anime_game_promo_pack"))
    } else if str_eq(w, "key_visual_bundle") {
        Some(String::from_str("key_visual_cover_thumbnail_bundle"))
    } else if str_eq(w, "portfolio_delivery") {
        Some(String::from_str("editable_portfolio_delivery"))
    } else {
        None
    };
    let (role, artifact_kind) = match kind {
        DeliveryKind::ExportProfile => (String::from_str("creative_export_manifest"), String::from_str("creative_export_profile")),
        DeliveryKind::ProjectHandoff => (String::from_str("creative_project_handoff"), String::from_str("creative_project_handoff")),
        DeliveryKind::PackagedDelivery => (String::from_str("creative_delivery_template"), String::from_str("creative_packaged_delivery")),
    };
    Ok(DeliveryRoute { kind, role, artifact_kind, template })
}

/// A required text parameter of a delivery: present, 1 to 4096 bytes, no control
/// characters.
pub open spec fn delivery_text_ok(value: Option<&str>) -> bool {
    value matches Some(v) && 1 <= v.len() <= 4096 && !has_control(v@)
}

/// Checks a required text parameter of a delivery.
pub fn required_delivery_text(value: Option<&str>) -> (r: Result<(), McpError>)
    ensures
        r is Ok <==> delivery_text_ok(value),
        r matches Err(e) ==> invalid_with(e, if value is None {
            "delivery parameter is required"@
        } else {
            "delivery parameter"@ + " exceeds allowed bounds"@
        }),
{
    match value {
        Some(v) => validate_text(v, 1, 4096, "delivery parameter"),
        None => Err(invalid("delivery parameter is required")),
    }
}

/// A list item that is a string holding a valid identifier.
pub open spec fn id_item_ok(item: Option<String>) -> bool {
    item matches Some(s) && is_valid_id(s@)
}

/// The asset identities of a delivery, between `min` and `max` of them, each a string
/// (`None` stands for an item of another JSON type) that is a valid identifier.
pub open spec fn delivery_ids_ok(values: Seq<Option<String>>, min: int, max: int) -> bool {
    &&& min <= values.len() <= max
    &&& forall|i: int| 0 <= i < values.len() ==> id_item_ok(#[trigger] values[i])
}

/// The asset identities of a delivery request, in the order given.
pub fn delivery_asset_ids(values: Option<&Vec<Option<String>>>, min: usize, max: usize) -> (r: Result<Vec<String>, McpError>)
    ensures
        match r {
            Ok(ids) => values matches Some(v) && delivery_ids_ok(v@, min as int, max as int)
                && ids@.len() == v@.len()
                && forall|i: int| 0 <= i < ids@.len() ==> Some(#[trigger] ids@[i]) == v@[i],
            Err(e) => e is InvalidRequest
                && (values matches Some(v) ==> !delivery_ids_ok(v@, min as int, max as int)),
        },
{
    let v = match values {
        Some(v) => v,
        None => { return Err(invalid("asset_ids is required")); },
    };
    if v.len() < min || v.len() > max {
        return Err(invalid("asset_ids count is outside allowed bounds"));
    }
    let mut ids: Vec<String> = Vec::new();
    let mut i: usize = 0;
    while i < v.len()
        invariant
            i <= v.len(),
            min <= v.len() <= max,
            values == Some(v),
            ids@.len() == i,
            forall|k: int| 0 <= k < i ==> Some(#[trigger] ids@[k]) == v@[k],
            forall|k: int| 0 <= k < i ==> id_item_ok(#[trigger] v@[k]),
        decreases v.len() - i,
    {
        let id = match &v[i] {
            Some(s) => s,
            None => { return Err(invalid("asset_ids is invalid")); },
        };
        if validate_id(id.as_str(), "asset_ids").is_err() {
            return Err(invalid("asset_ids is invalid"));
        }
        ids.push(id.clone());
        i += 1;
    }
    Ok(ids)
}

/// `s` holds `..` somewhere.
pub open spec fn has_double_dot(s: Seq<char>) -> bool {
    exists|i: int| 0 <= i && i + 1 < s.len() && #[trigger] s[i] == '.' && s[i + 1] == '.'
}

/// The file name of an export profile is a bounded leaf: no `/`, `\` or `..` in it.
pub open spec fn export_file_name_ok(name: Seq<char>) -> bool {
    !name.contains('/') && !name.contains('\\') && !has_double_dot(name)
}

/// Checks the file name of an export profile.
pub fn validate_export_file_name(name: &str) -> (r: Result<(), McpError>)
    ensures
        r is Ok <==> export_file_name_ok(name@),
        r matches Err(e) ==> invalid_with(e, "export profile file_name must be a bounded leaf name"@),
{
    let v = char_vec(name);
    let mut i: usize = 0;
    while i < v.len()
        invariant
            i <= v.len(),
            v@ == name@,
            forall|k: int| 0 <= k < i ==> (#[trigger] v@[k]) != '/' && v@[k] != '\\',
            forall|k: int| 0 <= k && k + 1 < v@.len() && k < i ==> !(#[trigger] v@[k] == '.' && v@[k + 1] == '.'),
        decreases v.len() - i,
    {
        if v[i] == '/' || v[i] == '\\' || (v[i] == '.' && i + 1 < v.len() && v[i + 1] == '.') {
            return Err(invalid("export profile file_name must be a bounded leaf name"));
        }
        i += 1;
    }
    proof {
        assert(!name@.contains('/') && !name@.contains('\\')) by {
            if name@.contains('/') {
                let k = choose|k: int| 0 <= k < name@.len() && name@[k] == '/';
                assert(v@[k] != '/');
            }
            if name@.contains('\\') {
                let k = choose|k: int| 0 <= k < name@.len() && name@[k] == '\\';
                assert(v@[k] != '\\');
            }
        }
    }
    Ok(())
}

/// The asset named `id` is in the project and accepted.
pub open spec fn deliverable(assets: Seq<AssetEntry>, id: Seq<char>) -> bool {
    asset_index(assets, id) matches Some(a) && assets[a].state == AssetState::Accepted
}

/// The positions of the assets that a delivery packages, one for each identity; every
/// one must be known and accepted. `export` picks the wording of the refusal.
pub fn accepted_delivery_assets(assets: &Vec<AssetEntry>, ids: &Vec<String>, export: bool) -> (r: Result<Vec<usize>, McpError>)
    ensures
        match r {
            Ok(ix) => ix@.len() == ids@.len()
                && forall|i: int| 0 <= i < ix@.len() ==> asset_index(assets@, ids@[i]@) == Some((#[trigger] ix@[i]) as int),
            Err(e) => e is InvalidRequest,
        },
        r is Ok <==> forall|i: int| 0 <= i < ids@.len() ==> deliverable(assets@, (#[trigger] ids@[i])@),
{
    let mut ix: Vec<usize> = Vec::new();
    let mut i: usize = 0;
    while i < ids.len()
        invariant
            i <= ids.len(),
            ix@.len() == i,
            forall|k: int| 0 <= k < i ==> asset_index(assets@, ids@[k]@) == Some((#[trigger] ix@[k]) as int),
            forall|k: int| 0 <= k < i ==> deliverable(assets@, (#[trigger] ids@[k])@),
        decreases ids.len() - i,
    {
        let a = match find_asset(assets, ids[i].as_str()) {
            Some(a) => a,
            None => {
                proof { assert(!deliverable(assets@, ids@[i as int]@)); }
                return Err(invalid(if export { "export references an unknown Asset" } else { "delivery template references an unknown Asset" }));
            },
        };
        if assets[a].state != AssetState::Accepted {
            proof { assert(!deliverable(assets@, ids@[i as int]@)); }
            return Err(invalid(if export { "final export profiles require accepted Assets" } else { "delivery templates require accepted Assets" }));
        }
        ix.push(a);
        i += 1;
    }
    Ok(ix)
}

/// A positive integer as `{:03}` formats it.
pub open spec fn padded3(n: nat) -> Seq<char> {
    zeros(3 - decimal(n).len()) + decimal(n)
}

fn uint_to_padded3(n: u64) -> (s: String)
    ensures
        s@ == padded3(n as nat),
{
    let digits = uint_to_text(n);
    let dlen = char_vec(digits.as_str()).len();
    let target: usize = if dlen >= 3 { 0 } else { 3 - dlen };
    let mut s = String::new();
    let mut k: usize = 0;
    while k < target
        invariant
            k <= target,
            s@ == zeros(k as int),
        decreases target - k,
    {
        push_char(&mut s, '0');
        k += 1;
    }
    proof {
        lemma_zeros_len(target as int);
        lemma_zeros_len(3 - decimal(n as nat).len());
        assert(zeros(target as int) =~= zeros(3 - decimal(n as nat).len()));
    }
    s.append(digits.as_str());
    s
}

/// The leaf name under which an export writes the asset at position `index` of
/// `count`: the requested file name for a single asset; otherwise the position from 1,
/// three digits wide, an underscore and the leaf of the asset's own path.
pub open spec fn export_leaf_of(index: int, count: int, requested: Seq<char>, relative_path: Seq<char>) -> Option<Seq<char>> {
    if count == 1 {
        Some(requested)
    } else {
        match file_name_of(relative_path) {
            Some(l) => Some(padded3((index + 1) as nat) + "_"@ + l),
            None => None,
        }
    }
}

/// The leaf name of an exported asset; an asset path without a leaf is refused.
pub fn export_leaf(index: usize, count: usize, requested: &str, relative_path: &str) -> (r: Result<String, McpError>)
    requires
        index < count,
    ensures
        match r {
            Ok(l) => export_leaf_of(index as int, count as int, requested@, relative_path@) == Some(l@),
            Err(e) => e is InvalidRequest && export_leaf_of(index as int, count as int, requested@, relative_path@) is None,
        },
{
    if count == 1 {
        return Ok(requested.to_owned());
    }
    let leaf = match file_name(relative_path) {
        Some(l) => l,
        None => { return Err(invalid("export Asset path has no valid leaf name")); },
    };
    let position: u64 = (index + 1) as u64;
    let mut out = uint_to_padded3(position);
    out.append("_");
    out.append(leaf.as_str());
    Ok(out)
}

/// Where an export writes one of its files.
pub fn export_output_path(project_id: &str, job_id: &str, leaf: &str) -> (p: String)
    ensures
        p@ == "creative/"@ + project_id@ + "/exports/"@ + job_id@ + "/files/"@ + leaf@,
{
    let mut p = String::from_str("creative/");
    p.append(project_id);
    p.append("/exports/");
    p.append(job_id);
    p.append("/files/");
    p.append(leaf);
    p
}

/// Where a delivery job writes its manifest.
pub fn delivery_manifest_path(project_id: &str, workflow_id: &str, job_id: &str) -> (p: String)
    ensures
        p@ == "creative/"@ + project_id@ + "/exports/"@ + workflow_id@ + "_"@ + job_id@ + ".json"@,
{
    let mut p = String::from_str("creative/");
    p.append(project_id);
    p.append("/exports/");
    p.append(workflow_id);
    p.append("_");
    p.append(job_id);
    p.append(".json");
    p
}

/// A delivery whose manifest passes the job's output budget fails with
/// `output_hard_limit_exceeded` and keeps no output.
pub fn fail_delivery_oversized(job: &mut CreativeJobRecord, output_bytes: u64, now: u128)
    ensures
        final(job).status == CreativeJobStatus::Failed,
        final(job).failure_code matches Some(c) && c@ == "output_hard_limit_exceeded"@,
        final(job).actual_output_bytes == Some(output_bytes),
        final(job).updated_at_ms == now,
        final(job).output_asset_ids == old(job).output_asset_ids,
        final(job).node_runs == old(job).node_runs,
        final(job).job_id == old(job).job_id,
        final(job).owner == old(job).owner,
        *final(job) == (CreativeJobRecord {
            status: CreativeJobStatus::Failed,
            failure_code: final(job).failure_code,
            actual_output_bytes: Some(output_bytes),
            updated_at_ms: now,
            ..*old(job)
        }),
{
    job.status = CreativeJobStatus::Failed;
    job.failure_code = Some(String::from_str("output_hard_limit_exceeded"));
    job.actual_output_bytes = Some(output_bytes);
    job.updated_at_ms = now;
}

/// The positions of the accepted assets, in order.
pub open spec fn accepted_positions(assets: Seq<AssetEntry>) -> Seq<int>
    decreases assets.len(),
{
    if assets.len() == 0 {
        seq![]
    } else {
        let p = accepted_positions(assets.drop_last());
        if assets.last().state == AssetState::Accepted { p.push(assets.len() - 1) } else { p }
    }
}

/// The positions of the accepted assets of a project, which a handoff lists.
pub fn accepted_asset_positions(assets: &Vec<AssetEntry>) -> (r: Vec<usize>)
    ensures
        r@.map_values(|i: usize| i as int) == accepted_positions(assets@),
{
    let mut r: Vec<usize> = Vec::new();
    let mut i: usize = 0;
    while i < assets.len()
        invariant
            i <= assets.len(),
            r@.map_values(|k: usize| k as int) == accepted_positions(assets@.subrange(0, i as int)),
        decreases assets.len() - i,
    {
        proof {
            assert(assets@.subrange(0, i as int + 1).drop_last() =~= assets@.subrange(0, i as int));
        }
        if assets[i].state == AssetState::Accepted {
            r.push(i);
        }
        proof {
            assert(r@.map_values(|k: usize| k as int) =~= accepted_positions(assets@.subrange(0, i as int + 1)));
        }
        i += 1;
    }
    proof {
        assert(assets@.subrange(0, assets@.len() as int) =~= assets@);
    }
    r
}

/// How many findings have severity `s`.
pub open spec fn severity_count(findings: Seq<QaFindingEntry>, s: QaSeverity) -> nat
    decreases findings.len(),
{
    if findings.len() == 0 {
        0
    } else {
        severity_count(findings.drop_last(), s) + if findings.last().severity == s { 1nat } else { 0nat }
    }
}

/// The key under which a handoff counts a severity: its name in lower case.
pub open spec fn severity_key(s: QaSeverity) -> Seq<char> {
    match s {
        QaSeverity::HardFail => "hardfail"@,
        QaSeverity::NotInspected => "notinspected"@,
        QaSeverity::SoftFinding => "softfinding"@,
    }
}

pub open spec fn summary_entry(findings: Seq<QaFindingEntry>, s: QaSeverity) -> Seq<(Seq<char>, nat)> {
    if severity_count(findings, s) > 0 { seq![(severity_key(s), severity_count(findings, s))] } else { seq![] }
}

/// The QA summary of a handoff: for each severity that occurs, its key and the number of
/// findings with it, in the order of the keys.
pub open spec fn qa_summary_of(findings: Seq<QaFindingEntry>) -> Seq<(Seq<char>, nat)> {
    summary_entry(findings, QaSeverity::HardFail) + summary_entry(findings, QaSeverity::NotInspected)
        + summary_entry(findings, QaSeverity::SoftFinding)
}

/// Counts the findings of a project by severity.
pub fn qa_summary(findings: &Vec<QaFindingEntry>) -> (r: Vec<(String, usize)>)
    ensures
        r@.map_values(|e: (String, usize)| (e.0@, e.1 as nat)) == qa_summary_of(findings@),
{
    let mut hard: usize = 0;
    let mut soft: usize = 0;
    let mut open: usize = 0;
    let mut i: usize = 0;
    while i < findings.len()
        invariant
            i <= findings.len(),
            hard as nat == severity_count(findings@.subrange(0, i as int), QaSeverity::HardFail),
            soft as nat == severity_count(findings@.subrange(0, i as int), QaSeverity::SoftFinding),
            open as nat == severity_count(findings@.subrange(0, i as int), QaSeverity::NotInspected),
            hard + soft + open <= i,
        decreases findings.len() - i,
    {
        proof {
            assert(findings@.subrange(0, i as int + 1).drop_last() =~= findings@.subrange(0, i as int));
        }
        match findings[i].severity {
            QaSeverity::HardFail => { hard += 1; },
            QaSeverity::SoftFinding => { soft += 1; },
            QaSeverity::NotInspected => { open += 1; },
        }
        i += 1;
    }
    proof {
        assert(findings@.subrange(0, findings@.len() as int) =~= findings@);
    }
    let mut r: Vec<(String, usize)> = Vec::new();
    if hard > 0 {
        r.push((String::from_str("hardfail"), hard));
    }
    if open > 0 {
        r.push((String::from_str("notinspected"), open));
    }
    if soft > 0 {
        r.push((String::from_str("softfinding"), soft));
    }
    proof {
        assert(r@.map_values(|e: (String, usize)| (e.0@, e.1 as nat)) =~= qa_summary_of(findings@));
    }
    r
}

} // verus!
