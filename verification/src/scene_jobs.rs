use vstd::prelude::*;
use crate::assets::{asset_index, find_asset, AssetEntry};
use crate::contracts::QaSeverity;
use crate::error::{invalid, McpError};
use crate::outside::{is_lower_hex, random_simple_uuid};
use crate::project::QaFindingEntry;
use crate::text::str_eq;

verus! {

/// The scene workflows that the local runtime carries out.
#[derive(Clone, Copy, Debug, PartialEq, Eq, Structural)]
pub enum SceneWorkflow {
    ContinuityReview,
    VisualQa,
    TemporalQa,
    ScopedRevision,
}

pub open spec fn scene_workflow_of(w: Seq<char>) -> Option<SceneWorkflow> {
    if w == "scene_continuity_review"@ {
        Some(SceneWorkflow::ContinuityReview)
    } else if w == "visual_qa_evidence"@ {
        Some(SceneWorkflow::VisualQa)
    } else if w == "temporal_qa_evidence"@ {
        Some(SceneWorkflow::TemporalQa)
    } else if w == "scoped_revision"@ {
        Some(SceneWorkflow::ScopedRevision)
    } else {
        None
    }
}

/// The scene workflow of a job; a job without a workflow, or with one that the local
/// runtime does not carry out, is refused.
pub fn scene_workflow(workflow_id: Option<&str>) -> (r: Result<SceneWorkflow, McpError>)
    ensures
        match r {
            Ok(w) => workflow_id matches Some(id) && scene_workflow_of(id@) == Some(w),
            Err(e) => e is InvalidRequest && (workflow_id matches Some(id) ==> scene_workflow_of(id@) is None),
        },
{
    let id = match workflow_id {
        Some(id) => id,
        None => { return Err(invalid("scene workflow id is required")); },
    };
    if str_eq(id, "scene_continuity_review") {
        Ok(SceneWorkflow::ContinuityReview)
    } else if str_eq(id, "visual_qa_evidence") {
        Ok(SceneWorkflow::VisualQa)
    } else if str_eq(id, "temporal_qa_evidence") {
        Ok(SceneWorkflow::TemporalQa)
    } else if str_eq(id, "scoped_revision") {
        Ok(SceneWorkflow::ScopedRevision)
    } else {
        Err(invalid("unsupported local scene workflow"))
    }
}

/// How a scene workflow files its receipt: the folder under `qa/`, the role (also the
/// artifact kind) of the registered asset, the schema of the receipt, and the domain of
/// the QA finding it records, where it records one.
pub struct ReceiptLabels {
    pub folder: String,
    pub role: String,
    pub schema: String,
    pub finding_domain: Option<String>,
}

pub open spec fn receipt_folder(w: SceneWorkflow) -> Seq<char> {
    match w {
        SceneWorkflow::ContinuityReview => "continuity"@,
        SceneWorkflow::VisualQa => "visual_qa"@,
        SceneWorkflow::TemporalQa => "temporal_qa"@,
        SceneWorkflow::ScopedRevision => "revisions"@,
    }
}

pub open spec fn receipt_role(w: SceneWorkflow) -> Seq<char> {
    match w {
        SceneWorkflow::ContinuityReview => "scene_continuity_evidence"@,
        SceneWorkflow::VisualQa => "visual_qa"@,
        SceneWorkflow::TemporalQa => "temporal_qa"@,
        SceneWorkflow::ScopedRevision => "scoped_revision_receipt"@,
    }
}

pub open spec fn receipt_schema(w: SceneWorkflow) -> Seq<char> {
    match w {
        SceneWorkflow::ContinuityReview => "scene-continuity-evidence-v1"@,
        SceneWorkflow::VisualQa => "visual-qa-evidence-v1"@,
        SceneWorkflow::TemporalQa => "temporal-qa-evidence-v1"@,
        SceneWorkflow::ScopedRevision => "scoped-revision-v1"@,
    }
}

pub open spec fn finding_domain(w: SceneWorkflow) -> Option<Seq<char>> {
    match w {
        SceneWorkflow::ContinuityReview => Some("scene_continuity"@),
        SceneWorkflow::VisualQa => Some("visual_qa"@),
        SceneWorkflow::TemporalQa => Some("temporal_qa"@),
        SceneWorkflow::ScopedRevision => None,
    }
}

/// The labels of a scene workflow's receipt.
pub fn receipt_labels(w: SceneWorkflow) -> (r: ReceiptLabels)
    ensures
        r.folder@ == receipt_folder(w),
        r.role@ == receipt_role(w),
        r.schema@ == receipt_schema(w),
        match r.finding_domain {
            Some(d) => finding_domain(w) == Some(d@),
            None => finding_domain(w) is None,
        },
{
    match w {
        SceneWorkflow::ContinuityReview => ReceiptLabels {
            folder: String::from_str("continuity"),
            role: String::from_str("scene_continuity_evidence"),
            schema: String::from_str("scene-continuity-evidence-v1"),
            finding_domain: Some(String::from_str("scene_continuity")),
        },
        SceneWorkflow::VisualQa => ReceiptLabels {
            folder: String::from_str("visual_qa"),
            role: String::from_str("visual_qa"),
            schema: String::from_str("visual-qa-evidence-v1"),
            finding_domain: Some(String::from_str("visual_qa")),
        },
        SceneWorkflow::TemporalQa => ReceiptLabels {
            folder: String::from_str("temporal_qa"),
            role: String::from_str("temporal_qa"),
            schema: String::from_str("temporal-qa-evidence-v1"),
            finding_domain: Some(String::from_str("temporal_qa")),
        },
        SceneWorkflow::ScopedRevision => ReceiptLabels {
            folder: String::from_str("revisions"),
            role: String::from_str("scoped_revision_receipt"),
            schema: String::from_str("scoped-revision-v1"),
            finding_domain: None,
        },
    }
}

/// What a QA receipt says of semantic inspection: an evaluator was asked for, or none
/// was and the subject stays not inspected.
pub fn semantic_inspection(evaluator_requested: bool) -> (r: String)
    ensures
        r@ == (if evaluator_requested { "evaluator_requested"@ } else { "not_inspected"@ }),
{
    if evaluator_requested { String::from_str("evaluator_requested") } else { String::from_str("not_inspected") }
}

/// Where a scene workflow writes its receipt.
pub fn receipt_path(project_id: &str, folder: &str, job_id: &str) -> (p: String)
    ensures
        p@ == "creative/"@ + project_id@ + "/qa/"@ + folder@ + "/"@ + job_id@ + ".json"@,
{
    let mut p = String::from_str("creative/");
    p.append(project_id);
    p.append("/qa/");
    p.append(folder);
    p.append("/");
    p.append(job_id);
    p.append(".json");
    p
}

/// The message of the finding that a scene workflow records with its receipt.
pub open spec fn evidence_message(w: SceneWorkflow) -> Seq<char> {
    if w == SceneWorkflow::ContinuityReview {
        "Deterministic continuity evidence generated; visual continuity remains not inspected."@
    } else {
        "Deterministic QA evidence generated; semantic judgment requires explicit review/evaluator."@
    }
}

/// The finding that records a scene workflow's receipt: not inspected, under a fresh
/// identifier `qa_` followed by 32 lowercase hexadecimal digits.
pub fn evidence_finding(
    w: SceneWorkflow,
    domain: String,
    subject_id: String,
    source_revision_id: Option<String>,
    asset_id: String,
    evaluator_binding_id: Option<String>,
    evidence: String,
    now: u128,
) -> (f: QaFindingEntry)
    ensures
        f.finding_id@.len() == 35,
        f.finding_id@.take(3) == "qa_"@,
        is_lower_hex(f.finding_id@.skip(3)),
        f.domain == domain,
        f.severity == QaSeverity::NotInspected,
        f.subject_id == subject_id,
        f.message@ == evidence_message(w),
        f.source_revision_id == source_revision_id,
        f.asset_id == Some(asset_id),
        f.evaluator_binding_id == evaluator_binding_id,
        f.evidence == evidence,
        f.created_at_ms == now,
{
    let u = random_simple_uuid();
    let mut id = String::from_str("qa_");
    id.append(u.as_str());
    proof {
        reveal_strlit("qa_");
        assert(id@.take(3) =~= "qa_"@);
        assert(id@.skip(3) =~= u@);
    }
    let message = if w == SceneWorkflow::ContinuityReview {
        String::from_str("Deterministic continuity evidence generated; visual continuity remains not inspected.")
    } else {
        String::from_str("Deterministic QA evidence generated; semantic judgment requires explicit review/evaluator.")
    };
    QaFindingEntry {
        finding_id: id,
        domain,
        severity: QaSeverity::NotInspected,
        subject_id,
        message,
        source_revision_id,
        asset_id: Some(asset_id),
        evaluator_binding_id,
        evidence,
        created_at_ms: now,
    }
}

/// The parameters of a scoped revision: its parent asset, which must be in the project,
/// and the scope it changes; the position of the parent.
pub fn check_scoped_revision(assets: &Vec<AssetEntry>, parent_asset_id: Option<&str>, changed_scope: Option<&str>) -> (r: Result<usize, McpError>)
    ensures
        match r {
            Ok(a) => parent_asset_id matches Some(p) && changed_scope is Some
                && asset_index(assets@, p@) == Some(a as int),
            Err(e) => e is InvalidRequest && (parent_asset_id is Some && changed_scope is Some
                ==> asset_index(assets@, parent_asset_id->0@) is None),
        },
{
    let parent = match parent_asset_id {
        Some(p) => p,
        None => { return Err(invalid("creative parent_asset_id is required")); },
    };
    if changed_scope.is_none() {
        return Err(invalid("creative changed_scope is required"));
    }
    match find_asset(assets, parent) {
        Some(a) => Ok(a),
        None => Err(invalid("scoped revision parent Asset is unknown")),
    }
}

} // verus!
