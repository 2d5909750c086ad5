use vstd::prelude::*;
use crate::error::{invalid, internal, McpError};
use crate::contracts::QaSeverity;
use crate::text::{has_view, contains_str, str_eq, seq_starts_with};
use crate::order::{lex_lt, str_lt, lemma_lex_transitive, lemma_lex_irreflexive, lemma_lex_total, lemma_lex_asymmetric};
use crate::assets::AssetEntry;
use crate::project::{QaFindingEntry, MAX_QA_FINDINGS};
use crate::outside::{json_string, json_string_text};

verus! {

/// The style and shots of a scene.
pub struct SceneShots {
    pub style_element_id: Option<String>,
    pub shot_ids: Vec<String>,
}

/// What a review finding is about.
#[derive(Clone, Copy, Debug, PartialEq, Eq, Structural)]
pub enum SubjectKind {
    Asset,
    Shot,
}

/// Something that depends on a style and is to be reviewed.
pub struct ReviewSubject {
    pub subject_id: String,
    pub kind: SubjectKind,
}

/// `(id, kind)` depends on the style: an asset that lists it among its dependencies,
/// or a shot of a scene styled by it.
pub open spec fn depends_on_style(assets: Seq<AssetEntry>, scenes: Seq<SceneShots>, style: Seq<char>, id: Seq<char>, kind: SubjectKind) -> bool {
    match kind {
        SubjectKind::Asset => exists|i: int| 0 <= i < assets.len() && (#[trigger] assets[i]).asset_id@ == id
            && has_view(assets[i].dependency_element_ids@, style),
        SubjectKind::Shot => exists|s: int, j: int| 0 <= s < scenes.len() && 0 <= j < scenes[s].shot_ids@.len()
            && (scenes[s].style_element_id matches Some(x) && x@ == style) && (#[trigger] scenes[s].shot_ids@[j])@ == id,
    }
}

/// Subjects in order of identity, an asset before a shot of the same identity.
pub open spec fn subject_lt(a: ReviewSubject, b: ReviewSubject) -> bool {
    lex_lt(a.subject_id@, b.subject_id@)
        || (a.subject_id@ == b.subject_id@ && a.kind == SubjectKind::Asset && b.kind == SubjectKind::Shot)
}

pub open spec fn subjects_sorted(s: Seq<ReviewSubject>) -> bool {
    forall|i: int, j: int| 0 <= i < j < s.len() ==> subject_lt(#[trigger] s[i], #[trigger] s[j])
}

pub open spec fn lists_subject(s: Seq<ReviewSubject>, id: Seq<char>, kind: SubjectKind) -> bool {
    exists|k: int| 0 <= k < s.len() && (#[trigger] s[k]).subject_id@ == id && s[k].kind == kind
}

proof fn lemma_subject_trans(a: ReviewSubject, b: ReviewSubject, c: ReviewSubject)
    requires
        subject_lt(a, b),
        subject_lt(b, c),
    ensures
        subject_lt(a, c),
{
    if lex_lt(a.subject_id@, b.subject_id@) && lex_lt(b.subject_id@, c.subject_id@) {
        lemma_lex_transitive(a.subject_id@, b.subject_id@, c.subject_id@);
    } else if lex_lt(a.subject_id@, b.subject_id@) {
    } else if lex_lt(b.subject_id@, c.subject_id@) {
    } else {
    }
}

proof fn lemma_subject_total(a: ReviewSubject, b: ReviewSubject)
    ensures
        subject_lt(a, b) || subject_lt(b, a) || (a.subject_id@ == b.subject_id@ && a.kind == b.kind),
{
    lemma_lex_total(a.subject_id@, b.subject_id@);
}

/// Adds a subject to a sorted list unless it is there already.
fn insert_subject(out: &mut Vec<ReviewSubject>, id: &str, kind: SubjectKind)
    requires
        subjects_sorted(old(out)@),
    ensures
        subjects_sorted(final(out)@),
        forall|x: Seq<char>, k: SubjectKind| lists_subject(final(out)@, x, k) <==> (lists_subject(old(out)@, x, k) || (x == id@ && k == kind)),
{
    let ghost before = out@;
    let mut j: usize = 0;
    while j < out.len() && subject_before_item(&out[j], id, kind)
        invariant
            j <= out@.len(),
            out@ == before,
            subjects_sorted(out@),
            forall|q: int| 0 <= q < j ==> lex_lt((#[trigger] out@[q]).subject_id@, id@)
                || (out@[q].subject_id@ == id@ && out@[q].kind == SubjectKind::Asset && kind == SubjectKind::Shot),
        decreases out@.len() - j,
    {
        j += 1;
    }
    if j < out.len() && str_eq(out[j].subject_id.as_str(), id) && out[j].kind == kind {
        proof {
            assert forall|x: Seq<char>, k: SubjectKind| lists_subject(out@, x, k) <==> (lists_subject(before, x, k) || (x == id@ && k == kind)) by {
                if x == id@ && k == kind {
                    assert(out@[j as int].subject_id@ == x && out@[j as int].kind == k);
                }
            }
        }
        return;
    }
    let item = ReviewSubject { subject_id: id.to_owned(), kind };
    proof {
        // everything from j on comes after the new subject
        assert forall|q: int| j <= q < before.len() implies subject_lt(item, #[trigger] before[q]) by {
            let b = before[q];
            lemma_subject_total(item, b);
            if subject_lt(b, item) {
                if q == j {
                } else {
                    assert(subject_lt(before[j as int], b));
                    lemma_subject_trans(before[j as int], b, item);
                }
            }
            if b.subject_id@ == item.subject_id@ && b.kind == item.kind {
                if q > j {
                    assert(subject_lt(before[j as int], b));
                }
            }
        }
    }
    out.insert(j, item);
    proof {
        assert(out@ =~= before.insert(j as int, item));
        assert forall|a: int, b: int| 0 <= a < b < out@.len() implies subject_lt(#[trigger] out@[a], #[trigger] out@[b]) by {
            if b < j {
                assert(out@[a] == before[a] && out@[b] == before[b]);
            } else if b == j {
                assert(out@[a] == before[a]);
            } else if a < j {
                assert(out@[a] == before[a] && out@[b] == before[b - 1]);
                assert(subject_lt(before[a], item));
                lemma_subject_trans(before[a], item, before[b - 1]);
            } else if a == j {
                assert(out@[b] == before[b - 1]);
            } else {
                assert(out@[a] == before[a - 1] && out@[b] == before[b - 1]);
            }
        }
        assert forall|x: Seq<char>, k: SubjectKind| lists_subject(out@, x, k) <==> (lists_subject(before, x, k) || (x == id@ && k == kind)) by {
            if lists_subject(out@, x, k) {
                let q = choose|q: int| 0 <= q < out@.len() && (#[trigger] out@[q]).subject_id@ == x && out@[q].kind == k;
                if q < j {
                    assert(out@[q] == before[q]);
                } else if q > j {
                    assert(out@[q] == before[q - 1]);
                }
            }
            if lists_subject(before, x, k) {
                let q = choose|q: int| 0 <= q < before.len() && (#[trigger] before[q]).subject_id@ == x && before[q].kind == k;
                if q < j {
                    assert(out@[q] == before[q]);
                } else {
                    assert(out@[q + 1] == before[q]);
                }
            }
            if x == id@ && k == kind {
                assert(out@[j as int] == item);
            }
        }
    }
}

fn subject_before_item(b: &ReviewSubject, id: &str, kind: SubjectKind) -> (r: bool)
    ensures
        r == (lex_lt(b.subject_id@, id@) || (b.subject_id@ == id@ && b.kind == SubjectKind::Asset && kind == SubjectKind::Shot)),
{
    str_lt(b.subject_id.as_str(), id) || (str_eq(b.subject_id.as_str(), id) && b.kind == SubjectKind::Asset && kind == SubjectKind::Shot)
}

} // verus!

verus! {

/// The subjects that depend on a style, in order, each once.
#[verifier::loop_isolation(false)]
pub fn style_dependents(assets: &Vec<AssetEntry>, scenes: &Vec<SceneShots>, style_element_id: &str) -> (out: Vec<ReviewSubject>)
    ensures
        subjects_sorted(out@),
        forall|x: Seq<char>, k: SubjectKind| lists_subject(out@, x, k) <==> depends_on_style(assets@, scenes@, style_element_id@, x, k),
{
    let mut out: Vec<ReviewSubject> = Vec::new();
    let mut i: usize = 0;
    while i < assets.len()
        invariant
            i <= assets.len(),
            subjects_sorted(out@),
            forall|x: Seq<char>, k: SubjectKind| lists_subject(out@, x, k) <==> (k == SubjectKind::Asset
                && exists|q: int| 0 <= q < i && (#[trigger] assets@[q]).asset_id@ == x
                    && has_view(assets@[q].dependency_element_ids@, style_element_id@)),
        decreases assets.len() - i,
    {
        let ghost before = out@;
        if contains_str(&assets[i].dependency_element_ids, style_element_id) {
            insert_subject(&mut out, assets[i].asset_id.as_str(), SubjectKind::Asset);
        }
        proof {
            assert forall|x: Seq<char>, k: SubjectKind| lists_subject(out@, x, k) <==> (k == SubjectKind::Asset
                && exists|q: int| 0 <= q < i + 1 && (#[trigger] assets@[q]).asset_id@ == x
                    && has_view(assets@[q].dependency_element_ids@, style_element_id@)) by {
                if k == SubjectKind::Asset && assets@[i as int].asset_id@ == x && has_view(assets@[i as int].dependency_element_ids@, style_element_id@) {
                    assert(lists_subject(out@, x, k));
                }
            }
        }
        i += 1;
    }
    let mut s: usize = 0;
    while s < scenes.len()
        invariant
            s <= scenes.len(),
            subjects_sorted(out@),
            forall|x: Seq<char>, k: SubjectKind| lists_subject(out@, x, k) <==> (
                (k == SubjectKind::Asset && depends_on_style(assets@, scenes@, style_element_id@, x, k))
                || (k == SubjectKind::Shot && exists|q: int, j: int| 0 <= q < s && 0 <= j < scenes@[q].shot_ids@.len()
                    && (scenes@[q].style_element_id matches Some(y) && y@ == style_element_id@)
                    && (#[trigger] scenes@[q].shot_ids@[j])@ == x)),
        decreases scenes.len() - s,
    {
        let styled = match &scenes[s].style_element_id {
            Some(y) => str_eq(y.as_str(), style_element_id),
            None => false,
        };
        if styled {
            let mut j: usize = 0;
            while j < scenes[s].shot_ids.len()
                invariant
                    s < scenes.len(),
                    j <= scenes@[s as int].shot_ids@.len(),
                    styled,
                    subjects_sorted(out@),
                    forall|x: Seq<char>, k: SubjectKind| lists_subject(out@, x, k) <==> (
                        (k == SubjectKind::Asset && depends_on_style(assets@, scenes@, style_element_id@, x, k))
                        || (k == SubjectKind::Shot && ((exists|q: int, jj: int| 0 <= q < s && 0 <= jj < scenes@[q].shot_ids@.len()
                            && (scenes@[q].style_element_id matches Some(y) && y@ == style_element_id@)
                            && (#[trigger] scenes@[q].shot_ids@[jj])@ == x)
                            || (exists|jj: int| 0 <= jj < j && (#[trigger] scenes@[s as int].shot_ids@[jj])@ == x)))),
                decreases scenes@[s as int].shot_ids@.len() - j,
            {
                insert_subject(&mut out, scenes[s].shot_ids[j].as_str(), SubjectKind::Shot);
                proof {
                    assert forall|x: Seq<char>, k: SubjectKind| lists_subject(out@, x, k) <==> (
                        (k == SubjectKind::Asset && depends_on_style(assets@, scenes@, style_element_id@, x, k))
                        || (k == SubjectKind::Shot && ((exists|q: int, jj: int| 0 <= q < s && 0 <= jj < scenes@[q].shot_ids@.len()
                            && (scenes@[q].style_element_id matches Some(y) && y@ == style_element_id@)
                            && (#[trigger] scenes@[q].shot_ids@[jj])@ == x)
                            || (exists|jj: int| 0 <= jj < j + 1 && (#[trigger] scenes@[s as int].shot_ids@[jj])@ == x)))) by {
                        if k == SubjectKind::Shot && scenes@[s as int].shot_ids@[j as int]@ == x {
                            assert(lists_subject(out@, x, k));
                        }
                    }
                }
                j += 1;
            }
        }
        proof {
            assert forall|x: Seq<char>, k: SubjectKind| lists_subject(out@, x, k) <==> (
                (k == SubjectKind::Asset && depends_on_style(assets@, scenes@, style_element_id@, x, k))
                || (k == SubjectKind::Shot && exists|q: int, j: int| 0 <= q < s + 1 && 0 <= j < scenes@[q].shot_ids@.len()
                    && (scenes@[q].style_element_id matches Some(y) && y@ == style_element_id@)
                    && (#[trigger] scenes@[q].shot_ids@[j])@ == x)) by {
                if k == SubjectKind::Shot && lists_subject(out@, x, k) && styled {
                    if exists|jj: int| 0 <= jj < scenes@[s as int].shot_ids@.len() && (#[trigger] scenes@[s as int].shot_ids@[jj])@ == x {
                        let jj = choose|jj: int| 0 <= jj < scenes@[s as int].shot_ids@.len() && (#[trigger] scenes@[s as int].shot_ids@[jj])@ == x;
                        assert(scenes@[s as int].shot_ids@[jj]@ == x);
                    }
                }
            }
        }
        s += 1;
    }
    proof {
        assert forall|x: Seq<char>, k: SubjectKind| lists_subject(out@, x, k) <==> depends_on_style(assets@, scenes@, style_element_id@, x, k) by {
            match k {
                SubjectKind::Asset => {},
                SubjectKind::Shot => {},
            }
        }
    }
    out
}

} // verus!

verus! {

pub open spec fn kind_text(k: SubjectKind) -> Seq<char> {
    match k { SubjectKind::Asset => "asset"@, SubjectKind::Shot => "shot"@ }
}

/// The finding that asks to review `subject` after the style's new revision.
pub open spec fn review_finding(f: QaFindingEntry, subject: ReviewSubject, style: Seq<char>, revision: Seq<char>, created_at_ms: u128) -> bool {
    &&& seq_starts_with(f.finding_id@, "qa_"@) && f.finding_id@.len() == 35
    &&& f.domain@ == "style_dependency"@
    &&& f.severity == QaSeverity::SoftFinding
    &&& f.subject_id@ == subject.subject_id@
    &&& f.message@ == kind_text(subject.kind) + " depends on Style Element "@ + style + "; review after promoted revision "@ + revision
    &&& f.source_revision_id matches Some(r) && r@ == revision
    &&& (if subject.kind == SubjectKind::Asset { f.asset_id matches Some(a) && a@ == subject.subject_id@ } else { f.asset_id is None })
    &&& f.evaluator_binding_id is None
    &&& f.evidence@ == "{\"style_element_id\":"@ + json_string_text(style) + ",\"style_revision_id\":"@ + json_string_text(revision)
        + ",\"subject_kind\":\""@ + kind_text(subject.kind) + "\"}"@
    &&& f.created_at_ms == created_at_ms
}

fn kind_str(k: SubjectKind) -> (s: &'static str)
    ensures
        s@ == kind_text(k),
{
    match k { SubjectKind::Asset => "asset", SubjectKind::Shot => "shot" }
}

/// Asks for a review of everything that depends on a style element after it promoted a
/// new revision: one finding per dependent asset or shot, in order of identity, if the
/// project has room for them. Returns how many findings were added.
pub fn mark_style_dependents_for_review(
    findings: &mut Vec<QaFindingEntry>,
    assets: &Vec<AssetEntry>,
    scenes: &Vec<SceneShots>,
    style_element_id: &str,
    style_revision_id: &str,
    created_at_ms: u128,
) -> (r: Result<usize, McpError>)
    ensures
        match r {
            Ok(n) => {
                &&& final(findings)@.len() == old(findings)@.len() + n
                &&& final(findings)@.take(old(findings)@.len() as int) == old(findings)@
                &&& old(findings)@.len() + n <= MAX_QA_FINDINGS
                &&& exists|subjects: Seq<ReviewSubject>| subjects.len() == n && subjects_sorted(subjects)
                    && (forall|x: Seq<char>, k: SubjectKind| lists_subject(subjects, x, k) <==> depends_on_style(assets@, scenes@, style_element_id@, x, k))
                    && forall|q: int| 0 <= q < n ==> review_finding(#[trigger] final(findings)@[old(findings)@.len() + q], subjects[q],
                        style_element_id@, style_revision_id@, created_at_ms)
            },
            Err(e) => {
                &&& final(findings)@ == old(findings)@
                &&& e is InvalidRequest
                &&& exists|subjects: Seq<ReviewSubject>| subjects_sorted(subjects)
                    && (forall|x: Seq<char>, k: SubjectKind| lists_subject(subjects, x, k) <==> depends_on_style(assets@, scenes@, style_element_id@, x, k))
                    && old(findings)@.len() + subjects.len() > MAX_QA_FINDINGS
            },
        },
{
    let subjects = style_dependents(assets, scenes, style_element_id);
    if findings.len() > MAX_QA_FINDINGS || MAX_QA_FINDINGS - findings.len() < subjects.len() {
        proof {
            assert(subjects_sorted(subjects@)
                && (forall|x: Seq<char>, k: SubjectKind| lists_subject(subjects@, x, k) <==> depends_on_style(assets@, scenes@, style_element_id@, x, k))
                && old(findings)@.len() + subjects@.len() > MAX_QA_FINDINGS);
        }
        return Err(invalid("style dependency review findings would exceed project capacity"));
    }
    let style_json = match json_string(style_element_id) {
        Some(j) => j,
        None => { return Err(internal("style dependency evidence could not be encoded")); },
    };
    let revision_json = match json_string(style_revision_id) {
        Some(j) => j,
        None => { return Err(internal("style dependency evidence could not be encoded")); },
    };
    let ghost before = findings@;
    let mut q: usize = 0;
    while q < subjects.len()
        invariant
            q <= subjects@.len(),
            findings@.len() == before.len() + q,
            findings@.take(before.len() as int) == before,
            style_json@ == json_string_text(style_element_id@),
            revision_json@ == json_string_text(style_revision_id@),
            forall|p: int| 0 <= p < q ==> review_finding(#[trigger] findings@[before.len() + p], subjects@[p],
                style_element_id@, style_revision_id@, created_at_ms),
        decreases subjects@.len() - q,
    {
        let subject = &subjects[q];
        let kind = kind_str(subject.kind);
        let mut finding_id = String::from_str("qa_");
        let suffix = crate::outside::random_simple_uuid();
        finding_id.append(suffix.as_str());
        let mut message = String::from_str(kind);
        message.append(" depends on Style Element ");
        message.append(style_element_id);
        message.append("; review after promoted revision ");
        message.append(style_revision_id);
        let mut evidence = String::from_str("{\"style_element_id\":");
        evidence.append(style_json.as_str());
        evidence.append(",\"style_revision_id\":");
        evidence.append(revision_json.as_str());
        evidence.append(",\"subject_kind\":\"");
        evidence.append(kind);
        evidence.append("\"}");
        let asset_id = match subject.kind {
            SubjectKind::Asset => Some(subject.subject_id.clone()),
            SubjectKind::Shot => None,
        };
        let finding = QaFindingEntry {
            finding_id,
            domain: String::from_str("style_dependency"),
            severity: QaSeverity::SoftFinding,
            subject_id: subject.subject_id.clone(),
            message,
            source_revision_id: Some(style_revision_id.to_owned()),
            asset_id,
            evaluator_binding_id: None,
            evidence,
            created_at_ms,
        };
        proof {
            reveal_strlit("qa_");
            assert(finding.finding_id@.subrange(0, 3) =~= "qa_"@);
        }
        let ghost prev = findings@;
        findings.push(finding);
        proof {
            assert(findings@.take(before.len() as int) =~= prev.take(before.len() as int));
            assert forall|p: int| 0 <= p < q + 1 implies review_finding(#[trigger] findings@[before.len() + p], subjects@[p],
                style_element_id@, style_revision_id@, created_at_ms) by {
                if p < q {
                    assert(findings@[before.len() + p] == prev[before.len() + p]);
                }
            }
        }
        q += 1;
    }
    Ok(subjects.len())
}

} // verus!
