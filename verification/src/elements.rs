use vstd::prelude::*;
use crate::contracts::{ElementKind, ReferenceAuthority, RevisionState};
use crate::error::{invalid, McpError};
use crate::text::{is_valid_id, validate_id, str_eq};

verus! {

broadcast use vstd::string::group_string_axioms;

/// One revision of a creative element. `spec` is compact JSON text.
#[derive(Debug)]
pub struct ElementRevision {
    pub revision_id: String,
    pub state: RevisionState,
    pub authority: ReferenceAuthority,
    pub reference_asset_ids: Vec<String>,
    pub spec: String,
    pub created_at_ms: u128,
}

/// A creative element and its revisions, with the revision selected for use.
#[derive(Debug)]
pub struct ElementRecord {
    pub element_id: String,
    pub kind: ElementKind,
    pub name: String,
    pub selected_revision_id: Option<String>,
    pub revisions: Vec<ElementRevision>,
}

/// At most one revision is accepted, and a selected revision exists and is accepted.
pub open spec fn selection_consistent(e: ElementRecord) -> bool {
    &&& forall|i: int, j: int| 0 <= i < e.revisions@.len() && 0 <= j < e.revisions@.len()
        && (#[trigger] e.revisions@[i]).state == RevisionState::Accepted
        && (#[trigger] e.revisions@[j]).state == RevisionState::Accepted ==> i == j
    &&& match e.selected_revision_id {
        Some(s) => exists|i: int| 0 <= i < e.revisions@.len() && (#[trigger] e.revisions@[i]).revision_id@ == s@
            && e.revisions@[i].state == RevisionState::Accepted,
        None => true,
    }
}

/// The position of the first element with identity `id`.
pub open spec fn element_index(es: Seq<ElementRecord>, id: Seq<char>) -> Option<int>
    decreases es.len(),
{
    if es.len() == 0 {
        None
    } else {
        match element_index(es.drop_last(), id) {
            Some(i) => Some(i),
            None => if es.last().element_id@ == id { Some(es.len() - 1) } else { None },
        }
    }
}

proof fn lemma_element_index(es: Seq<ElementRecord>, id: Seq<char>, k: int)
    requires
        0 <= k < es.len(),
        es[k].element_id@ == id,
        forall|j: int| 0 <= j < k ==> (#[trigger] es[j]).element_id@ != id,
    ensures
        element_index(es, id) == Some(k),
    decreases es.len(),
{
    if k < es.len() - 1 {
        assert(es.drop_last()[k] == es[k]);
        assert forall|j: int| 0 <= j < k implies (#[trigger] es.drop_last()[j]).element_id@ != id by {
            assert(es.drop_last()[j] == es[j]);
        }
        lemma_element_index(es.drop_last(), id, k);
    } else {
        lemma_element_none(es.drop_last(), id);
    }
}

proof fn lemma_element_none(es: Seq<ElementRecord>, id: Seq<char>)
    requires
        forall|j: int| 0 <= j < es.len() ==> (#[trigger] es[j]).element_id@ != id,
    ensures
        element_index(es, id) is None,
    decreases es.len(),
{
    if es.len() > 0 {
        assert forall|j: int| 0 <= j < es.len() - 1 implies (#[trigger] es.drop_last()[j]).element_id@ != id by {
            assert(es.drop_last()[j] == es[j]);
        }
        lemma_element_none(es.drop_last(), id);
    }
}

pub fn find_element(es: &Vec<ElementRecord>, id: &str) -> (r: Option<usize>)
    ensures
        match r {
            Some(i) => element_index(es@, id@) == Some(i as int) && i < es.len(),
            None => element_index(es@, id@) is None,
        },
{
    let mut i: usize = 0;
    while i < es.len()
        invariant
            i <= es.len(),
            forall|j: int| 0 <= j < i ==> (#[trigger] es@[j]).element_id@ != id@,
        decreases es.len() - i,
    {
        if str_eq(es[i].element_id.as_str(), id) {
            proof {
                lemma_element_index(es@, id@, i as int);
            }
            return Some(i);
        }
        i += 1;
    }
    proof {
        lemma_element_none(es@, id@);
    }
    None
}

pub open spec fn has_revision(e: ElementRecord, id: Seq<char>) -> bool {
    exists|i: int| 0 <= i < e.revisions@.len() && (#[trigger] e.revisions@[i]).revision_id@ == id
}

/// The state a revision takes when `chosen` is promoted.
pub open spec fn promoted_state(r: ElementRevision, chosen: Seq<char>) -> RevisionState {
    if r.revision_id@ == chosen {
        RevisionState::Accepted
    } else if r.state == RevisionState::Accepted {
        RevisionState::Candidate
    } else {
        r.state
    }
}

/// `after` is element `before` with revision `chosen` promoted: it alone is accepted,
/// the formerly accepted revision is a candidate again, and it is selected.
pub open spec fn promoted(before: ElementRecord, after: ElementRecord, chosen: Seq<char>) -> bool {
    &&& after.element_id == before.element_id
    &&& after.kind == before.kind
    &&& after.name == before.name
    &&& after.revisions@.len() == before.revisions@.len()
    &&& forall|i: int| 0 <= i < before.revisions@.len() ==> {
        let a = #[trigger] after.revisions@[i];
        let b = before.revisions@[i];
        a.revision_id == b.revision_id && a.authority == b.authority && a.reference_asset_ids == b.reference_asset_ids
            && a.spec == b.spec && a.created_at_ms == b.created_at_ms && a.state == promoted_state(b, chosen)
    }
    &&& after.selected_revision_id matches Some(s) && s@ == chosen
}

/// What promoting a revision leaves to do: whether a style element changed its
/// selection, so that its dependents are to be reviewed.
#[derive(Clone, Copy, Debug, PartialEq, Eq, Structural)]
pub enum PromotionOutcome {
    Done,
    ReviewStyleDependents,
}

/// Promotes a revision of an element: it becomes the one accepted revision and the
/// selected one.
pub fn promote_element_revision(elements: &mut Vec<ElementRecord>, element_id: &str, revision_id: &str) -> (r: Result<PromotionOutcome, McpError>)
    ensures
        r is Err <==> !is_valid_id(element_id@) || !is_valid_id(revision_id@) || element_index(old(elements)@, element_id@) is None
            || !has_revision(old(elements)@[element_index(old(elements)@, element_id@)->0], revision_id@),
        r matches Err(e) ==> e is InvalidRequest,
        r is Err ==> final(elements)@ == old(elements)@,
        r is Ok ==> ({
            let k = element_index(old(elements)@, element_id@)->0;
            &&& final(elements)@.len() == old(elements)@.len()
            &&& forall|j: int| 0 <= j < old(elements)@.len() && j != k ==> #[trigger] final(elements)@[j] == old(elements)@[j]
            &&& promoted(old(elements)@[k], final(elements)@[k], revision_id@)
            &&& (r == Ok::<PromotionOutcome, McpError>(PromotionOutcome::ReviewStyleDependents) <==>
                (old(elements)@[k].kind == ElementKind::Style && (old(elements)@[k].selected_revision_id matches Some(p) && p@ != revision_id@)))
        }),
{
    validate_id(element_id, "element_id")?;
    validate_id(revision_id, "revision_id")?;
    let k = match find_element(elements, element_id) {
        Some(k) => k,
        None => {
            return Err(invalid("unknown creative element"));
        },
    };
    let mut found = false;
    let mut i: usize = 0;
    while i < elements[k].revisions.len()
        invariant
            k < elements.len(),
            i <= elements[k as int].revisions.len(),
            found <==> exists|j: int| 0 <= j < i && (#[trigger] elements@[k as int].revisions@[j]).revision_id@ == revision_id@,
        decreases elements[k as int].revisions.len() - i,
    {
        if str_eq(elements[k].revisions[i].revision_id.as_str(), revision_id) {
            found = true;
        }
        i += 1;
    }
    if !found {
        return Err(invalid("unknown element revision"));
    }
    let ghost old_elements = elements@;
    let mut all: Vec<ElementRecord> = Vec::new();
    core::mem::swap(&mut all, elements);
    let mut element = all.remove(k);
    let is_style = element.kind == ElementKind::Style;
    let changed = match &element.selected_revision_id {
        Some(p) => !str_eq(p.as_str(), revision_id),
        None => false,
    };
    let mut revs: Vec<ElementRevision> = Vec::new();
    core::mem::swap(&mut revs, &mut element.revisions);
    let ghost old_revs = revs@;
    let mut out: Vec<ElementRevision> = Vec::new();
    while revs.len() > 0
        invariant
            out@.len() + revs@.len() == old_revs.len(),
            revs@ == old_revs.skip(out@.len() as int),
            forall|q: int| 0 <= q < out@.len() ==> {
                let a = #[trigger] out@[q];
                let b = old_revs[q];
                a.revision_id == b.revision_id && a.authority == b.authority && a.reference_asset_ids == b.reference_asset_ids
                    && a.spec == b.spec && a.created_at_ms == b.created_at_ms && a.state == promoted_state(b, revision_id@)
            },
        decreases revs@.len(),
    {
        let ghost pos = out@.len() as int;
        let mut rev = revs.remove(0);
        assert(rev == old_revs[pos]);
        assert(revs@ =~= old_revs.skip(pos + 1));
        rev.state = if str_eq(rev.revision_id.as_str(), revision_id) {
            RevisionState::Accepted
        } else if rev.state == RevisionState::Accepted {
            RevisionState::Candidate
        } else {
            rev.state
        };
        out.push(rev);
    }
    element.revisions = out;
    element.selected_revision_id = Some(revision_id.to_owned());
    all.insert(k, element);
    core::mem::swap(&mut all, elements);
    proof {
        assert(elements@ =~= old_elements.update(k as int, elements@[k as int]));
    }
    if is_style && changed {
        Ok(PromotionOutcome::ReviewStyleDependents)
    } else {
        Ok(PromotionOutcome::Done)
    }
}

} // verus!

verus! {

/// The first revision with identity `id`.
pub open spec fn revision_index(rs: Seq<ElementRevision>, id: Seq<char>) -> Option<int>
    decreases rs.len(),
{
    if rs.len() == 0 {
        None
    } else {
        match revision_index(rs.drop_last(), id) {
            Some(i) => Some(i),
            None => if rs.last().revision_id@ == id { Some(rs.len() - 1) } else { None },
        }
    }
}

proof fn lemma_revision_index(rs: Seq<ElementRevision>, id: Seq<char>, k: int)
    requires
        0 <= k < rs.len(),
        rs[k].revision_id@ == id,
        forall|j: int| 0 <= j < k ==> (#[trigger] rs[j]).revision_id@ != id,
    ensures
        revision_index(rs, id) == Some(k),
    decreases rs.len(),
{
    if k < rs.len() - 1 {
        assert(rs.drop_last()[k] == rs[k]);
        assert forall|j: int| 0 <= j < k implies (#[trigger] rs.drop_last()[j]).revision_id@ != id by {
            assert(rs.drop_last()[j] == rs[j]);
        }
        lemma_revision_index(rs.drop_last(), id, k);
    } else {
        lemma_revision_none(rs.drop_last(), id);
    }
}

/// The position of the first revision with identity `id`.
pub fn find_revision(rs: &Vec<ElementRevision>, id: &str) -> (r: Option<usize>)
    ensures
        match r {
            Some(q) => revision_index(rs@, id@) == Some(q as int) && q < rs.len(),
            None => revision_index(rs@, id@) is None,
        },
{
    let mut q: usize = 0;
    while q < rs.len()
        invariant
            q <= rs.len(),
            forall|j: int| 0 <= j < q ==> (#[trigger] rs@[j]).revision_id@ != id@,
        decreases rs.len() - q,
    {
        if str_eq(rs[q].revision_id.as_str(), id) {
            proof {
                lemma_revision_index(rs@, id@, q as int);
            }
            return Some(q);
        }
        q += 1;
    }
    proof {
        lemma_revision_none(rs@, id@);
    }
    None
}

proof fn lemma_revision_none(rs: Seq<ElementRevision>, id: Seq<char>)
    requires
        forall|j: int| 0 <= j < rs.len() ==> (#[trigger] rs[j]).revision_id@ != id,
    ensures
        revision_index(rs, id) is None,
    decreases rs.len(),
{
    if rs.len() > 0 {
        assert forall|j: int| 0 <= j < rs.len() - 1 implies (#[trigger] rs.drop_last()[j]).revision_id@ != id by {
            assert(rs.drop_last()[j] == rs[j]);
        }
        lemma_revision_none(rs.drop_last(), id);
    }
}

/// `after` is element `before` with its first revision `chosen` rejected, and unselected
/// where it was selected.
pub open spec fn rejected(before: ElementRecord, after: ElementRecord, chosen: Seq<char>) -> bool {
    let q = revision_index(before.revisions@, chosen)->0;
    &&& after.element_id == before.element_id
    &&& after.kind == before.kind
    &&& after.name == before.name
    &&& after.revisions@ == before.revisions@.update(q, ElementRevision { state: RevisionState::Rejected, ..before.revisions@[q] })
    &&& after.selected_revision_id == match before.selected_revision_id {
        Some(s) => if s@ == chosen { None::<String> } else { Some(s) },
        None => None::<String>,
    }
}

/// Rejects a revision of an element; a selected revision is unselected.
pub fn reject_element_revision(elements: &mut Vec<ElementRecord>, element_id: &str, revision_id: &str) -> (r: Result<(), McpError>)
    ensures
        r is Err <==> !is_valid_id(element_id@) || !is_valid_id(revision_id@) || element_index(old(elements)@, element_id@) is None
            || revision_index(old(elements)@[element_index(old(elements)@, element_id@)->0].revisions@, revision_id@) is None,
        r matches Err(e) ==> e is InvalidRequest,
        r is Err ==> final(elements)@ == old(elements)@,
        r is Ok ==> ({
            let k = element_index(old(elements)@, element_id@)->0;
            &&& final(elements)@.len() == old(elements)@.len()
            &&& forall|j: int| 0 <= j < old(elements)@.len() && j != k ==> #[trigger] final(elements)@[j] == old(elements)@[j]
            &&& rejected(old(elements)@[k], final(elements)@[k], revision_id@)
        }),
{
    validate_id(element_id, "element_id")?;
    validate_id(revision_id, "revision_id")?;
    let k = match find_element(elements, element_id) {
        Some(k) => k,
        None => {
            return Err(invalid("unknown creative element"));
        },
    };
    let mut q: usize = 0;
    let mut found = false;
    while q < elements[k].revisions.len() && !found
        invariant
            k < elements.len(),
            q <= elements[k as int].revisions.len(),
            found ==> q < elements[k as int].revisions.len() && revision_index(elements@[k as int].revisions@, revision_id@) == Some(q as int),
            !found ==> forall|j: int| 0 <= j < q ==> (#[trigger] elements@[k as int].revisions@[j]).revision_id@ != revision_id@,
        decreases elements[k as int].revisions.len() - q + if found { 0int } else { 1int },
    {
        if str_eq(elements[k].revisions[q].revision_id.as_str(), revision_id) {
            proof {
                lemma_revision_index(elements@[k as int].revisions@, revision_id@, q as int);
            }
            found = true;
        } else {
            q += 1;
        }
    }
    if !found {
        proof {
            lemma_revision_none(elements@[k as int].revisions@, revision_id@);
        }
        return Err(invalid("unknown element revision"));
    }
    let ghost old_elements = elements@;
    let mut all: Vec<ElementRecord> = Vec::new();
    core::mem::swap(&mut all, elements);
    let mut element = all.remove(k);
    let mut revs: Vec<ElementRevision> = Vec::new();
    core::mem::swap(&mut revs, &mut element.revisions);
    let mut rev = revs.remove(q);
    rev.state = RevisionState::Rejected;
    revs.insert(q, rev);
    element.revisions = revs;
    let unselect = match &element.selected_revision_id {
        Some(s) => str_eq(s.as_str(), revision_id),
        None => false,
    };
    if unselect {
        element.selected_revision_id = None;
    }
    all.insert(k, element);
    core::mem::swap(&mut all, elements);
    proof {
        assert(elements@[k as int].revisions@ =~= old_elements[k as int].revisions@.update(q as int,
            ElementRevision { state: RevisionState::Rejected, ..old_elements[k as int].revisions@[q as int] }));
        assert(elements@ =~= old_elements.update(k as int, elements@[k as int]));
    }
    Ok(())
}

/// Promoting a revision makes it the one accepted revision and the selected one, so the
/// element's selection is consistent afterwards.
pub proof fn law_promotion_selects_sole_accepted(before: ElementRecord, after: ElementRecord, chosen: Seq<char>)
    requires
        promoted(before, after, chosen),
        has_revision(before, chosen),
        forall|i: int, j: int| 0 <= i < j < before.revisions@.len() ==> (#[trigger] before.revisions@[i]).revision_id@ != (#[trigger] before.revisions@[j]).revision_id@,
    ensures
        selection_consistent(after),
        forall|i: int| 0 <= i < after.revisions@.len() ==> ((#[trigger] after.revisions@[i]).state == RevisionState::Accepted <==> after.revisions@[i].revision_id@ == chosen),
{
    assert forall|i: int| 0 <= i < after.revisions@.len() implies ((#[trigger] after.revisions@[i]).state == RevisionState::Accepted <==> after.revisions@[i].revision_id@ == chosen) by {
        assert(after.revisions@[i].revision_id == before.revisions@[i].revision_id);
    }
    let w = choose|i: int| 0 <= i < before.revisions@.len() && (#[trigger] before.revisions@[i]).revision_id@ == chosen;
    assert(after.revisions@[w].revision_id == before.revisions@[w].revision_id);
    assert forall|i: int, j: int| 0 <= i < after.revisions@.len() && 0 <= j < after.revisions@.len()
        && (#[trigger] after.revisions@[i]).state == RevisionState::Accepted
        && (#[trigger] after.revisions@[j]).state == RevisionState::Accepted implies i == j by {
        assert(after.revisions@[i].revision_id == before.revisions@[i].revision_id);
        assert(after.revisions@[j].revision_id == before.revisions@[j].revision_id);
        if i < j {
            assert(before.revisions@[i].revision_id@ != before.revisions@[j].revision_id@);
        } else if j < i {
            assert(before.revisions@[j].revision_id@ != before.revisions@[i].revision_id@);
        }
    }
}

/// Rejecting a revision keeps a consistent selection consistent.
pub proof fn law_rejection_keeps_selection_consistent(before: ElementRecord, after: ElementRecord, chosen: Seq<char>)
    requires
        rejected(before, after, chosen),
        revision_index(before.revisions@, chosen) is Some,
        selection_consistent(before),
        forall|i: int, j: int| 0 <= i < j < before.revisions@.len() ==> (#[trigger] before.revisions@[i]).revision_id@ != (#[trigger] before.revisions@[j]).revision_id@,
    ensures
        selection_consistent(after),
{
    let q = revision_index(before.revisions@, chosen)->0;
    lemma_revision_index_found(before.revisions@, chosen);
    match before.selected_revision_id {
        Some(s) => {
            if s@ != chosen {
                let i = choose|i: int| 0 <= i < before.revisions@.len() && (#[trigger] before.revisions@[i]).revision_id@ == s@
                    && before.revisions@[i].state == RevisionState::Accepted;
                assert(i != q);
                assert(after.revisions@[i] == before.revisions@[i]);
            }
        },
        None => {},
    }
    assert forall|i: int, j: int| 0 <= i < after.revisions@.len() && 0 <= j < after.revisions@.len()
        && (#[trigger] after.revisions@[i]).state == RevisionState::Accepted
        && (#[trigger] after.revisions@[j]).state == RevisionState::Accepted implies i == j by {
        assert(i != q && j != q);
        assert(after.revisions@[i] == before.revisions@[i]);
        assert(after.revisions@[j] == before.revisions@[j]);
    }
}

proof fn lemma_revision_index_found(rs: Seq<ElementRevision>, id: Seq<char>)
    requires
        revision_index(rs, id) is Some,
    ensures
        0 <= revision_index(rs, id)->0 < rs.len(),
        rs[revision_index(rs, id)->0].revision_id@ == id,
    decreases rs.len(),
{
    if revision_index(rs.drop_last(), id) is Some {
        lemma_revision_index_found(rs.drop_last(), id);
        assert(rs.drop_last()[revision_index(rs, id)->0] == rs[revision_index(rs, id)->0]);
    }
}

} // verus!
