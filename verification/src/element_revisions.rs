use vstd::prelude::*;
use crate::error::{invalid, invalid_with, McpError};
use crate::contracts::{AssetSource, ElementKind, ReferenceAuthority, RevisionState};
use crate::elements::{ElementRecord, ElementRevision, element_index, find_element};
use crate::assets::{AssetEntry, asset_index, find_asset};
use crate::jobs::{is_bounded_spec, spec_refusal, validate_spec};
use crate::text::{id_rule, is_valid_id, validate_id, str_eq, char_vec, is_whitespace, is_whitespace_char, seq_starts_with};

verus! {

pub const MAX_REFERENCES_PER_REVISION: usize = 64;
pub const MAX_REVISIONS_PER_ELEMENT: usize = 128;
pub const MAX_PROJECT_ELEMENTS: usize = 256;

/// A new revision, for an element that exists or for a new one. `spec` is compact JSON
/// text.
pub struct ElementRevisionInput {
    pub element_id: Option<String>,
    pub kind: Option<ElementKind>,
    pub name: Option<String>,
    pub authority: ReferenceAuthority,
    pub reference_asset_ids: Vec<String>,
    pub spec: String,
}

/// Text made only of whitespace.
pub open spec fn is_blank(s: Seq<char>) -> bool {
    forall|i: int| 0 <= i < s.len() ==> is_whitespace_char(#[trigger] s[i])
}

/// Some reference names an asset that a machine produced.
pub open spec fn generated_provenance(refs: Seq<String>, assets: Seq<AssetEntry>) -> bool {
    exists|i: int| 0 <= i < refs.len() && (asset_index(assets, (#[trigger] refs[i])@) matches Some(k)
        && assets[k].source == AssetSource::GeneratedAsset)
}

/// Whether the project refuses the revision.
pub open spec fn revision_refused(elements: Seq<ElementRecord>, assets: Seq<AssetEntry>, input: ElementRevisionInput) -> bool {
    let refs = input.reference_asset_ids@;
    ||| refs.len() > MAX_REFERENCES_PER_REVISION
    ||| !is_bounded_spec(input.spec@)
    ||| (exists|i: int| 0 <= i < refs.len() && asset_index(assets, (#[trigger] refs[i])@) is None)
    ||| (input.authority == ReferenceAuthority::Generated && !generated_provenance(refs, assets))
    ||| match input.element_id {
        Some(id) => {
            ||| !is_valid_id(id@)
            ||| element_index(elements, id@) is None
            ||| ({
                let e = elements[element_index(elements, id@)->0];
                ||| e.revisions@.len() >= MAX_REVISIONS_PER_ELEMENT
                ||| (input.kind matches Some(k) && k != e.kind)
                ||| (input.name matches Some(n) && n@ != e.name@)
            })
        },
        None => {
            ||| elements.len() >= MAX_PROJECT_ELEMENTS
            ||| input.kind is None
            ||| input.name is None
            ||| is_blank(input.name->0@)
        },
    }
}

/// Why the revision is refused, in the order the checks run.
pub open spec fn revision_refusal(elements: Seq<ElementRecord>, assets: Seq<AssetEntry>, input: ElementRevisionInput) -> Seq<char> {
    let refs = input.reference_asset_ids@;
    if refs.len() > MAX_REFERENCES_PER_REVISION {
        "element reference count exceeds maximum"@
    } else if !is_bounded_spec(input.spec@) {
        spec_refusal(input.spec@)
    } else if exists|i: int| 0 <= i < refs.len() && asset_index(assets, (#[trigger] refs[i])@) is None {
        "element revision references an unknown asset"@
    } else if input.authority == ReferenceAuthority::Generated && !generated_provenance(refs, assets) {
        "generated element authority requires machine-produced asset provenance"@
    } else {
        match input.element_id {
            Some(id) => if !is_valid_id(id@) {
                "element_id"@ + id_rule()
            } else if element_index(elements, id@) is None {
                "unknown creative element"@
            } else {
                let e = elements[element_index(elements, id@)->0];
                if e.revisions@.len() >= MAX_REVISIONS_PER_ELEMENT {
                    "element revision capacity reached"@
                } else if input.kind matches Some(k) && k != e.kind {
                    "element kind cannot change across revisions"@
                } else {
                    "element name change requires a separate project-state revision"@
                }
            },
            None => if elements.len() >= MAX_PROJECT_ELEMENTS {
                "creative element capacity reached"@
            } else if input.kind is None {
                "element kind is required"@
            } else {
                "element name is required"@
            },
        }
    }
}

/// The revision that the input adds: a candidate with the input's authority,
/// references and spec.
pub open spec fn new_revision(input: ElementRevisionInput, revision_id: Seq<char>, now: u128, r: ElementRevision) -> bool {
    &&& r.revision_id@ == revision_id
    &&& r.state == RevisionState::Candidate
    &&& r.authority == input.authority
    &&& r.reference_asset_ids == input.reference_asset_ids
    &&& r.spec == input.spec
    &&& r.created_at_ms == now
}

/// The revision was added as the input asked, and nothing else changed.
pub open spec fn revision_added(
    before: Seq<ElementRecord>,
    after: Seq<ElementRecord>,
    input: ElementRevisionInput,
    element_id: Seq<char>,
    revision_id: Seq<char>,
    new_element_id: Seq<char>,
    now: u128,
) -> bool {
    match input.element_id {
        Some(id) => {
            let k = element_index(before, id@)->0;
            &&& element_id == id@
            &&& after.len() == before.len()
            &&& forall|j: int| 0 <= j < before.len() && j != k ==> #[trigger] after[j] == before[j]
            &&& after[k].element_id == before[k].element_id
            &&& after[k].kind == before[k].kind
            &&& after[k].name == before[k].name
            &&& after[k].selected_revision_id == before[k].selected_revision_id
            &&& after[k].revisions@.drop_last() == before[k].revisions@
            &&& after[k].revisions@.len() == before[k].revisions@.len() + 1
            &&& new_revision(input, revision_id, now, after[k].revisions@.last())
        },
        None => {
            &&& element_id == new_element_id
            &&& after.drop_last() == before
            &&& after.len() == before.len() + 1
            &&& after.last().element_id@ == new_element_id
            &&& input.kind matches Some(k) && after.last().kind == k
            &&& input.name matches Some(n) && after.last().name == n
            &&& after.last().selected_revision_id is None
            &&& after.last().revisions@.len() == 1
            &&& new_revision(input, revision_id, now, after.last().revisions@[0])
        },
    }
}

fn blank(s: &str) -> (r: bool)
    ensures
        r == is_blank(s@),
{
    let v = char_vec(s);
    let mut i: usize = 0;
    while i < v.len()
        invariant
            i <= v.len(),
            v@ == s@,
            forall|k: int| 0 <= k < i ==> is_whitespace_char(#[trigger] v@[k]),
        decreases v.len() - i,
    {
        if !is_whitespace(v[i]) {
            return false;
        }
        i += 1;
    }
    true
}

/// Adds a revision named `revision_` and `revision_suffix`, created at `now`, to the
/// element the input names, or to a new element named `element_` and `element_suffix`.
/// Returns the element's and the revision's identities.
pub fn add_element_revision_at(
    elements: &mut Vec<ElementRecord>,
    assets: &Vec<AssetEntry>,
    input: ElementRevisionInput,
    element_suffix: &str,
    revision_suffix: &str,
    now: u128,
) -> (r: Result<(String, String), McpError>)
    ensures
        r is Err <==> revision_refused(old(elements)@, assets@, input),
        r matches Err(e) ==> invalid_with(e, revision_refusal(old(elements)@, assets@, input)),
        r is Err ==> final(elements)@ == old(elements)@,
        r matches Ok((eid, rid)) ==> rid@ == "revision_"@ + revision_suffix@
            && revision_added(old(elements)@, final(elements)@, input, eid@, rid@, "element_"@ + element_suffix@, now),
{
    if input.reference_asset_ids.len() > MAX_REFERENCES_PER_REVISION {
        return Err(invalid("element reference count exceeds maximum"));
    }
    match validate_spec(input.spec.as_str()) {
        Err(e) => { return Err(e); },
        Ok(()) => {},
    }
    let mut i: usize = 0;
    let mut generated = false;
    while i < input.reference_asset_ids.len()
        invariant
            i <= input.reference_asset_ids.len(),
            forall|k: int| 0 <= k < i ==> asset_index(assets@, (#[trigger] input.reference_asset_ids@[k])@) is Some,
            generated == exists|k: int| 0 <= k < i && (asset_index(assets@, (#[trigger] input.reference_asset_ids@[k])@) matches Some(a)
                && assets@[a].source == AssetSource::GeneratedAsset),
            input.reference_asset_ids@.len() <= MAX_REFERENCES_PER_REVISION,
            is_bounded_spec(input.spec@),
            elements@ == old(elements)@,
        decreases input.reference_asset_ids.len() - i,
    {
        match find_asset(assets, input.reference_asset_ids[i].as_str()) {
            None => {
                assert(asset_index(assets@, input.reference_asset_ids@[i as int]@) is None);
                return Err(invalid("element revision references an unknown asset"));
            },
            Some(a) => {
                if assets[a].source == AssetSource::GeneratedAsset {
                    generated = true;
                }
            },
        }
        i += 1;
    }
    if input.authority == ReferenceAuthority::Generated && !generated {
        return Err(invalid("generated element authority requires machine-produced asset provenance"));
    }
    let mut revision_id = String::from_str("revision_");
    revision_id.append(revision_suffix);
    let ghost g = input;
    let revision = ElementRevision {
        revision_id: revision_id.clone(),
        state: RevisionState::Candidate,
        authority: input.authority,
        reference_asset_ids: input.reference_asset_ids,
        spec: input.spec,
        created_at_ms: now,
    };
    match input.element_id {
        Some(element_id) => {
            match validate_id(element_id.as_str(), "element_id") {
                Err(e) => { return Err(e); },
                Ok(()) => {},
            }
            let k = match find_element(elements, element_id.as_str()) {
                Some(k) => k,
                None => { return Err(invalid("unknown creative element")); },
            };
            if elements[k].revisions.len() >= MAX_REVISIONS_PER_ELEMENT {
                return Err(invalid("element revision capacity reached"));
            }
            if let Some(kind) = input.kind {
                if kind != elements[k].kind {
                    return Err(invalid("element kind cannot change across revisions"));
                }
            }
            if let Some(name) = &input.name {
                if !str_eq(name.as_str(), elements[k].name.as_str()) {
                    return Err(invalid("element name change requires a separate project-state revision"));
                }
            }
            let ghost before = elements@;
            let mut all: Vec<ElementRecord> = Vec::new();
            core::mem::swap(&mut all, elements);
            let mut element = all.remove(k);
            element.revisions.push(revision);
            all.insert(k, element);
            core::mem::swap(&mut all, elements);
            proof {
                assert(elements@ =~= before.update(k as int, elements@[k as int]));
                assert(elements@[k as int].revisions@.drop_last() =~= before[k as int].revisions@);
            }
            Ok((element_id, revision_id))
        },
        None => {
            if elements.len() >= MAX_PROJECT_ELEMENTS {
                return Err(invalid("creative element capacity reached"));
            }
            let kind = match input.kind {
                Some(k) => k,
                None => { return Err(invalid("element kind is required")); },
            };
            let name = match input.name {
                Some(n) => n,
                None => { return Err(invalid("element name is required")); },
            };
            if blank(name.as_str()) {
                return Err(invalid("element name is required"));
            }
            let mut element_id = String::from_str("element_");
            element_id.append(element_suffix);
            let mut revisions: Vec<ElementRevision> = Vec::new();
            revisions.push(revision);
            let ghost before = elements@;
            elements.push(ElementRecord {
                element_id: element_id.clone(),
                kind,
                name,
                selected_revision_id: None,
                revisions,
            });
            proof {
                assert(elements@.drop_last() =~= before);
            }
            Ok((element_id, revision_id))
        },
    }
}

/// Adds a revision under fresh random identities, created now.
pub fn add_element_revision(
    elements: &mut Vec<ElementRecord>,
    assets: &Vec<AssetEntry>,
    input: ElementRevisionInput,
) -> (r: Result<(String, String), McpError>)
    ensures
        r is Err <==> revision_refused(old(elements)@, assets@, input),
        r is Err ==> final(elements)@ == old(elements)@,
        r matches Ok((eid, rid)) ==> seq_starts_with(rid@, "revision_"@) && rid@.len() == 41
            && exists|new_element_id: Seq<char>, now: u128| seq_starts_with(new_element_id, "element_"@) && new_element_id.len() == 40
                && revision_added(old(elements)@, final(elements)@, input, eid@, rid@, new_element_id, now),
{
    let element_suffix = crate::outside::random_simple_uuid();
    let revision_suffix = crate::outside::random_simple_uuid();
    let now = crate::outside::now_ms();
    let r = add_element_revision_at(elements, assets, input, element_suffix.as_str(), revision_suffix.as_str(), now);
    proof {
        reveal_strlit("revision_");
        reveal_strlit("element_");
        if r is Ok {
            let rid = r->Ok_0.1;
            assert(rid@.subrange(0, 9) =~= "revision_"@);
            let ne = "element_"@ + element_suffix@;
            assert(ne.subrange(0, 8) =~= "element_"@);
        }
    }
    r
}

} // verus!
