use vstd::prelude::*;
use crate::error::{invalid, invalid_with, McpError};
use crate::order::{lex_lt, lex_le, lemma_lex_total, lemma_lex_transitive, lemma_lex_irreflexive, str_lt};
use crate::text::{id_rule, is_valid_id, validate_id, has_view, contains_str, str_eq, byte_len, has_control, contains_control};

verus! {

broadcast use vstd::string::group_string_axioms, vstd::seq_lib::group_seq_properties;

use crate::graph::validate::BindingCheck;

/// Whether an execution binding can take work.
#[derive(Clone, Copy, Debug, PartialEq, Eq, Structural)]
pub enum BindingAvailability {
    Available,
    Unavailable,
    Degraded,
}

/// An operator-configured execution binding. `extension_schema` and `constraints` are
/// compact JSON text.
#[derive(Debug)]
pub struct ExecutionBindingDescriptor {
    pub binding_id: String,
    pub binding_version: String,
    pub capabilities: Vec<String>,
    pub media_roles: Vec<String>,
    pub extension_schema: String,
    pub constraints: String,
    pub license_notes: Option<String>,
    pub estimate_available: bool,
    pub availability: BindingAvailability,
}

/// `b` takes work for capability `capability_id`.
pub open spec fn serves(b: ExecutionBindingDescriptor, capability_id: Seq<char>) -> bool {
    b.availability == BindingAvailability::Available && has_view(b.capabilities@, capability_id)
}

/// A binding descriptor within bounds; `known` lists the registry's capabilities and
/// `public_values` says whether its schema and constraints expose nothing private.
pub open spec fn descriptor_ok(d: ExecutionBindingDescriptor, known: Seq<String>, public_values: bool) -> bool {
    &&& is_valid_id(d.binding_id@)
    &&& d.binding_version@.len() > 0
    &&& byte_len(d.binding_version@) <= 64
    &&& !has_control(d.binding_version@)
    &&& d.capabilities@.len() > 0
    &&& d.capabilities@.len() <= 64
    &&& d.media_roles@.len() <= 64
    &&& (forall|i: int| 0 <= i < d.capabilities@.len() ==> has_view(known, (#[trigger] d.capabilities@[i])@))
    &&& (forall|i: int| 0 <= i < d.media_roles@.len() ==> (#[trigger] d.media_roles@[i])@.len() > 0
            && byte_len(d.media_roles@[i]@) <= 128 && !has_control(d.media_roles@[i]@))
    &&& public_values
    &&& match d.license_notes { Some(n) => byte_len(n@) <= 1024 && !has_control(n@), None => true }
}

/// Why a binding descriptor is refused, in the order it is checked.
pub open spec fn descriptor_refusal(d: ExecutionBindingDescriptor, known: Seq<String>, public_values: bool) -> Seq<char> {
    if !is_valid_id(d.binding_id@) {
        "execution_binding_id"@ + id_rule()
    } else if !(d.binding_version@.len() > 0 && byte_len(d.binding_version@) <= 64 && !has_control(d.binding_version@)
        && d.capabilities@.len() > 0 && d.capabilities@.len() <= 64 && d.media_roles@.len() <= 64) {
        "creative execution binding descriptor exceeds allowed bounds"@
    } else if exists|i: int| 0 <= i < d.capabilities@.len() && !has_view(known, (#[trigger] d.capabilities@[i])@) {
        "creative execution binding references an unknown capability"@
    } else if exists|i: int| 0 <= i < d.media_roles@.len() && !((#[trigger] d.media_roles@[i])@.len() > 0
        && byte_len(d.media_roles@[i]@) <= 128 && !has_control(d.media_roles@[i]@)) {
        "creative execution binding media role is invalid"@
    } else if !public_values {
        "creative execution binding descriptors cannot expose endpoints, credentials, or executable payloads"@
    } else {
        "creative execution binding license notes exceed allowed bounds"@
    }
}

/// Checks a binding descriptor against its bounds.
#[verifier::loop_isolation(false)]
pub fn validate_binding_descriptor(descriptor: &ExecutionBindingDescriptor, known: &Vec<String>, public_values: bool) -> (r: Result<(), McpError>)
    ensures
        r is Ok <==> descriptor_ok(*descriptor, known@, public_values),
        r matches Err(e) ==> invalid_with(e, descriptor_refusal(*descriptor, known@, public_values)),
{
    match validate_id(descriptor.binding_id.as_str(), "execution_binding_id") {
        Err(e) => { return Err(e); },
        Ok(()) => {},
    }
    let v = descriptor.binding_version.as_str();
    if v.is_empty() || v.len() > 64 || contains_control(v) || descriptor.capabilities.len() == 0
        || descriptor.capabilities.len() > 64 || descriptor.media_roles.len() > 64 {
        return Err(invalid("creative execution binding descriptor exceeds allowed bounds"));
    }
    let mut i: usize = 0;
    while i < descriptor.capabilities.len()
        invariant
            i <= descriptor.capabilities.len(),
            forall|k: int| 0 <= k < i ==> has_view(known@, (#[trigger] descriptor.capabilities@[k])@),
        decreases descriptor.capabilities.len() - i,
    {
        if !contains_str(known, descriptor.capabilities[i].as_str()) {
            assert(!has_view(known@, descriptor.capabilities@[i as int]@));
            return Err(invalid("creative execution binding references an unknown capability"));
        }
        i += 1;
    }
    let mut j: usize = 0;
    while j < descriptor.media_roles.len()
        invariant
            j <= descriptor.media_roles.len(),
            forall|k: int| 0 <= k < j ==> (#[trigger] descriptor.media_roles@[k])@.len() > 0
                && byte_len(descriptor.media_roles@[k]@) <= 128 && !has_control(descriptor.media_roles@[k]@),
        decreases descriptor.media_roles.len() - j,
    {
        let role = descriptor.media_roles[j].as_str();
        if role.is_empty() || role.len() > 128 || contains_control(role) {
            assert(!(descriptor.media_roles@[j as int]@.len() > 0 && byte_len(descriptor.media_roles@[j as int]@) <= 128
                && !has_control(descriptor.media_roles@[j as int]@)));
            return Err(invalid("creative execution binding media role is invalid"));
        }
        j += 1;
    }
    if !public_values {
        return Err(invalid("creative execution binding descriptors cannot expose endpoints, credentials, or executable payloads"));
    }
    match &descriptor.license_notes {
        Some(n) => {
            if n.as_str().len() > 1024 || contains_control(n.as_str()) {
                return Err(invalid("creative execution binding license notes exceed allowed bounds"));
            }
        },
        None => {},
    }
    Ok(())
}

/// Whether the binding takes work for the capability.
pub fn binding_serves(b: &ExecutionBindingDescriptor, capability_id: &str) -> (r: bool)
    ensures
        r == serves(*b, capability_id@),
{
    b.availability == BindingAvailability::Available && contains_str(&b.capabilities, capability_id)
}

pub open spec fn binding_ids(bs: Seq<ExecutionBindingDescriptor>) -> Seq<Seq<char>> {
    bs.map_values(|b: ExecutionBindingDescriptor| b.binding_id@)
}

/// The identities of the bindings that serve the capability, in the bindings' order.
pub open spec fn serving_ids(bs: Seq<ExecutionBindingDescriptor>, capability_id: Seq<char>) -> Seq<Seq<char>>
    decreases bs.len(),
{
    if bs.len() == 0 {
        seq![]
    } else {
        serving_ids(bs.drop_last(), capability_id) + if serves(bs.last(), capability_id) { seq![bs.last().binding_id@] } else { seq![] }
    }
}

/// The identities of the available bindings that serve the capability, in order.
pub fn compatible_binding_ids(bindings: &Vec<ExecutionBindingDescriptor>, capability_id: &str) -> (ids: Vec<String>)
    ensures
        ids@.len() == serving_ids(bindings@, capability_id@).len(),
        forall|i: int| 0 <= i < ids@.len() ==> (#[trigger] ids@[i])@ == serving_ids(bindings@, capability_id@)[i],
{
    let mut ids: Vec<String> = Vec::new();
    let mut i: usize = 0;
    while i < bindings.len()
        invariant
            i <= bindings.len(),
            ids@.len() == serving_ids(bindings@.take(i as int), capability_id@).len(),
            forall|k: int| 0 <= k < ids@.len() ==> (#[trigger] ids@[k])@ == serving_ids(bindings@.take(i as int), capability_id@)[k],
        decreases bindings.len() - i,
    {
        proof {
            let t = bindings@.take(i + 1);
            assert(t.drop_last() =~= bindings@.take(i as int));
            assert(t.last() == bindings@[i as int]);
        }
        if binding_serves(&bindings[i], capability_id) {
            let ghost before = ids@;
            ids.push(bindings[i].binding_id.clone());
            proof {
                assert forall|k: int| 0 <= k < ids@.len() implies (#[trigger] ids@[k])@ == serving_ids(bindings@.take(i + 1), capability_id@)[k] by {
                    if k < before.len() {
                        assert(ids@[k] == before[k]);
                    }
                }
            }
        }
        i += 1;
    }
    assert(bindings@.take(bindings.len() as int) =~= bindings@);
    ids
}

/// The position of the binding `id`.
pub fn binding(bindings: &Vec<ExecutionBindingDescriptor>, id: &str) -> (r: Option<usize>)
    ensures
        match r {
            Some(i) => i < bindings.len() && bindings@[i as int].binding_id@ == id@
                && forall|k: int| 0 <= k < i ==> (#[trigger] bindings@[k]).binding_id@ != id@,
            None => forall|k: int| 0 <= k < bindings.len() ==> (#[trigger] bindings@[k]).binding_id@ != id@,
        },
{
    let mut i: usize = 0;
    while i < bindings.len()
        invariant
            i <= bindings.len(),
            forall|k: int| 0 <= k < i ==> (#[trigger] bindings@[k]).binding_id@ != id@,
        decreases bindings.len() - i,
    {
        if str_eq(bindings[i].binding_id.as_str(), id) {
            return Some(i);
        }
        i += 1;
    }
    None
}

/// The outcome of choosing a binding for a capability: none is needed, or the chosen one.
#[derive(Clone, Copy, Debug, PartialEq, Eq, Structural)]
pub enum BindingSelection {
    NotRequired,
    Selected(usize),
}

/// Identities joined by commas.
pub open spec fn comma_joined(ids: Seq<Seq<char>>) -> Seq<char>
    decreases ids.len(),
{
    if ids.len() == 0 {
        seq![]
    } else if ids.len() == 1 {
        ids[0]
    } else {
        comma_joined(ids.drop_last()) + ","@ + ids.last()
    }
}

fn join_with_commas(ids: &Vec<String>, Ghost(views): Ghost<Seq<Seq<char>>>) -> (s: String)
    requires
        views.len() == ids@.len(),
        forall|k: int| 0 <= k < views.len() ==> views[k] == (#[trigger] ids@[k])@,
    ensures
        s@ == comma_joined(views),
{
    let mut s = String::new();
    let mut i: usize = 0;
    while i < ids.len()
        invariant
            i <= ids.len(),
            views.len() == ids@.len(),
            forall|k: int| 0 <= k < views.len() ==> views[k] == (#[trigger] ids@[k])@,
            s@ == comma_joined(views.take(i as int)),
        decreases ids.len() - i,
    {
        proof {
            assert(views.take(i + 1).drop_last() =~= views.take(i as int));
            assert(views.take(i + 1).last() == ids@[i as int]@);
        }
        if i > 0 {
            s.append(",");
        }
        s.append(ids[i].as_str());
        proof {
            if i == 0 {
                assert(s@ =~= views.take(1)[0]);
            }
        }
        i += 1;
    }
    proof {
        assert(views.take(ids.len() as int) =~= views);
    }
    s
}

/// The message with which `validate_binding_selection` refuses, in the order it checks:
/// an unknown capability; no binding chosen, naming the capability and the bindings
/// that serve it; a chosen binding that is missing or unavailable; or one without the
/// capability.
pub open spec fn selection_refusal(
    bindings: Seq<ExecutionBindingDescriptor>,
    capability: Option<bool>,
    capability_id: Seq<char>,
    selected: Option<Seq<char>>,
) -> Seq<char> {
    if capability is None {
        "unknown creative capability"@
    } else {
        match selected {
            None => "execution_binding_required:"@ + capability_id + ":"@ + comma_joined(serving_ids(bindings, capability_id)),
            Some(s) => if chosen_lacks_capability(bindings, s, capability_id) {
                "execution binding is incompatible with capability"@
            } else {
                "execution binding is unavailable"@
            },
        }
    }
}

/// `i` is the position of the first binding with identity `id`.
pub open spec fn first_with_id(bindings: Seq<ExecutionBindingDescriptor>, id: Seq<char>, i: int) -> bool {
    &&& 0 <= i < bindings.len()
    &&& bindings[i].binding_id@ == id
    &&& forall|k: int| 0 <= k < i ==> (#[trigger] bindings[k]).binding_id@ != id
}

/// The first binding with identity `id` is available but does not take `capability_id`.
pub open spec fn chosen_lacks_capability(bindings: Seq<ExecutionBindingDescriptor>, id: Seq<char>, capability_id: Seq<char>) -> bool {
    exists|i: int| #[trigger] first_with_id(bindings, id, i)
        && bindings[i].availability == BindingAvailability::Available && !has_view(bindings[i].capabilities@, capability_id)
}

pub open spec fn opt_str_view(s: Option<&str>) -> Option<Seq<char>> {
    match s { Some(v) => Some(v@), None => None }
}

proof fn lemma_first_with_id(bindings: Seq<ExecutionBindingDescriptor>, id: Seq<char>, i: int, j: int)
    requires
        first_with_id(bindings, id, i),
        first_with_id(bindings, id, j),
    ensures
        i == j,
{
    if i < j {
        assert(bindings[i].binding_id@ == id);
    } else if j < i {
        assert(bindings[j].binding_id@ == id);
    }
}

/// The refusal of a request that names no binding for a capability that needs one: it
/// names the capability and the bindings that serve it.
fn binding_required(bindings: &Vec<ExecutionBindingDescriptor>, capability_id: &str) -> (e: McpError)
    ensures
        invalid_with(e, "execution_binding_required:"@ + capability_id@ + ":"@ + comma_joined(serving_ids(bindings@, capability_id@))),
{
    let compatible = compatible_binding_ids(bindings, capability_id);
    let joined = join_with_commas(&compatible, Ghost(serving_ids(bindings@, capability_id@)));
    let mut message = String::from_str("execution_binding_required:");
    message.append(capability_id);
    message.append(":");
    message.append(joined.as_str());
    McpError::InvalidRequest(message)
}

/// Checks the caller's binding choice for a capability: `capability` says whether the
/// registry knows the capability and whether it needs a binding.
#[verifier::rlimit(40)]
pub fn validate_binding_selection(
    bindings: &Vec<ExecutionBindingDescriptor>,
    capability: Option<bool>,
    capability_id: &str,
    selected: Option<&str>,
) -> (r: Result<BindingSelection, McpError>)
    ensures
        capability is None ==> r is Err,
        capability == Some(false) ==> r == Ok::<BindingSelection, McpError>(BindingSelection::NotRequired),
        capability == Some(true) ==> match selected {
            None => r is Err,
            Some(s) => match r {
                Ok(BindingSelection::Selected(i)) => i < bindings.len() && bindings@[i as int].binding_id@ == s@
                    && serves(bindings@[i as int], capability_id@)
                    && forall|k: int| 0 <= k < i ==> (#[trigger] bindings@[k]).binding_id@ != s@,
                Ok(BindingSelection::NotRequired) => false,
                Err(_) => forall|k: int| 0 <= k < bindings.len() && (#[trigger] bindings@[k]).binding_id@ == s@
                    ==> (exists|q: int| 0 <= q < k && bindings@[q].binding_id@ == s@) || !serves(bindings@[k], capability_id@),
            },
        },
        r matches Err(e) ==> invalid_with(e, selection_refusal(bindings@, capability, capability_id@, opt_str_view(selected))),
{
    let requires_binding = match capability {
        None => {
            return Err(invalid("unknown creative capability"));
        },
        Some(b) => b,
    };
    if !requires_binding {
        return Ok(BindingSelection::NotRequired);
    }
    let selected = match selected {
        None => {
            return Err(binding_required(bindings, capability_id));
        },
        Some(s) => s,
    };
    let i = match binding(bindings, selected) {
        None => {
            return Err(invalid("execution binding is unavailable"));
        },
        Some(i) => i,
    };
    assert(first_with_id(bindings@, selected@, i as int));
    if bindings[i].availability != BindingAvailability::Available {
        proof {
            assert forall|j: int| #[trigger] first_with_id(bindings@, selected@, j)
                implies bindings@[j].availability != BindingAvailability::Available by {
                lemma_first_with_id(bindings@, selected@, i as int, j);
            }
            assert(!chosen_lacks_capability(bindings@, selected@, capability_id@));
        }
        return Err(invalid("execution binding is unavailable"));
    }
    if !contains_str(&bindings[i].capabilities, capability_id) {
        proof {
            assert(first_with_id(bindings@, selected@, i as int)
                && bindings@[i as int].availability == BindingAvailability::Available
                && !has_view(bindings@[i as int].capabilities@, capability_id@));
            assert(chosen_lacks_capability(bindings@, selected@, capability_id@));
        }
        return Err(invalid("execution binding is incompatible with capability"));
    }
    Ok(BindingSelection::Selected(i))
}

} // verus!

verus! {

/// The descriptors are strictly ascending by identity.
pub open spec fn ids_ascending(bs: Seq<ExecutionBindingDescriptor>) -> bool {
    forall|i: int, j: int| 0 <= i < j < bs.len() ==> lex_lt((#[trigger] bs[i]).binding_id@, (#[trigger] bs[j]).binding_id@)
}

pub open spec fn has_binding_id(bs: Seq<ExecutionBindingDescriptor>, id: Seq<char>) -> bool {
    exists|i: int| 0 <= i < bs.len() && (#[trigger] bs[i]).binding_id@ == id
}

proof fn lemma_insert_multiset_binding(s: Seq<ExecutionBindingDescriptor>, i: int, x: ExecutionBindingDescriptor)
    requires
        0 <= i <= s.len(),
    ensures
        s.insert(i, x).to_multiset() =~= s.to_multiset().insert(x),
{
    broadcast use vstd::multiset::group_multiset_axioms;
    let l = s.subrange(0, i);
    let r = s.subrange(i, s.len() as int);
    assert(s =~= l + r);
    vstd::seq_lib::lemma_multiset_commutative(l, r);
    vstd::seq_lib::lemma_multiset_commutative(l.push(x), r);
}

/// The configured bindings, checked, without repeated identities, in ascending order of
/// identity. `known` lists the registry's capabilities; `public_values[i]` says whether

/// Descriptor `i` is refused: out of bounds, or repeating the identity of an earlier one.
pub open spec fn descriptor_refused(ds: Seq<ExecutionBindingDescriptor>, known: Seq<String>, public_values: Seq<bool>, i: int) -> bool {
    ||| !descriptor_ok(ds[i], known, public_values[i])
    ||| exists|j: int| 0 <= j < i && (#[trigger] ds[j]).binding_id@ == ds[i].binding_id@
}

/// Descriptor `i` is the first refused one.
pub open spec fn first_refused_descriptor(ds: Seq<ExecutionBindingDescriptor>, known: Seq<String>, public_values: Seq<bool>, i: int) -> bool {
    &&& 0 <= i < ds.len()
    &&& descriptor_refused(ds, known, public_values, i)
    &&& forall|j: int| 0 <= j < i ==> !#[trigger] descriptor_refused(ds, known, public_values, j)
}

/// Why the descriptors are refused: the first refused one's own refusal, or a repeated
/// identity.
pub open spec fn descriptors_refusal(ds: Seq<ExecutionBindingDescriptor>, known: Seq<String>, public_values: Seq<bool>) -> Seq<char> {
    let i = choose|i: int| #[trigger] first_refused_descriptor(ds, known, public_values, i);
    if !descriptor_ok(ds[i], known, public_values[i]) {
        descriptor_refusal(ds[i], known, public_values[i])
    } else {
        "duplicate creative execution binding identity"@
    }
}

proof fn lemma_first_refused_descriptor(ds: Seq<ExecutionBindingDescriptor>, known: Seq<String>, public_values: Seq<bool>, i: int)
    requires
        first_refused_descriptor(ds, known, public_values, i),
    ensures
        (choose|c: int| #[trigger] first_refused_descriptor(ds, known, public_values, c)) == i,
{
    let c = choose|c: int| #[trigger] first_refused_descriptor(ds, known, public_values, c);
    assert(first_refused_descriptor(ds, known, public_values, c));
    if c < i {
        assert(!descriptor_refused(ds, known, public_values, c));
    } else if i < c {
        assert(!descriptor_refused(ds, known, public_values, i));
    }
}

/// descriptor `i` keeps its schema and constraints free of private values.
#[verifier::loop_isolation(false)]
pub fn execution_bindings(descriptors: Vec<ExecutionBindingDescriptor>, known: &Vec<String>, public_values: &Vec<bool>) -> (r: Result<Vec<ExecutionBindingDescriptor>, McpError>)
    requires
        public_values.len() == descriptors.len(),
    ensures
        r is Ok <==> (forall|i: int| 0 <= i < descriptors@.len() ==> descriptor_ok(#[trigger] descriptors@[i], known@, public_values@[i]))
            && (forall|i: int, j: int| 0 <= i < j < descriptors@.len() ==> (#[trigger] descriptors@[i]).binding_id@ != (#[trigger] descriptors@[j]).binding_id@),
        r matches Err(e) ==> invalid_with(e, descriptors_refusal(descriptors@, known@, public_values@)),
        r matches Ok(out) ==> out@.to_multiset() == descriptors@.to_multiset() && ids_ascending(out@),
{
    broadcast use vstd::multiset::group_multiset_axioms;
    let ghost input = descriptors@;
    let mut rest = descriptors;
    let mut out: Vec<ExecutionBindingDescriptor> = Vec::new();
    let mut k: usize = 0;
    while rest.len() > 0
        invariant
            k + rest.len() == input.len(),
            rest@ == input.skip(k as int),
            public_values.len() == input.len(),
            out@.to_multiset() == input.take(k as int).to_multiset(),
            ids_ascending(out@),
            forall|i: int| 0 <= i < k ==> descriptor_ok(#[trigger] input[i], known@, public_values@[i]),
            forall|i: int, j: int| 0 <= i < j < k ==> (#[trigger] input[i]).binding_id@ != (#[trigger] input[j]).binding_id@,
            forall|x: Seq<char>| has_binding_id(out@, x) <==> exists|i: int| 0 <= i < k && (#[trigger] input[i]).binding_id@ == x,
        decreases rest.len(),
    {
        let d = rest.remove(0);
        assert(d == input[k as int]);
        assert(rest@ =~= input.skip(k + 1));
        match validate_binding_descriptor(&d, known, public_values[k]) {
            Err(e) => {
                proof {
                    assert(!descriptor_ok(input[k as int], known@, public_values@[k as int]));
                    assert forall|j: int| 0 <= j < k implies !#[trigger] descriptor_refused(input, known@, public_values@, j) by {
                        assert(descriptor_ok(input[j], known@, public_values@[j]));
                    }
                    assert(first_refused_descriptor(input, known@, public_values@, k as int));
                    lemma_first_refused_descriptor(input, known@, public_values@, k as int);
                }
                return Err(e);
            },
            Ok(()) => {},
        }
        let mut p: usize = 0;
        let mut dup = false;
        while p < out.len() && !dup && str_lt(out[p].binding_id.as_str(), d.binding_id.as_str())
            invariant
                p <= out.len(),
                !dup,
                forall|q: int| 0 <= q < p ==> lex_lt((#[trigger] out@[q]).binding_id@, d.binding_id@),
            decreases out.len() - p,
        {
            p += 1;
        }
        if p < out.len() && str_eq(out[p].binding_id.as_str(), d.binding_id.as_str()) {
            proof {
                let j = choose|i: int| 0 <= i < k && (#[trigger] input[i]).binding_id@ == out@[p as int].binding_id@;
                assert(has_binding_id(out@, out@[p as int].binding_id@));
                assert(input[j].binding_id@ == input[k as int].binding_id@);
                assert forall|q: int| 0 <= q < k implies !#[trigger] descriptor_refused(input, known@, public_values@, q) by {
                    assert(descriptor_ok(input[q], known@, public_values@[q]));
                }
                assert(descriptor_refused(input, known@, public_values@, k as int));
                assert(first_refused_descriptor(input, known@, public_values@, k as int));
                lemma_first_refused_descriptor(input, known@, public_values@, k as int);
            }
            return Err(invalid("duplicate creative execution binding identity"));
        }
        proof {
            assert forall|q: int| 0 <= q < out@.len() implies (#[trigger] out@[q]).binding_id@ != d.binding_id@ by {
                if q < p {
                    lemma_lex_irreflexive(d.binding_id@);
                } else {
                    lemma_lex_total(out@[p as int].binding_id@, d.binding_id@);
                    if q > p {
                        if out@[q].binding_id@ == d.binding_id@ {
                            assert(lex_lt(out@[p as int].binding_id@, out@[q].binding_id@));
                            lemma_lex_total(d.binding_id@, out@[p as int].binding_id@);
                            if lex_lt(out@[p as int].binding_id@, d.binding_id@) {
                                assert(false);
                            }
                            lemma_lex_transitive(d.binding_id@, out@[p as int].binding_id@, d.binding_id@);
                            lemma_lex_irreflexive(d.binding_id@);
                        }
                    }
                }
            }
            assert forall|i: int| 0 <= i < k implies (#[trigger] input[i]).binding_id@ != input[k as int].binding_id@ by {
                if input[i].binding_id@ == input[k as int].binding_id@ {
                    assert(exists|j: int| 0 <= j < k && (#[trigger] input[j]).binding_id@ == d.binding_id@);
                    assert(has_binding_id(out@, d.binding_id@));
                }
            }
            lemma_insert_multiset_binding(out@, p as int, d);
            assert(input.take(k + 1) =~= input.take(k as int).push(d));
            let s = out@.insert(p as int, d);
            assert forall|i: int, j: int| 0 <= i < j < s.len() implies lex_lt((#[trigger] s[i]).binding_id@, (#[trigger] s[j]).binding_id@) by {
                if p < out@.len() {
                    lemma_lex_total(out@[p as int].binding_id@, d.binding_id@);
                }
                if i < p && j == p {
                } else if i < p && j > p {
                    assert(s[j] == out@[j - 1]);
                } else if i == p && j > p {
                    assert(s[j] == out@[j - 1]);
                    if j - 1 > p {
                        lemma_lex_transitive(d.binding_id@, out@[p as int].binding_id@, out@[j - 1].binding_id@);
                    }
                } else if i > p {
                    assert(s[i] == out@[i - 1] && s[j] == out@[j - 1]);
                } else {
                    assert(s[i] == out@[i] && s[j] == out@[j]);
                }
            }
        }
        let ghost old_out = out@;
        out.insert(p, d);
        proof {
            assert forall|x: Seq<char>| has_binding_id(out@, x) <==> exists|i: int| 0 <= i < k + 1 && (#[trigger] input[i]).binding_id@ == x by {
                if has_binding_id(out@, x) {
                    let q = choose|q: int| 0 <= q < out@.len() && (#[trigger] out@[q]).binding_id@ == x;
                    if q < p {
                        assert(out@[q] == old_out[q]);
                        assert(has_binding_id(old_out, x));
                    } else if q > p {
                        assert(out@[q] == old_out[q - 1]);
                        assert(has_binding_id(old_out, x));
                    } else {
                        assert(input[k as int].binding_id@ == x);
                    }
                }
                if exists|i: int| 0 <= i < k + 1 && (#[trigger] input[i]).binding_id@ == x {
                    let i = choose|i: int| 0 <= i < k + 1 && (#[trigger] input[i]).binding_id@ == x;
                    if i < k {
                        assert(has_binding_id(old_out, x));
                        let q = choose|q: int| 0 <= q < old_out.len() && (#[trigger] old_out[q]).binding_id@ == x;
                        if q < p {
                            assert(out@[q] == old_out[q]);
                        } else {
                            assert(out@[q + 1] == old_out[q]);
                        }
                    } else {
                        assert(out@[p as int] == d);
                    }
                }
            }
        }
        k += 1;
    }
    assert(input.take(k as int) =~= input);
    Ok(out)
}

} // verus!

verus! {


/// What the registry says of binding `binding_id` for capability `capability_id`: not
/// found, unavailable, without that capability, or compatible.
pub open spec fn binding_check_of(bindings: Seq<ExecutionBindingDescriptor>, binding_id: Seq<char>, capability_id: Seq<char>) -> BindingCheck {
    if !exists|k: int| 0 <= k < bindings.len() && (#[trigger] bindings[k]).binding_id@ == binding_id {
        BindingCheck::NotFound
    } else {
        let i = choose|i: int| 0 <= i < bindings.len() && (#[trigger] bindings[i]).binding_id@ == binding_id
            && forall|k: int| 0 <= k < i ==> (#[trigger] bindings[k]).binding_id@ != binding_id;
        if bindings[i].availability != BindingAvailability::Available {
            BindingCheck::Unavailable
        } else if !has_view(bindings[i].capabilities@, capability_id) {
            BindingCheck::Incompatible
        } else {
            BindingCheck::Compatible
        }
    }
}

/// Checks the binding a graph node selected for its capability.
pub fn check_node_binding(bindings: &Vec<ExecutionBindingDescriptor>, binding_id: &str, capability_id: &str) -> (r: BindingCheck)
    ensures
        r == binding_check_of(bindings@, binding_id@, capability_id@),
{
    match binding(bindings, binding_id) {
        None => BindingCheck::NotFound,
        Some(i) => {
            proof {
                let c = choose|c: int| 0 <= c < bindings@.len() && (#[trigger] bindings@[c]).binding_id@ == binding_id@
                    && forall|k: int| 0 <= k < c ==> (#[trigger] bindings@[k]).binding_id@ != binding_id@;
                assert(0 <= i < bindings@.len() && bindings@[i as int].binding_id@ == binding_id@
                    && forall|k: int| 0 <= k < i ==> (#[trigger] bindings@[k]).binding_id@ != binding_id@);
                if c < i {
                    assert(bindings@[c].binding_id@ == binding_id@);
                } else if i < c {
                    assert(bindings@[i as int].binding_id@ == binding_id@);
                }
                assert(c == i);
            }
            if bindings[i].availability != BindingAvailability::Available {
                BindingCheck::Unavailable
            } else if !contains_str(&bindings[i].capabilities, capability_id) {
                BindingCheck::Incompatible
            } else {
                BindingCheck::Compatible
            }
        },
    }
}

} // verus!
