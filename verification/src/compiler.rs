use vstd::prelude::*;
use crate::error::{invalid, internal, invalid_with, McpError};
use crate::text::{id_rule, is_valid_id, validate_id, byte_len, has_control, contains_control, str_eq, distinct_views};
use crate::order::{sorted_views, sort_strings};
use crate::bindings::{ExecutionBindingDescriptor, BindingSelection, validate_binding_selection, serves};
use crate::outside::{check_against_schema, schema_verdict};
use crate::contracts::CREATIVE_SCHEMA_VERSION;

verus! {

broadcast use vstd::seq_lib::group_seq_properties, vstd::multiset::group_multiset_axioms;

pub const MAX_SEMANTIC_REFERENCES: usize = 32;
pub const MAX_CHANGED_FIELDS: usize = 32;
pub const MAX_BINDING_EXTENSIONS: usize = 32;

/// A reference asset of a semantic request, with its role and place.
#[derive(Debug)]
pub struct SemanticReference {
    pub asset_id: String,
    pub role: String,
    pub order: u32,
}

/// Parameters for one execution binding, keyed by its identity. `value` is compact JSON
/// text.
#[derive(Debug)]
pub struct BindingExtension {
    pub binding_id: String,
    pub value: String,
}

/// A binding-neutral description of what to generate.
#[derive(Debug)]
pub struct SemanticRequestSpec {
    pub schema_version: u32,
    pub prompt: Option<String>,
    pub references: Vec<SemanticReference>,
    pub asset_id: Option<String>,
    pub mask_asset_id: Option<String>,
    pub element_id: Option<String>,
    pub width: Option<u32>,
    pub height: Option<u32>,
    pub batch_count: Option<u32>,
    pub duration_ms: Option<u64>,
    pub binding_extensions: Vec<BindingExtension>,
}

pub open spec fn opt_id_ok(v: Option<String>) -> bool {
    v matches Some(s) ==> is_valid_id(s@)
}

pub open spec fn reference_ok(r: SemanticReference) -> bool {
    is_valid_id(r.asset_id@) && r.role@.len() > 0 && byte_len(r.role@) <= 128 && !has_control(r.role@)
}

pub open spec fn dimension_ok(d: Option<u32>) -> bool {
    d matches Some(v) ==> 0 < v && v <= 16384
}

/// A semantic request that the compiler accepts: current schema, a bounded prompt,
/// up to 32 references with distinct assets and places, identifiers, bounded sizes and
/// counts, and up to 32 binding extensions keyed by identifiers.
pub open spec fn semantic_spec_ok(s: SemanticRequestSpec) -> bool {
    &&& s.schema_version == CREATIVE_SCHEMA_VERSION
    &&& (s.prompt matches Some(p) ==> p@.len() > 0 && byte_len(p@) <= 8192 && !has_control(p@))
    &&& s.references@.len() <= MAX_SEMANTIC_REFERENCES
    &&& (forall|i: int| 0 <= i < s.references@.len() ==> reference_ok(#[trigger] s.references@[i]))
    &&& (forall|i: int, j: int| 0 <= i < s.references@.len() && 0 <= j < s.references@.len() && i != j
        ==> (#[trigger] s.references@[i]).asset_id@ != (#[trigger] s.references@[j]).asset_id@
            && s.references@[i].order != s.references@[j].order)
    &&& opt_id_ok(s.asset_id)
    &&& opt_id_ok(s.mask_asset_id)
    &&& opt_id_ok(s.element_id)
    &&& dimension_ok(s.width)
    &&& dimension_ok(s.height)
    &&& (s.batch_count matches Some(b) ==> 0 < b && b <= 128)
    &&& (s.duration_ms matches Some(d) ==> 0 < d && d <= 86400000)
    &&& s.binding_extensions@.len() <= MAX_BINDING_EXTENSIONS
    &&& (forall|i: int| 0 <= i < s.binding_extensions@.len() ==> is_valid_id((#[trigger] s.binding_extensions@[i]).binding_id@))
}

/// Why a semantic request spec is refused, in the order it is checked.
pub open spec fn semantic_spec_refusal(s: SemanticRequestSpec) -> Seq<char> {
    if s.schema_version != CREATIVE_SCHEMA_VERSION {
        "creative semantic spec schema version is unsupported"@
    } else if !(s.prompt matches Some(p) ==> p@.len() > 0 && byte_len(p@) <= 8192 && !has_control(p@)) {
        "creative semantic prompt exceeds allowed bounds"@
    } else if s.references@.len() > MAX_SEMANTIC_REFERENCES {
        "creative semantic reference count exceeds maximum"@
    } else if !((forall|i: int| 0 <= i < s.references@.len() ==> reference_ok(#[trigger] s.references@[i]))
        && (forall|i: int, j: int| 0 <= i < s.references@.len() && 0 <= j < s.references@.len() && i != j
        ==> (#[trigger] s.references@[i]).asset_id@ != (#[trigger] s.references@[j]).asset_id@
            && s.references@[i].order != s.references@[j].order)) {
        "creative semantic reference is invalid or duplicated"@
    } else if !(opt_id_ok(s.asset_id) && opt_id_ok(s.mask_asset_id) && opt_id_ok(s.element_id)) {
        "creative semantic identifier is invalid"@
    } else if !(dimension_ok(s.width) && dimension_ok(s.height)) {
        "creative semantic dimensions exceed allowed bounds"@
    } else if !((s.batch_count matches Some(b) ==> 0 < b && b <= 128) && (s.duration_ms matches Some(d) ==> 0 < d && d <= 86400000)) {
        "creative semantic request dimensions exceed allowed bounds"@
    } else if s.binding_extensions@.len() > MAX_BINDING_EXTENSIONS {
        "creative semantic binding extension count exceeds maximum"@
    } else {
        "binding extension id"@ + id_rule()
    }
}

fn check_opt_id(v: &Option<String>) -> (r: bool)
    ensures
        r == opt_id_ok(*v),
{
    match v {
        Some(s) => validate_id(s.as_str(), "identifier").is_ok(),
        None => true,
    }
}

fn check_dimension(d: Option<u32>) -> (r: bool)
    ensures
        r == dimension_ok(d),
{
    match d {
        Some(v) => 0 < v && v <= 16384,
        None => true,
    }
}

fn check_references(refs: &Vec<SemanticReference>) -> (r: bool)
    ensures
        r == ((forall|i: int| 0 <= i < refs@.len() ==> reference_ok(#[trigger] refs@[i]))
            && (forall|i: int, j: int| 0 <= i < refs@.len() && 0 <= j < refs@.len() && i != j
                ==> (#[trigger] refs@[i]).asset_id@ != (#[trigger] refs@[j]).asset_id@ && refs@[i].order != refs@[j].order)),
{
    let mut i: usize = 0;
    while i < refs.len()
        invariant
            i <= refs.len(),
            forall|k: int| 0 <= k < i ==> reference_ok(#[trigger] refs@[k]),
            forall|a: int, b: int| 0 <= a < i && 0 <= b < i && a != b
                ==> (#[trigger] refs@[a]).asset_id@ != (#[trigger] refs@[b]).asset_id@ && refs@[a].order != refs@[b].order,
        decreases refs.len() - i,
    {
        let r = &refs[i];
        if validate_id(r.asset_id.as_str(), "reference asset id").is_err() || r.role.as_str().is_empty()
            || r.role.as_str().len() > 128 || contains_control(r.role.as_str())
        {
            return false;
        }
        let mut j: usize = 0;
        while j < i
            invariant
                i < refs.len(),
                j <= i,
                forall|k: int| 0 <= k < j ==> (#[trigger] refs@[k]).asset_id@ != refs@[i as int].asset_id@
                    && refs@[k].order != refs@[i as int].order,
            decreases i - j,
        {
            if str_eq(refs[j].asset_id.as_str(), refs[i].asset_id.as_str()) || refs[j].order == refs[i].order {
                return false;
            }
            j += 1;
        }
        i += 1;
    }
    true
}

/// Checks a semantic request.
#[verifier::loop_isolation(false)]
pub fn validate_semantic_spec(spec: &SemanticRequestSpec) -> (r: Result<(), McpError>)
    ensures
        r is Ok <==> semantic_spec_ok(*spec),
        r matches Err(e) ==> invalid_with(e, semantic_spec_refusal(*spec)),
{
    if spec.schema_version != CREATIVE_SCHEMA_VERSION {
        return Err(invalid("creative semantic spec schema version is unsupported"));
    }
    if let Some(p) = &spec.prompt {
        if p.as_str().is_empty() || p.as_str().len() > 8192 || contains_control(p.as_str()) {
            return Err(invalid("creative semantic prompt exceeds allowed bounds"));
        }
    }
    if spec.references.len() > MAX_SEMANTIC_REFERENCES {
        return Err(invalid("creative semantic reference count exceeds maximum"));
    }
    if !check_references(&spec.references) {
        return Err(invalid("creative semantic reference is invalid or duplicated"));
    }
    if !(check_opt_id(&spec.asset_id) && check_opt_id(&spec.mask_asset_id) && check_opt_id(&spec.element_id)) {
        return Err(invalid("creative semantic identifier is invalid"));
    }
    if !(check_dimension(spec.width) && check_dimension(spec.height)) {
        return Err(invalid("creative semantic dimensions exceed allowed bounds"));
    }
    let batch_ok = match spec.batch_count { Some(b) => 0 < b && b <= 128, None => true };
    let duration_ok = match spec.duration_ms { Some(d) => 0 < d && d <= 86400000, None => true };
    if !batch_ok || !duration_ok {
        return Err(invalid("creative semantic request dimensions exceed allowed bounds"));
    }
    if spec.binding_extensions.len() > MAX_BINDING_EXTENSIONS {
        return Err(invalid("creative semantic binding extension count exceeds maximum"));
    }
    let mut i: usize = 0;
    while i < spec.binding_extensions.len()
        invariant
            i <= spec.binding_extensions.len(),
            forall|k: int| 0 <= k < i ==> is_valid_id((#[trigger] spec.binding_extensions@[k]).binding_id@),
        decreases spec.binding_extensions.len() - i,
    {
        match validate_id(spec.binding_extensions[i].binding_id.as_str(), "binding extension id") {
            Err(e) => { return Err(e); },
            Ok(()) => {},
        }
        i += 1;
    }
    Ok(())
}

/// A field that a changed-fields list may name.
pub open spec fn changeable_field(f: Seq<char>) -> bool {
    f == "prompt"@ || f == "references"@ || f == "asset_id"@ || f == "mask_asset_id"@ || f == "element_id"@
        || f == "width"@ || f == "height"@ || f == "batch_count"@ || f == "duration_ms"@ || f == "binding_extensions"@
}

/// A changed-fields list: at most 32 distinct changeable fields.
pub open spec fn changed_fields_ok(fields: Seq<String>) -> bool {
    &&& fields.len() <= MAX_CHANGED_FIELDS
    &&& forall|i: int| 0 <= i < fields.len() ==> changeable_field((#[trigger] fields[i])@)
    &&& distinct_views(fields)
}

fn is_changeable(f: &str) -> (r: bool)
    ensures
        r == changeable_field(f@),
{
    str_eq(f, "prompt") || str_eq(f, "references") || str_eq(f, "asset_id") || str_eq(f, "mask_asset_id")
        || str_eq(f, "element_id") || str_eq(f, "width") || str_eq(f, "height") || str_eq(f, "batch_count")
        || str_eq(f, "duration_ms") || str_eq(f, "binding_extensions")
}

/// Checks a changed-fields list and returns it in sorted order.
pub fn validate_changed_fields(fields: &Vec<String>) -> (r: Result<Vec<String>, McpError>)
    ensures
        match r {
            Ok(v) => changed_fields_ok(fields@) && sorted_views(v@) && v@.to_multiset() == fields@.to_multiset(),
            Err(e) => e is InvalidRequest && !changed_fields_ok(fields@),
        },
{
    if fields.len() > MAX_CHANGED_FIELDS {
        return Err(invalid("creative changed-fields count exceeds maximum"));
    }
    let mut copy: Vec<String> = Vec::new();
    let mut i: usize = 0;
    while i < fields.len()
        invariant
            i <= fields.len(),
            copy@ == fields@.take(i as int),
            forall|k: int| 0 <= k < i ==> changeable_field((#[trigger] fields@[k])@),
        decreases fields.len() - i,
    {
        if !is_changeable(fields[i].as_str()) {
            return Err(invalid("creative changed field is unsupported or duplicated"));
        }
        copy.push(fields[i].clone());
        proof {
            assert(copy@ =~= fields@.take(i + 1));
        }
        i += 1;
    }
    proof {
        assert(fields@.take(fields.len() as int) =~= fields@);
    }
    if !crate::text::distinct_strings(&copy) {
        return Err(invalid("creative changed field is unsupported or duplicated"));
    }
    Ok(sort_strings(copy))
}

// ---------------------------------------------------------------------------
// Compilation

fn copy_reference(r: &SemanticReference) -> (c: SemanticReference)
    ensures
        c == *r,
{
    SemanticReference { asset_id: r.asset_id.clone(), role: r.role.clone(), order: r.order }
}

fn copy_opt(v: &Option<String>) -> (c: Option<String>)
    ensures
        c == *v,
{
    match v {
        Some(s) => Some(s.clone()),
        None => None,
    }
}

/// What a compiled request hands the binding: the request's values, its references in
/// their order, and the extension for the chosen binding. `binding_extension` is
/// compact JSON text.
pub struct CompiledParameters {
    pub prompt: Option<String>,
    pub asset_id: Option<String>,
    pub mask_asset_id: Option<String>,
    pub element_id: Option<String>,
    pub width: Option<u32>,
    pub height: Option<u32>,
    pub batch_count: Option<u32>,
    pub duration_ms: Option<u64>,
    pub references: Vec<SemanticReference>,
    pub binding_extension: Option<String>,
}

/// A compiled semantic request, tied to the binding and version it was compiled for.
pub struct CompiledSemanticSpec {
    pub compiler_version: String,
    pub capability_id: String,
    pub execution_binding_id: String,
    pub execution_binding_version: String,
    pub parameters: CompiledParameters,
    pub changed_fields: Vec<String>,
}

pub open spec fn by_order(s: Seq<SemanticReference>) -> bool {
    forall|i: int, j: int| 0 <= i < j < s.len() ==> (#[trigger] s[i]).order < (#[trigger] s[j]).order
}

/// The position of the first extension for `binding_id`.
pub open spec fn extension_index(exts: Seq<BindingExtension>, binding_id: Seq<char>) -> Option<int>
    decreases exts.len(),
{
    if exts.len() == 0 {
        None
    } else {
        match extension_index(exts.drop_last(), binding_id) {
            Some(i) => Some(i),
            None => if exts.last().binding_id@ == binding_id { Some(exts.len() - 1) } else { None },
        }
    }
}

proof fn lemma_extension_index(exts: Seq<BindingExtension>, binding_id: Seq<char>, k: int)
    requires
        -1 <= k < exts.len(),
        k >= 0 ==> exts[k].binding_id@ == binding_id,
        forall|j: int| 0 <= j < (if k >= 0 { k } else { exts.len() as int }) ==> (#[trigger] exts[j]).binding_id@ != binding_id,
    ensures
        extension_index(exts, binding_id) == (if k >= 0 { Some(k) } else { None::<int> }),
    decreases exts.len(),
{
    if exts.len() > 0 {
        let d = exts.drop_last();
        if k >= 0 && k < exts.len() - 1 {
            assert forall|j: int| 0 <= j < k implies (#[trigger] d[j]).binding_id@ != binding_id by {
                assert(d[j] == exts[j]);
            }
            assert(d[k] == exts[k]);
            lemma_extension_index(d, binding_id, k);
        } else {
            assert forall|j: int| 0 <= j < d.len() implies (#[trigger] d[j]).binding_id@ != binding_id by {
                assert(d[j] == exts[j]);
            }
            lemma_extension_index(d, binding_id, -1);
        }
    }
}

fn find_extension(exts: &Vec<BindingExtension>, binding_id: &str) -> (r: Option<usize>)
    ensures
        match r {
            Some(i) => i < exts.len() && extension_index(exts@, binding_id@) == Some(i as int),
            None => extension_index(exts@, binding_id@) is None,
        },
{
    let mut i: usize = 0;
    while i < exts.len()
        invariant
            i <= exts.len(),
            forall|j: int| 0 <= j < i ==> (#[trigger] exts@[j]).binding_id@ != binding_id@,
        decreases exts.len() - i,
    {
        if str_eq(exts[i].binding_id.as_str(), binding_id) {
            proof {
                lemma_extension_index(exts@, binding_id@, i as int);
            }
            return Some(i);
        }
        i += 1;
    }
    proof {
        lemma_extension_index(exts@, binding_id@, -1);
    }
    None
}

/// The references in increasing order of place.
fn references_by_order(refs: &Vec<SemanticReference>) -> (out: Vec<SemanticReference>)
    requires
        forall|i: int, j: int| 0 <= i < refs@.len() && 0 <= j < refs@.len() && i != j
            ==> (#[trigger] refs@[i]).order != (#[trigger] refs@[j]).order,
    ensures
        by_order(out@),
        out@.to_multiset() == refs@.to_multiset(),
{
    let mut out: Vec<SemanticReference> = Vec::new();
    let mut k: usize = 0;
    while k < refs.len()
        invariant
            k <= refs.len(),
            by_order(out@),
            out@.to_multiset() == refs@.take(k as int).to_multiset(),
            forall|i: int, j: int| 0 <= i < refs@.len() && 0 <= j < refs@.len() && i != j
                ==> (#[trigger] refs@[i]).order != (#[trigger] refs@[j]).order,
            forall|q: int| 0 <= q < out@.len() ==> exists|m: int| 0 <= m < k && #[trigger] out@[q] == refs@[m],
        decreases refs.len() - k,
    {
        let x = copy_reference(&refs[k]);
        let mut j: usize = out.len();
        while j > 0 && out[j - 1].order > x.order
            invariant
                j <= out.len(),
                forall|q: int| j <= q < out@.len() ==> (#[trigger] out@[q]).order > x.order,
            decreases j,
        {
            j -= 1;
        }
        let ghost prev = out@;
        proof {
            if j > 0 {
                let m = choose|m: int| 0 <= m < k && prev[j - 1] == refs@[m];
                assert(m != k);
                assert(prev[j - 1].order != x.order);
            }
        }
        out.insert(j, x);
        proof {
            assert(refs@.take(k + 1) =~= refs@.take(k as int).push(refs@[k as int]));
            assert(out@ =~= prev.insert(j as int, x));
            assert(out@.to_multiset() =~= prev.to_multiset().insert(x)) by {
                vstd::seq_lib::lemma_seq_union_to_multiset_commutative(prev.take(j as int), prev.skip(j as int));
                assert(prev =~= prev.take(j as int) + prev.skip(j as int));
                assert(out@ =~= prev.take(j as int) + seq![x] + prev.skip(j as int));
                vstd::seq_lib::lemma_multiset_commutative(prev.take(j as int) + seq![x], prev.skip(j as int));
                vstd::seq_lib::lemma_multiset_commutative(prev.take(j as int), seq![x]);
                vstd::seq_lib::lemma_multiset_commutative(prev.take(j as int), prev.skip(j as int));
            }
            assert forall|a: int, b: int| 0 <= a < b < out@.len() implies (#[trigger] out@[a]).order < (#[trigger] out@[b]).order by {
                if b < j {
                    assert(out@[a] == prev[a] && out@[b] == prev[b]);
                } else if b == j {
                    assert(out@[a] == prev[a]);
                    if a < j - 1 {
                        assert(prev[a].order < prev[j - 1].order);
                    }
                } else if a < j {
                    assert(out@[a] == prev[a] && out@[b] == prev[b - 1]);
                    if a < b - 1 {
                        assert(prev[a].order < prev[b - 1].order);
                    }
                } else if a == j {
                    assert(out@[b] == prev[b - 1]);
                } else {
                    assert(out@[a] == prev[a - 1] && out@[b] == prev[b - 1]);
                }
            }
            assert forall|q: int| 0 <= q < out@.len() implies exists|m: int| 0 <= m < k + 1 && #[trigger] out@[q] == refs@[m] by {
                if q < j {
                    assert(out@[q] == prev[q]);
                } else if q == j {
                    assert(out@[q] == refs@[k as int]);
                } else {
                    assert(out@[q] == prev[q - 1]);
                }
            }
        }
        k += 1;
    }
    proof {
        assert(refs@.take(refs.len() as int) =~= refs@);
    }
    out
}

/// What compiling `spec` for `binding` yields, besides the extension check.
pub open spec fn compiled_from(spec: SemanticRequestSpec, p: CompiledParameters) -> bool {
    &&& p.prompt == spec.prompt
    &&& p.asset_id == spec.asset_id
    &&& p.mask_asset_id == spec.mask_asset_id
    &&& p.element_id == spec.element_id
    &&& p.width == spec.width
    &&& p.height == spec.height
    &&& p.batch_count == spec.batch_count
    &&& p.duration_ms == spec.duration_ms
    &&& by_order(p.references@)
    &&& p.references@.to_multiset() == spec.references@.to_multiset()
}

/// Compiles the parameters of a checked request for `binding`: the extension for the
/// binding, if the request has one, must pass the binding's extension schema.
pub fn compile_parameters(spec: &SemanticRequestSpec, binding: &ExecutionBindingDescriptor) -> (r: Result<CompiledParameters, McpError>)
    requires
        semantic_spec_ok(*spec),
    ensures
        match extension_index(spec.binding_extensions@, binding.binding_id@) {
            None => r matches Ok(p) && compiled_from(*spec, p) && p.binding_extension is None,
            Some(i) => {
                let ext = spec.binding_extensions@[i].value@;
                match schema_verdict(binding.extension_schema@, ext) {
                    None => r matches Err(e) && e is Internal,
                    Some(false) => r matches Err(e) && e is InvalidRequest,
                    Some(true) => r matches Ok(p) && compiled_from(*spec, p)
                        && (p.binding_extension matches Some(x) && x@ == ext),
                }
            },
        },
{
    let references = references_by_order(&spec.references);
    let binding_extension = match find_extension(&spec.binding_extensions, binding.binding_id.as_str()) {
        None => None,
        Some(i) => {
            let value = &spec.binding_extensions[i].value;
            match check_against_schema(binding.extension_schema.as_str(), value.as_str()) {
                None => { return Err(internal("creative binding extension schema is invalid")); },
                Some(false) => { return Err(invalid("creative binding extension does not match selected binding schema")); },
                Some(true) => Some(value.clone()),
            }
        },
    };
    Ok(CompiledParameters {
        prompt: copy_opt(&spec.prompt),
        asset_id: copy_opt(&spec.asset_id),
        mask_asset_id: copy_opt(&spec.mask_asset_id),
        element_id: copy_opt(&spec.element_id),
        width: spec.width,
        height: spec.height,
        batch_count: spec.batch_count,
        duration_ms: spec.duration_ms,
        references,
        binding_extension,
    })
}

/// The version of this compiler.
pub open spec fn compiler_version() -> Seq<char> {
    "creative.semantic.v1"@
}

/// `i` is the first binding with identity `id`, and it serves `capability_id`.
pub open spec fn first_serving(bindings: Seq<ExecutionBindingDescriptor>, id: Seq<char>, capability_id: Seq<char>, i: int) -> bool {
    &&& 0 <= i < bindings.len()
    &&& bindings[i].binding_id@ == id
    &&& serves(bindings[i], capability_id)
    &&& forall|k: int| 0 <= k < i ==> (#[trigger] bindings[k]).binding_id@ != id
}

/// The binding a request may compile for: the first one with the chosen identity, where
/// that one serves the capability.
pub open spec fn chosen_binding(bindings: Seq<ExecutionBindingDescriptor>, id: Seq<char>, capability_id: Seq<char>) -> Option<int> {
    if exists|i: int| #[trigger] first_serving(bindings, id, capability_id, i) {
        Some(choose|i: int| #[trigger] first_serving(bindings, id, capability_id, i))
    } else {
        None
    }
}

proof fn lemma_chosen_binding(bindings: Seq<ExecutionBindingDescriptor>, id: Seq<char>, capability_id: Seq<char>, i: int)
    requires
        first_serving(bindings, id, capability_id, i),
    ensures
        chosen_binding(bindings, id, capability_id) == Some(i),
{
    let c = choose|c: int| #[trigger] first_serving(bindings, id, capability_id, c);
    assert(first_serving(bindings, id, capability_id, c));
    if c < i {
        assert(bindings[c].binding_id@ == id);
    } else if i < c {
        assert(bindings[i].binding_id@ == id);
    }
}

/// The request's extension for binding `b`, if it has one, passes the binding's schema.
pub open spec fn extension_accepted(spec: SemanticRequestSpec, b: ExecutionBindingDescriptor) -> bool {
    match extension_index(spec.binding_extensions@, b.binding_id@) {
        None => true,
        Some(i) => schema_verdict(b.extension_schema@, spec.binding_extensions@[i].value@) == Some(true),
    }
}

/// When `compile` succeeds: a well-formed request, a known capability that needs a
/// binding, a chosen binding that serves it, acceptable changed fields, and an extension
/// for that binding, if any, that passes its schema.
pub open spec fn compile_succeeds(
    bindings: Seq<ExecutionBindingDescriptor>,
    capability: Option<bool>,
    capability_id: Seq<char>,
    binding_id: Seq<char>,
    spec: SemanticRequestSpec,
    changed_fields: Seq<String>,
) -> bool {
    &&& semantic_spec_ok(spec)
    &&& capability == Some(true)
    &&& chosen_binding(bindings, binding_id, capability_id) is Some
    &&& changed_fields_ok(changed_fields)
    &&& extension_accepted(spec, bindings[chosen_binding(bindings, binding_id, capability_id)->0])
}

/// Compiles a semantic request for the capability's chosen binding. `capability` says
/// whether the registry knows the capability and whether it needs a binding.
pub fn compile(
    bindings: &Vec<ExecutionBindingDescriptor>,
    capability: Option<bool>,
    capability_id: &str,
    binding_id: &str,
    spec: &SemanticRequestSpec,
    changed_fields: &Vec<String>,
) -> (r: Result<CompiledSemanticSpec, McpError>)
    ensures
        r matches Ok(c) ==> {
            &&& semantic_spec_ok(*spec)
            &&& capability == Some(true)
            &&& changed_fields_ok(changed_fields@)
            &&& c.compiler_version@ == compiler_version()
            &&& c.capability_id@ == capability_id@
            &&& c.execution_binding_id@ == binding_id@
            &&& exists|i: int| 0 <= i < bindings@.len() && bindings@[i].binding_id@ == binding_id@
                && serves(bindings@[i], capability_id@)
                && c.execution_binding_version == bindings@[i].binding_version
            &&& compiled_from(*spec, c.parameters)
            &&& sorted_views(c.changed_fields@)
            &&& c.changed_fields@.to_multiset() == changed_fields@.to_multiset()
        },
        !semantic_spec_ok(*spec) ==> r is Err,
        capability != Some(true) ==> r is Err,
        !changed_fields_ok(changed_fields@) ==> r is Err,
        r is Ok <==> compile_succeeds(bindings@, capability, capability_id@, binding_id@, *spec, changed_fields@),
        r matches Ok(c) ==> c.execution_binding_version
            == bindings@[chosen_binding(bindings@, binding_id@, capability_id@)->0].binding_version,
{
    validate_semantic_spec(spec)?;
    let selection = validate_binding_selection(bindings, capability, capability_id, Some(binding_id));
    let i = match selection {
        Ok(BindingSelection::Selected(i)) => {
            assert(capability == Some(true));
            assert(i < bindings.len());
            proof {
                lemma_chosen_binding(bindings@, binding_id@, capability_id@, i as int);
            }
            i
        },
        Ok(BindingSelection::NotRequired) => {
            return Err(invalid("creative semantic compiler requires a binding"));
        },
        Err(e) => {
            proof {
                if capability == Some(true) && chosen_binding(bindings@, binding_id@, capability_id@) is Some {
                    let c = choose|c: int| #[trigger] first_serving(bindings@, binding_id@, capability_id@, c);
                    assert(first_serving(bindings@, binding_id@, capability_id@, c));
                    assert(bindings@[c].binding_id@ == binding_id@);
                }
            }
            return Err(e);
        },
    };
    let changed = validate_changed_fields(changed_fields)?;
    let binding = &bindings[i];
    let parameters = compile_parameters(spec, binding)?;
    Ok(CompiledSemanticSpec {
        compiler_version: String::from_str("creative.semantic.v1"),
        capability_id: capability_id.to_owned(),
        execution_binding_id: binding.binding_id.clone(),
        execution_binding_version: binding.binding_version.clone(),
        parameters,
        changed_fields: changed,
    })
}

} // verus!
