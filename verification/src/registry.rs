use vstd::prelude::*;
use crate::error::{internal, internal_with, invalid, invalid_with, McpError};
use crate::jobs::{is_bounded_spec, spec_refusal, validate_spec};
use crate::outside::{check_against_schema, schema_verdict};
use crate::production::text_ok;
use crate::text::{id_rule, is_valid_id, str_eq, validate_id, validate_text};
use crate::bindings::{serves, validate_binding_selection, BindingSelection, ExecutionBindingDescriptor};
use crate::estimates::{binding_estimate_is, binding_estimate_ok, estimate_from_binding_constraints, EstimateParameters, EstimateProfile};
use crate::jobs::CreativeEstimate;

verus! {

/// The parameters of a capability request that its own contract reads, each as JSON
/// gives it: `None` where the field is absent or of another JSON type.
#[derive(Clone, Debug)]
pub struct CapabilityParameterFacts {
    pub consent_asserted: Option<bool>,
    /// The length of `reference_asset_ids`, where it is an array.
    pub reference_asset_count: Option<usize>,
    pub asset_id: Option<String>,
    pub voice_element_id: Option<String>,
    pub video_asset_id: Option<String>,
    pub language: Option<String>,
    pub reference_asset_id: Option<String>,
    pub motion_asset_id: Option<String>,
    pub start_ms: Option<u64>,
    pub end_ms: Option<u64>,
}

pub const MAX_VOICE_CLONE_REFERENCES: usize = 16;
pub const MAX_CLIP_EXTRACT_MS: u64 = 1800000;

/// A required identifier parameter: present, a string, and a valid identifier.
pub open spec fn id_param_ok(f: Option<String>) -> bool {
    f matches Some(s) && is_valid_id(s@)
}

/// What a capability's own contract asks of its parameters, beyond its schema.
pub open spec fn capability_contract_ok(id: Seq<char>, p: CapabilityParameterFacts) -> bool {
    if id == "audio.voice_clone"@ {
        &&& p.consent_asserted == Some(true)
        &&& p.reference_asset_count matches Some(n) && 1 <= n <= MAX_VOICE_CLONE_REFERENCES
    } else if id == "audio.voice_change"@ {
        id_param_ok(p.asset_id) && id_param_ok(p.voice_element_id)
    } else if id == "audio.video_dub"@ {
        &&& id_param_ok(p.video_asset_id)
        &&& id_param_ok(p.voice_element_id)
        &&& p.language matches Some(l) && text_ok(l@, 1, 32)
    } else if id == "video.motion_control"@ {
        id_param_ok(p.reference_asset_id) && id_param_ok(p.motion_asset_id)
    } else if id == "video.clip_extract"@ {
        &&& id_param_ok(p.asset_id)
        &&& p.start_ms matches Some(s)
        &&& p.end_ms matches Some(e)
        &&& s < e && e - s <= MAX_CLIP_EXTRACT_MS
    } else {
        true
    }
}

/// The first of two refusals.
pub open spec fn or_else(a: Option<Seq<char>>, b: Option<Seq<char>>) -> Option<Seq<char>> {
    if a is Some { a } else { b }
}

/// Why a required identifier parameter is refused: absent, or not an identifier.
pub open spec fn id_param_refusal(f: Option<String>, field: Seq<char>) -> Option<Seq<char>> {
    match f {
        None => Some("creative "@ + field + " is required"@),
        Some(s) => if is_valid_id(s@) { None } else { Some(field + id_rule()) },
    }
}

/// Why the contract of capability `id` refuses its parameters, in the order it checks.
pub open spec fn capability_contract_refusal(id: Seq<char>, p: CapabilityParameterFacts) -> Option<Seq<char>> {
    if id == "audio.voice_clone"@ {
        if p.consent_asserted != Some(true) {
            Some("audio.voice_clone requires explicit consent_asserted=true"@)
        } else {
            match p.reference_asset_count {
                None => Some("audio.voice_clone requires reference_asset_ids"@),
                Some(n) => if 1 <= n <= MAX_VOICE_CLONE_REFERENCES { None } else {
                    Some("audio.voice_clone reference count is outside allowed bounds"@)
                },
            }
        }
    } else if id == "audio.voice_change"@ {
        or_else(id_param_refusal(p.asset_id, "asset_id"@), id_param_refusal(p.voice_element_id, "voice_element_id"@))
    } else if id == "audio.video_dub"@ {
        or_else(id_param_refusal(p.video_asset_id, "video_asset_id"@), or_else(id_param_refusal(p.voice_element_id, "voice_element_id"@),
            match p.language {
                None => Some("creative language is required"@),
                Some(l) => if text_ok(l@, 1, 32) { None } else { Some("creative language is outside allowed bounds"@) },
            }))
    } else if id == "video.motion_control"@ {
        or_else(id_param_refusal(p.reference_asset_id, "reference_asset_id"@), id_param_refusal(p.motion_asset_id, "motion_asset_id"@))
    } else if id == "video.clip_extract"@ {
        or_else(id_param_refusal(p.asset_id, "asset_id"@), match (p.start_ms, p.end_ms) {
            (None, _) => Some("clip start_ms is required"@),
            (Some(_), None) => Some("clip end_ms is required"@),
            (Some(s), Some(e)) => if s < e && e - s <= MAX_CLIP_EXTRACT_MS { None } else {
                Some("clip extraction range is outside allowed bounds"@)
            },
        })
    } else {
        None
    }
}

fn required_id(f: &Option<String>, field: &str) -> (r: Result<(), McpError>)
    ensures
        r is Ok <==> id_param_ok(*f),
        r matches Err(e) ==> (id_param_refusal(*f, field@) matches Some(m) && invalid_with(e, m)),
        r is Ok ==> id_param_refusal(*f, field@) is None,
{
    match f {
        Some(s) => validate_id(s.as_str(), field),
        None => {
            let mut m = String::from_str("creative ");
            m.append(field);
            m.append(" is required");
            Err(invalid(m.as_str()))
        },
    }
}

/// Checks the contract of capability `id` on its parameters.
pub fn validate_capability_contract(id: &str, p: &CapabilityParameterFacts) -> (r: Result<(), McpError>)
    ensures
        r is Ok <==> capability_contract_ok(id@, *p),
        r is Ok <==> capability_contract_refusal(id@, *p) is None,
        r matches Err(e) ==> (capability_contract_refusal(id@, *p) matches Some(m) && invalid_with(e, m)),
{
    if str_eq(id, "audio.voice_clone") {
        if p.consent_asserted != Some(true) {
            return Err(invalid("audio.voice_clone requires explicit consent_asserted=true"));
        }
        match p.reference_asset_count {
            None => Err(invalid("audio.voice_clone requires reference_asset_ids")),
            Some(n) => {
                if n == 0 || n > MAX_VOICE_CLONE_REFERENCES {
                    Err(invalid("audio.voice_clone reference count is outside allowed bounds"))
                } else {
                    Ok(())
                }
            },
        }
    } else if str_eq(id, "audio.voice_change") {
        match required_id(&p.asset_id, "asset_id") {
            Err(e) => { return Err(e); },
            Ok(()) => {},
        }
        required_id(&p.voice_element_id, "voice_element_id")
    } else if str_eq(id, "audio.video_dub") {
        match required_id(&p.video_asset_id, "video_asset_id") {
            Err(e) => { return Err(e); },
            Ok(()) => {},
        }
        match required_id(&p.voice_element_id, "voice_element_id") {
            Err(e) => { return Err(e); },
            Ok(()) => {},
        }
        match &p.language {
            None => Err(invalid("creative language is required")),
            Some(l) => {
                if validate_text(l.as_str(), 1, 32, "language").is_err() {
                    Err(invalid("creative language is outside allowed bounds"))
                } else {
                    Ok(())
                }
            },
        }
    } else if str_eq(id, "video.motion_control") {
        match required_id(&p.reference_asset_id, "reference_asset_id") {
            Err(e) => { return Err(e); },
            Ok(()) => {},
        }
        required_id(&p.motion_asset_id, "motion_asset_id")
    } else if str_eq(id, "video.clip_extract") {
        match required_id(&p.asset_id, "asset_id") {
            Err(e) => { return Err(e); },
            Ok(()) => {},
        }
        let start = match p.start_ms {
            Some(s) => s,
            None => { return Err(invalid("clip start_ms is required")); },
        };
        let end = match p.end_ms {
            Some(e) => e,
            None => { return Err(invalid("clip end_ms is required")); },
        };
        if end <= start || end - start > MAX_CLIP_EXTRACT_MS {
            return Err(invalid("clip extraction range is outside allowed bounds"));
        }
        Ok(())
    } else {
        Ok(())
    }
}

/// Checks the parameters (compact JSON text) of a capability request: a bounded
/// specification, a capability that the registry knows (`schema` is its parameter
/// schema, `None` where it is unknown), parameters that match the schema, and the
/// capability's own contract.
pub fn validate_capability_parameters(
    id: &str,
    parameters: &str,
    schema: Option<&str>,
    facts: &CapabilityParameterFacts,
) -> (r: Result<(), McpError>)
    ensures
        !is_bounded_spec(parameters@) ==> (r matches Err(e) && invalid_with(e, spec_refusal(parameters@))),
        is_bounded_spec(parameters@) ==> match schema {
            None => r matches Err(e) && invalid_with(e, "unknown creative capability"@),
            Some(s) => match schema_verdict(s@, parameters@) {
                None => r matches Err(e) && internal_with(e, "creative capability schema is invalid"@),
                Some(false) => r matches Err(e)
                    && invalid_with(e, "creative capability parameters do not match the capability schema"@),
                Some(true) => (r is Ok <==> capability_contract_ok(id@, *facts))
                    && (r matches Err(e) ==> (capability_contract_refusal(id@, *facts) matches Some(m) && invalid_with(e, m))),
            },
        },
{
    match validate_spec(parameters) {
        Err(e) => { return Err(e); },
        Ok(()) => {},
    }
    let schema = match schema {
        Some(s) => s,
        None => { return Err(invalid("unknown creative capability")); },
    };
    match check_against_schema(schema, parameters) {
        None => Err(internal("creative capability schema is invalid")),
        Some(false) => Err(invalid("creative capability parameters do not match the capability schema")),
        Some(true) => validate_capability_contract(id, facts),
    }
}

/// Checks the parameters (compact JSON text) of a workflow request: a bounded
/// specification, a workflow that the registry knows (`schema` is its input schema,
/// `None` where it is unknown), and parameters that match the schema.
pub fn validate_workflow_parameters(parameters: &str, schema: Option<&str>) -> (r: Result<(), McpError>)
    ensures
        !is_bounded_spec(parameters@) ==> (r matches Err(e) && invalid_with(e, spec_refusal(parameters@))),
        is_bounded_spec(parameters@) ==> match schema {
            None => r matches Err(e) && invalid_with(e, "unknown creative workflow"@),
            Some(s) => match schema_verdict(s@, parameters@) {
                None => r matches Err(e) && internal_with(e, "creative workflow schema is invalid"@),
                Some(false) => r matches Err(e)
                    && invalid_with(e, "creative workflow parameters do not match the workflow schema"@),
                Some(true) => r is Ok,
            },
        },
{
    match validate_spec(parameters) {
        Err(e) => { return Err(e); },
        Ok(()) => {},
    }
    let schema = match schema {
        Some(s) => s,
        None => { return Err(invalid("unknown creative workflow")); },
    };
    match check_against_schema(schema, parameters) {
        None => Err(internal("creative workflow schema is invalid")),
        Some(false) => Err(invalid("creative workflow parameters do not match the workflow schema")),
        Some(true) => Ok(()),
    }
}

pub const REVIEWED_CAPABILITY_COMPUTE_UNITS: u64 = 10;
pub const REVIEWED_CAPABILITY_OUTPUT_BYTES: u64 = 16384;

/// The parameters of a capability request pass `validate_capability_parameters`.
pub open spec fn capability_parameters_accepted(
    id: Seq<char>,
    parameters: Seq<char>,
    schema: Option<Seq<char>>,
    facts: CapabilityParameterFacts,
) -> bool {
    &&& is_bounded_spec(parameters)
    &&& schema matches Some(s) && schema_verdict(s, parameters) == Some(true)
    &&& capability_contract_ok(id, facts)
}

/// Binding `i` is the one the caller selected for capability `id`: the first with the
/// selected identifier, and one that serves the capability.
pub open spec fn selected_binding(bindings: Seq<ExecutionBindingDescriptor>, id: Seq<char>, selected: Seq<char>, i: int) -> bool {
    &&& 0 <= i < bindings.len()
    &&& bindings[i].binding_id@ == selected
    &&& serves(bindings[i], id)
    &&& forall|k: int| 0 <= k < i ==> (#[trigger] bindings[k]).binding_id@ != selected
}

/// Estimates one capability request. Capabilities that run locally under a reviewed
/// contract get a fixed estimate; the others are estimated by the selected execution
/// binding from its published profile (`profiles`, one per binding, read from its
/// constraints).
pub fn estimate_capability(
    bindings: &Vec<ExecutionBindingDescriptor>,
    profiles: &Vec<Option<EstimateProfile>>,
    id: &str,
    selected: Option<&str>,
    parameters: &str,
    schema: Option<&str>,
    facts: &CapabilityParameterFacts,
    requires_binding: bool,
    estimate_parameters: &EstimateParameters,
) -> (r: Result<CreativeEstimate, McpError>)
    requires
        profiles.len() == bindings.len(),
    ensures
        !capability_parameters_accepted(id@, parameters@, match schema { Some(s) => Some(s@), None => None }, *facts)
            ==> r is Err,
        capability_parameters_accepted(id@, parameters@, match schema { Some(s) => Some(s@), None => None }, *facts)
            ==> {
            if !requires_binding {
                r matches Ok(e) && e.compute_units == REVIEWED_CAPABILITY_COMPUTE_UNITS
                    && e.output_bytes == REVIEWED_CAPABILITY_OUTPUT_BYTES
                    && e.estimated_cost_micros is None
                    && e.source@ == "reviewed_local_contract"@
            } else {
                &&& (r is Ok <==> (selected matches Some(s) && exists|i: int| #[trigger] selected_binding(bindings@, id@, s@, i)
                    && bindings@[i].estimate_available && binding_estimate_ok(profiles@[i], *estimate_parameters)))
                &&& (r matches Ok(e) ==> (selected matches Some(s) && exists|i: int| #[trigger] selected_binding(bindings@, id@, s@, i)
                    && binding_estimate_is(e, bindings@[i].binding_id@, profiles@[i]->0, *estimate_parameters)))
                &&& (r matches Err(e) ==> e is InvalidRequest)
            }
        },
{
    validate_capability_parameters(id, parameters, schema, facts)?;
    if !requires_binding {
        return Ok(CreativeEstimate {
            compute_units: REVIEWED_CAPABILITY_COMPUTE_UNITS,
            output_bytes: REVIEWED_CAPABILITY_OUTPUT_BYTES,
            estimated_cost_micros: None,
            source: "reviewed_local_contract".to_string(),
        });
    }
    let selection = validate_binding_selection(bindings, Some(true), id, selected);
    let i = match selection {
        Ok(BindingSelection::Selected(i)) => i,
        Ok(BindingSelection::NotRequired) => {
            return Err(invalid("required creative binding was not returned"));
        },
        Err(e) => {
            proof {
                if let Some(s) = selected {
                    assert forall|i: int| !#[trigger] selected_binding(bindings@, id@, s@, i) by {
                        if selected_binding(bindings@, id@, s@, i) {
                            assert(bindings@[i].binding_id@ == s@);
                        }
                    }
                }
            }
            return Err(e);
        },
    };
    proof {
        let s = selected->0;
        assert(selected_binding(bindings@, id@, s@, i as int));
        assert forall|j: int| #[trigger] selected_binding(bindings@, id@, s@, j) implies j == i by {
            if j < i {
                assert(bindings@[j].binding_id@ == s@);
            } else if i < j {
                assert(bindings@[i as int].binding_id@ == s@);
            }
        }
    }
    if !bindings[i].estimate_available {
        return Err(invalid("creative cost estimate is unavailable for selected execution binding"));
    }
    estimate_from_binding_constraints(bindings[i].binding_id.as_str(), &profiles[i], estimate_parameters)
}

} // verus!
