use vstd::prelude::*;
use vstd::string::StringExecFns;
use crate::error::{invalid, invalid_with, McpError};
use crate::jobs::CreativeEstimate;

verus! {

broadcast use vstd::string::group_string_axioms;

/// A numeric field read from JSON: absent, not an unsigned integer, or its value.
#[derive(Clone, Copy, Debug, PartialEq, Eq, Structural)]
pub enum NumberField {
    Missing,
    Invalid,
    Value(u64),
}

/// The estimate data an execution binding publishes under `constraints.estimate`.
#[derive(Clone, Copy, Debug)]
pub struct EstimateProfile {
    pub base_compute_units: NumberField,
    pub base_output_bytes: NumberField,
    pub compute_units_per_megapixel: NumberField,
    pub compute_units_per_second: NumberField,
    pub compute_units_per_item: NumberField,
    pub output_bytes_per_megapixel: NumberField,
    pub output_bytes_per_second: NumberField,
    pub output_bytes_per_item: NumberField,
    pub cost_micros_per_compute_unit: NumberField,
}

/// The request parameters that scale an estimate.
#[derive(Clone, Copy, Debug)]
pub struct EstimateParameters {
    pub width: NumberField,
    pub height: NumberField,
    pub duration_ms: NumberField,
    pub batch_count: NumberField,
}

/// The error of an estimate that leaves the numeric bounds.
pub fn estimate_overflow() -> (e: McpError)
    ensures
        e matches McpError::InvalidRequest(m) && m@ == "creative estimate exceeds numeric bounds"@,
{
    invalid("creative estimate exceeds numeric bounds")
}

/// `left + right`, or an error where it overflows.
pub fn checked_add(left: u64, right: u64) -> (r: Result<u64, McpError>)
    ensures
        left + right <= u64::MAX ==> r == Ok::<u64, McpError>((left + right) as u64),
        left + right > u64::MAX ==> (r matches Err(e) && invalid_with(e, "creative estimate exceeds numeric bounds"@)),
{
    match left.checked_add(right) {
        Some(v) => Ok(v),
        None => Err(estimate_overflow()),
    }
}

/// `left * right / divisor`, or an error where the product overflows.
pub fn checked_mul_div(left: u64, right: u64, divisor: u64) -> (r: Result<u64, McpError>)
    requires
        divisor > 0,
    ensures
        left * right <= u64::MAX ==> r == Ok::<u64, McpError>(((left * right) / (divisor as int)) as u64),
        left * right > u64::MAX ==> (r matches Err(e) && invalid_with(e, "creative estimate exceeds numeric bounds"@)),
{
    match left.checked_mul(right) {
        Some(v) => Ok(v / divisor),
        None => Err(estimate_overflow()),
    }
}

pub open spec fn add_opt(a: Option<int>, b: int) -> Option<int> {
    match a { Some(x) => if x + b <= u64::MAX { Some(x + b) } else { None }, None => None }
}

/// The scaled estimate: the base plus each present rate times its quantity (per
/// megapixel and per second in thousandths, per item by count), or `None` on overflow.
pub open spec fn scaled(base: u64, per_megapixel: Option<u64>, megapixels_milli: u64, per_second: Option<u64>, seconds_milli: u64, per_item: Option<u64>, batch_count: u64) -> Option<int> {
    let v1 = match per_megapixel {
        Some(u) => if u * megapixels_milli <= u64::MAX { add_opt(Some(base as int), (u * megapixels_milli) / 1000) } else { None },
        None => Some(base as int),
    };
    let v2 = match per_second {
        Some(u) => if u * seconds_milli <= u64::MAX { add_opt(v1, (u * seconds_milli) / 1000) } else { None },
        None => v1,
    };
    match per_item {
        Some(u) => if u * batch_count <= u64::MAX { add_opt(v2, u * batch_count) } else { None },
        None => v2,
    }
}

pub fn scaled_estimate(
    base: u64,
    per_megapixel: Option<u64>,
    megapixels_milli: u64,
    per_second: Option<u64>,
    seconds_milli: u64,
    per_item: Option<u64>,
    batch_count: u64,
) -> (r: Result<u64, McpError>)
    ensures
        match scaled(base, per_megapixel, megapixels_milli, per_second, seconds_milli, per_item, batch_count) {
            Some(v) => r == Ok::<u64, McpError>(v as u64),
            None => (r matches Err(e) && invalid_with(e, "creative estimate exceeds numeric bounds"@)),
        },
{
    let mut value = base;
    match per_megapixel {
        Some(unit) => {
            let part = match checked_mul_div(unit, megapixels_milli, 1000) {
                Ok(v) => v,
                Err(e) => { return Err(e); },
            };
            value = match checked_add(value, part) {
                Ok(v) => v,
                Err(e) => { return Err(e); },
            };
        },
        None => {},
    }
    match per_second {
        Some(unit) => {
            let part = match checked_mul_div(unit, seconds_milli, 1000) {
                Ok(v) => v,
                Err(e) => { return Err(e); },
            };
            value = match checked_add(value, part) {
                Ok(v) => v,
                Err(e) => { return Err(e); },
            };
        },
        None => {},
    }
    match per_item {
        Some(unit) => {
            let part = match unit.checked_mul(batch_count) {
                Some(p) => p,
                None => {
                    return Err(estimate_overflow());
                },
            };
            value = match checked_add(value, part) {
                Ok(v) => v,
                Err(e) => { return Err(e); },
            };
        },
        None => {},
    }
    Ok(value)
}

/// A required positive profile number.
pub open spec fn required_positive(f: NumberField) -> Option<u64> {
    match f { NumberField::Value(v) => if v > 0 { Some(v) } else { None }, _ => None }
}

/// Why a required profile bound is refused.
pub open spec fn required_refusal(f: NumberField) -> Seq<char> {
    if f is Value { "creative binding estimate profile contains zero bounds"@ } else { "creative binding estimate profile is incomplete"@ }
}

fn required_positive_u64(f: NumberField) -> (r: Result<u64, McpError>)
    ensures
        match required_positive(f) { Some(v) => r == Ok::<u64, McpError>(v), None => (r matches Err(e) && invalid_with(e, required_refusal(f))) },
{
    match f {
        NumberField::Value(v) => {
            if v == 0 {
                Err(invalid("creative binding estimate profile contains zero bounds"))
            } else {
                Ok(v)
            }
        },
        _ => Err(invalid("creative binding estimate profile is incomplete")),
    }
}

/// An optional profile number: absent is `None`, a value is kept, anything else is invalid.
pub open spec fn optional_ok(f: NumberField) -> bool {
    f != NumberField::Invalid
}

pub open spec fn optional_value(f: NumberField) -> Option<u64> {
    match f { NumberField::Value(v) => Some(v), _ => None }
}

fn optional_u64(f: NumberField) -> (r: Result<Option<u64>, McpError>)
    ensures
        optional_ok(f) ==> r == Ok::<Option<u64>, McpError>(optional_value(f)),
        !optional_ok(f) ==> (r matches Err(e) && invalid_with(e, "creative binding estimate profile is invalid"@)),
{
    match f {
        NumberField::Missing => Ok(None),
        NumberField::Value(v) => Ok(Some(v)),
        NumberField::Invalid => Err(invalid("creative binding estimate profile is invalid")),
    }
}

/// A bounded request parameter: absent, or an integer in `min..=max`.
pub open spec fn bounded_ok(f: NumberField, min: u64, max: u64) -> bool {
    match f { NumberField::Missing => true, NumberField::Invalid => false, NumberField::Value(v) => min <= v <= max }
}

/// Why a bounded request parameter is refused.
pub open spec fn bounded_refusal(f: NumberField) -> Seq<char> {
    if f is Invalid { "creative parameter is invalid"@ } else { "creative parameter exceeds allowed bounds"@ }
}

pub fn bounded_u64(f: NumberField, minimum: u64, maximum: u64) -> (r: Result<Option<u64>, McpError>)
    ensures
        bounded_ok(f, minimum, maximum) ==> r == Ok::<Option<u64>, McpError>(optional_value(f)),
        !bounded_ok(f, minimum, maximum) ==> (r matches Err(e) && invalid_with(e, if f is Invalid {
            "creative parameter is invalid"@
        } else {
            "creative parameter exceeds allowed bounds"@
        })),
{
    match f {
        NumberField::Missing => Ok(None),
        NumberField::Invalid => Err(invalid("creative parameter is invalid")),
        NumberField::Value(v) => {
            if v < minimum || v > maximum {
                return Err(invalid("creative parameter exceeds allowed bounds"));
            }
            Ok(Some(v))
        },
    }
}

pub open spec fn or_default(v: Option<u64>, d: u64) -> u64 {
    match v { Some(x) => x, None => d }
}

/// The parameters are within their bounds and the profile is usable.
pub open spec fn estimate_inputs_ok(profile: EstimateProfile, params: EstimateParameters) -> bool {
    &&& required_positive(profile.base_compute_units) is Some
    &&& required_positive(profile.base_output_bytes) is Some
    &&& bounded_ok(params.width, 1, 16384)
    &&& bounded_ok(params.height, 1, 16384)
    &&& bounded_ok(params.duration_ms, 1, 86400000)
    &&& bounded_ok(params.batch_count, 1, 128)
    &&& optional_ok(profile.compute_units_per_megapixel)
    &&& optional_ok(profile.compute_units_per_second)
    &&& optional_ok(profile.compute_units_per_item)
    &&& optional_ok(profile.output_bytes_per_megapixel)
    &&& optional_ok(profile.output_bytes_per_second)
    &&& optional_ok(profile.output_bytes_per_item)
    &&& optional_ok(profile.cost_micros_per_compute_unit)
}

/// Thousandths of a megapixel of a `width` by `height` request, 0 without both.
pub open spec fn megapixels_milli(params: EstimateParameters) -> u64 {
    let w = or_default(optional_value(params.width), 0);
    let h = or_default(optional_value(params.height), 0);
    if w > 0 && h > 0 { ((w * h * 1000) / 1000000) as u64 } else { 0 }
}

pub open spec fn compute_scaled(profile: EstimateProfile, params: EstimateParameters) -> Option<int> {
    scaled(
        required_positive(profile.base_compute_units)->0,
        optional_value(profile.compute_units_per_megapixel),
        megapixels_milli(params),
        optional_value(profile.compute_units_per_second),
        or_default(optional_value(params.duration_ms), 0),
        optional_value(profile.compute_units_per_item),
        or_default(optional_value(params.batch_count), 1),
    )
}

pub open spec fn output_scaled(profile: EstimateProfile, params: EstimateParameters) -> Option<int> {
    scaled(
        required_positive(profile.base_output_bytes)->0,
        optional_value(profile.output_bytes_per_megapixel),
        megapixels_milli(params),
        optional_value(profile.output_bytes_per_second),
        or_default(optional_value(params.duration_ms), 0),
        optional_value(profile.output_bytes_per_item),
        or_default(optional_value(params.batch_count), 1),
    )
}

/// The estimate of a binding's profile for the parameters; `None` where the profile is
/// missing, a field is out of bounds, or the arithmetic overflows.
pub open spec fn binding_estimate_ok(profile: Option<EstimateProfile>, params: EstimateParameters) -> bool {
    match profile {
        None => false,
        Some(p) => estimate_inputs_ok(p, params) && compute_scaled(p, params) is Some && output_scaled(p, params) is Some
            && match optional_value(p.cost_micros_per_compute_unit) {
                Some(c) => compute_scaled(p, params)->0 * c <= u64::MAX,
                None => true,
            },
    }
}

/// `e` is the estimate that binding `binding_id` gives from its profile `p` for `params`.
pub open spec fn binding_estimate_is(e: CreativeEstimate, binding_id: Seq<char>, p: EstimateProfile, params: EstimateParameters) -> bool {
    let compute = compute_scaled(p, params)->0;
    let output = output_scaled(p, params)->0;
    &&& e.compute_units == if compute < 1 { 1 } else { compute }
    &&& e.output_bytes == if output < 1 { 1 } else { output }
    &&& e.estimated_cost_micros == match optional_value(p.cost_micros_per_compute_unit) {
        Some(c) => Some((compute * c) as u64),
        None => None::<u64>,
    }
    &&& e.source@ == "binding:"@ + binding_id
}

/// Estimates a job on an execution binding from the binding's published profile.
#[verifier::rlimit(40)]
/// Why a binding's estimate is refused, in the order the checks run.
pub open spec fn estimate_refusal(profile: Option<EstimateProfile>, params: EstimateParameters) -> Seq<char> {
    let overflow = "creative estimate exceeds numeric bounds"@;
    let invalid_profile = "creative binding estimate profile is invalid"@;
    match profile {
        None => "selected execution binding does not expose bounded estimate data"@,
        Some(p) => if required_positive(p.base_compute_units) is None {
            required_refusal(p.base_compute_units)
        } else if required_positive(p.base_output_bytes) is None {
            required_refusal(p.base_output_bytes)
        } else if !bounded_ok(params.width, 1, 16384) {
            bounded_refusal(params.width)
        } else if !bounded_ok(params.height, 1, 16384) {
            bounded_refusal(params.height)
        } else if !bounded_ok(params.duration_ms, 1, 86400000) {
            bounded_refusal(params.duration_ms)
        } else if !bounded_ok(params.batch_count, 1, 128) {
            bounded_refusal(params.batch_count)
        } else if !(optional_ok(p.compute_units_per_megapixel) && optional_ok(p.compute_units_per_second)
            && optional_ok(p.compute_units_per_item)) {
            invalid_profile
        } else if compute_scaled(p, params) is None {
            overflow
        } else if !(optional_ok(p.output_bytes_per_megapixel) && optional_ok(p.output_bytes_per_second)
            && optional_ok(p.output_bytes_per_item)) {
            invalid_profile
        } else if output_scaled(p, params) is None {
            overflow
        } else if !optional_ok(p.cost_micros_per_compute_unit) {
            invalid_profile
        } else {
            overflow
        },
    }
}

#[verifier::rlimit(80)]
#[verifier::spinoff_prover]
pub fn estimate_from_binding_constraints(binding_id: &str, profile: &Option<EstimateProfile>, params: &EstimateParameters) -> (r: Result<CreativeEstimate, McpError>)
    ensures
        r is Ok <==> binding_estimate_ok(*profile, *params),
        r matches Err(e) ==> invalid_with(e, estimate_refusal(*profile, *params)),
        r matches Ok(e) ==> binding_estimate_is(e, binding_id@, profile->0, *params),
{
    let p = match profile {
        Some(p) => *p,
        None => {
            return Err(invalid("selected execution binding does not expose bounded estimate data"));
        },
    };
    let base_compute = match required_positive_u64(p.base_compute_units) {
        Ok(v) => v,
        Err(e) => { return Err(e); },
    };
    let base_output = match required_positive_u64(p.base_output_bytes) {
        Ok(v) => v,
        Err(e) => { return Err(e); },
    };
    let width = match bounded_u64(params.width, 1, 16384) {
        Ok(Some(v)) => v,
        Ok(None) => 0,
        Err(e) => { return Err(e); },
    };
    let height = match bounded_u64(params.height, 1, 16384) {
        Ok(Some(v)) => v,
        Ok(None) => 0,
        Err(e) => { return Err(e); },
    };
    let duration_ms = match bounded_u64(params.duration_ms, 1, 86400000) {
        Ok(Some(v)) => v,
        Ok(None) => 0,
        Err(e) => { return Err(e); },
    };
    let batch_count = match bounded_u64(params.batch_count, 1, 128) {
        Ok(Some(v)) => v,
        Ok(None) => 1,
        Err(e) => { return Err(e); },
    };
    let mp: u64 = if width > 0 && height > 0 {
        assert(width * height <= 16384 * 16384) by (nonlinear_arith)
            requires width <= 16384, height <= 16384;
        assert(width * height * 1000 <= 16384 * 16384 * 1000) by (nonlinear_arith)
            requires width * height <= 16384 * 16384;
        width * height * 1000 / 1000000
    } else {
        0
    };
    let c_mp = match optional_u64(p.compute_units_per_megapixel) {
        Ok(v) => v,
        Err(e) => { return Err(e); },
    };
    let c_s = match optional_u64(p.compute_units_per_second) {
        Ok(v) => v,
        Err(e) => { return Err(e); },
    };
    let c_i = match optional_u64(p.compute_units_per_item) {
        Ok(v) => v,
        Err(e) => { return Err(e); },
    };
    let compute = match scaled_estimate(base_compute, c_mp, mp, c_s, duration_ms, c_i, batch_count) {
        Ok(v) => v,
        Err(e) => { return Err(e); },
    };
    let o_mp = match optional_u64(p.output_bytes_per_megapixel) {
        Ok(v) => v,
        Err(e) => { return Err(e); },
    };
    let o_s = match optional_u64(p.output_bytes_per_second) {
        Ok(v) => v,
        Err(e) => { return Err(e); },
    };
    let o_i = match optional_u64(p.output_bytes_per_item) {
        Ok(v) => v,
        Err(e) => { return Err(e); },
    };
    let output = match scaled_estimate(base_output, o_mp, mp, o_s, duration_ms, o_i, batch_count) {
        Ok(v) => v,
        Err(e) => { return Err(e); },
    };
    let cost_unit = match optional_u64(p.cost_micros_per_compute_unit) {
        Ok(v) => v,
        Err(e) => { return Err(e); },
    };
    let cost = match cost_unit {
        Some(unit) => match compute.checked_mul(unit) {
            Some(c) => Some(c),
            None => {
                return Err(estimate_overflow());
            },
        },
        None => None,
    };
    let mut source = String::from_str("binding:");
    source.append(binding_id);
    Ok(CreativeEstimate {
        compute_units: if compute < 1 { 1 } else { compute },
        output_bytes: if output < 1 { 1 } else { output },
        estimated_cost_micros: cost,
        source,
    })
}

} // verus!

verus! {

pub const CONTROL_NODE_COMPUTE_UNITS: u64 = 2;
pub const CONTROL_NODE_OUTPUT_BYTES: u64 = 4096;

/// Running totals of a graph estimate: compute units, output bytes, and the cost where
/// every capability node reported one.
pub type GraphTotals = (int, int, Option<int>);

/// The totals over the first `n` nodes; `None` where a sum overflows. A node with a
/// capability contributes its estimate, any other node the control-node constants.
pub open spec fn graph_totals(es: Seq<Option<CreativeEstimate>>, n: int) -> Option<GraphTotals>
    decreases n,
{
    if n <= 0 {
        Some((0, 0, Some(0)))
    } else {
        match graph_totals(es, n - 1) {
            None => None,
            Some((c, o, m)) => match es[n - 1] {
                Some(e) => {
                    if c + e.compute_units > u64::MAX || o + e.output_bytes > u64::MAX {
                        None
                    } else {
                        match (m, e.estimated_cost_micros) {
                            (Some(t), Some(v)) => if t + v > u64::MAX { None } else { Some((c + e.compute_units, o + e.output_bytes, Some(t + v))) },
                            _ => Some((c + e.compute_units, o + e.output_bytes, None)),
                        }
                    }
                },
                None => {
                    if c + CONTROL_NODE_COMPUTE_UNITS > u64::MAX || o + CONTROL_NODE_OUTPUT_BYTES > u64::MAX {
                        None
                    } else {
                        Some((c + CONTROL_NODE_COMPUTE_UNITS, o + CONTROL_NODE_OUTPUT_BYTES, m))
                    }
                },
            },
        }
    }
}

proof fn lemma_totals_none_stays(es: Seq<Option<CreativeEstimate>>, k: int, n: int)
    requires
        0 <= k <= n,
        graph_totals(es, k) is None,
    ensures
        graph_totals(es, n) is None,
    decreases n - k,
{
    if n > k {
        lemma_totals_none_stays(es, k, n - 1);
    }
}

/// Sums the estimates of a graph's nodes, one entry per node in node order: the
/// estimate of its capability, or `None` for a node without one.
pub fn estimate_graph_totals(node_estimates: &Vec<Option<CreativeEstimate>>) -> (r: Result<CreativeEstimate, McpError>)
    ensures
        r is Ok <==> graph_totals(node_estimates@, node_estimates@.len() as int) is Some,
        r matches Err(e) ==> e is InvalidRequest,
        r matches Ok(e) ==> {
            let t = graph_totals(node_estimates@, node_estimates@.len() as int)->0;
            &&& e.compute_units == if t.0 < 1 { 1 } else { t.0 }
            &&& e.output_bytes == if t.1 < 1 { 1 } else { t.1 }
            &&& e.estimated_cost_micros == match t.2 { Some(x) => Some(x as u64), None => None::<u64> }
            &&& e.source@ == "creative_graph"@
        },
{
    let mut compute: u64 = 0;
    let mut output: u64 = 0;
    let mut cost: Option<u64> = Some(0);
    let mut i: usize = 0;
    while i < node_estimates.len()
        invariant
            i <= node_estimates.len(),
            graph_totals(node_estimates@, i as int) == Some((compute as int, output as int, match cost { Some(x) => Some(x as int), None => None::<int> })),
        decreases node_estimates.len() - i,
    {
        let step = match &node_estimates[i] {
            Some(e) => {
                match (checked_add(compute, e.compute_units), checked_add(output, e.output_bytes)) {
                    (Ok(c), Ok(o)) => {
                        match (cost, e.estimated_cost_micros) {
                            (Some(total), Some(value)) => match checked_add(total, value) {
                                Ok(t) => Some((c, o, Some(t))),
                                Err(_) => None,
                            },
                            _ => Some((c, o, None)),
                        }
                    },
                    _ => None,
                }
            },
            None => {
                match (checked_add(compute, CONTROL_NODE_COMPUTE_UNITS), checked_add(output, CONTROL_NODE_OUTPUT_BYTES)) {
                    (Ok(c), Ok(o)) => Some((c, o, cost)),
                    _ => None,
                }
            },
        };
        match step {
            Some((c, o, m)) => {
                compute = c;
                output = o;
                cost = m;
            },
            None => {
                proof {
                    lemma_totals_none_stays(node_estimates@, i + 1, node_estimates@.len() as int);
                }
                return Err(estimate_overflow());
            },
        }
        i += 1;
    }
    Ok(CreativeEstimate {
        compute_units: if compute < 1 { 1 } else { compute },
        output_bytes: if output < 1 { 1 } else { output },
        estimated_cost_micros: cost,
        source: String::from_str("creative_graph"),
    })
}

} // verus!

verus! {

use crate::text::str_eq;

/// How a workflow job is estimated: through one capability, or at a fixed reviewed cost.
pub enum EstimateRoute {
    Capability(String),
    Fixed(CreativeEstimate),
}

/// Workflows that run locally on reviewed code and take no binding.
pub open spec fn local_delivery_workflow(w: Seq<char>) -> bool {
    w == "export_profile"@ || w == "project_handoff"@ || w == "promo_pack"@ || w == "key_visual_bundle"@
        || w == "portfolio_delivery"@ || w == "game_source_scaffold"@ || w == "game_build_playtest"@
        || w == "game_iteration"@ || w == "scene_continuity_review"@ || w == "visual_qa_evidence"@
        || w == "temporal_qa_evidence"@ || w == "scoped_revision"@
}

/// Blender character workflows, which take no binding.
pub open spec fn character_workflow(w: Seq<char>) -> bool {
    w == "character_mesh_production"@ || w == "character_rig_production"@ || w == "character_action"@
        || w == "character_secondary_motion"@
}

/// A fixed estimate.
pub open spec fn fixed_estimate(e: CreativeEstimate, units: u64, bytes: u64, source: Seq<char>) -> bool {
    e.compute_units == units && e.output_bytes == bytes && e.estimated_cost_micros is None && e.source@ == source
}

/// How a workflow job is estimated, or `None` where the request cannot run: the image
/// to 3D bootstrap by its route, local and character workflows at fixed costs without a
/// binding, and any other workflow through its one required capability.
pub open spec fn estimate_route_ok(workflow_id: Seq<char>, required: Seq<String>, route: Option<Seq<char>>, binding_selected: bool, r: EstimateRoute) -> bool {
    if workflow_id == "image_to_3d_bootstrap"@ {
        match route {
            Some(x) => if x == "manual"@ {
                !binding_selected && (r matches EstimateRoute::Fixed(e) && fixed_estimate(e, 25, 262144, "reviewed_blender_bootstrap"@))
            } else if x == "binding"@ || x == "hybrid"@ {
                r matches EstimateRoute::Capability(c) && c@ == "3d.image_to_mesh"@
            } else {
                false
            },
            None => false,
        }
    } else if local_delivery_workflow(workflow_id) {
        !binding_selected && (r matches EstimateRoute::Fixed(e) && fixed_estimate(e, 5, 4194304, "reviewed_local_delivery"@))
    } else if character_workflow(workflow_id) {
        !binding_selected && (r matches EstimateRoute::Fixed(e) && fixed_estimate(e, 75, 67108864, "reviewed_blender_character_workflow"@))
    } else {
        required.len() == 1 && (r matches EstimateRoute::Capability(c) && c == required[0])
    }
}

/// Whether some route exists for the workflow job.
pub open spec fn estimate_routable(workflow_id: Seq<char>, required: Seq<String>, route: Option<Seq<char>>, binding_selected: bool) -> bool {
    if workflow_id == "image_to_3d_bootstrap"@ {
        match route {
            Some(x) => (x == "manual"@ && !binding_selected) || x == "binding"@ || x == "hybrid"@,
            None => false,
        }
    } else if local_delivery_workflow(workflow_id) || character_workflow(workflow_id) {
        !binding_selected
    } else {
        required.len() == 1
    }
}

fn fixed(units: u64, bytes: u64, source: &str) -> (r: EstimateRoute)
    ensures
        r matches EstimateRoute::Fixed(e) && fixed_estimate(e, units, bytes, source@),
{
    EstimateRoute::Fixed(CreativeEstimate { compute_units: units, output_bytes: bytes, estimated_cost_micros: None, source: source.to_owned() })
}

/// Chooses how to estimate a workflow job; `required` are the workflow's required
/// capabilities, `route` the bootstrap route the request names, and `binding_selected`
/// whether it names an execution binding.
pub fn workflow_estimate_route(workflow_id: &str, required: &Vec<String>, route: Option<&str>, binding_selected: bool) -> (r: Result<EstimateRoute, McpError>)
    ensures
        match r {
            Ok(x) => estimate_route_ok(workflow_id@, required@, match route { Some(s) => Some(s@), None => None }, binding_selected, x),
            Err(e) => e is InvalidRequest && !estimate_routable(workflow_id@, required@, match route { Some(s) => Some(s@), None => None }, binding_selected),
        },
{
    proof {
        reveal_strlit("manual");
        reveal_strlit("binding");
        reveal_strlit("hybrid");
        assert("manual"@[0] != "hybrid"@[0]);
        assert("manual"@.len() != "binding"@.len());
    }
    if str_eq(workflow_id, "image_to_3d_bootstrap") {
        let r = match route {
            Some(x) => x,
            None => { return Err(invalid("bootstrap route is required")); },
        };
        if str_eq(r, "manual") {
            if binding_selected {
                return Err(invalid("manual Blender bootstrap must not select an execution binding"));
            }
            return Ok(fixed(25, 262144, "reviewed_blender_bootstrap"));
        } else if str_eq(r, "binding") || str_eq(r, "hybrid") {
            return Ok(EstimateRoute::Capability(String::from_str("3d.image_to_mesh")));
        } else {
            return Err(invalid("bootstrap route is unsupported"));
        }
    }
    let w = workflow_id;
    if str_eq(w, "export_profile") || str_eq(w, "project_handoff") || str_eq(w, "promo_pack") || str_eq(w, "key_visual_bundle")
        || str_eq(w, "portfolio_delivery") || str_eq(w, "game_source_scaffold") || str_eq(w, "game_build_playtest")
        || str_eq(w, "game_iteration") || str_eq(w, "scene_continuity_review") || str_eq(w, "visual_qa_evidence")
        || str_eq(w, "temporal_qa_evidence") || str_eq(w, "scoped_revision")
    {
        if binding_selected {
            return Err(invalid("reviewed local workflows do not accept an execution binding"));
        }
        return Ok(fixed(5, 4194304, "reviewed_local_delivery"));
    }
    if str_eq(w, "character_mesh_production") || str_eq(w, "character_rig_production") || str_eq(w, "character_action")
        || str_eq(w, "character_secondary_motion")
    {
        if binding_selected {
            return Err(invalid("Blender character production workflows do not accept an execution binding"));
        }
        return Ok(fixed(75, 67108864, "reviewed_blender_character_workflow"));
    }
    if required.len() != 1 {
        return Err(invalid("multi-capability workflow jobs must execute through a Creative Graph"));
    }
    Ok(EstimateRoute::Capability(required[0].clone()))
}

} // verus!
