use vstd::prelude::*;
use crate::error::{invalid, invalid_with, McpError};
use crate::jobs::{
    admission, admission_decision, AdmissionDecision, BudgetLimits, BudgetStatus, CompilationLineage, CreativeEstimate,
    CreativeJobKind, CreativeJobRecord, CreativeJobStatus, MAX_JOB_TIMEOUT_MS,
};
use crate::text::{id_rule, is_valid_id, validate_id};

verus! {

/// What a job submission runs, and the binding it selects.
#[derive(Clone, Debug)]
pub struct SubmitTargets {
    pub graph_id: Option<String>,
    pub capability_id: Option<String>,
    pub workflow_id: Option<String>,
    pub execution_binding_id: Option<String>,
}

pub open spec fn target_count(t: SubmitTargets) -> int {
    (if t.graph_id is Some { 1int } else { 0int }) + (if t.capability_id is Some { 1int } else { 0int })
        + (if t.workflow_id is Some { 1int } else { 0int })
}

pub open spec fn opt_valid_id(v: Option<String>) -> bool {
    match v { Some(s) => is_valid_id(s@), None => true }
}

/// A submission names exactly one graph, capability or workflow, and its graph and
/// binding identities are valid.
pub open spec fn submit_shape_ok(t: SubmitTargets) -> bool {
    target_count(t) == 1 && opt_valid_id(t.graph_id) && opt_valid_id(t.execution_binding_id)
}

fn valid_opt_id(v: &Option<String>, field: &str) -> (r: Result<(), McpError>)
    ensures
        r is Ok <==> opt_valid_id(*v),
        r matches Err(e) ==> invalid_with(e, field@ + id_rule()),
{
    match v {
        Some(s) => validate_id(s.as_str(), field),
        None => Ok(()),
    }
}

/// Checks the shape of a job submission.
pub fn validate_submit_shape(t: &SubmitTargets) -> (r: Result<(), McpError>)
    ensures
        r is Ok <==> submit_shape_ok(*t),
        r matches Err(e) ==> invalid_with(e, if target_count(*t) != 1 {
            "creative job submit requires exactly one graph_id, capability_id, or workflow_id"@
        } else if !opt_valid_id(t.graph_id) {
            "graph_id"@ + id_rule()
        } else {
            "execution_binding_id"@ + id_rule()
        }),
{
    let count: u8 = (if t.graph_id.is_some() { 1u8 } else { 0u8 }) + (if t.capability_id.is_some() { 1u8 } else { 0u8 })
        + (if t.workflow_id.is_some() { 1u8 } else { 0u8 });
    if count != 1 {
        return Err(invalid("creative job submit requires exactly one graph_id, capability_id, or workflow_id"));
    }
    match valid_opt_id(&t.graph_id, "graph_id") {
        Err(e) => { return Err(e); },
        Ok(()) => {},
    }
    valid_opt_id(&t.execution_binding_id, "execution_binding_id")
}

/// The retry limit and timeout of a new job: the requested ones, or the operator's
/// retry limit and no timeout; a retry limit above the operator's and a timeout above
/// one day are refused.
pub fn job_limits(requested_retries: Option<u32>, operator_max_retries: u32, requested_timeout_ms: Option<u64>)
    -> (r: Result<(u32, u64), McpError>)
    ensures
        match r {
            Ok((retries, timeout)) => retries == (match requested_retries { Some(v) => v, None => operator_max_retries })
                && timeout == (match requested_timeout_ms { Some(v) => v, None => 0 })
                && retries <= operator_max_retries && timeout <= MAX_JOB_TIMEOUT_MS,
            Err(e) => e is InvalidRequest && ((match requested_retries { Some(v) => v, None => operator_max_retries }) > operator_max_retries
                || (match requested_timeout_ms { Some(v) => v, None => 0 }) > MAX_JOB_TIMEOUT_MS),
        },
{
    let retries = match requested_retries { Some(v) => v, None => operator_max_retries };
    if retries > operator_max_retries {
        return Err(invalid("creative job retry request exceeds operator maximum"));
    }
    let timeout = match requested_timeout_ms { Some(v) => v, None => 0 };
    if timeout > MAX_JOB_TIMEOUT_MS {
        return Err(invalid("creative job timeout exceeds maximum"));
    }
    Ok((retries, timeout))
}

/// The kind of job a submission makes: a graph job where it names a graph, else a
/// capability job where it names a capability, else a workflow job.
pub open spec fn submitted_kind(t: SubmitTargets) -> CreativeJobKind {
    if t.graph_id is Some {
        CreativeJobKind::Graph
    } else if t.capability_id is Some {
        CreativeJobKind::Capability
    } else {
        CreativeJobKind::Workflow
    }
}

/// `job` is the queued record of a submission, apart from its identity and times.
pub open spec fn queued_record(
    job: CreativeJobRecord,
    project_id: String,
    owner: String,
    targets: SubmitTargets,
    parameters: String,
    lineage: CompilationLineage,
    estimate: CreativeEstimate,
    approved: bool,
    max_retries: u32,
    timeout_ms: u64,
) -> bool {
    &&& job.schema_version == crate::contracts::CREATIVE_SCHEMA_VERSION
    &&& job.project_id == project_id && job.owner == owner
    &&& job.kind == submitted_kind(targets)
    &&& job.graph_id == targets.graph_id
    &&& job.capability_id == (if targets.graph_id is Some { None } else { targets.capability_id })
    &&& job.workflow_id == (if targets.graph_id is Some || targets.capability_id is Some { None } else { targets.workflow_id })
    &&& job.execution_binding_id == targets.execution_binding_id
    &&& job.execution_parameters == parameters
    &&& job.compiler_version == lineage.compiler_version
    &&& job.execution_binding_version == lineage.execution_binding_version
    &&& job.changed_fields == lineage.changed_fields
    &&& job.status == CreativeJobStatus::Queued
    &&& job.estimate == Some(estimate)
    &&& job.approved == approved
    &&& job.retry_count == 0 && job.max_retries == max_retries && job.timeout_ms == timeout_ms
    &&& job.created_at_ms == job.updated_at_ms
    &&& job.node_runs@.len() == 0 && job.output_asset_ids@.len() == 0
    &&& job.actual_output_bytes is None && job.failure_code is None
}

/// The queued record of an admitted submission.
pub fn queued_job(
    job_id: String,
    project_id: String,
    owner: String,
    targets: SubmitTargets,
    parameters: String,
    lineage: CompilationLineage,
    estimate: CreativeEstimate,
    approved: bool,
    max_retries: u32,
    timeout_ms: u64,
    now: u128,
) -> (job: CreativeJobRecord)
    ensures
        job.schema_version == crate::contracts::CREATIVE_SCHEMA_VERSION,
        job.job_id == job_id && job.project_id == project_id && job.owner == owner,
        job.kind == submitted_kind(targets),
        job.graph_id == targets.graph_id,
        job.capability_id == (if targets.graph_id is Some { None } else { targets.capability_id }),
        job.workflow_id == (if targets.graph_id is Some || targets.capability_id is Some { None } else { targets.workflow_id }),
        job.execution_binding_id == targets.execution_binding_id,
        job.execution_parameters == parameters,
        job.compiler_version == lineage.compiler_version,
        job.execution_binding_version == lineage.execution_binding_version,
        job.changed_fields == lineage.changed_fields,
        job.status == CreativeJobStatus::Queued,
        job.estimate == Some(estimate),
        job.approved == approved,
        job.retry_count == 0 && job.max_retries == max_retries && job.timeout_ms == timeout_ms,
        job.created_at_ms == now && job.updated_at_ms == now,
        job.node_runs@.len() == 0 && job.output_asset_ids@.len() == 0,
        job.actual_output_bytes is None && job.failure_code is None,
{
    let SubmitTargets { graph_id, capability_id, workflow_id, execution_binding_id } = targets;
    let (kind, graph_id, capability_id, workflow_id) = if graph_id.is_some() {
        (CreativeJobKind::Graph, graph_id, None, None)
    } else if capability_id.is_some() {
        (CreativeJobKind::Capability, None, capability_id, None)
    } else {
        (CreativeJobKind::Workflow, None, None, workflow_id)
    };
    let CompilationLineage { compiler_version, execution_binding_version, changed_fields } = lineage;
    CreativeJobRecord {
        schema_version: crate::contracts::CREATIVE_SCHEMA_VERSION,
        job_id,
        project_id,
        owner,
        kind,
        graph_id,
        capability_id,
        workflow_id,
        execution_binding_id,
        execution_parameters: parameters,
        compiler_version,
        execution_binding_version,
        changed_fields,
        status: CreativeJobStatus::Queued,
        estimate: Some(estimate),
        approved,
        retry_count: 0,
        max_retries,
        timeout_ms,
        created_at_ms: now,
        updated_at_ms: now,
        node_runs: Vec::new(),
        output_asset_ids: Vec::new(),
        actual_output_bytes: None,
        failure_code: None,
    }
}

fn copy_estimate(e: &CreativeEstimate) -> (c: CreativeEstimate)
    ensures
        c == *e,
{
    CreativeEstimate {
        compute_units: e.compute_units,
        output_bytes: e.output_bytes,
        estimated_cost_micros: e.estimated_cost_micros,
        source: e.source.clone(),
    }
}

/// What a submission comes to: the admission decision, the estimate it was judged on,
/// and, where it was admitted, the queued job to store.
#[derive(Debug)]
pub struct Submission {
    pub decision: AdmissionDecision,
    pub estimate: CreativeEstimate,
    pub job: Option<CreativeJobRecord>,
}

/// Decides a checked submission against the budget: a refused one makes no job; an
/// admitted one gets its retry limit and timeout checked and becomes a queued job under a
/// fresh identity `job_` followed by 32 lowercase hexadecimal digits, created now.
pub fn admit_submission(
    limits: &BudgetLimits,
    status: &BudgetStatus,
    estimate: CreativeEstimate,
    project_id: String,
    owner: String,
    targets: SubmitTargets,
    parameters: String,
    lineage: CompilationLineage,
    approved: bool,
    requested_retries: Option<u32>,
    requested_timeout_ms: Option<u64>,
) -> (r: Result<Submission, McpError>)
    ensures
        admission(*limits, *status, estimate.compute_units, estimate.output_bytes, approved) != AdmissionDecision::Allowed
            ==> (r matches Ok(sub) && sub.job is None && sub.estimate == estimate
                && sub.decision == admission(*limits, *status, estimate.compute_units, estimate.output_bytes, approved)),
        admission(*limits, *status, estimate.compute_units, estimate.output_bytes, approved) == AdmissionDecision::Allowed
            ==> match r {
                Ok(sub) => sub.decision == AdmissionDecision::Allowed && sub.estimate == estimate
                    && (match sub.job {
                        Some(job) => queued_record(job, project_id, owner, targets, parameters, lineage, estimate, approved,
                            match requested_retries { Some(v) => v, None => limits.max_retries },
                            match requested_timeout_ms { Some(v) => v, None => 0 })
                            && job.job_id@.len() == 36 && job.job_id@.take(4) == "job_"@
                            && crate::outside::is_lower_hex(job.job_id@.skip(4)),
                        None => false,
                    }),
                Err(e) => e is InvalidRequest
                    && ((match requested_retries { Some(v) => v, None => limits.max_retries }) > limits.max_retries
                        || (match requested_timeout_ms { Some(v) => v, None => 0 }) > MAX_JOB_TIMEOUT_MS),
            },
{
    let decision = admission_decision(limits, status, &estimate, approved);
    if decision != AdmissionDecision::Allowed {
        return Ok(Submission { decision, estimate, job: None });
    }
    let (max_retries, timeout_ms) = match job_limits(requested_retries, limits.max_retries, requested_timeout_ms) {
        Ok(l) => l,
        Err(e) => { return Err(e); },
    };
    let suffix = crate::outside::random_simple_uuid();
    let mut job_id = String::from_str("job_");
    job_id.append(suffix.as_str());
    proof {
        reveal_strlit("job_");
        assert(job_id@.take(4) =~= "job_"@);
        assert(job_id@.skip(4) =~= suffix@);
    }
    let now = crate::outside::now_ms();
    let kept = copy_estimate(&estimate);
    let job = queued_job(job_id, project_id, owner, targets, parameters, lineage, kept, approved, max_retries, timeout_ms, now);
    Ok(Submission { decision, estimate, job: Some(job) })
}

} // verus!
