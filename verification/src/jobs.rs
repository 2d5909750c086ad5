use vstd::prelude::*;
use vstd::string::StringExecFns;
use crate::error::{invalid, invalid_with, McpError};
use crate::workflow_catalog::{catalog_workflow, workflow};
use crate::ingest::{is_valid_owner, validate_owner};
use crate::text::{id_rule, is_valid_id, validate_id, str_eq};

verus! {

broadcast use vstd::string::group_string_axioms;

/// The lifecycle state of a creative job.
#[derive(Clone, Copy, Debug, PartialEq, Eq, Structural)]
pub enum CreativeJobStatus {
    Queued,
    Running,
    Completed,
    Failed,
    Cancelled,
}

/// What a creative job runs: a graph, one capability, or a workflow.
#[derive(Clone, Copy, Debug, PartialEq, Eq, Structural)]
pub enum CreativeJobKind {
    Graph,
    Capability,
    Workflow,
}

/// The estimated cost of a job.
#[derive(Clone, Debug)]
pub struct CreativeEstimate {
    pub compute_units: u64,
    pub output_bytes: u64,
    pub estimated_cost_micros: Option<u64>,
    pub source: String,
}

/// The operator's budget limits for creative jobs.
#[derive(Clone, Copy, Debug)]
pub struct BudgetLimits {
    pub approval_compute_units: u64,
    pub job_hard_compute_units: u64,
    pub project_hard_compute_units: u64,
    pub max_job_output_bytes: u64,
    pub max_concurrent_jobs: usize,
    pub max_retries: u32,
}

/// A job as the budget reads it: its state and, if estimated, its compute units.
#[derive(Clone, Copy, Debug)]
pub struct JobLoad {
    pub status: CreativeJobStatus,
    pub estimated_compute_units: Option<u64>,
}

/// What `budget_status` reports of an owner's jobs in a project against the limits.
#[derive(Clone, Debug)]
pub struct BudgetStatus {
    pub approval_compute_units: u64,
    pub job_hard_compute_units: u64,
    pub project_hard_compute_units: u64,
    pub project_admitted_compute_units: u64,
    pub project_remaining_compute_units: u64,
    pub max_job_output_bytes: u64,
    pub max_concurrent_jobs: usize,
    pub running_jobs: usize,
    pub max_retries: u32,
    pub provider_quota: &'static str,
    pub local_compute_quota: &'static str,
}

/// Whether a job may be admitted, or which limit stops it.
#[derive(Clone, Copy, Debug, PartialEq, Eq, Structural)]
pub enum AdmissionDecision {
    Allowed,
    ApprovalRequired,
    JobHardLimitExceeded,
    ProjectHardLimitExceeded,
    OutputHardLimitExceeded,
    ConcurrencyLimitExceeded,
}

/// The compiler lineage recorded on a job compiled from a semantic specification.
#[derive(Clone, Debug)]
pub struct CompilationLineage {
    pub compiler_version: Option<String>,
    pub execution_binding_version: Option<String>,
    pub changed_fields: Vec<String>,
}

pub open spec fn sat_add(a: u64, b: u64) -> u64 {
    if a + b > u64::MAX { u64::MAX } else { (a + b) as u64 }
}

pub open spec fn sat_sub(a: u64, b: u64) -> u64 {
    if a < b { 0 } else { (a - b) as u64 }
}

/// The compute units admitted by the jobs: the saturating sum of the estimates of the
/// jobs that were not cancelled.
pub open spec fn admitted_units(jobs: Seq<JobLoad>) -> u64
    decreases jobs.len(),
{
    if jobs.len() == 0 {
        0
    } else {
        let j = jobs.last();
        let rest = admitted_units(jobs.drop_last());
        if j.status != CreativeJobStatus::Cancelled && j.estimated_compute_units is Some {
            sat_add(rest, j.estimated_compute_units->0)
        } else {
            rest
        }
    }
}

/// The number of running jobs.
pub open spec fn running_count(jobs: Seq<JobLoad>) -> nat
    decreases jobs.len(),
{
    if jobs.len() == 0 {
        0
    } else {
        running_count(jobs.drop_last()) + if jobs.last().status == CreativeJobStatus::Running { 1nat } else { 0nat }
    }
}

proof fn lemma_running_le(jobs: Seq<JobLoad>)
    ensures
        running_count(jobs) <= jobs.len(),
    decreases jobs.len(),
{
    if jobs.len() > 0 {
        lemma_running_le(jobs.drop_last());
    }
}

/// The compute units admitted by the jobs that were not cancelled.
pub fn admitted_compute_units(jobs: &Vec<JobLoad>) -> (total: u64)
    ensures
        total == admitted_units(jobs@),
{
    let mut total: u64 = 0;
    let mut i: usize = 0;
    while i < jobs.len()
        invariant
            i <= jobs.len(),
            total == admitted_units(jobs@.take(i as int)),
        decreases jobs.len() - i,
    {
        proof {
            let t = jobs@.take(i + 1);
            assert(t.drop_last() =~= jobs@.take(i as int));
            assert(t.last() == jobs@[i as int]);
        }
        let job = jobs[i];
        if job.status != CreativeJobStatus::Cancelled {
            match job.estimated_compute_units {
                Some(units) => {
                    total = total.saturating_add(units);
                },
                None => {},
            }
        }
        i += 1;
    }
    assert(jobs@.take(jobs.len() as int) =~= jobs@);
    total
}

/// The budget of an owner's jobs in a project against the operator's limits.
pub fn budget_status(limits: &BudgetLimits, owner: &str, jobs: &Vec<JobLoad>) -> (r: Result<BudgetStatus, McpError>)
    ensures
        r is Ok <==> is_valid_owner(owner@),
        r matches Err(e) ==> e is InvalidRequest,
        r matches Ok(s) ==> {
            &&& s.approval_compute_units == limits.approval_compute_units
            &&& s.job_hard_compute_units == limits.job_hard_compute_units
            &&& s.project_hard_compute_units == limits.project_hard_compute_units
            &&& s.project_admitted_compute_units == admitted_units(jobs@)
            &&& s.project_remaining_compute_units == sat_sub(limits.project_hard_compute_units, admitted_units(jobs@))
            &&& s.max_job_output_bytes == limits.max_job_output_bytes
            &&& s.max_concurrent_jobs == limits.max_concurrent_jobs
            &&& s.running_jobs == running_count(jobs@)
            &&& s.max_retries == limits.max_retries
            &&& s.provider_quota@ == "binding_owned_not_reported"@
            &&& s.local_compute_quota@ == "bounded_by_operator_limits"@
        },
{
    if validate_owner(owner).is_err() {
        return Err(invalid("creative job owner is invalid"));
    }
    let admitted = admitted_compute_units(jobs);
    let mut running: usize = 0;
    let mut i: usize = 0;
    while i < jobs.len()
        invariant
            i <= jobs.len(),
            running == running_count(jobs@.take(i as int)),
        decreases jobs.len() - i,
    {
        proof {
            let t = jobs@.take(i + 1);
            assert(t.drop_last() =~= jobs@.take(i as int));
            assert(t.last() == jobs@[i as int]);
            lemma_running_le(jobs@.take(i as int));
        }
        if jobs[i].status == CreativeJobStatus::Running {
            running += 1;
        }
        i += 1;
    }
    assert(jobs@.take(jobs.len() as int) =~= jobs@);
    Ok(BudgetStatus {
        approval_compute_units: limits.approval_compute_units,
        job_hard_compute_units: limits.job_hard_compute_units,
        project_hard_compute_units: limits.project_hard_compute_units,
        project_admitted_compute_units: admitted,
        project_remaining_compute_units: limits.project_hard_compute_units.saturating_sub(admitted),
        max_job_output_bytes: limits.max_job_output_bytes,
        max_concurrent_jobs: limits.max_concurrent_jobs,
        running_jobs: running,
        max_retries: limits.max_retries,
        provider_quota: "binding_owned_not_reported",
        local_compute_quota: "bounded_by_operator_limits",
    })
}

/// The admission rule: the job's own hard limit, the output limit, the project's hard
/// limit, the concurrency limit, then approval above the approval threshold.
pub open spec fn admission(limits: BudgetLimits, status: BudgetStatus, compute_units: u64, output_bytes: u64, approved: bool) -> AdmissionDecision {
    if compute_units > limits.job_hard_compute_units {
        AdmissionDecision::JobHardLimitExceeded
    } else if output_bytes > limits.max_job_output_bytes {
        AdmissionDecision::OutputHardLimitExceeded
    } else if sat_add(status.project_admitted_compute_units, compute_units) > limits.project_hard_compute_units {
        AdmissionDecision::ProjectHardLimitExceeded
    } else if status.running_jobs >= limits.max_concurrent_jobs {
        AdmissionDecision::ConcurrencyLimitExceeded
    } else if compute_units > limits.approval_compute_units && !approved {
        AdmissionDecision::ApprovalRequired
    } else {
        AdmissionDecision::Allowed
    }
}

/// Decides whether a job with the given estimate may be admitted under the budget.
pub fn admission_decision(limits: &BudgetLimits, status: &BudgetStatus, estimate: &CreativeEstimate, approved: bool) -> (d: AdmissionDecision)
    ensures
        d == admission(*limits, *status, estimate.compute_units, estimate.output_bytes, approved),
{
    if estimate.compute_units > limits.job_hard_compute_units {
        return AdmissionDecision::JobHardLimitExceeded;
    }
    if estimate.output_bytes > limits.max_job_output_bytes {
        return AdmissionDecision::OutputHardLimitExceeded;
    }
    if status.project_admitted_compute_units.saturating_add(estimate.compute_units) > limits.project_hard_compute_units {
        return AdmissionDecision::ProjectHardLimitExceeded;
    }
    if status.running_jobs >= limits.max_concurrent_jobs {
        return AdmissionDecision::ConcurrencyLimitExceeded;
    }
    if estimate.compute_units > limits.approval_compute_units && !approved {
        return AdmissionDecision::ApprovalRequired;
    }
    AdmissionDecision::Allowed
}

/// An admitted job keeps the project within its hard limit and the owner within the
/// concurrency limit, and was approved where it exceeds the approval threshold.
pub proof fn law_admitted_jobs_stay_within_budget(limits: BudgetLimits, status: BudgetStatus, compute_units: u64, output_bytes: u64, approved: bool)
    requires
        admission(limits, status, compute_units, output_bytes, approved) == AdmissionDecision::Allowed,
        limits.project_hard_compute_units < u64::MAX,
    ensures
        compute_units <= limits.job_hard_compute_units,
        output_bytes <= limits.max_job_output_bytes,
        status.project_admitted_compute_units + compute_units <= limits.project_hard_compute_units,
        status.running_jobs < limits.max_concurrent_jobs,
        compute_units > limits.approval_compute_units ==> approved,
{
}

} // verus!

verus! {

use crate::text::{has_control, byte_len, contains_control, distinct_views, has_view, contains_str, char_vec, starts_with};
use crate::graph::validate::MAX_GRAPH_NODES;

pub const MAX_SPEC_BYTES: usize = 32768;
pub const MAX_JOB_TIMEOUT_MS: u64 = 86400000;

/// A specification in its compact JSON text: an object or `null` of at most 32 KiB.
pub open spec fn is_bounded_spec(json: Seq<char>) -> bool {
    (json == "null"@ || (json.len() > 0 && json[0] == '{')) && byte_len(json) <= MAX_SPEC_BYTES
}

/// Why a specification text is refused: not an object, then too long.
pub open spec fn spec_refusal(json: Seq<char>) -> Seq<char> {
    if !(json == "null"@ || (json.len() > 0 && json[0] == '{')) {
        "creative specification must be an object"@
    } else {
        "creative specification exceeds maximum"@
    }
}

/// Checks a specification given as compact JSON text.
pub fn validate_spec(json: &str) -> (r: Result<(), McpError>)
    ensures
        r is Ok <==> is_bounded_spec(json@),
        r matches Err(e) ==> e is InvalidRequest,
        r matches Err(e) ==> invalid_with(e, spec_refusal(json@)),
{
    let v = char_vec(json);
    if !(str_eq(json, "null") || (v.len() > 0 && v[0] == '{')) {
        return Err(invalid("creative specification must be an object"));
    }
    if json.len() > MAX_SPEC_BYTES {
        return Err(invalid("creative specification exceeds maximum"));
    }
    Ok(())
}

/// The outcome of one node in a graph job. `output` is compact JSON text.
#[derive(Clone, Debug)]
pub struct NodeRunRecord {
    pub node_id: String,
    pub status: CreativeJobStatus,
    pub output: Option<String>,
    pub failure_code: Option<String>,
    pub reused: bool,
    pub execution_batch: u32,
}

/// A creative job. `execution_parameters` is compact JSON text.
#[derive(Clone, Debug)]
pub struct CreativeJobRecord {
    pub schema_version: u32,
    pub job_id: String,
    pub project_id: String,
    pub owner: String,
    pub kind: CreativeJobKind,
    pub graph_id: Option<String>,
    pub capability_id: Option<String>,
    pub workflow_id: Option<String>,
    pub execution_binding_id: Option<String>,
    pub execution_parameters: String,
    pub compiler_version: Option<String>,
    pub execution_binding_version: Option<String>,
    pub changed_fields: Vec<String>,
    pub status: CreativeJobStatus,
    pub estimate: Option<CreativeEstimate>,
    pub approved: bool,
    pub retry_count: u32,
    pub max_retries: u32,
    pub timeout_ms: u64,
    pub created_at_ms: u128,
    pub updated_at_ms: u128,
    pub node_runs: Vec<NodeRunRecord>,
    pub output_asset_ids: Vec<String>,
    pub actual_output_bytes: Option<u64>,
    pub failure_code: Option<String>,
}

pub open spec fn opt_id_ok(v: Option<String>) -> bool {
    match v { Some(s) => is_valid_id(s@), None => true }
}

pub open spec fn version_ok(v: Option<String>) -> bool {
    match v { Some(s) => s@.len() > 0 && byte_len(s@) <= 128 && !has_control(s@), None => true }
}

/// A job estimate that the store accepts.
pub open spec fn estimate_ok(e: Option<CreativeEstimate>) -> bool {
    match e {
        Some(e) => e.compute_units > 0 && e.output_bytes > 0 && e.source@.len() > 0 && byte_len(e.source@) <= 128 && !has_control(e.source@),
        None => true,
    }
}

pub open spec fn run_node_ids(runs: Seq<NodeRunRecord>) -> Seq<String> {
    runs.map_values(|r: NodeRunRecord| r.node_id)
}

/// Why the job's target identity does not match its kind, if it does not. A workflow
/// job must name a workflow of the catalog; `capability_known` says whether the registry
/// knows the capability a capability job names.
pub open spec fn target_refusal(job: CreativeJobRecord, capability_known: bool) -> Option<Seq<char>> {
    match job.kind {
        CreativeJobKind::Graph => match job.graph_id {
            None => Some("graph creative job requires graph_id"@),
            Some(g) => if !is_valid_id(g@) {
                Some("graph_id"@ + id_rule())
            } else if job.capability_id is Some || job.workflow_id is Some {
                Some("graph creative job cannot also declare capability/workflow identity"@)
            } else {
                None
            },
        },
        CreativeJobKind::Capability => if job.capability_id is None {
            Some("capability creative job requires capability_id"@)
        } else if !capability_known || job.graph_id is Some || job.workflow_id is Some {
            Some("capability creative job identity is invalid"@)
        } else {
            None
        },
        CreativeJobKind::Workflow => match job.workflow_id {
            None => Some("workflow creative job requires workflow_id"@),
            Some(w) => if catalog_workflow(w@) is None || job.graph_id is Some || job.capability_id is Some {
                Some("workflow creative job identity is invalid"@)
            } else {
                None
            },
        },
    }
}

/// The refusal of the first element of `s` that `check` refuses, given the elements
/// before it.
pub open spec fn first_refusal<T>(s: Seq<T>, check: spec_fn(Seq<T>, T) -> Option<Seq<char>>) -> Option<Seq<char>>
    decreases s.len(),
{
    if s.len() == 0 {
        None
    } else {
        match first_refusal(s.drop_last(), check) {
            Some(m) => Some(m),
            None => check(s.drop_last(), s.last()),
        }
    }
}

/// An identifier check as `validate_id` words its refusal.
pub open spec fn id_check(value: Seq<char>, field: Seq<char>) -> Option<Seq<char>> {
    if is_valid_id(value) { None } else { Some(field + id_rule()) }
}

/// A changed field of the compiler lineage: an identifier not listed before it.
pub open spec fn changed_field_check() -> spec_fn(Seq<String>, String) -> Option<Seq<char>> {
    |before: Seq<String>, f: String| if !is_valid_id(f@) {
        Some("changed_field"@ + id_rule())
    } else if has_view(before, f@) {
        Some("creative compiler lineage contains duplicate changed fields"@)
    } else {
        None
    }
}

/// An output asset: an identifier.
pub open spec fn output_asset_check() -> spec_fn(Seq<String>, String) -> Option<Seq<char>> {
    |before: Seq<String>, a: String| id_check(a@, "asset_id"@)
}

/// A node run: an identifier not used by a run before it, an output that is a bounded
/// specification, and a failure code that is an identifier.
pub open spec fn node_run_check() -> spec_fn(Seq<NodeRunRecord>, NodeRunRecord) -> Option<Seq<char>> {
    |before: Seq<NodeRunRecord>, run: NodeRunRecord| if !is_valid_id(run.node_id@) {
        Some("node_id"@ + id_rule())
    } else if has_view(run_node_ids(before), run.node_id@) {
        Some("creative job contains duplicate node runs"@)
    } else if run.output matches Some(o) && !is_bounded_spec(o@) {
        Some(spec_refusal(run.output->0@))
    } else if run.failure_code matches Some(c) && !is_valid_id(c@) {
        Some("failure_code"@ + id_rule())
    } else {
        None
    }
}

/// Why the store refuses a job record, checked in this order; `None` where it accepts
/// it. `capability_known` says whether the registry knows the capability it names.
pub open spec fn job_record_refusal(job: CreativeJobRecord, capability_known: bool) -> Option<Seq<char>> {
    if job.schema_version != crate::contracts::CREATIVE_SCHEMA_VERSION {
        Some("creative job schema version is unsupported"@)
    } else if !is_valid_id(job.job_id@) {
        Some("job_id"@ + id_rule())
    } else if !is_valid_id(job.project_id@) {
        Some("project_id"@ + id_rule())
    } else if !is_valid_owner(job.owner@) {
        Some("creative job owner is invalid"@)
    } else if target_refusal(job, capability_known) is Some {
        target_refusal(job, capability_known)
    } else if job.execution_binding_id matches Some(b) && !is_valid_id(b@) {
        Some("execution_binding_id"@ + id_rule())
    } else if !version_ok(job.compiler_version) {
        Some("creative job compiler_version is invalid"@)
    } else if !version_ok(job.execution_binding_version) {
        Some("creative job execution_binding_version is invalid"@)
    } else if (job.compiler_version is Some) != (job.execution_binding_version is Some) || job.changed_fields@.len() > 32 {
        Some("creative compiler lineage is inconsistent"@)
    } else if first_refusal(job.changed_fields@, changed_field_check()) is Some {
        first_refusal(job.changed_fields@, changed_field_check())
    } else if !estimate_ok(job.estimate) {
        Some("creative job estimate is invalid"@)
    } else if job.retry_count > job.max_retries || job.max_retries > 16 || job.timeout_ms > MAX_JOB_TIMEOUT_MS {
        Some("creative job retry/timeout bounds are invalid"@)
    } else if job.output_asset_ids@.len() > 256 {
        Some("creative job output asset count exceeds maximum"@)
    } else if first_refusal(job.output_asset_ids@, output_asset_check()) is Some {
        first_refusal(job.output_asset_ids@, output_asset_check())
    } else if job.node_runs@.len() > MAX_GRAPH_NODES {
        Some("creative job node-run count exceeds maximum"@)
    } else if first_refusal(job.node_runs@, node_run_check()) is Some {
        first_refusal(job.node_runs@, node_run_check())
    } else if !is_bounded_spec(job.execution_parameters@) {
        Some(spec_refusal(job.execution_parameters@))
    } else if job.failure_code matches Some(c) && !is_valid_id(c@) {
        Some("failure_code"@ + id_rule())
    } else {
        None
    }
}

/// A job record that the store accepts.
pub open spec fn job_record_ok(job: CreativeJobRecord, capability_known: bool) -> bool {
    job_record_refusal(job, capability_known) is None
}

/// One more element: the refusal of a prefix one longer.
pub proof fn lemma_first_refusal_step<T>(s: Seq<T>, k: int, check: spec_fn(Seq<T>, T) -> Option<Seq<char>>)
    requires
        0 <= k < s.len(),
    ensures
        first_refusal(s.take(k + 1), check) == match first_refusal(s.take(k), check) {
            Some(m) => Some(m),
            None => check(s.take(k), s[k]),
        },
{
    assert(s.take(k + 1).drop_last() =~= s.take(k));
}

/// A refused prefix decides the refusal of the whole sequence.
pub proof fn lemma_first_refusal_prefix<T>(s: Seq<T>, k: int, check: spec_fn(Seq<T>, T) -> Option<Seq<char>>)
    requires
        0 <= k <= s.len(),
        first_refusal(s.take(k), check) is Some,
    ensures
        first_refusal(s, check) == first_refusal(s.take(k), check),
    decreases s.len(),
{
    if k == s.len() {
        assert(s.take(k) =~= s);
    } else {
        assert(s.drop_last().take(k) =~= s.take(k));
        lemma_first_refusal_prefix(s.drop_last(), k, check);
    }
}

fn check_version(v: &Option<String>) -> (r: bool)
    ensures
        r == version_ok(*v),
{
    match v {
        Some(s) => !s.as_str().is_empty() && s.as_str().len() <= 128 && !contains_control(s.as_str()),
        None => true,
    }
}

fn check_target(job: &CreativeJobRecord, capability_known: bool) -> (r: Result<(), McpError>)
    ensures
        r is Ok <==> target_refusal(*job, capability_known) is None,
        r matches Err(e) ==> target_refusal(*job, capability_known) matches Some(m) && invalid_with(e, m),
{
    match job.kind {
        CreativeJobKind::Graph => {
            match &job.graph_id {
                None => { return Err(invalid("graph creative job requires graph_id")); },
                Some(g) => {
                    match validate_id(g.as_str(), "graph_id") {
                        Err(e) => { return Err(e); },
                        Ok(()) => {},
                    }
                },
            }
            if job.capability_id.is_some() || job.workflow_id.is_some() {
                return Err(invalid("graph creative job cannot also declare capability/workflow identity"));
            }
        },
        CreativeJobKind::Capability => {
            if job.capability_id.is_none() {
                return Err(invalid("capability creative job requires capability_id"));
            }
            if !capability_known || job.graph_id.is_some() || job.workflow_id.is_some() {
                return Err(invalid("capability creative job identity is invalid"));
            }
        },
        CreativeJobKind::Workflow => {
            match &job.workflow_id {
                None => { return Err(invalid("workflow creative job requires workflow_id")); },
                Some(w) => {
                    let known = workflow(w.as_str()).is_some();
                    if !known || job.graph_id.is_some() || job.capability_id.is_some() {
                        return Err(invalid("workflow creative job identity is invalid"));
                    }
                },
            }
        },
    }
    Ok(())
}

fn check_changed_fields(fields: &Vec<String>) -> (r: Result<(), McpError>)
    ensures
        r is Ok <==> first_refusal(fields@, changed_field_check()) is None,
        r matches Err(e) ==> first_refusal(fields@, changed_field_check()) matches Some(m) && invalid_with(e, m),
{
    let mut seen: Vec<String> = Vec::new();
    let mut i: usize = 0;
    while i < fields.len()
        invariant
            i <= fields.len(),
            seen@ == fields@.take(i as int),
            first_refusal(fields@.take(i as int), changed_field_check()) is None,
        decreases fields.len() - i,
    {
        proof {
            lemma_first_refusal_step(fields@, i as int, changed_field_check());
        }
        match validate_id(fields[i].as_str(), "changed_field") {
            Err(e) => {
                proof {
                    lemma_first_refusal_prefix(fields@, i + 1, changed_field_check());
                }
                return Err(e);
            },
            Ok(()) => {},
        }
        if contains_str(&seen, fields[i].as_str()) {
            proof {
                lemma_first_refusal_prefix(fields@, i + 1, changed_field_check());
            }
            return Err(invalid("creative compiler lineage contains duplicate changed fields"));
        }
        seen.push(fields[i].clone());
        proof {
            assert(seen@ =~= fields@.take(i + 1));
        }
        i += 1;
    }
    proof {
        assert(fields@.take(i as int) =~= fields@);
    }
    Ok(())
}

fn check_output_assets(ids: &Vec<String>) -> (r: Result<(), McpError>)
    ensures
        r is Ok <==> first_refusal(ids@, output_asset_check()) is None,
        r matches Err(e) ==> first_refusal(ids@, output_asset_check()) matches Some(m) && invalid_with(e, m),
{
    let mut i: usize = 0;
    while i < ids.len()
        invariant
            i <= ids.len(),
            first_refusal(ids@.take(i as int), output_asset_check()) is None,
        decreases ids.len() - i,
    {
        proof {
            lemma_first_refusal_step(ids@, i as int, output_asset_check());
        }
        match validate_id(ids[i].as_str(), "asset_id") {
            Err(e) => {
                proof {
                    lemma_first_refusal_prefix(ids@, i + 1, output_asset_check());
                }
                return Err(e);
            },
            Ok(()) => {},
        }
        i += 1;
    }
    proof {
        assert(ids@.take(i as int) =~= ids@);
    }
    Ok(())
}

fn check_node_runs(runs: &Vec<NodeRunRecord>) -> (r: Result<(), McpError>)
    ensures
        r is Ok <==> first_refusal(runs@, node_run_check()) is None,
        r matches Err(e) ==> first_refusal(runs@, node_run_check()) matches Some(m) && invalid_with(e, m),
{
    let mut seen: Vec<String> = Vec::new();
    let mut i: usize = 0;
    while i < runs.len()
        invariant
            i <= runs.len(),
            seen@ == run_node_ids(runs@.take(i as int)),
            first_refusal(runs@.take(i as int), node_run_check()) is None,
        decreases runs.len() - i,
    {
        proof {
            lemma_first_refusal_step(runs@, i as int, node_run_check());
        }
        let run = &runs[i];
        match validate_id(run.node_id.as_str(), "node_id") {
            Err(e) => {
                proof {
                    lemma_first_refusal_prefix(runs@, i + 1, node_run_check());
                }
                return Err(e);
            },
            Ok(()) => {},
        }
        if contains_str(&seen, run.node_id.as_str()) {
            proof {
                lemma_first_refusal_prefix(runs@, i + 1, node_run_check());
            }
            return Err(invalid("creative job contains duplicate node runs"));
        }
        match &run.output {
            Some(o) => {
                match validate_spec(o.as_str()) {
                    Err(e) => {
                        proof {
                            lemma_first_refusal_prefix(runs@, i + 1, node_run_check());
                        }
                        return Err(e);
                    },
                    Ok(()) => {},
                }
            },
            None => {},
        }
        match &run.failure_code {
            Some(c) => {
                match validate_id(c.as_str(), "failure_code") {
                    Err(e) => {
                        proof {
                            lemma_first_refusal_prefix(runs@, i + 1, node_run_check());
                        }
                        return Err(e);
                    },
                    Ok(()) => {},
                }
            },
            None => {},
        }
        seen.push(run.node_id.clone());
        proof {
            assert(seen@ =~= run_node_ids(runs@.take(i + 1)));
        }
        i += 1;
    }
    proof {
        assert(runs@.take(i as int) =~= runs@);
    }
    Ok(())
}

/// Checks a stored job record in the order the store does; `capability_known` says
/// whether the registry knows the capability that a capability job names. The workflow
/// of a workflow job is looked up in the catalog.
pub fn validate_job_record(job: &CreativeJobRecord, capability_known: bool) -> (r: Result<(), McpError>)
    ensures
        r is Ok <==> job_record_ok(*job, capability_known),
        r matches Err(e) ==> job_record_refusal(*job, capability_known) matches Some(m) && invalid_with(e, m),
{
    if job.schema_version != crate::contracts::CREATIVE_SCHEMA_VERSION {
        return Err(invalid("creative job schema version is unsupported"));
    }
    match validate_id(job.job_id.as_str(), "job_id") {
        Err(e) => { return Err(e); },
        Ok(()) => {},
    }
    match validate_id(job.project_id.as_str(), "project_id") {
        Err(e) => { return Err(e); },
        Ok(()) => {},
    }
    if validate_owner(job.owner.as_str()).is_err() {
        return Err(invalid("creative job owner is invalid"));
    }
    match check_target(job, capability_known) {
        Err(e) => { return Err(e); },
        Ok(()) => {},
    }
    match &job.execution_binding_id {
        Some(b) => {
            match validate_id(b.as_str(), "execution_binding_id") {
                Err(e) => { return Err(e); },
                Ok(()) => {},
            }
        },
        None => {},
    }
    if !check_version(&job.compiler_version) {
        return Err(invalid("creative job compiler_version is invalid"));
    }
    if !check_version(&job.execution_binding_version) {
        return Err(invalid("creative job execution_binding_version is invalid"));
    }
    if job.compiler_version.is_some() != job.execution_binding_version.is_some() || job.changed_fields.len() > 32 {
        return Err(invalid("creative compiler lineage is inconsistent"));
    }
    match check_changed_fields(&job.changed_fields) {
        Err(e) => { return Err(e); },
        Ok(()) => {},
    }
    match &job.estimate {
        Some(e) => {
            if e.compute_units == 0 || e.output_bytes == 0 || e.source.as_str().is_empty() || e.source.as_str().len() > 128 || contains_control(e.source.as_str()) {
                return Err(invalid("creative job estimate is invalid"));
            }
        },
        None => {},
    }
    if job.retry_count > job.max_retries || job.max_retries > 16 || job.timeout_ms > MAX_JOB_TIMEOUT_MS {
        return Err(invalid("creative job retry/timeout bounds are invalid"));
    }
    if job.output_asset_ids.len() > 256 {
        return Err(invalid("creative job output asset count exceeds maximum"));
    }
    match check_output_assets(&job.output_asset_ids) {
        Err(e) => { return Err(e); },
        Ok(()) => {},
    }
    if job.node_runs.len() > MAX_GRAPH_NODES {
        return Err(invalid("creative job node-run count exceeds maximum"));
    }
    match check_node_runs(&job.node_runs) {
        Err(e) => { return Err(e); },
        Ok(()) => {},
    }
    match validate_spec(job.execution_parameters.as_str()) {
        Err(e) => { return Err(e); },
        Ok(()) => {},
    }
    match &job.failure_code {
        Some(c) => {
            match validate_id(c.as_str(), "failure_code") {
                Err(e) => { return Err(e); },
                Ok(()) => {},
            }
        },
        None => {},
    }
    Ok(())
}

} // verus!

verus! {

pub open spec fn is_terminal(s: CreativeJobStatus) -> bool {
    s == CreativeJobStatus::Completed || s == CreativeJobStatus::Failed || s == CreativeJobStatus::Cancelled
}

/// Checks that the caller owns the job.
pub fn enforce_owner(job: &CreativeJobRecord, owner: &str) -> (r: Result<(), McpError>)
    ensures
        r is Ok <==> job.owner@ == owner@,
        r matches Err(e) ==> invalid_with(e, "creative job belongs to a different owner"@),
{
    if !str_eq(job.owner.as_str(), owner) {
        return Err(invalid("creative job belongs to a different owner"));
    }
    Ok(())
}

/// Cancels the owner's job at time `now`; a job that already ended is refused.
pub fn cancel(job: &mut CreativeJobRecord, owner: &str, now: u128) -> (r: Result<(), McpError>)
    ensures
        r is Ok <==> is_valid_owner(owner@) && old(job).owner@ == owner@ && !is_terminal(old(job).status),
        r matches Err(e) ==> e is InvalidRequest,
        r is Err ==> *final(job) == *old(job),
        r is Ok ==> *final(job) == (CreativeJobRecord { status: CreativeJobStatus::Cancelled, updated_at_ms: now, ..*old(job) }),
{
    if validate_owner(owner).is_err() {
        return Err(invalid("creative job owner is invalid"));
    }
    enforce_owner(job, owner)?;
    match job.status {
        CreativeJobStatus::Queued | CreativeJobStatus::Running => {
            job.status = CreativeJobStatus::Cancelled;
            job.updated_at_ms = now;
            Ok(())
        },
        _ => Err(invalid("creative job is already terminal")),
    }
}

/// Puts a failed job back in the queue for another attempt at time `now`, within its
/// retry allowance. Jobs in other states are left as they are.
pub fn begin_retry(job: &mut CreativeJobRecord, now: u128) -> (r: Result<(), McpError>)
    ensures
        r is Err <==> old(job).status == CreativeJobStatus::Failed && old(job).retry_count >= old(job).max_retries,
        r matches Err(e) ==> e is InvalidRequest,
        r is Err || old(job).status != CreativeJobStatus::Failed ==> *final(job) == *old(job),
        r is Ok && old(job).status == CreativeJobStatus::Failed ==> *final(job) == (CreativeJobRecord {
            status: CreativeJobStatus::Queued,
            retry_count: (old(job).retry_count + 1) as u32,
            failure_code: None,
            node_runs: final(job).node_runs,
            updated_at_ms: now,
            ..*old(job)
        }) && final(job).node_runs@.len() == 0,
{
    if job.status == CreativeJobStatus::Failed {
        if job.retry_count >= job.max_retries {
            return Err(invalid("creative job retry limit reached"));
        }
        job.retry_count = job.retry_count + 1;
        job.status = CreativeJobStatus::Queued;
        job.failure_code = None;
        job.node_runs = Vec::new();
        job.updated_at_ms = now;
    }
    Ok(())
}

/// What `wait` does with a job: hand it back as it is, or run it.
#[derive(Clone, Copy, Debug, PartialEq, Eq, Structural)]
pub enum WaitStep {
    Report,
    Run,
}

/// Decides whether a job is run now: queued jobs start when fewer than `limit` of the
/// owner's jobs run, and are marked running at `now`; other jobs are reported as they are.
pub fn start_if_queued(job: &mut CreativeJobRecord, running: usize, limit: usize, now: u128) -> (r: Result<WaitStep, McpError>)
    ensures
        r is Err <==> old(job).status == CreativeJobStatus::Queued && running >= limit,
        r matches Err(e) ==> e is InvalidRequest,
        r matches Ok(WaitStep::Report) ==> old(job).status != CreativeJobStatus::Queued && *final(job) == *old(job),
        r matches Ok(WaitStep::Run) ==> old(job).status == CreativeJobStatus::Queued
            && *final(job) == (CreativeJobRecord { status: CreativeJobStatus::Running, updated_at_ms: now, ..*old(job) }),
        r is Err ==> *final(job) == *old(job),
{
    if job.status != CreativeJobStatus::Queued {
        return Ok(WaitStep::Report);
    }
    if running >= limit {
        return Err(invalid("creative job concurrency limit reached"));
    }
    job.status = CreativeJobStatus::Running;
    job.updated_at_ms = now;
    Ok(WaitStep::Run)
}

/// Every lifecycle step keeps a stored job record acceptable: cancelling, retrying and
/// starting a job that the store accepted give a job that it accepts too.
pub proof fn law_lifecycle_keeps_record_valid(before: CreativeJobRecord, now: u128, runs: Vec<NodeRunRecord>, capability_known: bool)
    requires
        job_record_ok(before, capability_known),
        runs@.len() == 0,
    ensures
        job_record_ok(CreativeJobRecord { status: CreativeJobStatus::Cancelled, updated_at_ms: now, ..before }, capability_known),
        job_record_ok(CreativeJobRecord { status: CreativeJobStatus::Running, updated_at_ms: now, ..before }, capability_known),
        before.status == CreativeJobStatus::Failed && before.retry_count < before.max_retries ==> job_record_ok(CreativeJobRecord {
            status: CreativeJobStatus::Queued,
            retry_count: (before.retry_count + 1) as u32,
            failure_code: None,
            node_runs: runs,
            updated_at_ms: now,
            ..before
        }, capability_known),
{
    assert(first_refusal(runs@, node_run_check()) is None);
}

/// A cancelled job stays cancelled: cancelling it again is refused.
pub proof fn law_cancel_is_final(job: CreativeJobRecord, owner: Seq<char>)
    requires
        job.status == CreativeJobStatus::Cancelled,
    ensures
        !(is_valid_owner(owner) && job.owner@ == owner && !is_terminal(job.status)),
{
}

/// A job that the local runtime carried out in one step completes with its outputs and
/// a single completed run record for the step.
pub fn complete_local_job(
    job: &mut CreativeJobRecord,
    node_id: &str,
    output_asset_ids: Vec<String>,
    output: String,
    output_bytes: Option<u64>,
    now: u128,
)
    ensures
        final(job).status == CreativeJobStatus::Completed,
        final(job).failure_code is None,
        final(job).output_asset_ids@ == output_asset_ids@,
        final(job).actual_output_bytes == output_bytes,
        final(job).updated_at_ms == now,
        final(job).node_runs@.len() == 1,
        final(job).node_runs@[0].node_id@ == node_id@,
        final(job).node_runs@[0].status == CreativeJobStatus::Completed,
        final(job).node_runs@[0].output == Some(output),
        final(job).node_runs@[0].failure_code is None,
        !final(job).node_runs@[0].reused,
        final(job).node_runs@[0].execution_batch == 0,
        final(job).job_id == old(job).job_id,
        final(job).owner == old(job).owner,
        final(job).project_id == old(job).project_id,
        *final(job) == (CreativeJobRecord {
            status: CreativeJobStatus::Completed,
            failure_code: None,
            output_asset_ids: final(job).output_asset_ids,
            actual_output_bytes: output_bytes,
            node_runs: final(job).node_runs,
            updated_at_ms: now,
            ..*old(job)
        }),
{
    let mut runs: Vec<NodeRunRecord> = Vec::new();
    runs.push(NodeRunRecord {
        node_id: node_id.to_owned(),
        status: CreativeJobStatus::Completed,
        output: Some(output),
        failure_code: None,
        reused: false,
        execution_batch: 0,
    });
    job.status = CreativeJobStatus::Completed;
    job.failure_code = None;
    job.output_asset_ids = output_asset_ids;
    job.actual_output_bytes = output_bytes;
    job.node_runs = runs;
    job.updated_at_ms = now;
}

} // verus!
