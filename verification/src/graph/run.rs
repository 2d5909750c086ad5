use vstd::prelude::*;
use crate::jobs::{CreativeJobKind, CreativeJobRecord, CreativeJobStatus, NodeRunRecord};
use crate::order::{lex_lt, lemma_lex_asymmetric, lemma_lex_total, lemma_lex_transitive, sort_dedup, str_lt, strictly_sorted_views};
use crate::text::{contains_str, has_view, str_eq};

verus! {

broadcast use vstd::seq_lib::group_seq_properties, vstd::multiset::group_multiset_axioms;

/// Something ordered by an execution batch and then by a node name.
pub trait RunKeyed {
    spec fn key_batch(&self) -> u32;

    spec fn key_name(&self) -> Seq<char>;

    fn batch_of(&self) -> (b: u32)
        ensures
            b == self.key_batch(),
    ;

    fn name_of(&self) -> (n: &str)
        ensures
            n@ == self.key_name(),
    ;
}

impl RunKeyed for NodeRunRecord {
    open spec fn key_batch(&self) -> u32 {
        self.execution_batch
    }

    open spec fn key_name(&self) -> Seq<char> {
        self.node_id@
    }

    fn batch_of(&self) -> (b: u32) {
        self.execution_batch
    }

    fn name_of(&self) -> (n: &str) {
        self.node_id.as_str()
    }
}

/// What running one node of a batch gave: its output (compact JSON text) and the assets
/// the output names, or a failure code.
#[derive(Debug)]
pub struct NodeOutcome {
    pub node_id: String,
    pub result: Result<(String, Vec<String>), String>,
}

impl RunKeyed for NodeOutcome {
    open spec fn key_batch(&self) -> u32 {
        0
    }

    open spec fn key_name(&self) -> Seq<char> {
        self.node_id@
    }

    fn batch_of(&self) -> (b: u32) {
        0
    }

    fn name_of(&self) -> (n: &str) {
        self.node_id.as_str()
    }
}

/// `a` orders before `b`: by batch, then by name.
pub open spec fn key_lt<T: RunKeyed>(a: T, b: T) -> bool {
    a.key_batch() < b.key_batch() || (a.key_batch() == b.key_batch() && lex_lt(a.key_name(), b.key_name()))
}

/// No item orders before an earlier one.
pub open spec fn keys_sorted<T: RunKeyed>(s: Seq<T>) -> bool {
    forall|i: int, j: int| 0 <= i < j < s.len() ==> !key_lt(#[trigger] s[j], #[trigger] s[i])
}

proof fn lemma_key_transitive<T: RunKeyed>(a: T, b: T, c: T)
    requires
        key_lt(a, b),
        key_lt(b, c),
    ensures
        key_lt(a, c),
{
    if a.key_batch() == b.key_batch() && b.key_batch() == c.key_batch() {
        lemma_lex_transitive(a.key_name(), b.key_name(), c.key_name());
    }
}

proof fn lemma_key_asymmetric<T: RunKeyed>(a: T, b: T)
    requires
        key_lt(a, b),
    ensures
        !key_lt(b, a),
{
    if a.key_batch() == b.key_batch() {
        lemma_lex_asymmetric(a.key_name(), b.key_name());
    }
}

proof fn lemma_key_total<T: RunKeyed>(a: T, b: T)
    ensures
        key_lt(a, b) || key_lt(b, a) || (a.key_batch() == b.key_batch() && a.key_name() == b.key_name()),
{
    lemma_lex_total(a.key_name(), b.key_name());
}

proof fn lemma_insert_keyed<T: RunKeyed>(s: Seq<T>, p: int, x: T)
    requires
        0 <= p <= s.len(),
        keys_sorted(s),
        forall|q: int| 0 <= q < p ==> key_lt(#[trigger] s[q], x),
        p < s.len() ==> !key_lt(s[p], x),
    ensures
        keys_sorted(s.insert(p, x)),
{
    let t = s.insert(p, x);
    assert forall|i: int, j: int| 0 <= i < j < t.len() implies !key_lt(#[trigger] t[j], #[trigger] t[i]) by {
        if i < p && j == p {
            lemma_key_asymmetric(s[i], x);
        } else if i < p && j > p {
            assert(t[j] == s[j - 1]);
        } else if i == p && j > p {
            assert(t[j] == s[j - 1]);
            if j - 1 != p && key_lt(s[j - 1], x) {
                lemma_key_total(x, s[p]);
                if key_lt(x, s[p]) {
                    lemma_key_transitive(s[j - 1], x, s[p]);
                }
                assert(key_lt(s[j - 1], s[p]));
            }
        } else if i > p {
            assert(t[i] == s[i - 1]);
            assert(t[j] == s[j - 1]);
        }
    }
}

proof fn lemma_insert_multiset<T>(s: Seq<T>, i: int, x: T)
    requires
        0 <= i <= s.len(),
    ensures
        s.insert(i, x).to_multiset() =~= s.to_multiset().insert(x),
{
    let l = s.subrange(0, i);
    let r = s.subrange(i, s.len() as int);
    assert(s =~= l + r);
    assert(s.insert(i, x) =~= l.push(x) + r);
    vstd::seq_lib::lemma_multiset_commutative(l, r);
    vstd::seq_lib::lemma_multiset_commutative(l.push(x), r);
}

fn key_less<T: RunKeyed>(a: &T, b: &T) -> (r: bool)
    ensures
        r == key_lt(*a, *b),
{
    let (ba, bb) = (a.batch_of(), b.batch_of());
    ba < bb || (ba == bb && str_lt(a.name_of(), b.name_of()))
}

/// Orders the items by batch and then by name, keeping every item.
pub fn sort_by_run_key<T: RunKeyed>(v: Vec<T>) -> (out: Vec<T>)
    ensures
        out@.to_multiset() == v@.to_multiset(),
        keys_sorted(out@),
{
    let ghost orig = v@;
    let mut rest = v;
    let mut out: Vec<T> = Vec::new();
    while rest.len() > 0
        invariant
            out@.to_multiset().add(rest@.to_multiset()) == orig.to_multiset(),
            keys_sorted(out@),
        decreases rest.len(),
    {
        let ghost before = rest@;
        let x = rest.pop().unwrap();
        proof {
            assert(before =~= rest@.push(x));
        }
        let mut p: usize = 0;
        while p < out.len() && key_less(&out[p], &x)
            invariant
                p <= out.len(),
                forall|q: int| 0 <= q < p ==> key_lt(#[trigger] out@[q], x),
            decreases out.len() - p,
        {
            p += 1;
        }
        proof {
            lemma_insert_keyed(out@, p as int, x);
            lemma_insert_multiset(out@, p as int, x);
        }
        out.insert(p, x);
    }
    out
}

} // verus!

verus! {

/// The record a graph execution starts from: a running graph job, or a failed one
/// where the graph did not validate.
pub fn graph_job_start(job_id: &str, project_id: &str, owner: &str, graph_id: &str, valid: bool, now: u128)
    -> (job: CreativeJobRecord)
    ensures
        job.schema_version == crate::contracts::CREATIVE_SCHEMA_VERSION,
        job.job_id@ == job_id@,
        job.project_id@ == project_id@,
        job.owner@ == owner@,
        job.kind == CreativeJobKind::Graph,
        job.graph_id matches Some(g) && g@ == graph_id@,
        job.capability_id is None && job.workflow_id is None && job.execution_binding_id is None,
        job.execution_parameters@ == "{}"@,
        job.compiler_version is None && job.execution_binding_version is None,
        job.changed_fields@.len() == 0,
        job.status == (if valid { CreativeJobStatus::Running } else { CreativeJobStatus::Failed }),
        job.estimate is None,
        job.approved,
        job.retry_count == 0 && job.max_retries == 0 && job.timeout_ms == 0,
        job.created_at_ms == now && job.updated_at_ms == now,
        job.node_runs@.len() == 0 && job.output_asset_ids@.len() == 0,
        job.actual_output_bytes is None,
        valid ==> job.failure_code is None,
        !valid ==> (job.failure_code matches Some(c) && c@ == "graph_validation_failed"@),
{
    CreativeJobRecord {
        schema_version: crate::contracts::CREATIVE_SCHEMA_VERSION,
        job_id: job_id.to_owned(),
        project_id: project_id.to_owned(),
        owner: owner.to_owned(),
        kind: CreativeJobKind::Graph,
        graph_id: Some(graph_id.to_owned()),
        capability_id: None,
        workflow_id: None,
        execution_binding_id: None,
        execution_parameters: "{}".to_owned(),
        compiler_version: None,
        execution_binding_version: None,
        changed_fields: Vec::new(),
        status: if valid { CreativeJobStatus::Running } else { CreativeJobStatus::Failed },
        estimate: None,
        approved: true,
        retry_count: 0,
        max_retries: 0,
        timeout_ms: 0,
        created_at_ms: now,
        updated_at_ms: now,
        node_runs: Vec::new(),
        output_asset_ids: Vec::new(),
        actual_output_bytes: None,
        failure_code: if valid { None } else { Some("graph_validation_failed".to_owned()) },
    }
}

/// Run `k` is the last run of `runs` for node `id`.
pub open spec fn last_run_at(runs: Seq<NodeRunRecord>, id: Seq<char>, k: int) -> bool {
    &&& 0 <= k < runs.len()
    &&& runs[k].node_id@ == id
    &&& forall|j: int| k < j < runs.len() ==> (#[trigger] runs[j]).node_id@ != id
}

/// The output a partial rerun reuses for node `id`: none on a full run or for a dirty
/// node; otherwise the output of the node's last previous run, where it completed.
pub open spec fn reused_output(dirty: Option<Seq<String>>, id: Seq<char>, previous: Seq<NodeRunRecord>) -> Option<Seq<char>> {
    match dirty {
        None => None,
        Some(d) => if has_view(d, id) {
            None
        } else if exists|k: int| #[trigger] last_run_at(previous, id, k) {
            let k = choose|k: int| #[trigger] last_run_at(previous, id, k);
            if previous[k].status == CreativeJobStatus::Completed {
                match previous[k].output { Some(o) => Some(o@), None => None }
            } else {
                None
            }
        } else {
            None
        },
    }
}

/// The output that a partial rerun reuses for node `node_id`, if any.
pub fn reusable_output(dirty: Option<&Vec<String>>, node_id: &str, previous: &Vec<NodeRunRecord>) -> (r: Option<String>)
    ensures
        match r {
            Some(o) => reused_output(match dirty { Some(d) => Some(d@), None => None }, node_id@, previous@) == Some(o@),
            None => reused_output(match dirty { Some(d) => Some(d@), None => None }, node_id@, previous@) is None,
        },
{
    let d = match dirty {
        None => { return None; },
        Some(d) => d,
    };
    if contains_str(d, node_id) {
        return None;
    }
    let mut found: Option<usize> = None;
    let mut k: usize = 0;
    while k < previous.len()
        invariant
            k <= previous.len(),
            found matches Some(f) ==> f < k && previous@[f as int].node_id@ == node_id@
                && forall|j: int| f < j < k ==> (#[trigger] previous@[j]).node_id@ != node_id@,
            found is None ==> forall|j: int| 0 <= j < k ==> (#[trigger] previous@[j]).node_id@ != node_id@,
        decreases previous.len() - k,
    {
        if str_eq(previous[k].node_id.as_str(), node_id) {
            found = Some(k);
        }
        k += 1;
    }
    match found {
        None => {
            assert(!exists|k: int| #[trigger] last_run_at(previous@, node_id@, k));
            None
        },
        Some(f) => {
            proof {
                assert(last_run_at(previous@, node_id@, f as int));
                let c = choose|k: int| #[trigger] last_run_at(previous@, node_id@, k);
                if c < f {
                    assert(previous@[f as int].node_id@ == node_id@);
                } else if f < c {
                    assert(previous@[c].node_id@ == node_id@);
                }
                assert(c == f);
            }
            if previous[f].status == CreativeJobStatus::Completed {
                match &previous[f].output {
                    Some(o) => Some(o.clone()),
                    None => None,
                }
            } else {
                None
            }
        },
    }
}

/// `b` is job `a` with only its progress changed: runs, output assets, status, failure
/// code and time of update.
pub open spec fn same_job_apart_from_progress(a: CreativeJobRecord, b: CreativeJobRecord) -> bool {
    &&& b.schema_version == a.schema_version
    &&& b.job_id == a.job_id
    &&& b.project_id == a.project_id
    &&& b.owner == a.owner
    &&& b.kind == a.kind
    &&& b.graph_id == a.graph_id
    &&& b.capability_id == a.capability_id
    &&& b.workflow_id == a.workflow_id
    &&& b.execution_binding_id == a.execution_binding_id
    &&& b.execution_parameters == a.execution_parameters
    &&& b.compiler_version == a.compiler_version
    &&& b.execution_binding_version == a.execution_binding_version
    &&& b.changed_fields == a.changed_fields
    &&& b.estimate == a.estimate
    &&& b.approved == a.approved
    &&& b.retry_count == a.retry_count
    &&& b.max_retries == a.max_retries
    &&& b.timeout_ms == a.timeout_ms
    &&& b.created_at_ms == a.created_at_ms
    &&& b.actual_output_bytes == a.actual_output_bytes
}

/// The run a reused output records.
pub open spec fn reused_run(r: NodeRunRecord, node_id: Seq<char>, output: Seq<char>, batch: u32) -> bool {
    &&& r.node_id@ == node_id
    &&& r.status == CreativeJobStatus::Completed
    &&& r.output matches Some(o) && o@ == output
    &&& r.failure_code is None
    &&& r.reused
    &&& r.execution_batch == batch
}

/// Records that node `node_id` reuses `output` in batch `batch`; `asset_ids` are the
/// assets the output names.
pub fn record_reused(job: &mut CreativeJobRecord, node_id: String, output: String, asset_ids: Vec<String>, batch: u32)
    ensures
        same_job_apart_from_progress(*old(job), *final(job)),
        final(job).status == old(job).status,
        final(job).failure_code == old(job).failure_code,
        final(job).updated_at_ms == old(job).updated_at_ms,
        final(job).node_runs@.len() == old(job).node_runs@.len() + 1,
        final(job).node_runs@.drop_last() == old(job).node_runs@,
        reused_run(final(job).node_runs@.last(), node_id@, output@, batch),
        final(job).output_asset_ids@ == old(job).output_asset_ids@ + asset_ids@,
{
    let mut ids = asset_ids;
    job.output_asset_ids.append(&mut ids);
    job.node_runs.push(NodeRunRecord {
        node_id,
        status: CreativeJobStatus::Completed,
        output: Some(output),
        failure_code: None,
        reused: true,
        execution_batch: batch,
    });
}

/// The run that outcome `o` records in batch `batch`.
pub open spec fn outcome_run(o: NodeOutcome, batch: u32) -> NodeRunRecord {
    match o.result {
        Ok((output, _ids)) => NodeRunRecord {
            node_id: o.node_id,
            status: CreativeJobStatus::Completed,
            output: Some(output),
            failure_code: None,
            reused: false,
            execution_batch: batch,
        },
        Err(code) => NodeRunRecord {
            node_id: o.node_id,
            status: CreativeJobStatus::Failed,
            output: None,
            failure_code: Some(code),
            reused: false,
            execution_batch: batch,
        },
    }
}

/// The position of the first failed outcome, or the length where none failed.
pub open spec fn first_failure(s: Seq<NodeOutcome>) -> int
    decreases s.len(),
{
    if s.len() == 0 {
        0
    } else if s[0].result is Err {
        0
    } else {
        1 + first_failure(s.drop_first())
    }
}

/// The assets that the successful outcomes of `s` name, in order.
pub open spec fn outcome_assets(s: Seq<NodeOutcome>) -> Seq<String>
    decreases s.len(),
{
    if s.len() == 0 {
        seq![]
    } else {
        outcome_assets(s.drop_last()) + match s.last().result { Ok((_o, ids)) => ids@, Err(_c) => seq![] }
    }
}

/// What recording the sorted outcomes `s` of batch `batch` does to job `a`, giving `b`
/// and `failure`: the runs up to and including the first failure are added in order, the
/// assets of the successful ones before it are collected, and the failure's code is
/// handed back.
pub open spec fn batch_recorded(a: CreativeJobRecord, b: CreativeJobRecord, s: Seq<NodeOutcome>, batch: u32, failure: Option<String>) -> bool {
    let f = first_failure(s);
    let n = if f < s.len() { f + 1 } else { f };
    &&& same_job_apart_from_progress(a, b)
    &&& b.status == a.status
    &&& b.failure_code == a.failure_code
    &&& b.updated_at_ms == a.updated_at_ms
    &&& b.node_runs@ == a.node_runs@ + s.take(n).map_values(|o: NodeOutcome| outcome_run(o, batch))
    &&& b.output_asset_ids@ == a.output_asset_ids@ + outcome_assets(s.take(f))
    &&& failure == if f < s.len() { match s[f].result { Err(c) => Some(c), Ok(_x) => None::<String> } } else { None::<String> }
}

proof fn lemma_first_failure(s: Seq<NodeOutcome>, k: int)
    requires
        0 <= k <= s.len(),
        forall|j: int| 0 <= j < k ==> (#[trigger] s[j]).result is Ok,
        k < s.len() ==> s[k].result is Err,
    ensures
        first_failure(s) == k,
    decreases k,
{
    if k > 0 {
        assert forall|j: int| 0 <= j < k - 1 implies (#[trigger] s.drop_first()[j]).result is Ok by {
            assert(s.drop_first()[j] == s[j + 1]);
        }
        lemma_first_failure(s.drop_first(), k - 1);
    }
}

/// Records the outcomes of one batch in order of node name; stops at the first failure
/// and hands back its code.
pub fn record_batch(job: &mut CreativeJobRecord, batch: u32, outcomes: Vec<NodeOutcome>) -> (failure: Option<String>)
    ensures
        exists|s: Seq<NodeOutcome>| s.to_multiset() == outcomes@.to_multiset() && keys_sorted(s)
            && batch_recorded(*old(job), *final(job), s, batch, failure),
{
    let ghost orig = outcomes@;
    let sorted = sort_by_run_key(outcomes);
    let ghost s = sorted@;
    let mut rest = sorted;
    let total_len = rest.len();
    let mut k: usize = 0;
    let ghost start = *job;
    while rest.len() > 0
        invariant
            s.to_multiset() == orig.to_multiset(),
            keys_sorted(s),
            start == *old(job),
            k <= s.len(),
            s.len() == total_len,
            orig == outcomes@,
            k + rest@.len() == s.len(),
            rest@ == s.skip(k as int),
            forall|j: int| 0 <= j < k ==> (#[trigger] s[j]).result is Ok,
            same_job_apart_from_progress(start, *job),
            job.status == start.status,
            job.failure_code == start.failure_code,
            job.updated_at_ms == start.updated_at_ms,
            job.node_runs@ == start.node_runs@ + s.take(k as int).map_values(|o: NodeOutcome| outcome_run(o, batch)),
            job.output_asset_ids@ == start.output_asset_ids@ + outcome_assets(s.take(k as int)),
        decreases rest.len(),
    {
        let o = rest.remove(0);
        proof {
            assert(o == s[k as int]);
            assert(s.take(k + 1).drop_last() =~= s.take(k as int));
            assert(s.take(k + 1).map_values(|o: NodeOutcome| outcome_run(o, batch))
                =~= s.take(k as int).map_values(|o: NodeOutcome| outcome_run(o, batch)).push(outcome_run(s[k as int], batch)));
            assert(rest@ =~= s.skip(k + 1));
        }
        let NodeOutcome { node_id, result } = o;
        match result {
            Ok((output, ids)) => {
                let mut ids = ids;
                job.output_asset_ids.append(&mut ids);
                job.node_runs.push(NodeRunRecord {
                    node_id,
                    status: CreativeJobStatus::Completed,
                    output: Some(output),
                    failure_code: None,
                    reused: false,
                    execution_batch: batch,
                });
                k += 1;
            },
            Err(code) => {
                job.node_runs.push(NodeRunRecord {
                    node_id,
                    status: CreativeJobStatus::Failed,
                    output: None,
                    failure_code: Some(code.clone()),
                    reused: false,
                    execution_batch: batch,
                });
                proof {
                    lemma_first_failure(s, k as int);
                    assert(batch_recorded(start, *job, s, batch, Some(code)));
                    assert(s.to_multiset() == orig.to_multiset() && keys_sorted(s)
                        && batch_recorded(start, *job, s, batch, Some(code)));
                }
                return Some(code);
            },
        }
    }
    proof {
        assert(s.skip(k as int).len() == 0);
        assert(k == s.len());
        lemma_first_failure(s, k as int);
        assert(s.take(k as int) =~= s);
        assert(batch_recorded(start, *job, s, batch, None));
    }
    None
}

/// Closes a graph job at time `now`: its runs ordered by batch and node, its output
/// assets sorted without repeats, and its status failed with `failure` where one is
/// given, completed otherwise.
pub fn finalize_graph_job(job: &mut CreativeJobRecord, failure: Option<String>, now: u128)
    ensures
        same_job_apart_from_progress(*old(job), *final(job)),
        final(job).node_runs@.to_multiset() == old(job).node_runs@.to_multiset(),
        keys_sorted(final(job).node_runs@),
        strictly_sorted_views(final(job).output_asset_ids@),
        forall|x: Seq<char>| has_view(final(job).output_asset_ids@, x) <==> has_view(old(job).output_asset_ids@, x),
        final(job).status == (if failure is Some { CreativeJobStatus::Failed } else { CreativeJobStatus::Completed }),
        final(job).failure_code == failure,
        final(job).updated_at_ms == now,
{
    let mut runs: Vec<NodeRunRecord> = Vec::new();
    std::mem::swap(&mut runs, &mut job.node_runs);
    job.node_runs = sort_by_run_key(runs);
    let mut ids: Vec<String> = Vec::new();
    std::mem::swap(&mut ids, &mut job.output_asset_ids);
    job.output_asset_ids = sort_dedup(ids);
    job.status = if failure.is_some() { CreativeJobStatus::Failed } else { CreativeJobStatus::Completed };
    job.failure_code = failure;
    job.updated_at_ms = now;
}

} // verus!

verus! {

use crate::graph::model::{is_external_kind, requires_external_execution, GraphNodeKind};
use crate::graph::model::GraphEdge;
use crate::graph::reach::{dirty_descendants, reachable};
use crate::error::{invalid, invalid_with, McpError};

/// What the run does with one node of a batch: hand back the output of its previous run,
/// send it to the outside executor, or run it in place.
#[derive(Debug)]
pub enum NodeDispatch {
    Reuse(String),
    External,
    InPlace,
}

/// Decides how a node of a batch runs: a partial rerun reuses a clean node's last
/// completed output; otherwise generation, DCC, game and export nodes go to the outside
/// executor and the rest run in place.
pub fn dispatch_node(dirty: Option<&Vec<String>>, node_id: &str, kind: &GraphNodeKind, previous: &Vec<NodeRunRecord>) -> (r: NodeDispatch)
    ensures
        match reused_output(match dirty { Some(d) => Some(d@), None => None }, node_id@, previous@) {
            Some(o) => r matches NodeDispatch::Reuse(x) && x@ == o,
            None => if is_external_kind(*kind) { r is External } else { r is InPlace },
        },
{
    match reusable_output(dirty, node_id, previous) {
        Some(o) => NodeDispatch::Reuse(o),
        None => if requires_external_execution(kind) { NodeDispatch::External } else { NodeDispatch::InPlace },
    }
}

/// A partial rerun reuses a clean node: where node `id` is not among the dirty nodes and
/// its last previous run completed with output `o`, `dispatch_node` hands back `o` for
/// reuse, whatever the node's kind, and `record_reused` records it as a completed,
/// reused run with that output.
pub proof fn law_clean_node_reuses_previous_output(dirty: Seq<String>, id: Seq<char>, previous: Seq<NodeRunRecord>, k: int, o: String)
    requires
        !has_view(dirty, id),
        last_run_at(previous, id, k),
        previous[k].status == CreativeJobStatus::Completed,
        previous[k].output == Some(o),
    ensures
        reused_output(Some(dirty), id, previous) == Some(o@),
{
    let k2 = choose|j: int| #[trigger] last_run_at(previous, id, j);
    assert(last_run_at(previous, id, k2));
    if k2 < k {
        assert(previous[k].node_id@ != id);
    } else if k < k2 {
        assert(previous[k2].node_id@ != id);
    }
}

/// How `finish_batch` leaves a job: the batch recorded in node order as `record_batch`
/// records it (`mid`), and then, where a node failed, the job closed as failed with that
/// node's code.
pub open spec fn batch_finished(
    before: CreativeJobRecord,
    after: CreativeJobRecord,
    outcomes: Seq<NodeOutcome>,
    batch: u32,
    now: u128,
    s: Seq<NodeOutcome>,
    failure: Option<String>,
    mid: CreativeJobRecord,
) -> bool {
    &&& s.to_multiset() == outcomes.to_multiset()
    &&& keys_sorted(s)
    &&& batch_recorded(before, mid, s, batch, failure)
    &&& (failure is None ==> after == mid)
    &&& (failure is Some ==> {
        &&& same_job_apart_from_progress(mid, after)
        &&& after.node_runs@.to_multiset() == mid.node_runs@.to_multiset()
        &&& keys_sorted(after.node_runs@)
        &&& after.status == CreativeJobStatus::Failed
        &&& after.failure_code == failure
        &&& after.updated_at_ms == now
    })
}

/// Records a batch's outcomes and decides whether the run goes on: after the first
/// failure the job is closed, failed with that failure's code, and the run stops.
/// Returns `true` where the run stops.
pub fn finish_batch(job: &mut CreativeJobRecord, batch: u32, outcomes: Vec<NodeOutcome>, now: u128) -> (stop: bool)
    ensures
        exists|s: Seq<NodeOutcome>, failure: Option<String>, mid: CreativeJobRecord|
            #[trigger] batch_finished(*old(job), *final(job), outcomes@, batch, now, s, failure, mid) && stop == failure is Some,
{
    let ghost before = *job;
    let ghost given = outcomes@;
    let failure = record_batch(job, batch, outcomes);
    let ghost s = choose|s: Seq<NodeOutcome>| s.to_multiset() == given.to_multiset() && keys_sorted(s)
        && batch_recorded(before, *job, s, batch, failure);
    let ghost mid = *job;
    let ghost f = failure;
    let stop = failure.is_some();
    if stop {
        finalize_graph_job(job, failure, now);
    }
    proof {
        assert(batch_finished(before, *job, given, batch, now, s, f, mid));
    }
    stop
}

/// A partial rerun starts from a completed job of the same stored graph.
pub open spec fn rerun_base_ok(previous: CreativeJobRecord, graph_id: Seq<char>, project_id: Seq<char>) -> bool {
    &&& previous.status == CreativeJobStatus::Completed
    &&& previous.graph_id matches Some(g) && g@ == graph_id
    &&& previous.project_id@ == project_id
}

/// The nodes a partial rerun runs again: refused unless the previous job is a completed
/// run of the same stored graph; then as `dirty_descendants` decides.
pub fn partial_rerun_nodes(
    previous: &CreativeJobRecord,
    graph_id: &str,
    project_id: &str,
    node_ids: &Vec<String>,
    edges: &Vec<GraphEdge>,
    changed_node_ids: &Vec<String>,
) -> (r: Result<Vec<String>, McpError>)
    ensures
        !rerun_base_ok(*previous, graph_id@, project_id@) ==> (r matches Err(e)
            && invalid_with(e, "creative partial rerun requires a completed job for the same stored graph"@)),
        rerun_base_ok(*previous, graph_id@, project_id@) ==> (r is Err <==> (changed_node_ids.len() == 0
            || exists|i: int| 0 <= i < changed_node_ids.len() && !has_view(node_ids@, (#[trigger] changed_node_ids@[i])@))),
        r matches Ok(dirty) ==> crate::text::distinct_views(dirty@)
            && forall|x: Seq<char>| has_view(dirty@, x) <==> reachable(edges@, changed_node_ids@, x),
{
    let same_graph = match &previous.graph_id {
        Some(g) => str_eq(g.as_str(), graph_id),
        None => false,
    };
    if previous.status != CreativeJobStatus::Completed || !same_graph || !str_eq(previous.project_id.as_str(), project_id) {
        return Err(invalid("creative partial rerun requires a completed job for the same stored graph"));
    }
    dirty_descendants(node_ids, edges, changed_node_ids)
}

} // verus!
