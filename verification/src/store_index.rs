use vstd::prelude::*;
use crate::error::{invalid, McpError, invalid_with};
use crate::text::{is_valid_id, validate_id, has_view, contains_str, seq_starts_with};
use crate::order::{sort_dedup, strictly_sorted_views};
use crate::contracts::CREATIVE_SCHEMA_VERSION;
use crate::jobs::{CreativeJobKind, CreativeJobRecord, job_record_ok, validate_job_record};

verus! {

pub const MAX_PROJECTS_PER_WORKSPACE: usize = 256;
pub const MAX_TEMPLATES_PER_PROJECT: usize = 256;
pub const MAX_GRAPHS_PER_PROJECT: usize = 1024;
pub const MAX_JOBS_PER_PROJECT: usize = 4096;
pub const MAX_LISTED_JOBS: usize = 200;

/// The workspace's list of projects.
pub struct ProjectIndex {
    pub schema_version: u32,
    pub project_ids: Vec<String>,
}

/// A project's list of graph templates.
pub struct TemplateIndex {
    pub schema_version: u32,
    pub template_ids: Vec<String>,
}

/// An index that the store reads: the current schema, at most `max` entries, each an
/// identifier.
pub open spec fn id_index_ok(schema_version: u32, ids: Seq<String>, max: int) -> bool {
    &&& schema_version == CREATIVE_SCHEMA_VERSION
    &&& ids.len() <= max
    &&& forall|i: int| 0 <= i < ids.len() ==> is_valid_id((#[trigger] ids[i])@)
}

fn check_id_index(schema_version: u32, ids: &Vec<String>, max: usize) -> (r: bool)
    ensures
        r == id_index_ok(schema_version, ids@, max as int),
{
    if schema_version != CREATIVE_SCHEMA_VERSION || ids.len() > max {
        return false;
    }
    let mut i: usize = 0;
    while i < ids.len()
        invariant
            i <= ids.len(),
            forall|k: int| 0 <= k < i ==> is_valid_id((#[trigger] ids@[k])@),
        decreases ids.len() - i,
    {
        if validate_id(ids[i].as_str(), "identifier").is_err() {
            return false;
        }
        i += 1;
    }
    true
}

/// The projects of a workspace, as its index lists them.
pub fn list_projects(index: &ProjectIndex) -> (r: Result<Vec<String>, McpError>)
    ensures
        match r {
            Ok(ids) => id_index_ok(index.schema_version, index.project_ids@, MAX_PROJECTS_PER_WORKSPACE as int)
                && ids@ == index.project_ids@,
            Err(e) => e is InvalidRequest && !id_index_ok(index.schema_version, index.project_ids@, MAX_PROJECTS_PER_WORKSPACE as int),
        },
{
    if !check_id_index(index.schema_version, &index.project_ids, MAX_PROJECTS_PER_WORKSPACE) {
        return Err(invalid("creative project index is invalid"));
    }
    let mut ids: Vec<String> = Vec::new();
    let mut i: usize = 0;
    while i < index.project_ids.len()
        invariant
            i <= index.project_ids.len(),
            ids@ == index.project_ids@.take(i as int),
        decreases index.project_ids.len() - i,
    {
        ids.push(index.project_ids[i].clone());
        proof {
            assert(ids@ =~= index.project_ids@.take(i + 1));
        }
        i += 1;
    }
    proof {
        assert(index.project_ids@.take(index.project_ids.len() as int) =~= index.project_ids@);
    }
    Ok(ids)
}

/// The identity a new project gets: the requested one, or `project_` and a fresh random
/// suffix.
pub fn new_project_id(requested: Option<String>) -> (r: Result<String, McpError>)
    ensures
        requested matches Some(q) ==> match r {
            Ok(id) => is_valid_id(q@) && id == q,
            Err(e) => e is InvalidRequest && !is_valid_id(q@),
        },
        requested is None ==> (r matches Ok(id) && seq_starts_with(id@, "project_"@) && id@.len() == 40),
{
    match requested {
        Some(q) => {
            validate_id(q.as_str(), "project_id")?;
            Ok(q)
        },
        None => {
            let mut id = String::from_str("project_");
            let suffix = crate::outside::random_simple_uuid();
            id.append(suffix.as_str());
            proof {
                reveal_strlit("project_");
                assert(id@.subrange(0, 8) =~= "project_"@);
            }
            Ok(id)
        },
    }
}

/// Whether `ids` can take `id`: there is room and it is not there yet.
pub open spec fn index_refuses(ids: Seq<String>, id: Seq<char>, max: int) -> bool {
    ids.len() >= max || has_view(ids, id)
}

fn add_sorted(ids: &mut Vec<String>, id: &str)
    ensures
        strictly_sorted_views(final(ids)@),
        forall|x: Seq<char>| has_view(final(ids)@, x) <==> (has_view(old(ids)@, x) || x == id@),
{
    let mut all: Vec<String> = Vec::new();
    core::mem::swap(&mut all, ids);
    let ghost before = all@;
    all.push(id.to_owned());
    proof {
        assert forall|x: Seq<char>| has_view(all@, x) <==> (has_view(before, x) || x == id@) by {
            if has_view(all@, x) {
                let k = choose|k: int| 0 <= k < all@.len() && (#[trigger] all@[k])@ == x;
                if k < before.len() {
                    assert(all@[k] == before[k]);
                }
            }
            if has_view(before, x) {
                let k = choose|k: int| 0 <= k < before.len() && (#[trigger] before[k])@ == x;
                assert(all@[k] == before[k]);
            }
            if x == id@ {
                assert(all@[before.len() as int]@ == x);
            }
        }
    }
    let ghost pushed = all@;
    let sorted = sort_dedup(all);
    *ids = sorted;
    proof {
        assert(before == old(ids)@);
        assert forall|x: Seq<char>| has_view(ids@, x) <==> (has_view(old(ids)@, x) || x == id@) by {
            assert(has_view(ids@, x) <==> has_view(pushed, x));
        }
    }
}

/// Adds a new project to the workspace index, which stays sorted and free of repeats.
pub fn add_project_to_index(index: &mut ProjectIndex, project_id: &str) -> (r: Result<(), McpError>)
    ensures
        r is Err <==> index_refuses(old(index).project_ids@, project_id@, MAX_PROJECTS_PER_WORKSPACE as int),
        r matches Err(e) ==> e is InvalidRequest,
        r is Err ==> *final(index) == *old(index),
        r is Ok ==> {
            &&& final(index).schema_version == old(index).schema_version
            &&& strictly_sorted_views(final(index).project_ids@)
            &&& forall|x: Seq<char>| has_view(final(index).project_ids@, x) <==> (has_view(old(index).project_ids@, x) || x == project_id@)
        },
{
    if index.project_ids.len() >= MAX_PROJECTS_PER_WORKSPACE {
        return Err(invalid("creative project index capacity reached"));
    }
    if contains_str(&index.project_ids, project_id) {
        return Err(invalid("creative project identity already exists in the index"));
    }
    add_sorted(&mut index.project_ids, project_id);
    Ok(())
}

/// Checks a project's template index as the store reads it.
pub fn check_template_index(index: &TemplateIndex) -> (r: Result<(), McpError>)
    ensures
        r is Ok <==> id_index_ok(index.schema_version, index.template_ids@, MAX_TEMPLATES_PER_PROJECT as int),
        r matches Err(e) ==> invalid_with(e, "creative graph template index is invalid"@),
{
    if !check_id_index(index.schema_version, &index.template_ids, MAX_TEMPLATES_PER_PROJECT) {
        return Err(invalid("creative graph template index is invalid"));
    }
    Ok(())
}

/// Adds a new template to a project's index; a template whose file already exists is
/// never replaced.
pub fn add_template_to_index(index: &mut TemplateIndex, template_id: &str, file_exists: bool) -> (r: Result<(), McpError>)
    ensures
        r is Err <==> (file_exists || old(index).template_ids@.len() >= MAX_TEMPLATES_PER_PROJECT),
        r matches Err(e) ==> e is InvalidRequest,
        r is Err ==> *final(index) == *old(index),
        r is Ok ==> {
            &&& final(index).schema_version == old(index).schema_version
            &&& strictly_sorted_views(final(index).template_ids@)
            &&& forall|x: Seq<char>| has_view(final(index).template_ids@, x) <==> (has_view(old(index).template_ids@, x) || x == template_id@)
        },
{
    if file_exists {
        return Err(invalid("creative graph template already exists; save a new template identity/version"));
    }
    if index.template_ids.len() >= MAX_TEMPLATES_PER_PROJECT {
        return Err(invalid("creative graph template capacity reached"));
    }
    add_sorted(&mut index.template_ids, template_id);
    Ok(())
}

/// Records a stored graph in its project: a graph that did not validate is refused, and
/// a new one needs room. Returns whether the graph is new.
pub fn track_graph(graph_ids: &mut Vec<String>, project_id: &str, graph_id: &str, validated: bool) -> (r: Result<bool, McpError>)
    ensures
        r is Err <==> (!is_valid_id(project_id@) || !is_valid_id(graph_id@) || !validated
            || (!has_view(old(graph_ids)@, graph_id@) && old(graph_ids)@.len() >= MAX_GRAPHS_PER_PROJECT)),
        r matches Err(e) ==> e is InvalidRequest,
        r is Err ==> final(graph_ids)@ == old(graph_ids)@,
        r matches Ok(is_new) ==> is_new == !has_view(old(graph_ids)@, graph_id@)
            && if is_new { final(graph_ids)@.drop_last() == old(graph_ids)@ && final(graph_ids)@.len() == old(graph_ids)@.len() + 1
                && final(graph_ids)@.last()@ == graph_id@ } else { final(graph_ids)@ == old(graph_ids)@ },
{
    validate_id(project_id, "project_id")?;
    validate_id(graph_id, "graph_id")?;
    if !validated {
        return Err(invalid("creative graph cannot be stored before validation succeeds"));
    }
    let is_new = !contains_str(graph_ids, graph_id);
    if is_new && graph_ids.len() >= MAX_GRAPHS_PER_PROJECT {
        return Err(invalid("creative graph capacity reached"));
    }
    if is_new {
        let ghost before = graph_ids@;
        graph_ids.push(graph_id.to_owned());
        proof {
            assert(graph_ids@.drop_last() =~= before);
        }
    }
    Ok(is_new)
}

/// Whether a job may be stored in a project that holds the graphs `graph_ids` and the
/// jobs `job_ids`.
pub open spec fn job_store_refused(job: CreativeJobRecord, capability_known: bool, graph_ids: Seq<String>, job_ids: Seq<String>) -> bool {
    ||| !job_record_ok(job, capability_known)
    ||| (job.kind == CreativeJobKind::Graph && (job.graph_id matches Some(g) && !has_view(graph_ids, g@)))
    ||| (!has_view(job_ids, job.job_id@) && job_ids.len() >= MAX_JOBS_PER_PROJECT)
}

/// Records a stored job in its project. Returns whether the job is new.
pub fn track_job(
    job_ids: &mut Vec<String>,
    graph_ids: &Vec<String>,
    job: &CreativeJobRecord,
    capability_known: bool,
) -> (r: Result<bool, McpError>)
    ensures
        r is Err <==> job_store_refused(*job, capability_known, graph_ids@, old(job_ids)@),
        r matches Err(e) ==> e is InvalidRequest,
        r is Err ==> final(job_ids)@ == old(job_ids)@,
        r matches Ok(is_new) ==> is_new == !has_view(old(job_ids)@, job.job_id@)
            && if is_new { final(job_ids)@.drop_last() == old(job_ids)@ && final(job_ids)@.len() == old(job_ids)@.len() + 1
                && final(job_ids)@.last()@ == job.job_id@ } else { final(job_ids)@ == old(job_ids)@ },
{
    validate_job_record(job, capability_known)?;
    if job.kind == CreativeJobKind::Graph {
        if let Some(g) = &job.graph_id {
            if !contains_str(graph_ids, g.as_str()) {
                return Err(invalid("creative job references an unknown stored graph"));
            }
        }
    }
    let is_new = !contains_str(job_ids, job.job_id.as_str());
    if is_new && job_ids.len() >= MAX_JOBS_PER_PROJECT {
        return Err(invalid("creative job capacity reached"));
    }
    if is_new {
        let ghost before = job_ids@;
        job_ids.push(job.job_id.clone());
        proof {
            assert(job_ids@.drop_last() =~= before);
        }
    }
    Ok(is_new)
}

/// The jobs a listing shows: the most recent first, at most 200.
pub open spec fn recent_jobs(job_ids: Seq<String>) -> Seq<String> {
    let r = job_ids.reverse();
    if r.len() <= MAX_LISTED_JOBS { r } else { r.take(MAX_LISTED_JOBS as int) }
}

/// The jobs a listing shows, most recent first.
pub fn recent_job_ids(job_ids: &Vec<String>) -> (r: Vec<String>)
    ensures
        r@ == recent_jobs(job_ids@),
{
    let mut out: Vec<String> = Vec::new();
    let mut i: usize = job_ids.len();
    while i > 0 && out.len() < MAX_LISTED_JOBS
        invariant
            i <= job_ids.len(),
            out@.len() == job_ids.len() - i,
            out@.len() <= MAX_LISTED_JOBS,
            forall|k: int| 0 <= k < out@.len() ==> #[trigger] out@[k] == job_ids@[job_ids.len() - 1 - k],
        decreases i,
    {
        out.push(job_ids[i - 1].clone());
        i -= 1;
    }
    proof {
        let rv = job_ids@.reverse();
        if rv.len() <= MAX_LISTED_JOBS {
            assert(out@ =~= rv);
        } else {
            assert(out@ =~= rv.take(MAX_LISTED_JOBS as int));
        }
    }
    out
}

// ---------------------------------------------------------------------------
// Where state lives

pub open spec fn project_state_path(project_id: Seq<char>) -> Seq<char> {
    ".masihawam/creative/projects/"@ + project_id + "/project.json"@
}

pub open spec fn graph_state_path(project_id: Seq<char>, graph_id: Seq<char>) -> Seq<char> {
    ".masihawam/creative/projects/"@ + project_id + "/graphs/"@ + graph_id + ".json"@
}

pub open spec fn job_state_path(project_id: Seq<char>, job_id: Seq<char>) -> Seq<char> {
    ".masihawam/creative/projects/"@ + project_id + "/jobs/"@ + job_id + ".json"@
}

pub open spec fn template_state_path(project_id: Seq<char>, template_id: Seq<char>) -> Seq<char> {
    ".masihawam/creative/projects/"@ + project_id + "/templates/"@ + template_id + ".json"@
}

pub open spec fn template_index_state_path(project_id: Seq<char>) -> Seq<char> {
    ".masihawam/creative/projects/"@ + project_id + "/templates/index.json"@
}

fn join3(a: &str, b: &str, c: &str) -> (r: String)
    ensures
        r@ == a@ + b@ + c@,
{
    let mut r = String::from_str(a);
    r.append(b);
    r.append(c);
    r
}

fn join5(a: &str, b: &str, c: &str, d: &str, e: &str) -> (r: String)
    ensures
        r@ == a@ + b@ + c@ + d@ + e@,
{
    let mut r = join3(a, b, c);
    r.append(d);
    r.append(e);
    r
}

/// The workspace file of the project index.
pub fn index_path() -> (p: &'static str)
    ensures
        p@ == ".masihawam/creative/index.json"@,
{
    ".masihawam/creative/index.json"
}

/// The file of a project's state.
pub fn project_path(project_id: &str) -> (p: String)
    ensures
        p@ == project_state_path(project_id@),
{
    join3(".masihawam/creative/projects/", project_id, "/project.json")
}

/// The file of a stored graph.
pub fn graph_path(project_id: &str, graph_id: &str) -> (p: String)
    ensures
        p@ == graph_state_path(project_id@, graph_id@),
{
    join5(".masihawam/creative/projects/", project_id, "/graphs/", graph_id, ".json")
}

/// The file of a stored job.
pub fn job_path(project_id: &str, job_id: &str) -> (p: String)
    ensures
        p@ == job_state_path(project_id@, job_id@),
{
    join5(".masihawam/creative/projects/", project_id, "/jobs/", job_id, ".json")
}

/// The file of a stored template.
pub fn template_path(project_id: &str, template_id: &str) -> (p: String)
    ensures
        p@ == template_state_path(project_id@, template_id@),
{
    join5(".masihawam/creative/projects/", project_id, "/templates/", template_id, ".json")
}

/// The file of a project's template index.
pub fn template_index_path(project_id: &str) -> (p: String)
    ensures
        p@ == template_index_state_path(project_id@),
{
    join3(".masihawam/creative/projects/", project_id, "/templates/index.json")
}

} // verus!
