use vstd::prelude::*;
use crate::error::{invalid, McpError, invalid_with};
use crate::text::{is_valid_id, validate_id, str_eq, char_vec, string_from_chars, byte_len, ascii_lower_seq, before_first};
use crate::paths::{only_normal_components, has_only_normal_components};
use crate::jobs::{CreativeJobKind, CreativeJobRecord};
use crate::production::GameBuildState;
use crate::blender_ops::{file_name, file_name_of, extension, extension_of, to_ascii_lower};

verus! {

broadcast use vstd::seq_lib::group_seq_properties;

pub const MAX_DEPLOYMENT_FILES: usize = 512;
pub const MAX_DEPLOYMENT_BYTES: u64 = 134217728;
pub const MAX_DEPLOYED_FILE_BYTES: u64 = 67108864;

// ---------------------------------------------------------------------------
// Backend mappings

/// The position of the first `=` in `s`.
pub open spec fn first_eq(s: Seq<char>) -> Option<int>
    decreases s.len(),
{
    if s.len() == 0 {
        None
    } else {
        match first_eq(s.drop_last()) {
            Some(i) => Some(i),
            None => if s.last() == '=' { Some(s.len() - 1) } else { None },
        }
    }
}

/// A `binding=kind` mapping, split at its first `=`.
pub open spec fn mapping_parts(m: Seq<char>) -> Option<(Seq<char>, Seq<char>)> {
    match first_eq(m) {
        Some(i) => Some((m.take(i), m.skip(i + 1))),
        None => None,
    }
}

pub open spec fn backend_kind_ok(k: Seq<char>) -> bool {
    k == "local_raster"@ || k == "local_static_game"@
}

/// A mapping that the configuration accepts.
pub open spec fn mapping_ok(m: Seq<char>) -> bool {
    mapping_parts(m) matches Some((id, kind)) && is_valid_id(id) && backend_kind_ok(kind)
}

/// The mapping names the binding.
pub open spec fn mapping_for(m: Seq<char>, binding_id: Seq<char>) -> bool {
    mapping_parts(m) matches Some((id, _kind)) && id == binding_id
}

proof fn lemma_first_eq(s: Seq<char>, k: int)
    requires
        -1 <= k < s.len(),
        k >= 0 ==> s[k] == '=',
        forall|j: int| 0 <= j < (if k >= 0 { k } else { s.len() as int }) ==> s[j] != '=',
    ensures
        first_eq(s) == (if k >= 0 { Some(k) } else { None::<int> }),
    decreases s.len(),
{
    if s.len() > 0 {
        let d = s.drop_last();
        if k >= 0 && k < s.len() - 1 {
            assert(d[k] == s[k]);
            lemma_first_eq(d, k);
        } else {
            lemma_first_eq(d, -1);
        }
    }
}

fn split_mapping(m: &str) -> (r: Option<(String, String)>)
    ensures
        match r {
            Some((a, b)) => mapping_parts(m@) == Some((a@, b@)),
            None => mapping_parts(m@) is None,
        },
{
    let v = char_vec(m);
    let mut i: usize = 0;
    while i < v.len()
        invariant
            i <= v.len(),
            v@ == m@,
            forall|j: int| 0 <= j < i ==> v@[j] != '=',
        decreases v.len() - i,
    {
        if v[i] == '=' {
            proof {
                lemma_first_eq(m@, i as int);
            }
            let mut a: Vec<char> = Vec::new();
            let mut k: usize = 0;
            while k < i
                invariant
                    k <= i < v.len(),
                    a@ == v@.take(k as int),
                decreases i - k,
            {
                a.push(v[k]);
                k += 1;
            }
            let mut b: Vec<char> = Vec::new();
            let mut k2: usize = i + 1;
            while k2 < v.len()
                invariant
                    i + 1 <= k2 <= v.len(),
                    b@ == v@.subrange(i + 1, k2 as int),
                decreases v.len() - k2,
            {
                b.push(v[k2]);
                k2 += 1;
            }
            proof {
                assert(b@ =~= m@.skip(i + 1));
            }
            return Some((string_from_chars(&a), string_from_chars(&b)));
        }
        i += 1;
    }
    proof {
        lemma_first_eq(m@, -1);
    }
    None
}

pub open spec fn matching_count(mappings: Seq<String>, binding_id: Seq<char>) -> nat
    decreases mappings.len(),
{
    if mappings.len() == 0 {
        0
    } else {
        matching_count(mappings.drop_last(), binding_id) + if mapping_for(mappings.last()@, binding_id) { 1nat } else { 0nat }
    }
}

/// The kind of the first mapping for the binding.
pub open spec fn first_kind(mappings: Seq<String>, binding_id: Seq<char>) -> Option<Seq<char>>
    decreases mappings.len(),
{
    if mappings.len() == 0 {
        None
    } else {
        match first_kind(mappings.drop_last(), binding_id) {
            Some(k) => Some(k),
            None => match mapping_parts(mappings.last()@) {
                Some((id, kind)) => if id == binding_id { Some(kind) } else { None },
                None => None,
            },
        }
    }
}

/// The backend that the configuration maps a binding to: every mapping must be a valid
/// `binding=kind` pair, and a binding may be mapped at most once.
pub fn backend_kind(mappings: &Vec<String>, binding_id: &str) -> (r: Result<Option<String>, McpError>)
    ensures
        match r {
            Ok(k) => (forall|i: int| 0 <= i < mappings@.len() ==> mapping_ok((#[trigger] mappings@[i])@))
                && matching_count(mappings@, binding_id@) <= 1
                && match k { Some(x) => first_kind(mappings@, binding_id@) == Some(x@), None => first_kind(mappings@, binding_id@) is None },
            Err(e) => e is InvalidRequest && ((exists|i: int| 0 <= i < mappings@.len() && !mapping_ok((#[trigger] mappings@[i])@))
                || matching_count(mappings@, binding_id@) > 1),
        },
{
    proof {
        reveal_strlit("local_raster");
        reveal_strlit("local_static_game");
    }
    let mut result: Option<String> = None;
    let mut i: usize = 0;
    while i < mappings.len()
        invariant
            i <= mappings.len(),
            forall|k: int| 0 <= k < i ==> mapping_ok((#[trigger] mappings@[k])@),
            matching_count(mappings@.take(i as int), binding_id@) <= 1,
            match result {
                Some(x) => first_kind(mappings@.take(i as int), binding_id@) == Some(x@) && matching_count(mappings@.take(i as int), binding_id@) == 1,
                None => first_kind(mappings@.take(i as int), binding_id@) is None && matching_count(mappings@.take(i as int), binding_id@) == 0,
            },
        decreases mappings.len() - i,
    {
        proof {
            assert(mappings@.take(i + 1).drop_last() =~= mappings@.take(i as int));
            assert(mappings@.take(i + 1).last() == mappings@[i as int]);
        }
        let (id, kind) = match split_mapping(mappings[i].as_str()) {
            Some(p) => p,
            None => { return Err(invalid("creative binding backend mapping is invalid")); },
        };
        validate_id(id.as_str(), "execution_binding_id")?;
        if !(str_eq(kind.as_str(), "local_raster") || str_eq(kind.as_str(), "local_static_game")) {
            return Err(invalid("creative binding backend kind is unsupported"));
        }
        if str_eq(id.as_str(), binding_id) {
            if result.is_some() {
                proof {
                    lemma_count_prefix(mappings@, binding_id@, i as int + 1);
                }
                return Err(invalid("duplicate creative binding backend mapping"));
            }
            result = Some(kind);
        }
        i += 1;
    }
    proof {
        assert(mappings@.take(mappings.len() as int) =~= mappings@);
    }
    Ok(result)
}

proof fn lemma_count_prefix(mappings: Seq<String>, binding_id: Seq<char>, n: int)
    requires
        0 <= n <= mappings.len(),
    ensures
        matching_count(mappings, binding_id) >= matching_count(mappings.take(n), binding_id),
    decreases mappings.len(),
{
    if n < mappings.len() {
        assert(mappings.drop_last().take(n) =~= mappings.take(n));
        lemma_count_prefix(mappings.drop_last(), binding_id, n);
    } else {
        assert(mappings.take(n) =~= mappings);
    }
}

/// A job that deploys a game.
pub open spec fn is_game_deploy_job(job: CreativeJobRecord) -> bool {
    ||| (job.kind == CreativeJobKind::Capability && (job.capability_id matches Some(c) && c@ == "game.deploy"@))
    ||| (job.kind == CreativeJobKind::Workflow && (job.workflow_id matches Some(w) && w@ == "game_deploy"@))
}

/// Whether a job deploys a game.
pub fn is_game_deploy(job: &CreativeJobRecord) -> (r: bool)
    ensures
        r == is_game_deploy_job(*job),
{
    let capability = match &job.capability_id { Some(c) => str_eq(c.as_str(), "game.deploy"), None => false };
    let workflow = match &job.workflow_id { Some(w) => str_eq(w.as_str(), "game_deploy"), None => false };
    (job.kind == CreativeJobKind::Capability && capability) || (job.kind == CreativeJobKind::Workflow && workflow)
}

/// Whether the local static-game backend runs this job: a game deployment whose binding
/// the configuration maps to `local_static_game`.
pub fn runs_local_static_game(job: &CreativeJobRecord, mappings: &Vec<String>) -> (r: Result<bool, McpError>)
    ensures
        !is_game_deploy_job(*job) ==> r == Ok::<bool, McpError>(false),
        is_game_deploy_job(*job) && job.execution_binding_id is None ==> r == Ok::<bool, McpError>(false),
        is_game_deploy_job(*job) ==> (job.execution_binding_id matches Some(b) ==> match r {
            Ok(x) => x == (first_kind(mappings@, b@) == Some("local_static_game"@))
                && (forall|i: int| 0 <= i < mappings@.len() ==> mapping_ok((#[trigger] mappings@[i])@))
                && matching_count(mappings@, b@) <= 1,
            Err(e) => e is InvalidRequest,
        }),
{
    if !is_game_deploy(job) {
        return Ok(false);
    }
    let binding_id = match &job.execution_binding_id {
        Some(b) => b,
        None => { return Ok(false); },
    };
    match backend_kind(mappings, binding_id.as_str())? {
        Some(k) => Ok(str_eq(k.as_str(), "local_static_game")),
        None => Ok(false),
    }
}

// ---------------------------------------------------------------------------
// Deployment records and files

/// A path inside a deployed site: 1 to 1024 bytes of normal relative components.
pub open spec fn request_path_ok(p: Seq<char>) -> bool {
    p.len() > 0 && byte_len(p) <= 1024 && only_normal_components(p)
}

/// Checks a path inside a deployed site.
pub fn validate_request_path(path: &str) -> (r: Result<(), McpError>)
    ensures
        r is Ok <==> request_path_ok(path@),
        r matches Err(e) ==> invalid_with(e, "game deployment path is invalid"@),
{
    if path.is_empty() || path.len() > 1024 || !has_only_normal_components(path) {
        return Err(invalid("game deployment path is invalid"));
    }
    Ok(())
}

/// The lowercase extension of a path's file name, or nothing.
pub open spec fn lower_ext(path: Seq<char>) -> Seq<char> {
    match file_name_of(path) {
        Some(n) => match extension_of(n) { Some(e) => ascii_lower_seq(e), None => seq![] },
        None => seq![],
    }
}

/// The content type a deployed file is served with, by its extension.
pub open spec fn served_type(path: Seq<char>) -> Seq<char> {
    let e = lower_ext(path);
    if e == "html"@ {
        "text/html; charset=utf-8"@
    } else if e == "js"@ || e == "mjs"@ {
        "text/javascript; charset=utf-8"@
    } else if e == "css"@ {
        "text/css; charset=utf-8"@
    } else if e == "json"@ {
        "application/json"@
    } else if e == "png"@ {
        "image/png"@
    } else if e == "jpg"@ || e == "jpeg"@ {
        "image/jpeg"@
    } else if e == "webp"@ {
        "image/webp"@
    } else if e == "svg"@ {
        "image/svg+xml"@
    } else {
        "application/octet-stream"@
    }
}

/// The content type of a deployed file.
pub fn content_type(path: &str) -> (t: &'static str)
    ensures
        t@ == served_type(path@),
{
    let lower = match file_name(path) {
        Some(n) => match extension(n.as_str()) {
            Some(e) => to_ascii_lower(e.as_str()),
            None => String::new(),
        },
        None => String::new(),
    };
    let e = lower.as_str();
    if str_eq(e, "html") {
        "text/html; charset=utf-8"
    } else if str_eq(e, "js") || str_eq(e, "mjs") {
        "text/javascript; charset=utf-8"
    } else if str_eq(e, "css") {
        "text/css; charset=utf-8"
    } else if str_eq(e, "json") {
        "application/json"
    } else if str_eq(e, "png") {
        "image/png"
    } else if str_eq(e, "jpg") || str_eq(e, "jpeg") {
        "image/jpeg"
    } else if str_eq(e, "webp") {
        "image/webp"
    } else if str_eq(e, "svg") {
        "image/svg+xml"
    } else {
        "application/octet-stream"
    }
}

/// Each web format a deployed game is made of is served with its registered media type:
/// pages as HTML, scripts as JavaScript, stylesheets as CSS, data as JSON and images
/// as PNG, JPEG, WebP or SVG, whatever the case of the extension; any other file is
/// served as plain bytes.
pub proof fn law_web_files_served_with_their_media_type(path: Seq<char>)
    ensures
        lower_ext(path) == "html"@ ==> served_type(path) == "text/html; charset=utf-8"@,
        lower_ext(path) == "js"@ ==> served_type(path) == "text/javascript; charset=utf-8"@,
        lower_ext(path) == "mjs"@ ==> served_type(path) == "text/javascript; charset=utf-8"@,
        lower_ext(path) == "css"@ ==> served_type(path) == "text/css; charset=utf-8"@,
        lower_ext(path) == "json"@ ==> served_type(path) == "application/json"@,
        lower_ext(path) == "png"@ ==> served_type(path) == "image/png"@,
        lower_ext(path) == "jpg"@ ==> served_type(path) == "image/jpeg"@,
        lower_ext(path) == "jpeg"@ ==> served_type(path) == "image/jpeg"@,
        lower_ext(path) == "webp"@ ==> served_type(path) == "image/webp"@,
        lower_ext(path) == "svg"@ ==> served_type(path) == "image/svg+xml"@,
        !(lower_ext(path) == "html"@ || lower_ext(path) == "js"@ || lower_ext(path) == "mjs"@
            || lower_ext(path) == "css"@ || lower_ext(path) == "json"@ || lower_ext(path) == "png"@
            || lower_ext(path) == "jpg"@ || lower_ext(path) == "jpeg"@ || lower_ext(path) == "webp"@
            || lower_ext(path) == "svg"@) ==> served_type(path) == "application/octet-stream"@,
{
    let e = lower_ext(path);
    assert(e == "html"@ ==> served_type(path) == "text/html; charset=utf-8"@);
    assert(e == "js"@ ==> served_type(path) == "text/javascript; charset=utf-8"@) by {
        reveal_strlit("js");
        reveal_strlit("html");
        assert("js"@.len() != "html"@.len());
    }
    assert(e == "mjs"@ ==> served_type(path) == "text/javascript; charset=utf-8"@) by {
        reveal_strlit("mjs");
        reveal_strlit("html");
        assert("mjs"@.len() != "html"@.len());
    }
    assert(e == "css"@ ==> served_type(path) == "text/css; charset=utf-8"@) by {
        reveal_strlit("css");
        reveal_strlit("html");
        reveal_strlit("js");
        reveal_strlit("mjs");
        assert("css"@.len() != "html"@.len());
        assert("css"@.len() != "js"@.len());
        assert("css"@[0] != "mjs"@[0]);
    }
    assert(e == "json"@ ==> served_type(path) == "application/json"@) by {
        reveal_strlit("json");
        reveal_strlit("html");
        reveal_strlit("js");
        reveal_strlit("mjs");
        reveal_strlit("css");
        assert("json"@[0] != "html"@[0]);
        assert("json"@.len() != "js"@.len());
        assert("json"@.len() != "mjs"@.len());
        assert("json"@.len() != "css"@.len());
    }
    assert(e == "png"@ ==> served_type(path) == "image/png"@) by {
        reveal_strlit("png");
        reveal_strlit("html");
        reveal_strlit("js");
        reveal_strlit("mjs");
        reveal_strlit("css");
        reveal_strlit("json");
        assert("png"@.len() != "html"@.len());
        assert("png"@.len() != "js"@.len());
        assert("png"@[0] != "mjs"@[0]);
        assert("png"@[0] != "css"@[0]);
        assert("png"@.len() != "json"@.len());
    }
    assert(e == "jpg"@ ==> served_type(path) == "image/jpeg"@) by {
        reveal_strlit("jpg");
        reveal_strlit("html");
        reveal_strlit("js");
        reveal_strlit("mjs");
        reveal_strlit("css");
        reveal_strlit("json");
        reveal_strlit("png");
        assert("jpg"@.len() != "html"@.len());
        assert("jpg"@.len() != "js"@.len());
        assert("jpg"@[0] != "mjs"@[0]);
        assert("jpg"@[0] != "css"@[0]);
        assert("jpg"@.len() != "json"@.len());
        assert("jpg"@[0] != "png"@[0]);
    }
    assert(e == "jpeg"@ ==> served_type(path) == "image/jpeg"@) by {
        reveal_strlit("jpeg");
        reveal_strlit("html");
        reveal_strlit("js");
        reveal_strlit("mjs");
        reveal_strlit("css");
        reveal_strlit("json");
        reveal_strlit("png");
        assert("jpeg"@[0] != "html"@[0]);
        assert("jpeg"@.len() != "js"@.len());
        assert("jpeg"@.len() != "mjs"@.len());
        assert("jpeg"@.len() != "css"@.len());
        assert("jpeg"@[1] != "json"@[1]);
        assert("jpeg"@.len() != "png"@.len());
    }
    assert(e == "webp"@ ==> served_type(path) == "image/webp"@) by {
        reveal_strlit("webp");
        reveal_strlit("html");
        reveal_strlit("js");
        reveal_strlit("mjs");
        reveal_strlit("css");
        reveal_strlit("json");
        reveal_strlit("png");
        reveal_strlit("jpg");
        reveal_strlit("jpeg");
        assert("webp"@[0] != "html"@[0]);
        assert("webp"@.len() != "js"@.len());
        assert("webp"@.len() != "mjs"@.len());
        assert("webp"@.len() != "css"@.len());
        assert("webp"@[0] != "json"@[0]);
        assert("webp"@.len() != "png"@.len());
        assert("webp"@.len() != "jpg"@.len());
        assert("webp"@[0] != "jpeg"@[0]);
    }
    assert(e == "svg"@ ==> served_type(path) == "image/svg+xml"@) by {
        reveal_strlit("svg");
        reveal_strlit("html");
        reveal_strlit("js");
        reveal_strlit("mjs");
        reveal_strlit("css");
        reveal_strlit("json");
        reveal_strlit("png");
        reveal_strlit("jpg");
        reveal_strlit("jpeg");
        reveal_strlit("webp");
        assert("svg"@.len() != "html"@.len());
        assert("svg"@.len() != "js"@.len());
        assert("svg"@[0] != "mjs"@[0]);
        assert("svg"@[0] != "css"@[0]);
        assert("svg"@.len() != "json"@.len());
        assert("svg"@[0] != "png"@[0]);
        assert("svg"@[0] != "jpg"@[0]);
        assert("svg"@.len() != "jpeg"@.len());
        assert("svg"@.len() != "webp"@.len());
    }
}

pub open spec fn deployment_root() -> Seq<char> {
    ".masihawam/creative/deployments/"@
}

/// The file of a deployment's record.
pub fn record_path(deployment_id: &str) -> (p: String)
    ensures
        p@ == deployment_root() + deployment_id@ + "/record.json"@,
{
    let mut p = String::from_str(".masihawam/creative/deployments/");
    p.append(deployment_id);
    p.append("/record.json");
    p
}

/// The directory a deployment's site is copied to.
pub fn site_root(deployment_id: &str) -> (p: String)
    ensures
        p@ == deployment_root() + deployment_id@ + "/site"@,
{
    let mut p = String::from_str(".masihawam/creative/deployments/");
    p.append(deployment_id);
    p.append("/site");
    p
}

/// The address a deployment is served at.
pub fn deployment_url(deployment_id: &str) -> (p: String)
    ensures
        p@ == "/creative-deploy/"@ + deployment_id@ + "/index.html"@,
{
    let mut p = String::from_str("/creative-deploy/");
    p.append(deployment_id);
    p.append("/index.html");
    p
}

/// What is known of a deployment from its record.
pub struct LocalDeploymentRecord {
    pub schema_version: u32,
    pub deployment_id: String,
    pub owner: String,
    pub project_id: String,
    pub game_id: String,
    pub build_revision: String,
    pub site_root: String,
    pub created_at_ms: u128,
    pub published: bool,
}

/// The workspace path of a file of a deployment that `owner` asks for: only the
/// deployment's owner may read it, and only by a path inside the site.
pub fn deployed_file_path(record: &LocalDeploymentRecord, owner: &str, deployment_id: &str, request_path: &str) -> (r: Result<String, McpError>)
    ensures
        match r {
            Ok(p) => is_valid_id(deployment_id@) && record.owner@ == owner@ && record.deployment_id@ == deployment_id@
                && request_path_ok(request_path@) && p@ == record.site_root@ + "/"@ + request_path@,
            Err(e) => e is InvalidRequest && !(is_valid_id(deployment_id@) && record.owner@ == owner@
                && record.deployment_id@ == deployment_id@ && request_path_ok(request_path@)),
        },
{
    validate_id(deployment_id, "deployment_id")?;
    if !str_eq(record.owner.as_str(), owner) || !str_eq(record.deployment_id.as_str(), deployment_id) {
        return Err(invalid("unknown game deployment"));
    }
    validate_request_path(request_path)?;
    let mut p = record.site_root.clone();
    p.append("/");
    p.append(request_path);
    Ok(p)
}

/// How much of a deployment has been copied.
pub struct CopyBudget {
    pub file_count: usize,
    pub total_bytes: u64,
}

pub open spec fn sat_add_usize(a: usize, b: int) -> usize {
    if a + b > usize::MAX { usize::MAX } else { (a + b) as usize }
}

pub open spec fn sat_add_u64(a: u64, b: int) -> u64 {
    if a + b > u64::MAX { u64::MAX } else { (a + b) as u64 }
}

/// Counts one more file of `file_len` bytes at `relative_path` into a deployment: at
/// most 512 files, 128 MiB in all, 64 MiB each, each at a path inside the site.
pub fn admit_deployed_file(budget: &mut CopyBudget, file_len: u64, relative_path: &str) -> (r: Result<(), McpError>)
    ensures
        final(budget).file_count == sat_add_usize(old(budget).file_count, 1),
        sat_add_usize(old(budget).file_count, 1) > MAX_DEPLOYMENT_FILES ==> r is Err
            && final(budget).total_bytes == old(budget).total_bytes,
        sat_add_usize(old(budget).file_count, 1) <= MAX_DEPLOYMENT_FILES ==> {
            &&& final(budget).total_bytes == sat_add_u64(old(budget).total_bytes, file_len as int)
            &&& (r is Ok <==> (final(budget).total_bytes <= MAX_DEPLOYMENT_BYTES && file_len <= MAX_DEPLOYED_FILE_BYTES
                && request_path_ok(relative_path@)))
        },
        r matches Err(e) ==> e is InvalidRequest,
{
    budget.file_count = budget.file_count.saturating_add(1);
    if budget.file_count > MAX_DEPLOYMENT_FILES {
        return Err(invalid("game deployment exceeds file-count bound"));
    }
    budget.total_bytes = budget.total_bytes.saturating_add(file_len);
    if budget.total_bytes > MAX_DEPLOYMENT_BYTES || file_len > MAX_DEPLOYED_FILE_BYTES {
        return Err(invalid("game deployment exceeds byte bounds"));
    }
    validate_request_path(relative_path)
}

/// Checks that a deployment names the game's accepted build.
pub fn check_deploy_revision(state: &GameBuildState, build_revision: &str) -> (r: Result<(), McpError>)
    ensures
        r is Ok <==> (state.accepted_build_revision matches Some(a) && a@ == build_revision@),
        r matches Err(e) ==> invalid_with(e, "game deploy requires the accepted build revision"@),
{
    match &state.accepted_build_revision {
        Some(a) => {
            if str_eq(a.as_str(), build_revision) {
                Ok(())
            } else {
                Err(invalid("game deploy requires the accepted build revision"))
            }
        },
        None => Err(invalid("game deploy requires the accepted build revision")),
    }
}

/// Records a local deployment in the game's state; it is never published.
pub fn record_deployment(state: &mut GameBuildState, deployment_id: &str)
    ensures
        final(state).deployment_id matches Some(d) && d@ == deployment_id@,
        final(state).deployment_url matches Some(u) && u@ == "/creative-deploy/"@ + deployment_id@ + "/index.html"@,
        !final(state).published,
        final(state).source_revision == old(state).source_revision,
        final(state).build_revision == old(state).build_revision,
        final(state).accepted_build_revision == old(state).accepted_build_revision,
{
    state.deployment_id = Some(deployment_id.to_owned());
    state.deployment_url = Some(deployment_url(deployment_id));
    state.published = false;
}

} // verus!
