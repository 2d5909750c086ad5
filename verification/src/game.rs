use vstd::prelude::*;
use crate::error::{invalid, invalid_with, McpError};
use crate::text::{char_vec, string_from_chars, str_eq, starts_with, seq_starts_with, byte_len, has_control, contains_control};
use crate::contracts::{AssetState, QaSeverity};
use crate::production::{GameAssetRole, GameBuildState};
use crate::assets::{AssetEntry, asset_index, find_asset, lemma_asset_index_bounds};
use crate::jobs::CreativeJobStatus;

verus! {

broadcast use vstd::seq_lib::group_seq_properties;

/// What HTML text stands for one character of content.
pub open spec fn html_char(c: char) -> Seq<char> {
    if c == '&' {
        "&amp;"@
    } else if c == '<' {
        "&lt;"@
    } else if c == '>' {
        "&gt;"@
    } else if c == '"' {
        "&quot;"@
    } else {
        seq![c]
    }
}

/// `s` with `&`, `<`, `>` and `"` written as HTML character references.
pub open spec fn html_escaped(s: Seq<char>) -> Seq<char>
    decreases s.len(),
{
    if s.len() == 0 {
        seq![]
    } else {
        html_escaped(s.drop_last()) + html_char(s.last())
    }
}

/// Escapes text for use inside HTML.
pub fn html_escape(value: &str) -> (r: String)
    ensures
        r@ == html_escaped(value@),
{
    let v = char_vec(value);
    let mut out = String::new();
    let mut i: usize = 0;
    while i < v.len()
        invariant
            i <= v.len(),
            v@ == value@,
            out@ == html_escaped(v@.take(i as int)),
        decreases v.len() - i,
    {
        let c = v[i];
        proof {
            assert(v@.take(i + 1).drop_last() =~= v@.take(i as int));
        }
        if c == '&' {
            out.append("&amp;");
        } else if c == '<' {
            out.append("&lt;");
        } else if c == '>' {
            out.append("&gt;");
        } else if c == '"' {
            out.append("&quot;");
        } else {
            crate::outside::push_char(&mut out, c);
        }
        i += 1;
    }
    proof {
        assert(v@.take(v.len() as int) =~= v@);
    }
    out
}

/// A job identity without its `job_` prefix.
pub open spec fn short_job(job_id: Seq<char>) -> Seq<char> {
    if seq_starts_with(job_id, "job_"@) { job_id.skip(4) } else { job_id }
}

/// The job identity without its `job_` prefix, where it has one.
pub fn short_job_id(job_id: &str) -> (r: String)
    ensures
        r@ == short_job(job_id@),
{
    proof {
        reveal_strlit("job_");
    }
    let v = char_vec(job_id);
    if starts_with(job_id, "job_") {
        let mut rest: Vec<char> = Vec::new();
        let mut i: usize = 4;
        while i < v.len()
            invariant
                4 <= i <= v.len(),
                v@ == job_id@,
                rest@ == v@.subrange(4, i as int),
            decreases v.len() - i,
        {
            rest.push(v[i]);
            i += 1;
        }
        string_from_chars(&rest)
    } else {
        job_id.to_owned()
    }
}

/// The revision name of a build that job `job_id` made.
pub open spec fn build_revision_name(job_id: Seq<char>) -> Seq<char> {
    "build_"@ + short_job(job_id)
}

/// The revision name of a source scaffold that job `job_id` made.
pub open spec fn source_revision_name(job_id: Seq<char>) -> Seq<char> {
    "source_"@ + short_job(job_id)
}

/// Names the build that job `job_id` makes.
pub fn build_revision(job_id: &str) -> (r: String)
    ensures
        r@ == build_revision_name(job_id@),
{
    let mut r = String::from_str("build_");
    let short = short_job_id(job_id);
    r.append(short.as_str());
    r
}

/// Names the source scaffold that job `job_id` makes.
pub fn source_revision(job_id: &str) -> (r: String)
    ensures
        r@ == source_revision_name(job_id@),
{
    let mut r = String::from_str("source_");
    let short = short_job_id(job_id);
    r.append(short.as_str());
    r
}

/// The page that hosts a scaffolded game: the escaped title and the template family are
/// the only parts that vary.
pub open spec fn index_html(title: Seq<char>, template: Seq<char>) -> Seq<char> {
    "<!doctype html><html><head><meta charset=\"utf-8\"><meta name=\"viewport\" content=\"width=device-width,initial-scale=1\"><title>"@
        + html_escaped(title)
        + "</title><link rel=\"stylesheet\" href=\"style.css\"></head><body data-template=\""@
        + template
        + "\"><main><canvas id=\"game\" width=\"960\" height=\"540\"></canvas><div id=\"status\"></div></main><script type=\"module\" src=\"game.js\"></script></body></html>"@
}

/// Writes the page that hosts a scaffolded game.
pub fn reviewed_index_html(title: &str, template: &str) -> (r: String)
    ensures
        r@ == index_html(title@, template@),
{
    let mut r = String::from_str("<!doctype html><html><head><meta charset=\"utf-8\"><meta name=\"viewport\" content=\"width=device-width,initial-scale=1\"><title>");
    let escaped = html_escape(title);
    r.append(escaped.as_str());
    r.append("</title><link rel=\"stylesheet\" href=\"style.css\"></head><body data-template=\"");
    r.append(template);
    r.append("\"><main><canvas id=\"game\" width=\"960\" height=\"540\"></canvas><div id=\"status\"></div></main><script type=\"module\" src=\"game.js\"></script></body></html>");
    r
}

/// The style sheet of a scaffolded game.
pub fn reviewed_css() -> (r: &'static str)
    ensures
        r@ == "html,body{margin:0;min-height:100%;background:#111;color:#eee;font-family:system-ui}main{display:grid;place-items:center;gap:1rem;padding:1rem}canvas{max-width:100%;height:auto;background:#20242a;border:1px solid #555}"@,
{
    "html,body{margin:0;min-height:100%;background:#111;color:#eee;font-family:system-ui}main{display:grid;place-items:center;gap:1rem;padding:1rem}canvas{max-width:100%;height:auto;background:#20242a;border:1px solid #555}"
}

/// A required text parameter of a game job: 1 to 128 bytes, no control characters.
pub open spec fn required_text_ok(s: Seq<char>) -> bool {
    s.len() > 0 && byte_len(s) <= 128 && !has_control(s)
}

/// Checks a required text parameter of a game job.
pub fn required_text(value: Option<&str>) -> (r: Result<String, McpError>)
    ensures
        match r {
            Ok(s) => value matches Some(v) && required_text_ok(v@) && s@ == v@,
            Err(e) => e is InvalidRequest && !(value matches Some(v) && required_text_ok(v@)),
        },
{
    match value {
        Some(v) => {
            if v.is_empty() || v.len() > 128 || contains_control(v) {
                Err(invalid("game parameter is required"))
            } else {
                Ok(v.to_owned())
            }
        },
        None => Err(invalid("game parameter is required")),
    }
}

// ---------------------------------------------------------------------------
// Build and playtest preflight

/// How a game's asset slot stands when a build is prepared.
pub enum RoleReadiness {
    /// No asset, or one that has not been accepted.
    Missing,
    /// The slot names an asset that the project does not hold.
    Unknown,
    /// An accepted asset fills the slot.
    Ready,
}

pub open spec fn role_readiness(r: GameAssetRole, assets: Seq<AssetEntry>) -> RoleReadiness {
    match r.asset_id {
        None => RoleReadiness::Missing,
        Some(a) => match asset_index(assets, a@) {
            None => RoleReadiness::Unknown,
            Some(i) => if assets[i].state == AssetState::Accepted { RoleReadiness::Ready } else { RoleReadiness::Missing },
        },
    }
}

/// The names of the slots that are missing, in order.
pub open spec fn missing_roles(roles: Seq<GameAssetRole>, assets: Seq<AssetEntry>) -> Seq<Seq<char>>
    decreases roles.len(),
{
    if roles.len() == 0 {
        seq![]
    } else {
        let r = missing_roles(roles.drop_last(), assets);
        if role_readiness(roles.last(), assets) is Missing { r.push(roles.last().role@) } else { r }
    }
}

/// The positions of the slots that are ready, in order.
pub open spec fn ready_roles(roles: Seq<GameAssetRole>, assets: Seq<AssetEntry>) -> Seq<int>
    decreases roles.len(),
{
    if roles.len() == 0 {
        seq![]
    } else {
        let r = ready_roles(roles.drop_last(), assets);
        if role_readiness(roles.last(), assets) is Ready { r.push(roles.len() - 1) } else { r }
    }
}

pub open spec fn supported_input(s: Seq<char>) -> bool {
    s == "keyboard"@ || s == "mouse"@ || s == "touch"@ || s == "gamepad"@
}

/// The inputs that the browser runtime does not support, in order.
pub open spec fn unsupported_inputs(inputs: Seq<String>) -> Seq<Seq<char>>
    decreases inputs.len(),
{
    if inputs.len() == 0 {
        seq![]
    } else {
        let r = unsupported_inputs(inputs.drop_last());
        if supported_input(inputs.last()@) { r } else { r.push(inputs.last()@) }
    }
}

/// What the build preflight found.
pub struct PlaytestPreflight {
    pub missing_roles: Vec<String>,
    /// Positions of the slots whose accepted assets go into the build.
    pub ready_roles: Vec<usize>,
    pub unsupported_inputs: Vec<String>,
    pub hard_fail: bool,
}

pub open spec fn string_views(v: Seq<String>) -> Seq<Seq<char>> {
    v.map_values(|s: String| s@)
}

pub open spec fn index_views(v: Seq<usize>) -> Seq<int> {
    v.map_values(|i: usize| i as int)
}

/// Checks a game's asset slots and inputs before a build: a slot that names an unknown
/// asset is an error; otherwise the preflight lists the missing slots, the ready ones and
/// the unsupported inputs, and fails hard where either list of problems is not empty.
pub fn playtest_preflight(roles: &Vec<GameAssetRole>, inputs: &Vec<String>, assets: &Vec<AssetEntry>) -> (r: Result<PlaytestPreflight, McpError>)
    ensures
        match r {
            Ok(p) => {
                &&& forall|k: int| 0 <= k < roles@.len() ==> !(role_readiness(#[trigger] roles@[k], assets@) is Unknown)
                &&& string_views(p.missing_roles@) == missing_roles(roles@, assets@)
                &&& index_views(p.ready_roles@) == ready_roles(roles@, assets@)
                &&& string_views(p.unsupported_inputs@) == unsupported_inputs(inputs@)
                &&& p.hard_fail == (missing_roles(roles@, assets@).len() > 0 || unsupported_inputs(inputs@).len() > 0)
            },
            Err(e) => invalid_with(e, "game role references unknown asset"@)
                && exists|k: int| 0 <= k < roles@.len() && role_readiness(#[trigger] roles@[k], assets@) is Unknown,
        },
{
    let mut missing: Vec<String> = Vec::new();
    let mut ready: Vec<usize> = Vec::new();
    let mut i: usize = 0;
    while i < roles.len()
        invariant
            i <= roles.len(),
            string_views(missing@) == missing_roles(roles@.take(i as int), assets@),
            index_views(ready@) == ready_roles(roles@.take(i as int), assets@),
            forall|k: int| 0 <= k < i ==> !(role_readiness(#[trigger] roles@[k], assets@) is Unknown),
        decreases roles.len() - i,
    {
        let role = &roles[i];
        proof {
            assert(roles@.take(i + 1).drop_last() =~= roles@.take(i as int));
            assert(roles@.take(i + 1).last() == roles@[i as int]);
        }
        match &role.asset_id {
            None => {
                missing.push(role.role.clone());
                proof {
                    assert(string_views(missing@) =~= missing_roles(roles@.take(i as int), assets@).push(role.role@));
                }
            },
            Some(a) => {
                match find_asset(assets, a.as_str()) {
                    None => {
                        return Err(invalid("game role references unknown asset"));
                    },
                    Some(j) => {
                        if assets[j].state == AssetState::Accepted {
                            ready.push(i);
                            proof {
                                assert(index_views(ready@) =~= ready_roles(roles@.take(i as int), assets@).push(i as int));
                            }
                        } else {
                            missing.push(role.role.clone());
                            proof {
                                assert(string_views(missing@) =~= missing_roles(roles@.take(i as int), assets@).push(role.role@));
                            }
                        }
                    },
                }
            },
        }
        i += 1;
    }
    proof {
        assert(roles@.take(roles.len() as int) =~= roles@);
    }
    let mut unsupported: Vec<String> = Vec::new();
    let mut k: usize = 0;
    while k < inputs.len()
        invariant
            k <= inputs.len(),
            string_views(unsupported@) == unsupported_inputs(inputs@.take(k as int)),
        decreases inputs.len() - k,
    {
        proof {
            assert(inputs@.take(k + 1).drop_last() =~= inputs@.take(k as int));
            assert(inputs@.take(k + 1).last() == inputs@[k as int]);
        }
        let s = inputs[k].as_str();
        if !(str_eq(s, "keyboard") || str_eq(s, "mouse") || str_eq(s, "touch") || str_eq(s, "gamepad")) {
            unsupported.push(inputs[k].clone());
            proof {
                assert(string_views(unsupported@) =~= unsupported_inputs(inputs@.take(k as int)).push(inputs@[k as int]@));
            }
        }
        k += 1;
    }
    proof {
        assert(inputs@.take(inputs.len() as int) =~= inputs@);
    }
    let hard_fail = missing.len() > 0 || unsupported.len() > 0;
    Ok(PlaytestPreflight { missing_roles: missing, ready_roles: ready, unsupported_inputs: unsupported, hard_fail })
}

/// A preflight builds only reviewed assets: every slot it lists as ready names an asset
/// of the project (the first one with that identity) whose state is accepted; a slot
/// with no asset, or whose asset is not accepted, is listed as missing and not as
/// ready, so the preflight fails hard.
pub proof fn law_preflight_builds_only_accepted_assets(roles: Seq<GameAssetRole>, assets: Seq<AssetEntry>)
    ensures
        forall|k: int| 0 <= k < ready_roles(roles, assets).len() ==> {
            let i = #[trigger] ready_roles(roles, assets)[k];
            &&& 0 <= i < roles.len()
            &&& roles[i].asset_id matches Some(id)
            &&& asset_index(assets, id@) matches Some(j)
            &&& 0 <= j < assets.len()
            &&& assets[j].asset_id@ == id@
            &&& assets[j].state == AssetState::Accepted
        },
        forall|i: int| 0 <= i < roles.len() && !(#[trigger] roles[i].asset_id matches Some(id)
            && asset_index(assets, id@) matches Some(j) && assets[j].state == AssetState::Accepted)
            && !(roles[i].asset_id matches Some(id) && asset_index(assets, id@) is None) ==> {
            &&& missing_roles(roles, assets).contains(roles[i].role@)
            &&& !ready_roles(roles, assets).contains(i)
            &&& missing_roles(roles, assets).len() > 0
        },
    decreases roles.len(),
{
    if roles.len() > 0 {
        let d = roles.drop_last();
        let n = roles.len() - 1;
        law_preflight_builds_only_accepted_assets(d, assets);
        let rd = ready_roles(d, assets);
        let md = missing_roles(d, assets);
        let r = ready_roles(roles, assets);
        let m = missing_roles(roles, assets);
        assert(roles.drop_last() == d);
        match roles[n].asset_id {
            Some(id) => { lemma_asset_index_bounds(assets, id@); },
            None => {},
        }
        assert forall|k: int| 0 <= k < r.len() implies {
            let i = #[trigger] r[k];
            &&& 0 <= i < roles.len()
            &&& roles[i].asset_id matches Some(id)
            &&& asset_index(assets, id@) matches Some(j)
            &&& 0 <= j < assets.len()
            &&& assets[j].asset_id@ == id@
            &&& assets[j].state == AssetState::Accepted
        } by {
            if k < rd.len() {
                assert(r[k] == rd[k]);
                assert(roles[rd[k]] == d[rd[k]]);
            } else {
                assert(r[k] == n);
            }
        }
        assert forall|i: int| 0 <= i < roles.len() && !(#[trigger] roles[i].asset_id matches Some(id)
            && asset_index(assets, id@) matches Some(j) && assets[j].state == AssetState::Accepted)
            && !(roles[i].asset_id matches Some(id) && asset_index(assets, id@) is None) implies {
            &&& m.contains(roles[i].role@)
            &&& !r.contains(i)
            &&& m.len() > 0
        } by {
            if i < n {
                assert(roles[i] == d[i]);
                let w = choose|w: int| 0 <= w < md.len() && md[w] == d[i].role@;
                assert(m[w] == md[w]);
                if r.contains(i) {
                    let v = choose|v: int| 0 <= v < r.len() && r[v] == i;
                    if v < rd.len() {
                        assert(r[v] == rd[v]);
                    }
                }
            } else {
                assert(m[m.len() - 1] == roles[i].role@);
                if r.contains(i) {
                    let v = choose|v: int| 0 <= v < r.len() && r[v] == i;
                    assert(r == rd);
                    assert(0 <= rd[v] < d.len());
                }
            }
        }
    }
}

/// The source revision a build starts from: the game's current source, which a request
/// may name and must then match.
pub fn build_source_revision(state: &GameBuildState, requested: Option<&str>) -> (r: Result<String, McpError>)
    ensures
        match r {
            Ok(s) => state.source_revision matches Some(cur) && s@ == cur@
                && (requested matches Some(q) ==> q@ == cur@),
            Err(e) => e is InvalidRequest && !(state.source_revision matches Some(cur)
                && (requested matches Some(q) ==> q@ == cur@)),
        },
{
    match &state.source_revision {
        None => Err(invalid("game source scaffold has not been created")),
        Some(cur) => {
            if let Some(q) = requested {
                if !str_eq(q, cur.as_str()) {
                    return Err(invalid("game build source revision does not match current source state"));
                }
            }
            Ok(cur.clone())
        },
    }
}

/// Records a build: its revision becomes the game's build, and also its accepted build
/// where the preflight did not fail.
pub fn record_build(state: &mut GameBuildState, build_revision: String, hard_fail: bool)
    ensures
        final(state).build_revision == Some(build_revision),
        final(state).accepted_build_revision == (if hard_fail { None } else { Some(build_revision) }),
        final(state).source_revision == old(state).source_revision,
        final(state).deployment_id == old(state).deployment_id,
        final(state).deployment_url == old(state).deployment_url,
        final(state).published == old(state).published,
{
    if hard_fail {
        state.accepted_build_revision = None;
    } else {
        state.accepted_build_revision = Some(build_revision.clone());
    }
    state.build_revision = Some(build_revision);
}

/// Records a new source scaffold: the builds made from earlier source are dropped.
pub fn record_scaffold(state: &mut GameBuildState, source_revision: String)
    ensures
        final(state).source_revision == Some(source_revision),
        final(state).build_revision is None,
        final(state).accepted_build_revision is None,
        final(state).deployment_id == old(state).deployment_id,
        final(state).deployment_url == old(state).deployment_url,
        final(state).published == old(state).published,
{
    state.source_revision = Some(source_revision);
    state.build_revision = None;
    state.accepted_build_revision = None;
}

/// Records an iteration: one that affects gameplay drops the current builds, so a new
/// playtest is needed. Returns the accepted build from before.
pub fn record_iteration(state: &mut GameBuildState, gameplay_impacting: bool) -> (previous: Option<String>)
    ensures
        previous == old(state).accepted_build_revision,
        gameplay_impacting ==> final(state).build_revision is None && final(state).accepted_build_revision is None,
        !gameplay_impacting ==> *final(state) == *old(state),
        final(state).source_revision == old(state).source_revision,
        final(state).deployment_id == old(state).deployment_id,
        final(state).deployment_url == old(state).deployment_url,
        final(state).published == old(state).published,
{
    let previous = match &state.accepted_build_revision {
        Some(s) => Some(s.clone()),
        None => None,
    };
    if gameplay_impacting {
        state.build_revision = None;
        state.accepted_build_revision = None;
    }
    previous
}

/// The severity of the finding a playtest records.
pub fn playtest_severity(hard_fail: bool) -> (s: QaSeverity)
    ensures
        s == (if hard_fail { QaSeverity::HardFail } else { QaSeverity::NotInspected }),
{
    if hard_fail { QaSeverity::HardFail } else { QaSeverity::NotInspected }
}

/// The status a local game job ends in.
pub fn local_game_status(hard_fail: bool) -> (s: CreativeJobStatus)
    ensures
        s == (if hard_fail { CreativeJobStatus::Failed } else { CreativeJobStatus::Completed }),
{
    if hard_fail { CreativeJobStatus::Failed } else { CreativeJobStatus::Completed }
}

} // verus!
