use vstd::prelude::*;
use vstd::set_lib::lemma_len_subset;
use vstd::seq_lib::seq_to_set_is_finite;
use crate::error::{invalid, invalid_with, McpError};
use crate::contracts::{AssetSource, AssetState, AssetSurface};
use crate::text::{
    byte_len, has_control, is_valid_id, has_view, seq_starts_with, str_eq, starts_with,
    contains_control, validate_id, contains_str,
};

verus! {

pub const MAX_PROJECT_ASSETS: usize = 2048;
pub const MAX_REGISTER_ASSET_BYTES: u64 = 1073741824;
pub const MAX_SEARCH_RESULTS: usize = 200;

/// A registered asset as the project holds it, with the kind and version of the
/// artifact it is; its other descriptive metadata is kept elsewhere.
#[derive(Clone, Debug)]
pub struct AssetEntry {
    pub asset_id: String,
    pub media_type: String,
    pub role: String,
    pub relative_path: String,
    pub checksum_sha256: String,
    pub bytes: u64,
    pub source: AssetSource,
    pub source_surface: AssetSurface,
    pub state: AssetState,
    pub job_id: Option<String>,
    pub parent_asset_id: Option<String>,
    pub element_id: Option<String>,
    pub dependency_element_ids: Vec<String>,
    pub artifact_kind: Option<String>,
    pub artifact_version: Option<String>,
    pub created_at_ms: u128,
}

/// An element-by-element copy of a list of strings.
pub fn copy_strings(v: &Vec<String>) -> (c: Vec<String>)
    ensures
        c@ == v@,
{
    let mut c: Vec<String> = Vec::new();
    let mut i: usize = 0;
    while i < v.len()
        invariant
            i <= v.len(),
            c@ == v@.take(i as int),
        decreases v.len() - i,
    {
        c.push(v[i].clone());
        proof {
            assert(c@ =~= v@.take(i + 1));
        }
        i += 1;
    }
    proof {
        assert(v@.take(v.len() as int) =~= v@);
    }
    c
}

fn copy_opt(v: &Option<String>) -> (c: Option<String>)
    ensures
        c == *v,
{
    match v {
        Some(s) => Some(s.clone()),
        None => None,
    }
}

/// The position of the first asset with identity `id`.
pub open spec fn asset_index(assets: Seq<AssetEntry>, id: Seq<char>) -> Option<int>
    decreases assets.len(),
{
    if assets.len() == 0 {
        None
    } else {
        match asset_index(assets.drop_last(), id) {
            Some(i) => Some(i),
            None => if assets.last().asset_id@ == id { Some(assets.len() - 1) } else { None },
        }
    }
}

proof fn lemma_asset_index(assets: Seq<AssetEntry>, id: Seq<char>, k: int)
    requires
        0 <= k < assets.len(),
        assets[k].asset_id@ == id,
        forall|j: int| 0 <= j < k ==> (#[trigger] assets[j]).asset_id@ != id,
    ensures
        asset_index(assets, id) == Some(k),
    decreases assets.len(),
{
    if k < assets.len() - 1 {
        assert(assets.drop_last()[k] == assets[k]);
        assert forall|j: int| 0 <= j < k implies (#[trigger] assets.drop_last()[j]).asset_id@ != id by {
            assert(assets.drop_last()[j] == assets[j]);
        }
        lemma_asset_index(assets.drop_last(), id, k);
    } else {
        lemma_asset_none(assets.drop_last(), id);
    }
}

proof fn lemma_asset_none(assets: Seq<AssetEntry>, id: Seq<char>)
    requires
        forall|j: int| 0 <= j < assets.len() ==> (#[trigger] assets[j]).asset_id@ != id,
    ensures
        asset_index(assets, id) is None,
    decreases assets.len(),
{
    if assets.len() > 0 {
        assert forall|j: int| 0 <= j < assets.len() - 1 implies (#[trigger] assets.drop_last()[j]).asset_id@ != id by {
            assert(assets.drop_last()[j] == assets[j]);
        }
        lemma_asset_none(assets.drop_last(), id);
    }
}

pub(crate) proof fn lemma_asset_index_bounds(assets: Seq<AssetEntry>, id: Seq<char>)
    ensures
        asset_index(assets, id) matches Some(i) ==> 0 <= i < assets.len() && assets[i].asset_id@ == id,
        asset_index(assets, id) is None ==> forall|j: int| 0 <= j < assets.len() ==> (#[trigger] assets[j]).asset_id@ != id,
    decreases assets.len(),
{
    if assets.len() > 0 {
        lemma_asset_index_bounds(assets.drop_last(), id);
        assert forall|j: int| 0 <= j < assets.len() - 1 implies (#[trigger] assets[j]) == assets.drop_last()[j] by {}
    }
}

/// The position of the first asset with identity `id`.
pub fn find_asset(assets: &Vec<AssetEntry>, id: &str) -> (r: Option<usize>)
    ensures
        match r {
            Some(i) => asset_index(assets@, id@) == Some(i as int) && i < assets.len(),
            None => asset_index(assets@, id@) is None,
        },
{
    let mut i: usize = 0;
    while i < assets.len()
        invariant
            i <= assets.len(),
            forall|j: int| 0 <= j < i ==> (#[trigger] assets@[j]).asset_id@ != id@,
        decreases assets.len() - i,
    {
        if str_eq(assets[i].asset_id.as_str(), id) {
            proof {
                lemma_asset_index(assets@, id@, i as int);
            }
            return Some(i);
        }
        i += 1;
    }
    proof {
        lemma_asset_none(assets@, id@);
    }
    None
}

/// The relative path of a registered asset. The caller resolves it in the file system
/// and hands the result to `check_resolved_asset_path`, which keeps it inside the
/// project's directory and the authorized roots.
pub fn resolve_registered_asset_path(assets: &Vec<AssetEntry>, asset_id: &str) -> (r: Result<String, McpError>)
    ensures
        match r {
            Ok(p) => is_valid_id(asset_id@) && (asset_index(assets@, asset_id@) matches Some(i)
                && p@ == assets@[i].relative_path@),
            Err(e) => (!is_valid_id(asset_id@) || asset_index(assets@, asset_id@) is None)
                && invalid_with(e, if !is_valid_id(asset_id@) {
                    "asset_id"@ + crate::text::id_rule()
                } else {
                    "unknown creative asset"@
                }),
        },
{
    match validate_id(asset_id, "asset_id") {
        Ok(()) => {},
        Err(e) => { return Err(e); },
    }
    match find_asset(assets, asset_id) {
        Some(i) => Ok(assets[i].relative_path.clone()),
        None => Err(invalid("unknown creative asset")),
    }
}

/// Marks a registered asset accepted; nothing else changes.
pub fn promote_asset(assets: &mut Vec<AssetEntry>, asset_id: &str) -> (r: Result<(), McpError>)
    ensures
        r is Ok <==> (is_valid_id(asset_id@) && asset_index(old(assets)@, asset_id@) is Some),
        r matches Err(e) ==> e is InvalidRequest,
        r is Err ==> final(assets)@ == old(assets)@,
        r is Ok ==> (asset_index(old(assets)@, asset_id@) matches Some(i)
            && final(assets)@ == old(assets)@.update(i, AssetEntry { state: AssetState::Accepted, ..old(assets)@[i] })),
{
    validate_id(asset_id, "asset_id")?;
    match find_asset(assets, asset_id) {
        Some(i) => {
            let mut entry = assets.remove(i);
            entry.state = AssetState::Accepted;
            assets.insert(i, entry);
            Ok(())
        },
        None => Err(invalid("unknown creative asset")),
    }
}

// ---------------------------------------------------------------------------
// Parent lineage

pub open spec fn opt_view(o: Option<String>) -> Option<Seq<char>> {
    match o { Some(s) => Some(s@), None => None }
}

/// The parent named by the first asset with identity `id`, if there is one.
pub open spec fn parent_of(assets: Seq<AssetEntry>, id: Seq<char>) -> Option<Seq<char>> {
    match asset_index(assets, id) {
        Some(i) => opt_view(assets[i].parent_asset_id),
        None => None,
    }
}

/// Where `k` steps up the parent links from `start` lead.
pub open spec fn lineage_step(assets: Seq<AssetEntry>, start: Option<Seq<char>>, k: nat) -> Option<Seq<char>>
    decreases k,
{
    if k == 0 {
        start
    } else {
        match lineage_step(assets, start, (k - 1) as nat) {
            Some(p) => parent_of(assets, p),
            None => None,
        }
    }
}

/// Walking up from the parent of `a` never visits an identity twice.
pub open spec fn acyclic_from(assets: Seq<AssetEntry>, a: AssetEntry) -> bool {
    forall|i: nat, j: nat| #![trigger lineage_step(assets, opt_view(a.parent_asset_id), i), lineage_step(assets, opt_view(a.parent_asset_id), j)]
        i < j && lineage_step(assets, opt_view(a.parent_asset_id), i) is Some
        ==> lineage_step(assets, opt_view(a.parent_asset_id), i) != lineage_step(assets, opt_view(a.parent_asset_id), j)
}

/// No asset's parent lineage runs in a cycle.
pub open spec fn lineage_acyclic(assets: Seq<AssetEntry>) -> bool {
    forall|k: int| 0 <= k < assets.len() ==> acyclic_from(assets, #[trigger] assets[k])
}

proof fn lemma_step_none_stays(assets: Seq<AssetEntry>, start: Option<Seq<char>>, k: nat, j: nat)
    requires
        lineage_step(assets, start, k) is None,
        k <= j,
    ensures
        lineage_step(assets, start, j) is None,
    decreases j - k,
{
    if k < j {
        lemma_step_none_stays(assets, start, k, (j - 1) as nat);
    }
}

/// A repetition-free list of identities drawn from `ids` is no longer than `ids`.
proof fn lemma_distinct_within(v: Seq<Seq<char>>, ids: Seq<Seq<char>>)
    requires
        v.no_duplicates(),
        forall|i: int| 0 <= i < v.len() ==> ids.contains(#[trigger] v[i]),
    ensures
        v.len() <= ids.len(),
{
    v.unique_seq_to_set();
    assert(v.to_set().subset_of(ids.to_set()));
    seq_to_set_is_finite(ids);
    lemma_len_subset(v.to_set(), ids.to_set());
    ids.lemma_cardinality_of_set();
}

pub open spec fn asset_ids(assets: Seq<AssetEntry>) -> Seq<Seq<char>> {
    assets.map_values(|a: AssetEntry| a.asset_id@)
}

/// Walks up from `start` and reports whether an identity repeats.
fn lineage_repeats(assets: &Vec<AssetEntry>, start: &Option<String>) -> (r: bool)
    ensures
        r == !(forall|i: nat, j: nat| #![trigger lineage_step(assets@, opt_view(*start), i), lineage_step(assets@, opt_view(*start), j)]
            i < j && lineage_step(assets@, opt_view(*start), i) is Some
            ==> lineage_step(assets@, opt_view(*start), i) != lineage_step(assets@, opt_view(*start), j)),
{
    let ghost s = opt_view(*start);
    let mut seen: Vec<String> = Vec::new();
    let mut current: Option<String> = copy_opt(start);
    while current.is_some()
        invariant
            s == opt_view(*start),
            seen@.len() <= assets@.len() + 1,
            opt_view(current) == lineage_step(assets@, s, seen@.len() as nat),
            forall|k: int| 0 <= k < seen@.len() ==> lineage_step(assets@, s, k as nat) == Some((#[trigger] seen@[k])@),
            forall|a: int, b: int| 0 <= a < b < seen@.len() ==> (#[trigger] seen@[a])@ != (#[trigger] seen@[b])@,
            current is Some ==> forall|k: int| 0 <= k < seen@.len() ==> asset_ids(assets@).contains((#[trigger] seen@[k])@),
        decreases assets@.len() + 1 - seen@.len(),
    {
        let c = match &current { Some(c) => c.clone(), None => String::new() };
        if contains_str(&seen, c.as_str()) {
            proof {
                let a = choose|a: int| 0 <= a < seen@.len() && (#[trigger] seen@[a])@ == c@;
                let n = seen@.len() as nat;
                assert(lineage_step(assets@, s, a as nat) == Some(seen@[a]@));
                assert(lineage_step(assets@, s, a as nat) == lineage_step(assets@, s, n));
            }
            return true;
        }
        let next = match find_asset(assets, c.as_str()) {
            Some(i) => copy_opt(&assets[i].parent_asset_id),
            None => None,
        };
        proof {
            let n = seen@.len();
            let prior = seen@.map_values(|x: String| x@);
            assert(prior.no_duplicates()) by {
                assert forall|a: int, b: int| 0 <= a < prior.len() && 0 <= b < prior.len() && a != b implies prior[a] != prior[b] by {
                    if a < b {
                        assert(seen@[a]@ != seen@[b]@);
                    } else {
                        assert(seen@[b]@ != seen@[a]@);
                    }
                }
            }
            assert forall|k: int| 0 <= k < prior.len() implies asset_ids(assets@).contains(#[trigger] prior[k]) by {
                assert(prior[k] == seen@[k]@);
            }
            lemma_distinct_within(prior, asset_ids(assets@));
            let vs = prior.push(c@);
            if next is Some {
                lemma_asset_index_bounds(assets@, c@);
                let i = asset_index(assets@, c@)->0;
                assert(asset_ids(assets@)[i] == c@);
                assert forall|k: int| 0 <= k < vs.len() implies asset_ids(assets@).contains(#[trigger] vs[k]) by {
                    if k < n {
                        assert(vs[k] == seen@[k]@);
                    }
                }
                assert(vs.no_duplicates()) by {
                    assert forall|a: int, b: int| 0 <= a < vs.len() && 0 <= b < vs.len() && a != b implies vs[a] != vs[b] by {
                        if a < n && b < n {
                            assert(vs[a] == seen@[a]@ && vs[b] == seen@[b]@);
                        } else if a < n {
                            assert(vs[a] == seen@[a]@);
                        } else if b < n {
                            assert(vs[b] == seen@[b]@);
                        }
                    }
                }
                lemma_distinct_within(vs, asset_ids(assets@));
            }
        }
        seen.push(c);
        current = next;
    }
    proof {
        let n = seen@.len() as nat;
        assert forall|i: nat, j: nat| i < j && lineage_step(assets@, s, i) is Some
            implies #[trigger] lineage_step(assets@, s, i) != #[trigger] lineage_step(assets@, s, j) by {
            if j >= n {
                lemma_step_none_stays(assets@, s, n, j);
            } else {
                assert(lineage_step(assets@, s, i) == Some(seen@[i as int]@));
                assert(lineage_step(assets@, s, j) == Some(seen@[j as int]@));
            }
        }
    }
    false
}

/// Checks that no asset's parent lineage runs in a cycle.
pub fn validate_asset_lineage(assets: &Vec<AssetEntry>) -> (r: Result<(), McpError>)
    ensures
        r is Ok <==> lineage_acyclic(assets@),
        r matches Err(e) ==> invalid_with(e, "asset parent lineage must be acyclic"@),
{
    let mut k: usize = 0;
    while k < assets.len()
        invariant
            k <= assets.len(),
            forall|j: int| 0 <= j < k ==> acyclic_from(assets@, #[trigger] assets@[j]),
        decreases assets.len() - k,
    {
        if lineage_repeats(assets, &assets[k].parent_asset_id) {
            return Err(invalid("asset parent lineage must be acyclic"));
        }
        k += 1;
    }
    Ok(())
}

} // verus!

verus! {

/// A filter over a project's assets; each field that is set must match.
#[derive(Clone, Debug)]
pub struct AssetSearch {
    pub media_type: Option<String>,
    pub role: Option<String>,
    pub source: Option<AssetSource>,
    pub source_surface: Option<AssetSurface>,
    pub state: Option<AssetState>,
    pub job_id: Option<String>,
    pub element_id: Option<String>,
    pub parent_asset_id: Option<String>,
    pub created_after_ms: Option<u128>,
    pub created_before_ms: Option<u128>,
    pub limit: usize,
}

/// A media type that can be registered as a project asset.
pub open spec fn is_asset_media_type(v: Seq<char>) -> bool {
    &&& v.len() > 0
    &&& byte_len(v) <= 128
    &&& !has_control(v)
    &&& (seq_starts_with(v, "image/"@) || seq_starts_with(v, "video/"@) || seq_starts_with(v, "model/"@)
        || v == "application/json"@ || v == "application/octet-stream"@ || v == "application/x-blender"@)
}

/// Checks a media type for asset registration and search.
pub fn validate_asset_media_type(value: &str) -> (r: Result<(), McpError>)
    ensures
        r is Ok <==> is_asset_media_type(value@),
        r matches Err(e) ==> invalid_with(e, "creative asset media type is unsupported"@),
{
    let allowed = starts_with(value, "image/") || starts_with(value, "video/") || starts_with(value, "model/")
        || str_eq(value, "application/json") || str_eq(value, "application/octet-stream")
        || str_eq(value, "application/x-blender");
    if value.is_empty() || value.len() > 128 || contains_control(value) || !allowed {
        return Err(invalid("creative asset media type is unsupported"));
    }
    Ok(())
}

/// A search query that the store accepts.
pub open spec fn search_query_ok(q: AssetSearch) -> bool {
    &&& (q.media_type matches Some(m) ==> is_asset_media_type(m@))
    &&& (q.role matches Some(r) ==> r@.len() > 0 && byte_len(r@) <= 128 && !has_control(r@))
    &&& (q.job_id matches Some(j) ==> is_valid_id(j@))
    &&& (q.element_id matches Some(e) ==> is_valid_id(e@))
    &&& (q.parent_asset_id matches Some(p) ==> is_valid_id(p@))
    &&& !(q.created_after_ms matches Some(a) && q.created_before_ms matches Some(b) && a > b)
}

/// The asset meets every criterion the query sets.
pub open spec fn search_matches(a: AssetEntry, q: AssetSearch) -> bool {
    &&& (q.media_type matches Some(m) ==> a.media_type@ == m@)
    &&& (q.role matches Some(r) ==> a.role@ == r@)
    &&& (q.source matches Some(s) ==> a.source == s)
    &&& (q.source_surface matches Some(s) ==> a.source_surface == s)
    &&& (q.state matches Some(s) ==> a.state == s)
    &&& (q.job_id matches Some(j) ==> opt_view(a.job_id) == Some(j@))
    &&& (q.element_id matches Some(e) ==> opt_view(a.element_id) == Some(e@))
    &&& (q.parent_asset_id matches Some(p) ==> opt_view(a.parent_asset_id) == Some(p@))
    &&& (q.created_after_ms matches Some(t) ==> a.created_at_ms >= t)
    &&& (q.created_before_ms matches Some(t) ==> a.created_at_ms <= t)
}

/// The assets that meet the query, in their stored order.
pub open spec fn matching(assets: Seq<AssetEntry>, q: AssetSearch) -> Seq<AssetEntry>
    decreases assets.len(),
{
    if assets.len() == 0 {
        seq![]
    } else {
        let r = matching(assets.drop_last(), q);
        if search_matches(assets.last(), q) { r.push(assets.last()) } else { r }
    }
}

/// `x` placed into newest-first `sorted` after every asset at least as new.
pub open spec fn insert_desc(sorted: Seq<AssetEntry>, x: AssetEntry) -> Seq<AssetEntry>
    decreases sorted.len(),
{
    if sorted.len() == 0 {
        seq![x]
    } else if sorted.last().created_at_ms >= x.created_at_ms {
        sorted.push(x)
    } else {
        insert_desc(sorted.drop_last(), x).push(sorted.last())
    }
}

/// The assets ordered newest first; assets created at the same time keep their order.
pub open spec fn newest_first(s: Seq<AssetEntry>) -> Seq<AssetEntry>
    decreases s.len(),
{
    if s.len() == 0 {
        seq![]
    } else {
        insert_desc(newest_first(s.drop_last()), s.last())
    }
}

/// The number of results a search returns at most: its limit, kept within 1 to 200.
pub open spec fn result_limit(limit: usize) -> int {
    if limit < 1 { 1 } else if limit > MAX_SEARCH_RESULTS { MAX_SEARCH_RESULTS as int } else { limit as int }
}

/// What a search returns: the matching assets, newest first, up to the limit.
pub open spec fn search_result(assets: Seq<AssetEntry>, q: AssetSearch) -> Seq<AssetEntry> {
    let all = newest_first(matching(assets, q));
    if all.len() <= result_limit(q.limit) { all } else { all.take(result_limit(q.limit)) }
}

pub open spec fn sorted_desc(s: Seq<AssetEntry>) -> bool {
    forall|i: int, j: int| 0 <= i < j < s.len() ==> (#[trigger] s[i]).created_at_ms >= (#[trigger] s[j]).created_at_ms
}

proof fn lemma_insert_desc_at(s: Seq<AssetEntry>, x: AssetEntry, j: int)
    requires
        0 <= j <= s.len(),
        j > 0 ==> s[j - 1].created_at_ms >= x.created_at_ms,
        forall|k: int| j <= k < s.len() ==> (#[trigger] s[k]).created_at_ms < x.created_at_ms,
    ensures
        insert_desc(s, x) == s.insert(j, x),
    decreases s.len(),
{
    if s.len() == 0 {
        assert(s.insert(j, x) =~= seq![x]);
    } else if s.last().created_at_ms >= x.created_at_ms {
        if j < s.len() {
            assert(s[s.len() - 1].created_at_ms < x.created_at_ms);
        }
        assert(s.push(x) =~= s.insert(j, x));
    } else {
        let d = s.drop_last();
        assert forall|k: int| j <= k < d.len() implies (#[trigger] d[k]).created_at_ms < x.created_at_ms by {
            assert(d[k] == s[k]);
        }
        if j > 0 && j - 1 < d.len() {
            assert(d[j - 1] == s[j - 1]);
        }
        if j == s.len() {
            assert(s[j - 1].created_at_ms < x.created_at_ms);
        }
        lemma_insert_desc_at(d, x, j);
        assert(d.insert(j, x).push(s.last()) =~= s.insert(j, x));
    }
}

proof fn lemma_insert_desc_keeps(s: Seq<AssetEntry>, x: AssetEntry, p: spec_fn(AssetEntry) -> bool)
    requires
        sorted_desc(s),
        forall|k: int| 0 <= k < s.len() ==> p(#[trigger] s[k]),
        p(x),
    ensures
        sorted_desc(insert_desc(s, x)),
        forall|k: int| 0 <= k < insert_desc(s, x).len() ==> p(#[trigger] insert_desc(s, x)[k]),
        insert_desc(s, x).len() == s.len() + 1,
    decreases s.len(),
{
    if s.len() == 0 {
    } else if s.last().created_at_ms >= x.created_at_ms {
        let t = s.push(x);
        assert forall|i: int, j: int| 0 <= i < j < t.len() implies (#[trigger] t[i]).created_at_ms >= (#[trigger] t[j]).created_at_ms by {
            if j == s.len() {
                assert(s[i].created_at_ms >= s[s.len() - 1].created_at_ms);
            }
        }
        assert forall|k: int| 0 <= k < t.len() implies p(#[trigger] t[k]) by {
            if k < s.len() { assert(t[k] == s[k]); }
        }
    } else {
        let d = s.drop_last();
        assert forall|i: int, j: int| 0 <= i < j < d.len() implies (#[trigger] d[i]).created_at_ms >= (#[trigger] d[j]).created_at_ms by {
            assert(d[i] == s[i] && d[j] == s[j]);
        }
        assert forall|k: int| 0 <= k < d.len() implies p(#[trigger] d[k]) by {
            assert(d[k] == s[k]);
        }
        lemma_insert_desc_keeps(d, x, p);
        let u = insert_desc(d, x);
        let t = u.push(s.last());
        assert forall|i: int, j: int| 0 <= i < j < t.len() implies (#[trigger] t[i]).created_at_ms >= (#[trigger] t[j]).created_at_ms by {
            if j == t.len() - 1 {
                // every element of u is x or an element of d, each at least as new as s.last()
                lemma_insert_desc_members(d, x, i);
                if u[i] != x {
                    let m = choose|m: int| 0 <= m < d.len() && d[m] == u[i];
                    assert(s[m].created_at_ms >= s[s.len() - 1].created_at_ms);
                }
            }
        }
        assert forall|k: int| 0 <= k < t.len() implies p(#[trigger] t[k]) by {
            if k < u.len() { assert(t[k] == u[k]); }
        }
    }
}

proof fn lemma_insert_desc_members(s: Seq<AssetEntry>, x: AssetEntry, i: int)
    requires
        0 <= i < insert_desc(s, x).len(),
    ensures
        insert_desc(s, x).len() == s.len() + 1,
        insert_desc(s, x)[i] == x || exists|m: int| 0 <= m < s.len() && s[m] == insert_desc(s, x)[i],
    decreases s.len(),
{
    if s.len() == 0 {
    } else if s.last().created_at_ms >= x.created_at_ms {
        if i < s.len() {
            assert(s[i] == insert_desc(s, x)[i]);
        }
    } else {
        let d = s.drop_last();
        let u = insert_desc(d, x);
        if i < insert_desc(s, x).len() - 1 {
            lemma_insert_desc_members(d, x, i);
            if u[i] != x {
                let m = choose|m: int| 0 <= m < d.len() && d[m] == u[i];
                assert(s[m] == insert_desc(s, x)[i]);
            }
        } else {
            lemma_insert_desc_members(d, x, 0);
            assert(s[s.len() - 1] == insert_desc(s, x)[i]);
        }
    }
}

proof fn lemma_newest_first_keeps(s: Seq<AssetEntry>, p: spec_fn(AssetEntry) -> bool)
    requires
        forall|k: int| 0 <= k < s.len() ==> p(#[trigger] s[k]),
    ensures
        sorted_desc(newest_first(s)),
        newest_first(s).len() == s.len(),
        forall|k: int| 0 <= k < newest_first(s).len() ==> p(#[trigger] newest_first(s)[k]),
    decreases s.len(),
{
    if s.len() > 0 {
        let d = s.drop_last();
        assert forall|k: int| 0 <= k < d.len() implies p(#[trigger] d[k]) by {
            assert(d[k] == s[k]);
        }
        lemma_newest_first_keeps(d, p);
        lemma_insert_desc_keeps(newest_first(d), s.last(), p);
    }
}

proof fn lemma_matching_matches(assets: Seq<AssetEntry>, q: AssetSearch)
    ensures
        forall|k: int| 0 <= k < matching(assets, q).len() ==> search_matches(#[trigger] matching(assets, q)[k], q),
        matching(assets, q).len() <= assets.len(),
    decreases assets.len(),
{
    if assets.len() > 0 {
        lemma_matching_matches(assets.drop_last(), q);
    }
}

fn check_opt_valid_id(v: &Option<String>) -> (r: bool)
    ensures
        r == (v matches Some(s) ==> is_valid_id(s@)),
{
    match v {
        Some(s) => validate_id(s.as_str(), "identifier").is_ok(),
        None => true,
    }
}

fn opt_str_eq(a: &Option<String>, b: &str) -> (r: bool)
    ensures
        r == (opt_view(*a) == Some(b@)),
{
    match a {
        Some(s) => str_eq(s.as_str(), b),
        None => false,
    }
}

fn asset_matches(a: &AssetEntry, q: &AssetSearch) -> (r: bool)
    ensures
        r == search_matches(*a, *q),
{
    let media_ok = match &q.media_type { Some(m) => str_eq(a.media_type.as_str(), m.as_str()), None => true };
    let role_ok = match &q.role { Some(x) => str_eq(a.role.as_str(), x.as_str()), None => true };
    let source_ok = match q.source { Some(s) => a.source == s, None => true };
    let surface_ok = match q.source_surface { Some(s) => a.source_surface == s, None => true };
    let state_ok = match q.state { Some(s) => a.state == s, None => true };
    let job_ok = match &q.job_id { Some(j) => opt_str_eq(&a.job_id, j.as_str()), None => true };
    let element_ok = match &q.element_id { Some(e) => opt_str_eq(&a.element_id, e.as_str()), None => true };
    let parent_ok = match &q.parent_asset_id { Some(p) => opt_str_eq(&a.parent_asset_id, p.as_str()), None => true };
    let after_ok = match q.created_after_ms { Some(t) => a.created_at_ms >= t, None => true };
    let before_ok = match q.created_before_ms { Some(t) => a.created_at_ms <= t, None => true };
    media_ok && role_ok && source_ok && surface_ok && state_ok && job_ok && element_ok && parent_ok && after_ok && before_ok
}

/// Searches a project's assets: those that meet the query, newest first, at most
/// `limit` of them (kept within 1 to 200).
pub fn search_assets(assets: Vec<AssetEntry>, query: &AssetSearch) -> (r: Result<Vec<AssetEntry>, McpError>)
    ensures
        match r {
            Ok(found) => search_query_ok(*query) && found@ == search_result(assets@, *query),
            Err(e) => e is InvalidRequest && !search_query_ok(*query),
        },
{
    if let Some(m) = &query.media_type {
        validate_asset_media_type(m.as_str())?;
    }
    if let Some(role) = &query.role {
        if role.as_str().is_empty() || role.as_str().len() > 128 || contains_control(role.as_str()) {
            return Err(invalid("creative asset role filter exceeds allowed bounds"));
        }
    }
    if !(check_opt_valid_id(&query.job_id) && check_opt_valid_id(&query.element_id)
        && check_opt_valid_id(&query.parent_asset_id))
    {
        return Err(invalid("asset identifier filter is invalid"));
    }
    if let (Some(after), Some(before)) = (query.created_after_ms, query.created_before_ms) {
        if after > before {
            return Err(invalid("creative asset time range is invalid"));
        }
    }
    let limit: usize = if query.limit < 1 { 1 } else if query.limit > MAX_SEARCH_RESULTS { MAX_SEARCH_RESULTS } else { query.limit };
    let ghost all = assets@;
    assert(all.len() == assets.len());
    let mut rest = assets;
    let mut out: Vec<AssetEntry> = Vec::new();
    let mut i: usize = 0;
    while rest.len() > 0
        invariant
            all.len() <= usize::MAX,
            i + rest@.len() == all.len(),
            rest@ == all.skip(i as int),
            out@ == newest_first(matching(all.take(i as int), *query)),
        decreases rest@.len(),
    {
        proof {
            assert(all.take(i + 1).drop_last() =~= all.take(i as int));
            assert(all.take(i + 1).last() == all[i as int]);
        }
        let x = rest.remove(0);
        proof {
            assert(x == all[i as int]);
            assert(rest@ =~= all.skip(i + 1));
        }
        if asset_matches(&x, query) {
            let mut j: usize = out.len();
            while j > 0 && out[j - 1].created_at_ms < x.created_at_ms
                invariant
                    j <= out.len(),
                    forall|k: int| j <= k < out@.len() ==> (#[trigger] out@[k]).created_at_ms < x.created_at_ms,
                decreases j,
            {
                j -= 1;
            }
            proof {
                lemma_insert_desc_at(out@, x, j as int);
                let m = matching(all.take(i as int), *query);
                assert(m.push(x).drop_last() =~= m);
            }
            out.insert(j, x);
        }
        i += 1;
    }
    proof {
        assert(all.take(all.len() as int) =~= all);
    }
    out.truncate(limit);
    Ok(out)
}

/// Every asset a search returns meets the query, and they come newest first.
pub proof fn law_search_results_match_newest_first(assets: Seq<AssetEntry>, q: AssetSearch)
    ensures
        sorted_desc(search_result(assets, q)),
        forall|k: int| 0 <= k < search_result(assets, q).len() ==> search_matches(#[trigger] search_result(assets, q)[k], q),
        search_result(assets, q).len() <= result_limit(q.limit),
{
    let m = matching(assets, q);
    lemma_matching_matches(assets, q);
    let p = |a: AssetEntry| search_matches(a, q);
    assert forall|k: int| 0 <= k < m.len() implies p(#[trigger] m[k]) by {}
    lemma_newest_first_keeps(m, p);
    let all = newest_first(m);
    let r = search_result(assets, q);
    if all.len() > result_limit(q.limit) {
        assert forall|i: int, j: int| 0 <= i < j < r.len() implies (#[trigger] r[i]).created_at_ms >= (#[trigger] r[j]).created_at_ms by {
            assert(r[i] == all[i] && r[j] == all[j]);
        }
        assert forall|k: int| 0 <= k < r.len() implies search_matches(#[trigger] r[k], q) by {
            assert(r[k] == all[k]);
            assert(p(all[k]));
        }
    } else {
        assert forall|k: int| 0 <= k < r.len() implies search_matches(#[trigger] r[k], q) by {
            assert(p(all[k]));
        }
    }
}


proof fn lemma_matching_members(assets: Seq<AssetEntry>, q: AssetSearch)
    ensures
        forall|k: int| 0 <= k < matching(assets, q).len() ==> assets.contains(#[trigger] matching(assets, q)[k]),
    decreases assets.len(),
{
    if assets.len() > 0 {
        let d = assets.drop_last();
        lemma_matching_members(d, q);
        let m = matching(assets, q);
        assert forall|k: int| 0 <= k < m.len() implies assets.contains(#[trigger] m[k]) by {
            if k < matching(d, q).len() {
                assert(m[k] == matching(d, q)[k]);
                let j = choose|j: int| 0 <= j < d.len() && d[j] == m[k];
                assert(assets[j] == m[k]);
            } else {
                assert(m[k] == assets[assets.len() - 1]);
            }
        }
    }
}

/// A search returns only assets of the project, and each one meets every filter the
/// query sets: the media type, role, source, surface and review state it names, the
/// job, element and parent it names, and the time range it gives.
pub proof fn law_search_results_meet_each_filter(assets: Seq<AssetEntry>, q: AssetSearch)
    ensures
        forall|k: int| 0 <= k < search_result(assets, q).len() ==> {
            let a = #[trigger] search_result(assets, q)[k];
            &&& assets.contains(a)
            &&& (q.media_type matches Some(m) ==> a.media_type@ == m@)
            &&& (q.role matches Some(r) ==> a.role@ == r@)
            &&& (q.source matches Some(s) ==> a.source == s)
            &&& (q.source_surface matches Some(s) ==> a.source_surface == s)
            &&& (q.state matches Some(wanted) ==> a.state == wanted)
            &&& (q.job_id matches Some(j) ==> a.job_id matches Some(v) && v@ == j@)
            &&& (q.element_id matches Some(e) ==> a.element_id matches Some(v) && v@ == e@)
            &&& (q.parent_asset_id matches Some(p) ==> a.parent_asset_id matches Some(v) && v@ == p@)
            &&& (q.created_after_ms matches Some(t) ==> a.created_at_ms >= t)
            &&& (q.created_before_ms matches Some(t) ==> a.created_at_ms <= t)
        },
{
    let m = matching(assets, q);
    lemma_matching_matches(assets, q);
    lemma_matching_members(assets, q);
    let p = |a: AssetEntry| assets.contains(a) && search_matches(a, q);
    assert forall|k: int| 0 <= k < m.len() implies p(#[trigger] m[k]) by {}
    lemma_newest_first_keeps(m, p);
    let all = newest_first(m);
    let r = search_result(assets, q);
    assert forall|k: int| 0 <= k < r.len() implies p(#[trigger] r[k]) by {
        assert(r[k] == all[k]);
        assert(p(all[k]));
    }
}

/// A search returns every matching asset when they are no more than its limit, and
/// exactly `limit` of them otherwise; a limit of zero counts as one, and one above 200
/// as 200.
pub proof fn law_search_result_count(assets: Seq<AssetEntry>, q: AssetSearch)
    ensures
        1 <= q.limit <= 200 && matching(assets, q).len() <= q.limit ==> search_result(assets, q).len() == matching(assets, q).len(),
        1 <= q.limit <= 200 && matching(assets, q).len() > q.limit ==> search_result(assets, q).len() == q.limit,
        q.limit == 0 ==> search_result(assets, q).len() == (if matching(assets, q).len() == 0 { 0int } else { 1int }),
        q.limit > 200 ==> search_result(assets, q).len() == (if matching(assets, q).len() <= 200 { matching(assets, q).len() as int } else { 200int }),
{
    let p = |a: AssetEntry| true;
    lemma_newest_first_keeps(matching(assets, q), p);
}

} // verus!

verus! {

/// The root of the store's own state files inside the workspace.
pub open spec fn state_prefix() -> Seq<char> {
    ".masihawam/creative"@
}

/// What a caller asks to register: the asset's resolved workspace-relative path, the
/// size and SHA-256 hex digest of its file, and how it was made.
#[derive(Clone, Debug)]
pub struct AssetRegistrationInput {
    pub relative_path: String,
    pub file_bytes: u64,
    pub checksum_sha256: String,
    pub media_type: String,
    pub role: String,
    pub source: AssetSource,
    pub source_surface: AssetSurface,
    pub state: AssetState,
    pub job_id: Option<String>,
    pub parent_asset_id: Option<String>,
    pub element_id: Option<String>,
    pub dependency_element_ids: Vec<String>,
    pub artifact_kind: Option<String>,
    pub artifact_version: Option<String>,
}

/// Whether the store refuses to register `input` in a project that holds `assets` and
/// the jobs and elements named by `job_ids` and `element_ids`.
pub open spec fn registration_refused(assets: Seq<AssetEntry>, job_ids: Seq<String>, element_ids: Seq<String>, input: AssetRegistrationInput) -> bool {
    ||| !is_asset_media_type(input.media_type@)
    ||| assets.len() >= MAX_PROJECT_ASSETS
    ||| (input.job_id matches Some(j) && (!is_valid_id(j@) || !has_view(job_ids, j@)))
    ||| (input.parent_asset_id matches Some(p) && asset_index(assets, p@) is None)
    ||| (input.element_id matches Some(e) && !has_view(element_ids, e@))
    ||| input.relative_path@ == state_prefix()
    ||| seq_starts_with(input.relative_path@, state_prefix() + "/"@)
    ||| input.file_bytes > MAX_REGISTER_ASSET_BYTES
}

/// The record that registration adds.
pub open spec fn registered_entry(input: AssetRegistrationInput, asset_id: Seq<char>, e: AssetEntry, now: u128) -> bool {
    &&& e.asset_id@ == asset_id
    &&& e.media_type == input.media_type
    &&& e.role == input.role
    &&& e.relative_path == input.relative_path
    &&& e.checksum_sha256 == input.checksum_sha256
    &&& e.bytes == input.file_bytes
    &&& e.source == input.source
    &&& e.source_surface == input.source_surface
    &&& e.state == input.state
    &&& e.job_id == input.job_id
    &&& e.parent_asset_id == input.parent_asset_id
    &&& e.element_id == input.element_id
    &&& e.dependency_element_ids == input.dependency_element_ids
    &&& e.artifact_kind == input.artifact_kind
    &&& e.artifact_version == input.artifact_version
    &&& e.created_at_ms == now
}

/// Registers an asset under the identity `asset_` followed by `id_suffix`, created at
/// `now`, after the store's checks.
pub fn register_asset_at(
    assets: &mut Vec<AssetEntry>,
    job_ids: &Vec<String>,
    element_ids: &Vec<String>,
    input: AssetRegistrationInput,
    id_suffix: &str,
    now: u128,
) -> (r: Result<String, McpError>)
    ensures
        r is Err <==> registration_refused(old(assets)@, job_ids@, element_ids@, input),
        r matches Err(e) ==> e is InvalidRequest,
        r is Err ==> final(assets)@ == old(assets)@,
        r matches Ok(id) ==> {
            &&& id@ == "asset_"@ + id_suffix@
            &&& final(assets)@.len() == old(assets)@.len() + 1
            &&& final(assets)@.drop_last() == old(assets)@
            &&& registered_entry(input, id@, final(assets)@.last(), now)
        },
{
    validate_asset_media_type(input.media_type.as_str())?;
    if assets.len() >= MAX_PROJECT_ASSETS {
        return Err(invalid("creative asset capacity reached"));
    }
    if let Some(job_id) = &input.job_id {
        validate_id(job_id.as_str(), "asset job id")?;
        if !contains_str(job_ids, job_id.as_str()) {
            return Err(invalid("unknown asset job lineage"));
        }
    }
    if let Some(parent) = &input.parent_asset_id {
        if find_asset(assets, parent.as_str()).is_none() {
            return Err(invalid("unknown parent asset"));
        }
    }
    if let Some(element) = &input.element_id {
        if !contains_str(element_ids, element.as_str()) {
            return Err(invalid("unknown asset element"));
        }
    }
    proof {
        reveal_strlit(".masihawam/creative");
        reveal_strlit(".masihawam/creative/");
        assert(state_prefix() + "/"@ =~= ".masihawam/creative/"@) by {
            reveal_strlit("/");
        }
    }
    if str_eq(input.relative_path.as_str(), ".masihawam/creative")
        || starts_with(input.relative_path.as_str(), ".masihawam/creative/")
    {
        return Err(invalid("creative state files cannot be registered as media assets"));
    }
    if input.file_bytes > MAX_REGISTER_ASSET_BYTES {
        return Err(invalid("asset file exceeds registration maximum"));
    }
    let mut asset_id = String::from_str("asset_");
    asset_id.append(id_suffix);
    let entry = AssetEntry {
        asset_id: asset_id.clone(),
        media_type: input.media_type,
        role: input.role,
        relative_path: input.relative_path,
        checksum_sha256: input.checksum_sha256,
        bytes: input.file_bytes,
        source: input.source,
        source_surface: input.source_surface,
        state: input.state,
        job_id: input.job_id,
        parent_asset_id: input.parent_asset_id,
        element_id: input.element_id,
        dependency_element_ids: input.dependency_element_ids,
        artifact_kind: input.artifact_kind,
        artifact_version: input.artifact_version,
        created_at_ms: now,
    };
    assets.push(entry);
    proof {
        reveal_strlit("asset_");
        assert(assets@.drop_last() =~= old(assets)@);
    }
    Ok(asset_id)
}

/// Registers an asset under a fresh random identity, created now.
pub fn register_asset(
    assets: &mut Vec<AssetEntry>,
    job_ids: &Vec<String>,
    element_ids: &Vec<String>,
    input: AssetRegistrationInput,
) -> (r: Result<String, McpError>)
    ensures
        r is Err <==> registration_refused(old(assets)@, job_ids@, element_ids@, input),
        r is Err ==> final(assets)@ == old(assets)@,
        r matches Ok(id) ==> {
            &&& id@.len() == 38
            &&& seq_starts_with(id@, "asset_"@)
            &&& final(assets)@.drop_last() == old(assets)@
            &&& exists|now: u128| registered_entry(input, id@, final(assets)@.last(), now)
        },
{
    let suffix = crate::outside::random_simple_uuid();
    let now = crate::outside::now_ms();
    let r = register_asset_at(assets, job_ids, element_ids, input, suffix.as_str(), now);
    proof {
        reveal_strlit("asset_");
        if r is Ok {
            let id = r->Ok_0;
            assert(id@.subrange(0, 6) =~= "asset_"@);
        }
    }
    r
}

} // verus!
