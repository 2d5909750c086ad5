use vstd::prelude::*;
use crate::error::{invalid, invalid_with, McpError};
use crate::production::{AudioPlan, GameManifest};
use crate::project::{
    ProjectContents, QaFindingEntry, MAX_PROJECT_AUDIO_PLANS, MAX_PROJECT_GAMES,
    MAX_PROJECT_SCENES, MAX_QA_FINDINGS,
};
use crate::text::str_eq;

verus! {

/// A record of a project that is found again by its identifier.
pub trait Keyed {
    spec fn key_view(&self) -> Seq<char>;

    fn key(&self) -> (k: &str)
        ensures
            k@ == self.key_view(),
    ;
}

impl Keyed for GameManifest {
    open spec fn key_view(&self) -> Seq<char> {
        self.game_id@
    }

    fn key(&self) -> (k: &str) {
        self.game_id.as_str()
    }
}

impl Keyed for AudioPlan {
    open spec fn key_view(&self) -> Seq<char> {
        self.audio_plan_id@
    }

    fn key(&self) -> (k: &str) {
        self.audio_plan_id.as_str()
    }
}

impl Keyed for QaFindingEntry {
    open spec fn key_view(&self) -> Seq<char> {
        self.finding_id@
    }

    fn key(&self) -> (k: &str) {
        self.finding_id.as_str()
    }
}

impl Keyed for String {
    open spec fn key_view(&self) -> Seq<char> {
        self@
    }

    fn key(&self) -> (k: &str) {
        self.as_str()
    }
}

/// Item `i` of `s` carries `key`.
pub open spec fn keyed_at<T: Keyed>(s: Seq<T>, key: Seq<char>, i: int) -> bool {
    0 <= i < s.len() && s[i].key_view() == key
}

/// Item `i` is the first of `s` that carries `key`.
pub open spec fn first_keyed_at<T: Keyed>(s: Seq<T>, key: Seq<char>, i: int) -> bool {
    keyed_at(s, key, i) && forall|j: int| 0 <= j < i ==> !#[trigger] keyed_at(s, key, j)
}

/// Some item of `s` carries `key`.
pub open spec fn holds_key<T: Keyed>(s: Seq<T>, key: Seq<char>) -> bool {
    exists|i: int| #[trigger] keyed_at(s, key, i)
}

/// The position of the first item of `s` that carries `key`.
pub open spec fn first_index<T: Keyed>(s: Seq<T>, key: Seq<char>) -> int {
    choose|i: int| first_keyed_at(s, key, i)
}

/// `s` after an insert-or-replace of `item`: the first item with the same key is
/// replaced, and where there is none `item` is appended.
pub open spec fn upserted<T: Keyed>(s: Seq<T>, item: T) -> Seq<T> {
    if holds_key(s, item.key_view()) {
        s.update(first_index(s, item.key_view()), item)
    } else {
        s.push(item)
    }
}

/// An insert-or-replace of `item` into `s` is refused: its key is new and `s` is full.
pub open spec fn upsert_refused<T: Keyed>(s: Seq<T>, item: T, capacity: int) -> bool {
    !holds_key(s, item.key_view()) && s.len() >= capacity
}

/// Where `key` occurs at `w`, some first position carries it.
proof fn lemma_first_exists<T: Keyed>(s: Seq<T>, key: Seq<char>, w: int)
    requires
        keyed_at(s, key, w),
    ensures
        exists|f: int| first_keyed_at(s, key, f),
    decreases w,
{
    if exists|j: int| 0 <= j < w && #[trigger] keyed_at(s, key, j) {
        let j = choose|j: int| 0 <= j < w && #[trigger] keyed_at(s, key, j);
        lemma_first_exists(s, key, j);
    } else {
        assert(first_keyed_at(s, key, w));
    }
}

/// Where a key occurs, the first position that carries it exists and is unique.
pub proof fn lemma_first_index<T: Keyed>(s: Seq<T>, key: Seq<char>)
    requires
        holds_key(s, key),
    ensures
        first_keyed_at(s, key, first_index(s, key)),
        forall|i: int| #[trigger] first_keyed_at(s, key, i) ==> i == first_index(s, key),
{
    let w = choose|i: int| keyed_at(s, key, i);
    lemma_first_exists(s, key, w);
    let f = first_index(s, key);
    assert forall|i: int| #[trigger] first_keyed_at(s, key, i) implies i == f by {
        if i < f {
            assert(keyed_at(s, key, i));
        } else if f < i {
            assert(keyed_at(s, key, f));
        }
    }
}

/// The position of the first item of `items` that carries `key`.
pub fn find_keyed<T: Keyed>(items: &Vec<T>, key: &str) -> (r: Option<usize>)
    ensures
        r matches Some(i) ==> first_keyed_at(items@, key@, i as int),
        r is None <==> !holds_key(items@, key@),
{
    let mut i: usize = 0;
    while i < items.len()
        invariant
            i <= items.len(),
            forall|j: int| 0 <= j < i ==> !#[trigger] keyed_at(items@, key@, j),
        decreases items.len() - i,
    {
        if str_eq(items[i].key(), key) {
            assert(keyed_at(items@, key@, i as int));
            return Some(i);
        }
        i += 1;
    }
    None
}

/// The position of the first item of `items` that carries `key`; where none does, the
/// lookup is refused with `refusal`.
pub fn locate_keyed<T: Keyed>(items: &Vec<T>, key: &str, refusal: &str) -> (r: Result<usize, McpError>)
    ensures
        r is Err <==> !holds_key(items@, key@),
        r matches Ok(i) ==> first_keyed_at(items@, key@, i as int),
        r matches Err(e) ==> invalid_with(e, refusal@),
{
    match find_keyed(items, key) {
        Some(i) => Ok(i),
        None => Err(invalid(refusal)),
    }
}

/// The position of scene `scene_id` in the project.
pub fn locate_scene(project: &ProjectContents, scene_id: &str) -> (r: Result<usize, McpError>)
    ensures
        r is Err <==> !holds_key(project.scene_ids@, scene_id@),
        r matches Ok(i) ==> first_keyed_at(project.scene_ids@, scene_id@, i as int),
        r matches Err(e) ==> invalid_with(e, "unknown creative scene"@),
{
    locate_keyed(&project.scene_ids, scene_id, "unknown creative scene")
}

/// The position of game `game_id` in the project.
pub fn locate_game(project: &ProjectContents, game_id: &str) -> (r: Result<usize, McpError>)
    ensures
        r is Err <==> !holds_key(project.games@, game_id@),
        r matches Ok(i) ==> first_keyed_at(project.games@, game_id@, i as int),
        r matches Err(e) ==> invalid_with(e, "unknown creative game"@),
{
    locate_keyed(&project.games, game_id, "unknown creative game")
}

/// The position of audio plan `audio_plan_id` in the project.
pub fn locate_audio_plan(project: &ProjectContents, audio_plan_id: &str) -> (r: Result<usize, McpError>)
    ensures
        r is Err <==> !holds_key(project.audio_plans@, audio_plan_id@),
        r matches Ok(i) ==> first_keyed_at(project.audio_plans@, audio_plan_id@, i as int),
        r matches Err(e) ==> invalid_with(e, "unknown creative audio plan"@),
{
    locate_keyed(&project.audio_plans, audio_plan_id, "unknown creative audio plan")
}

/// Replaces the first item of `items` that carries the key of `item`, or appends
/// `item` where none does; an append into a full collection is refused with `refusal`.
pub fn upsert_keyed<T: Keyed>(items: &mut Vec<T>, item: T, capacity: usize, refusal: &str)
    -> (r: Result<(), McpError>)
    ensures
        r is Err <==> upsert_refused(old(items)@, item, capacity as int),
        r matches Err(e) ==> invalid_with(e, refusal@),
        r is Ok ==> final(items)@ == upserted(old(items)@, item),
        r is Err ==> final(items)@ == old(items)@,
{
    let found = find_keyed(items, item.key());
    match found {
        Some(i) => {
            proof {
                lemma_first_index(old(items)@, item.key_view());
            }
            items.set(i, item);
            Ok(())
        },
        None => {
            if items.len() >= capacity {
                return Err(invalid(refusal));
            }
            items.push(item);
            Ok(())
        },
    }
}

/// Which collection of a project an update touches.
#[derive(Clone, Copy, Debug, PartialEq, Eq)]
pub enum ProjectPart {
    Scenes,
    Games,
    AudioPlans,
    QaFindings,
}

/// `a` and `b` agree on every field but the collection `part`.
pub open spec fn same_outside(a: ProjectContents, b: ProjectContents, part: ProjectPart) -> bool {
    &&& a.schema_version == b.schema_version
    &&& a.project_id == b.project_id
    &&& a.title == b.title
    &&& a.intent == b.intent
    &&& a.tracks == b.tracks
    &&& a.target == b.target
    &&& a.elements == b.elements
    &&& a.assets == b.assets
    &&& a.graph_ids == b.graph_ids
    &&& a.job_ids == b.job_ids
    &&& (part != ProjectPart::Scenes ==> a.scene_ids == b.scene_ids)
    &&& (part != ProjectPart::Games ==> a.games == b.games)
    &&& (part != ProjectPart::AudioPlans ==> a.audio_plans == b.audio_plans)
    &&& (part != ProjectPart::QaFindings ==> a.qa_findings == b.qa_findings)
}

/// Records a scene identifier in the project, where it is not there yet.
pub fn upsert_scene(project: &mut ProjectContents, scene_id: String) -> (r: Result<(), McpError>)
    ensures
        r is Err <==> upsert_refused(old(project).scene_ids@, scene_id, MAX_PROJECT_SCENES as int),
        r matches Err(e) ==> invalid_with(e, "creative scene capacity reached"@),
        r is Ok ==> final(project).scene_ids@ == upserted(old(project).scene_ids@, scene_id),
        r is Err ==> final(project).scene_ids@ == old(project).scene_ids@,
        same_outside(*old(project), *final(project), ProjectPart::Scenes),
{
    upsert_keyed(&mut project.scene_ids, scene_id, MAX_PROJECT_SCENES, "creative scene capacity reached")
}

/// Replaces the game with the same identifier, or adds the game.
pub fn upsert_game(project: &mut ProjectContents, game: GameManifest) -> (r: Result<(), McpError>)
    ensures
        r is Err <==> upsert_refused(old(project).games@, game, MAX_PROJECT_GAMES as int),
        r matches Err(e) ==> invalid_with(e, "creative game capacity reached"@),
        r is Ok ==> final(project).games@ == upserted(old(project).games@, game),
        r is Err ==> final(project).games@ == old(project).games@,
        same_outside(*old(project), *final(project), ProjectPart::Games),
{
    upsert_keyed(&mut project.games, game, MAX_PROJECT_GAMES, "creative game capacity reached")
}

/// Replaces the audio plan with the same identifier, or adds the plan.
pub fn upsert_audio_plan(project: &mut ProjectContents, audio_plan: AudioPlan) -> (r: Result<(), McpError>)
    ensures
        r is Err <==> upsert_refused(old(project).audio_plans@, audio_plan, MAX_PROJECT_AUDIO_PLANS as int),
        r matches Err(e) ==> invalid_with(e, "creative audio-plan capacity reached"@),
        r is Ok ==> final(project).audio_plans@ == upserted(old(project).audio_plans@, audio_plan),
        r is Err ==> final(project).audio_plans@ == old(project).audio_plans@,
        same_outside(*old(project), *final(project), ProjectPart::AudioPlans),
{
    upsert_keyed(
        &mut project.audio_plans,
        audio_plan,
        MAX_PROJECT_AUDIO_PLANS,
        "creative audio-plan capacity reached",
    )
}

/// Appends a QA finding whose identifier is new; a repeated identifier and a full
/// list are refused.
pub fn add_qa_finding(project: &mut ProjectContents, finding: QaFindingEntry) -> (r: Result<(), McpError>)
    ensures
        r is Err <==> (holds_key(old(project).qa_findings@, finding.key_view())
            || old(project).qa_findings@.len() >= MAX_QA_FINDINGS),
        r matches Err(e) ==> invalid_with(e, if holds_key(old(project).qa_findings@, finding.key_view()) {
            "creative QA finding identity already exists"@
        } else {
            "creative QA finding capacity reached"@
        }),
        r is Ok ==> final(project).qa_findings@ == old(project).qa_findings@.push(finding),
        r is Err ==> final(project).qa_findings@ == old(project).qa_findings@,
        same_outside(*old(project), *final(project), ProjectPart::QaFindings),
{
    if find_keyed(&project.qa_findings, finding.key()).is_some() {
        return Err(invalid("creative QA finding identity already exists"));
    }
    if project.qa_findings.len() >= MAX_QA_FINDINGS {
        return Err(invalid("creative QA finding capacity reached"));
    }
    project.qa_findings.push(finding);
    Ok(())
}

/// After an insert-or-replace, a lookup by the item's key finds the item itself.
pub proof fn law_upsert_then_lookup<T: Keyed>(s: Seq<T>, item: T)
    ensures
        holds_key(upserted(s, item), item.key_view()),
        upserted(s, item)[first_index(upserted(s, item), item.key_view())] == item,
{
    let key = item.key_view();
    let u = upserted(s, item);
    if holds_key(s, key) {
        lemma_first_index(s, key);
        let f = first_index(s, key);
        assert(keyed_at(u, key, f));
        lemma_first_index(u, key);
        assert(first_keyed_at(u, key, f)) by {
            assert forall|j: int| 0 <= j < f implies !#[trigger] keyed_at(u, key, j) by {
                assert(!keyed_at(s, key, j));
            }
        }
    } else {
        let n = s.len() as int;
        assert(keyed_at(u, key, n));
        lemma_first_index(u, key);
        assert(first_keyed_at(u, key, n)) by {
            assert forall|j: int| 0 <= j < n implies !#[trigger] keyed_at(u, key, j) by {
                assert(!keyed_at(s, key, j));
            }
        }
    }
}

/// Writing the same item twice leaves the collection as writing it once.
pub proof fn law_upsert_idempotent<T: Keyed>(s: Seq<T>, item: T)
    ensures
        upserted(upserted(s, item), item) == upserted(s, item),
{
    let key = item.key_view();
    let u = upserted(s, item);
    law_upsert_then_lookup(s, item);
    lemma_first_index(u, key);
    assert(u.update(first_index(u, key), item) =~= u);
}

/// An insert-or-replace leaves every item with another key where it was, and grows
/// the collection by one exactly when the key was new.
pub proof fn law_upsert_keeps_other_keys<T: Keyed>(s: Seq<T>, item: T)
    ensures
        forall|i: int| 0 <= i < s.len() && s[i].key_view() != item.key_view()
            ==> #[trigger] upserted(s, item)[i] == s[i],
        upserted(s, item).len() == if holds_key(s, item.key_view()) { s.len() } else { s.len() + 1 },
{
    if holds_key(s, item.key_view()) {
        lemma_first_index(s, item.key_view());
    }
}

/// Once a finding is added, another finding with its identifier is refused.
pub proof fn law_added_finding_blocks_its_identifier(s: Seq<QaFindingEntry>, finding: QaFindingEntry)
    ensures
        holds_key(s.push(finding), finding.key_view()),
{
    assert(keyed_at(s.push(finding), finding.key_view(), s.len() as int));
}

} // verus!
