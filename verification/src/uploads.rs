use vstd::prelude::*;
use crate::error::{invalid, invalid_with, McpError};
use crate::ingest::{is_valid_ticket, validate_ticket, ticket_refusal, UploadTicket, UploadReceipt};
use crate::order::{lex_lt, lemma_lex_total, lemma_lex_transitive, lemma_lex_irreflexive, str_lt};
use crate::text::{is_valid_id, validate_id, str_eq, id_rule};
use crate::outside::now_ms;

verus! {

broadcast use vstd::seq_lib::group_seq_properties;

pub const MAX_UPLOAD_TICKETS_PER_PROJECT: usize = 512;

/// The upload index of one project: its tickets, in ascending order of identity.
#[derive(Debug)]
pub struct ProjectUploads {
    pub project_id: String,
    pub tickets: Vec<UploadTicket>,
}

/// A receipt as the store files it: under the project and ticket of the file that holds
/// it. The receipt's own identities should repeat them; a load refuses one that does not.
#[derive(Debug)]
pub struct FiledReceipt {
    pub project_id: String,
    pub ticket_id: String,
    pub receipt: UploadReceipt,
}

/// The upload records of a workspace: each project's index, in the order of the
/// workspace's project index, and the filed receipts of received uploads.
#[derive(Debug)]
pub struct UploadStore {
    pub projects: Vec<ProjectUploads>,
    pub receipts: Vec<FiledReceipt>,
}

/// The tickets are strictly ascending by identity.
pub open spec fn tickets_sorted(ts: Seq<UploadTicket>) -> bool {
    forall|i: int, j: int| 0 <= i < j < ts.len() ==> lex_lt((#[trigger] ts[i]).ticket_id@, (#[trigger] ts[j]).ticket_id@)
}

/// A project index as the store keeps it: ascending, within capacity, all of the project.
pub open spec fn project_wf(p: ProjectUploads) -> bool {
    &&& p.tickets@.len() <= MAX_UPLOAD_TICKETS_PER_PROJECT
    &&& tickets_sorted(p.tickets@)
    &&& forall|i: int| 0 <= i < p.tickets@.len() ==> (#[trigger] p.tickets@[i]).project_id@ == p.project_id@
}

/// Every project index is well formed and no project appears twice.
pub open spec fn store_wf(s: UploadStore) -> bool {
    &&& forall|i: int| 0 <= i < s.projects@.len() ==> project_wf(#[trigger] s.projects@[i])
    &&& forall|i: int| 0 <= i < s.receipts@.len() ==> is_storable_receipt((#[trigger] s.receipts@[i]).receipt)
    &&& forall|i: int, j: int| 0 <= i < j < s.projects@.len() ==> (#[trigger] s.projects@[i]).project_id@ != (#[trigger] s.projects@[j]).project_id@
}

/// The position of the project `id`, if the store holds it.
pub open spec fn project_index(ps: Seq<ProjectUploads>, id: Seq<char>) -> Option<int> {
    if exists|i: int| 0 <= i < ps.len() && (#[trigger] ps[i]).project_id@ == id {
        Some(choose|i: int| 0 <= i < ps.len() && (#[trigger] ps[i]).project_id@ == id)
    } else {
        None
    }
}

/// The first ticket with identity `id` in a list of tickets, if any.
pub open spec fn ticket_in(ts: Seq<UploadTicket>, id: Seq<char>) -> Option<UploadTicket>
    decreases ts.len(),
{
    if ts.len() == 0 {
        None
    } else if ts[0].ticket_id@ == id {
        Some(ts[0])
    } else {
        ticket_in(ts.drop_first(), id)
    }
}

proof fn lemma_ticket_in_first(ts: Seq<UploadTicket>, k: int)
    requires
        0 <= k < ts.len(),
        forall|j: int| 0 <= j < k ==> (#[trigger] ts[j]).ticket_id@ != ts[k].ticket_id@,
    ensures
        ticket_in(ts, ts[k].ticket_id@) == Some(ts[k]),
    decreases k,
{
    if k > 0 {
        assert forall|j: int| 0 <= j < k - 1 implies (#[trigger] ts.drop_first()[j]).ticket_id@ != ts.drop_first()[k - 1].ticket_id@ by {
            assert(ts.drop_first()[j] == ts[j + 1]);
        }
        lemma_ticket_in_first(ts.drop_first(), k - 1);
    }
}

proof fn lemma_ticket_in_none(ts: Seq<UploadTicket>, id: Seq<char>)
    requires
        forall|j: int| 0 <= j < ts.len() ==> (#[trigger] ts[j]).ticket_id@ != id,
    ensures
        ticket_in(ts, id) is None,
    decreases ts.len(),
{
    if ts.len() > 0 {
        assert forall|j: int| 0 <= j < ts.len() - 1 implies (#[trigger] ts.drop_first()[j]).ticket_id@ != id by {
            assert(ts.drop_first()[j] == ts[j + 1]);
        }
        lemma_ticket_in_none(ts.drop_first(), id);
    }
}

proof fn lemma_ticket_in_some(ts: Seq<UploadTicket>, id: Seq<char>)
    requires
        ticket_in(ts, id) is Some,
    ensures
        exists|j: int| 0 <= j < ts.len() && (#[trigger] ts[j]).ticket_id@ == id && ts[j] == ticket_in(ts, id)->0,
    decreases ts.len(),
{
    if ts[0].ticket_id@ != id {
        lemma_ticket_in_some(ts.drop_first(), id);
        let j = choose|j: int| 0 <= j < ts.drop_first().len() && (#[trigger] ts.drop_first()[j]).ticket_id@ == id && ts.drop_first()[j] == ticket_in(ts.drop_first(), id)->0;
        assert(ts[j + 1] == ts.drop_first()[j]);
    } else {
        assert(ts[0].ticket_id@ == id);
    }
}

/// A field-by-field copy of a ticket.
pub fn copy_ticket(t: &UploadTicket) -> (c: UploadTicket)
    ensures
        c == *t,
{
    UploadTicket {
        schema_version: t.schema_version,
        source: t.source,
        ticket_id: t.ticket_id.clone(),
        project_id: t.project_id.clone(),
        owner: t.owner.clone(),
        media_type: t.media_type.clone(),
        role: t.role.clone(),
        filename: t.filename.clone(),
        max_bytes: t.max_bytes,
        expires_at_ms: t.expires_at_ms,
        used_at_ms: t.used_at_ms,
        token_sha256: t.token_sha256.clone(),
        created_at_ms: t.created_at_ms,
    }
}

/// A field-by-field copy of a receipt.
pub fn copy_receipt(r: &UploadReceipt) -> (c: UploadReceipt)
    ensures
        c == *r,
{
    UploadReceipt {
        ticket_id: r.ticket_id.clone(),
        project_id: r.project_id.clone(),
        relative_path: r.relative_path.clone(),
        bytes: r.bytes,
        media_type: r.media_type.clone(),
        completed_at_ms: r.completed_at_ms,
        asset_id: match &r.asset_id {
            Some(a) => Some(a.clone()),
            None => None,
        },
    }
}

/// The position of project `id` in the store.
fn find_project(ps: &Vec<ProjectUploads>, id: &str) -> (r: Option<usize>)
    ensures
        match r {
            Some(i) => i < ps.len() && ps@[i as int].project_id@ == id@,
            None => forall|i: int| 0 <= i < ps.len() ==> (#[trigger] ps@[i]).project_id@ != id@,
        },
{
    let mut i: usize = 0;
    while i < ps.len()
        invariant
            i <= ps.len(),
            forall|k: int| 0 <= k < i ==> (#[trigger] ps@[k]).project_id@ != id@,
        decreases ps.len() - i,
    {
        if str_eq(ps[i].project_id.as_str(), id) {
            return Some(i);
        }
        i += 1;
    }
    None
}

/// The first position whose ticket does not order strictly before `id`.
fn ticket_slot(ts: &Vec<UploadTicket>, id: &str) -> (r: usize)
    requires
        tickets_sorted(ts@),
    ensures
        r <= ts.len(),
        forall|k: int| 0 <= k < r ==> lex_lt((#[trigger] ts@[k]).ticket_id@, id@),
        r < ts.len() ==> !lex_lt(ts@[r as int].ticket_id@, id@),
{
    let mut i: usize = 0;
    while i < ts.len() && str_lt(ts[i].ticket_id.as_str(), id)
        invariant
            i <= ts.len(),
            forall|k: int| 0 <= k < i ==> lex_lt((#[trigger] ts@[k]).ticket_id@, id@),
        decreases ts.len() - i,
    {
        i += 1;
    }
    i
}

proof fn lemma_slot_lookup(ts: Seq<UploadTicket>, id: Seq<char>, r: int)
    requires
        tickets_sorted(ts),
        0 <= r <= ts.len(),
        forall|k: int| 0 <= k < r ==> lex_lt((#[trigger] ts[k]).ticket_id@, id),
        r < ts.len() ==> !lex_lt(ts[r].ticket_id@, id),
    ensures
        (r < ts.len() && ts[r].ticket_id@ == id) ==> ticket_in(ts, id) == Some(ts[r]),
        !(r < ts.len() && ts[r].ticket_id@ == id) ==> ticket_in(ts, id) is None,
        forall|k: int| r <= k < ts.len() && ts[k].ticket_id@ != id ==> lex_lt(id, (#[trigger] ts[k]).ticket_id@),
{
    assert forall|k: int| r <= k < ts.len() && ts[k].ticket_id@ != id implies lex_lt(id, (#[trigger] ts[k]).ticket_id@) by {
        lemma_lex_total(ts[r].ticket_id@, id);
        if k > r {
            if ts[r].ticket_id@ == id {
            } else {
                lemma_lex_transitive(id, ts[r].ticket_id@, ts[k].ticket_id@);
            }
        }
    }
    assert forall|k: int| 0 <= k < r implies (#[trigger] ts[k]).ticket_id@ != id by {
        lemma_lex_irreflexive(id);
    }
    if r < ts.len() && ts[r].ticket_id@ == id {
        lemma_ticket_in_first(ts, r);
    } else {
        assert forall|k: int| 0 <= k < ts.len() implies (#[trigger] ts[k]).ticket_id@ != id by {
            if k >= r {
                lemma_lex_irreflexive(id);
            }
        }
        lemma_ticket_in_none(ts, id);
    }
}

} // verus!

verus! {

proof fn lemma_ticket_in_at(ts: Seq<UploadTicket>, k: int)
    requires
        tickets_sorted(ts),
        0 <= k < ts.len(),
    ensures
        ticket_in(ts, ts[k].ticket_id@) == Some(ts[k]),
{
    assert forall|j: int| 0 <= j < k implies (#[trigger] ts[j]).ticket_id@ != ts[k].ticket_id@ by {
        assert(lex_lt(ts[j].ticket_id@, ts[k].ticket_id@));
        lemma_lex_irreflexive(ts[k].ticket_id@);
    }
    lemma_ticket_in_first(ts, k);
}

/// The tickets that `store_upload_ticket` leaves: `ticket` under its identity, the rest as before.
pub open spec fn upserted(old_ts: Seq<UploadTicket>, new_ts: Seq<UploadTicket>, ticket: UploadTicket) -> bool {
    &&& ticket_in(new_ts, ticket.ticket_id@) == Some(ticket)
    &&& forall|x: Seq<char>| x != ticket.ticket_id@ ==> #[trigger] ticket_in(new_ts, x) == ticket_in(old_ts, x)
    &&& new_ts.len() == old_ts.len() + if ticket_in(old_ts, ticket.ticket_id@) is Some { 0int } else { 1int }
}

/// Whether `store_upload_ticket` refuses `ticket` at time `now`.
pub open spec fn ticket_store_refused(s: UploadStore, ticket: UploadTicket, now: u128) -> bool {
    ||| !is_valid_ticket(ticket, now)
    ||| project_index(s.projects@, ticket.project_id@) is None
    ||| ({
        let p = project_index(s.projects@, ticket.project_id@)->0;
        ticket_in(s.projects@[p].tickets@, ticket.ticket_id@) is None
            && s.projects@[p].tickets@.len() >= MAX_UPLOAD_TICKETS_PER_PROJECT
    })
}

/// `after` is `before` with `ticket` stored in its project's index.
pub open spec fn ticket_stored(before: UploadStore, after: UploadStore, ticket: UploadTicket) -> bool {
    let p = project_index(before.projects@, ticket.project_id@)->0;
    &&& after.receipts@ == before.receipts@
    &&& after.projects@.len() == before.projects@.len()
    &&& forall|i: int| 0 <= i < before.projects@.len() && i != p ==> #[trigger] after.projects@[i] == before.projects@[i]
    &&& after.projects@[p].project_id@ == before.projects@[p].project_id@
    &&& upserted(before.projects@[p].tickets@, after.projects@[p].tickets@, ticket)
}

proof fn lemma_project_index(ps: Seq<ProjectUploads>, i: int)
    requires
        forall|a: int, b: int| 0 <= a < b < ps.len() ==> (#[trigger] ps[a]).project_id@ != (#[trigger] ps[b]).project_id@,
        0 <= i < ps.len(),
    ensures
        project_index(ps, ps[i].project_id@) == Some(i),
{
}

/// The message of a missing state file, which is how an unknown project shows.
pub open spec fn missing_state() -> Seq<char> {
    "path does not exist or is inaccessible"@
}

/// Why `store_upload_ticket_at` refuses a ticket, in the order it checks.
pub open spec fn store_refusal(s: UploadStore, ticket: UploadTicket, now: u128) -> Seq<char> {
    if !is_valid_ticket(ticket, now) {
        ticket_refusal(ticket)
    } else if project_index(s.projects@, ticket.project_id@) is None {
        missing_state()
    } else {
        "creative upload ticket capacity reached"@
    }
}

/// Stores a ticket in its project's upload index at time `now`: replaces the ticket of
/// the same identity, or adds it in order where the index has room.
pub fn store_upload_ticket_at(store: &mut UploadStore, ticket: &UploadTicket, now: u128) -> (r: Result<(), McpError>)
    requires
        store_wf(*old(store)),
    ensures
        store_wf(*final(store)),
        r is Err <==> ticket_store_refused(*old(store), *ticket, now),
        r is Err ==> *final(store) == *old(store),
        r matches Err(e) ==> invalid_with(e, store_refusal(*old(store), *ticket, now)),
        r is Ok ==> ticket_stored(*old(store), *final(store), *ticket),
{
    match validate_ticket(ticket, now) {
        Ok(()) => {},
        Err(e) => { return Err(e); },
    }
    let p = match find_project(&store.projects, ticket.project_id.as_str()) {
        Some(p) => p,
        None => {
            return Err(invalid("path does not exist or is inaccessible"));
        },
    };
    proof {
        lemma_project_index(store.projects@, p as int);
    }
    let slot = ticket_slot(&store.projects[p].tickets, ticket.ticket_id.as_str());
    let ghost old_ts = store.projects@[p as int].tickets@;
    proof {
        lemma_slot_lookup(old_ts, ticket.ticket_id@, slot as int);
    }
    let present = slot < store.projects[p].tickets.len() && str_eq(store.projects[p].tickets[slot].ticket_id.as_str(), ticket.ticket_id.as_str());
    if !present && store.projects[p].tickets.len() >= MAX_UPLOAD_TICKETS_PER_PROJECT {
        return Err(invalid("creative upload ticket capacity reached"));
    }
    let ghost old_store = *store;
    let mut projects: Vec<ProjectUploads> = Vec::new();
    core::mem::swap(&mut projects, &mut store.projects);
    let mut project = projects.remove(p);
    let copy = copy_ticket(ticket);
    if present {
        project.tickets.set(slot, copy);
    } else {
        project.tickets.insert(slot, copy);
    }
    let ghost new_ts = project.tickets@;
    proof {
        assert(tickets_sorted(new_ts)) by {
            assert forall|i: int, j: int| 0 <= i < j < new_ts.len() implies lex_lt((#[trigger] new_ts[i]).ticket_id@, (#[trigger] new_ts[j]).ticket_id@) by {
                if present {
                    if i == slot {
                        assert(old_ts[i].ticket_id@ == ticket.ticket_id@);
                    } else if j == slot {
                        assert(old_ts[j].ticket_id@ == ticket.ticket_id@);
                    }
                } else {
                    if i < slot && j == slot {
                    } else if i < slot && j > slot {
                        assert(new_ts[j] == old_ts[j - 1]);
                        assert(lex_lt(old_ts[i].ticket_id@, old_ts[j - 1].ticket_id@));
                    } else if i == slot && j > slot {
                        assert(new_ts[j] == old_ts[j - 1]);
                    } else if i > slot {
                        assert(new_ts[i] == old_ts[i - 1] && new_ts[j] == old_ts[j - 1]);
                    }
                }
            }
        }
        assert(project_wf(project)) by {
            assert forall|i: int| 0 <= i < new_ts.len() implies (#[trigger] new_ts[i]).project_id@ == project.project_id@ by {
                if present {
                    if i != slot {
                        assert(new_ts[i] == old_ts[i]);
                    }
                } else if i < slot {
                    assert(new_ts[i] == old_ts[i]);
                } else if i > slot {
                    assert(new_ts[i] == old_ts[i - 1]);
                }
            }
        }
        lemma_ticket_in_at(new_ts, slot as int);
        assert forall|x: Seq<char>| x != ticket.ticket_id@ implies #[trigger] ticket_in(new_ts, x) == ticket_in(old_ts, x) by {
            if exists|i: int| 0 <= i < old_ts.len() && (#[trigger] old_ts[i]).ticket_id@ == x {
                let i = choose|i: int| 0 <= i < old_ts.len() && (#[trigger] old_ts[i]).ticket_id@ == x;
                lemma_ticket_in_at(old_ts, i);
                let k = if present || i < slot { i } else { i + 1 };
                assert(new_ts[k] == old_ts[i]);
                lemma_ticket_in_at(new_ts, k);
            } else {
                assert forall|k: int| 0 <= k < new_ts.len() implies (#[trigger] new_ts[k]).ticket_id@ != x by {
                    if k != slot {
                        let i = if present || k < slot { k } else { k - 1 };
                        assert(new_ts[k] == old_ts[i]);
                    }
                }
                lemma_ticket_in_none(new_ts, x);
                lemma_ticket_in_none(old_ts, x);
            }
        }
    }
    projects.insert(p, project);
    core::mem::swap(&mut projects, &mut store.projects);
    proof {
        assert(store.projects@ =~= old_store.projects@.update(p as int, project));
        assert forall|i: int, j: int| 0 <= i < j < store.projects@.len() implies (#[trigger] store.projects@[i]).project_id@ != (#[trigger] store.projects@[j]).project_id@ by {
            assert(old_store.projects@[i].project_id@ != old_store.projects@[j].project_id@);
        }
    }
    Ok(())
}

/// `store_upload_ticket_at` at time `now` refuses exactly where `refused` says.
pub open spec fn store_refused_at(before: UploadStore, ticket: UploadTicket, now: u128, refused: bool) -> bool {
    refused <==> ticket_store_refused(before, ticket, now)
}

/// Stores a ticket at the current time: the outcome is that of `store_upload_ticket_at`
/// at the time read from the clock.
pub fn store_upload_ticket(store: &mut UploadStore, ticket: &UploadTicket) -> (r: Result<(), McpError>)
    requires
        store_wf(*old(store)),
    ensures
        store_wf(*final(store)),
        r is Err ==> *final(store) == *old(store),
        r is Ok ==> ticket_stored(*old(store), *final(store), *ticket),
        r is Ok ==> exists|now: u128| !ticket_store_refused(*old(store), *ticket, now),
        (forall|now: u128| ticket_store_refused(*old(store), *ticket, now)) ==> r is Err,
        exists|now: u128| #[trigger] store_refused_at(*old(store), *ticket, now, r is Err),
{
    let now = now_ms();
    let r = store_upload_ticket_at(store, ticket, now);
    proof {
        assert(store_refused_at(*old(store), *ticket, now, r is Err));
    }
    r
}

} // verus!

verus! {

/// The ticket `id` as the store finds it: in the first project, in index order, whose
/// index holds it.
pub open spec fn lookup_ticket(ps: Seq<ProjectUploads>, id: Seq<char>) -> Option<UploadTicket>
    decreases ps.len(),
{
    if ps.len() == 0 {
        None
    } else if ticket_in(ps[0].tickets@, id) is Some {
        ticket_in(ps[0].tickets@, id)
    } else {
        lookup_ticket(ps.drop_first(), id)
    }
}

/// The ticket `id` in one project's index.
fn find_ticket(ts: &Vec<UploadTicket>, id: &str) -> (r: Option<usize>)
    ensures
        match r {
            Some(i) => i < ts.len() && ticket_in(ts@, id@) == Some(ts@[i as int]),
            None => ticket_in(ts@, id@) is None,
        },
{
    let mut i: usize = 0;
    while i < ts.len()
        invariant
            i <= ts.len(),
            forall|k: int| 0 <= k < i ==> (#[trigger] ts@[k]).ticket_id@ != id@,
        decreases ts.len() - i,
    {
        if str_eq(ts[i].ticket_id.as_str(), id) {
            proof {
                lemma_ticket_in_first(ts@, i as int);
            }
            return Some(i);
        }
        i += 1;
    }
    proof {
        lemma_ticket_in_none(ts@, id@);
    }
    None
}

/// Why `load_upload_ticket_at` refuses, in the order it checks.
pub open spec fn ticket_load_refusal(store: UploadStore, ticket_id: Seq<char>) -> Seq<char> {
    if !is_valid_id(ticket_id) {
        "upload ticket id"@ + id_rule()
    } else {
        match lookup_ticket(store.projects@, ticket_id) {
            None => "unknown creative upload ticket"@,
            Some(t) => ticket_refusal(t),
        }
    }
}

/// Loads the ticket `ticket_id` from the first project that holds it, checking it
/// against the clock `now`.
pub fn load_upload_ticket_at(store: &UploadStore, ticket_id: &str, now: u128) -> (r: Result<UploadTicket, McpError>)
    ensures
        r is Ok <==> (is_valid_id(ticket_id@) && (lookup_ticket(store.projects@, ticket_id@) matches Some(t) && is_valid_ticket(t, now))),
        r matches Ok(t) ==> lookup_ticket(store.projects@, ticket_id@) == Some(t),
        r matches Err(e) ==> invalid_with(e, ticket_load_refusal(*store, ticket_id@)),
{
    match validate_id(ticket_id, "upload ticket id") {
        Ok(()) => {},
        Err(e) => { return Err(e); },
    }
    let mut i: usize = 0;
    while i < store.projects.len()
        invariant
            i <= store.projects.len(),
            is_valid_id(ticket_id@),
            lookup_ticket(store.projects@, ticket_id@) == lookup_ticket(store.projects@.skip(i as int), ticket_id@),
        decreases store.projects.len() - i,
    {
        let ghost rest = store.projects@.skip(i as int);
        assert(rest[0] == store.projects@[i as int]);
        assert(rest.drop_first() =~= store.projects@.skip(i + 1));
        match find_ticket(&store.projects[i].tickets, ticket_id) {
            Some(k) => {
                let t = copy_ticket(&store.projects[i].tickets[k]);
                assert(lookup_ticket(rest, ticket_id@) == ticket_in(rest[0].tickets@, ticket_id@));
                match validate_ticket(&t, now) {
                    Ok(()) => {},
                    Err(e) => { return Err(e); },
                }
                return Ok(t);
            },
            None => {},
        }
        i += 1;
    }
    assert(store.projects@.skip(store.projects.len() as int).len() == 0);
    Err(invalid("unknown creative upload ticket"))
}

/// Whether `load_upload_ticket_at` finds the ticket `ticket_id` at time `now`.
pub open spec fn ticket_loadable_at(store: UploadStore, ticket_id: Seq<char>, now: u128, found: bool) -> bool {
    found <==> (is_valid_id(ticket_id) && (lookup_ticket(store.projects@, ticket_id) matches Some(t) && is_valid_ticket(t, now)))
}

/// Loads a ticket at the current time: the outcome is that of `load_upload_ticket_at`
/// at the time read from the clock.
pub fn load_upload_ticket(store: &UploadStore, ticket_id: &str) -> (r: Result<UploadTicket, McpError>)
    ensures
        r matches Ok(t) ==> lookup_ticket(store.projects@, ticket_id@) == Some(t),
        !is_valid_id(ticket_id@) || lookup_ticket(store.projects@, ticket_id@) is None ==> r is Err,
        exists|now: u128| #[trigger] ticket_loadable_at(*store, ticket_id@, now, r is Ok),
{
    let now = now_ms();
    let r = load_upload_ticket_at(store, ticket_id, now);
    proof {
        assert(ticket_loadable_at(*store, ticket_id@, now, r is Ok));
    }
    r
}

/// The store holds project `project_id` and each of its tickets is valid at `now`.
pub open spec fn project_listable(store: UploadStore, project_id: Seq<char>, now: u128) -> bool {
    match project_index(store.projects@, project_id) {
        Some(p) => forall|k: int| 0 <= k < store.projects@[p].tickets@.len() ==> is_valid_ticket(#[trigger] store.projects@[p].tickets@[k], now),
        None => false,
    }
}

/// Why a listing of project `project_id` is refused: the project is unknown, or one of
/// its tickets is not valid.
pub open spec fn listing_refusal(store: UploadStore, project_id: Seq<char>) -> Seq<char> {
    if project_index(store.projects@, project_id) is None {
        missing_state()
    } else {
        "creative upload ticket is invalid"@
    }
}

/// The tickets of project `project_id`, in index order, each checked against `now`.
pub fn list_upload_tickets_at(store: &UploadStore, project_id: &str, now: u128) -> (r: Result<Vec<UploadTicket>, McpError>)
    requires
        store_wf(*store),
    ensures
        r is Ok <==> project_listable(*store, project_id@, now),
        r matches Ok(ts) ==> ts@ == store.projects@[project_index(store.projects@, project_id@)->0].tickets@,
        r matches Err(e) ==> e is InvalidRequest,
        r matches Err(e) ==> invalid_with(e, listing_refusal(*store, project_id@)),
        project_index(store.projects@, project_id@) is None ==> (r matches Err(e) && invalid_with(e, missing_state())),
{
    let p = match find_project(&store.projects, project_id) {
        Some(p) => p,
        None => {
            return Err(invalid("path does not exist or is inaccessible"));
        },
    };
    proof {
        lemma_project_index(store.projects@, p as int);
    }
    let ts = &store.projects[p].tickets;
    let mut out: Vec<UploadTicket> = Vec::new();
    let mut k: usize = 0;
    while k < ts.len()
        invariant
            k <= ts.len(),
            p < store.projects.len(),
            ts@ == store.projects@[p as int].tickets@,
            project_index(store.projects@, project_id@) == Some(p as int),
            out@ == ts@.take(k as int),
            forall|j: int| 0 <= j < k ==> is_valid_ticket(#[trigger] ts@[j], now),
        decreases ts.len() - k,
    {
        if validate_ticket(&ts[k], now).is_err() {
            proof {
                let pp = project_index(store.projects@, project_id@)->0;
                assert(pp == p as int);
                assert(!is_valid_ticket(store.projects@[pp].tickets@[k as int], now));
                assert(!project_listable(*store, project_id@, now));
            }
            return Err(invalid("creative upload ticket is invalid"));
        }
        out.push(copy_ticket(&ts[k]));
        assert(ts@.take(k + 1) =~= ts@.take(k as int).push(ts@[k as int]));
        k += 1;
    }
    assert(ts@.take(ts.len() as int) =~= ts@);
    Ok(out)
}

/// Whether `list_upload_tickets_at` lists project `project_id` at time `now`.
pub open spec fn listable_at(store: UploadStore, project_id: Seq<char>, now: u128, listed: bool) -> bool {
    listed <==> project_listable(store, project_id, now)
}

/// Lists a project's tickets at the current time: the outcome is that of
/// `list_upload_tickets_at` at the time read from the clock.
pub fn list_upload_tickets(store: &UploadStore, project_id: &str) -> (r: Result<Vec<UploadTicket>, McpError>)
    requires
        store_wf(*store),
    ensures
        r matches Ok(ts) ==> project_index(store.projects@, project_id@) is Some
            && ts@ == store.projects@[project_index(store.projects@, project_id@)->0].tickets@,
        project_index(store.projects@, project_id@) is None ==> r is Err,
        exists|now: u128| #[trigger] listable_at(*store, project_id@, now, r is Ok),
{
    let now = now_ms();
    let r = list_upload_tickets_at(store, project_id, now);
    proof {
        assert(listable_at(*store, project_id@, now, r is Ok));
    }
    r
}

/// The receipt filed for ticket `ticket_id` of project `project_id`, the first one filed.
pub open spec fn receipt_for(rs: Seq<FiledReceipt>, project_id: Seq<char>, ticket_id: Seq<char>) -> Option<UploadReceipt>
    decreases rs.len(),
{
    if rs.len() == 0 {
        None
    } else if rs[0].project_id@ == project_id && rs[0].ticket_id@ == ticket_id {
        Some(rs[0].receipt)
    } else {
        receipt_for(rs.drop_first(), project_id, ticket_id)
    }
}

/// A receipt that `store_upload_receipt` accepts.
pub open spec fn is_storable_receipt(r: UploadReceipt) -> bool {
    is_valid_id(r.ticket_id@) && is_valid_id(r.project_id@) && r.bytes > 0 && r.media_type@.len() > 0 && r.relative_path@.len() > 0
}

proof fn lemma_receipt_first(rs: Seq<FiledReceipt>, k: int, p: Seq<char>, t: Seq<char>)
    requires
        0 <= k < rs.len(),
        rs[k].project_id@ == p && rs[k].ticket_id@ == t,
        forall|j: int| 0 <= j < k ==> !((#[trigger] rs[j]).project_id@ == p && rs[j].ticket_id@ == t),
    ensures
        receipt_for(rs, p, t) == Some(rs[k].receipt),
    decreases k,
{
    if k > 0 {
        assert forall|j: int| 0 <= j < k - 1 implies !((#[trigger] rs.drop_first()[j]).project_id@ == p && rs.drop_first()[j].ticket_id@ == t) by {
            assert(rs.drop_first()[j] == rs[j + 1]);
        }
        lemma_receipt_first(rs.drop_first(), k - 1, p, t);
    }
}

proof fn lemma_receipt_none(rs: Seq<FiledReceipt>, p: Seq<char>, t: Seq<char>)
    requires
        forall|j: int| 0 <= j < rs.len() ==> !((#[trigger] rs[j]).project_id@ == p && rs[j].ticket_id@ == t),
    ensures
        receipt_for(rs, p, t) is None,
    decreases rs.len(),
{
    if rs.len() > 0 {
        assert forall|j: int| 0 <= j < rs.len() - 1 implies !((#[trigger] rs.drop_first()[j]).project_id@ == p && rs.drop_first()[j].ticket_id@ == t) by {
            assert(rs.drop_first()[j] == rs[j + 1]);
        }
        lemma_receipt_none(rs.drop_first(), p, t);
    }
}

fn find_receipt(rs: &Vec<FiledReceipt>, project_id: &str, ticket_id: &str) -> (r: Option<usize>)
    ensures
        match r {
            Some(i) => i < rs.len() && receipt_for(rs@, project_id@, ticket_id@) == Some(rs@[i as int].receipt)
                && rs@[i as int].project_id@ == project_id@ && rs@[i as int].ticket_id@ == ticket_id@
                && forall|j: int| 0 <= j < i ==> !((#[trigger] rs@[j]).project_id@ == project_id@ && rs@[j].ticket_id@ == ticket_id@),
            None => receipt_for(rs@, project_id@, ticket_id@) is None,
        },
{
    let mut i: usize = 0;
    while i < rs.len()
        invariant
            i <= rs.len(),
            forall|j: int| 0 <= j < i ==> !((#[trigger] rs@[j]).project_id@ == project_id@ && rs@[j].ticket_id@ == ticket_id@),
        decreases rs.len() - i,
    {
        if str_eq(rs[i].project_id.as_str(), project_id) && str_eq(rs[i].ticket_id.as_str(), ticket_id) {
            proof {
                lemma_receipt_first(rs@, i as int, project_id@, ticket_id@);
            }
            return Some(i);
        }
        i += 1;
    }
    proof {
        lemma_receipt_none(rs@, project_id@, ticket_id@);
    }
    None
}

/// Files the receipt of an upload under its own project and ticket, replacing what was
/// filed there before.
pub fn store_upload_receipt(store: &mut UploadStore, receipt: &UploadReceipt) -> (r: Result<(), McpError>)
    requires
        store_wf(*old(store)),
    ensures
        store_wf(*final(store)),
        r is Ok <==> is_storable_receipt(*receipt),
        r matches Err(e) ==> invalid_with(e, if !is_valid_id(receipt.ticket_id@) {
            "upload ticket id"@ + id_rule()
        } else if !is_valid_id(receipt.project_id@) {
            "project_id"@ + id_rule()
        } else {
            "creative upload receipt is invalid"@
        }),
        r is Err ==> *final(store) == *old(store),
        final(store).projects@ == old(store).projects@,
        r is Ok ==> receipt_for(final(store).receipts@, receipt.project_id@, receipt.ticket_id@) == Some(*receipt),
        r is Ok ==> forall|p: Seq<char>, t: Seq<char>| !(p == receipt.project_id@ && t == receipt.ticket_id@)
            ==> #[trigger] receipt_for(final(store).receipts@, p, t) == receipt_for(old(store).receipts@, p, t),
{
    match validate_id(receipt.ticket_id.as_str(), "upload ticket id") {
        Err(e) => { return Err(e); },
        Ok(()) => {},
    }
    match validate_id(receipt.project_id.as_str(), "project_id") {
        Err(e) => { return Err(e); },
        Ok(()) => {},
    }
    if receipt.bytes == 0 || receipt.media_type.as_str().is_empty() || receipt.relative_path.as_str().is_empty() {
        return Err(invalid("creative upload receipt is invalid"));
    }
    let ghost old_rs = store.receipts@;
    let copy = FiledReceipt {
        project_id: receipt.project_id.clone(),
        ticket_id: receipt.ticket_id.clone(),
        receipt: copy_receipt(receipt),
    };
    let ghost filed = copy;
    match find_receipt(&store.receipts, receipt.project_id.as_str(), receipt.ticket_id.as_str()) {
        Some(i) => {
            store.receipts.set(i, copy);
            proof {
                let rs = store.receipts@;
                assert forall|j: int| 0 <= j < i implies !((#[trigger] rs[j]).project_id@ == receipt.project_id@ && rs[j].ticket_id@ == receipt.ticket_id@) by {
                    assert(rs[j] == old_rs[j]);
                }
                lemma_receipt_first(rs, i as int, receipt.project_id@, receipt.ticket_id@);
                assert forall|p: Seq<char>, t: Seq<char>| !(p == receipt.project_id@ && t == receipt.ticket_id@)
                    implies #[trigger] receipt_for(rs, p, t) == receipt_for(old_rs, p, t) by {
                    lemma_receipt_update_other(old_rs, i as int, filed, p, t);
                }
            }
        },
        None => {
            store.receipts.push(copy);
            proof {
                let rs = store.receipts@;
                assert forall|j: int| 0 <= j < old_rs.len() implies !((#[trigger] rs[j]).project_id@ == receipt.project_id@ && rs[j].ticket_id@ == receipt.ticket_id@) by {
                    assert(rs[j] == old_rs[j]);
                    if old_rs[j].project_id@ == receipt.project_id@ && old_rs[j].ticket_id@ == receipt.ticket_id@ {
                        lemma_receipt_first_any(old_rs, j, receipt.project_id@, receipt.ticket_id@);
                    }
                }
                lemma_receipt_first(rs, old_rs.len() as int, receipt.project_id@, receipt.ticket_id@);
                assert forall|p: Seq<char>, t: Seq<char>| !(p == receipt.project_id@ && t == receipt.ticket_id@)
                    implies #[trigger] receipt_for(rs, p, t) == receipt_for(old_rs, p, t) by {
                    lemma_receipt_push_other(old_rs, filed, p, t);
                }
            }
        },
    }
    Ok(())
}

pub proof fn lemma_receipt_found(rs: Seq<FiledReceipt>, p: Seq<char>, t: Seq<char>)
    requires
        receipt_for(rs, p, t) is Some,
    ensures
        exists|k: int| 0 <= k < rs.len() && rs[k].receipt == receipt_for(rs, p, t)->0
            && rs[k].project_id@ == p && rs[k].ticket_id@ == t,
    decreases rs.len(),
{
    if !(rs[0].project_id@ == p && rs[0].ticket_id@ == t) {
        lemma_receipt_found(rs.drop_first(), p, t);
        let k = choose|k: int| 0 <= k < rs.drop_first().len() && rs.drop_first()[k].receipt == receipt_for(rs.drop_first(), p, t)->0
            && rs.drop_first()[k].project_id@ == p && rs.drop_first()[k].ticket_id@ == t;
        assert(rs[k + 1] == rs.drop_first()[k]);
    } else {
        assert(rs[0].receipt == receipt_for(rs, p, t)->0);
    }
}

proof fn lemma_receipt_first_any(rs: Seq<FiledReceipt>, j: int, p: Seq<char>, t: Seq<char>)
    requires
        0 <= j < rs.len(),
        rs[j].project_id@ == p && rs[j].ticket_id@ == t,
    ensures
        receipt_for(rs, p, t) is Some,
    decreases j,
{
    if j > 0 && !(rs[0].project_id@ == p && rs[0].ticket_id@ == t) {
        assert(rs.drop_first()[j - 1] == rs[j]);
        lemma_receipt_first_any(rs.drop_first(), j - 1, p, t);
    }
}

proof fn lemma_receipt_update_other(rs: Seq<FiledReceipt>, i: int, r: FiledReceipt, p: Seq<char>, t: Seq<char>)
    requires
        0 <= i < rs.len(),
        rs[i].project_id@ == r.project_id@ && rs[i].ticket_id@ == r.ticket_id@,
        !(p == r.project_id@ && t == r.ticket_id@),
    ensures
        receipt_for(rs.update(i, r), p, t) == receipt_for(rs, p, t),
    decreases rs.len(),
{
    if rs.len() > 0 && i > 0 {
        if !(rs[0].project_id@ == p && rs[0].ticket_id@ == t) {
            assert(rs.update(i, r).drop_first() =~= rs.drop_first().update(i - 1, r));
            lemma_receipt_update_other(rs.drop_first(), i - 1, r, p, t);
        }
    } else if i == 0 {
        assert(rs.update(i, r).drop_first() =~= rs.drop_first());
    }
}

proof fn lemma_receipt_push_other(rs: Seq<FiledReceipt>, r: FiledReceipt, p: Seq<char>, t: Seq<char>)
    requires
        !(p == r.project_id@ && t == r.ticket_id@),
    ensures
        receipt_for(rs.push(r), p, t) == receipt_for(rs, p, t),
    decreases rs.len(),
{
    if rs.len() > 0 {
        assert(rs.push(r).drop_first() =~= rs.drop_first().push(r));
        lemma_receipt_push_other(rs.drop_first(), r, p, t);
    } else {
        assert(rs.push(r).drop_first() =~= rs);
    }
}

/// The receipt names the ticket it is filed for.
pub open spec fn receipt_names_ticket(rc: UploadReceipt, t: UploadTicket) -> bool {
    rc.ticket_id@ == t.ticket_id@ && rc.project_id@ == t.project_id@
}

/// The ticket's filed receipt exists and names the ticket.
pub open spec fn receipt_on_file(rs: Seq<FiledReceipt>, t: UploadTicket) -> bool {
    receipt_for(rs, t.project_id@, t.ticket_id@) matches Some(rc) && receipt_names_ticket(rc, t)
}

/// Why `load_upload_receipt_at` refuses once the ticket loaded: no receipt filed for it,
/// or one that names another ticket.
pub open spec fn receipt_refusal(rs: Seq<FiledReceipt>, t: UploadTicket) -> Seq<char> {
    if receipt_for(rs, t.project_id@, t.ticket_id@) is None {
        missing_state()
    } else {
        "creative upload receipt identity mismatch"@
    }
}

/// Loads the receipt of ticket `ticket_id`, finding the ticket as `load_upload_ticket_at`
/// does; a receipt filed for the ticket must name it.
pub fn load_upload_receipt_at(store: &UploadStore, ticket_id: &str, now: u128) -> (r: Result<UploadReceipt, McpError>)
    ensures
        r is Ok <==> (is_valid_id(ticket_id@) && (lookup_ticket(store.projects@, ticket_id@) matches Some(t)
            && is_valid_ticket(t, now) && receipt_on_file(store.receipts@, t))),
        r matches Ok(rc) ==> receipt_for(store.receipts@, lookup_ticket(store.projects@, ticket_id@)->0.project_id@, lookup_ticket(store.projects@, ticket_id@)->0.ticket_id@) == Some(rc),
        r matches Err(e) ==> invalid_with(e, if is_valid_id(ticket_id@) && (lookup_ticket(store.projects@, ticket_id@) matches Some(t) && is_valid_ticket(t, now)) {
            receipt_refusal(store.receipts@, lookup_ticket(store.projects@, ticket_id@)->0)
        } else {
            ticket_load_refusal(*store, ticket_id@)
        }),
{
    let ticket = match load_upload_ticket_at(store, ticket_id, now) {
        Ok(t) => t,
        Err(e) => { return Err(e); },
    };
    match find_receipt(&store.receipts, ticket.project_id.as_str(), ticket.ticket_id.as_str()) {
        Some(i) => {
            let rc = &store.receipts[i].receipt;
            if !str_eq(rc.ticket_id.as_str(), ticket.ticket_id.as_str()) || !str_eq(rc.project_id.as_str(), ticket.project_id.as_str()) {
                return Err(invalid("creative upload receipt identity mismatch"));
            }
            Ok(copy_receipt(rc))
        },
        None => Err(invalid("path does not exist or is inaccessible")),
    }
}

/// Whether `load_upload_receipt_at` finds the receipt of ticket `ticket_id` at time `now`.
pub open spec fn receipt_loadable_at(store: UploadStore, ticket_id: Seq<char>, now: u128, found: bool) -> bool {
    found <==> (is_valid_id(ticket_id) && (lookup_ticket(store.projects@, ticket_id) matches Some(t)
        && is_valid_ticket(t, now) && receipt_on_file(store.receipts@, t)))
}

/// Loads a receipt at the current time: the outcome is that of `load_upload_receipt_at`
/// at the time read from the clock.
pub fn load_upload_receipt(store: &UploadStore, ticket_id: &str) -> (r: Result<UploadReceipt, McpError>)
    ensures
        r matches Ok(rc) ==> receipt_for(store.receipts@, lookup_ticket(store.projects@, ticket_id@)->0.project_id@, lookup_ticket(store.projects@, ticket_id@)->0.ticket_id@) == Some(rc),
        !is_valid_id(ticket_id@) || lookup_ticket(store.projects@, ticket_id@) is None ==> r is Err,
        exists|now: u128| #[trigger] receipt_loadable_at(*store, ticket_id@, now, r is Ok),
{
    let now = now_ms();
    let r = load_upload_receipt_at(store, ticket_id, now);
    proof {
        assert(receipt_loadable_at(*store, ticket_id@, now, r is Ok));
    }
    r
}

} // verus!

verus! {

/// Where `lookup_ticket` finds a ticket: the first project whose index holds it.
pub proof fn lemma_lookup_found(ps: Seq<ProjectUploads>, id: Seq<char>) -> (q: int)
    requires
        lookup_ticket(ps, id) is Some,
    ensures
        0 <= q < ps.len(),
        ticket_in(ps[q].tickets@, id) == lookup_ticket(ps, id),
        forall|j: int| 0 <= j < q ==> ticket_in((#[trigger] ps[j]).tickets@, id) is None,
    decreases ps.len(),
{
    if ticket_in(ps[0].tickets@, id) is Some {
        0
    } else {
        let q = lemma_lookup_found(ps.drop_first(), id);
        assert forall|j: int| 0 <= j < q + 1 implies ticket_in((#[trigger] ps[j]).tickets@, id) is None by {
            if j > 0 {
                assert(ps[j] == ps.drop_first()[j - 1]);
            }
        }
        assert(ps[q + 1] == ps.drop_first()[q]);
        q + 1
    }
}

/// `lookup_ticket` returns what the first holding project holds.
pub proof fn lemma_lookup_at(ps: Seq<ProjectUploads>, id: Seq<char>, q: int)
    requires
        0 <= q < ps.len(),
        ticket_in(ps[q].tickets@, id) is Some,
        forall|j: int| 0 <= j < q ==> ticket_in((#[trigger] ps[j]).tickets@, id) is None,
    ensures
        lookup_ticket(ps, id) == ticket_in(ps[q].tickets@, id),
    decreases q,
{
    if q > 0 {
        assert forall|j: int| 0 <= j < q - 1 implies ticket_in((#[trigger] ps.drop_first()[j]).tickets@, id) is None by {
            assert(ps.drop_first()[j] == ps[j + 1]);
        }
        assert(ps.drop_first()[q - 1] == ps[q]);
        lemma_lookup_at(ps.drop_first(), id, q - 1);
    }
}

/// A ticket found in a project's index belongs to that project, which the store then
/// finds under that identity.
pub proof fn lemma_found_ticket_project(s: UploadStore, id: Seq<char>) -> (q: int)
    requires
        store_wf(s),
        lookup_ticket(s.projects@, id) is Some,
    ensures
        0 <= q < s.projects@.len(),
        lookup_ticket(s.projects@, id)->0.project_id@ == s.projects@[q].project_id@,
        project_index(s.projects@, lookup_ticket(s.projects@, id)->0.project_id@) == Some(q),
        ticket_in(s.projects@[q].tickets@, id) == lookup_ticket(s.projects@, id),
        lookup_ticket(s.projects@, id)->0.ticket_id@ == id,
        forall|j: int| 0 <= j < q ==> ticket_in((#[trigger] s.projects@[j]).tickets@, id) is None,
{
    let q = lemma_lookup_found(s.projects@, id);
    let ts = s.projects@[q].tickets@;
    lemma_ticket_in_some(ts, id);
    let k = choose|j: int| 0 <= j < ts.len() && (#[trigger] ts[j]).ticket_id@ == id && ts[j] == ticket_in(ts, id)->0;
    assert(project_wf(s.projects@[q]));
    lemma_project_index(s.projects@, q);
    q
}

/// After a ticket is stored, the store finds it under its identity, provided no earlier
/// project holds that identity.
pub proof fn lemma_lookup_after_store(before: UploadStore, after: UploadStore, t: UploadTicket, q: int)
    requires
        ticket_stored(before, after, t),
        project_index(before.projects@, t.project_id@) == Some(q),
        0 <= q < before.projects@.len(),
        forall|j: int| 0 <= j < q ==> ticket_in((#[trigger] before.projects@[j]).tickets@, t.ticket_id@) is None,
    ensures
        lookup_ticket(after.projects@, t.ticket_id@) == Some(t),
{
    assert forall|j: int| 0 <= j < q implies ticket_in((#[trigger] after.projects@[j]).tickets@, t.ticket_id@) is None by {
        assert(after.projects@[j] == before.projects@[j]);
    }
    lemma_lookup_at(after.projects@, t.ticket_id@, q);
}

} // verus!

verus! {

fn receipt_storable(r: &UploadReceipt) -> (b: bool)
    ensures
        b == is_storable_receipt(*r),
{
    validate_id(r.ticket_id.as_str(), "upload ticket id").is_ok() && validate_id(r.project_id.as_str(), "project_id").is_ok()
        && r.bytes > 0 && !r.media_type.as_str().is_empty() && !r.relative_path.as_str().is_empty()
}

fn project_index_wf(p: &ProjectUploads) -> (b: bool)
    ensures
        b == project_wf(*p),
{
    if p.tickets.len() > MAX_UPLOAD_TICKETS_PER_PROJECT {
        return false;
    }
    let mut i: usize = 0;
    while i < p.tickets.len()
        invariant
            i <= p.tickets.len(),
            forall|a: int, b: int| 0 <= a < b < i ==> lex_lt((#[trigger] p.tickets@[a]).ticket_id@, (#[trigger] p.tickets@[b]).ticket_id@),
            forall|k: int| 0 <= k < i ==> (#[trigger] p.tickets@[k]).project_id@ == p.project_id@,
        decreases p.tickets.len() - i,
    {
        if !str_eq(p.tickets[i].project_id.as_str(), p.project_id.as_str()) {
            return false;
        }
        if i > 0 {
            if !str_lt(p.tickets[i - 1].ticket_id.as_str(), p.tickets[i].ticket_id.as_str()) {
                return false;
            }
            proof {
                assert forall|a: int| 0 <= a < i implies lex_lt(#[trigger] p.tickets@[a].ticket_id@, p.tickets@[i as int].ticket_id@) by {
                    if a < i - 1 {
                        lemma_lex_transitive(p.tickets@[a].ticket_id@, p.tickets@[i - 1].ticket_id@, p.tickets@[i as int].ticket_id@);
                    }
                }
            }
        }
        i += 1;
    }
    true
}

/// Whether the upload store is well formed: every project index bounded, sorted and of
/// its own project, every receipt storable, and no project twice.
pub fn check_upload_store(store: &UploadStore) -> (b: bool)
    ensures
        b == store_wf(*store),
{
    let mut i: usize = 0;
    while i < store.projects.len()
        invariant
            i <= store.projects.len(),
            forall|k: int| 0 <= k < i ==> project_wf(#[trigger] store.projects@[k]),
            forall|a: int, b: int| 0 <= a < b < i ==> (#[trigger] store.projects@[a]).project_id@ != (#[trigger] store.projects@[b]).project_id@,
        decreases store.projects.len() - i,
    {
        if !project_index_wf(&store.projects[i]) {
            return false;
        }
        let mut j: usize = 0;
        while j < i
            invariant
                i < store.projects.len(),
                j <= i,
                forall|k: int| 0 <= k < j ==> (#[trigger] store.projects@[k]).project_id@ != store.projects@[i as int].project_id@,
            decreases i - j,
        {
            if str_eq(store.projects[j].project_id.as_str(), store.projects[i].project_id.as_str()) {
                return false;
            }
            j += 1;
        }
        i += 1;
    }
    let mut k: usize = 0;
    while k < store.receipts.len()
        invariant
            k <= store.receipts.len(),
            forall|q: int| 0 <= q < store.projects@.len() ==> project_wf(#[trigger] store.projects@[q]),
            forall|a: int, b: int| 0 <= a < b < store.projects@.len() ==> (#[trigger] store.projects@[a]).project_id@ != (#[trigger] store.projects@[b]).project_id@,
            forall|q: int| 0 <= q < k ==> is_storable_receipt((#[trigger] store.receipts@[q]).receipt),
        decreases store.receipts.len() - k,
    {
        if !receipt_storable(&store.receipts[k].receipt) {
            return false;
        }
        k += 1;
    }
    true
}

} // verus!

verus! {

/// The identities of an upload index.
pub open spec fn ticket_ids(ts: Seq<UploadTicket>) -> Set<Seq<char>> {
    Set::new(|x: Seq<char>| exists|i: int| 0 <= i < ts.len() && (#[trigger] ts[i]).ticket_id@ == x)
}

proof fn lemma_ticket_in_ids(ts: Seq<UploadTicket>, id: Seq<char>)
    ensures
        ticket_in(ts, id) is Some <==> ticket_ids(ts).contains(id),
        ticket_in(ts, id) matches Some(t) ==> t.ticket_id@ == id,
    decreases ts.len(),
{
    if ts.len() > 0 {
        lemma_ticket_in_ids(ts.drop_first(), id);
        if ticket_ids(ts).contains(id) && ts[0].ticket_id@ != id {
            let i = choose|i: int| 0 <= i < ts.len() && (#[trigger] ts[i]).ticket_id@ == id;
            assert(ts.drop_first()[i - 1] == ts[i]);
        }
        if ticket_ids(ts.drop_first()).contains(id) {
            let i = choose|i: int| 0 <= i < ts.drop_first().len() && (#[trigger] ts.drop_first()[i]).ticket_id@ == id;
            assert(ts[i + 1] == ts.drop_first()[i]);
        }
    }
}

/// Storing a ticket files it in its project's index: the index then holds the identities
/// it held and the ticket's, in ascending order, without repetition, at most 512 of
/// them, and the ticket is the one filed under its identity.
pub proof fn law_stored_ticket_index(before: UploadStore, after: UploadStore, ticket: UploadTicket, now: u128)
    requires
        store_wf(after),
        !ticket_store_refused(before, ticket, now),
        ticket_stored(before, after, ticket),
    ensures
        ({
            let p = project_index(before.projects@, ticket.project_id@)->0;
            &&& ticket_ids(after.projects@[p].tickets@) == ticket_ids(before.projects@[p].tickets@).insert(ticket.ticket_id@)
            &&& tickets_sorted(after.projects@[p].tickets@)
            &&& after.projects@[p].tickets@.len() <= MAX_UPLOAD_TICKETS_PER_PROJECT
            &&& ticket_in(after.projects@[p].tickets@, ticket.ticket_id@) == Some(ticket)
        }),
{
    let p = project_index(before.projects@, ticket.project_id@)->0;
    let old_ts = before.projects@[p].tickets@;
    let new_ts = after.projects@[p].tickets@;
    assert(project_wf(after.projects@[p]));
    assert forall|x: Seq<char>| ticket_ids(new_ts).contains(x) <==> ticket_ids(old_ts).insert(ticket.ticket_id@).contains(x) by {
        lemma_ticket_in_ids(new_ts, x);
        lemma_ticket_in_ids(old_ts, x);
    }
    assert(ticket_ids(new_ts) =~= ticket_ids(old_ts).insert(ticket.ticket_id@));
}

/// A stored ticket loads back: after `store_upload_ticket_at` stores `ticket`, where no
/// project listed before the ticket's own indexes its identity, the store finds exactly
/// that ticket under its identity (and `load_upload_ticket_at` returns it wherever it is
/// still valid).
pub proof fn law_stored_ticket_loads_back(before: UploadStore, after: UploadStore, ticket: UploadTicket, now: u128)
    requires
        !ticket_store_refused(before, ticket, now),
        ticket_stored(before, after, ticket),
        forall|q: int| 0 <= q < project_index(before.projects@, ticket.project_id@)->0
            ==> ticket_in((#[trigger] before.projects@[q]).tickets@, ticket.ticket_id@) is None,
    ensures
        lookup_ticket(after.projects@, ticket.ticket_id@) == Some(ticket),
{
    let p = project_index(before.projects@, ticket.project_id@)->0;
    assert forall|q: int| 0 <= q < p implies ticket_in((#[trigger] after.projects@[q]).tickets@, ticket.ticket_id@) is None by {
        assert(after.projects@[q] == before.projects@[q]);
    }
    lemma_lookup_at(after.projects@, ticket.ticket_id@, p);
}

/// A filed receipt loads back with its ticket: where the receipt filed under a ticket's
/// project and identity names that ticket, it is on file for the ticket (so
/// `load_upload_receipt_at` returns it for a valid ticket); where it names another, the
/// load is refused as an identity mismatch.
pub proof fn law_receipt_loads_back(rs: Seq<FiledReceipt>, t: UploadTicket, rc: UploadReceipt)
    requires
        receipt_for(rs, t.project_id@, t.ticket_id@) == Some(rc),
    ensures
        receipt_names_ticket(rc, t) ==> receipt_on_file(rs, t),
        !receipt_names_ticket(rc, t) ==> !receipt_on_file(rs, t)
            && receipt_refusal(rs, t) == "creative upload receipt identity mismatch"@,
{
}

} // verus!
