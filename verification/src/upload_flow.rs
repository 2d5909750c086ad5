use vstd::prelude::*;
use vstd::string::StringExecFns;
use crate::contracts::{AssetSource, CREATIVE_SCHEMA_VERSION};
use crate::error::{invalid, invalid_with, McpError};
use crate::ingest::{
    is_acceptable_filename, is_upload_media_type, is_upload_source, is_valid_owner, is_valid_role,
    sanitize_filename, sanitized, sha256_text, validate_media_type, validate_owner, validate_role,
    validate_upload_source, UploadReceipt, UploadRequest, UploadRequestResult, UploadTicket,
    DEFAULT_UPLOAD_MAX_BYTES, DEFAULT_UPLOAD_TTL_MS, MAX_UPLOAD_MAX_BYTES, MAX_UPLOAD_TTL_MS,
};
use crate::outside::{base64_url_no_pad, encode_base64_url, now_ms, random_simple_uuid, sha256_of};
use crate::text::hex_lower;
use crate::uploads::{
    project_index, store_upload_ticket_at, store_wf, ticket_store_refused, ticket_stored, UploadStore,
};

verus! {

broadcast use vstd::string::group_string_axioms;

/// The byte limit a request asks for: its own, or the default.
pub open spec fn requested_max_bytes(req: UploadRequest) -> u64 {
    match req.max_bytes { Some(m) => m, None => DEFAULT_UPLOAD_MAX_BYTES }
}

/// The lifetime a request asks for: its own, or the default.
pub open spec fn requested_ttl_ms(req: UploadRequest) -> u64 {
    match req.ttl_ms { Some(t) => t, None => DEFAULT_UPLOAD_TTL_MS }
}

/// Whether `request_upload` refuses a request before issuing anything.
pub open spec fn upload_request_refused(store: UploadStore, owner: Seq<char>, project_id: Seq<char>, req: UploadRequest) -> bool {
    ||| project_index(store.projects@, project_id) is None
    ||| !is_valid_owner(owner)
    ||| !is_upload_source(req.source)
    ||| !is_upload_media_type(req.media_type@)
    ||| !is_valid_role(req.role@)
    ||| !is_acceptable_filename(req.filename@)
    ||| requested_max_bytes(req) == 0
    ||| requested_max_bytes(req) > MAX_UPLOAD_MAX_BYTES
    ||| requested_ttl_ms(req) == 0
    ||| requested_ttl_ms(req) > MAX_UPLOAD_TTL_MS
}

pub open spec fn saturating_add_u128(a: u128, b: int) -> u128 {
    if a + b > u128::MAX { u128::MAX } else { (a + b) as u128 }
}

/// `t` is the ticket that a request issues at time `now` under identity `ticket_id`
/// with secret `token`.
pub open spec fn issued_ticket(t: UploadTicket, owner: Seq<char>, project_id: Seq<char>, req: UploadRequest, now: u128, ticket_id: Seq<char>, token: Seq<char>) -> bool {
    &&& t.schema_version == CREATIVE_SCHEMA_VERSION
    &&& t.source == req.source
    &&& t.ticket_id@ == ticket_id
    &&& t.project_id@ == project_id
    &&& t.owner@ == owner
    &&& t.media_type@ == req.media_type@
    &&& t.role@ == req.role@
    &&& t.filename@ == sanitized(req.filename@)
    &&& t.max_bytes == requested_max_bytes(req)
    &&& t.expires_at_ms == saturating_add_u128(now, requested_ttl_ms(req) as int)
    &&& t.used_at_ms is None
    &&& t.token_sha256@ == hex_lower(sha256_of(vstd::utf8::encode_utf8(token)))
    &&& t.created_at_ms == now
}

/// The path at which the bytes of ticket `ticket_id` are uploaded.
pub open spec fn upload_path(ticket_id: Seq<char>, cwd: Option<Seq<char>>) -> Seq<char> {
    let c = match cwd { Some(c) => c, None => seq![] };
    "/creative-upload/"@ + ticket_id + "?cwd="@ + base64_url_no_pad(vstd::utf8::encode_utf8(c))
}

pub open spec fn opt_view(s: Option<&str>) -> Option<Seq<char>> {
    match s { Some(v) => Some(v@), None => None }
}

/// Issues an upload ticket at time `now` with identity `upload_` + `uuid` and secret
/// `token`, stores it, and tells the caller where and how to upload.
pub fn issue_upload_ticket(
    store: &mut UploadStore,
    owner: &str,
    project_id: &str,
    cwd: Option<&str>,
    request: &UploadRequest,
    now: u128,
    uuid: &str,
    token: &str,
) -> (r: Result<UploadRequestResult, McpError>)
    requires
        store_wf(*old(store)),
    ensures
        store_wf(*final(store)),
        r matches Err(e) ==> e is InvalidRequest,
        r is Err ==> *final(store) == *old(store),
        upload_request_refused(*old(store), owner@, project_id@, *request) ==> r is Err,
        !upload_request_refused(*old(store), owner@, project_id@, *request) ==> (r is Err <==> exists|t: UploadTicket|
            issued_ticket(t, owner@, project_id@, *request, now, "upload_"@ + uuid@, token@) && ticket_store_refused(*old(store), t, now)),
        r matches Ok(res) ==> {
            &&& res.ticket_id@ == "upload_"@ + uuid@
            &&& res.upload_path@ == upload_path(res.ticket_id@, opt_view(cwd))
            &&& res.upload_token@ == token@
            &&& res.expires_at_ms == saturating_add_u128(now, requested_ttl_ms(*request) as int)
            &&& res.max_bytes == requested_max_bytes(*request)
            &&& res.method@ == "PUT"@
            &&& res.content_type@ == request.media_type@
            &&& exists|t: UploadTicket| issued_ticket(t, owner@, project_id@, *request, now, "upload_"@ + uuid@, token@)
                && ticket_stored(*old(store), *final(store), t)
        },
{
    let mut found = false;
    let mut i: usize = 0;
    while i < store.projects.len()
        invariant
            i <= store.projects.len(),
            found <==> exists|k: int| 0 <= k < i && (#[trigger] store.projects@[k]).project_id@ == project_id@,
        decreases store.projects.len() - i,
    {
        if crate::text::str_eq(store.projects[i].project_id.as_str(), project_id) {
            found = true;
        }
        i += 1;
    }
    if !found {
        return Err(invalid("path does not exist or is inaccessible"));
    }
    validate_owner(owner)?;
    validate_upload_source(&request.source)?;
    validate_media_type(request.media_type.as_str())?;
    validate_role(request.role.as_str())?;
    let filename = sanitize_filename(request.filename.as_str())?;
    let max_bytes = match request.max_bytes { Some(m) => m, None => DEFAULT_UPLOAD_MAX_BYTES };
    if max_bytes == 0 || max_bytes > MAX_UPLOAD_MAX_BYTES {
        return Err(invalid("creative upload max_bytes exceeds allowed bounds"));
    }
    let ttl_ms = match request.ttl_ms { Some(t) => t, None => DEFAULT_UPLOAD_TTL_MS };
    if ttl_ms == 0 || ttl_ms > MAX_UPLOAD_TTL_MS {
        return Err(invalid("creative upload ttl exceeds allowed bounds"));
    }
    let mut ticket_id = String::from_str("upload_");
    ticket_id.append(uuid);
    let expires = now.saturating_add(ttl_ms as u128);
    let ticket = UploadTicket {
        schema_version: CREATIVE_SCHEMA_VERSION,
        source: request.source,
        ticket_id: ticket_id.clone(),
        project_id: project_id.to_owned(),
        owner: owner.to_owned(),
        media_type: request.media_type.clone(),
        role: request.role.clone(),
        filename,
        max_bytes,
        expires_at_ms: expires,
        used_at_ms: None,
        token_sha256: sha256_text(token),
        created_at_ms: now,
    };
    let stored = store_upload_ticket_at(store, &ticket, now);
    proof {
        assert(issued_ticket(ticket, owner@, project_id@, *request, now, "upload_"@ + uuid@, token@));
    }
    match stored {
        Err(e) => {
            return Err(e);
        },
        Ok(()) => {},
    }
    let cwd_text = match cwd { Some(c) => c, None => "" };
    let encoded = encode_base64_url(cwd_text.as_bytes());
    let mut path = String::from_str("/creative-upload/");
    path.append(ticket_id.as_str());
    path.append("?cwd=");
    path.append(encoded.as_str());
    proof {
        reveal_strlit("");
        assert(opt_view(cwd) matches Some(c) ==> c == cwd_text@);
        assert(cwd is None ==> cwd_text@ == Seq::<char>::empty());
    }
    Ok(UploadRequestResult {
        ticket_id,
        upload_path: path,
        upload_token: token.to_owned(),
        expires_at_ms: expires,
        max_bytes,
        method: String::from_str("PUT"),
        content_type: request.media_type.clone(),
    })
}

} // verus!

verus! {

/// What `issue_upload_ticket` returns at time `now` with identity `upload_` + `uuid` and
/// secret `token`: a refusal exactly where the request is refused or the issued ticket
/// cannot be stored, and otherwise the ticket under that identity and secret.
pub open spec fn issue_outcome_at(
    before: UploadStore,
    owner: Seq<char>,
    project_id: Seq<char>,
    req: UploadRequest,
    now: u128,
    uuid: Seq<char>,
    token: Seq<char>,
    r: Result<UploadRequestResult, McpError>,
) -> bool {
    &&& (r is Err <==> (upload_request_refused(before, owner, project_id, req) || exists|t: UploadTicket|
        issued_ticket(t, owner, project_id, req, now, "upload_"@ + uuid, token) && ticket_store_refused(before, t, now)))
    &&& (r matches Ok(res) ==> res.ticket_id@ == "upload_"@ + uuid && res.upload_token@ == token
        && res.expires_at_ms == saturating_add_u128(now, requested_ttl_ms(req) as int))
}

/// Issues an upload ticket now, with a random identity and a random 64-digit secret.
pub fn request_upload(
    store: &mut UploadStore,
    owner: &str,
    project_id: &str,
    cwd: Option<&str>,
    request: &UploadRequest,
) -> (r: Result<UploadRequestResult, McpError>)
    requires
        store_wf(*old(store)),
    ensures
        store_wf(*final(store)),
        r is Err ==> *final(store) == *old(store),
        upload_request_refused(*old(store), owner@, project_id@, *request) ==> r is Err,
        r matches Ok(res) ==> {
            &&& res.ticket_id@.len() == 39
            &&& crate::text::seq_starts_with(res.ticket_id@, "upload_"@)
            &&& res.upload_token@.len() == 64
            &&& crate::outside::is_lower_hex(res.upload_token@)
            &&& res.upload_path@ == upload_path(res.ticket_id@, opt_view(cwd))
            &&& res.max_bytes == requested_max_bytes(*request)
            &&& res.method@ == "PUT"@
            &&& res.content_type@ == request.media_type@
            &&& exists|t: UploadTicket, now: u128| issued_ticket(t, owner@, project_id@, *request, now, res.ticket_id@, res.upload_token@)
                && ticket_stored(*old(store), *final(store), t)
                && res.expires_at_ms == saturating_add_u128(now, requested_ttl_ms(*request) as int)
        },
        exists|now: u128, uuid: Seq<char>, token: Seq<char>|
            uuid.len() == 32 && crate::outside::is_lower_hex(uuid) && token.len() == 64 && crate::outside::is_lower_hex(token)
            && #[trigger] issue_outcome_at(*old(store), owner@, project_id@, *request, now, uuid, token, r),
{
    let now = now_ms();
    let uuid = random_simple_uuid();
    let mut token = random_simple_uuid();
    let second = random_simple_uuid();
    token.append(second.as_str());
    proof {
        reveal_strlit("upload_");
        assert forall|i: int| 0 <= i < token@.len() implies crate::outside::is_lower_hex_char(#[trigger] token@[i]) by {
            if i >= 32 {
                assert(token@[i] == second@[i - 32]);
            }
        }
    }
    let r = issue_upload_ticket(store, owner, project_id, cwd, request, now, uuid.as_str(), token.as_str());
    proof {
        if r is Ok {
            let res = r->Ok_0;
            assert(res.ticket_id@.subrange(0, 7) =~= "upload_"@);
        }
        assert(issue_outcome_at(*old(store), owner@, project_id@, *request, now, uuid@, token@, r));
    }
    r
}

} // verus!

verus! {

use crate::uploads::{copy_ticket, load_upload_ticket_at, lookup_ticket, lemma_found_ticket_project, lemma_lookup_after_store, store_upload_receipt, receipt_for, is_storable_receipt, ticket_load_refusal, missing_state, receipt_on_file, receipt_refusal, receipt_names_ticket};
use crate::ingest::{normalized_type, is_valid_ticket};
use crate::text::{is_valid_id, str_eq, normalize_content_type};

/// Why `accept_upload_bytes` refuses an upload at time `now`: a bad owner, an unknown or
/// invalid ticket, another owner's ticket, a used or expired ticket, a wrong secret, a
/// body that is empty or too large, or a content type other than the ticket's.
pub open spec fn accept_refused(
    store: UploadStore,
    owner: Seq<char>,
    ticket_id: Seq<char>,
    token: Seq<char>,
    content_type: Option<Seq<char>>,
    body_len: int,
    now: u128,
) -> bool {
    ||| !is_valid_owner(owner)
    ||| !is_valid_id(ticket_id)
    ||| lookup_ticket(store.projects@, ticket_id) is None
    ||| ({
        let t = lookup_ticket(store.projects@, ticket_id)->0;
        ||| !is_valid_ticket(t, now)
        ||| t.owner@ != owner
        ||| t.used_at_ms is Some
        ||| now > t.expires_at_ms
        ||| token.len() == 0
        ||| hex_lower(sha256_of(vstd::utf8::encode_utf8(token))) != t.token_sha256@
        ||| body_len == 0
        ||| body_len > t.max_bytes
        ||| (content_type matches Some(c) && normalized_type(c) != t.media_type@)
    })
}

/// Why `accept_upload_bytes_at` refuses, in the order it checks.
pub open spec fn accept_refusal(
    store: UploadStore,
    owner: Seq<char>,
    ticket_id: Seq<char>,
    token: Seq<char>,
    content_type: Option<Seq<char>>,
    body_len: int,
    now: u128,
) -> Seq<char> {
    let t = lookup_ticket(store.projects@, ticket_id)->0;
    if !is_valid_owner(owner) {
        "creative owner identity exceeds allowed bounds"@
    } else if !is_valid_id(ticket_id) || lookup_ticket(store.projects@, ticket_id) is None || !is_valid_ticket(t, now) {
        ticket_load_refusal(store, ticket_id)
    } else if t.owner@ != owner {
        "creative upload ticket owner mismatch"@
    } else if t.used_at_ms is Some {
        "creative upload ticket was already used"@
    } else if now > t.expires_at_ms {
        "creative upload ticket expired"@
    } else if token.len() == 0 || hex_lower(sha256_of(vstd::utf8::encode_utf8(token))) != t.token_sha256@ {
        "creative upload ticket token is invalid"@
    } else if body_len == 0 || body_len > t.max_bytes {
        "creative upload body exceeds ticket bounds"@
    } else {
        "creative upload content type does not match ticket"@
    }
}

/// The workspace path that an upload's bytes are written to.
pub open spec fn upload_relative_path(t: UploadTicket) -> Seq<char> {
    "creative/"@ + t.project_id@ + "/assets/uploads/"@ + t.ticket_id@ + "-"@ + t.filename@
}

/// `after` is `before` once ticket `ticket_id` received `body_len` bytes at `now`:
/// the ticket is marked used and the receipt `rc` recorded.
pub open spec fn upload_accepted(before: UploadStore, after: UploadStore, ticket_id: Seq<char>, body_len: int, now: u128, rc: UploadReceipt) -> bool {
    let t = lookup_ticket(before.projects@, ticket_id)->0;
    &&& lookup_ticket(after.projects@, ticket_id) matches Some(u)
    &&& u.used_at_ms == Some(now)
    &&& u.ticket_id == t.ticket_id && u.project_id == t.project_id && u.owner == t.owner
    &&& u.media_type == t.media_type && u.role == t.role && u.filename == t.filename
    &&& u.max_bytes == t.max_bytes && u.expires_at_ms == t.expires_at_ms
    &&& u.token_sha256 == t.token_sha256 && u.created_at_ms == t.created_at_ms
    &&& u.source == t.source && u.schema_version == t.schema_version
    &&& rc.ticket_id@ == ticket_id
    &&& rc.project_id@ == t.project_id@
    &&& rc.relative_path@ == upload_relative_path(t)
    &&& rc.bytes == body_len
    &&& rc.media_type@ == t.media_type@
    &&& rc.completed_at_ms == now
    &&& rc.asset_id is None
    &&& receipt_for(after.receipts@, t.project_id@, ticket_id) == Some(rc)
}

pub open spec fn opt_str_view(s: Option<&str>) -> Option<Seq<char>> {
    match s { Some(v) => Some(v@), None => None }
}

/// Accepts the bytes of an upload at time `now`: checks the owner, the ticket, its secret
/// and the body, then marks the ticket used and records the receipt. The caller writes
/// the bytes to the receipt's path.
pub fn accept_upload_bytes_at(
    store: &mut UploadStore,
    owner: &str,
    ticket_id: &str,
    token: &str,
    content_type: Option<&str>,
    bytes: &[u8],
    now: u128,
) -> (r: Result<UploadReceipt, McpError>)
    requires
        store_wf(*old(store)),
    ensures
        store_wf(*final(store)),
        r is Err <==> accept_refused(*old(store), owner@, ticket_id@, token@, opt_str_view(content_type), bytes@.len() as int, now),
        r is Err ==> *final(store) == *old(store),
        r matches Err(e) ==> invalid_with(e, accept_refusal(*old(store), owner@, ticket_id@, token@, opt_str_view(content_type), bytes@.len() as int, now)),
        r matches Ok(rc) ==> upload_accepted(*old(store), *final(store), ticket_id@, bytes@.len() as int, now, rc),
{
    match validate_owner(owner) {
        Ok(()) => {},
        Err(e) => { return Err(e); },
    }
    let ticket = match load_upload_ticket_at(store, ticket_id, now) {
        Ok(t) => t,
        Err(e) => { return Err(e); },
    };
    if !str_eq(ticket.owner.as_str(), owner) {
        return Err(invalid("creative upload ticket owner mismatch"));
    }
    if ticket.used_at_ms.is_some() {
        return Err(invalid("creative upload ticket was already used"));
    }
    if now > ticket.expires_at_ms {
        return Err(invalid("creative upload ticket expired"));
    }
    if token.is_empty() {
        return Err(invalid("creative upload ticket token is invalid"));
    }
    let digest = sha256_text(token);
    if !(digest == ticket.token_sha256) {
        return Err(invalid("creative upload ticket token is invalid"));
    }
    let len = bytes.len() as u64;
    if bytes.len() == 0 || len > ticket.max_bytes {
        return Err(invalid("creative upload body exceeds ticket bounds"));
    }
    match content_type {
        Some(value) => {
            let normalized = normalize_content_type(value);
            if !(normalized == ticket.media_type) {
                return Err(invalid("creative upload content type does not match ticket"));
            }
        },
        None => {},
    }
    let mut relative_path = String::from_str("creative/");
    relative_path.append(ticket.project_id.as_str());
    relative_path.append("/assets/uploads/");
    relative_path.append(ticket.ticket_id.as_str());
    relative_path.append("-");
    relative_path.append(ticket.filename.as_str());
    let ghost before = *store;
    let ghost q = lemma_found_ticket_project(before, ticket_id@);
    let mut used = copy_ticket(&ticket);
    used.used_at_ms = Some(now);
    let stored = store_upload_ticket_at(store, &used, now);
    match stored {
        Ok(()) => {},
        Err(e) => {
            return Err(e);
        },
    }
    proof {
        lemma_lookup_after_store(before, *store, used, q);
    }
    let receipt = UploadReceipt {
        ticket_id: ticket.ticket_id.clone(),
        project_id: ticket.project_id.clone(),
        relative_path,
        bytes: len,
        media_type: ticket.media_type.clone(),
        completed_at_ms: now,
        asset_id: None,
    };
    let ghost mid = *store;
    let rec = store_upload_receipt(store, &receipt);
    match rec {
        Ok(()) => {},
        Err(e) => {
            return Err(e);
        },
    }
    proof {
        assert(store.projects@ == mid.projects@);
    }
    Ok(receipt)
}

} // verus!

verus! {

/// `accept_upload_bytes_at` at time `now` refuses exactly where `refused` says.
pub open spec fn accept_refused_at(
    store: UploadStore,
    owner: Seq<char>,
    ticket_id: Seq<char>,
    token: Seq<char>,
    content_type: Option<Seq<char>>,
    body_len: int,
    now: u128,
    refused: bool,
) -> bool {
    refused <==> accept_refused(store, owner, ticket_id, token, content_type, body_len, now)
}

/// Accepts the bytes of an upload now: the outcome is that of `accept_upload_bytes_at`
/// at the time read from the clock.
pub fn accept_upload_bytes(
    store: &mut UploadStore,
    owner: &str,
    ticket_id: &str,
    token: &str,
    content_type: Option<&str>,
    bytes: &[u8],
) -> (r: Result<UploadReceipt, McpError>)
    requires
        store_wf(*old(store)),
    ensures
        store_wf(*final(store)),
        r is Err ==> *final(store) == *old(store),
        r matches Ok(rc) ==> exists|now: u128| upload_accepted(*old(store), *final(store), ticket_id@, bytes@.len() as int, now, rc)
            && !accept_refused(*old(store), owner@, ticket_id@, token@, opt_str_view(content_type), bytes@.len() as int, now),
        (forall|now: u128| accept_refused(*old(store), owner@, ticket_id@, token@, opt_str_view(content_type), bytes@.len() as int, now)) ==> r is Err,
        exists|now: u128| #[trigger] accept_refused_at(*old(store), owner@, ticket_id@, token@, opt_str_view(content_type), bytes@.len() as int, now, r is Err),
{
    let now = now_ms();
    let r = accept_upload_bytes_at(store, owner, ticket_id, token, content_type, bytes, now);
    proof {
        assert(accept_refused_at(*old(store), owner@, ticket_id@, token@, opt_str_view(content_type), bytes@.len() as int, now, r is Err));
    }
    r
}

/// A ticket accepts bytes at most once: once an upload was accepted under it, every
/// later attempt, by anyone, with any secret and body, at any time, is refused; the
/// ticket's owner, while the ticket still loads, is told that it was already used.
pub proof fn law_upload_ticket_single_use(
    before: UploadStore,
    after: UploadStore,
    ticket_id: Seq<char>,
    body_len: int,
    now: u128,
    rc: UploadReceipt,
    owner: Seq<char>,
    token: Seq<char>,
    content_type: Option<Seq<char>>,
    later_len: int,
    later: u128,
)
    requires
        upload_accepted(before, after, ticket_id, body_len, now, rc),
    ensures
        accept_refused(after, owner, ticket_id, token, content_type, later_len, later),
        is_valid_owner(owner) && is_valid_id(ticket_id)
            && lookup_ticket(before.projects@, ticket_id)->0.owner@ == owner
            && is_valid_ticket(lookup_ticket(after.projects@, ticket_id)->0, later)
            ==> accept_refusal(after, owner, ticket_id, token, content_type, later_len, later)
                == "creative upload ticket was already used"@,
{
}

} // verus!

verus! {

use crate::uploads::{list_upload_tickets_at, listing_refusal, project_listable, tickets_sorted, project_wf};
use crate::order::{lex_lt, lemma_lex_transitive};

/// The tickets of `owner`, in their order.
pub open spec fn owned_by(ts: Seq<UploadTicket>, owner: Seq<char>) -> Seq<UploadTicket>
    decreases ts.len(),
{
    if ts.len() == 0 {
        seq![]
    } else {
        owned_by(ts.drop_last(), owner) + if ts.last().owner@ == owner { seq![ts.last()] } else { seq![] }
    }
}

/// `a` lists before `b`: it is newer, or as new and of lower identity.
pub open spec fn lists_before(a: UploadTicket, b: UploadTicket) -> bool {
    a.created_at_ms > b.created_at_ms || (a.created_at_ms == b.created_at_ms && lex_lt(a.ticket_id@, b.ticket_id@))
}

pub open spec fn newest_first(s: Seq<UploadTicket>) -> bool {
    forall|i: int, j: int| 0 <= i < j < s.len() ==> lists_before(#[trigger] s[i], #[trigger] s[j])
}

/// `b` is `a` with the secret's digest removed.
pub open spec fn without_token(a: UploadTicket, b: UploadTicket) -> bool {
    &&& b.schema_version == a.schema_version && b.source == a.source
    &&& b.ticket_id == a.ticket_id && b.project_id == a.project_id && b.owner == a.owner
    &&& b.media_type == a.media_type && b.role == a.role && b.filename == a.filename
    &&& b.max_bytes == a.max_bytes && b.expires_at_ms == a.expires_at_ms
    &&& b.used_at_ms == a.used_at_ms && b.created_at_ms == a.created_at_ms
    &&& b.token_sha256@ == Seq::<char>::empty()
}

pub const MAX_LISTED_UPLOADS: usize = 200;

/// The uploads listing: `out` holds the first 200 of `owner`'s tickets, newest first,
/// without their secrets' digests.
pub open spec fn uploads_listing(ts: Seq<UploadTicket>, owner: Seq<char>, out: Seq<UploadTicket>) -> bool {
    exists|full: Seq<UploadTicket>|
        #![trigger full.to_multiset()]
        full.to_multiset() == owned_by(ts, owner).to_multiset()
        && newest_first(full)
        && out.len() == (if full.len() < MAX_LISTED_UPLOADS { full.len() as int } else { MAX_LISTED_UPLOADS as int })
        && forall|i: int| 0 <= i < out.len() ==> without_token(#[trigger] full[i], out[i])
}

proof fn lemma_insert_multiset_ticket(s: Seq<UploadTicket>, i: int, x: UploadTicket)
    requires
        0 <= i <= s.len(),
    ensures
        s.insert(i, x).to_multiset() =~= s.to_multiset().insert(x),
{
    broadcast use vstd::seq_lib::group_seq_properties, vstd::multiset::group_multiset_axioms;
    let l = s.subrange(0, i);
    let r = s.subrange(i, s.len() as int);
    assert(s =~= l + r);
    vstd::seq_lib::lemma_multiset_commutative(l, r);
    vstd::seq_lib::lemma_multiset_commutative(l.push(x), r);
}

/// The tickets of `owner` in project `project_id` at time `now`: at most 200, newest
/// first, without the digests of their secrets.
pub fn list_uploads_at(store: &UploadStore, owner: &str, project_id: &str, now: u128) -> (r: Result<Vec<UploadTicket>, McpError>)
    requires
        store_wf(*store),
    ensures
        r is Ok <==> is_valid_owner(owner@) && project_listable(*store, project_id@, now),
        r matches Err(e) ==> invalid_with(e, if !is_valid_owner(owner@) {
            "creative owner identity exceeds allowed bounds"@
        } else {
            listing_refusal(*store, project_id@)
        }),
        r matches Ok(out) ==> uploads_listing(store.projects@[project_index(store.projects@, project_id@)->0].tickets@, owner@, out@),
{
    broadcast use vstd::seq_lib::group_seq_properties, vstd::multiset::group_multiset_axioms;
    match validate_owner(owner) {
        Err(e) => { return Err(e); },
        Ok(()) => {},
    }
    let all = match list_upload_tickets_at(store, project_id, now) {
        Err(e) => { return Err(e); },
        Ok(all) => all,
    };
    let ghost p = project_index(store.projects@, project_id@)->0;
    proof {
        assert(project_wf(store.projects@[p]));
        assert(tickets_sorted(all@));
    }
    let mut sorted: Vec<UploadTicket> = Vec::new();
    let mut k: usize = 0;
    while k < all.len()
        invariant
            k <= all.len(),
            tickets_sorted(all@),
            newest_first(sorted@),
            sorted@.to_multiset() == owned_by(all@.take(k as int), owner@).to_multiset(),
            forall|i: int| 0 <= i < sorted@.len() ==> exists|j: int| 0 <= j < k && #[trigger] sorted@[i] == all@[j],
        decreases all.len() - k,
    {
        proof {
            let t = all@.take(k + 1);
            assert(t.drop_last() =~= all@.take(k as int));
            assert(t.last() == all@[k as int]);
            let a = owned_by(all@.take(k as int), owner@);
            if all@[k as int].owner@ == owner@ {
                assert(owned_by(t, owner@) =~= a.push(all@[k as int]));
                a.to_multiset_ensures();
            } else {
                assert(owned_by(t, owner@) =~= a);
            }
        }
        if str_eq(all[k].owner.as_str(), owner) {
            let x = copy_ticket(&all[k]);
            let mut pos: usize = 0;
            while pos < sorted.len() && sorted[pos].created_at_ms >= x.created_at_ms
                invariant
                    pos <= sorted.len(),
                    forall|q: int| 0 <= q < pos ==> (#[trigger] sorted@[q]).created_at_ms >= x.created_at_ms,
                decreases sorted.len() - pos,
            {
                pos += 1;
            }
            let ghost old_sorted = sorted@;
            proof {
                lemma_insert_multiset_ticket(old_sorted, pos as int, x);
                assert forall|i: int, j: int| 0 <= i < j < old_sorted.len() + 1 implies lists_before(
                    #[trigger] old_sorted.insert(pos as int, x)[i],
                    #[trigger] old_sorted.insert(pos as int, x)[j],
                ) by {
                    let s = old_sorted.insert(pos as int, x);
                    if j == pos {
                        assert(s[i] == old_sorted[i]);
                        let jj = choose|jj: int| 0 <= jj < k && #[trigger] old_sorted[i] == all@[jj];
                        assert(lex_lt(all@[jj].ticket_id@, all@[k as int].ticket_id@));
                    } else if i == pos {
                        assert(s[j] == old_sorted[j - 1]);
                        if j - 1 > pos {
                            assert(lists_before(old_sorted[pos as int], old_sorted[j - 1]));
                        }
                    } else if i < pos && j > pos {
                        assert(s[i] == old_sorted[i] && s[j] == old_sorted[j - 1]);
                    } else if j < pos {
                        assert(s[i] == old_sorted[i] && s[j] == old_sorted[j]);
                    } else {
                        assert(s[i] == old_sorted[i - 1] && s[j] == old_sorted[j - 1]);
                    }
                }
            }
            sorted.insert(pos, x);
            proof {
                assert forall|i: int| 0 <= i < sorted@.len() implies exists|j: int| 0 <= j < k + 1 && #[trigger] sorted@[i] == all@[j] by {
                    if i < pos {
                        assert(sorted@[i] == old_sorted[i]);
                    } else if i > pos {
                        assert(sorted@[i] == old_sorted[i - 1]);
                    } else {
                        assert(sorted@[i] == all@[k as int]);
                    }
                }
            }
        }
        k += 1;
    }
    proof {
        assert(all@.take(all.len() as int) =~= all@);
    }
    let limit = if sorted.len() < MAX_LISTED_UPLOADS { sorted.len() } else { MAX_LISTED_UPLOADS };
    let mut out: Vec<UploadTicket> = Vec::new();
    let mut i: usize = 0;
    while i < limit
        invariant
            limit <= sorted.len(),
            i <= limit,
            out.len() == i,
            forall|q: int| 0 <= q < i ==> without_token(#[trigger] sorted@[q], out@[q]),
        decreases limit - i,
    {
        let t = &sorted[i];
        out.push(UploadTicket {
            schema_version: t.schema_version,
            source: t.source,
            ticket_id: t.ticket_id.clone(),
            project_id: t.project_id.clone(),
            owner: t.owner.clone(),
            media_type: t.media_type.clone(),
            role: t.role.clone(),
            filename: t.filename.clone(),
            max_bytes: t.max_bytes,
            expires_at_ms: t.expires_at_ms,
            used_at_ms: t.used_at_ms,
            token_sha256: String::new(),
            created_at_ms: t.created_at_ms,
        });
        i += 1;
    }
    proof {
        assert(sorted@.to_multiset() == owned_by(all@, owner@).to_multiset());
    }
    Ok(out)
}

proof fn lemma_owned_by_insert_other(ts: Seq<UploadTicket>, i: int, t: UploadTicket, owner: Seq<char>)
    requires
        0 <= i <= ts.len(),
        t.owner@ != owner,
    ensures
        owned_by(ts.insert(i, t), owner) == owned_by(ts, owner),
    decreases ts.len(),
{
    if i == ts.len() {
        assert(ts.insert(i, t).drop_last() =~= ts);
    } else {
        assert(ts.insert(i, t).drop_last() =~= ts.drop_last().insert(i, t));
        lemma_owned_by_insert_other(ts.drop_last(), i, t, owner);
    }
}

/// Other owners' tickets never change what an upload listing holds: with a ticket of
/// another owner added anywhere in a project's index, exactly the same listings of the
/// caller's uploads are right.
pub proof fn law_other_owners_do_not_change_listing(ts: Seq<UploadTicket>, i: int, t: UploadTicket, owner: Seq<char>, out: Seq<UploadTicket>)
    requires
        0 <= i <= ts.len(),
        t.owner@ != owner,
    ensures
        uploads_listing(ts.insert(i, t), owner, out) == uploads_listing(ts, owner, out),
{
    lemma_owned_by_insert_other(ts, i, t, owner);
}

/// Whether `list_uploads_at` lists the caller's uploads at time `now`.
pub open spec fn uploads_listed_at(store: UploadStore, owner: Seq<char>, project_id: Seq<char>, now: u128, listed: bool) -> bool {
    listed <==> is_valid_owner(owner) && project_listable(store, project_id, now)
}

/// Lists the caller's uploads now: the outcome is that of `list_uploads_at` at the time
/// read from the clock.
pub fn list_uploads(store: &UploadStore, owner: &str, project_id: &str) -> (r: Result<Vec<UploadTicket>, McpError>)
    requires
        store_wf(*store),
    ensures
        r matches Ok(out) ==> uploads_listing(store.projects@[project_index(store.projects@, project_id@)->0].tickets@, owner@, out@),
        !is_valid_owner(owner@) || project_index(store.projects@, project_id@) is None ==> r is Err,
        exists|now: u128| #[trigger] uploads_listed_at(*store, owner@, project_id@, now, r is Ok),
{
    let now = now_ms();
    let r = list_uploads_at(store, owner, project_id, now);
    proof {
        assert(uploads_listed_at(*store, owner@, project_id@, now, r is Ok));
    }
    r
}

} // verus!

verus! {

use crate::uploads::{load_upload_receipt_at, copy_receipt, lemma_receipt_found};

/// What registering an uploaded file as a project asset takes.
#[derive(Debug)]
pub struct UploadRegistration {
    pub path: String,
    pub media_type: String,
    pub role: String,
    pub source: AssetSource,
}

/// What completing an upload calls for: nothing more, as it is registered under an
/// asset already, or the registration of the uploaded file.
#[derive(Debug)]
pub enum UploadCompletion {
    Registered(String),
    Register(UploadRegistration),
}

/// Why `complete_upload` refuses at time `now`.
pub open spec fn completion_refused(store: UploadStore, owner: Seq<char>, project_id: Seq<char>, ticket_id: Seq<char>, now: u128) -> bool {
    ||| !is_valid_owner(owner)
    ||| !is_valid_id(ticket_id)
    ||| lookup_ticket(store.projects@, ticket_id) is None
    ||| ({
        let t = lookup_ticket(store.projects@, ticket_id)->0;
        ||| !is_valid_ticket(t, now)
        ||| t.project_id@ != project_id
        ||| t.owner@ != owner
        ||| t.used_at_ms is None
        ||| !receipt_on_file(store.receipts@, t)
    })
}

/// What completing an upload yields for the ticket's receipt: the asset it names, or the
/// registration of the uploaded file.
pub open spec fn completion_of(store: UploadStore, ticket_id: Seq<char>, c: UploadCompletion) -> bool {
    let t = lookup_ticket(store.projects@, ticket_id)->0;
    let rc = receipt_for(store.receipts@, t.project_id@, t.ticket_id@)->0;
    match c {
        UploadCompletion::Registered(a) => rc.asset_id matches Some(x) && a@ == x@,
        UploadCompletion::Register(reg) => rc.asset_id is None && reg.path@ == rc.relative_path@
            && reg.media_type@ == t.media_type@ && reg.role@ == t.role@ && reg.source == t.source,
    }
}

/// Why `complete_upload_at` refuses, in the order it checks: the owner, the ticket, a
/// project or owner other than the ticket's, a ticket that received no bytes, and last a
/// missing receipt.
pub open spec fn completion_refusal(store: UploadStore, owner: Seq<char>, project_id: Seq<char>, ticket_id: Seq<char>, now: u128) -> Seq<char> {
    let t = lookup_ticket(store.projects@, ticket_id)->0;
    if !is_valid_owner(owner) {
        "creative owner identity exceeds allowed bounds"@
    } else if !is_valid_id(ticket_id) || lookup_ticket(store.projects@, ticket_id) is None || !is_valid_ticket(t, now) {
        ticket_load_refusal(store, ticket_id)
    } else if t.project_id@ != project_id || t.owner@ != owner {
        "creative upload ticket project/owner mismatch"@
    } else if t.used_at_ms is None {
        "creative upload has not received bytes"@
    } else {
        receipt_refusal(store.receipts@, t)
    }
}

/// Completes an upload at time `now`: for the owner's used ticket of the project, either
/// the asset that its receipt names, or the registration to perform.
pub fn complete_upload_at(store: &UploadStore, owner: &str, project_id: &str, ticket_id: &str, now: u128) -> (r: Result<UploadCompletion, McpError>)
    ensures
        r is Err <==> completion_refused(*store, owner@, project_id@, ticket_id@, now),
        r matches Err(e) ==> invalid_with(e, completion_refusal(*store, owner@, project_id@, ticket_id@, now)),
        r matches Ok(c) ==> completion_of(*store, ticket_id@, c),
{
    match validate_owner(owner) {
        Ok(()) => {},
        Err(e) => { return Err(e); },
    }
    let ticket = match load_upload_ticket_at(store, ticket_id, now) {
        Ok(t) => t,
        Err(e) => { return Err(e); },
    };
    if !str_eq(ticket.project_id.as_str(), project_id) || !str_eq(ticket.owner.as_str(), owner) {
        return Err(invalid("creative upload ticket project/owner mismatch"));
    }
    if ticket.used_at_ms.is_none() {
        return Err(invalid("creative upload has not received bytes"));
    }
    let receipt = match load_upload_receipt_at(store, ticket_id, now) {
        Ok(rc) => rc,
        Err(e) => { return Err(e); },
    };
    match &receipt.asset_id {
        Some(asset_id) => Ok(UploadCompletion::Registered(asset_id.clone())),
        None => Ok(UploadCompletion::Register(UploadRegistration {
            path: receipt.relative_path.clone(),
            media_type: ticket.media_type.clone(),
            role: ticket.role.clone(),
            source: ticket.source,
        })),
    }
}

/// `complete_upload_at` at time `now` refuses exactly where `refused` says.
pub open spec fn completion_refused_at(store: UploadStore, owner: Seq<char>, project_id: Seq<char>, ticket_id: Seq<char>, now: u128, refused: bool) -> bool {
    refused <==> completion_refused(store, owner, project_id, ticket_id, now)
}

/// Completing an upload a second time registers nothing: once its asset is recorded,
/// every completion that `complete_upload_at` can give names that asset.
pub proof fn law_second_completion_registers_nothing(
    before: UploadStore,
    after: UploadStore,
    owner: Seq<char>,
    project_id: Seq<char>,
    ticket_id: Seq<char>,
    asset_id: Seq<char>,
    now: u128,
    c: UploadCompletion,
)
    requires
        !completion_refused(before, owner, project_id, ticket_id, now),
        after.projects@ == before.projects@,
        ({
            let t = lookup_ticket(before.projects@, ticket_id)->0;
            receipt_for(after.receipts@, t.project_id@, t.ticket_id@) matches Some(rc) && rc.asset_id matches Some(a) && a@ == asset_id
                && receipt_names_ticket(rc, t)
        }),
        completion_of(after, ticket_id, c),
    ensures
        !completion_refused(after, owner, project_id, ticket_id, now),
        c matches UploadCompletion::Registered(a) && a@ == asset_id,
{
}

/// Completes an upload now: the outcome is that of `complete_upload_at` at the time read
/// from the clock.
pub fn complete_upload(store: &UploadStore, owner: &str, project_id: &str, ticket_id: &str) -> (r: Result<UploadCompletion, McpError>)
    ensures
        (forall|now: u128| completion_refused(*store, owner@, project_id@, ticket_id@, now)) ==> r is Err,
        r is Ok ==> exists|now: u128| !completion_refused(*store, owner@, project_id@, ticket_id@, now),
        exists|now: u128| #[trigger] completion_refused_at(*store, owner@, project_id@, ticket_id@, now, r is Err),
        r matches Ok(c) ==> completion_of(*store, ticket_id@, c),
{
    let now = now_ms();
    let r = complete_upload_at(store, owner, project_id, ticket_id, now);
    proof {
        assert(completion_refused_at(*store, owner@, project_id@, ticket_id@, now, r is Err));
    }
    r
}

/// Records, at time `now`, that the upload under `ticket_id` was registered as `asset_id`.
pub fn record_upload_asset(store: &mut UploadStore, owner: &str, project_id: &str, ticket_id: &str, asset_id: &str, now: u128) -> (r: Result<(), McpError>)
    requires
        store_wf(*old(store)),
    ensures
        store_wf(*final(store)),
        r is Err <==> completion_refused(*old(store), owner@, project_id@, ticket_id@, now),
        r is Err ==> *final(store) == *old(store),
        r is Ok ==> final(store).projects@ == old(store).projects@,
        r is Ok ==> ({
            let t = lookup_ticket(old(store).projects@, ticket_id@)->0;
            receipt_for(final(store).receipts@, t.project_id@, t.ticket_id@) matches Some(rc) && rc.asset_id matches Some(a) && a@ == asset_id@
                && receipt_names_ticket(rc, t)
        }),
{
    validate_owner(owner)?;
    let ticket = load_upload_ticket_at(store, ticket_id, now)?;
    if !str_eq(ticket.project_id.as_str(), project_id) || !str_eq(ticket.owner.as_str(), owner) {
        return Err(invalid("creative upload ticket project/owner mismatch"));
    }
    if ticket.used_at_ms.is_none() {
        return Err(invalid("creative upload has not received bytes"));
    }
    let receipt = load_upload_receipt_at(store, ticket_id, now)?;
    proof {
        crate::uploads::lemma_receipt_found(store.receipts@, ticket.project_id@, ticket.ticket_id@);
    }
    let mut updated = copy_receipt(&receipt);
    updated.asset_id = Some(asset_id.to_owned());
    let stored = store_upload_receipt(store, &updated);
    match stored {
        Ok(()) => Ok(()),
        Err(e) => Err(e),
    }
}

/// Completing is idempotent: once an upload's asset is recorded, completing it again
/// names that asset and asks for no second registration.
pub proof fn law_completion_names_recorded_asset(before: UploadStore, after: UploadStore, owner: Seq<char>, project_id: Seq<char>, ticket_id: Seq<char>, asset_id: Seq<char>, now: u128)
    requires
        !completion_refused(before, owner, project_id, ticket_id, now),
        after.projects@ == before.projects@,
        ({
            let t = lookup_ticket(before.projects@, ticket_id)->0;
            receipt_for(after.receipts@, t.project_id@, t.ticket_id@) matches Some(rc) && rc.asset_id matches Some(a) && a@ == asset_id
                && receipt_names_ticket(rc, t)
        }),
    ensures
        !completion_refused(after, owner, project_id, ticket_id, now),
        ({
            let t = lookup_ticket(after.projects@, ticket_id)->0;
            receipt_for(after.receipts@, t.project_id@, t.ticket_id@)->0.asset_id matches Some(a) && a@ == asset_id
        }),
{
}

} // verus!
